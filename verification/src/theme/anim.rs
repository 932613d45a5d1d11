//! Animation state of a theme: flashing text cursors and fading boolean
//! transitions, per widget, with times in nanoseconds.

use std::collections::HashMap;
use vstd::prelude::*;
use vstd::std_specs::iter::IteratorSpec;

verus! {

broadcast use vstd::std_specs::hash::group_hash_axioms;

/// Entries unused for this long (nanoseconds) are dropped
pub const TIMEOUT: u64 = 8_000_000_000;

/// A flashing text cursor: its byte position, whether it is drawn, and
/// when it next toggles
#[derive(Clone, Copy, Debug, PartialEq, Eq, Structural)]
pub struct TextCursor {
    pub byte: usize,
    pub state: bool,
    pub time: u64,
}

/// A boolean transition: the state, when it was last queried, and when
/// its fade ends
#[derive(Clone, Copy, Debug, PartialEq, Eq, Structural)]
pub struct FadeBool {
    pub state: bool,
    pub time: u64,
    pub time_end: u64,
}

/// How far a boolean transition shows: settled at a value (`true` for one,
/// `false` for zero), or partway, at `rem / dur` of the way back from
/// where it came from (`invert`: measured from the other end)
#[derive(Clone, Copy, Debug, PartialEq, Eq, Structural)]
pub enum Fade {
    Value(bool),
    Partial { rem: u64, dur: u64, invert: bool },
}

/// State holding theme animation data
pub struct AnimState {
    pub cursor_blink_rate: u64,
    pub fade_dur: u64,
    /// Start time of the frame
    pub now: u64,
    pub time_next_gc: u64,
    pub text_cursor: HashMap<u64, TextCursor>,
    pub fade_bool: HashMap<u64, FadeBool>,
}

/// Last used at `t`, the entry is still kept at `now`
pub open spec fn recent(t: u64, now: u64) -> bool {
    t + TIMEOUT >= now
}

/// The entries of `m` used recently at `now`
pub open spec fn recent_part<V>(m: Map<u64, V>, time: spec_fn(V) -> u64, now: u64) -> Map<u64, V> {
    Map::new(|k: u64| m.contains_key(k) && recent(time(m[k]), now), |k: u64| m[k])
}

/// The cursors of `m` used recently at `now`
fn recent_cursors(m: &HashMap<u64, TextCursor>, now: u64) -> (r: HashMap<u64, TextCursor>)
    ensures
        r@ == recent_part(m@, |c: TextCursor| c.time, now),
{
    let mut r: HashMap<u64, TextCursor> = HashMap::new();
    let ghost pairs = vstd::std_specs::hash::spec_hash_map_iter(m).remaining();
    for (k, v) in it: m.iter()
        invariant
            it.seq() == pairs,
            pairs == vstd::std_specs::hash::spec_hash_map_iter(m).remaining(),
            forall|key: u64| #[trigger]
                r@.contains_key(key) ==> m@.contains_key(key) && r@[key] == m@[key] && recent(m@[key].time, now),
            forall|j: int|
                0 <= j < pairs.len() && j < it.index() && recent(pairs[j].1.time, now) ==> #[trigger] r@.contains_key(
                    *pairs[j].0,
                ),
    {
        if now <= TIMEOUT || v.time >= now - TIMEOUT {
            r.insert(*k, *v);
        }
    }
    proof {
        assert forall|key: u64| #[trigger] m@.contains_key(key) && recent(m@[key].time, now) implies r@.contains_key(key) by {
            assert(pairs.contains((&key, &m@[key])));
            let j = choose|j: int| 0 <= j < pairs.len() && pairs[j] == (&key, &m@[key]);
            assert(r@.contains_key(*pairs[j].0));
        }
        assert(r@ =~= recent_part(m@, |c: TextCursor| c.time, now));
    }
    r
}

/// The fades of `m` used recently at `now`
fn recent_fades(m: &HashMap<u64, FadeBool>, now: u64) -> (r: HashMap<u64, FadeBool>)
    ensures
        r@ == recent_part(m@, |c: FadeBool| c.time, now),
{
    let mut r: HashMap<u64, FadeBool> = HashMap::new();
    let ghost pairs = vstd::std_specs::hash::spec_hash_map_iter(m).remaining();
    for (k, v) in it: m.iter()
        invariant
            it.seq() == pairs,
            pairs == vstd::std_specs::hash::spec_hash_map_iter(m).remaining(),
            forall|key: u64| #[trigger]
                r@.contains_key(key) ==> m@.contains_key(key) && r@[key] == m@[key] && recent(m@[key].time, now),
            forall|j: int|
                0 <= j < pairs.len() && j < it.index() && recent(pairs[j].1.time, now) ==> #[trigger] r@.contains_key(
                    *pairs[j].0,
                ),
    {
        if now <= TIMEOUT || v.time >= now - TIMEOUT {
            r.insert(*k, *v);
        }
    }
    proof {
        assert forall|key: u64| #[trigger] m@.contains_key(key) && recent(m@[key].time, now) implies r@.contains_key(key) by {
            assert(pairs.contains((&key, &m@[key])));
            let j = choose|j: int| 0 <= j < pairs.len() && pairs[j] == (&key, &m@[key]);
            assert(r@.contains_key(*pairs[j].0));
        }
        assert(r@ =~= recent_part(m@, |c: FadeBool| c.time, now));
    }
    r
}

/// The cursor after a query for `byte` at `now`: an existing cursor at
/// that byte toggles once its time has passed (and is due again one blink
/// later); otherwise a new cursor starts, drawn, due one blink from now
pub open spec fn cursor_step(entry: Option<TextCursor>, byte: usize, now: u64, rate: u64) -> TextCursor {
    match entry {
        Some(e) => if e.byte == byte {
            if e.time < now {
                TextCursor { byte, state: !e.state, time: (e.time + rate) as u64 }
            } else {
                e
            }
        } else {
            TextCursor { byte, state: true, time: (now + rate) as u64 }
        },
        None => TextCursor { byte, state: true, time: (now + rate) as u64 },
    }
}

/// A transition after a query for `state` at `now`: the new entry, how far
/// the transition shows (measured from one), and whether to keep animating.
/// A change of state restarts the fade (showing the old state for now); an
/// unchanged state shows partway until the fade's end; a new entry is
/// settled.
pub open spec fn fade_step(entry: Option<FadeBool>, state: bool, now: u64, dur: u64) -> (FadeBool, Fade, bool) {
    match entry {
        Some(e) => if e.state != state {
            (FadeBool { state, time: now, time_end: (now + dur) as u64 }, Fade::Value(!e.state), true)
        } else if now < e.time_end {
            (
                FadeBool { time: now, ..e },
                Fade::Partial { rem: (e.time_end - now) as u64, dur, invert: !state },
                true,
            )
        } else {
            (FadeBool { time: now, ..e }, Fade::Value(!state), false)
        },
        None => (FadeBool { state, time: now, time_end: now }, Fade::Value(!state), false),
    }
}

/// The complement of a fade (one minus it)
pub open spec fn complement(f: Fade) -> Fade {
    match f {
        Fade::Value(b) => Fade::Value(!b),
        Fade::Partial { rem, dur, invert } => Fade::Partial { rem, dur, invert: !invert },
    }
}

impl AnimState {
    /// Construct at time `now`, with the given blink interval and fade
    /// duration
    pub fn new(cursor_blink_rate: u64, fade_dur: u64, now: u64) -> (r: Self)
        requires
            now + TIMEOUT <= u64::MAX,
        ensures
            r.cursor_blink_rate == cursor_blink_rate,
            r.fade_dur == fade_dur,
            r.now == now,
            r.time_next_gc == now + TIMEOUT,
            r.text_cursor@ == Map::<u64, TextCursor>::empty(),
            r.fade_bool@ == Map::<u64, FadeBool>::empty(),
    {
        AnimState {
            cursor_blink_rate,
            fade_dur,
            now,
            time_next_gc: now + TIMEOUT,
            text_cursor: HashMap::new(),
            fade_bool: HashMap::new(),
        }
    }

    /// Start a frame at `now`; when due, drop entries unused for the
    /// timeout
    pub fn update(&mut self, now: u64)
        requires
            now + TIMEOUT <= u64::MAX,
        ensures
            final(self).now == now,
            final(self).cursor_blink_rate == old(self).cursor_blink_rate,
            final(self).fade_dur == old(self).fade_dur,
            if old(self).time_next_gc <= now {
                &&& final(self).time_next_gc == now + TIMEOUT
                &&& final(self).text_cursor@ == recent_part(old(self).text_cursor@, |c: TextCursor| c.time, now)
                &&& final(self).fade_bool@ == recent_part(old(self).fade_bool@, |c: FadeBool| c.time, now)
            } else {
                &&& final(self).time_next_gc == old(self).time_next_gc
                &&& final(self).text_cursor@ == old(self).text_cursor@
                &&& final(self).fade_bool@ == old(self).fade_bool@
            },
    {
        self.now = now;
        if self.time_next_gc <= self.now {
            self.garbage_collect();
        }
    }

    fn garbage_collect(&mut self)
        requires
            old(self).now + TIMEOUT <= u64::MAX,
        ensures
            final(self).now == old(self).now,
            final(self).cursor_blink_rate == old(self).cursor_blink_rate,
            final(self).fade_dur == old(self).fade_dur,
            final(self).time_next_gc == old(self).now + TIMEOUT,
            final(self).text_cursor@ == recent_part(old(self).text_cursor@, |c: TextCursor| c.time, old(self).now),
            final(self).fade_bool@ == recent_part(old(self).fade_bool@, |c: FadeBool| c.time, old(self).now),
    {
        self.time_next_gc = self.now + TIMEOUT;
        self.text_cursor = recent_cursors(&self.text_cursor, self.now);
        self.fade_bool = recent_fades(&self.fade_bool, self.now);
    }

    /// Flashing text cursor of widget `id` at `byte`: whether to draw it,
    /// and when to animate next
    pub fn text_cursor(&mut self, id: u64, byte: usize) -> (r: (bool, u64))
        requires
            old(self).now + old(self).cursor_blink_rate <= u64::MAX,
        ensures
            ({
                let c = cursor_step(
                    if old(self).text_cursor@.contains_key(id) {
                        Some(old(self).text_cursor@[id])
                    } else {
                        None
                    },
                    byte,
                    old(self).now,
                    old(self).cursor_blink_rate,
                );
                &&& final(self).text_cursor@ == old(self).text_cursor@.insert(id, c)
                &&& r == (c.state, c.time)
            }),
            final(self).fade_bool@ == old(self).fade_bool@,
            final(self).now == old(self).now,
            final(self).time_next_gc == old(self).time_next_gc,
            final(self).cursor_blink_rate == old(self).cursor_blink_rate,
            final(self).fade_dur == old(self).fade_dur,
    {
        let entry = match self.text_cursor.get(&id) {
            Some(e) => Some(*e),
            None => None,
        };
        let c = match entry {
            Some(e) if e.byte == byte => {
                if e.time < self.now {
                    TextCursor { byte, state: !e.state, time: e.time + self.cursor_blink_rate }
                } else {
                    e
                }
            },
            _ => TextCursor { byte, state: true, time: self.now + self.cursor_blink_rate },
        };
        self.text_cursor.insert(id, c);
        (c.state, c.time)
    }

    /// One minus the fade of widget `id`'s boolean `state`, and whether to
    /// keep animating
    pub fn fade_bool_1m(&mut self, id: u64, state: bool) -> (r: (Fade, bool))
        requires
            old(self).now + old(self).fade_dur <= u64::MAX,
        ensures
            ({
                let s = fade_step(
                    if old(self).fade_bool@.contains_key(id) {
                        Some(old(self).fade_bool@[id])
                    } else {
                        None
                    },
                    state,
                    old(self).now,
                    old(self).fade_dur,
                );
                &&& final(self).fade_bool@ == old(self).fade_bool@.insert(id, s.0)
                &&& r == (s.1, s.2)
            }),
            final(self).text_cursor@ == old(self).text_cursor@,
            final(self).now == old(self).now,
            final(self).time_next_gc == old(self).time_next_gc,
            final(self).cursor_blink_rate == old(self).cursor_blink_rate,
            final(self).fade_dur == old(self).fade_dur,
    {
        let now = self.now;
        let (entry, fade, animate) = match self.fade_bool.get(&id) {
            Some(e) => {
                let e = *e;
                if e.state != state {
                    (FadeBool { state, time: now, time_end: now + self.fade_dur }, Fade::Value(!e.state), true)
                } else if now < e.time_end {
                    (
                        FadeBool { time: now, ..e },
                        Fade::Partial { rem: e.time_end - now, dur: self.fade_dur, invert: !state },
                        true,
                    )
                } else {
                    (FadeBool { time: now, ..e }, Fade::Value(!state), false)
                }
            },
            None => (FadeBool { state, time: now, time_end: now }, Fade::Value(!state), false),
        };
        self.fade_bool.insert(id, entry);
        (fade, animate)
    }

    /// The fade of widget `id`'s boolean `state`: one when it is set, zero
    /// when not, and partway shortly after a change; and whether to keep
    /// animating
    pub fn fade_bool(&mut self, id: u64, state: bool) -> (r: (Fade, bool))
        requires
            old(self).now + old(self).fade_dur <= u64::MAX,
        ensures
            ({
                let s = fade_step(
                    if old(self).fade_bool@.contains_key(id) {
                        Some(old(self).fade_bool@[id])
                    } else {
                        None
                    },
                    state,
                    old(self).now,
                    old(self).fade_dur,
                );
                &&& final(self).fade_bool@ == old(self).fade_bool@.insert(id, s.0)
                &&& r == (complement(s.1), s.2)
            }),
            final(self).text_cursor@ == old(self).text_cursor@,
            final(self).now == old(self).now,
            final(self).time_next_gc == old(self).time_next_gc,
            final(self).cursor_blink_rate == old(self).cursor_blink_rate,
            final(self).fade_dur == old(self).fade_dur,
    {
        let (f, animate) = self.fade_bool_1m(id, state);
        let g = match f {
            Fade::Value(b) => Fade::Value(!b),
            Fade::Partial { rem, dur, invert } => Fade::Partial { rem, dur, invert: !invert },
        };
        (g, animate)
    }
}

/// A boolean shows its state (one when set, zero when not) unless it
/// changed within the fade duration: a new entry, or an unchanged state
/// whose fade has ended, is settled and needs no animation.
pub proof fn law_fade_settled(entry: Option<FadeBool>, state: bool, now: u64, dur: u64)
    requires
        entry matches Some(e) ==> e.state == state && now >= e.time_end,
    ensures
        complement(fade_step(entry, state, now, dur).1) == Fade::Value(state),
        !fade_step(entry, state, now, dur).2,
{
}

} // verus!
