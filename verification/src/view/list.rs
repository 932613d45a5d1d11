//! List view controller: the decisions of the 1D view over indexable data.
//!
//! A list view keeps a small pool of view widgets and maps them onto the
//! visible range of data items as the list scrolls. This module holds the
//! controller's layout and mapping state and decides which data indices are
//! visible, which widgets must be (re)assigned, where each item is placed and
//! where keyboard navigation moves focus. Building, configuring and drawing
//! the widgets themselves is done by the caller, which performs the actions
//! decided here.

use crate::geom::{clamp, div_trunc, Coord, Direction, Offset, Rect, Size};
use crate::view::clerk::{DataChanges, DataLen, TokenChanges};
use crate::view::index::{child_to_data, lemma_child_to_data, spec_child_to_data};
use vstd::prelude::*;

verus! {

/// Pending update of view widgets' tokens
#[derive(Clone, Copy, Debug, PartialEq, Eq, Structural)]
pub enum Update {
    /// No forced update
    NoUpdate,
    /// Tokens must be updated
    Token,
    /// Widgets must be re-configured
    Configure,
}

impl Update {
    /// Position in the order `NoUpdate < Token < Configure`
    pub open spec fn rank(self) -> int {
        match self {
            Update::NoUpdate => 0,
            Update::Token => 1,
            Update::Configure => 2,
        }
    }

    /// The larger of two updates
    pub fn max(self, other: Update) -> (r: Update)
        ensures
            r.rank() == if self.rank() >= other.rank() {
                self.rank()
            } else {
                other.rank()
            },
    {
        match (self, other) {
            (Update::Configure, _) | (_, Update::Configure) => Update::Configure,
            (Update::Token, _) | (_, Update::Token) => Update::Token,
            _ => Update::NoUpdate,
        }
    }
}

/// Navigation commands handled by view controllers
#[derive(Clone, Copy, Debug, PartialEq, Eq, Structural)]
pub enum Command {
    Home,
    DocHome,
    End,
    DocEnd,
    Left,
    WordLeft,
    Up,
    Right,
    WordRight,
    Down,
    PageUp,
    PageDown,
    /// Any command not used for navigation
    Other,
}

/// Placement of the data items of a list
#[derive(Clone, Copy, Debug, PartialEq, Eq, Structural)]
pub struct PositionSolver {
    pub pos_start: Coord,
    pub skip: Offset,
    pub size: Size,
    pub first_data: usize,
    pub cur_len: usize,
}

/// `a + b * i`, as a mathematical integer
pub open spec fn spec_step(a: i32, b: i32, i: int) -> int {
    a as int + b as int * i
}

impl PositionSolver {
    /// Map a child index to a data index
    pub fn child_to_data(&self, index: usize) -> (r: usize)
        requires
            0 < self.cur_len,
            index < self.cur_len,
            self.first_data + self.cur_len <= usize::MAX,
        ensures
            r == spec_child_to_data(self.first_data as int, self.cur_len as int, index as int),
            self.first_data <= r < self.first_data + self.cur_len,
            r % self.cur_len == index,
    {
        child_to_data(self.first_data, self.cur_len, index)
    }

    /// Rect of data item `i`: positioned `i` steps of `skip` from the start
    pub fn rect(&self, i: usize) -> (r: Rect)
        requires
            i <= i32::MAX,
            i32::MIN <= spec_step(self.pos_start.0, self.skip.0, i as int) <= i32::MAX,
            i32::MIN <= spec_step(self.pos_start.1, self.skip.1, i as int) <= i32::MAX,
            i32::MIN <= self.skip.0 * i <= i32::MAX,
            i32::MIN <= self.skip.1 * i <= i32::MAX,
        ensures
            r.pos.0 == spec_step(self.pos_start.0, self.skip.0, i as int),
            r.pos.1 == spec_step(self.pos_start.1, self.skip.1, i as int),
            r.size == self.size,
    {
        let n = i as i32;
        let x = self.pos_start.0 + self.skip.0 * n;
        let y = self.pos_start.1 + self.skip.1 * n;
        Rect::new(Coord(x, y), self.size)
    }
}

/// What to do with one view widget while mapping data to widgets
#[derive(Clone, Copy, Debug, PartialEq, Eq, Structural)]
pub struct WidgetAction {
    /// Assign the new key, configure and size the widget
    pub configure: bool,
    /// Update the widget's data
    pub update: bool,
    /// Set the widget's rect
    pub set_rect: bool,
}

/// Decide what to do with a widget whose token was updated with result
/// `changes`: a new key (or a forced re-configure) requires configuring the
/// widget, otherwise a changed item requires an update; configured widgets
/// and all widgets during a forced rect update are placed anew.
pub fn widget_action(changes: TokenChanges, token_update: Update, rect_update: bool) -> (r:
    WidgetAction)
    ensures
        r.configure == (changes == TokenChanges::Any || token_update == Update::Configure),
        r.update == (!r.configure && changes != TokenChanges::NoChange),
        r.set_rect == (rect_update || r.configure),
{
    let configure = changes.key() || matches!(token_update, Update::Configure);
    let update = !configure && changes.item();
    WidgetAction { configure, update, set_rect: rect_update || configure }
}

/// The outcome of re-mapping after a scroll
#[derive(Clone, Copy, Debug, PartialEq, Eq)]
pub struct ScrollStep {
    /// The data length changed: the content size must be updated
    pub content_resized: bool,
    /// Data indices `start..end` must be mapped to widgets
    pub map_range: Option<(usize, usize)>,
}

/// What must follow an update reported by the data clerk
#[derive(Clone, Copy, Debug, PartialEq, Eq, Structural)]
pub enum ClerkAction {
    /// Nothing to do
    Nothing,
    /// The visible range must be recomputed (as after scrolling)
    PostScroll,
    /// Data indices `start..end` must be re-mapped
    MapRange(usize, usize),
}


pub open spec fn min(a: int, b: int) -> int {
    if a <= b {
        a
    } else {
        b
    }
}

pub open spec fn max(a: int, b: int) -> int {
    if a >= b {
        a
    } else {
        b
    }
}

/// The bits of a scroll offset carried by the virtual offset
pub open spec fn spec_virtual_offset(offset: i32) -> int {
    -((offset & 0x7FF0_0000i32) as int)
}

/// The range of data indices to map after the view moved from
/// `old_start..old_end` to `start..end`. All of it is mapped when `force`.
pub open spec fn spec_map_range(force: bool, start: int, end: int, old_start: int, old_end: int) -> (
    int,
    int,
) {
    if force {
        (start, end)
    } else if start >= old_start {
        (max(start, old_end), end)
    } else if end <= old_end {
        (start, min(end, old_start))
    } else {
        (start, end)
    }
}

/// Every data index which becomes visible is mapped.
pub proof fn law_new_items_mapped(
    force: bool,
    start: int,
    end: int,
    old_start: int,
    old_end: int,
    i: int,
)
    requires
        start <= i < end,
        !(old_start <= i < old_end),
    ensures
        ({
            let (s, e) = spec_map_range(force, start, end, old_start, old_end);
            s <= i < e
        }),
{
}

/// The layout and mapping state of a list view
#[derive(Clone, Copy, Debug, PartialEq, Eq, Structural)]
pub struct ListLayout {
    pub direction: Direction,
    pub rect: Rect,
    pub frame_offset: Offset,
    pub frame_size: Size,
    pub data_len: u32,
    pub token_update: Update,
    pub rect_update: bool,
    pub len_is_known: bool,
    /// The number of widgets in use
    pub cur_len: u32,
    /// First data item mapped to a widget
    pub first_data: u32,
    pub ideal_visible: i32,
    pub child_size_min: i32,
    pub child_size_ideal: i32,
    pub child_inter_margin: i32,
    pub skip: i32,
    pub child_size: Size,
    /// Widget translation is the scroll offset plus the virtual offset
    pub virtual_offset: i32,
}

impl ListLayout {
    /// Construct a new instance
    pub fn new(direction: Direction) -> (r: Self)
        ensures
            r.direction == direction,
            r.data_len == 0,
            r.cur_len == 0,
            r.first_data == 0,
            r.token_update == Update::NoUpdate,
            !r.rect_update,
            !r.len_is_known,
            r.ideal_visible == 5,
            r.child_size_min == 0,
            r.child_size_ideal == 0,
            r.child_inter_margin == 0,
            r.skip == 1,
            r.child_size == Size(0, 0),
            r.virtual_offset == 0,
            r.rect == (Rect { pos: Coord(0, 0), size: Size(0, 0) }),
            r.frame_offset == Offset(0, 0),
            r.frame_size == Size(0, 0),
    {
        ListLayout {
            direction,
            rect: Rect::new(Coord(0, 0), Size(0, 0)),
            frame_offset: Offset(0, 0),
            frame_size: Size(0, 0),
            data_len: 0,
            token_update: Update::NoUpdate,
            rect_update: false,
            len_is_known: false,
            cur_len: 0,
            first_data: 0,
            ideal_visible: 5,
            child_size_min: 0,
            child_size_ideal: 0,
            child_inter_margin: 0,
            skip: 1,
            child_size: Size(0, 0),
            virtual_offset: 0,
        }
    }

    /// Get the range of visible data items
    pub fn view_range(&self) -> (r: (usize, usize))
        requires
            self.first_data + self.cur_len <= usize::MAX,
        ensures
            r.0 == self.first_data,
            r.1 == self.first_data + self.cur_len,
    {
        let start = self.first_data as usize;
        (start, start + self.cur_len as usize)
    }

    /// Get the direction of contents
    pub fn direction(&self) -> (r: Direction)
        ensures
            r == self.direction,
    {
        self.direction
    }

    /// Set the direction of contents; returns true if the rect must be set
    /// anew
    pub fn set_direction(&mut self, direction: Direction) -> (r: bool)
        ensures
            r == (direction != old(self).direction),
            *final(self) == (ListLayout { direction, ..*old(self) }),
    {
        if direction != self.direction {
            self.direction = direction;
            true
        } else {
            false
        }
    }

    /// Set the preferred number of items visible (inline)
    pub fn with_num_visible(self, number: i32) -> (r: Self)
        ensures
            r == (ListLayout { ideal_visible: number, ..self }),
    {
        ListLayout { ideal_visible: number, ..self }
    }

    /// The virtual offset, along the list's axis
    pub fn virtual_offset(&self) -> (r: Offset)
        ensures
            r == if self.direction.spec_is_vertical() {
                Offset(0, self.virtual_offset)
            } else {
                Offset(self.virtual_offset, 0)
            },
    {
        if self.direction.is_vertical() {
            Offset(0, self.virtual_offset)
        } else {
            Offset(self.virtual_offset, 0)
        }
    }

    /// The step between items: `skip` along the list's axis
    pub open spec fn spec_skip_offset(self) -> Offset {
        if self.direction.spec_is_vertical() {
            Offset(0, self.skip)
        } else {
            Offset(self.skip, 0)
        }
    }

    /// Position of the first mapped widget
    pub open spec fn spec_pos_start(self) -> (int, int) {
        let vo = if self.direction.spec_is_vertical() {
            (0int, self.virtual_offset as int)
        } else {
            (self.virtual_offset as int, 0int)
        };
        (
            self.rect.pos.0 + self.frame_offset.0 + vo.0,
            self.rect.pos.1 + self.frame_offset.1 + vo.1,
        )
    }

    /// Position arithmetic stays within `i32`
    pub open spec fn positions_in_range(self) -> bool {
        let p = self.spec_pos_start();
        let n = if self.data_len == 0 {
            0int
        } else {
            self.data_len - 1
        };
        &&& i32::MIN <= self.rect.pos.0 + self.frame_offset.0 <= i32::MAX
        &&& i32::MIN <= self.rect.pos.1 + self.frame_offset.1 <= i32::MAX
        &&& i32::MIN <= p.0 <= i32::MAX
        &&& i32::MIN <= p.1 <= i32::MAX
        &&& self.data_len <= i32::MAX
        &&& i32::MIN <= self.skip * n <= i32::MAX
        &&& i32::MIN <= p.0 + self.skip * n <= i32::MAX
        &&& i32::MIN <= p.1 + self.skip * n <= i32::MAX
        &&& self.skip != i32::MIN
    }

    /// The position solver for the current state
    ///
    /// For reversed directions with a known length, data item `0` is placed
    /// last: the start moves to the position of the last item and the step
    /// is negated.
    pub fn position_solver(&self) -> (r: PositionSolver)
        requires
            self.positions_in_range(),
            self.first_data <= self.data_len,
        ensures
            r.cur_len == self.cur_len,
            r.size == self.child_size,
            !(self.direction.spec_is_reversed() && self.len_is_known) ==> {
                &&& r.first_data == self.first_data
                &&& r.skip == self.spec_skip_offset()
                &&& r.pos_start.0 == self.spec_pos_start().0
                &&& r.pos_start.1 == self.spec_pos_start().1
            },
            self.direction.spec_is_reversed() && self.len_is_known ==> {
                let n = if self.data_len == 0 {
                    0int
                } else {
                    self.data_len - 1
                };
                let s = self.spec_skip_offset();
                &&& r.first_data == max(self.data_len - self.first_data - self.cur_len, 0)
                &&& r.skip.0 == -s.0
                &&& r.skip.1 == -s.1
                &&& r.pos_start.0 == self.spec_pos_start().0 + s.0 * n
                &&& r.pos_start.1 == self.spec_pos_start().1 + s.1 * n
            },
    {
        let cur_len = self.cur_len as usize;
        let mut first_data = self.first_data as usize;
        let vo = self.virtual_offset();
        let mut pos_start = Coord(
            self.rect.pos.0 + self.frame_offset.0 + vo.0,
            self.rect.pos.1 + self.frame_offset.1 + vo.1,
        );
        let mut skip = if self.direction.is_vertical() {
            Offset(0, self.skip)
        } else {
            Offset(self.skip, 0)
        };
        if self.direction.is_reversed() && self.len_is_known {
            let data_len = self.data_len as usize;
            let rest = data_len - first_data;
            first_data = if rest >= cur_len {
                rest - cur_len
            } else {
                0
            };
            let n: i32 = if data_len == 0 {
                0
            } else {
                (data_len - 1) as i32
            };
            proof {
                if self.direction.spec_is_vertical() {
                    assert(0 * n == 0);
                } else {
                    assert(0 * n == 0);
                }
            }
            pos_start = Coord(pos_start.0 + skip.0 * n, pos_start.1 + skip.1 * n);
            skip = Offset(-skip.0, -skip.1);
        }
        PositionSolver { pos_start, skip, size: self.child_size, first_data, cur_len }
    }
}


/// `x` clamped to `min..=max` (which must be ordered, as `Ord::clamp` asserts)
pub fn clamp_i32(x: i32, min: i32, max: i32) -> (r: i32)
    requires
        min <= max,
    ensures
        r == clamp(x as int, min as int, max as int),
{
    if x < min {
        min
    } else if x > max {
        max
    } else {
        x
    }
}

/// The data index to focus after a navigation command
///
/// `cur` is the focused data index, `last` the last data index, `page` the
/// number of widgets in use and `is_vert` whether the list is vertical.
pub open spec fn spec_command_target(
    cmd: Command,
    is_vert: bool,
    cur: int,
    last: int,
    page: int,
) -> Option<int> {
    match cmd {
        Command::Home | Command::DocHome => Some(0),
        Command::End | Command::DocEnd => Some(last),
        Command::Left if !is_vert && cur > 0 => Some(cur - 1),
        Command::WordLeft if !is_vert && cur > 0 => Some(cur - 1),
        Command::Up if is_vert && cur > 0 => Some(cur - 1),
        Command::Right if !is_vert && cur < last => Some(cur + 1),
        Command::WordRight if !is_vert && cur < last => Some(cur + 1),
        Command::Down if is_vert && cur < last => Some(cur + 1),
        Command::PageUp if cur > 0 => Some(max(cur - page / 2, 0)),
        Command::PageDown if cur < last => Some(min(cur + page / 2, last)),
        _ => None,
    }
}

/// Keyboard navigation in a list over the data indices `0..=last` with
/// focus on `cur`: Home and End (and their document forms) go to the first
/// and the last item; in a vertical list Up and Down move to the previous
/// and the next item and Left and Right do nothing, in a horizontal list the
/// other way round (the word forms acting as Left and Right); a step past
/// either end does nothing; Page Up and Page Down move by half a page, no
/// further than the first or the last item, and do nothing there; other
/// commands do nothing
pub proof fn law_list_navigation(is_vert: bool, cur: int, last: int, page: int)
    requires
        0 <= cur <= last,
        0 <= page,
    ensures
        spec_command_target(Command::Home, is_vert, cur, last, page) == Some(0int),
        spec_command_target(Command::DocHome, is_vert, cur, last, page) == Some(0int),
        spec_command_target(Command::End, is_vert, cur, last, page) == Some(last),
        spec_command_target(Command::DocEnd, is_vert, cur, last, page) == Some(last),
        spec_command_target(Command::Up, is_vert, cur, last, page) == if is_vert && cur > 0 {
            Some(cur - 1)
        } else {
            None
        },
        spec_command_target(Command::Down, is_vert, cur, last, page) == if is_vert && cur < last {
            Some(cur + 1)
        } else {
            None
        },
        spec_command_target(Command::Left, is_vert, cur, last, page) == if !is_vert && cur > 0 {
            Some(cur - 1)
        } else {
            None
        },
        spec_command_target(Command::WordLeft, is_vert, cur, last, page) == spec_command_target(
            Command::Left,
            is_vert,
            cur,
            last,
            page,
        ),
        spec_command_target(Command::Right, is_vert, cur, last, page) == if !is_vert && cur < last {
            Some(cur + 1)
        } else {
            None
        },
        spec_command_target(Command::WordRight, is_vert, cur, last, page) == spec_command_target(
            Command::Right,
            is_vert,
            cur,
            last,
            page,
        ),
        cur == 0 ==> spec_command_target(Command::PageUp, is_vert, cur, last, page) is None,
        cur > 0 ==> spec_command_target(Command::PageUp, is_vert, cur, last, page) == Some(
            if cur - page / 2 >= 0 {
                cur - page / 2
            } else {
                0
            },
        ),
        cur == last ==> spec_command_target(Command::PageDown, is_vert, cur, last, page) is None,
        cur < last ==> spec_command_target(Command::PageDown, is_vert, cur, last, page) == Some(
            if cur + page / 2 <= last {
                cur + page / 2
            } else {
                last
            },
        ),
        spec_command_target(Command::Other, is_vert, cur, last, page) is None,
{
}

/// The data index to focus after a navigation command (see
/// [`spec_command_target`]); the result is always a valid data index.
pub fn command_target(cmd: Command, is_vert: bool, cur: usize, last: usize, page: usize) -> (r:
    Option<usize>)
    requires
        cur <= last,
    ensures
        r matches Some(i) ==> i <= last,
        r matches Some(i) ==> spec_command_target(cmd, is_vert, cur as int, last as int, page as int)
            == Some(i as int),
        r is None ==> spec_command_target(cmd, is_vert, cur as int, last as int, page as int) is None,
        cmd == Command::Down && is_vert && cur < last ==> r == Some((cur + 1) as usize),
        cmd == Command::Up && is_vert && cur > 0 ==> r == Some((cur - 1) as usize),
        (cmd == Command::Right || cmd == Command::WordRight) && !is_vert && cur < last ==> r == Some(
            (cur + 1) as usize,
        ),
        (cmd == Command::Left || cmd == Command::WordLeft) && !is_vert && cur > 0 ==> r == Some(
            (cur - 1) as usize,
        ),
{
    match cmd {
        Command::Home | Command::DocHome => Some(0),
        Command::End | Command::DocEnd => Some(last),
        Command::Left if !is_vert && cur > 0 => Some(cur - 1),
        Command::WordLeft if !is_vert && cur > 0 => Some(cur - 1),
        Command::Up if is_vert && cur > 0 => Some(cur - 1),
        Command::Right if !is_vert && cur < last => Some(cur + 1),
        Command::WordRight if !is_vert && cur < last => Some(cur + 1),
        Command::Down if is_vert && cur < last => Some(cur + 1),
        Command::PageUp if cur > 0 => Some(
            if cur >= page / 2 {
                cur - page / 2
            } else {
                0
            },
        ),
        Command::PageDown if cur < last => {
            let half = page / 2;
            Some(
                if half <= last - cur {
                    cur + half
                } else {
                    last
                },
            )
        },
        _ => None,
    }
}

/// The data index to visit next in keyboard navigation from the item at
/// data index `from` (or from outside the list when `None`), or `None` at
/// the end of the list.
pub open spec fn spec_nav_step(from: Option<int>, reverse: bool, data_len: int) -> Option<int> {
    match from {
        Some(d) => if !reverse && d < data_len - 1 {
            Some(d + 1)
        } else if reverse && d > 0 {
            Some(d - 1)
        } else {
            None
        },
        None => if !reverse {
            Some(0)
        } else {
            Some(data_len - 1)
        },
    }
}

/// Navigation step through a non-empty list (see [`spec_nav_step`]); the
/// result is always a valid data index.
pub fn nav_step(from: Option<usize>, reverse: bool, data_len: usize) -> (r: Option<usize>)
    requires
        data_len > 0,
        from matches Some(d) ==> d < data_len,
    ensures
        r matches Some(i) ==> i < data_len,
        r matches Some(i) ==> spec_nav_step(
            match from {
                Some(d) => Some(d as int),
                None => None,
            },
            reverse,
            data_len as int,
        ) == Some(i as int),
        r is None ==> spec_nav_step(
            match from {
                Some(d) => Some(d as int),
                None => None,
            },
            reverse,
            data_len as int,
        ) is None,
{
    let last = data_len - 1;
    match from {
        Some(d) => if !reverse && d < last {
            Some(d + 1)
        } else if reverse && d > 0 {
            Some(d - 1)
        } else {
            None
        },
        None => if !reverse {
            Some(0)
        } else {
            Some(last)
        },
    }
}

impl ListLayout {
    /// Index arithmetic of the list fits machine integers
    pub open spec fn indices_in_range(self) -> bool {
        &&& self.first_data + self.cur_len <= self.data_len
        &&& self.data_len <= usize::MAX
    }

    /// The data index to focus after a navigation command while the widget
    /// `focus` (an index into the widgets in use) has focus.
    ///
    /// Returns `None` (the command is unused) when the list is empty, when
    /// no child has focus, or when the command does not move focus.
    pub fn command_target(&self, cmd: Command, focus: Option<usize>) -> (r: Option<usize>)
        requires
            self.positions_in_range(),
            self.indices_in_range(),
            focus matches Some(i) ==> i < self.cur_len,
        ensures
            self.data_len == 0 || focus is None ==> r is None,
            r matches Some(i) ==> i < self.data_len,
            self.data_len > 0 && focus is Some ==> {
                let solver_first = if self.direction.spec_is_reversed() && self.len_is_known {
                    max(self.data_len - self.first_data - self.cur_len, 0)
                } else {
                    self.first_data as int
                };
                let cur = spec_child_to_data(solver_first, self.cur_len as int, focus->0 as int);
                match r {
                    Some(i) => spec_command_target(
                        cmd,
                        self.direction.spec_is_vertical(),
                        cur,
                        self.data_len - 1,
                        self.cur_len as int,
                    ) == Some(i as int),
                    None => spec_command_target(
                        cmd,
                        self.direction.spec_is_vertical(),
                        cur,
                        self.data_len - 1,
                        self.cur_len as int,
                    ) is None,
                }
            },
    {
        if self.data_len == 0 {
            return None;
        }
        let index = match focus {
            Some(index) => index,
            None => {
                return None;
            },
        };
        let solver = self.position_solver();
        let cur = solver.child_to_data(index);
        let last = self.data_len as usize - 1;
        command_target(cmd, self.direction.is_vertical(), cur, last, solver.cur_len)
    }

    /// The data index to visit next in keyboard navigation from widget
    /// `from` (an index into the widgets in use), or `None` at the end
    pub fn nav_step(&self, from: Option<usize>, reverse: bool) -> (r: Option<usize>)
        requires
            self.positions_in_range(),
            self.indices_in_range(),
            self.cur_len > 0,
            from matches Some(i) ==> i < self.cur_len,
        ensures
            r matches Some(i) ==> i < self.data_len,
            ({
                let solver_first = if self.direction.spec_is_reversed() && self.len_is_known {
                    max(self.data_len - self.first_data - self.cur_len, 0)
                } else {
                    self.first_data as int
                };
                let d = match from {
                    Some(i) => Some(spec_child_to_data(solver_first, self.cur_len as int, i as int)),
                    None => None,
                };
                match r {
                    Some(i) => spec_nav_step(d, reverse, self.data_len as int) == Some(i as int),
                    None => spec_nav_step(d, reverse, self.data_len as int) is None,
                }
            }),
    {
        let solver = self.position_solver();
        let d = match from {
            Some(index) => Some(solver.child_to_data(index)),
            None => None,
        };
        nav_step(d, reverse, self.data_len as usize)
    }

    /// The lower bound passed to the clerk's `len` when re-mapping after a
    /// scroll to `offset` with `alloc_len` widgets, or `None` when the length
    /// is already known.
    pub fn post_scroll_lbound(&self, offset: i32, alloc_len: usize) -> (r: Option<usize>)
        requires
            offset >= 0,
            self.skip >= 1,
            offset / self.skip + 2 * alloc_len <= usize::MAX,
        ensures
            r == if self.len_is_known {
                None::<usize>
            } else {
                Some((offset / self.skip + 2 * alloc_len) as usize)
            },
    {
        if self.len_is_known {
            None
        } else {
            let first = (offset / self.skip) as usize;
            Some(first + 2 * alloc_len)
        }
    }

    /// Re-map after scrolling to `offset` (along the list's axis)
    ///
    /// `reported` is the clerk's length report for the lower bound given by
    /// [`Self::post_scroll_lbound`], present exactly when the length was not
    /// yet known. The view then shows the data indices
    /// `first_data..first_data + cur_len`; of these, `map_range` (if any)
    /// must be mapped to widgets, after which [`Self::finish_map`] is called.
    pub fn post_scroll(&mut self, offset: i32, alloc_len: usize, reported: Option<DataLen<usize>>) -> (r:
        ScrollStep)
        requires
            offset >= 0,
            old(self).skip >= 1,
            old(self).len_is_known == reported is None,
            reported matches Some(d) ==> d.spec_len() <= u32::MAX,
            alloc_len <= u32::MAX,
            old(self).first_data + old(self).cur_len <= usize::MAX,
        ensures
            ({
                let first = offset / old(self).skip;
                let len = match reported {
                    Some(d) => d.spec_len() as int,
                    None => old(self).data_len as int,
                };
                let known = match reported {
                    Some(d) => d is Known,
                    None => true,
                };
                let cur = min(len, alloc_len as int);
                let start = min(first, len - cur);
                let vo_changed = spec_virtual_offset(offset) != old(self).virtual_offset;
                let force = vo_changed || old(self).rect_update || old(self).token_update
                    != Update::NoUpdate;
                let range = spec_map_range(
                    force,
                    start,
                    start + cur,
                    old(self).first_data as int,
                    old(self).first_data + old(self).cur_len,
                );
                &&& final(self).len_is_known == known
                &&& final(self).data_len == len
                &&& r.content_resized == (reported is Some && len != old(self).data_len)
                &&& final(self).cur_len == cur
                &&& final(self).first_data == start
                &&& final(self).virtual_offset == spec_virtual_offset(offset)
                &&& final(self).rect_update == (old(self).rect_update || vo_changed)
                &&& r.map_range == if range.0 < range.1 {
                    Some((range.0 as usize, range.1 as usize))
                } else {
                    None::<(usize, usize)>
                }
            }),
            final(self).first_data + final(self).cur_len <= final(self).data_len,
            final(self).cur_len <= alloc_len,
            r.map_range matches Some((s, e)) ==> final(self).first_data <= s < e
                <= final(self).first_data + final(self).cur_len,
            final(self).token_update == old(self).token_update,
            final(self).direction == old(self).direction,
            final(self).rect == old(self).rect,
            final(self).skip == old(self).skip,
            final(self).child_size == old(self).child_size,
            final(self).ideal_visible == old(self).ideal_visible,
            final(self).child_size_min == old(self).child_size_min,
            final(self).child_size_ideal == old(self).child_size_ideal,
            final(self).child_inter_margin == old(self).child_inter_margin,
            final(self).frame_offset == old(self).frame_offset,
            final(self).frame_size == old(self).frame_size,
    {
        let first_data = (offset / self.skip) as usize;
        let mut content_resized = false;
        let data_len: usize;
        match reported {
            Some(result) => {
                self.len_is_known = result.is_known();
                data_len = result.len();
                if data_len != self.data_len as usize {
                    self.data_len = data_len as u32;
                    content_resized = true;
                }
            },
            None => {
                data_len = self.data_len as usize;
            },
        }
        let cur_len = if data_len <= alloc_len {
            data_len
        } else {
            alloc_len
        };
        let first_data = if first_data <= data_len - cur_len {
            first_data
        } else {
            data_len - cur_len
        };

        let old_start = self.first_data as usize;
        let old_end = old_start + self.cur_len as usize;
        let (mut start, mut end) = (first_data, first_data + cur_len);

        assert(0 <= (offset & 0x7FF0_0000i32) <= 0x7FF0_0000i32) by (bit_vector)
            requires
                offset >= 0,
        ;
        let virtual_offset = -(offset & 0x7FF0_0000);
        if virtual_offset != self.virtual_offset {
            self.virtual_offset = virtual_offset;
            self.rect_update = true;
        } else if self.rect_update || !matches!(self.token_update, Update::NoUpdate) {
            // This forces an update to all widgets
        } else if start >= old_start {
            if start < old_end {
                start = old_end;
            }
        } else if end <= old_end {
            if end > old_start {
                end = old_start;
            }
        }

        self.cur_len = cur_len as u32;
        self.first_data = first_data as u32;

        let map_range = if start < end {
            Some((start, end))
        } else {
            None
        };
        ScrollStep { content_resized, map_range }
    }

    /// Clear the forced-update flags after widgets were mapped
    pub fn finish_map(&mut self)
        ensures
            *final(self) == (ListLayout {
                token_update: Update::NoUpdate,
                rect_update: false,
                ..*old(self)
            }),
    {
        self.token_update = Update::NoUpdate;
        self.rect_update = false;
    }

    /// Handle an update reported by the data clerk
    ///
    /// `reported` is the clerk's length for the lower bound
    /// `first_data + 2 * alloc_len`. A changed length which changes the
    /// number of widgets in use or reaches the visible range requires a
    /// re-map as after scrolling; otherwise the visible part of the changed
    /// range is re-mapped.
    pub fn handle_clerk_update(&mut self, changes: DataChanges<usize>, reported: DataLen<usize>, alloc_len: usize) -> (r:
        ClerkAction)
        requires
            reported.spec_len() <= u32::MAX,
            alloc_len <= u32::MAX,
            old(self).first_data + old(self).cur_len <= usize::MAX,
        ensures
            ({
                let start = old(self).first_data as int;
                let end = start + old(self).cur_len;
                let len = reported.spec_len() as int;
                let cur = min(len, alloc_len as int);
                let resize = len != old(self).data_len && (old(self).cur_len != cur || end >= min(
                    len,
                    old(self).data_len as int,
                ));
                let range = match changes {
                    DataChanges::NoChange | DataChanges::NoPreparedItems => (0int, 0int),
                    DataChanges::Range(rg) => (max(start, rg.start as int), min(end, rg.end as int)),
                    DataChanges::Any => (start, end),
                };
                &&& final(self).len_is_known == (reported is Known)
                &&& final(self).data_len == len
                &&& resize ==> {
                    &&& r == ClerkAction::PostScroll
                    &&& final(self).cur_len == cur
                    &&& final(self).token_update.rank() == max(old(self).token_update.rank(), 1)
                }
                &&& !resize && range.0 < range.1 ==> {
                    &&& r == ClerkAction::MapRange(range.0 as usize, range.1 as usize)
                    &&& final(self).cur_len == old(self).cur_len
                    &&& final(self).token_update.rank() == max(old(self).token_update.rank(), 1)
                }
                &&& !resize && !(range.0 < range.1) ==> {
                    &&& r == ClerkAction::Nothing
                    &&& final(self).cur_len == old(self).cur_len
                    &&& final(self).token_update == old(self).token_update
                }
            }),
            final(self).first_data == old(self).first_data,
            final(self).rect_update == old(self).rect_update,
            final(self).virtual_offset == old(self).virtual_offset,
            final(self).direction == old(self).direction,
            final(self).skip == old(self).skip,
    {
        let start = self.first_data as usize;
        let end = start + self.cur_len as usize;
        self.len_is_known = reported.is_known();
        let data_len = reported.len();
        if data_len != self.data_len as usize {
            let old_len = self.data_len as usize;
            self.data_len = data_len as u32;
            let cur_len = if data_len <= alloc_len {
                data_len
            } else {
                alloc_len
            };
            let limit = if data_len <= old_len {
                data_len
            } else {
                old_len
            };
            if self.cur_len as usize != cur_len || end >= limit {
                self.cur_len = cur_len as u32;
                self.token_update = self.token_update.max(Update::Token);
                return ClerkAction::PostScroll;
            }
        }

        let (s, e) = match changes {
            DataChanges::NoChange | DataChanges::NoPreparedItems => (0, 0),
            DataChanges::Range(rg) => (
                if start >= rg.start {
                    start
                } else {
                    rg.start
                },
                if end <= rg.end {
                    end
                } else {
                    rg.end
                },
            ),
            DataChanges::Any => (start, end),
        };

        if s < e {
            self.token_update = self.token_update.max(Update::Token);
            ClerkAction::MapRange(s, e)
        } else {
            ClerkAction::Nothing
        }
    }

    /// Size of the scrollable content (`Scrollable::content_size`): the
    /// data items at their ideal size with margins between them
    pub fn content_size(&self) -> (r: Size)
        requires
            self.data_len <= i32::MAX,
            i32::MIN <= self.child_size_ideal + self.child_inter_margin <= i32::MAX,
            i32::MIN <= (self.child_size_ideal + self.child_inter_margin) * self.data_len
                - self.child_inter_margin <= i32::MAX,
            i32::MIN <= (self.child_size_ideal + self.child_inter_margin) * self.data_len
                <= i32::MAX,
        ensures
            ({
                let step = self.child_size_ideal + self.child_inter_margin;
                let len = max(step * self.data_len - self.child_inter_margin, 0);
                if self.direction.spec_is_vertical() {
                    r == Size(0, len as i32)
                } else {
                    r == Size(len as i32, 0)
                }
            }),
    {
        let data_len = self.data_len as i32;
        let m = self.child_inter_margin;
        let step = self.child_size_ideal + m;
        let total = step * data_len - m;
        let len = if total >= 0 {
            total
        } else {
            0
        };
        if self.direction.is_vertical() {
            Size(0, len)
        } else {
            Size(len, 0)
        }
    }

    /// The view and content sizes used to update the scroll component: the
    /// content extends `skip * data_len - child_inter_margin` (at least 0)
    /// along the list's axis and matches the view on the other axis.
    pub fn view_and_content_size(&self) -> (r: (Size, Size))
        requires
            self.data_len <= i32::MAX,
            i32::MIN <= self.rect.size.0 - self.frame_size.0 <= i32::MAX,
            i32::MIN <= self.rect.size.1 - self.frame_size.1 <= i32::MAX,
            i32::MIN <= self.skip * self.data_len <= i32::MAX,
            i32::MIN <= self.skip * self.data_len - self.child_inter_margin <= i32::MAX,
        ensures
            r.0 == Size(
                (self.rect.size.0 - self.frame_size.0) as i32,
                (self.rect.size.1 - self.frame_size.1) as i32,
            ),
            ({
                let len = max(self.skip * self.data_len - self.child_inter_margin, 0) as i32;
                if self.direction.spec_is_vertical() {
                    r.1 == Size(r.0.0, len)
                } else {
                    r.1 == Size(len, r.0.1)
                }
            }),
    {
        let data_len = self.data_len as i32;
        let view = Size(self.rect.size.0 - self.frame_size.0, self.rect.size.1 - self.frame_size.1);
        let total = self.skip * data_len - self.child_inter_margin;
        let len = if total >= 0 {
            total
        } else {
            0
        };
        let content = if self.direction.is_vertical() {
            Size(view.0, len)
        } else {
            Size(len, view.1)
        };
        (view, content)
    }

    /// Record the children's size rules along the list's axis: the minimum
    /// size (at least 1), the ideal size (at least `min_element_size`) and
    /// the margin between children (the largest of the children's margins
    /// and the selection frame's inner margins).
    pub fn set_child_rules(
        &mut self,
        min_size: i32,
        ideal_size: i32,
        margins: (u16, u16),
        inner_margin: (u16, u16),
        min_element_size: i32,
    )
        ensures
            final(self).child_size_min == max(min_size as int, 1),
            final(self).child_size_ideal == max(ideal_size as int, min_element_size as int),
            final(self).child_inter_margin == max(
                max(margins.0 as int, margins.1 as int),
                max(inner_margin.0 as int, inner_margin.1 as int),
            ),
            *final(self) == (ListLayout {
                child_size_min: final(self).child_size_min,
                child_size_ideal: final(self).child_size_ideal,
                child_inter_margin: final(self).child_inter_margin,
                ..*old(self)
            }),
    {
        self.child_size_min = if min_size >= 1 {
            min_size
        } else {
            1
        };
        self.child_size_ideal = if ideal_size >= min_element_size {
            ideal_size
        } else {
            min_element_size
        };
        let a = if margins.0 >= margins.1 {
            margins.0
        } else {
            margins.1
        };
        let b = if inner_margin.0 >= inner_margin.1 {
            inner_margin.0
        } else {
            inner_margin.1
        };
        self.child_inter_margin = if a >= b {
            a as i32
        } else {
            b as i32
        };
    }

    /// Size of each child across the list's axis when the other axis has
    /// `size` available: the share per ideally visible item, clamped to the
    /// children's size range (as used by `size_rules`)
    pub fn child_size_for(&self, size: i32) -> (r: i32)
        requires
            self.ideal_visible > 0,
            self.child_size_min <= self.child_size_ideal,
        ensures
            r == clamp(
                div_trunc(size as int, self.ideal_visible as int),
                self.child_size_min as int,
                self.child_size_ideal as int,
            ),
    {
        clamp_i32(size / self.ideal_visible, self.child_size_min, self.child_size_ideal)
    }

    /// Set the rect of the list, returning the number of widgets required
    /// to cover it
    ///
    /// Each child gets the share of the available size per ideally visible
    /// item (clamped to the children's size range) along the list's axis and
    /// the full size across it; `skip` is the step between children. A zero
    /// step requires no widgets (and `skip` is set to 1 to avoid division by
    /// zero).
    pub fn set_rect(&mut self, rect: Rect) -> (req_widgets: usize)
        requires
            old(self).ideal_visible > 0,
            0 <= old(self).child_size_min <= old(self).child_size_ideal,
            old(self).child_inter_margin >= 0,
            rect.size.0 >= 0,
            rect.size.1 >= 0,
            old(self).frame_size.0 >= 0,
            old(self).frame_size.1 >= 0,
            old(self).child_size_ideal + old(self).child_inter_margin <= i32::MAX,
            rect.size.0 + old(self).child_size_ideal + old(self).child_inter_margin <= i32::MAX,
            rect.size.1 + old(self).child_size_ideal + old(self).child_inter_margin <= i32::MAX,
        ensures
            final(self).rect == rect,
            final(self).rect_update,
            ({
                let vert = old(self).direction.spec_is_vertical();
                let avail = if vert {
                    rect.size.1 - old(self).frame_size.1
                } else {
                    rect.size.0 - old(self).frame_size.0
                };
                let along = clamp(
                    div_trunc(avail, old(self).ideal_visible as int),
                    old(self).child_size_min as int,
                    old(self).child_size_ideal as int,
                );
                let size = if vert {
                    rect.size.1 as int
                } else {
                    rect.size.0 as int
                };
                let skip = along + old(self).child_inter_margin;
                &&& vert ==> final(self).child_size == Size(
                    (rect.size.0 - old(self).frame_size.0) as i32,
                    along as i32,
                )
                &&& !vert ==> final(self).child_size == Size(
                    along as i32,
                    (rect.size.1 - old(self).frame_size.1) as i32,
                )
                &&& skip == 0 ==> req_widgets == 0 && final(self).skip == 1
                &&& skip != 0 ==> req_widgets == (size + skip - 1) / skip + 1 && final(self).skip
                    == skip
            }),
            final(self).skip >= 1,
            final(self).direction == old(self).direction,
            final(self).data_len == old(self).data_len,
            final(self).first_data == old(self).first_data,
            final(self).cur_len == old(self).cur_len,
            final(self).token_update == old(self).token_update,
    {
        self.rect = rect;
        let mut child_size = Size(rect.size.0 - self.frame_size.0, rect.size.1 - self.frame_size.1);
        let size: i32;
        let skip: i32;
        if self.direction.is_horizontal() {
            child_size.0 = self.child_size_for(child_size.0);
            size = rect.size.0;
            skip = child_size.0 + self.child_inter_margin;
        } else {
            child_size.1 = self.child_size_for(child_size.1);
            size = rect.size.1;
            skip = child_size.1 + self.child_inter_margin;
        }
        self.child_size = child_size;
        self.skip = skip;
        let req_widgets = if skip == 0 {
            self.skip = 1;
            0
        } else {
            ((size + skip - 1) / skip + 1) as usize
        };
        self.rect_update = true;
        req_widgets
    }

    /// Prepare for (re-)configuration: widgets will be configured anew
    /// (`Update::Configure`); an empty widget pool is allocated with the
    /// ideal number of widgets, which is returned.
    pub fn configure_recurse(&mut self, widgets_empty: bool) -> (alloc: Option<usize>)
        requires
            old(self).ideal_visible >= 0,
        ensures
            final(self).token_update == Update::Configure,
            widgets_empty ==> alloc == Some(old(self).ideal_visible as usize) && final(self).skip
                == 1,
            !widgets_empty ==> alloc is None && final(self).skip == old(self).skip,
            final(self).data_len == old(self).data_len,
            final(self).cur_len == old(self).cur_len,
            final(self).first_data == old(self).first_data,
            final(self).rect_update == old(self).rect_update,
    {
        self.token_update = Update::Configure;
        if widgets_empty {
            self.skip = 1;
            Some(self.ideal_visible as usize)
        } else {
            None
        }
    }
}

} // verus!
