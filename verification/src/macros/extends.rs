//! The `extends` attribute: an implementation of the theme drawing trait
//! is completed with methods forwarding to a base implementation, for each
//! method it does not define itself.

use crate::macros::tokens::{is_ident, is_ident_spec, is_punct, is_punct_spec, render, render_toks, Tok};
use vstd::prelude::*;

verus! {

/// What an implementation extends
#[derive(Debug, Clone, PartialEq, Eq)]
pub enum Extends {
    /// The theme drawing trait, forwarding to the expression `base`
    ThemeDraw { base: Vec<Tok> },
}

/// Errors of the `extends` attribute's arguments
#[derive(Debug, Clone, Copy, PartialEq, Eq, Structural)]
pub enum ExtendsError {
    /// Expected `ThemeDraw`
    ExpectedThemeDraw,
    /// Expected `, base =` (or `using`) after the trait
    ExpectedBase,
    /// Expected the base expression
    ExpectedExpression,
}

/// The arguments `ThemeDraw, base = <expr>` (also written
/// `ThemeDraw using <expr>`): the base expression, or the first error
pub open spec fn parse_spec(toks: Seq<Tok>) -> Result<Seq<Tok>, ExtendsError> {
    if toks.len() == 0 || !is_ident_spec(toks[0], "ThemeDraw"@) {
        Err(ExtendsError::ExpectedThemeDraw)
    } else if toks.len() >= 4 && is_punct_spec(toks[1], ","@) && is_ident_spec(toks[2], "base"@)
        && is_punct_spec(toks[3], "="@) {
        if toks.len() == 4 {
            Err(ExtendsError::ExpectedExpression)
        } else {
            Ok(toks.skip(4))
        }
    } else if toks.len() >= 2 && is_ident_spec(toks[1], "using"@) {
        if toks.len() == 2 {
            Err(ExtendsError::ExpectedExpression)
        } else {
            Ok(toks.skip(2))
        }
    } else {
        Err(ExtendsError::ExpectedBase)
    }
}

/// The forwarding methods of the theme drawing trait: name, and the text
/// before and after the base expression
pub open spec fn method_parts() -> Seq<(Seq<char>, Seq<char>, Seq<char>)> {
    seq![
        ("new_pass"@, "fn new_pass<'_gen_a>(&mut self, rect: ::kas::geom::Rect, offset: ::kas::geom::Offset, class: ::kas::draw::PassType, f: Box<dyn FnOnce(&mut dyn ::kas::theme::ThemeDraw) + '_gen_a>) { "@, ".new_pass(rect, offset, class, f); }"@),
        ("get_clip_rect"@, "fn get_clip_rect(&mut self) -> Rect { "@, ".get_clip_rect() }"@),
        ("event_state_overlay"@, "fn event_state_overlay(&mut self) { "@, ".event_state_overlay(); }"@),
        ("frame"@, "fn frame(&mut self, id: &Id, rect: Rect, style: ::kas::theme::FrameStyle, bg: Background) { "@, ".frame(id, rect, style, bg); }"@),
        ("separator"@, "fn separator(&mut self, rect: Rect) { "@, ".separator(rect); }"@),
        ("selection"@, "fn selection(&mut self, rect: Rect, style: ::kas::theme::SelectionStyle) { "@, ".selection(rect, style); }"@),
        ("text_effects"@, "fn text_effects(&mut self, id: &Id, pos: Coord, rect: Rect, text: &TextDisplay, colors: &[Rgba], effects: &[::kas::text::Effect]) { "@, ".text_effects(id, pos, rect, text, colors, effects); }"@),
        ("text_selected_range"@, "fn text_selected_range(&mut self, id: &Id, pos: Coord, rect: Rect, text: &TextDisplay, range: Range<usize>) { "@, ".text_selected_range(id, pos, rect, text, range); }"@),
        ("text_cursor"@, "fn text_cursor(&mut self, id: &Id, pos: Coord, rect: Rect, text: &TextDisplay, byte: usize) { "@, ".text_cursor(id, pos, rect, text, byte); }"@),
        ("check_box"@, "fn check_box(&mut self, id: &Id, rect: Rect, checked: bool, last_change: Option<Instant>) { "@, ".check_box(id, rect, checked, last_change); }"@),
        ("radio_box"@, "fn radio_box(&mut self, id: &Id, rect: Rect, checked: bool, last_change: Option<Instant>) { "@, ".radio_box(id, rect, checked, last_change); }"@),
        ("mark"@, "fn mark(&mut self, id: &Id, rect: Rect, style: MarkStyle) { "@, ".mark(id, rect, style); }"@),
        ("scroll_bar"@, "fn scroll_bar(&mut self, id: &Id, id2: &Id, rect: Rect, h_rect: Rect, dir: Direction) { "@, ".scroll_bar(id, id2, rect, h_rect, dir); }"@),
        ("slider"@, "fn slider(&mut self, id: &Id, id2: &Id, rect: Rect, h_rect: Rect, dir: Direction) { "@, ".slider(id, id2, rect, h_rect, dir); }"@),
        ("progress_bar"@, "fn progress_bar(&mut self, id: &Id, rect: Rect, dir: Direction, value: f32) { "@, ".progress_bar(id, rect, dir, value); }"@),
        ("image"@, "fn image(&mut self, id: ImageId, rect: Rect) { "@, ".image(id, rect); }"@)
    ]
}

/// The text of forwarding method `k` with base expression `base`
pub open spec fn method_text(k: int, base: Seq<char>) -> Seq<char> {
    method_parts()[k].1 + "("@ + base + ")"@ + method_parts()[k].2
}

/// The texts of the forwarding methods among the first `n` which are not
/// among `existing`, in order
pub open spec fn methods_added(n: int, base: Seq<char>, existing: Seq<Seq<char>>) -> Seq<Seq<char>>
    decreases n,
{
    if n <= 0 {
        Seq::empty()
    } else {
        methods_added(n - 1, base, existing) + if existing.contains(method_parts()[n - 1].0) {
            Seq::empty()
        } else {
            seq![method_text(n - 1, base)]
        }
    }
}

/// The texts of a list of strings
pub open spec fn texts_of(v: Seq<String>) -> Seq<Seq<char>> {
    v.map_values(|s: String| s@)
}

/// The texts joined in order, each followed by a space
pub open spec fn joined(s: Seq<Seq<char>>) -> Seq<char>
    decreases s.len(),
{
    if s.len() == 0 {
        Seq::empty()
    } else {
        joined(s.drop_last()) + s.last() + " "@
    }
}

/// The indices, among the first `n` forwarding methods, of those whose
/// names are not among `existing`, in order
pub open spec fn added_indices(n: int, existing: Seq<Seq<char>>) -> Seq<int>
    decreases n,
{
    if n <= 0 {
        Seq::empty()
    } else {
        added_indices(n - 1, existing) + if existing.contains(method_parts()[n - 1].0) {
            Seq::empty()
        } else {
            seq![n - 1]
        }
    }
}

/// The completed implementation: its header, its own items unchanged and
/// in order, then the forwarding methods it lacks
pub open spec fn extended_impl(head: Seq<char>, items: Seq<Seq<char>>, added: Seq<Seq<char>>) -> Seq<char> {
    head + " { "@ + joined(items) + joined(added) + "}"@
}

proof fn lemma_added_indices(n: int, base: Seq<char>, existing: Seq<Seq<char>>)
    requires
        0 <= n <= 16,
    ensures
        methods_added(n, base, existing) == added_indices(n, existing).map_values(|k: int| method_text(k, base)),
        forall|i: int| 0 <= i < added_indices(n, existing).len() ==> 0 <= #[trigger] added_indices(n, existing)[i] < n,
        forall|i: int, j: int|
            0 <= i < j < added_indices(n, existing).len() ==> #[trigger] added_indices(n, existing)[i]
                < #[trigger] added_indices(n, existing)[j],
        forall|i: int|
            0 <= i < added_indices(n, existing).len() ==> !existing.contains(
                method_parts()[#[trigger] added_indices(n, existing)[i]].0,
            ),
        forall|k: int|
            0 <= k < n && !existing.contains(method_parts()[k].0) ==> added_indices(n, existing).contains(k),
    decreases n,
{
    if n > 0 {
        lemma_added_indices(n - 1, base, existing);
        let prev = added_indices(n - 1, existing);
        if existing.contains(method_parts()[n - 1].0) {
            assert(added_indices(n, existing) =~= prev);
            assert(methods_added(n, base, existing) =~= methods_added(n - 1, base, existing));
        } else {
            assert(added_indices(n, existing) =~= prev.push(n - 1));
            assert(methods_added(n, base, existing) =~= methods_added(n - 1, base, existing).push(
                method_text(n - 1, base),
            ));
            assert(prev.push(n - 1).map_values(|k: int| method_text(k, base)) =~= prev.map_values(
                |k: int| method_text(k, base),
            ).push(method_text(n - 1, base)));
            assert forall|k: int| 0 <= k < n && !existing.contains(method_parts()[k].0) implies prev.push(
                n - 1,
            ).contains(k) by {
                if k < n - 1 {
                    assert(prev.contains(k));
                    let i = choose|i: int| 0 <= i < prev.len() && prev[i] == k;
                    assert(prev.push(n - 1)[i] == k);
                } else {
                    assert(prev.push(n - 1)[prev.len() as int] == k);
                }
            }
        }
    }
}

/// The methods `extend` adds are the forwarding methods of the trait, in
/// its order, whose names the implementation does not already define: each
/// such method is added exactly once and none that it defines is added, so
/// no method name occurs twice in the completed implementation
pub proof fn law_extend_adds_each_missing_method_once(base: Seq<char>, existing: Seq<Seq<char>>)
    ensures
        methods_added(16, base, existing) == added_indices(16, existing).map_values(
            |k: int| method_text(k, base),
        ),
        forall|i: int|
            0 <= i < added_indices(16, existing).len() ==> !existing.contains(
                method_parts()[#[trigger] added_indices(16, existing)[i]].0,
            ),
        forall|k: int|
            0 <= k < 16 && !existing.contains(method_parts()[k].0) ==> added_indices(16, existing).contains(k),
        forall|i: int, j: int|
            0 <= i < j < added_indices(16, existing).len() ==> method_parts()[#[trigger] added_indices(
                16,
                existing,
            )[i]].0 != method_parts()[#[trigger] added_indices(16, existing)[j]].0,
{
    lemma_added_indices(16, base, existing);
    lemma_method_names_distinct();
    let idx = added_indices(16, existing);
    assert forall|i: int, j: int| 0 <= i < j < idx.len() implies method_parts()[#[trigger] idx[i]].0
        != method_parts()[#[trigger] idx[j]].0 by {
        assert(0 <= idx[i] < idx[j] < 16);
    }
}

proof fn lemma_method_names_distinct()
    ensures
        forall|a: int, b: int|
            0 <= a < b < 16 ==> (#[trigger] method_parts()[a]).0 != (#[trigger] method_parts()[b]).0,
{
    reveal_strlit("new_pass");
    reveal_strlit("get_clip_rect");
    reveal_strlit("event_state_overlay");
    reveal_strlit("frame");
    reveal_strlit("separator");
    reveal_strlit("selection");
    reveal_strlit("text_effects");
    reveal_strlit("text_selected_range");
    reveal_strlit("text_cursor");
    reveal_strlit("check_box");
    reveal_strlit("radio_box");
    reveal_strlit("mark");
    reveal_strlit("scroll_bar");
    reveal_strlit("slider");
    reveal_strlit("progress_bar");
    reveal_strlit("image");
    assert forall|a: int, b: int| 0 <= a < b < 16 implies (#[trigger] method_parts()[a]).0
        != (#[trigger] method_parts()[b]).0 by {
        let x = method_parts()[a].0;
        let y = method_parts()[b].0;
        assert(x.len() != y.len() || x[0] != y[0] || x[1] != y[1] || x[5] != y[5]);
    }
}

impl Extends {
    /// Parse the attribute's arguments: `ThemeDraw, base = <expr>` (or
    /// `ThemeDraw using <expr>`), the expression taking the rest
    pub fn parse(toks: &Vec<Tok>) -> (r: Result<Extends, ExtendsError>)
        ensures
            match parse_spec(toks@) {
                Ok(base) => r matches Ok(Extends::ThemeDraw { base: b }) && b@ == base,
                Err(e) => r == Err::<Extends, ExtendsError>(e),
            },
    {
        if toks.len() == 0 || !is_ident(&toks[0], "ThemeDraw") {
            return Err(ExtendsError::ExpectedThemeDraw);
        }
        let start: usize = if toks.len() >= 4 && is_punct(&toks[1], ",") && is_ident(&toks[2], "base") && is_punct(
            &toks[3],
            "=",
        ) {
            4
        } else if toks.len() >= 2 && is_ident(&toks[1], "using") {
            2
        } else {
            return Err(ExtendsError::ExpectedBase);
        };
        if toks.len() == start {
            return Err(ExtendsError::ExpectedExpression);
        }
        let mut base: Vec<Tok> = Vec::new();
        let mut i: usize = start;
        while i < toks.len()
            invariant
                start <= i <= toks@.len(),
                base@ == toks@.subrange(start as int, i as int),
            decreases toks@.len() - i,
        {
            base.push(crate::macros::tokens::copy_tok(&toks[i]));
            assert(base@ =~= toks@.subrange(start as int, i + 1));
            i += 1;
        }
        assert(toks@.subrange(start as int, toks@.len() as int) =~= toks@.skip(start as int));
        Ok(Extends::ThemeDraw { base })
    }

    /// The methods to add to an implementation whose methods are named
    /// `existing`: the forwarding methods of the extended trait which it
    /// does not define, in the trait's order (source texts)
    pub fn extend(&self, existing: &Vec<String>) -> (r: Vec<String>)
        ensures
            match self {
                Extends::ThemeDraw { base } => texts_of(r@) == methods_added(
                    16,
                    render(base@),
                    texts_of(existing@),
                ),
            },
    {
        let base = match self {
            Extends::ThemeDraw { base } => base,
        };
        let base_text = render_toks(base);
        let parts: [(&str, &str, &str); 16] = [
        ("new_pass", "fn new_pass<'_gen_a>(&mut self, rect: ::kas::geom::Rect, offset: ::kas::geom::Offset, class: ::kas::draw::PassType, f: Box<dyn FnOnce(&mut dyn ::kas::theme::ThemeDraw) + '_gen_a>) { ", ".new_pass(rect, offset, class, f); }"),
        ("get_clip_rect", "fn get_clip_rect(&mut self) -> Rect { ", ".get_clip_rect() }"),
        ("event_state_overlay", "fn event_state_overlay(&mut self) { ", ".event_state_overlay(); }"),
        ("frame", "fn frame(&mut self, id: &Id, rect: Rect, style: ::kas::theme::FrameStyle, bg: Background) { ", ".frame(id, rect, style, bg); }"),
        ("separator", "fn separator(&mut self, rect: Rect) { ", ".separator(rect); }"),
        ("selection", "fn selection(&mut self, rect: Rect, style: ::kas::theme::SelectionStyle) { ", ".selection(rect, style); }"),
        ("text_effects", "fn text_effects(&mut self, id: &Id, pos: Coord, rect: Rect, text: &TextDisplay, colors: &[Rgba], effects: &[::kas::text::Effect]) { ", ".text_effects(id, pos, rect, text, colors, effects); }"),
        ("text_selected_range", "fn text_selected_range(&mut self, id: &Id, pos: Coord, rect: Rect, text: &TextDisplay, range: Range<usize>) { ", ".text_selected_range(id, pos, rect, text, range); }"),
        ("text_cursor", "fn text_cursor(&mut self, id: &Id, pos: Coord, rect: Rect, text: &TextDisplay, byte: usize) { ", ".text_cursor(id, pos, rect, text, byte); }"),
        ("check_box", "fn check_box(&mut self, id: &Id, rect: Rect, checked: bool, last_change: Option<Instant>) { ", ".check_box(id, rect, checked, last_change); }"),
        ("radio_box", "fn radio_box(&mut self, id: &Id, rect: Rect, checked: bool, last_change: Option<Instant>) { ", ".radio_box(id, rect, checked, last_change); }"),
        ("mark", "fn mark(&mut self, id: &Id, rect: Rect, style: MarkStyle) { ", ".mark(id, rect, style); }"),
        ("scroll_bar", "fn scroll_bar(&mut self, id: &Id, id2: &Id, rect: Rect, h_rect: Rect, dir: Direction) { ", ".scroll_bar(id, id2, rect, h_rect, dir); }"),
        ("slider", "fn slider(&mut self, id: &Id, id2: &Id, rect: Rect, h_rect: Rect, dir: Direction) { ", ".slider(id, id2, rect, h_rect, dir); }"),
        ("progress_bar", "fn progress_bar(&mut self, id: &Id, rect: Rect, dir: Direction, value: f32) { ", ".progress_bar(id, rect, dir, value); }"),
        ("image", "fn image(&mut self, id: ImageId, rect: Rect) { ", ".image(id, rect); }")
        ];
        assert(parts@.len() == method_parts().len());
        assert forall|k: int| 0 <= k < 16 implies (#[trigger] parts@[k]).0@ == method_parts()[k].0 && parts@[k].1@
            == method_parts()[k].1 && parts@[k].2@ == method_parts()[k].2 by {}
        let mut out: Vec<String> = Vec::new();
        let mut k: usize = 0;
        while k < 16
            invariant
                k <= 16,
                parts@.len() == 16,
                base_text@ == render(base@),
                forall|j: int| 0 <= j < 16 ==> (#[trigger] parts@[j]).0@ == method_parts()[j].0 && parts@[j].1@
                    == method_parts()[j].1 && parts@[j].2@ == method_parts()[j].2,
                texts_of(out@) == methods_added(k as int, render(base@), texts_of(existing@)),
            decreases 16 - k,
        {
            let (name, pre, post) = parts[k];
            let mut found = false;
            let mut j: usize = 0;
            while j < existing.len()
                invariant
                    j <= existing@.len(),
                    found == texts_of(existing@).take(j as int).contains(name@),
                decreases existing@.len() - j,
            {
                proof {
                    assert(texts_of(existing@).take(j + 1) =~= texts_of(existing@).take(j as int).push(existing@[j as int]@));
                }
                let hit = crate::macros::tokens::text_eq(&existing[j], name);
                proof {
                    let before = texts_of(existing@).take(j as int);
                    let x = existing@[j as int]@;
                    if hit {
                        assert(before.push(x)[before.len() as int] == name@);
                    } else if !found {
                        assert forall|i: int| 0 <= i < before.push(x).len() implies before.push(x)[i] != name@ by {
                            if i < before.len() {
                                assert(before.push(x)[i] == before[i]);
                            }
                        }
                    } else {
                        let i = choose|i: int| 0 <= i < before.len() && before[i] == name@;
                        assert(before.push(x)[i] == name@);
                    }
                }
                found = found || hit;
                j += 1;
            }
            assert(texts_of(existing@).take(existing@.len() as int) =~= texts_of(existing@));
            if !found {
                let mut t = String::from_str(pre);
                t.append("(");
                t.append(base_text.as_str());
                t.append(")");
                t.append(post);
                proof {
                    assert(texts_of(out@.push(t)) =~= texts_of(out@).push(t@));
                }
                out.push(t);
            }
            k += 1;
        }
        out
    }

    /// Complete an implementation: `head` is its text before the opening
    /// brace, `items` the texts of its items and `names` the names of its
    /// methods; its items stay as they are, in order, and the forwarding
    /// methods it lacks follow them
    pub fn extend_impl(&self, head: &String, items: &Vec<String>, names: &Vec<String>) -> (r: String)
        ensures
            match self {
                Extends::ThemeDraw { base } => r@ == extended_impl(
                    head@,
                    texts_of(items@),
                    methods_added(16, render(base@), texts_of(names@)),
                ),
            },
    {
        let added = self.extend(names);
        let mut out = head.clone();
        out.append(" { ");
        let ghost start = out@;
        let mut i: usize = 0;
        while i < items.len()
            invariant
                i <= items@.len(),
                start == head@ + " { "@,
                out@ == start + joined(texts_of(items@).take(i as int)),
            decreases items@.len() - i,
        {
            proof {
                assert(texts_of(items@).take(i + 1).drop_last() =~= texts_of(items@).take(i as int));
            }
            out.append(items[i].as_str());
            out.append(" ");
            i += 1;
        }
        assert(texts_of(items@).take(items@.len() as int) =~= texts_of(items@));
        let ghost mid = out@;
        let mut k: usize = 0;
        while k < added.len()
            invariant
                k <= added@.len(),
                out@ == mid + joined(texts_of(added@).take(k as int)),
            decreases added@.len() - k,
        {
            proof {
                assert(texts_of(added@).take(k + 1).drop_last() =~= texts_of(added@).take(k as int));
            }
            out.append(added[k].as_str());
            out.append(" ");
            k += 1;
        }
        assert(texts_of(added@).take(added@.len() as int) =~= texts_of(added@));
        out.append("}");
        out
    }
}

} // verus!
