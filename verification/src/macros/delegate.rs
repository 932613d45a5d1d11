//! Traits implemented by delegating every method to one field (the
//! `using` field of an `#[autoimpl(Trait using self.field)]` attribute).

use vstd::prelude::*;

verus! {

/// Error of an implementation generator
#[derive(Debug, Clone, PartialEq, Eq)]
pub enum ImplError {
    /// The trait can only be implemented with a `using` field
    RequireUsing,
    /// The trait cannot be implemented here (with a message)
    CallSite(String),
}

/// `v` holds strings reading `parts`, in order
pub open spec fn texts_are(v: Seq<String>, parts: Seq<Seq<char>>) -> bool {
    v.len() == parts.len() && forall|k: int| 0 <= k < v.len() ==> #[trigger] v[k]@ == parts[k]
}

/// A list of path segments from their texts
fn segments(parts: &[&str]) -> (r: Vec<String>)
    ensures
        r@.len() == parts@.len(),
        forall|k: int| 0 <= k < r@.len() ==> #[trigger] r@[k]@ == parts@[k]@,
{
    let mut r: Vec<String> = Vec::new();
    let mut i: usize = 0;
    while i < parts.len()
        invariant
            i <= parts@.len(),
            r@.len() == i,
            forall|k: int| 0 <= k < i ==> #[trigger] r@[k]@ == parts@[k]@,
        decreases parts@.len() - i,
    {
        let s = String::from_str(parts[i]);
        r.push(s);
        i += 1;
    }
    r
}


/// The methods generated for [`ImplLayout`] delegating to field `using`
pub open spec fn layout_items(using: Seq<char>) -> Seq<char> {
    "#[inline] fn rect(&self) -> ::kas::geom::Rect { self."@ + using + ".rect() } #[inline] fn size_rules(&mut self, cx: &mut ::kas::theme::SizeCx, axis: ::kas::layout::AxisInfo) -> ::kas::layout::SizeRules { self."@ + using + ".size_rules(cx, axis) } #[inline] fn set_rect(&mut self, cx: &mut ::kas::theme::SizeCx, rect: ::kas::geom::Rect, hints: ::kas::layout::AlignHints) { self."@ + using + ".set_rect(cx, rect, hints); } #[inline] fn draw(&self, draw: ::kas::theme::DrawCx) { self."@ + using + ".draw(draw); }"@
}

/// Layout trait implemented by delegating to a field
#[derive(Debug, Clone, Copy, PartialEq, Eq)]
pub struct ImplLayout;

impl ImplLayout {
    /// Path of the implemented trait, by segments (a leading empty segment
    /// is a leading `::`)
    pub fn path(&self) -> (r: Vec<String>)
        ensures
            texts_are(r@, seq![""@, "kas"@, "Layout"@]),
    {
        let parts: [&str; 3] = ["", "kas", "Layout"];
        let r = segments(&parts);
        proof {
            assert(parts@ =~= seq!["", "kas", "Layout"]);
        }
        r
    }

    /// Whether fields may be ignored: no
    pub fn support_ignore(&self) -> (r: bool)
        ensures
            !r,
    {
        false
    }

    /// Whether a `using` field is supported: yes
    pub fn support_using(&self) -> (r: bool)
        ensures
            r,
    {
        true
    }

    /// The trait path and the items of the implementation, which delegate
    /// to the `using` field; an error without one
    pub fn struct_items(&self, using: Option<&str>) -> (r: Result<(String, String), ImplError>)
        ensures
            using is Some ==> (r matches Ok((p, m)) && p@ == "::kas::Layout"@ && m@ == layout_items(
                using->0@,
            )),
            using is None ==> r == Err::<(String, String), ImplError>(ImplError::RequireUsing),
    {
        match using {
            Some(u) => {
                let mut m = String::from_str("#[inline] fn rect(&self) -> ::kas::geom::Rect { self.");
                m.append(u);
                m.append(".rect() } #[inline] fn size_rules(&mut self, cx: &mut ::kas::theme::SizeCx, axis: ::kas::layout::AxisInfo) -> ::kas::layout::SizeRules { self.");
                m.append(u);
                m.append(".size_rules(cx, axis) } #[inline] fn set_rect(&mut self, cx: &mut ::kas::theme::SizeCx, rect: ::kas::geom::Rect, hints: ::kas::layout::AlignHints) { self.");
                m.append(u);
                m.append(".set_rect(cx, rect, hints); } #[inline] fn draw(&self, draw: ::kas::theme::DrawCx) { self.");
                m.append(u);
                m.append(".draw(draw); }");
                Ok((String::from_str("::kas::Layout"), m))
            },
            None => Err(ImplError::RequireUsing),
        }
    }
}

/// The methods generated for [`ImplViewport`] delegating to field `using`
pub open spec fn viewport_items(using: Seq<char>) -> Seq<char> {
    "#[inline] fn content_size(&self) -> ::kas::geom::Size { self."@ + using + ".content_size() } #[inline] fn set_offset(&mut self, cx: &mut ::kas::theme::SizeCx, viewport: ::kas::geom::Rect, offset: ::kas::geom::Offset) { self."@ + using + ".set_offset(cx, viewport, offset) } #[inline] fn update_offset(&mut self, cx: &mut ::kas::event::ConfigCx, data: &Self::Data, viewport: ::kas::geom::Rect, offset: ::kas::geom::Offset) { self."@ + using + ".update_offset(cx, data, viewport, offset) } #[inline] fn draw_with_offset(&self, draw: ::kas::theme::DrawCx, viewport: ::kas::geom::Rect, offset: ::kas::geom::Offset) { self."@ + using + ".draw_with_offset(draw, viewport, offset); } #[inline] fn try_probe_with_offset(&self, coord: ::kas::geom::Coord, offset: ::kas::geom::Offset) -> Option<::kas::Id> { self."@ + using + ".try_probe_with_offset(coord, offset) }"@
}

/// Viewport trait implemented by delegating to a field
#[derive(Debug, Clone, Copy, PartialEq, Eq)]
pub struct ImplViewport;

impl ImplViewport {
    /// Path of the implemented trait, by segments (a leading empty segment
    /// is a leading `::`)
    pub fn path(&self) -> (r: Vec<String>)
        ensures
            texts_are(r@, seq![""@, "kas"@, "Viewport"@]),
    {
        let parts: [&str; 3] = ["", "kas", "Viewport"];
        let r = segments(&parts);
        proof {
            assert(parts@ =~= seq!["", "kas", "Viewport"]);
        }
        r
    }

    /// Whether fields may be ignored: no
    pub fn support_ignore(&self) -> (r: bool)
        ensures
            !r,
    {
        false
    }

    /// Whether a `using` field is supported: yes
    pub fn support_using(&self) -> (r: bool)
        ensures
            r,
    {
        true
    }

    /// The trait path and the items of the implementation, which delegate
    /// to the `using` field; an error without one
    pub fn struct_items(&self, using: Option<&str>) -> (r: Result<(String, String), ImplError>)
        ensures
            using is Some ==> (r matches Ok((p, m)) && p@ == "::kas::Viewport"@ && m@ == viewport_items(
                using->0@,
            )),
            using is None ==> r == Err::<(String, String), ImplError>(ImplError::RequireUsing),
    {
        match using {
            Some(u) => {
                let mut m = String::from_str("#[inline] fn content_size(&self) -> ::kas::geom::Size { self.");
                m.append(u);
                m.append(".content_size() } #[inline] fn set_offset(&mut self, cx: &mut ::kas::theme::SizeCx, viewport: ::kas::geom::Rect, offset: ::kas::geom::Offset) { self.");
                m.append(u);
                m.append(".set_offset(cx, viewport, offset) } #[inline] fn update_offset(&mut self, cx: &mut ::kas::event::ConfigCx, data: &Self::Data, viewport: ::kas::geom::Rect, offset: ::kas::geom::Offset) { self.");
                m.append(u);
                m.append(".update_offset(cx, data, viewport, offset) } #[inline] fn draw_with_offset(&self, draw: ::kas::theme::DrawCx, viewport: ::kas::geom::Rect, offset: ::kas::geom::Offset) { self.");
                m.append(u);
                m.append(".draw_with_offset(draw, viewport, offset); } #[inline] fn try_probe_with_offset(&self, coord: ::kas::geom::Coord, offset: ::kas::geom::Offset) -> Option<::kas::Id> { self.");
                m.append(u);
                m.append(".try_probe_with_offset(coord, offset) }");
                Ok((String::from_str("::kas::Viewport"), m))
            },
            None => Err(ImplError::RequireUsing),
        }
    }
}

/// The methods generated for [`ImplHasBool`] delegating to field `using`
pub open spec fn has_bool_items(using: Seq<char>) -> Seq<char> {
    "#[inline] fn get_bool(&self) -> bool { self."@ + using + ".get_bool() } #[inline] fn set_bool(&mut self, state: bool) -> ::kas::Action { self."@ + using + ".set_bool(state) }"@
}

/// `HasBool` implemented by delegating to a field
#[derive(Debug, Clone, Copy, PartialEq, Eq)]
pub struct ImplHasBool;

impl ImplHasBool {
    /// Path of the implemented trait, by segments (a leading empty segment
    /// is a leading `::`)
    pub fn path(&self) -> (r: Vec<String>)
        ensures
            texts_are(r@, seq![""@, "kas"@, "class"@, "HasBool"@]),
    {
        let parts: [&str; 4] = ["", "kas", "class", "HasBool"];
        let r = segments(&parts);
        proof {
            assert(parts@ =~= seq!["", "kas", "class", "HasBool"]);
        }
        r
    }

    /// Whether fields may be ignored: no
    pub fn support_ignore(&self) -> (r: bool)
        ensures
            !r,
    {
        false
    }

    /// Whether a `using` field is supported: yes
    pub fn support_using(&self) -> (r: bool)
        ensures
            r,
    {
        true
    }

    /// The trait path and the items of the implementation, which delegate
    /// to the `using` field; an error without one
    pub fn struct_items(&self, using: Option<&str>) -> (r: Result<(String, String), ImplError>)
        ensures
            using is Some ==> (r matches Ok((p, m)) && p@ == "::kas::class::HasBool"@ && m@ == has_bool_items(
                using->0@,
            )),
            using is None ==> r == Err::<(String, String), ImplError>(ImplError::RequireUsing),
    {
        match using {
            Some(u) => {
                let mut m = String::from_str("#[inline] fn get_bool(&self) -> bool { self.");
                m.append(u);
                m.append(".get_bool() } #[inline] fn set_bool(&mut self, state: bool) -> ::kas::Action { self.");
                m.append(u);
                m.append(".set_bool(state) }");
                Ok((String::from_str("::kas::class::HasBool"), m))
            },
            None => Err(ImplError::RequireUsing),
        }
    }
}

/// The methods generated for [`ImplHasStr`] delegating to field `using`
pub open spec fn has_str_items(using: Seq<char>) -> Seq<char> {
    "#[inline] fn get_str(&self) -> &str { self."@ + using + ".get_str() } #[inline] fn get_string(&self) -> String { self."@ + using + ".get_string() }"@
}

/// `HasStr` implemented by delegating to a field
#[derive(Debug, Clone, Copy, PartialEq, Eq)]
pub struct ImplHasStr;

impl ImplHasStr {
    /// Path of the implemented trait, by segments (a leading empty segment
    /// is a leading `::`)
    pub fn path(&self) -> (r: Vec<String>)
        ensures
            texts_are(r@, seq![""@, "kas"@, "class"@, "HasStr"@]),
    {
        let parts: [&str; 4] = ["", "kas", "class", "HasStr"];
        let r = segments(&parts);
        proof {
            assert(parts@ =~= seq!["", "kas", "class", "HasStr"]);
        }
        r
    }

    /// Whether fields may be ignored: no
    pub fn support_ignore(&self) -> (r: bool)
        ensures
            !r,
    {
        false
    }

    /// Whether a `using` field is supported: yes
    pub fn support_using(&self) -> (r: bool)
        ensures
            r,
    {
        true
    }

    /// The trait path and the items of the implementation, which delegate
    /// to the `using` field; an error without one
    pub fn struct_items(&self, using: Option<&str>) -> (r: Result<(String, String), ImplError>)
        ensures
            using is Some ==> (r matches Ok((p, m)) && p@ == "::kas::class::HasStr"@ && m@ == has_str_items(
                using->0@,
            )),
            using is None ==> r == Err::<(String, String), ImplError>(ImplError::RequireUsing),
    {
        match using {
            Some(u) => {
                let mut m = String::from_str("#[inline] fn get_str(&self) -> &str { self.");
                m.append(u);
                m.append(".get_str() } #[inline] fn get_string(&self) -> String { self.");
                m.append(u);
                m.append(".get_string() }");
                Ok((String::from_str("::kas::class::HasStr"), m))
            },
            None => Err(ImplError::RequireUsing),
        }
    }
}

/// The methods generated for [`ImplHasString`] delegating to field `using`
pub open spec fn has_string_items(using: Seq<char>) -> Seq<char> {
    "#[inline] fn set_str(&mut self, text: &str) -> ::kas::Action { self."@ + using + ".set_str(text) } #[inline] fn set_string(&mut self, text: String) -> ::kas::Action { self."@ + using + ".set_string(text) }"@
}

/// `HasString` implemented by delegating to a field
#[derive(Debug, Clone, Copy, PartialEq, Eq)]
pub struct ImplHasString;

impl ImplHasString {
    /// Path of the implemented trait, by segments (a leading empty segment
    /// is a leading `::`)
    pub fn path(&self) -> (r: Vec<String>)
        ensures
            texts_are(r@, seq![""@, "kas"@, "class"@, "HasString"@]),
    {
        let parts: [&str; 4] = ["", "kas", "class", "HasString"];
        let r = segments(&parts);
        proof {
            assert(parts@ =~= seq!["", "kas", "class", "HasString"]);
        }
        r
    }

    /// Whether fields may be ignored: no
    pub fn support_ignore(&self) -> (r: bool)
        ensures
            !r,
    {
        false
    }

    /// Whether a `using` field is supported: yes
    pub fn support_using(&self) -> (r: bool)
        ensures
            r,
    {
        true
    }

    /// The trait path and the items of the implementation, which delegate
    /// to the `using` field; an error without one
    pub fn struct_items(&self, using: Option<&str>) -> (r: Result<(String, String), ImplError>)
        ensures
            using is Some ==> (r matches Ok((p, m)) && p@ == "::kas::class::HasString"@ && m@ == has_string_items(
                using->0@,
            )),
            using is None ==> r == Err::<(String, String), ImplError>(ImplError::RequireUsing),
    {
        match using {
            Some(u) => {
                let mut m = String::from_str("#[inline] fn set_str(&mut self, text: &str) -> ::kas::Action { self.");
                m.append(u);
                m.append(".set_str(text) } #[inline] fn set_string(&mut self, text: String) -> ::kas::Action { self.");
                m.append(u);
                m.append(".set_string(text) }");
                Ok((String::from_str("::kas::class::HasString"), m))
            },
            None => Err(ImplError::RequireUsing),
        }
    }
}

/// The methods generated for [`ImplScrollable`] delegating to field `using`
pub open spec fn scrollable_items(using: Seq<char>) -> Seq<char> {
    "#[inline] fn scroll_axes(&self, size: ::kas::geom::Size) -> (bool, bool) { self."@ + using + ".scroll_axes(size) } #[inline] fn max_scroll_offset(&self) -> ::kas::geom::Offset { self."@ + using + ".max_scroll_offset() } #[inline] fn scroll_offset(&self) -> ::kas::geom::Offset { self."@ + using + ".scroll_offset() } #[inline] fn set_scroll_offset(&mut self, cx: &mut ::kas::event::EventCx, offset: ::kas::geom::Offset) -> ::kas::geom::Offset { self."@ + using + ".set_scroll_offset(cx, offset) }"@
}

/// `Scrollable` implemented by delegating to a field
#[derive(Debug, Clone, Copy, PartialEq, Eq)]
pub struct ImplScrollable;

impl ImplScrollable {
    /// Path of the implemented trait, by segments (a leading empty segment
    /// is a leading `::`)
    pub fn path(&self) -> (r: Vec<String>)
        ensures
            texts_are(r@, seq![""@, "kas"@, "Scrollable"@]),
    {
        let parts: [&str; 3] = ["", "kas", "Scrollable"];
        let r = segments(&parts);
        proof {
            assert(parts@ =~= seq!["", "kas", "Scrollable"]);
        }
        r
    }

    /// Whether fields may be ignored: no
    pub fn support_ignore(&self) -> (r: bool)
        ensures
            !r,
    {
        false
    }

    /// Whether a `using` field is supported: yes
    pub fn support_using(&self) -> (r: bool)
        ensures
            r,
    {
        true
    }

    /// The trait path and the items of the implementation, which delegate
    /// to the `using` field; an error without one
    pub fn struct_items(&self, using: Option<&str>) -> (r: Result<(String, String), ImplError>)
        ensures
            using is Some ==> (r matches Ok((p, m)) && p@ == "::kas::Scrollable"@ && m@ == scrollable_items(
                using->0@,
            )),
            using is None ==> r == Err::<(String, String), ImplError>(ImplError::RequireUsing),
    {
        match using {
            Some(u) => {
                let mut m = String::from_str("#[inline] fn scroll_axes(&self, size: ::kas::geom::Size) -> (bool, bool) { self.");
                m.append(u);
                m.append(".scroll_axes(size) } #[inline] fn max_scroll_offset(&self) -> ::kas::geom::Offset { self.");
                m.append(u);
                m.append(".max_scroll_offset() } #[inline] fn scroll_offset(&self) -> ::kas::geom::Offset { self.");
                m.append(u);
                m.append(".scroll_offset() } #[inline] fn set_scroll_offset(&mut self, cx: &mut ::kas::event::EventCx, offset: ::kas::geom::Offset) -> ::kas::geom::Offset { self.");
                m.append(u);
                m.append(".set_scroll_offset(cx, offset) }");
                Ok((String::from_str("::kas::Scrollable"), m))
            },
            None => Err(ImplError::RequireUsing),
        }
    }
}

/// The methods generated for [`ImplHasScrollBars`] delegating to field `using`
pub open spec fn has_scroll_bars_items(using: Seq<char>) -> Seq<char> {
    "#[inline] fn get_mode(&self) -> ::kas::ScrollBarMode { self."@ + using + ".get_mode() } #[inline] fn set_mode(&mut self, mode: ::kas::ScrollBarMode) -> ::kas::Action { self."@ + using + ".set_mode(mode) } #[inline] fn get_visible_bars(&self) -> (bool, bool) { self."@ + using + ".get_visible_bars() } #[inline] fn set_visible_bars(&mut self, bars: (bool, bool)) -> ::kas::Action { self."@ + using + ".set_visible_bars(bars) }"@
}

/// `HasScrollBars` implemented by delegating to a field
#[derive(Debug, Clone, Copy, PartialEq, Eq)]
pub struct ImplHasScrollBars;

impl ImplHasScrollBars {
    /// Path of the implemented trait, by segments (a leading empty segment
    /// is a leading `::`)
    pub fn path(&self) -> (r: Vec<String>)
        ensures
            texts_are(r@, seq![""@, "kas"@, "HasScrollBars"@]),
    {
        let parts: [&str; 3] = ["", "kas", "HasScrollBars"];
        let r = segments(&parts);
        proof {
            assert(parts@ =~= seq!["", "kas", "HasScrollBars"]);
        }
        r
    }

    /// Whether fields may be ignored: no
    pub fn support_ignore(&self) -> (r: bool)
        ensures
            !r,
    {
        false
    }

    /// Whether a `using` field is supported: yes
    pub fn support_using(&self) -> (r: bool)
        ensures
            r,
    {
        true
    }

    /// The trait path and the items of the implementation, which delegate
    /// to the `using` field; an error without one
    pub fn struct_items(&self, using: Option<&str>) -> (r: Result<(String, String), ImplError>)
        ensures
            using is Some ==> (r matches Ok((p, m)) && p@ == "::kas::HasScrollBars"@ && m@ == has_scroll_bars_items(
                using->0@,
            )),
            using is None ==> r == Err::<(String, String), ImplError>(ImplError::RequireUsing),
    {
        match using {
            Some(u) => {
                let mut m = String::from_str("#[inline] fn get_mode(&self) -> ::kas::ScrollBarMode { self.");
                m.append(u);
                m.append(".get_mode() } #[inline] fn set_mode(&mut self, mode: ::kas::ScrollBarMode) -> ::kas::Action { self.");
                m.append(u);
                m.append(".set_mode(mode) } #[inline] fn get_visible_bars(&self) -> (bool, bool) { self.");
                m.append(u);
                m.append(".get_visible_bars() } #[inline] fn set_visible_bars(&mut self, bars: (bool, bool)) -> ::kas::Action { self.");
                m.append(u);
                m.append(".set_visible_bars(bars) }");
                Ok((String::from_str("::kas::HasScrollBars"), m))
            },
            None => Err(ImplError::RequireUsing),
        }
    }
}

/// The implementation of `kas::layout::Storage`, which needs no field
#[derive(Debug, Clone, Copy, PartialEq, Eq)]
pub struct ImplStorage;

/// The items generated for [`ImplStorage`]
pub open spec fn storage_items() -> Seq<char> {
    "fn as_any_mut(&mut self) -> &mut dyn ::std::any::Any { self }"@
}

impl ImplStorage {
    /// Path of the implemented trait, by segments
    pub fn path(&self) -> (r: Vec<String>)
        ensures
            texts_are(r@, seq![""@, "kas"@, "layout"@, "Storage"@]),
    {
        let parts: [&str; 4] = ["", "kas", "layout", "Storage"];
        let r = segments(&parts);
        proof {
            assert(parts@ =~= seq!["", "kas", "layout", "Storage"]);
        }
        r
    }

    /// Whether fields may be ignored: no
    pub fn support_ignore(&self) -> (r: bool)
        ensures
            !r,
    {
        false
    }

    /// Whether a `using` field is supported: no
    pub fn support_using(&self) -> (r: bool)
        ensures
            !r,
    {
        false
    }

    /// The items of the implementation
    pub fn struct_items(&self) -> (r: Result<String, ImplError>)
        ensures
            r matches Ok(m) && m@ == storage_items(),
    {
        Ok(String::from_str("fn as_any_mut(&mut self) -> &mut dyn ::std::any::Any { self }"))
    }
}

/// One implementation: `impl<..> Path for Type<..> where .. { items }`
pub open spec fn impl_text(
    type_ident: Seq<char>,
    impl_generics: Seq<char>,
    ty_generics: Seq<char>,
    path: Seq<char>,
    where_clause: Seq<char>,
    items: Seq<char>,
) -> Seq<char> {
    "impl "@ + impl_generics + " "@ + path + " for "@ + type_ident + ty_generics + " "@ + where_clause
        + " { "@ + items + " } "@
}

/// Append one implementation to `out`
fn push_impl(
    out: &mut String,
    type_ident: &str,
    impl_generics: &str,
    ty_generics: &str,
    path: &str,
    where_clause: &str,
    items: &str,
)
    ensures
        final(out)@ == old(out)@ + impl_text(
            type_ident@,
            impl_generics@,
            ty_generics@,
            path@,
            where_clause@,
            items@,
        ),
{
    out.append("impl ");
    out.append(impl_generics);
    out.append(" ");
    out.append(path);
    out.append(" for ");
    out.append(type_ident);
    out.append(ty_generics);
    out.append(" ");
    out.append(where_clause);
    out.append(" { ");
    out.append(items);
    out.append(" } ");
}

/// The class traits `HasBool`, `HasStr` and `HasString` at once, each
/// delegating to the `using` field
#[derive(Debug, Clone, Copy, PartialEq, Eq)]
pub struct ImplClassTraits;

impl ImplClassTraits {
    /// Path of the pseudo-trait, by segments
    pub fn path(&self) -> (r: Vec<String>)
        ensures
            texts_are(r@, seq!["class_traits"@]),
    {
        let parts: [&str; 1] = ["class_traits"];
        let r = segments(&parts);
        proof {
            assert(parts@ =~= seq!["class_traits"]);
        }
        r
    }

    /// Whether fields may be ignored: no
    pub fn support_ignore(&self) -> (r: bool)
        ensures
            !r,
    {
        false
    }

    /// Whether a `using` field is supported: yes
    pub fn support_using(&self) -> (r: bool)
        ensures
            r,
    {
        true
    }

    /// Items of a single implementation: not available, since this stands
    /// for three traits (see [`Self::struct_impl`])
    pub fn struct_items(&self, using: Option<&str>) -> (r: Result<(String, String), ImplError>)
        ensures
            r matches Err(ImplError::CallSite(msg)) && msg@ == "unimplemented"@,
    {
        Err(ImplError::CallSite(String::from_str("unimplemented")))
    }

    /// The three implementations for type `type_ident`, with the `where`
    /// clause given for each trait (`HasBool`, `HasStr`, `HasString`); an
    /// error without a `using` field
    pub fn struct_impl(
        &self,
        type_ident: &str,
        impl_generics: &str,
        ty_generics: &str,
        wc_has_bool: &str,
        wc_has_str: &str,
        wc_has_string: &str,
        using: Option<&str>,
    ) -> (r: Result<String, ImplError>)
        ensures
            using is None ==> r == Err::<String, ImplError>(ImplError::RequireUsing),
            using is Some ==> (r matches Ok(t) && t@ == impl_text(
                type_ident@,
                impl_generics@,
                ty_generics@,
                "::kas::class::HasBool"@,
                wc_has_bool@,
                has_bool_items(using->0@),
            ) + impl_text(
                type_ident@,
                impl_generics@,
                ty_generics@,
                "::kas::class::HasStr"@,
                wc_has_str@,
                has_str_items(using->0@),
            ) + impl_text(
                type_ident@,
                impl_generics@,
                ty_generics@,
                "::kas::class::HasString"@,
                wc_has_string@,
                has_string_items(using->0@),
            )),
    {
        let mut toks = String::new();
        let (path, items) = match ImplHasBool.struct_items(using) {
            Ok(pi) => pi,
            Err(e) => return Err(e),
        };
        push_impl(&mut toks, type_ident, impl_generics, ty_generics, path.as_str(), wc_has_bool, items.as_str());
        let (path, items) = match ImplHasStr.struct_items(using) {
            Ok(pi) => pi,
            Err(e) => return Err(e),
        };
        push_impl(&mut toks, type_ident, impl_generics, ty_generics, path.as_str(), wc_has_str, items.as_str());
        let (path, items) = match ImplHasString.struct_items(using) {
            Ok(pi) => pi,
            Err(e) => return Err(e),
        };
        push_impl(&mut toks, type_ident, impl_generics, ty_generics, path.as_str(), wc_has_string, items.as_str());
        Ok(toks)
    }
}

} // verus!
