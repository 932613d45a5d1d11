//! Filters over data: string containment, case-sensitive or not, and the
//! edit guards which turn text input into filter updates.

use vstd::prelude::*;

verus! {

/// `needle` occurs as a contiguous part of `haystack`
pub open spec fn seq_contains(haystack: Seq<char>, needle: Seq<char>) -> bool {
    exists|i: int|
        0 <= i && i + needle.len() <= haystack.len() && #[trigger] haystack.subrange(
            i,
            i + needle.len(),
        ) == needle
}

/// The upper-case mapping of a string (Unicode, as `str::to_uppercase`)
pub uninterp spec fn spec_to_uppercase(s: Seq<char>) -> Seq<char>;

/// Calls `str::contains` with a string pattern, which is true exactly when
/// the pattern occurs as a contiguous run of characters in `haystack`.
#[verifier::external_body]
fn str_contains(haystack: &str, needle: &str) -> (r: bool)
    ensures
        r == seq_contains(haystack@, needle@),
{
    haystack.contains(needle)
}

/// Calls `str::to_uppercase`; the result is named by `spec_to_uppercase`
/// (its Unicode case tables are not restated here).
#[verifier::external_body]
fn to_uppercase(s: &str) -> (r: String)
    ensures
        r@ == spec_to_uppercase(s@),
{
    s.to_uppercase()
}

/// Ability to set filter
pub trait FilterValue: Default + View {
    /// The type of the filter's value
    type Value;

    /// The filter (by its view) after setting `value`, and whether that
    /// changed it
    spec fn spec_set(&self, value: Self::Value) -> (Self::V, bool);

    /// Update the filter, returning `true` on change
    fn set_filter(&mut self, value: Self::Value) -> (changed: bool)
        ensures
            (final(self)@, changed) == old(self).spec_set(value),
    ;
}

/// Types usable as a filter
pub trait Filter<T>: FilterValue {
    /// Returns true if the given item matches this filter
    fn matches(&self, item: &T) -> bool;
}

/// Filter: target contains self (case-sensitive string match)
#[derive(Debug, Default, Clone, PartialEq, Eq)]
pub struct ContainsString(String);

impl View for ContainsString {
    type V = Seq<char>;

    closed spec fn view(&self) -> Seq<char> {
        self.0@
    }
}

impl ContainsString {
    /// Construct with empty text
    pub fn new() -> (r: Self)
        ensures
            r@ == Seq::<char>::empty(),
    {
        ContainsString(String::new())
    }
}

impl FilterValue for ContainsString {
    type Value = String;

    open spec fn spec_set(&self, value: String) -> (Seq<char>, bool) {
        (value@, self@ != value@)
    }

    fn set_filter(&mut self, value: String) -> (changed: bool)
        ensures
            final(self)@ == value@,
            changed == (old(self)@ != value@),
    {
        if self.0 != value {
            self.0 = value;
            true
        } else {
            false
        }
    }
}

impl<'a> Filter<&'a str> for ContainsString {
    fn matches(&self, item: &&'a str) -> (r: bool)
        ensures
            r == seq_contains((*item)@, self@),
    {
        str_contains(*item, self.0.as_str())
    }
}

impl Filter<String> for ContainsString {
    fn matches(&self, item: &String) -> (r: bool)
        ensures
            r == seq_contains(item@, self@),
    {
        str_contains(item.as_str(), self.0.as_str())
    }
}

/// Filter: target contains self (case-insensitive string match)
///
/// Both the filter text and the target are converted to upper case before
/// matching (not fully Unicode-compliant caseless matching).
#[derive(Debug, Default, Clone, PartialEq, Eq)]
pub struct ContainsCaseInsensitive(String);

impl View for ContainsCaseInsensitive {
    type V = Seq<char>;

    closed spec fn view(&self) -> Seq<char> {
        self.0@
    }
}

impl ContainsCaseInsensitive {
    /// Construct with empty text
    pub fn new() -> (r: Self)
        ensures
            r@ == Seq::<char>::empty(),
    {
        ContainsCaseInsensitive(String::new())
    }
}

impl FilterValue for ContainsCaseInsensitive {
    type Value = String;

    open spec fn spec_set(&self, value: String) -> (Seq<char>, bool) {
        (spec_to_uppercase(value@), self@ != spec_to_uppercase(value@))
    }

    fn set_filter(&mut self, value: String) -> (changed: bool)
        ensures
            final(self)@ == spec_to_uppercase(value@),
            changed == (old(self)@ != spec_to_uppercase(value@)),
    {
        let filter = to_uppercase(value.as_str());
        if filter != self.0 {
            self.0 = filter;
            true
        } else {
            false
        }
    }
}

impl<'a> Filter<&'a str> for ContainsCaseInsensitive {
    fn matches(&self, item: &&'a str) -> (r: bool)
        ensures
            r == seq_contains(spec_to_uppercase((*item)@), self@),
    {
        let upper = to_uppercase(*item);
        str_contains(upper.as_str(), self.0.as_str())
    }
}

impl Filter<String> for ContainsCaseInsensitive {
    fn matches(&self, item: &String) -> (r: bool)
        ensures
            r == seq_contains(spec_to_uppercase(item@), self@),
    {
        let upper = to_uppercase(item.as_str());
        str_contains(upper.as_str(), self.0.as_str())
    }
}

/// Message: set the filter to the given value
#[derive(Debug, Default)]
pub struct SetFilter<T>(pub T);

/// Apply a [`SetFilter`] message to a filter, returning `true` on change
/// (the view must then be updated)
pub fn apply_set_filter<F: FilterValue>(filter: &mut F, msg: SetFilter<F::Value>) -> (changed: bool)
    ensures
        (final(filter)@, changed) == old(filter).spec_set(msg.0),
{
    filter.set_filter(msg.0)
}

/// An edit guard which sends a [`SetFilter`] message on every change
///
/// This may be used for search-as-you-type.
#[derive(Debug, Default, Clone, Copy, PartialEq, Eq)]
pub struct KeystrokeGuard;

impl KeystrokeGuard {
    /// The message sent when the edit text changed to `text`
    pub fn edit(text: &str) -> (msg: Option<SetFilter<String>>)
        ensures
            msg matches Some(m) && m.0@ == text@,
    {
        Some(SetFilter(text.to_string()))
    }

    /// The message sent when the edit field loses focus: none
    pub fn focus_lost(text: &str) -> (msg: Option<SetFilter<String>>)
        ensures
            msg is None,
    {
        None
    }
}

/// An edit guard which sends a [`SetFilter`] message on activate and focus
/// loss
#[derive(Debug, Default, Clone, Copy, PartialEq, Eq)]
pub struct AflGuard;

impl AflGuard {
    /// The message sent when the edit text changed: none
    pub fn edit(text: &str) -> (msg: Option<SetFilter<String>>)
        ensures
            msg is None,
    {
        None
    }

    /// The message sent when the edit field loses focus with `text`
    pub fn focus_lost(text: &str) -> (msg: Option<SetFilter<String>>)
        ensures
            msg matches Some(m) && m.0@ == text@,
    {
        Some(SetFilter(text.to_string()))
    }
}

} // verus!
