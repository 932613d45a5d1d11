//! An optionally-owning reference, as handed out by theme trait objects.

use vstd::prelude::*;

verus! {

/// An optionally-owning (boxed) reference
///
/// This is related but not identical to `Cow`.
pub enum MaybeBoxed<'a, B: 'a> {
    Borrowed(&'a B),
    Boxed(Box<B>),
}

impl<'a, B: 'a> MaybeBoxed<'a, B> {
    /// The referenced value, as a spec function
    pub open spec fn spec_target(&self) -> B {
        match self {
            MaybeBoxed::Borrowed(r) => **r,
            MaybeBoxed::Boxed(b) => **b,
        }
    }

    /// Borrow the referenced value, owned or not
    pub fn as_ref(&self) -> (r: &B)
        ensures
            *r == self.spec_target(),
    {
        match self {
            MaybeBoxed::Borrowed(r) => r,
            MaybeBoxed::Boxed(b) => b,
        }
    }
}

} // verus!
