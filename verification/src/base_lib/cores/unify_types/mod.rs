//! Unified interfaces for engine-side identifiers and the time type.
pub mod time_type;

use vstd::prelude::*;

verus! {

/// An engine-side identifier: uniquely identifying and cheap to compare.
///
/// Implemented for `i64`, `usize`, `&str` and `String`.
pub trait FixedName: Eq + core::hash::Hash + Clone + core::fmt::Debug {
    /// Whether two names are the same name.
    spec fn same_name(&self, other: &Self) -> bool;

    /// Compares two names.
    fn is_same_name(&self, other: &Self) -> (r: bool)
        ensures
            r == self.same_name(other),
    ;
}

impl FixedName for i64 {
    open spec fn same_name(&self, other: &Self) -> bool {
        *self == *other
    }

    fn is_same_name(&self, other: &Self) -> (r: bool)
        ensures
            r == (*self == *other),
    {
        *self == *other
    }
}

impl FixedName for usize {
    open spec fn same_name(&self, other: &Self) -> bool {
        *self == *other
    }

    fn is_same_name(&self, other: &Self) -> (r: bool)
        ensures
            r == (*self == *other),
    {
        *self == *other
    }
}

/// Names are the same when they hold the same characters.
impl<'a> FixedName for &'a str {
    open spec fn same_name(&self, other: &Self) -> bool {
        (**self)@ == (**other)@
    }

    fn is_same_name(&self, other: &Self) -> (r: bool)
        ensures
            r == ((**self)@ == (**other)@),
    {
        str_eq(*self, *other)
    }
}

/// Names are the same when they hold the same characters.
impl FixedName for String {
    open spec fn same_name(&self, other: &Self) -> bool {
        self@ == other@
    }

    fn is_same_name(&self, other: &Self) -> (r: bool)
        ensures
            r == (self@ == other@),
    {
        *self == *other
    }
}

/// `==` on `str`: two string slices are equal when they hold the same characters
/// (the documentation: equal when their bytes are equal, and UTF-8 text with the
/// same bytes has the same characters).
#[verifier::external_body]
fn str_eq(a: &str, b: &str) -> (r: bool)
    ensures
        r == (a@ == b@),
{
    a == b
}

/// For the built-in name types, being the same name is equality: of the numbers for
/// `i64` and `usize`, of the characters for `&str` and `String` (what `==` compares
/// for strings). Hence it is reflexive and symmetric, and two different numbers are
/// never the same name.
pub proof fn law_same_name_is_equality(a: i64, b: i64, c: usize, d: usize, x: &str, y: &str, u: String, v: String)
    ensures
        a.same_name(&b) <==> a == b,
        c.same_name(&d) <==> c == d,
        x.same_name(&y) <==> x@ == y@,
        u.same_name(&v) <==> u@ == v@,
        a.same_name(&a) && c.same_name(&c) && x.same_name(&x) && u.same_name(&u),
        a.same_name(&b) == b.same_name(&a) && c.same_name(&d) == d.same_name(&c),
        x.same_name(&y) == y.same_name(&x) && u.same_name(&v) == v.same_name(&u),
{
}

} // verus!
