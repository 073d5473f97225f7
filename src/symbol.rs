//! Interned text: the handles that identifiers, keywords and literals carry.
use vstd::prelude::*;
use internment::Intern;

verus! {

#[verifier::external_type_specification]
#[verifier::external_body]
#[verifier::reject_recursive_types(T)]
pub struct ExIntern<T: 'static + ?Sized>(Intern<T>);

/// The text that an interned handle stands for.
pub uninterp spec fn interned_text(h: Intern<String>) -> Seq<char>;

/// Relies on `internment::Intern::new`: the handle it returns points at a
/// value equal to the one handed in.
#[verifier::external_body]
pub(crate) fn intern(s: String) -> (r: Intern<String>)
    ensures
        interned_text(r) == s@,
{
    Intern::new(s)
}

/// Relies on `PartialEq for internment::Intern`: two handles compare equal
/// exactly when they point at the same value, and `Intern::new` hands out one
/// pointer per distinct value.
#[verifier::external_body]
pub(crate) fn same_symbol(a: Intern<String>, b: Intern<String>) -> (r: bool)
    ensures
        r == (interned_text(a) == interned_text(b)),
{
    a == b
}

} // verus!
