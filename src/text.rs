//! Shared string handles for identifiers and display names.

use std::sync::Arc;

use vstd::prelude::*;

verus! {

/// A string handle that lives as long as the program.
pub type ArcStaticStr = ArcRefStr<'static>;

/// A string that is either borrowed or shared behind a reference count.
#[derive(Clone)]
pub enum ArcRefStr<'a> {
    Ref(&'a str),
    Arc(Arc<str>),
}

impl<'a> View for ArcRefStr<'a> {
    type V = Seq<char>;

    open spec fn view(&self) -> Seq<char> {
        match self {
            ArcRefStr::Ref(s) => s@,
            ArcRefStr::Arc(a) => a@,
        }
    }
}

/// Relies on `<Arc<str> as From<&str>>::from`: the shared string holds the
/// same characters.
#[verifier::external_body]
fn shared_copy(s: &str) -> (r: Arc<str>)
    ensures
        r@ == s@,
{
    Arc::from(s)
}

impl<'a> ArcRefStr<'a> {
    /// The characters as a shared string, copied only when borrowed.
    pub fn into_arc(self) -> (r: Arc<str>)
        ensures
            r@ == self@,
    {
        match self {
            ArcRefStr::Ref(s) => shared_copy(s),
            ArcRefStr::Arc(a) => a,
        }
    }

    /// The characters, whichever way they are held.
    pub fn as_str(&self) -> (r: &str)
        ensures
            r@ == self@,
    {
        match self {
            ArcRefStr::Ref(s) => s,
            ArcRefStr::Arc(a) => &**a,
        }
    }
}

impl<'a> From<&'a str> for ArcRefStr<'a> {
    fn from(value: &'a str) -> (r: Self)
        ensures
            r == ArcRefStr::Ref(value),
    {
        ArcRefStr::Ref(value)
    }
}

impl<'a> vstd::std_specs::convert::FromSpecImpl<&'a str> for ArcRefStr<'a> {
    open spec fn obeys_from_spec() -> bool {
        true
    }

    open spec fn from_spec(v: &'a str) -> Self {
        ArcRefStr::Ref(v)
    }
}

} // verus!
