//! Application identifiers.
use vstd::prelude::*;

use crate::text::{chars_of, string_of, trim, trim_chars};

verus! {

/// A unique identifier for an application registered on the desktop.
///
/// Identifiers use the reverse-domain convention, e.g. `org.muaaz.terminal`.
/// They are immutable and cheap to compare. An identifier is never blank:
/// it always holds a character that is not white space.
#[derive(Debug, Hash)]
pub struct AppId(String);

impl View for AppId {
    type V = Seq<char>;

    closed spec fn view(&self) -> Seq<char> {
        self.0@
    }
}

/// Whether `s` is blank: empty once white space is trimmed off.
pub open spec fn is_blank(s: Seq<char>) -> bool {
    trim(s).len() == 0
}

impl AppId {
    #[verifier::type_invariant]
    spec fn not_blank(self) -> bool {
        !is_blank(self.0@)
    }

    /// Creates a new identifier holding `value`.
    ///
    /// A blank `value` is a programmer error: callers must not pass one.
    pub fn new(value: &str) -> (id: AppId)
        requires
            !is_blank(value@),
        ensures
            id@ == value@,
    {
        let v = chars_of(value);
        AppId(string_of(&v))
    }

    /// Whether `value` may become an identifier, i.e. is not blank.
    pub fn is_valid(value: &str) -> (r: bool)
        ensures
            r == !is_blank(value@),
    {
        let v = chars_of(value);
        trim_chars(&v).len() > 0
    }

    /// Borrows this identifier as a string slice.
    pub fn as_str(&self) -> (s: &str)
        ensures
            s@ == self@,
    {
        self.0.as_str()
    }

    /// The identifier as text, as it is displayed.
    pub fn to_string(&self) -> (s: String)
        ensures
            s@ == self@,
    {
        self.0.clone()
    }
}

impl Clone for AppId {
    fn clone(&self) -> (r: Self)
        ensures
            r == *self,
    {
        proof {
            use_type_invariant(self);
        }
        AppId(self.0.clone())
    }
}

impl AsRef<str> for AppId {
    fn as_ref(&self) -> (s: &str)
        ensures
            s@ == self@,
    {
        self.0.as_str()
    }
}

impl PartialEq for AppId {
    fn eq(&self, other: &Self) -> (r: bool) {
        self.0 == other.0
    }
}

impl Eq for AppId {

}

impl vstd::std_specs::cmp::PartialEqSpecImpl for AppId {
    open spec fn obeys_eq_spec() -> bool {
        true
    }

    open spec fn eq_spec(&self, other: &AppId) -> bool {
        self@ == other@
    }
}

} // verus!
