//! Names of rewrite rules.
use vstd::prelude::*;

verus! {

/// A name. Two symbols are the same name exactly when their characters are.
#[derive(Debug, PartialEq, Eq)]
pub struct Symbol {
    pub text: String,
}

impl View for Symbol {
    type V = Seq<char>;

    open spec fn view(&self) -> Seq<char> {
        self.text@
    }
}

impl Symbol {
    /// Whether two symbols are the same name.
    pub fn same(&self, other: &Symbol) -> (b: bool)
        ensures
            b == (self@ == other@),
    {
        self.text == other.text
    }

    /// The name's characters.
    pub fn as_str(&self) -> (s: &str)
        ensures
            s@ == self@,
    {
        self.text.as_str()
    }
}

impl Clone for Symbol {
    fn clone(&self) -> (s: Self)
        ensures
            s == *self,
    {
        Symbol { text: self.text.clone() }
    }
}

impl<'a> From<&'a str> for Symbol {
    fn from(text: &'a str) -> (s: Self)
        ensures
            s@ == text@,
    {
        Symbol { text: text.to_owned() }
    }
}

impl<'a> vstd::std_specs::convert::FromSpecImpl<&'a str> for Symbol {
    /// The name is pinned down by its characters alone, in the contract of `from`.
    open spec fn obeys_from_spec() -> bool {
        false
    }

    open spec fn from_spec(text: &'a str) -> Symbol {
        arbitrary()
    }
}

impl From<String> for Symbol {
    fn from(text: String) -> (s: Self) {
        Symbol { text }
    }
}

impl vstd::std_specs::convert::FromSpecImpl<String> for Symbol {
    open spec fn obeys_from_spec() -> bool {
        true
    }

    open spec fn from_spec(text: String) -> Symbol {
        Symbol { text }
    }
}

/// A name is its characters: one that is made from a text has them, a copy has them, and two
/// names are the same exactly when they have the same.
pub proof fn law_name_is_its_characters(
    text: &str,
    a: Symbol,
    b: &Symbol,
    copy: Symbol,
    shown: &str,
    same: bool,
)
    requires
        call_ensures(<Symbol as From<&str>>::from, (text,), a),
        call_ensures(<Symbol as Clone>::clone, (&a,), copy),
        call_ensures(Symbol::as_str, (&copy,), shown),
        call_ensures(Symbol::same, (&copy, b), same),
    ensures
        a.text@ == text@,
        copy.text@ == text@,
        shown@ == text@,
        same <==> b.text@ == text@,
{
}

} // verus!
