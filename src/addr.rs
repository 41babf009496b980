use vstd::prelude::*;

verus! {

/// An account address, held as its text.
#[derive(Clone, Debug)]
pub struct Addr {
    text: String,
}

impl View for Addr {
    type V = Seq<char>;

    closed spec fn view(&self) -> Seq<char> {
        self.text@
    }
}

impl Addr {
    /// Wraps the given text as an address without validating it.
    pub fn unchecked(s: &str) -> (r: Addr)
        ensures
            r@ == s@,
    {
        Addr { text: s.to_string() }
    }

    /// The text of the address.
    pub fn as_str(&self) -> (r: &str)
        ensures
            r@ == self@,
    {
        self.text.as_str()
    }

    /// An equal, independently owned address.
    pub fn copied(&self) -> (r: Addr)
        ensures
            r@ == self@,
    {
        Addr { text: self.text.clone() }
    }
}

impl PartialEq for Addr {
    fn eq(&self, other: &Addr) -> (r: bool)
        ensures
            r == (self@ == other@),
    {
        self.text == other.text
    }
}

impl vstd::std_specs::cmp::PartialEqSpecImpl for Addr {
    open spec fn obeys_eq_spec() -> bool {
        true
    }

    open spec fn eq_spec(&self, other: &Addr) -> bool {
        self@ == other@
    }
}

impl Eq for Addr {
}

} // verus!
