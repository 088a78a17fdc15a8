//! Worker names.

use crate::decimal::{decimal, push_decimal, to_decimal};
use vstd::prelude::*;

verus! {

/// The name of a worker: an immutable piece of text, viewed as its characters.
///
/// Names are compared by their text. A child's name is its parent's name, a
/// dot and the child's index.
#[derive(Debug, Hash)]
pub struct Name {
    text: String,
}

impl View for Name {
    type V = Seq<char>;

    closed spec fn view(&self) -> Seq<char> {
        self.text@
    }
}

/// The name of the child with the given index under `parent`.
pub open spec fn child_name(parent: Seq<char>, index: nat) -> Seq<char> {
    parent + seq!['.'] + decimal(index)
}

impl Clone for Name {
    fn clone(&self) -> (copy: Self)
        ensures
            copy@ == self@,
    {
        Name { text: self.text.clone() }
    }
}

impl PartialEq for Name {
    fn eq(&self, other: &Self) -> (same: bool) {
        self.text == other.text
    }
}

impl Eq for Name {

}

impl vstd::std_specs::cmp::PartialEqSpecImpl for Name {
    open spec fn obeys_eq_spec() -> bool {
        true
    }

    open spec fn eq_spec(&self, other: &Self) -> bool {
        self@ == other@
    }
}

impl Name {
    /// The name with the given text.
    pub fn new(text: String) -> (name: Name)
        ensures
            name@ == text@,
    {
        Name { text }
    }

    /// The name with the given text.
    pub fn from_str(text: &str) -> (name: Name)
        ensures
            name@ == text@,
    {
        Name { text: String::from_str(text) }
    }

    /// The name whose text is the decimal numeral of `index`.
    pub fn from_index(index: u64) -> (name: Name)
        ensures
            name@ == decimal(index as nat),
    {
        Name { text: to_decimal(index) }
    }

    /// The text of the name.
    pub fn as_str(&self) -> (text: &str)
        ensures
            text@ == self@,
    {
        self.text.as_str()
    }

    /// A copy of the text of the name.
    pub fn to_string(&self) -> (text: String)
        ensures
            text@ == self@,
    {
        self.text.clone()
    }

    /// The name of the child with the given index under this name.
    pub fn child(&self, index: u64) -> (child: Name)
        ensures
            child@ == child_name(self@, index as nat),
    {
        proof {
            reveal_strlit(".");
        }
        let mut text = self.text.clone();
        text.append(".");
        push_decimal(&mut text, index);
        assert(text@ =~= child_name(self@, index as nat));
        Name { text }
    }
}

} // verus!
