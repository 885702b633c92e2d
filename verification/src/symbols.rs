//! Names and display text, both compared by content.

use vstd::prelude::*;
use vstd::std_specs::cmp::PartialEqSpecImpl;
use vstd::std_specs::convert::FromSpecImpl;
use vstd::string::StringExecFns;

verus! {

/// A short symbolic name: a label, a variable, a choice set or one of its
/// options.
#[derive(Debug)]
pub struct Identifier(String);

/// A run of display text: a line of dialogue or the text of an option.
#[derive(Debug)]
pub struct Text(String);

impl View for Identifier {
    type V = Seq<char>;

    closed spec fn view(&self) -> Seq<char> {
        self.0@
    }
}

impl View for Text {
    type V = Seq<char>;

    closed spec fn view(&self) -> Seq<char> {
        self.0@
    }
}

impl Clone for Identifier {
    fn clone(&self) -> (copy: Self)
        ensures
            copy@ == self@,
    {
        Identifier(self.0.clone())
    }
}

impl Clone for Text {
    fn clone(&self) -> (copy: Self)
        ensures
            copy@ == self@,
    {
        Text(self.0.clone())
    }
}

impl PartialEq for Identifier {
    fn eq(&self, other: &Self) -> (same: bool) {
        self.0 == other.0
    }
}

impl PartialEqSpecImpl for Identifier {
    open spec fn obeys_eq_spec() -> bool {
        true
    }

    open spec fn eq_spec(&self, other: &Self) -> bool {
        self@ == other@
    }
}

impl<'a> From<&'a str> for Identifier {
    fn from(value: &'a str) -> (made: Self)
        ensures
            made@ == value@,
    {
        Identifier(String::from_str(value))
    }
}

/// What `from` returns is stated by its own `ensures`, over the view: the
/// characters of a name do not determine its representation.
impl<'a> FromSpecImpl<&'a str> for Identifier {
    open spec fn obeys_from_spec() -> bool {
        false
    }

    open spec fn from_spec(value: &'a str) -> Self {
        arbitrary()
    }
}

impl PartialEq for Text {
    fn eq(&self, other: &Self) -> (same: bool) {
        self.0 == other.0
    }
}

impl PartialEqSpecImpl for Text {
    open spec fn obeys_eq_spec() -> bool {
        true
    }

    open spec fn eq_spec(&self, other: &Self) -> bool {
        self@ == other@
    }
}

impl<'a> From<&'a str> for Text {
    fn from(value: &'a str) -> (made: Self)
        ensures
            made@ == value@,
    {
        Text(String::from_str(value))
    }
}

/// What `from` returns is stated by its own `ensures`, over the view: the
/// characters of a text do not determine its representation.
impl<'a> FromSpecImpl<&'a str> for Text {
    open spec fn obeys_from_spec() -> bool {
        false
    }

    open spec fn from_spec(value: &'a str) -> Self {
        arbitrary()
    }
}

impl Identifier {
    /// The same characters as display text.
    pub fn to_text(self) -> (text: Text)
        ensures
            text@ == self@,
    {
        Text(self.0)
    }

    /// The characters of the name.
    pub fn as_str(&self) -> (chars: &str)
        ensures
            chars@ == self@,
    {
        self.0.as_str()
    }
}

impl Text {
    /// The same characters as a name.
    pub fn to_ident(self) -> (name: Identifier)
        ensures
            name@ == self@,
    {
        Identifier(self.0)
    }

    /// The characters of the text.
    pub fn as_str(&self) -> (chars: &str)
        ensures
            chars@ == self@,
    {
        self.0.as_str()
    }

    /// The text with a line break at its end.
    pub fn with_break(&self) -> (broken: Text)
        ensures
            broken@ == self@.push('\n'),
    {
        let mut chars = self.0.clone();
        proof {
            reveal_strlit("\n");
            assert("\n"@ =~= seq!['\n']);
        }
        chars.append("\n");
        proof {
            assert(chars@ =~= self@.push('\n'));
        }
        Text(chars)
    }
}

} // verus!
