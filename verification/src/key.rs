//! The keys that an annotation block may hold.

use crate::text::text_eq;
use vstd::prelude::*;
use vstd::string::*;

verus! {

/// One of the keys that an annotation block may hold.
#[derive(Clone, Copy, Debug, PartialEq, Eq, Structural)]
pub enum Key {
    Default,
    Placeholder,
    Prefix,
    Skip,
    Type,
    Visibility,
}

/// The key that a text names, if it names one.
pub open spec fn keyword(key: Seq<char>) -> Option<Key> {
    if key == "default"@ {
        Some(Key::Default)
    } else if key == "placeholder"@ {
        Some(Key::Placeholder)
    } else if key == "prefix"@ {
        Some(Key::Prefix)
    } else if key == "skip"@ {
        Some(Key::Skip)
    } else if key == "type"@ {
        Some(Key::Type)
    } else if key == "visibility"@ {
        Some(Key::Visibility)
    } else {
        None
    }
}

impl Key {
    /// The text that names this key.
    pub open spec fn text(self) -> Seq<char> {
        match self {
            Key::Default => "default"@,
            Key::Placeholder => "placeholder"@,
            Key::Prefix => "prefix"@,
            Key::Skip => "skip"@,
            Key::Type => "type"@,
            Key::Visibility => "visibility"@,
        }
    }

    /// The text that names this key.
    pub fn name(self) -> (name: &'static str)
        ensures
            name@ == self.text(),
    {
        match self {
            Key::Default => "default",
            Key::Placeholder => "placeholder",
            Key::Prefix => "prefix",
            Key::Skip => "skip",
            Key::Type => "type",
            Key::Visibility => "visibility",
        }
    }
}

/// A text names a key exactly if it is the text of that key.
pub proof fn lemma_keyword_names(text: Seq<char>, key: Key)
    ensures
        keyword(text) == Some(key) <==> text == key.text(),
{
    reveal_strlit("default");
    reveal_strlit("placeholder");
    reveal_strlit("prefix");
    reveal_strlit("skip");
    reveal_strlit("type");
    reveal_strlit("visibility");
    assert("placeholder"@.len() == 11);
    assert("prefix"@.len() == 6);
    assert("visibility"@.len() == 10);
    assert("skip"@[0] == 's');
    assert("type"@[0] == 't');
}

/// The key that `key` names, if it names one.
pub fn keyword_of(key: &str) -> (found: Option<Key>)
    ensures
        found == keyword(key@),
{
    if text_eq(key, "default") {
        Some(Key::Default)
    } else if text_eq(key, "placeholder") {
        Some(Key::Placeholder)
    } else if text_eq(key, "prefix") {
        Some(Key::Prefix)
    } else if text_eq(key, "skip") {
        Some(Key::Skip)
    } else if text_eq(key, "type") {
        Some(Key::Type)
    } else if text_eq(key, "visibility") {
        Some(Key::Visibility)
    } else {
        None
    }
}

} // verus!
