//! One spelling issue, as the service reports it.

use vstd::prelude::*;

verus! {

/// One issue that the service found in a text.
#[derive(Debug, Clone, PartialEq, Eq)]
pub struct SpellResult {
    /// Classification of the issue, see [`SpellResult::get_error_name`].
    pub code: u32,
    /// Column of the word, counted from zero.
    pub col: u32,
    /// Length of the word.
    pub len: u32,
    /// Offset of the word in the text.
    pub pos: u32,
    /// Row of the word, counted from zero.
    pub row: u32,
    /// Suggested replacements, best first; may be empty.
    pub s: Vec<String>,
    /// The word as it stands in the text.
    pub word: String,
}

/// The issues found in one text, in the order in which the service gave them.
pub type SpellResults = Vec<SpellResult>;

/// The mathematical value of a [`SpellResult`].
pub struct Diagnostic {
    pub code: u32,
    pub col: u32,
    pub len: u32,
    pub pos: u32,
    pub row: u32,
    pub s: Seq<Seq<char>>,
    pub word: Seq<char>,
}

impl DeepView for SpellResult {
    type V = Diagnostic;

    open spec fn deep_view(&self) -> Diagnostic {
        Diagnostic {
            code: self.code,
            col: self.col,
            len: self.len,
            pos: self.pos,
            row: self.row,
            s: self.s.deep_view(),
            word: self.word@,
        }
    }
}

impl View for SpellResult {
    type V = Diagnostic;

    open spec fn view(&self) -> Diagnostic {
        self.deep_view()
    }
}

/// The name of a classification code, where it has one.
///
/// Codes 1 and 4 both stand for an unknown word.
pub open spec fn error_name(code: u32) -> Option<Seq<char>> {
    if code == 1 || code == 4 {
        Some("ERROR_UNKNOWN_WORD"@)
    } else if code == 2 {
        Some("ERROR_REPEAT_WORD"@)
    } else if code == 3 {
        Some("ERROR_CAPITALIZATION"@)
    } else {
        None
    }
}

impl SpellResult {
    /// The name of this issue's classification, or `None` for a code that
    /// has no name. The code itself is kept either way.
    pub fn get_error_name(&self) -> (name: Option<&'static str>)
        ensures
            name.deep_view() == error_name(self.code),
    {
        match self.code {
            1 => Some("ERROR_UNKNOWN_WORD"),
            2 => Some("ERROR_REPEAT_WORD"),
            3 => Some("ERROR_CAPITALIZATION"),
            4 => Some("ERROR_UNKNOWN_WORD"),
            _ => None,
        }
    }
}

} // verus!
