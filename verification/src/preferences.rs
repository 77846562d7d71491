//! A user's stored typing-test preferences.  The persistence collaborator
//! stores and retrieves them; this crate only carries the values.

use vstd::prelude::*;

verus! {

/// Everything a user can configure about their typing tests.
#[derive(Debug)]
pub struct Preferences {
    pub current_mode: TypingTestMode,
    pub words_mode_length: u32,
    pub time_mode_duration: u32,
    pub language: Language,
    pub quote_mode_length: QuoteModeLength,
    pub max_chars_in_line: u32,
    pub show_all_lines: bool,
}

/// The kind of typing test the user currently has selected.
#[derive(Debug, Clone, Copy, PartialEq, Eq, Structural)]
pub enum TypingTestMode {
    Words,
    Time,
    Quote,
}

/// The word list a test draws from.
#[derive(Debug, Clone, Copy, PartialEq, Eq, Structural)]
pub enum Language {
    English,
    English1k,
    English5k,
    English10k,
    English25k,
    English450k,
}

/// The rough length class of quotes the user wants to type.
#[derive(Debug, Clone, Copy, PartialEq, Eq, Structural)]
pub enum QuoteModeLength {
    Short,
    Medium,
    Long,
    VeryLong,
    All,
}

} // verus!
