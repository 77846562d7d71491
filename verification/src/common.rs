//! An earlier generation of the typing-test parameter and preference types,
//! still served by some endpoints: languages are free-form strings and the
//! quote mode carries an explicit length window.

use vstd::prelude::*;

verus! {

/// Parameters of a freshly generated typing test.
#[derive(Debug)]
pub enum RandomTestParams {
    Words { language: String, length: u32 },
    Time { language: String, duration: u32 },
    Quote,
}

/// Parameters of a reproducible typing test.
#[derive(Debug)]
pub enum SeededTestParams {
    Words { language: String, length: u32, seed: i32 },
    Time { language: String, duration: u32, seed: i32 },
    Quote { id: u32 },
}

/// What a seeded test looks like once its seed is forgotten.
pub open spec fn spec_unseeded(s: SeededTestParams) -> RandomTestParams {
    match s {
        SeededTestParams::Words { language, length, seed: _ } => RandomTestParams::Words {
            language,
            length,
        },
        SeededTestParams::Time { language, duration, seed: _ } => RandomTestParams::Time {
            language,
            duration,
        },
        SeededTestParams::Quote { id: _ } => RandomTestParams::Quote,
    }
}

impl From<SeededTestParams> for RandomTestParams {
    fn from(seeded_test_params: SeededTestParams) -> (r: RandomTestParams) {
        match seeded_test_params {
            SeededTestParams::Words { language, length, seed: _ } => RandomTestParams::Words {
                language,
                length,
            },
            SeededTestParams::Time { language, duration, seed: _ } => RandomTestParams::Time {
                language,
                duration,
            },
            SeededTestParams::Quote { id: _ } => RandomTestParams::Quote,
        }
    }
}

impl vstd::std_specs::convert::FromSpecImpl<SeededTestParams> for RandomTestParams {
    open spec fn obeys_from_spec() -> bool {
        true
    }

    open spec fn from_spec(s: SeededTestParams) -> RandomTestParams {
        spec_unseeded(s)
    }
}

/// A user's stored preferences, in this generation of the schema.
#[derive(Debug)]
pub struct Preferences {
    pub current_mode: TypingTestMode,
    pub words_mode_language: String,
    pub words_mode_length: u32,
    pub time_mode_language: String,
    pub time_mode_duration: u32,
    pub quote_mode_length: QuoteModeLength,
    pub max_chars_in_line: u32,
    pub show_all_lines: bool,
}

/// The quote-length window the user accepts.
#[derive(Debug, Clone, Copy, PartialEq, Eq, Structural)]
pub struct QuoteModeLength {
    pub min_length: u32,
    pub max_length: Option<u32>,
}

/// The kind of typing test the user currently has selected.
#[derive(Debug, Clone, Copy, PartialEq, Eq, Structural)]
pub enum TypingTestMode {
    Words,
    Time,
    Quote,
}

impl Default for TypingTestMode {
    fn default() -> (r: TypingTestMode)
        ensures
            r == TypingTestMode::Words,
    {
        TypingTestMode::Words
    }
}

impl Default for QuoteModeLength {
    fn default() -> (r: QuoteModeLength)
        ensures
            r == (QuoteModeLength { min_length: 0, max_length: None }),
    {
        QuoteModeLength { min_length: 0, max_length: None }
    }
}

impl Default for Preferences {
    fn default() -> (r: Preferences)
        ensures
            r.current_mode == TypingTestMode::Words,
            r.words_mode_language@ == Seq::<char>::empty(),
            r.words_mode_length == 0,
            r.time_mode_language@ == Seq::<char>::empty(),
            r.time_mode_duration == 0,
            r.quote_mode_length == (QuoteModeLength { min_length: 0, max_length: None }),
            r.max_chars_in_line == 0,
            r.show_all_lines == false,
    {
        Preferences {
            current_mode: TypingTestMode::Words,
            words_mode_language: String::new(),
            words_mode_length: 0,
            time_mode_language: String::new(),
            time_mode_duration: 0,
            quote_mode_length: QuoteModeLength { min_length: 0, max_length: None },
            max_chars_in_line: 0,
            show_all_lines: false,
        }
    }
}

} // verus!
