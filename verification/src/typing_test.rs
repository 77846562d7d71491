//! Parameter types for the typing-test endpoints and the shared seed type
//! that race starts carry to the clients.

use vstd::prelude::*;

use crate::preferences::QuoteModeLength;

pub mod quote;

verus! {

/// A multi-part random seed; every member of a race receives the same seed so
/// that all clients generate identical test content.
pub type Seed = [i32; 4];

/// Parameters of a freshly generated (unseeded) typing test.
#[derive(Debug)]
#[allow(inconsistent_fields)]
pub enum RandomTestParams {
    Words { language: String, length: u32 },
    Time { language: String, duration: u32 },
    Quote { length: QuoteModeLength },
}

/// Parameters of a reproducible typing test: the same data plus the seed (or
/// quote id) that pins the generated content down.
#[derive(Debug)]
#[allow(inconsistent_fields)]
pub enum SeededTestParams {
    Words { language: String, length: u32, seed: Seed },
    Time { language: String, duration: u32, seed: Seed },
    Quote { length: QuoteModeLength, id: usize },
}

/// What a seeded test looks like once its seed is forgotten.
pub open spec fn spec_unseeded(s: SeededTestParams) -> RandomTestParams {
    match s {
        SeededTestParams::Words { language, length, seed: _ } => RandomTestParams::Words {
            language,
            length,
        },
        SeededTestParams::Time { language, duration, seed: _ } => RandomTestParams::Time {
            language,
            duration,
        },
        SeededTestParams::Quote { length, id: _ } => RandomTestParams::Quote { length },
    }
}

impl From<SeededTestParams> for RandomTestParams {
    fn from(seeded_test_params: SeededTestParams) -> (r: RandomTestParams) {
        match seeded_test_params {
            SeededTestParams::Words { language, length, seed: _ } => RandomTestParams::Words {
                language,
                length,
            },
            SeededTestParams::Time { language, duration, seed: _ } => RandomTestParams::Time {
                language,
                duration,
            },
            SeededTestParams::Quote { length, id: _ } => RandomTestParams::Quote { length },
        }
    }
}

impl vstd::std_specs::convert::FromSpecImpl<SeededTestParams> for RandomTestParams {
    open spec fn obeys_from_spec() -> bool {
        true
    }

    open spec fn from_spec(s: SeededTestParams) -> RandomTestParams {
        spec_unseeded(s)
    }
}

} // verus!
