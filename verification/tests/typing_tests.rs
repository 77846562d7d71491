use typing_core::common;
use typing_core::preferences::QuoteModeLength;
use typing_core::typing_test::quote::{
    fresh_quote_ok, get_quote_by_id, random_quote_response, GetQuoteError, GetRandomQuoteError,
};
use typing_core::typing_test::{RandomTestParams, SeededTestParams};

#[test]
fn seeded_params_forget_their_seed() {
    let seeded = SeededTestParams::Words {
        language: "english".to_string(),
        length: 50,
        seed: [1, 2, 3, 4],
    };
    match RandomTestParams::from(seeded) {
        RandomTestParams::Words { language, length } => {
            assert_eq!(language, "english");
            assert_eq!(length, 50);
        },
        other => panic!("expected words params, got {:?}", other),
    }
    let seeded = SeededTestParams::Quote { length: QuoteModeLength::Short, id: 12 };
    assert!(matches!(
        RandomTestParams::from(seeded),
        RandomTestParams::Quote { length: QuoteModeLength::Short }
    ));
}

#[test]
fn older_seeded_params_forget_their_seed_too() {
    let seeded = common::SeededTestParams::Time {
        language: "english".to_string(),
        duration: 60,
        seed: 7,
    };
    match common::RandomTestParams::from(seeded) {
        common::RandomTestParams::Time { language, duration } => {
            assert_eq!(language, "english");
            assert_eq!(duration, 60);
        },
        other => panic!("expected time params, got {:?}", other),
    }
    assert!(matches!(
        common::RandomTestParams::from(common::SeededTestParams::Quote { id: 3 }),
        common::RandomTestParams::Quote
    ));
}

#[test]
fn quote_lookup_checks_the_id() {
    let quotes = vec!["one".to_string(), "two".to_string()];
    assert_eq!(get_quote_by_id(&quotes, 1).expect("present").quote, "two");
    assert!(matches!(
        get_quote_by_id(&quotes, 2),
        Err(GetQuoteError::InvalidQuoteId(2))
    ));
}

#[test]
fn random_quote_response_carries_the_id() {
    let quotes = vec!["one".to_string(), "two".to_string()];
    let resp = random_quote_response(&quotes, 0).expect("present");
    assert_eq!(resp.quote_id, 0);
    assert_eq!(resp.quote, "one");
    assert!(matches!(random_quote_response(&quotes, 9), Err(GetRandomQuoteError::Other)));
}

#[test]
fn fresh_quotes_avoid_the_previous_one() {
    assert!(fresh_quote_ok(3, &None));
    assert!(fresh_quote_ok(3, &Some(2)));
    assert!(!fresh_quote_ok(3, &Some(3)));
}
