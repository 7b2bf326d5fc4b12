use auto_prompt::remaining::detect_remaining_work;
use auto_prompt::remaining_work::{DIM, feature_buckets, fnv1a, indicates_remaining_work};

#[test]
fn abstains_on_input_it_has_no_evidence_for() {
    for nearer in [false, true] {
        assert_eq!(indicates_remaining_work("", nearer), None);
        assert_eq!(indicates_remaining_work("   \n  ", nearer), None);
        assert_eq!(indicates_remaining_work("!!! ??? ...", nearer), None);
        assert_eq!(
            indicates_remaining_work(
                "Done — the endpoint now returns the correct status code and \
                 the regression test covers it.",
                nearer
            ),
            None
        );
    }
}

#[test]
fn short_messages_abstain_rather_than_guess() {
    for nearer in [false, true] {
        assert_eq!(indicates_remaining_work("All done.", nearer), None);
        assert_eq!(
            indicates_remaining_work("Tests pass. Nothing left.", nearer),
            None
        );
    }
}

#[test]
fn a_message_of_enough_words_gets_a_verdict() {
    let message = "word ".repeat(24);
    assert_eq!(indicates_remaining_work(&message, true), Some(true));
    assert_eq!(indicates_remaining_work(&message, false), Some(false));
    assert_eq!(indicates_remaining_work(&"word ".repeat(23), true), None);
}

#[test]
fn fnv1a_matches_reference_vectors() {
    assert_eq!(fnv1a(b""), 0xcbf2_9ce4_8422_2325);
    assert_eq!(fnv1a(b"a"), 0xaf63_dc4c_8601_ec8c);
    assert_eq!(fnv1a(b"foobar"), 0x85944171f73967e8);
}

#[test]
fn features_are_words_and_pairs_in_lowercase() {
    let bucket = |gram: &str| (fnv1a(gram.as_bytes()) % DIM as u64) as usize;
    assert_eq!(
        feature_buckets("Tests FAILED: 2×red"),
        vec![
            bucket("tests"),
            bucket("failed"),
            bucket("2"),
            bucket("red"),
            bucket("tests_failed"),
            bucket("failed_2"),
            bucket("2_red"),
        ]
    );
    assert_eq!(feature_buckets("one"), vec![bucket("one")]);
    assert!(feature_buckets("…").is_empty());
}

#[test]
fn deterministic_across_calls() {
    let msg = "The API endpoints for the product catalog are functional, though the \
         integration with the Redis cache layer is incomplete. I managed to update \
         routes/products.py, but the caching decorator is currently missing from the \
         get_product function. The latency benefits won't be visible until that logic \
         is applied.";
    for nearer_to_remaining in [true, false] {
        let first = indicates_remaining_work(msg, nearer_to_remaining);
        assert!(first.is_some(), "fixture must be in-distribution");
        for _ in 0..50 {
            assert_eq!(indicates_remaining_work(msg, nearer_to_remaining), first);
        }
    }
    let first = feature_buckets(msg);
    for _ in 0..50 {
        assert_eq!(feature_buckets(msg), first);
    }
}

// The comparison of the centroids is floating point and is made by the caller:
// here its result is handed in, so this shows that the keyword search misses
// these messages and that they are long enough for a verdict.
#[test]
fn catches_unfinished_work_without_trigger_keywords() {
    for msg in [
        "I successfully implemented the user schema in models/user.py, but the \
         migration script failed to run against the local database. The \
         migrations/001_init.py file contains the logic, but the actual table \
         creation was interrupted by a connection timeout. I will need to verify \
         the schema once the database is reachable.",
        "The API endpoints for the product catalog are functional, though the \
         integration with the Redis cache layer is incomplete. I managed to update \
         routes/products.py, but the caching decorator is currently missing from \
         the get_product function. The latency benefits won't be visible until \
         that logic is applied.",
    ] {
        assert_eq!(detect_remaining_work(Some(msg)), None);
        assert_eq!(
            indicates_remaining_work(msg, true),
            Some(true),
            "should detect unfinished work in: {msg}"
        );
    }
}

// As above: the result of the comparison is handed in, so this shows that these
// messages are long enough for a verdict.
#[test]
fn accepts_plain_completion_reports() {
    for msg in [
        "I have implemented the new authentication middleware and verified it \
         against the existing user session logic. All unit tests in \
         tests/auth_test.py are passing, and the API documentation in \
         docs/auth.md has been updated. No further changes are required.",
        "The refactoring of the DatabaseConnector class is complete, including \
         the implementation of the new connection pooling logic. I have updated \
         all dependent services in src/services/ to ensure compatibility. All \
         integration tests passed successfully.",
    ] {
        assert_eq!(
            indicates_remaining_work(msg, false),
            Some(false),
            "should read as complete: {msg}"
        );
    }
}
