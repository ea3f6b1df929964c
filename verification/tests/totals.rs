use splash::codec::DecodeError;
use splash::offer::ClassifyError;
use splash::summary::{ParseFailure, SummaryError};
use splash::totals::AssetTotals;

#[test]
fn totals_start_empty() {
    let totals = AssetTotals::new();
    assert_eq!(totals.len(), 0);
    assert_eq!(totals.get("xch"), None);
}

#[test]
fn totals_add_up_per_identifier() {
    let mut totals = AssetTotals::new();
    assert!(totals.add("xch".to_string(), 500));
    assert!(totals.add("token".to_string(), 250));
    assert!(totals.add("xch".to_string(), 1));
    assert!(totals.add("xch".to_string(), 0));
    assert_eq!(totals.len(), 2);
    assert_eq!(totals.get("xch"), Some(501));
    assert_eq!(totals.get("token"), Some(250));
    assert_eq!(totals.get("other"), None);
    assert_eq!(totals.entry(0).asset_id, "xch");
    assert_eq!(totals.entry(0).amount, 501);
    assert_eq!(totals.entry(1).asset_id, "token");
    assert_eq!(totals.entry(1).amount, 250);
}

#[test]
fn totals_refuse_a_sum_that_does_not_fit() {
    let mut totals = AssetTotals::new();
    assert!(totals.add("xch".to_string(), u64::MAX - 1));
    assert!(!totals.add("xch".to_string(), 2));
    assert_eq!(totals.get("xch"), Some(u64::MAX - 1));
    assert!(totals.add("xch".to_string(), 1));
    assert_eq!(totals.get("xch"), Some(u64::MAX));
    assert!(!totals.add("xch".to_string(), 1));
    assert!(totals.add("token".to_string(), u64::MAX));
    assert_eq!(totals.len(), 2);
}

#[test]
fn failures_say_their_reason() {
    assert_eq!(DecodeError::UnrecognizedFormat.message(), "unrecognized format");
    assert_eq!(DecodeError::MalformedEncoding.message(), "malformed encoding");
    assert_eq!(DecodeError::DecompressionFailure.message(), "decompression failure");
    assert_eq!(DecodeError::MalformedBundle.message(), "malformed bundle");
    assert_eq!(ClassifyError::UnreadableSolution.message(), "unreadable settlement solution");
    assert_eq!(ClassifyError::MalformedSolution.message(), "malformed settlement solution");
    assert_eq!(ClassifyError::UnreadablePuzzle.message(), "unreadable settlement puzzle");
    assert_eq!(SummaryError::UnreadablePuzzle.message(), "unreadable puzzle");
    assert_eq!(SummaryError::AmountOverflow.message(), "amount overflow");
    assert_eq!(
        ParseFailure::Decode(DecodeError::MalformedBundle).message(),
        "malformed bundle"
    );
    assert_eq!(
        ParseFailure::Classify(ClassifyError::MalformedSolution).message(),
        "malformed settlement solution"
    );
    assert_eq!(
        ParseFailure::Summary(SummaryError::AmountOverflow).message(),
        "amount overflow"
    );
}
