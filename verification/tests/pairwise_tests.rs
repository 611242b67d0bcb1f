// The pairwise-average policy: a submission is averaged with a strictly
// positive existing record, truncating toward zero; anything else is
// overwritten.

use pnl_ledger::pairwise_average::PairwiseAverageLedger;

#[test]
fn default_is_zero() {
    let ledger = PairwiseAverageLedger::new();
    assert_eq!(0, ledger.query("francis.near".to_string()));
}

#[test]
fn first_submission_stored() {
    let mut ledger = PairwiseAverageLedger::new();
    ledger.submit("bob.near".to_string(), 20);
    assert_eq!(20, ledger.query("bob.near".to_string()));
}

#[test]
fn second_submission_averages() {
    let mut ledger = PairwiseAverageLedger::new();
    ledger.submit("bob.near".to_string(), 20);
    ledger.submit("bob.near".to_string(), 10);
    assert_eq!(15, ledger.query("bob.near".to_string()));
}

#[test]
fn average_truncates_toward_zero() {
    let mut ledger = PairwiseAverageLedger::new();
    ledger.submit("bob.near".to_string(), 20);
    ledger.submit("bob.near".to_string(), 11);
    // (20 + 11) / 2 truncates from 15.5 down to 15, not up to 16.
    assert_eq!(15, ledger.query("bob.near".to_string()));
}

#[test]
fn negative_average_truncates_toward_zero() {
    let mut ledger = PairwiseAverageLedger::new();
    ledger.submit("bob.near".to_string(), 1);
    ledger.submit("bob.near".to_string(), -4);
    // (1 + -4) / 2 truncates from -1.5 toward zero to -1, not down to -2.
    assert_eq!(-1, ledger.query("bob.near".to_string()));
}

#[test]
fn negative_record_is_overwritten() {
    // The documented anomaly: a stored value of zero or below is treated as
    // absent, so the next submission overwrites instead of averaging.
    let mut ledger = PairwiseAverageLedger::new();
    ledger.submit("bob.near".to_string(), -5);
    ledger.submit("bob.near".to_string(), 10);
    assert_eq!(10, ledger.query("bob.near".to_string()));
}

#[test]
fn zero_record_is_overwritten() {
    let mut ledger = PairwiseAverageLedger::new();
    ledger.submit("bob.near".to_string(), 0);
    ledger.submit("bob.near".to_string(), 7);
    assert_eq!(7, ledger.query("bob.near".to_string()));
}

#[test]
fn extreme_values_average_without_overflow() {
    let mut ledger = PairwiseAverageLedger::new();
    ledger.submit("bob.near".to_string(), i32::MAX);
    ledger.submit("bob.near".to_string(), i32::MAX);
    assert_eq!(i32::MAX, ledger.query("bob.near".to_string()));
    let mut other = PairwiseAverageLedger::new();
    other.submit("carol.near".to_string(), 1);
    other.submit("carol.near".to_string(), i32::MIN);
    assert_eq!(-1073741823, other.query("carol.near".to_string()));
}

#[test]
fn integer_submission_isolated_from_other_accounts() {
    let mut ledger = PairwiseAverageLedger::new();
    ledger.submit("bob.near".to_string(), 20);
    assert_eq!(0, ledger.query("francis.near".to_string()));
    ledger.submit("francis.near".to_string(), 8);
    assert_eq!(20, ledger.query("bob.near".to_string()));
    assert_eq!(8, ledger.query("francis.near".to_string()));
}
