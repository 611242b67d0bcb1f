// The last-write policy: the most recent text wins, and an account that
// never submitted reads as the sentinel "Hello".

use pnl_ledger::last_write::LastWriteLedger;

#[test]
fn default_is_hello() {
    let ledger = LastWriteLedger::new();
    assert_eq!("Hello", ledger.query("francis.near".to_string()));
}

#[test]
fn submit_then_query_returns_text() {
    let mut ledger = LastWriteLedger::new();
    ledger.submit("bob.near".to_string(), "howdy".to_string());
    assert_eq!("howdy", ledger.query("bob.near".to_string()));
}

#[test]
fn last_submission_wins() {
    let mut ledger = LastWriteLedger::new();
    ledger.submit("bob.near".to_string(), "howdy".to_string());
    ledger.submit("bob.near".to_string(), "there".to_string());
    assert_eq!("there", ledger.query("bob.near".to_string()));
}

#[test]
fn text_submission_isolated_from_other_accounts() {
    let mut ledger = LastWriteLedger::new();
    ledger.submit("bob.near".to_string(), "howdy".to_string());
    assert_eq!("Hello", ledger.query("francis.near".to_string()));
}
