use clear_packets::error::ClearError;
use clear_packets::height::{event_height, revision_number, Height};

#[test]
fn heights_past_zero() {
    assert_eq!(Height::new(3, 7), Some(Height { revision_number: 3, revision_height: 7 }));
    assert_eq!(Height::new(0, 1), Some(Height { revision_number: 0, revision_height: 1 }));
    assert_eq!(Height::new(3, 0), None);
}

#[test]
fn revision_numbers_end_chain_identifiers() {
    assert_eq!(revision_number("cosmoshub-4"), Some(4));
    assert_eq!(revision_number("test-net-12"), Some(12));
    assert_eq!(revision_number("chain--a-0"), Some(0));
    assert_eq!(revision_number("17"), Some(17));
    assert_eq!(revision_number("cosmoshub"), None);
    assert_eq!(revision_number("cosmoshub-"), None);
    assert_eq!(revision_number("cosmoshub-4x"), None);
    assert_eq!(revision_number(""), None);
}

#[test]
fn transactions_have_heights() {
    assert_eq!(
        event_height("cosmoshub-4", 12),
        Ok(Height { revision_number: 4, revision_height: 12 })
    );
    assert_eq!(
        event_height("cosmoshub-4", -1),
        Ok(Height { revision_number: 4, revision_height: u64::MAX })
    );
    assert_eq!(event_height("cosmoshub-4", 0), Err(ClearError::EventHeight));
    assert_eq!(event_height("cosmoshub", 0), Err(ClearError::RevisionNumber));
}
