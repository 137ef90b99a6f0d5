use clear_packets::identifier::{ChainId, ChannelId, PortId};

fn port(s: &str) -> Option<String> {
    PortId::from_str(s).map(|id| id.as_str().to_owned())
}

fn channel(s: &str) -> Option<String> {
    ChannelId::from_str(s).map(|id| id.as_str().to_owned())
}

#[test]
fn port_identifiers() {
    assert_eq!(port("transfer"), Some("transfer".to_owned()));
    assert_eq!(port("p."), Some("p.".to_owned()));
    assert_eq!(port("p"), None);
    assert_eq!(port(""), None);
    assert_eq!(port("a/b"), None);
    assert_eq!(port("a b"), None);
    assert_eq!(port("a@b"), None);
    assert_eq!(port(&"x".repeat(128)), Some("x".repeat(128)));
    assert_eq!(port(&"x".repeat(129)), None);
    assert_eq!(port("A._+-#[]<>9"), Some("A._+-#[]<>9".to_owned()));
}

#[test]
fn port_identifiers_outside_ascii() {
    assert_eq!(port("é"), Some("é".to_owned()));
    assert_eq!(port("é!"), None);
    assert_eq!(port(&"é".repeat(65)), None);
}

#[test]
fn channel_identifiers() {
    assert_eq!(channel("channel-07"), Some("channel-07".to_owned()));
    assert_eq!(channel("channel"), None);
    assert_eq!(channel("channel-"), Some("channel-".to_owned()));
    assert_eq!(channel("channel/0"), None);
    assert_eq!(channel(&"c".repeat(64)), Some("c".repeat(64)));
    assert_eq!(channel(&"c".repeat(65)), None);
}

#[test]
fn chain_identifiers_are_any_string() {
    assert_eq!(ChainId::from_string("").as_str(), "");
    assert!(ChainId::from_string("ibc-0").same_as(&ChainId::from_string("ibc-0")));
    assert!(!ChainId::from_string("ibc-0").same_as(&ChainId::from_string("ibc-1")));
}
