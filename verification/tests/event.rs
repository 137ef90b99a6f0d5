use clear_packets::error::ClearError;
use clear_packets::event::{collect_attributes, find_send_packet, Attributes, Event, RawAttribute};
use clear_packets::identifier::{ChannelId, PortId};

fn raw(key: &[u8], value: &[u8]) -> RawAttribute {
    RawAttribute { key: key.to_vec(), value: value.to_vec() }
}

fn event(kind: &str, attributes: Vec<RawAttribute>) -> Event {
    Event { kind: kind.to_owned(), attributes }
}

fn sent(sequence: &str, tag: &str) -> Event {
    event(
        "send_packet",
        vec![raw(b"packet_sequence", sequence.as_bytes()), raw(b"tag", tag.as_bytes())],
    )
}

fn sent_on(port: &str, channel: &str, sequence: &str, tag: &str) -> Event {
    let mut event = sent(sequence, tag);
    event.attributes.push(raw(b"packet_src_port", port.as_bytes()));
    event.attributes.push(raw(b"packet_src_channel", channel.as_bytes()));
    event
}

fn find(events: &Vec<Event>, sequence: u64) -> Result<Option<Attributes>, ClearError> {
    let port = PortId::from_str("transfer").unwrap();
    let channel = ChannelId::from_str("channel-0").unwrap();
    find_send_packet(events, &port, &channel, sequence)
}

fn tag(events: Vec<Event>, sequence: u64) -> Option<String> {
    find(&events, sequence)
        .ok()
        .unwrap()
        .map(|a| a.get("tag").unwrap().clone())
}

#[test]
fn attributes_by_key() {
    let mut attributes = Attributes::new();
    assert_eq!(attributes.get("a"), None);
    attributes.insert("a".to_owned(), "1".to_owned());
    attributes.insert("b".to_owned(), "2".to_owned());
    attributes.insert("a".to_owned(), "3".to_owned());
    assert_eq!(attributes.get("a"), Some(&"3".to_owned()));
    assert_eq!(attributes.get("b"), Some(&"2".to_owned()));
    assert_eq!(attributes.get("c"), None);
}

#[test]
fn attributes_are_collected_from_bytes() {
    let found = collect_attributes(&vec![
        raw(b"key", "h\u{e9}llo \u{1f980}".as_bytes()),
        raw("cl\u{e9}".as_bytes(), b""),
    ])
    .ok()
    .unwrap();
    assert_eq!(found.get("key"), Some(&"h\u{e9}llo \u{1f980}".to_owned()));
    assert_eq!(found.get("cl\u{e9}"), Some(&"".to_owned()));
}

#[test]
fn attributes_must_be_text() {
    assert_eq!(
        collect_attributes(&vec![raw(b"ok", b"ok"), raw(&[0xff], &[0xff])]).err(),
        Some(ClearError::NonUtf8Key)
    );
    assert_eq!(
        collect_attributes(&vec![raw(b"ok", &[0xc3]), raw(&[0xff], b"")]).err(),
        Some(ClearError::NonUtf8Value)
    );
}

#[test]
fn the_last_attribute_with_a_key_counts() {
    let found = collect_attributes(&vec![raw(b"k", b"1"), raw(b"k", b"2")]).ok().unwrap();
    assert_eq!(found.get("k"), Some(&"2".to_owned()));
}

#[test]
fn the_event_of_the_packet_is_found() {
    let events = || vec![sent("1", "one"), event("message", vec![raw(&[0xff], b"")]), sent("2", "two")];
    assert_eq!(tag(events(), 1), Some("one".to_owned()));
    assert_eq!(tag(events(), 2), Some("two".to_owned()));
    assert_eq!(tag(events(), 3), None);
    assert_eq!(tag(vec![], 1), None);
}

#[test]
fn the_last_of_several_events_counts() {
    assert_eq!(tag(vec![sent("1", "a"), sent("1", "b")], 1), Some("b".to_owned()));
    assert_eq!(tag(vec![sent("1", "a"), sent("x", "b")], 1), Some("b".to_owned()));
}

#[test]
fn packets_of_other_channels_are_passed_over() {
    let own = || sent_on("transfer", "channel-0", "7", "own");
    assert_eq!(
        tag(vec![own(), sent_on("transfer", "channel-141", "7", "other")], 7),
        Some("own".to_owned())
    );
    assert_eq!(
        tag(vec![own(), sent_on("oracle", "channel-0", "7", "other")], 7),
        Some("own".to_owned())
    );
    assert_eq!(tag(vec![sent_on("transfer", "channel-141", "7", "other")], 7), None);
    // A malformed identifier names no other channel.
    assert_eq!(
        tag(vec![own(), sent_on("transfer", "no", "7", "bad channel")], 7),
        Some("bad channel".to_owned())
    );
    assert_eq!(
        tag(vec![own(), sent_on("a b", "channel-0", "7", "bad port")], 7),
        Some("bad port".to_owned())
    );
}

#[test]
fn unreadable_packet_events_are_an_error() {
    let bad = event("send_packet", vec![raw(b"packet_data", &[0xff])]);
    assert_eq!(
        find(&vec![bad, sent("1", "one")], 1).err(),
        Some(ClearError::NonUtf8Value)
    );
}
