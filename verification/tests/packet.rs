use clear_packets::error::ClearError;
use clear_packets::event::Attributes;
use clear_packets::height::Height;
use clear_packets::identifier::{ChannelId, PortId};
use clear_packets::packet::{parse_timeout_height, Packet};

const FIELDS: [(&str, &str); 8] = [
    ("packet_sequence", "42"),
    ("packet_src_port", "transfer"),
    ("packet_src_channel", "channel-0"),
    ("packet_dst_port", "icahost"),
    ("packet_dst_channel", "channel-17"),
    ("packet_data", "{\"amount\":\"1\u{20ac}\"}"),
    ("packet_timeout_height", "4-1000"),
    ("packet_timeout_timestamp", "1660000000000000000"),
];

/// The fields with one of them replaced, or left out.
fn read(key: &str, value: Option<&str>) -> Result<Packet, ClearError> {
    let mut attributes = Attributes::new();
    for (k, v) in FIELDS {
        if k != key {
            attributes.insert(k.to_owned(), v.to_owned());
        } else if let Some(value) = value {
            attributes.insert(k.to_owned(), value.to_owned());
        }
    }
    Packet::from_attributes(&attributes)
}

#[test]
fn packets_are_read_from_attributes() {
    assert_eq!(
        read("", None),
        Ok(Packet {
            sequence: 42,
            source_port: PortId::from_str("transfer").unwrap(),
            source_channel: ChannelId::from_str("channel-0").unwrap(),
            destination_port: PortId::from_str("icahost").unwrap(),
            destination_channel: ChannelId::from_str("channel-17").unwrap(),
            data: "{\"amount\":\"1\u{20ac}\"}".as_bytes().to_vec(),
            timeout_height: Height { revision_number: 4, revision_height: 1000 },
            timeout_timestamp: 1660000000000000000,
        })
    );
}

#[test]
fn every_attribute_is_required() {
    assert_eq!(read("packet_sequence", None), Err(ClearError::NoSequence));
    assert_eq!(read("packet_src_port", None), Err(ClearError::NoSourcePort));
    assert_eq!(read("packet_src_channel", None), Err(ClearError::NoSourceChannel));
    assert_eq!(read("packet_dst_port", None), Err(ClearError::NoDestinationPort));
    assert_eq!(read("packet_dst_channel", None), Err(ClearError::NoDestinationChannel));
    assert_eq!(read("packet_data", None), Err(ClearError::NoData));
    assert_eq!(read("packet_timeout_height", None), Err(ClearError::NoTimeoutHeight));
    assert_eq!(read("packet_timeout_timestamp", None), Err(ClearError::NoTimeoutTimestamp));
}

#[test]
fn malformed_attributes_are_errors() {
    let bad = Some("?");
    assert_eq!(read("packet_sequence", bad), Err(ClearError::InvalidSequence));
    assert_eq!(read("packet_src_port", bad), Err(ClearError::InvalidSourcePort));
    assert_eq!(read("packet_src_channel", bad), Err(ClearError::InvalidSourceChannel));
    assert_eq!(read("packet_dst_port", bad), Err(ClearError::InvalidDestinationPort));
    assert_eq!(read("packet_dst_channel", bad), Err(ClearError::InvalidDestinationChannel));
    assert_eq!(read("packet_timeout_height", bad), Err(ClearError::TimeoutHeightFields));
    assert_eq!(read("packet_timeout_timestamp", bad), Err(ClearError::InvalidTimeoutTimestamp));
}

#[test]
fn the_first_bad_attribute_is_reported() {
    assert_eq!(
        Packet::from_attributes(&Attributes::new()),
        Err(ClearError::NoSequence)
    );
}

#[test]
fn timeout_timestamps_are_nanoseconds() {
    let timestamp = |text| read("packet_timeout_timestamp", Some(text)).map(|p| p.timeout_timestamp);
    assert_eq!(timestamp("0"), Ok(0));
    assert_eq!(timestamp("+1"), Ok(1));
    assert_eq!(timestamp("999999999"), Ok(999999999));
    assert_eq!(timestamp("18446744073709551615"), Ok(u64::MAX));
    assert_eq!(timestamp("18446744073709551616"), Err(ClearError::InvalidTimeoutTimestamp));
}

#[test]
fn timeout_heights_are_two_numbers() {
    assert_eq!(
        parse_timeout_height("4-1000"),
        Ok(Height { revision_number: 4, revision_height: 1000 })
    );
    assert_eq!(parse_timeout_height("1000"), Err(ClearError::TimeoutHeightFields));
    assert_eq!(parse_timeout_height("1-2-3"), Err(ClearError::TimeoutHeightFields));
    assert_eq!(parse_timeout_height("-1000"), Err(ClearError::TimeoutRevisionNumber));
    assert_eq!(parse_timeout_height("x-y"), Err(ClearError::TimeoutRevisionNumber));
    assert_eq!(parse_timeout_height("4-"), Err(ClearError::TimeoutRevisionHeight));
    assert_eq!(parse_timeout_height("0-0"), Err(ClearError::ZeroTimeoutHeight));
    assert_eq!(parse_timeout_height("4-0"), Err(ClearError::ZeroTimeoutHeight));
}
