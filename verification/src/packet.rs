//! The packet that an event says was sent.

use std::str::FromStr;

use vstd::prelude::*;
use vstd::utf8::encode_utf8;

use crate::error::{error_words, ClearError};
use crate::event::{lookup, Attributes, PACKET_SEQUENCE, PACKET_SRC_CHANNEL, PACKET_SRC_PORT};
use crate::height::{height_of, Height};
use crate::identifier::{
    parsed_channel_id, parsed_port_id, valid_channel_id, valid_port_id, ChannelId, PortId,
};
use crate::text::{
    decimal_digits, decimal_u64, join_dash, law_decimal_exact, law_decimal_read_back,
    law_decimal_without_dash, law_join_then_split, law_number_without_dash, law_split_then_join,
    parse_decimal, parse_u64, split_at_dashes, split_dash, writes_number, DASH,
};

verus! {

/// The attribute that holds the port a packet was sent to.
pub const PACKET_DST_PORT: &'static str = "packet_dst_port";

/// The attribute that holds the channel a packet was sent to.
pub const PACKET_DST_CHANNEL: &'static str = "packet_dst_channel";

/// The attribute that holds the data of a packet.
pub const PACKET_DATA: &'static str = "packet_data";

/// The attribute that holds the height at which a packet times out.
pub const PACKET_TIMEOUT_HEIGHT: &'static str = "packet_timeout_height";

/// The attribute that holds the time at which a packet times out.
pub const PACKET_TIMEOUT_TIMESTAMP: &'static str = "packet_timeout_timestamp";

/// A packet in flight.
#[derive(Debug, PartialEq, Eq)]
pub struct Packet {
    pub sequence: u64,
    pub source_port: PortId,
    pub source_channel: ChannelId,
    pub destination_port: PortId,
    pub destination_channel: ChannelId,
    pub data: Vec<u8>,
    pub timeout_height: Height,
    /// Nanoseconds since the Unix epoch; zero where the packet sets no time.
    pub timeout_timestamp: u64,
}

/// What a packet says.
pub struct PacketView {
    pub sequence: u64,
    pub source_port: Seq<char>,
    pub source_channel: Seq<char>,
    pub destination_port: Seq<char>,
    pub destination_channel: Seq<char>,
    pub data: Seq<u8>,
    pub timeout_height: Height,
    pub timeout_timestamp: u64,
}

impl View for Packet {
    type V = PacketView;

    open spec fn view(&self) -> PacketView {
        PacketView {
            sequence: self.sequence,
            source_port: self.source_port@,
            source_channel: self.source_channel@,
            destination_port: self.destination_port@,
            destination_channel: self.destination_channel@,
            data: self.data@,
            timeout_height: self.timeout_height,
            timeout_timestamp: self.timeout_timestamp,
        }
    }
}

/// Calls `Timestamp::from_str` of the `ibc` crate, and `Timestamp::nanoseconds`
/// on the result: a timestamp is written as a decimal number of nanoseconds,
/// where zero stands for none.
#[verifier::external_body]
fn timestamp_from_str(s: &str) -> (nanoseconds: Option<u64>)
    ensures
        nanoseconds == decimal_u64(s@),
{
    ibc::timestamp::Timestamp::from_str(s).ok().map(|t| t.nanoseconds())
}

/// The height that two decimal fields with a dash between them write.
pub open spec fn timeout_height_of(text: Seq<char>) -> Result<Height, ClearError> {
    let fields = split_dash(text);
    if fields.len() != 2 {
        Err(ClearError::TimeoutHeightFields)
    } else {
        match (decimal_u64(fields[0]), decimal_u64(fields[1])) {
            (None, _) => Err(ClearError::TimeoutRevisionNumber),
            (_, None) => Err(ClearError::TimeoutRevisionHeight),
            (Some(number), Some(height)) => match height_of(number, height) {
                None => Err(ClearError::ZeroTimeoutHeight),
                Some(h) => Ok(h),
            },
        }
    }
}

/// Reads the height at which a packet times out.
pub fn parse_timeout_height(text: &str) -> (height: Result<Height, ClearError>)
    ensures
        height == timeout_height_of(text@),
{
    let fields = split_at_dashes(text);
    if fields.len() != 2 {
        return Err(ClearError::TimeoutHeightFields);
    }
    assert(fields.deep_view()[0] =~= fields@[0]@);
    assert(fields.deep_view()[1] =~= fields@[1]@);
    let number = match parse_decimal(&fields[0]) {
        None => return Err(ClearError::TimeoutRevisionNumber),
        Some(number) => number,
    };
    let height = match parse_decimal(&fields[1]) {
        None => return Err(ClearError::TimeoutRevisionHeight),
        Some(height) => height,
    };
    match Height::new(number, height) {
        None => Err(ClearError::ZeroTimeoutHeight),
        Some(h) => Ok(h),
    }
}

/// A height written as its two numbers with a dash between them is read back.
pub proof fn law_timeout_height_read_back(height: Height)
    requires
        height.valid(),
    ensures
        timeout_height_of(
            decimal_digits(height.revision_number as nat) + seq![DASH] + decimal_digits(
                height.revision_height as nat,
            ),
        ) == Ok::<_, ClearError>(height),
{
    let number = decimal_digits(height.revision_number as nat);
    let within = decimal_digits(height.revision_height as nat);
    let fields = seq![number, within];
    law_decimal_without_dash(height.revision_number);
    law_decimal_without_dash(height.revision_height);
    law_decimal_read_back(height.revision_number);
    law_decimal_read_back(height.revision_height);
    assert(fields.skip(1) =~= seq![within]);
    assert(join_dash(seq![within]) == within);
    assert(join_dash(fields) == number + seq![DASH] + within);
    law_join_then_split(fields);
}

/// A text is read as a timeout height if and only if it is the two numbers of the
/// height with a dash between them, and the second one is not zero.
pub proof fn law_timeout_height_exact(text: Seq<char>, height: Height)
    ensures
        timeout_height_of(text) == Ok::<_, ClearError>(height) <==> writes_height(text, height),
{
    if timeout_height_of(text) == Ok::<_, ClearError>(height) {
        let fields = split_dash(text);
        law_split_then_join(text);
        assert(fields.skip(1) =~= seq![fields[1]]);
        assert(join_dash(fields.skip(1)) == fields[1]);
        assert(text == fields[0] + seq![DASH] + fields[1]);
        law_decimal_exact(fields[0], height.revision_number);
        law_decimal_exact(fields[1], height.revision_height);
        assert(is_pair(text, fields[0], fields[1]));
    }
    if writes_height(text, height) {
        let (a, b): (Seq<char>, Seq<char>) = choose|a: Seq<char>, b: Seq<char>|
            {
                &&& #[trigger] is_pair(text, a, b)
                &&& writes_number(a, height.revision_number as nat)
                &&& writes_number(b, height.revision_height as nat)
            };
        law_decimal_exact(a, height.revision_number);
        law_decimal_exact(b, height.revision_height);
        law_number_without_dash(a);
        law_number_without_dash(b);
        lemma_pair(a, b);
    }
}

/// Two fields without dashes are split again.
proof fn lemma_pair(a: Seq<char>, b: Seq<char>)
    requires
        !a.contains(DASH),
        !b.contains(DASH),
    ensures
        split_dash(a + seq![DASH] + b) == seq![a, b],
{
    let fields = seq![a, b];
    assert(fields.skip(1) =~= seq![b]);
    assert(join_dash(seq![b]) == b);
    assert(join_dash(fields) == a + seq![DASH] + b);
    law_join_then_split(fields);
}

/// `text` is `a` and `b` with a dash between them.
pub open spec fn is_pair(text: Seq<char>, a: Seq<char>, b: Seq<char>) -> bool {
    text == a + seq![DASH] + b
}

/// `text` is the two numbers of a height past zero with a dash between them.
pub open spec fn writes_height(text: Seq<char>, height: Height) -> bool {
    &&& height.revision_height > 0
    &&& exists|a: Seq<char>, b: Seq<char>|
        {
            &&& #[trigger] is_pair(text, a, b)
            &&& writes_number(a, height.revision_number as nat)
            &&& writes_number(b, height.revision_height as nat)
        }
}

/// Why a text is no timeout height: it is not two fields with a dash between them,
/// the first of them is no number, the second is none, or the second is zero; the
/// first of these reasons counts.
pub proof fn law_timeout_height_error(text: Seq<char>, a: Seq<char>, b: Seq<char>)
    ensures
        timeout_height_of(text) == Err::<Height, _>(ClearError::TimeoutHeightFields) <==> !exists|
            c: Seq<char>,
            d: Seq<char>,
        |
            #[trigger] is_pair(text, c, d) && !c.contains(DASH) && !d.contains(DASH),
        is_pair(text, a, b) && !a.contains(DASH) && !b.contains(DASH) ==> {
            &&& decimal_u64(a) is None ==> timeout_height_of(text) == Err::<Height, _>(
                ClearError::TimeoutRevisionNumber,
            )
            &&& decimal_u64(a) is Some && decimal_u64(b) is None ==> timeout_height_of(text)
                == Err::<Height, _>(ClearError::TimeoutRevisionHeight)
            &&& decimal_u64(a) is Some && decimal_u64(b) == Some(0u64) ==> timeout_height_of(text)
                == Err::<Height, _>(ClearError::ZeroTimeoutHeight)
        },
{
    assert forall|c: Seq<char>, d: Seq<char>| #[trigger]
        is_pair(text, c, d) && !c.contains(DASH) && !d.contains(DASH) implies split_dash(text)
        == seq![c, d] by {
        lemma_pair(c, d);
    }
    let fields = split_dash(text);
    law_split_then_join(text);
    if fields.len() == 2 {
        assert(fields.skip(1) =~= seq![fields[1]]);
        assert(join_dash(fields.skip(1)) == fields[1]);
        assert(is_pair(text, fields[0], fields[1]));
        assert(!fields[0].contains(DASH) && !fields[1].contains(DASH));
    }
}

/// The text of a required attribute.
pub open spec fn text_field(
    attributes: Map<Seq<char>, Seq<char>>,
    key: Seq<char>,
    missing: ClearError,
) -> Result<Seq<char>, ClearError> {
    match lookup(attributes, key) {
        None => Err(missing),
        Some(text) => Ok(text),
    }
}

/// The number in a required attribute.
pub open spec fn number_field(
    attributes: Map<Seq<char>, Seq<char>>,
    key: Seq<char>,
    missing: ClearError,
    invalid: ClearError,
) -> Result<u64, ClearError> {
    match lookup(attributes, key) {
        None => Err(missing),
        Some(text) => match decimal_u64(text) {
            None => Err(invalid),
            Some(number) => Ok(number),
        },
    }
}

/// The port in a required attribute.
pub open spec fn port_field(
    attributes: Map<Seq<char>, Seq<char>>,
    key: Seq<char>,
    missing: ClearError,
    invalid: ClearError,
) -> Result<Seq<char>, ClearError> {
    match lookup(attributes, key) {
        None => Err(missing),
        Some(text) => match parsed_port_id(text) {
            None => Err(invalid),
            Some(id) => Ok(id),
        },
    }
}

/// The channel in a required attribute.
pub open spec fn channel_field(
    attributes: Map<Seq<char>, Seq<char>>,
    key: Seq<char>,
    missing: ClearError,
    invalid: ClearError,
) -> Result<Seq<char>, ClearError> {
    match lookup(attributes, key) {
        None => Err(missing),
        Some(text) => match parsed_channel_id(text) {
            None => Err(invalid),
            Some(id) => Ok(id),
        },
    }
}

/// The height in the timeout attribute.
pub open spec fn timeout_height_field(attributes: Map<Seq<char>, Seq<char>>) -> Result<
    Height,
    ClearError,
> {
    match lookup(attributes, PACKET_TIMEOUT_HEIGHT@) {
        None => Err(ClearError::NoTimeoutHeight),
        Some(text) => timeout_height_of(text),
    }
}

/// The packet that the attributes of an event describe, or what is wrong with
/// the first attribute that is missing or malformed. The attributes are taken in
/// the order sequence, source port and channel, destination port and channel,
/// data, timeout height, timeout timestamp.
pub open spec fn packet_of(attributes: Map<Seq<char>, Seq<char>>) -> Result<
    PacketView,
    ClearError,
> {
    let sequence = number_field(
        attributes,
        PACKET_SEQUENCE@,
        ClearError::NoSequence,
        ClearError::InvalidSequence,
    );
    let source_port = port_field(
        attributes,
        PACKET_SRC_PORT@,
        ClearError::NoSourcePort,
        ClearError::InvalidSourcePort,
    );
    let source_channel = channel_field(
        attributes,
        PACKET_SRC_CHANNEL@,
        ClearError::NoSourceChannel,
        ClearError::InvalidSourceChannel,
    );
    let destination_port = port_field(
        attributes,
        PACKET_DST_PORT@,
        ClearError::NoDestinationPort,
        ClearError::InvalidDestinationPort,
    );
    let destination_channel = channel_field(
        attributes,
        PACKET_DST_CHANNEL@,
        ClearError::NoDestinationChannel,
        ClearError::InvalidDestinationChannel,
    );
    let data = text_field(attributes, PACKET_DATA@, ClearError::NoData);
    let timeout_height = timeout_height_field(attributes);
    let timeout_timestamp = number_field(
        attributes,
        PACKET_TIMEOUT_TIMESTAMP@,
        ClearError::NoTimeoutTimestamp,
        ClearError::InvalidTimeoutTimestamp,
    );
    if sequence is Err {
        Err(sequence->Err_0)
    } else if source_port is Err {
        Err(source_port->Err_0)
    } else if source_channel is Err {
        Err(source_channel->Err_0)
    } else if destination_port is Err {
        Err(destination_port->Err_0)
    } else if destination_channel is Err {
        Err(destination_channel->Err_0)
    } else if data is Err {
        Err(data->Err_0)
    } else if timeout_height is Err {
        Err(timeout_height->Err_0)
    } else if timeout_timestamp is Err {
        Err(timeout_timestamp->Err_0)
    } else {
        Ok(
            PacketView {
                sequence: sequence->Ok_0,
                source_port: source_port->Ok_0,
                source_channel: source_channel->Ok_0,
                destination_port: destination_port->Ok_0,
                destination_channel: destination_channel->Ok_0,
                data: encode_utf8(data->Ok_0),
                timeout_height: timeout_height->Ok_0,
                timeout_timestamp: timeout_timestamp->Ok_0,
            },
        )
    }
}

/// The attributes write a packet: its numbers in decimal, its timeout height as
/// two numbers with a dash between them, and the rest as it is.
pub open spec fn writes_packet(
    attributes: Map<Seq<char>, Seq<char>>,
    packet: PacketView,
    data: Seq<char>,
) -> bool {
    &&& lookup(attributes, PACKET_SEQUENCE@) == Some(decimal_digits(packet.sequence as nat))
    &&& lookup(attributes, PACKET_SRC_PORT@) == Some(packet.source_port)
    &&& lookup(attributes, PACKET_SRC_CHANNEL@) == Some(packet.source_channel)
    &&& lookup(attributes, PACKET_DST_PORT@) == Some(packet.destination_port)
    &&& lookup(attributes, PACKET_DST_CHANNEL@) == Some(packet.destination_channel)
    &&& lookup(attributes, PACKET_DATA@) == Some(data)
    &&& packet.data == encode_utf8(data)
    &&& lookup(attributes, PACKET_TIMEOUT_HEIGHT@) == Some(
        decimal_digits(packet.timeout_height.revision_number as nat) + seq![DASH]
            + decimal_digits(packet.timeout_height.revision_height as nat),
    )
    &&& lookup(attributes, PACKET_TIMEOUT_TIMESTAMP@) == Some(
        decimal_digits(packet.timeout_timestamp as nat),
    )
}

/// A packet with well-formed identifiers and a timeout height that was written
/// into attributes is read back from them.
pub proof fn law_packet_read_back(
    attributes: Map<Seq<char>, Seq<char>>,
    packet: PacketView,
    data: Seq<char>,
)
    requires
        writes_packet(attributes, packet, data),
        valid_port_id(packet.source_port),
        valid_channel_id(packet.source_channel),
        valid_port_id(packet.destination_port),
        valid_channel_id(packet.destination_channel),
        packet.timeout_height.valid(),
    ensures
        packet_of(attributes) == Ok::<_, ClearError>(packet),
{
    law_decimal_read_back(packet.sequence);
    law_decimal_read_back(packet.timeout_timestamp);
    law_timeout_height_read_back(packet.timeout_height);
}

/// The attributes describe the packet, field by field: each number is written in its
/// attribute, each identifier is what its attribute is read as, the data are the bytes
/// of their attribute, and the timeout height is written as two numbers with a dash
/// between them, the second one past zero.
pub open spec fn describes_packet(
    attributes: Map<Seq<char>, Seq<char>>,
    packet: PacketView,
) -> bool {
    &&& lookup(attributes, "packet_sequence"@) matches Some(text) && writes_number(
        text,
        packet.sequence as nat,
    )
    &&& lookup(attributes, "packet_src_port"@) matches Some(text) && parsed_port_id(text) == Some(
        packet.source_port,
    )
    &&& lookup(attributes, "packet_src_channel"@) matches Some(text) && parsed_channel_id(text)
        == Some(packet.source_channel)
    &&& lookup(attributes, "packet_dst_port"@) matches Some(text) && parsed_port_id(text) == Some(
        packet.destination_port,
    )
    &&& lookup(attributes, "packet_dst_channel"@) matches Some(text) && parsed_channel_id(text)
        == Some(packet.destination_channel)
    &&& lookup(attributes, "packet_data"@) matches Some(text) && encode_utf8(text) == packet.data
    &&& lookup(attributes, "packet_timeout_height"@) matches Some(text) && writes_height(
        text,
        packet.timeout_height,
    )
    &&& lookup(attributes, "packet_timeout_timestamp"@) matches Some(text) && writes_number(
        text,
        packet.timeout_timestamp as nat,
    )
}

/// A packet is read from attributes if and only if they describe it.
pub proof fn law_packet_described(attributes: Map<Seq<char>, Seq<char>>, packet: PacketView)
    ensures
        packet_of(attributes) == Ok::<_, ClearError>(packet) <==> describes_packet(
            attributes,
            packet,
        ),
{
    if let Some(text) = lookup(attributes, PACKET_SEQUENCE@) {
        law_decimal_exact(text, packet.sequence);
    }
    if let Some(text) = lookup(attributes, PACKET_TIMEOUT_TIMESTAMP@) {
        law_decimal_exact(text, packet.timeout_timestamp);
    }
    if let Some(text) = lookup(attributes, PACKET_TIMEOUT_HEIGHT@) {
        law_timeout_height_exact(text, packet.timeout_height);
    }
}

/// The keys of a packet's attributes, in the order in which they are read.
pub open spec fn packet_keys() -> Seq<Seq<char>> {
    seq![
        "packet_sequence"@,
        "packet_src_port"@,
        "packet_src_channel"@,
        "packet_dst_port"@,
        "packet_dst_channel"@,
        "packet_data"@,
        "packet_timeout_height"@,
        "packet_timeout_timestamp"@,
    ]
}

/// Which of a packet's attributes is missing, if that is the error.
pub open spec fn missing_attribute(error: ClearError) -> Option<int> {
    match error {
        ClearError::NoSequence => Some(0),
        ClearError::NoSourcePort => Some(1),
        ClearError::NoSourceChannel => Some(2),
        ClearError::NoDestinationPort => Some(3),
        ClearError::NoDestinationChannel => Some(4),
        ClearError::NoData => Some(5),
        ClearError::NoTimeoutHeight => Some(6),
        ClearError::NoTimeoutTimestamp => Some(7),
        _ => None,
    }
}

/// Which of a packet's attributes is malformed, if that is the error.
pub open spec fn malformed_attribute(error: ClearError) -> Option<int> {
    match error {
        ClearError::InvalidSequence => Some(0),
        ClearError::InvalidSourcePort => Some(1),
        ClearError::InvalidSourceChannel => Some(2),
        ClearError::InvalidDestinationPort => Some(3),
        ClearError::InvalidDestinationChannel => Some(4),
        ClearError::TimeoutHeightFields => Some(6),
        ClearError::TimeoutRevisionNumber => Some(6),
        ClearError::TimeoutRevisionHeight => Some(6),
        ClearError::ZeroTimeoutHeight => Some(6),
        ClearError::InvalidTimeoutTimestamp => Some(7),
        _ => None,
    }
}

/// The error of attributes that describe no packet tells which attribute is missing,
/// or present and malformed. It is the first one at fault: those before it are there,
/// and the ones after it make no difference.
pub proof fn law_packet_error(
    attributes: Map<Seq<char>, Seq<char>>,
    others: Map<Seq<char>, Seq<char>>,
)
    ensures
        packet_of(attributes) matches Err(e) ==> {
            let i = if missing_attribute(e) is Some {
                missing_attribute(e)->0
            } else {
                malformed_attribute(e)->0
            };
            &&& missing_attribute(e) is Some || malformed_attribute(e) is Some
            &&& missing_attribute(e) is Some <==> lookup(attributes, packet_keys()[i]) is None
            &&& forall|j: int|
                0 <= j < i ==> lookup(attributes, #[trigger] packet_keys()[j]) is Some
            &&& (forall|j: int|
                0 <= j <= i ==> lookup(others, #[trigger] packet_keys()[j]) == lookup(
                    attributes,
                    packet_keys()[j],
                )) ==> packet_of(others) == packet_of(attributes)
        },
{
    let keys = packet_keys();
    assert(keys[0] == PACKET_SEQUENCE@ && keys[1] == PACKET_SRC_PORT@ && keys[2]
        == PACKET_SRC_CHANNEL@ && keys[3] == PACKET_DST_PORT@ && keys[4] == PACKET_DST_CHANNEL@
        && keys[5] == PACKET_DATA@ && keys[6] == PACKET_TIMEOUT_HEIGHT@ && keys[7]
        == PACKET_TIMEOUT_TIMESTAMP@);
    if let Some(text) = lookup(attributes, PACKET_TIMEOUT_HEIGHT@) {
        assert(timeout_height_of(text) matches Err(e) ==> malformed_attribute(e) == Some(6int));
    }
}

/// The words for a missing or malformed attribute name the attribute. (A timeout height
/// is malformed in several ways, which its words tell.)
pub proof fn law_words_name_attribute(error: ClearError)
    ensures
        missing_attribute(error) matches Some(i) ==> ("No "@ + packet_keys()[i]).is_prefix_of(
            error_words(error),
        ),
        malformed_attribute(error) matches Some(i) ==> (i != 6 ==> ("Invalid "@
            + packet_keys()[i]).is_prefix_of(error_words(error))),
{
    reveal_strlit("No ");
    reveal_strlit("Invalid ");
    reveal_strlit("packet_sequence");
    reveal_strlit("packet_src_port");
    reveal_strlit("packet_src_channel");
    reveal_strlit("packet_dst_port");
    reveal_strlit("packet_dst_channel");
    reveal_strlit("packet_data");
    reveal_strlit("packet_timeout_height");
    reveal_strlit("packet_timeout_timestamp");
    reveal_strlit("No packet_sequence attribute!");
    reveal_strlit("Invalid packet_sequence!");
    reveal_strlit("No packet_src_port!");
    reveal_strlit("Invalid packet_src_port!");
    reveal_strlit("No packet_src_channel!");
    reveal_strlit("Invalid packet_src_channel!");
    reveal_strlit("No packet_dst_port!");
    reveal_strlit("Invalid packet_dst_port!");
    reveal_strlit("No packet_dst_channel!");
    reveal_strlit("Invalid packet_dst_channel!");
    reveal_strlit("No packet_data!");
    reveal_strlit("No packet_timeout_height!");
    reveal_strlit("No packet_timeout_timestamp!");
    reveal_strlit("Invalid packet_timeout_timestamp!");
}

/// A packet that is read has a timeout height past zero.
pub proof fn law_packet_timeout_valid(attributes: Map<Seq<char>, Seq<char>>)
    ensures
        packet_of(attributes) matches Ok(packet) ==> packet.timeout_height.valid(),
{
}

/// The view of a result that holds text.
spec fn view_ok<T: View>(result: Result<T, ClearError>) -> Result<T::V, ClearError> {
    match result {
        Ok(value) => Ok(value@),
        Err(e) => Err(e),
    }
}

fn read_port(
    attributes: &Attributes,
    key: &str,
    missing: ClearError,
    invalid: ClearError,
) -> (port: Result<PortId, ClearError>)
    ensures
        view_ok(port) == port_field(attributes@, key@, missing, invalid),
{
    match attributes.get(key) {
        None => Err(missing),
        Some(text) => match PortId::from_str(text.as_str()) {
            None => Err(invalid),
            Some(id) => Ok(id),
        },
    }
}

fn read_channel(
    attributes: &Attributes,
    key: &str,
    missing: ClearError,
    invalid: ClearError,
) -> (channel: Result<ChannelId, ClearError>)
    ensures
        view_ok(channel) == channel_field(attributes@, key@, missing, invalid),
{
    match attributes.get(key) {
        None => Err(missing),
        Some(text) => match ChannelId::from_str(text.as_str()) {
            None => Err(invalid),
            Some(id) => Ok(id),
        },
    }
}

fn read_sequence(attributes: &Attributes) -> (sequence: Result<u64, ClearError>)
    ensures
        sequence == number_field(
            attributes@,
            PACKET_SEQUENCE@,
            ClearError::NoSequence,
            ClearError::InvalidSequence,
        ),
{
    match attributes.get(PACKET_SEQUENCE) {
        None => Err(ClearError::NoSequence),
        Some(text) => match parse_u64(text.as_str()) {
            None => Err(ClearError::InvalidSequence),
            Some(number) => Ok(number),
        },
    }
}

fn read_data(attributes: &Attributes) -> (data: Result<Vec<u8>, ClearError>)
    ensures
        match data {
            Ok(bytes) => exists|text: Seq<char>| #[trigger]
                encode_utf8(text) == bytes@ && lookup(attributes@, PACKET_DATA@) == Some(text),
            Err(e) => e == ClearError::NoData && lookup(attributes@, PACKET_DATA@) is None,
        },
{
    match attributes.get(PACKET_DATA) {
        None => Err(ClearError::NoData),
        Some(text) => Ok(vstd::slice::slice_to_vec(text.as_str().as_bytes())),
    }
}

fn read_timeout_height(attributes: &Attributes) -> (height: Result<Height, ClearError>)
    ensures
        height == timeout_height_field(attributes@),
{
    match attributes.get(PACKET_TIMEOUT_HEIGHT) {
        None => Err(ClearError::NoTimeoutHeight),
        Some(text) => parse_timeout_height(text.as_str()),
    }
}

fn read_timeout_timestamp(attributes: &Attributes) -> (timestamp: Result<u64, ClearError>)
    ensures
        timestamp == number_field(
            attributes@,
            PACKET_TIMEOUT_TIMESTAMP@,
            ClearError::NoTimeoutTimestamp,
            ClearError::InvalidTimeoutTimestamp,
        ),
{
    match attributes.get(PACKET_TIMEOUT_TIMESTAMP) {
        None => Err(ClearError::NoTimeoutTimestamp),
        Some(text) => match timestamp_from_str(text.as_str()) {
            None => Err(ClearError::InvalidTimeoutTimestamp),
            Some(nanoseconds) => Ok(nanoseconds),
        },
    }
}

impl Packet {
    /// Reads the packet that the attributes of an event describe.
    pub fn from_attributes(attributes: &Attributes) -> (packet: Result<Packet, ClearError>)
        ensures
            match packet {
                Ok(p) => packet_of(attributes@) == Ok::<_, ClearError>(p@),
                Err(e) => packet_of(attributes@) == Err::<PacketView, _>(e),
            },
    {
        let sequence = match read_sequence(attributes) {
            Ok(sequence) => sequence,
            Err(e) => return Err(e),
        };
        let source_port = match read_port(
            attributes,
            PACKET_SRC_PORT,
            ClearError::NoSourcePort,
            ClearError::InvalidSourcePort,
        ) {
            Ok(port) => port,
            Err(e) => return Err(e),
        };
        let source_channel = match read_channel(
            attributes,
            PACKET_SRC_CHANNEL,
            ClearError::NoSourceChannel,
            ClearError::InvalidSourceChannel,
        ) {
            Ok(channel) => channel,
            Err(e) => return Err(e),
        };
        let destination_port = match read_port(
            attributes,
            PACKET_DST_PORT,
            ClearError::NoDestinationPort,
            ClearError::InvalidDestinationPort,
        ) {
            Ok(port) => port,
            Err(e) => return Err(e),
        };
        let destination_channel = match read_channel(
            attributes,
            PACKET_DST_CHANNEL,
            ClearError::NoDestinationChannel,
            ClearError::InvalidDestinationChannel,
        ) {
            Ok(channel) => channel,
            Err(e) => return Err(e),
        };
        let data = match read_data(attributes) {
            Ok(data) => data,
            Err(e) => return Err(e),
        };
        let timeout_height = match read_timeout_height(attributes) {
            Ok(height) => height,
            Err(e) => return Err(e),
        };
        let timeout_timestamp = match read_timeout_timestamp(attributes) {
            Ok(timestamp) => timestamp,
            Err(e) => return Err(e),
        };
        Ok(
            Packet {
                sequence,
                source_port,
                source_channel,
                destination_port,
                destination_channel,
                data,
                timeout_height,
                timeout_timestamp,
            },
        )
    }
}

} // verus!
