//! Events of a transaction, and the attributes of the one that sent a packet.

use vstd::prelude::*;
use vstd::utf8::{decode_utf8, decode_utf8_encode_utf8, encode_utf8, valid_utf8};

use crate::error::ClearError;
use crate::identifier::{parsed_channel_id, parsed_port_id, ChannelId, PortId};
use crate::text::{decimal_u64, parse_u64};

verus! {

/// The type of the event that a chain emits when it sends a packet.
pub const SEND_PACKET_EVENT_KEY: &'static str = "send_packet";

/// The attribute that holds a packet's sequence number.
pub const PACKET_SEQUENCE: &'static str = "packet_sequence";

/// The attribute that holds the port a packet was sent from.
pub const PACKET_SRC_PORT: &'static str = "packet_src_port";

/// The attribute that holds the channel a packet was sent from.
pub const PACKET_SRC_CHANNEL: &'static str = "packet_src_channel";

/// An attribute of an event as a chain returns it: two byte strings.
#[derive(Debug, PartialEq, Eq)]
pub struct RawAttribute {
    pub key: Vec<u8>,
    pub value: Vec<u8>,
}

/// An event as a chain returns it.
#[derive(Debug, PartialEq, Eq)]
pub struct Event {
    pub kind: String,
    pub attributes: Vec<RawAttribute>,
}

/// Calls `std::str::from_utf8`, which accepts the UTF-8 encodings of strings and
/// gives the string that was encoded.
#[verifier::external_body]
fn utf8_text(bytes: &Vec<u8>) -> (text: Option<String>)
    ensures
        text is Some <==> valid_utf8(bytes@),
        text matches Some(t) ==> t@ == decode_utf8(bytes@),
{
    std::str::from_utf8(bytes).ok().map(|s| s.to_string())
}

/// The attributes of one event, by key.
pub struct Attributes {
    entries: Vec<(String, String)>,
}

/// The map that a list of entries stands for: a later entry replaces an earlier
/// one with its key.
spec fn entries_map(entries: Seq<(String, String)>) -> Map<Seq<char>, Seq<char>>
    decreases entries.len(),
{
    if entries.len() == 0 {
        Map::empty()
    } else {
        entries_map(entries.drop_last()).insert(entries.last().0@, entries.last().1@)
    }
}

/// The value of a key, if the map has one.
pub open spec fn lookup(map: Map<Seq<char>, Seq<char>>, key: Seq<char>) -> Option<Seq<char>> {
    if map.contains_key(key) {
        Some(map[key])
    } else {
        None
    }
}

impl View for Attributes {
    type V = Map<Seq<char>, Seq<char>>;

    closed spec fn view(&self) -> Map<Seq<char>, Seq<char>> {
        entries_map(self.entries@)
    }
}

impl Attributes {
    pub fn new() -> (attributes: Attributes)
        ensures
            attributes@ == Map::<Seq<char>, Seq<char>>::empty(),
    {
        Attributes { entries: Vec::new() }
    }

    /// Sets the value of a key.
    pub fn insert(&mut self, key: String, value: String)
        ensures
            final(self)@ == old(self)@.insert(key@, value@),
    {
        self.entries.push((key, value));
        assert(self.entries@.drop_last() =~= old(self).entries@);
    }

    /// The value of a key.
    pub fn get(&self, key: &str) -> (value: Option<&String>)
        ensures
            value is Some <==> lookup(self@, key@) is Some,
            value matches Some(v) ==> lookup(self@, key@) == Some(v@),
    {
        let wanted = key.to_owned();
        let mut i: usize = self.entries.len();
        assert(self.entries@.take(i as int) =~= self.entries@);
        while i > 0
            invariant
                i <= self.entries@.len(),
                wanted@ == key@,
                lookup(self@, key@) == lookup(entries_map(self.entries@.take(i as int)), key@),
            decreases i,
        {
            i = i - 1;
            let ghost seen = self.entries@.take(i + 1);
            assert(seen.drop_last() =~= self.entries@.take(i as int));
            if self.entries[i].0 == wanted {
                return Some(&self.entries[i].1);
            }
        }
        None
    }
}

/// The attributes that a list of byte strings spells, or what keeps the first
/// bad one from being text. A key that comes twice has its last value.
pub open spec fn attributes_of(raw: Seq<RawAttribute>) -> Result<
    Map<Seq<char>, Seq<char>>,
    ClearError,
>
    decreases raw.len(),
{
    if raw.len() == 0 {
        Ok(Map::empty())
    } else {
        let last = raw.last();
        match attributes_of(raw.drop_last()) {
            Err(e) => Err(e),
            Ok(map) => if !valid_utf8(last.key@) {
                Err(ClearError::NonUtf8Key)
            } else if !valid_utf8(last.value@) {
                Err(ClearError::NonUtf8Value)
            } else {
                Ok(map.insert(decode_utf8(last.key@), decode_utf8(last.value@)))
            },
        }
    }
}

/// A bad attribute keeps the whole list from being read.
proof fn lemma_bad_attribute(raw: Seq<RawAttribute>, n: int)
    requires
        0 <= n <= raw.len(),
        attributes_of(raw.take(n)) is Err,
    ensures
        attributes_of(raw) == attributes_of(raw.take(n)),
    decreases raw.len() - n,
{
    if n == raw.len() {
        assert(raw.take(n) =~= raw);
    } else {
        assert(raw.take(n + 1).drop_last() =~= raw.take(n));
        lemma_bad_attribute(raw, n + 1);
    }
}

/// Reads the attributes of an event as text.
pub fn collect_attributes(raw: &Vec<RawAttribute>) -> (attributes: Result<Attributes, ClearError>)
    ensures
        match attributes {
            Ok(a) => attributes_of(raw@) == Ok::<_, ClearError>(a@),
            Err(e) => attributes_of(raw@) == Err::<Map<Seq<char>, Seq<char>>, _>(e),
        },
{
    let mut attributes = Attributes::new();
    let mut i: usize = 0;
    while i < raw.len()
        invariant
            i <= raw@.len(),
            attributes_of(raw@.take(i as int)) == Ok::<_, ClearError>(attributes@),
        decreases raw.len() - i,
    {
        proof {
            assert(raw@.take(i + 1).drop_last() =~= raw@.take(i as int));
            if attributes_of(raw@.take(i + 1)) is Err {
                lemma_bad_attribute(raw@, i + 1);
            }
        }
        let key = match utf8_text(&raw[i].key) {
            Some(key) => key,
            None => return Err(ClearError::NonUtf8Key),
        };
        let value = match utf8_text(&raw[i].value) {
            Some(value) => value,
            None => return Err(ClearError::NonUtf8Value),
        };
        attributes.insert(key, value);
        i = i + 1;
    }
    assert(raw@.take(i as int) =~= raw@);
    Ok(attributes)
}

/// The last attribute of a list whose key spells `key`.
pub open spec fn is_last_with_key(raw: Seq<RawAttribute>, key: Seq<char>, i: int) -> bool {
    &&& 0 <= i < raw.len()
    &&& decode_utf8(raw[i].key@) == key
    &&& forall|j: int| i < j < raw.len() ==> decode_utf8((#[trigger] raw[j]).key@) != key
}

/// A list of attributes can be read if and only if all its keys and values are
/// UTF-8.
pub proof fn law_attributes_readable(raw: Seq<RawAttribute>)
    ensures
        attributes_of(raw) is Ok <==> forall|i: int|
            0 <= i < raw.len() ==> valid_utf8((#[trigger] raw[i]).key@) && valid_utf8(
                raw[i].value@,
            ),
    decreases raw.len(),
{
    if raw.len() > 0 {
        let front = raw.drop_last();
        law_attributes_readable(front);
        if attributes_of(front) is Ok && valid_utf8(raw.last().key@) && valid_utf8(
            raw.last().value@,
        ) {
            assert forall|i: int| 0 <= i < raw.len() implies valid_utf8((#[trigger] raw[i]).key@)
                && valid_utf8(raw[i].value@) by {
                if i < front.len() {
                    assert(raw[i] == front[i]);
                }
            }
        } else if forall|i: int|
            0 <= i < raw.len() ==> valid_utf8((#[trigger] raw[i]).key@) && valid_utf8(
                raw[i].value@,
            ) {
            assert forall|i: int| 0 <= i < front.len() implies valid_utf8(
                (#[trigger] front[i]).key@,
            ) && valid_utf8(front[i].value@) by {
                assert(front[i] == raw[i]);
            }
            assert(raw[raw.len() - 1] == raw.last());
        }
    }
}

/// The value of a key is that of the last attribute with the key, byte for byte; a
/// key that no attribute has is absent.
pub proof fn law_last_attribute_wins(raw: Seq<RawAttribute>, key: Seq<char>)
    requires
        attributes_of(raw) is Ok,
    ensures
        match lookup(attributes_of(raw)->Ok_0, key) {
            Some(text) => exists|i: int|
                is_last_with_key(raw, key, i) && encode_utf8(text) == (#[trigger] raw[i]).value@,
            None => forall|i: int|
                0 <= i < raw.len() ==> decode_utf8((#[trigger] raw[i]).key@) != key,
        },
    decreases raw.len(),
{
    if raw.len() > 0 {
        let front = raw.drop_last();
        let last = raw.len() - 1;
        law_last_attribute_wins(front, key);
        if decode_utf8(raw[last].key@) == key {
            decode_utf8_encode_utf8(raw[last].value@);
            assert(is_last_with_key(raw, key, last));
        } else {
            match lookup(attributes_of(front)->Ok_0, key) {
                Some(text) => {
                    let i = choose|i: int|
                        is_last_with_key(front, key, i) && encode_utf8(text) == (
                        #[trigger] front[i]).value@;
                    assert(raw[i] == front[i]);
                    assert forall|j: int| i < j < raw.len() implies decode_utf8(
                        (#[trigger] raw[j]).key@,
                    ) != key by {
                        if j < last {
                            assert(raw[j] == front[j]);
                        }
                    }
                    assert(is_last_with_key(raw, key, i));
                },
                None => {
                    assert forall|i: int| 0 <= i < raw.len() implies decode_utf8(
                        (#[trigger] raw[i]).key@,
                    ) != key by {
                        if i < last {
                            assert(raw[i] == front[i]);
                        }
                    }
                },
            }
        }
    }
}

/// Of several attributes that are no text the first one counts, and of its key and
/// value the key.
pub proof fn law_attributes_error(raw: Seq<RawAttribute>, n: int)
    requires
        0 <= n < raw.len(),
        forall|i: int|
            0 <= i < n ==> valid_utf8((#[trigger] raw[i]).key@) && valid_utf8(raw[i].value@),
        !valid_utf8(raw[n].key@) || !valid_utf8(raw[n].value@),
    ensures
        attributes_of(raw) == Err::<Map<Seq<char>, Seq<char>>, _>(
            if valid_utf8(raw[n].key@) {
                ClearError::NonUtf8Value
            } else {
                ClearError::NonUtf8Key
            },
        ),
{
    let front = raw.take(n);
    assert forall|i: int| 0 <= i < front.len() implies valid_utf8((#[trigger] front[i]).key@)
        && valid_utf8(front[i].value@) by {
        assert(front[i] == raw[i]);
    }
    law_attributes_readable(front);
    assert(raw.take(n + 1).drop_last() =~= front);
    lemma_bad_attribute(raw, n + 1);
}

/// The attributes say that they belong to another packet: they hold a sequence
/// number, source port or source channel that is well-formed and is not the given
/// one.
pub open spec fn names_other_packet(
    attributes: Map<Seq<char>, Seq<char>>,
    port: Seq<char>,
    channel: Seq<char>,
    sequence: u64,
) -> bool {
    ||| {
        &&& lookup(attributes, PACKET_SEQUENCE@) matches Some(text)
        &&& decimal_u64(text) matches Some(number)
        &&& number != sequence
    }
    ||| {
        &&& lookup(attributes, PACKET_SRC_PORT@) matches Some(text)
        &&& parsed_port_id(text) matches Some(id)
        &&& id != port
    }
    ||| {
        &&& lookup(attributes, PACKET_SRC_CHANNEL@) matches Some(text)
        &&& parsed_channel_id(text) matches Some(id)
        &&& id != channel
    }
}

/// The attributes of the last event that sent a packet, passing over the events
/// that name another packet than the one with the given source port, source
/// channel and sequence number. No event that sent a packet may have an attribute
/// that is not text.
pub open spec fn send_packet_attributes(
    events: Seq<Event>,
    port: Seq<char>,
    channel: Seq<char>,
    sequence: u64,
) -> Result<Option<Map<Seq<char>, Seq<char>>>, ClearError>
    decreases events.len(),
{
    if events.len() == 0 {
        Ok(None)
    } else {
        let last = events.last();
        match send_packet_attributes(events.drop_last(), port, channel, sequence) {
            Err(e) => Err(e),
            Ok(found) => if last.kind@ != SEND_PACKET_EVENT_KEY@ {
                Ok(found)
            } else {
                match attributes_of(last.attributes@) {
                    Err(e) => Err(e),
                    Ok(attributes) => if names_other_packet(attributes, port, channel, sequence) {
                        Ok(found)
                    } else {
                        Ok(Some(attributes))
                    },
                }
            },
        }
    }
}

/// An event that cannot be read keeps the whole list from being read.
proof fn lemma_bad_event(
    events: Seq<Event>,
    port: Seq<char>,
    channel: Seq<char>,
    sequence: u64,
    n: int,
)
    requires
        0 <= n <= events.len(),
        send_packet_attributes(events.take(n), port, channel, sequence) is Err,
    ensures
        send_packet_attributes(events, port, channel, sequence) == send_packet_attributes(
            events.take(n),
            port,
            channel,
            sequence,
        ),
    decreases events.len() - n,
{
    if n == events.len() {
        assert(events.take(n) =~= events);
    } else {
        assert(events.take(n + 1).drop_last() =~= events.take(n));
        lemma_bad_event(events, port, channel, sequence, n + 1);
    }
}

/// The event sent a packet.
pub open spec fn sent_packet(event: Event) -> bool {
    event.kind@ == "send_packet"@
}

/// Events of other types make no difference.
pub proof fn law_other_events_ignored(
    events: Seq<Event>,
    port: Seq<char>,
    channel: Seq<char>,
    sequence: u64,
)
    ensures
        send_packet_attributes(events, port, channel, sequence) == send_packet_attributes(
            events.filter(|e: Event| sent_packet(e)),
            port,
            channel,
            sequence,
        ),
    decreases events.len(),
{
    reveal(Seq::filter);
    if events.len() > 0 {
        let front = events.drop_last();
        law_other_events_ignored(front, port, channel, sequence);
        let kept = front.filter(|e: Event| sent_packet(e));
        if sent_packet(events.last()) {
            assert(kept.push(events.last()).drop_last() =~= kept);
        }
    }
}

/// The event at `n` sent a packet and says `attributes`, and every later event that
/// sent a packet names another one.
pub open spec fn is_last_of_packet(
    events: Seq<Event>,
    port: Seq<char>,
    channel: Seq<char>,
    sequence: u64,
    n: int,
    attributes: Map<Seq<char>, Seq<char>>,
) -> bool {
    &&& 0 <= n < events.len()
    &&& sent_packet(events[n])
    &&& attributes_of(events[n].attributes@) == Ok::<_, ClearError>(attributes)
    &&& forall|i: int|
        n < i < events.len() && sent_packet(#[trigger] events[i]) ==> names_other_packet(
            attributes_of(events[i].attributes@)->Ok_0,
            port,
            channel,
            sequence,
        )
}

/// What is found names no other packet, and is what some event that sent a packet
/// says; all later events that sent a packet name other ones.
pub proof fn law_found_event(
    events: Seq<Event>,
    port: Seq<char>,
    channel: Seq<char>,
    sequence: u64,
)
    ensures
        send_packet_attributes(events, port, channel, sequence) matches Ok(Some(attributes)) ==> {
            &&& !names_other_packet(attributes, port, channel, sequence)
            &&& exists|n: int| #[trigger]
                is_last_of_packet(events, port, channel, sequence, n, attributes)
        },
    decreases events.len(),
{
    if events.len() > 0 {
        let front = events.drop_last();
        law_found_event(front, port, channel, sequence);
        if let Ok(Some(attributes)) = send_packet_attributes(events, port, channel, sequence) {
            let last = events.len() - 1;
            assert(events[last] == events.last());
            if sent_packet(events[last]) && !names_other_packet(
                attributes_of(events[last].attributes@)->Ok_0,
                port,
                channel,
                sequence,
            ) {
                assert(is_last_of_packet(events, port, channel, sequence, last, attributes));
            } else {
                let n = choose|n: int| #[trigger]
                    is_last_of_packet(front, port, channel, sequence, n, attributes);
                assert(events[n] == front[n]);
                assert forall|i: int|
                    n < i < events.len() && sent_packet(
                        #[trigger] events[i],
                    ) implies names_other_packet(
                    attributes_of(events[i].attributes@)->Ok_0,
                    port,
                    channel,
                    sequence,
                ) by {
                    if i < last {
                        assert(events[i] == front[i]);
                    }
                }
                assert(is_last_of_packet(events, port, channel, sequence, n, attributes));
            }
        }
    }
}

/// If every event that sent a packet can be read and says that it is another
/// packet, none is found.
pub proof fn law_other_packets_passed_over(
    events: Seq<Event>,
    port: Seq<char>,
    channel: Seq<char>,
    sequence: u64,
)
    requires
        forall|i: int|
            0 <= i < events.len() && sent_packet(#[trigger] events[i]) ==> attributes_of(
                events[i].attributes@,
            ) is Ok && names_other_packet(
                attributes_of(events[i].attributes@)->Ok_0,
                port,
                channel,
                sequence,
            ),
    ensures
        send_packet_attributes(events, port, channel, sequence) == Ok::<_, ClearError>(
            None::<Map<Seq<char>, Seq<char>>>,
        ),
    decreases events.len(),
{
    if events.len() > 0 {
        let front = events.drop_last();
        assert forall|i: int| 0 <= i < front.len() && sent_packet(#[trigger] front[i]) implies
            attributes_of(front[i].attributes@) is Ok && names_other_packet(
            attributes_of(front[i].attributes@)->Ok_0,
            port,
            channel,
            sequence,
        ) by {
            assert(front[i] == events[i]);
        }
        law_other_packets_passed_over(front, port, channel, sequence);
        assert(events[events.len() - 1] == events.last());
    }
}

/// The events of a transaction can be read if and only if every one that sent a
/// packet can.
pub proof fn law_events_readable(
    events: Seq<Event>,
    port: Seq<char>,
    channel: Seq<char>,
    sequence: u64,
)
    ensures
        send_packet_attributes(events, port, channel, sequence) is Ok <==> forall|i: int|
            0 <= i < events.len() && sent_packet(#[trigger] events[i]) ==> attributes_of(
                events[i].attributes@,
            ) is Ok,
    decreases events.len(),
{
    if events.len() > 0 {
        let front = events.drop_last();
        let last = events.len() - 1;
        law_events_readable(front, port, channel, sequence);
        assert(events[last] == events.last());
        assert forall|i: int| 0 <= i < front.len() implies #[trigger] front[i] == events[i] by {}
        if send_packet_attributes(events, port, channel, sequence) is Ok {
            assert forall|i: int| 0 <= i < events.len() && sent_packet(#[trigger] events[i]) implies
                attributes_of(events[i].attributes@) is Ok by {
                if i < last {
                    assert(front[i] == events[i]);
                }
            }
        }
    }
}

/// Of several events that sent a packet and cannot be read the first one counts.
pub proof fn law_events_error(
    events: Seq<Event>,
    port: Seq<char>,
    channel: Seq<char>,
    sequence: u64,
    n: int,
)
    requires
        0 <= n < events.len(),
        forall|i: int|
            0 <= i < n && sent_packet(#[trigger] events[i]) ==> attributes_of(
                events[i].attributes@,
            ) is Ok,
        sent_packet(events[n]),
        attributes_of(events[n].attributes@) is Err,
    ensures
        send_packet_attributes(events, port, channel, sequence) == Err::<
            Option<Map<Seq<char>, Seq<char>>>,
            _,
        >(attributes_of(events[n].attributes@)->Err_0),
{
    let front = events.take(n);
    assert forall|i: int| 0 <= i < front.len() && sent_packet(#[trigger] front[i]) implies
        attributes_of(front[i].attributes@) is Ok by {
        assert(front[i] == events[i]);
    }
    law_events_readable(front, port, channel, sequence);
    assert(events.take(n + 1).drop_last() =~= front);
    lemma_bad_event(events, port, channel, sequence, n + 1);
}

/// Attributes whose sequence number, source port and source channel are well-formed
/// name another packet if and only if these are not the three given ones. One that is
/// missing or malformed names nothing.
pub proof fn law_names_other_packet(
    attributes: Map<Seq<char>, Seq<char>>,
    port: Seq<char>,
    channel: Seq<char>,
    sequence: u64,
)
    ensures
        lookup(attributes, "packet_sequence"@) matches Some(s) ==> (lookup(
            attributes,
            "packet_src_port"@,
        ) matches Some(p) ==> (lookup(attributes, "packet_src_channel"@) matches Some(c) ==> (
        decimal_u64(s) is Some && parsed_port_id(p) is Some && parsed_channel_id(c) is Some ==> (
        names_other_packet(attributes, port, channel, sequence) <==> (
            decimal_u64(s)->0,
            parsed_port_id(p)->0,
            parsed_channel_id(c)->0,
        ) != (sequence, port, channel))))),
        ({
            &&& lookup(attributes, "packet_sequence"@) matches Some(s) ==> (decimal_u64(s) matches Some(
                n,
            ) ==> n == sequence)
            &&& lookup(attributes, "packet_src_port"@) matches Some(p) ==> (parsed_port_id(
                p,
            ) matches Some(id) ==> id == port)
            &&& lookup(attributes, "packet_src_channel"@) matches Some(c) ==> (parsed_channel_id(
                c,
            ) matches Some(id) ==> id == channel)
        }) <==> !names_other_packet(attributes, port, channel, sequence),
{
}

/// If all events that sent a packet can be read, then one that does not name
/// another packet is found, provided that all later ones do.
pub proof fn law_packet_event_found(
    events: Seq<Event>,
    port: Seq<char>,
    channel: Seq<char>,
    sequence: u64,
    n: int,
)
    requires
        0 <= n < events.len(),
        sent_packet(events[n]),
        forall|i: int|
            0 <= i < events.len() && sent_packet(#[trigger] events[i]) ==> attributes_of(
                events[i].attributes@,
            ) is Ok,
        !names_other_packet(attributes_of(events[n].attributes@)->Ok_0, port, channel, sequence),
        forall|i: int|
            n < i < events.len() && sent_packet(#[trigger] events[i]) ==> names_other_packet(
                attributes_of(events[i].attributes@)->Ok_0,
                port,
                channel,
                sequence,
            ),
    ensures
        send_packet_attributes(events, port, channel, sequence) == Ok::<_, ClearError>(
            Some(attributes_of(events[n].attributes@)->Ok_0),
        ),
    decreases events.len(),
{
    let front = events.drop_last();
    let last = events.len() - 1;
    assert(events[last] == events.last());
    assert forall|i: int| 0 <= i < front.len() implies #[trigger] front[i] == events[i] by {}
    if n == last {
        law_events_readable(front, port, channel, sequence);
    } else {
        law_packet_event_found(front, port, channel, sequence, n);
    }
}

/// The map behind an optional set of attributes.
pub open spec fn attributes_view(attributes: Option<Attributes>) -> Option<
    Map<Seq<char>, Seq<char>>,
> {
    match attributes {
        Some(a) => Some(a@),
        None => None,
    }
}

/// Decides whether attributes name a packet other than the given one.
fn is_other_packet(
    attributes: &Attributes,
    port: &PortId,
    channel: &ChannelId,
    sequence: u64,
) -> (other: bool)
    ensures
        other == names_other_packet(attributes@, port@, channel@, sequence),
{
    let other_sequence = match attributes.get(PACKET_SEQUENCE) {
        Some(text) => match parse_u64(text.as_str()) {
            Some(number) => number != sequence,
            None => false,
        },
        None => false,
    };
    let other_port = match attributes.get(PACKET_SRC_PORT) {
        Some(text) => match PortId::from_str(text.as_str()) {
            Some(id) => !id.same_as(port),
            None => false,
        },
        None => false,
    };
    let other_channel = match attributes.get(PACKET_SRC_CHANNEL) {
        Some(text) => match ChannelId::from_str(text.as_str()) {
            Some(id) => !id.same_as(channel),
            None => false,
        },
        None => false,
    };
    other_sequence || other_port || other_channel
}

/// Finds the event of a transaction that sent the packet with the given source
/// port, source channel and sequence number.
pub fn find_send_packet(
    events: &Vec<Event>,
    port: &PortId,
    channel: &ChannelId,
    sequence: u64,
) -> (found: Result<Option<Attributes>, ClearError>)
    ensures
        match found {
            Ok(a) => send_packet_attributes(events@, port@, channel@, sequence) == Ok::<
                _,
                ClearError,
            >(attributes_view(a)),
            Err(e) => send_packet_attributes(events@, port@, channel@, sequence) == Err::<
                Option<Map<Seq<char>, Seq<char>>>,
                _,
            >(e),
        },
{
    let mut found: Option<Attributes> = None;
    let send_packet = SEND_PACKET_EVENT_KEY.to_owned();
    let mut i: usize = 0;
    while i < events.len()
        invariant
            i <= events@.len(),
            send_packet@ == SEND_PACKET_EVENT_KEY@,
            send_packet_attributes(events@.take(i as int), port@, channel@, sequence) == Ok::<
                _,
                ClearError,
            >(attributes_view(found)),
        decreases events.len() - i,
    {
        proof {
            assert(events@.take(i + 1).drop_last() =~= events@.take(i as int));
            if send_packet_attributes(events@.take(i + 1), port@, channel@, sequence) is Err {
                lemma_bad_event(events@, port@, channel@, sequence, i + 1);
            }
        }
        if events[i].kind == send_packet {
            match collect_attributes(&events[i].attributes) {
                Err(e) => return Err(e),
                Ok(attributes) => {
                    if !is_other_packet(&attributes, port, channel, sequence) {
                        found = Some(attributes);
                    }
                },
            }
        }
        i = i + 1;
    }
    assert(events@.take(i as int) =~= events@);
    Ok(found)
}

} // verus!
