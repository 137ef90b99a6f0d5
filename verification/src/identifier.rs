//! Identifiers of chains, ports and channels.

use std::str::FromStr;

use vstd::prelude::*;
use vstd::utf8::{encode_utf8, is_ascii_chars};

verus! {

/// The fewest bytes of a port identifier.
pub const PORT_ID_MIN: usize = 2;

/// The most bytes of a port identifier.
pub const PORT_ID_MAX: usize = 128;

/// The fewest bytes of a channel identifier.
pub const CHANNEL_ID_MIN: usize = 8;

/// The most bytes of a channel identifier.
pub const CHANNEL_ID_MAX: usize = 64;

/// The ASCII characters that identifiers are made of.
pub open spec fn identifier_char(c: char) -> bool {
    ||| 'a' <= c <= 'z'
    ||| 'A' <= c <= 'Z'
    ||| '0' <= c <= '9'
    ||| c == '.' || c == '_' || c == '+' || c == '-' || c == '#'
    ||| c == '[' || c == ']' || c == '<' || c == '>'
}

/// Among the ASCII characters of `s` are identifier characters only.
pub open spec fn ascii_part_allowed(s: Seq<char>) -> bool {
    forall|i: int| 0 <= i < s.len() && (#[trigger] s[i]) as u32 <= 0x7f ==> identifier_char(s[i])
}

/// `s` is an ASCII identifier of `min` to `max` characters.
pub open spec fn ascii_identifier(s: Seq<char>, min: usize, max: usize) -> bool {
    &&& min <= s.len() <= max
    &&& forall|i: int| 0 <= i < s.len() ==> identifier_char(#[trigger] s[i])
}

/// What `PortId::from_str` of the `ibc` crate makes of a string.
pub uninterp spec fn parsed_port_id(s: Seq<char>) -> Option<Seq<char>>;

/// What `ChannelId::from_str` of the `ibc` crate makes of a string.
pub uninterp spec fn parsed_channel_id(s: Seq<char>) -> Option<Seq<char>>;

/// Calls `PortId::from_str` of the `ibc` crate. It keeps the string it accepts
/// as it is. It accepts 2 to 128 bytes, and of ASCII characters only those of
/// identifiers; outside ASCII it goes by `char::is_alphanumeric`, which is left
/// to the name.
#[verifier::external_body]
fn port_id_from_str(s: &str) -> (id: Option<String>)
    ensures
        id.deep_view() == parsed_port_id(s@),
        id matches Some(t) ==> {
            &&& t@ == s@
            &&& PORT_ID_MIN <= encode_utf8(s@).len() <= PORT_ID_MAX
            &&& ascii_part_allowed(s@)
        },
        is_ascii_chars(s@) ==> (id is Some <==> ascii_identifier(s@, PORT_ID_MIN, PORT_ID_MAX)),
{
    ibc::core::ics24_host::identifier::PortId::from_str(s).ok().map(|id| id.as_str().to_string())
}

/// Calls `ChannelId::from_str` of the `ibc` crate. It keeps the string it
/// accepts as it is. It accepts 8 to 64 bytes, and of ASCII characters only
/// those of identifiers; outside ASCII it goes by `char::is_alphanumeric`,
/// which is left to the name.
#[verifier::external_body]
fn channel_id_from_str(s: &str) -> (id: Option<String>)
    ensures
        id.deep_view() == parsed_channel_id(s@),
        id matches Some(t) ==> {
            &&& t@ == s@
            &&& CHANNEL_ID_MIN <= encode_utf8(s@).len() <= CHANNEL_ID_MAX
            &&& ascii_part_allowed(s@)
        },
        is_ascii_chars(s@) ==> (id is Some <==> ascii_identifier(
            s@,
            CHANNEL_ID_MIN,
            CHANNEL_ID_MAX,
        )),
{
    ibc::core::ics24_host::identifier::ChannelId::from_str(s).ok().map(|id| id.as_str().to_string())
}

/// The identifier of a chain: any string.
#[derive(Debug, PartialEq, Eq)]
pub struct ChainId {
    pub id: String,
}

impl View for ChainId {
    type V = Seq<char>;

    open spec fn view(&self) -> Seq<char> {
        self.id@
    }
}

impl ChainId {
    pub fn from_string(id: &str) -> (chain_id: ChainId)
        ensures
            chain_id@ == id@,
    {
        ChainId { id: id.to_owned() }
    }

    pub fn as_str(&self) -> (id: &str)
        ensures
            id@ == self@,
    {
        self.id.as_str()
    }

    /// Two chain identifiers are the same if their strings are.
    pub fn same_as(&self, other: &ChainId) -> (same: bool)
        ensures
            same == (self@ == other@),
    {
        self.id == other.id
    }
}

impl Clone for ChainId {
    fn clone(&self) -> (copy: ChainId)
        ensures
            copy@ == self@,
    {
        ChainId { id: self.id.clone() }
    }
}

/// A well-formed port identifier.
pub open spec fn valid_port_id(s: Seq<char>) -> bool {
    &&& parsed_port_id(s) == Some(s)
    &&& PORT_ID_MIN <= encode_utf8(s).len() <= PORT_ID_MAX
    &&& ascii_part_allowed(s)
}

/// The identifier of a port on a chain.
#[derive(Debug, PartialEq, Eq)]
pub struct PortId {
    id: String,
}

impl View for PortId {
    type V = Seq<char>;

    closed spec fn view(&self) -> Seq<char> {
        self.id@
    }
}

impl PortId {
    #[verifier::type_invariant]
    spec fn well_formed(self) -> bool {
        valid_port_id(self.id@)
    }

    /// Accepts a well-formed port identifier.
    pub fn from_str(s: &str) -> (port_id: Option<PortId>)
        ensures
            port_id is Some <==> parsed_port_id(s@) is Some,
            port_id matches Some(p) ==> p@ == s@ && valid_port_id(s@),
            is_ascii_chars(s@) ==> (port_id is Some <==> ascii_identifier(
                s@,
                PORT_ID_MIN,
                PORT_ID_MAX,
            )),
    {
        match port_id_from_str(s) {
            Some(id) => Some(PortId { id }),
            None => None,
        }
    }

    pub fn as_str(&self) -> (id: &str)
        ensures
            id@ == self@,
            valid_port_id(self@),
    {
        proof {
            use_type_invariant(self);
        }
        self.id.as_str()
    }

    /// Two port identifiers are the same if their strings are.
    pub fn same_as(&self, other: &PortId) -> (same: bool)
        ensures
            same == (self@ == other@),
    {
        self.id == other.id
    }
}

impl Clone for PortId {
    fn clone(&self) -> (copy: PortId)
        ensures
            copy@ == self@,
    {
        proof {
            use_type_invariant(self);
        }
        PortId { id: self.id.clone() }
    }
}

/// A well-formed channel identifier.
pub open spec fn valid_channel_id(s: Seq<char>) -> bool {
    &&& parsed_channel_id(s) == Some(s)
    &&& CHANNEL_ID_MIN <= encode_utf8(s).len() <= CHANNEL_ID_MAX
    &&& ascii_part_allowed(s)
}

/// The identifier of a channel on a port.
#[derive(Debug, PartialEq, Eq)]
pub struct ChannelId {
    id: String,
}

impl View for ChannelId {
    type V = Seq<char>;

    closed spec fn view(&self) -> Seq<char> {
        self.id@
    }
}

impl ChannelId {
    #[verifier::type_invariant]
    spec fn well_formed(self) -> bool {
        valid_channel_id(self.id@)
    }

    /// Accepts a well-formed channel identifier.
    pub fn from_str(s: &str) -> (channel_id: Option<ChannelId>)
        ensures
            channel_id is Some <==> parsed_channel_id(s@) is Some,
            channel_id matches Some(c) ==> c@ == s@ && valid_channel_id(s@),
            is_ascii_chars(s@) ==> (channel_id is Some <==> ascii_identifier(
                s@,
                CHANNEL_ID_MIN,
                CHANNEL_ID_MAX,
            )),
    {
        match channel_id_from_str(s) {
            Some(id) => Some(ChannelId { id }),
            None => None,
        }
    }

    pub fn as_str(&self) -> (id: &str)
        ensures
            id@ == self@,
            valid_channel_id(self@),
    {
        proof {
            use_type_invariant(self);
        }
        self.id.as_str()
    }

    /// Two channel identifiers are the same if their strings are.
    pub fn same_as(&self, other: &ChannelId) -> (same: bool)
        ensures
            same == (self@ == other@),
    {
        self.id == other.id
    }
}

impl Clone for ChannelId {
    fn clone(&self) -> (copy: ChannelId)
        ensures
            copy@ == self@,
    {
        proof {
            use_type_invariant(self);
        }
        ChannelId { id: self.id.clone() }
    }
}

/// The end of a channel: a channel on a port of a chain.
#[derive(Debug, PartialEq, Eq)]
pub struct ChannelEnd {
    pub chain_id: ChainId,
    pub port_id: PortId,
    pub channel_id: ChannelId,
}

/// The identifiers of a channel's end.
pub struct ChannelEndView {
    pub chain_id: Seq<char>,
    pub port_id: Seq<char>,
    pub channel_id: Seq<char>,
}

impl View for ChannelEnd {
    type V = ChannelEndView;

    open spec fn view(&self) -> ChannelEndView {
        ChannelEndView {
            chain_id: self.chain_id@,
            port_id: self.port_id@,
            channel_id: self.channel_id@,
        }
    }
}

} // verus!
