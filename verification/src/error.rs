//! Why a clearing command stops.

use vstd::prelude::*;
use vstd::string::StringExecFns;

verus! {

/// One of the two ways along a channel: from the chain named on the command
/// line to its counterparty, or back.
#[derive(Clone, Copy, Debug, PartialEq, Eq, Structural)]
pub enum Direction {
    Forward,
    Reverse,
}

/// Why a clearing command stops before it is done.
#[derive(Clone, Copy, Debug, PartialEq, Eq, Structural)]
pub enum ClearError {
    /// The two chains could not be started.
    ChainSpawn,
    /// The counterparty chain did not give its configuration.
    CounterpartyConfig,
    /// The link from the source chain could not be made.
    ForwardLink,
    /// The link back could not be made.
    ReverseLink,
    /// Relaying the pending messages of a link failed.
    Relay,
    /// The source chain did not give its configuration.
    NoSourceConfig,
    /// A gRPC service of the source chain could not be reached.
    Unreachable,
    /// The query for the transaction failed.
    TxQuery,
    /// The reply holds no transaction.
    NoTxResponse,
    /// The query for the latest block failed.
    BlockQuery,
    /// The reply holds no block.
    NoBlock,
    /// The latest block has no header.
    NoBlockHeader,
    /// The chain identifier does not end in a revision number.
    RevisionNumber,
    /// The transaction's height is zero.
    EventHeight,
    /// An attribute key is not UTF-8.
    NonUtf8Key,
    /// An attribute value is not UTF-8.
    NonUtf8Value,
    /// The transaction did not send the packet.
    NoSendPacket,
    /// The event has no sequence number.
    NoSequence,
    /// The sequence number is not a decimal `u64`.
    InvalidSequence,
    /// The event names no source port.
    NoSourcePort,
    /// The source port is no port identifier.
    InvalidSourcePort,
    /// The event names no source channel.
    NoSourceChannel,
    /// The source channel is no channel identifier.
    InvalidSourceChannel,
    /// The event names no destination port.
    NoDestinationPort,
    /// The destination port is no port identifier.
    InvalidDestinationPort,
    /// The event names no destination channel.
    NoDestinationChannel,
    /// The destination channel is no channel identifier.
    InvalidDestinationChannel,
    /// The event carries no packet data.
    NoData,
    /// The event has no timeout height.
    NoTimeoutHeight,
    /// The timeout height is not two fields with a dash between them.
    TimeoutHeightFields,
    /// The first field of the timeout height is not a decimal `u64`.
    TimeoutRevisionNumber,
    /// The second field of the timeout height is not a decimal `u64`.
    TimeoutRevisionHeight,
    /// The timeout height is zero.
    ZeroTimeoutHeight,
    /// The event has no timeout timestamp.
    NoTimeoutTimestamp,
    /// The timeout timestamp is not a decimal `u64`.
    InvalidTimeoutTimestamp,
    /// The work that is ready could not be taken from the schedule.
    ReadyFetch,
    /// Relaying the ready work failed.
    ReadyRelay(Direction),
    /// The next piece of scheduled work could not be taken.
    ScheduledFetch,
    /// Relaying a piece of scheduled work failed.
    ScheduledRelay,
}

/// The words for an error.
pub open spec fn error_words(error: ClearError) -> Seq<char> {
    match error {
        ClearError::ChainSpawn => "could not start the chains of the channel"@,
        ClearError::CounterpartyConfig => "no config of the counterparty chain"@,
        ClearError::ForwardLink => "could not make the link from the source chain"@,
        ClearError::ReverseLink => "could not make the link to the source chain"@,
        ClearError::Relay => "link error"@,
        ClearError::NoSourceConfig => "No src config!"@,
        ClearError::Unreachable => "Unable to contact src chain via grpc"@,
        ClearError::TxQuery => "failed to get tx by hash!"@,
        ClearError::NoTxResponse => "No tx response found with hash"@,
        ClearError::BlockQuery => "Unable to get latest block"@,
        ClearError::NoBlock => "Latest block not found!"@,
        ClearError::NoBlockHeader => "Latest block has no header!"@,
        ClearError::RevisionNumber => "Invalid revision number at end of chain id!"@,
        ClearError::EventHeight => "Invalid IbcHeight made"@,
        ClearError::NonUtf8Key => "Non-UTF8 Key!"@,
        ClearError::NonUtf8Value => "Non-UTF8 Value!"@,
        ClearError::NoSendPacket => "Could not find a send_packet event on the given tx!"@,
        ClearError::NoSequence => "No packet_sequence attribute!"@,
        ClearError::InvalidSequence => "Invalid packet_sequence!"@,
        ClearError::NoSourcePort => "No packet_src_port!"@,
        ClearError::InvalidSourcePort => "Invalid packet_src_port!"@,
        ClearError::NoSourceChannel => "No packet_src_channel!"@,
        ClearError::InvalidSourceChannel => "Invalid packet_src_channel!"@,
        ClearError::NoDestinationPort => "No packet_dst_port!"@,
        ClearError::InvalidDestinationPort => "Invalid packet_dst_port!"@,
        ClearError::NoDestinationChannel => "No packet_dst_channel!"@,
        ClearError::InvalidDestinationChannel => "Invalid packet_dst_channel!"@,
        ClearError::NoData => "No packet_data!"@,
        ClearError::NoTimeoutHeight => "No packet_timeout_height!"@,
        ClearError::TimeoutHeightFields => {
            "invalid packet_timeout_height, expected 2 values separated by '-'!"@
        },
        ClearError::TimeoutRevisionNumber => "Invalid revision number in timeout height!"@,
        ClearError::TimeoutRevisionHeight => "Invalid revision height in timeout height!"@,
        ClearError::ZeroTimeoutHeight => "Could not create valid IBCHeight"@,
        ClearError::NoTimeoutTimestamp => "No packet_timeout_timestamp!"@,
        ClearError::InvalidTimeoutTimestamp => "Invalid packet_timeout_timestamp!"@,
        ClearError::ReadyFetch => "try_fetch_scheduled_op_data failed"@,
        ClearError::ReadyRelay(Direction::Forward) => "relay_and_accumulate failed!"@,
        ClearError::ReadyRelay(Direction::Reverse) => "try_fetch_scheduled_op_data failed"@,
        ClearError::ScheduledFetch => "fetch_scheduled_op_data failed"@,
        ClearError::ScheduledRelay => "relay_and_accumulate failed"@,
    }
}

/// The cause of the error says all that there is to say: the two chains or the
/// relaying failed.
pub open spec fn speaks_for_itself(error: ClearError) -> bool {
    ||| error == ClearError::ChainSpawn
    ||| error == ClearError::CounterpartyConfig
    ||| error == ClearError::ForwardLink
    ||| error == ClearError::ReverseLink
    ||| error == ClearError::Relay
}

/// What is told of an error and its cause.
pub open spec fn failure_text(error: ClearError, cause: Option<Seq<char>>) -> Seq<char> {
    match cause {
        None => error_words(error),
        Some(cause) => if speaks_for_itself(error) {
            cause
        } else {
            error_words(error) + ": "@ + cause
        },
    }
}

/// What is told ends in the cause, if there is one; where more is told than the cause,
/// it begins with the words for the error.
pub proof fn law_failure_text(error: ClearError, cause: Seq<char>)
    ensures
        failure_text(error, None) == error_words(error),
        cause.is_suffix_of(failure_text(error, Some(cause))),
        failure_text(error, Some(cause)) == cause || error_words(error).is_prefix_of(
            failure_text(error, Some(cause)),
        ),
{
}

impl ClearError {
    fn words(&self) -> (text: &'static str)
        ensures
            text@ == error_words(*self),
    {
        match self {
            ClearError::ChainSpawn => "could not start the chains of the channel",
            ClearError::CounterpartyConfig => "no config of the counterparty chain",
            ClearError::ForwardLink => "could not make the link from the source chain",
            ClearError::ReverseLink => "could not make the link to the source chain",
            ClearError::Relay => "link error",
            ClearError::NoSourceConfig => "No src config!",
            ClearError::Unreachable => "Unable to contact src chain via grpc",
            ClearError::TxQuery => "failed to get tx by hash!",
            ClearError::NoTxResponse => "No tx response found with hash",
            ClearError::BlockQuery => "Unable to get latest block",
            ClearError::NoBlock => "Latest block not found!",
            ClearError::NoBlockHeader => "Latest block has no header!",
            ClearError::RevisionNumber => "Invalid revision number at end of chain id!",
            ClearError::EventHeight => "Invalid IbcHeight made",
            ClearError::NonUtf8Key => "Non-UTF8 Key!",
            ClearError::NonUtf8Value => "Non-UTF8 Value!",
            ClearError::NoSendPacket => "Could not find a send_packet event on the given tx!",
            ClearError::NoSequence => "No packet_sequence attribute!",
            ClearError::InvalidSequence => "Invalid packet_sequence!",
            ClearError::NoSourcePort => "No packet_src_port!",
            ClearError::InvalidSourcePort => "Invalid packet_src_port!",
            ClearError::NoSourceChannel => "No packet_src_channel!",
            ClearError::InvalidSourceChannel => "Invalid packet_src_channel!",
            ClearError::NoDestinationPort => "No packet_dst_port!",
            ClearError::InvalidDestinationPort => "Invalid packet_dst_port!",
            ClearError::NoDestinationChannel => "No packet_dst_channel!",
            ClearError::InvalidDestinationChannel => "Invalid packet_dst_channel!",
            ClearError::NoData => "No packet_data!",
            ClearError::NoTimeoutHeight => "No packet_timeout_height!",
            ClearError::TimeoutHeightFields => {
                "invalid packet_timeout_height, expected 2 values separated by '-'!"
            },
            ClearError::TimeoutRevisionNumber => "Invalid revision number in timeout height!",
            ClearError::TimeoutRevisionHeight => "Invalid revision height in timeout height!",
            ClearError::ZeroTimeoutHeight => "Could not create valid IBCHeight",
            ClearError::NoTimeoutTimestamp => "No packet_timeout_timestamp!",
            ClearError::InvalidTimeoutTimestamp => "Invalid packet_timeout_timestamp!",
            ClearError::ReadyFetch => "try_fetch_scheduled_op_data failed",
            ClearError::ReadyRelay(Direction::Forward) => "relay_and_accumulate failed!",
            ClearError::ReadyRelay(Direction::Reverse) => "try_fetch_scheduled_op_data failed",
            ClearError::ScheduledFetch => "fetch_scheduled_op_data failed",
            ClearError::ScheduledRelay => "relay_and_accumulate failed",
        }
    }

    /// The words for the error.
    pub fn message(&self) -> (text: String)
        ensures
            text@ == error_words(*self),
    {
        self.words().to_owned()
    }
}

/// A command that stopped, and the cause if there is one outside it.
#[derive(Debug, PartialEq, Eq)]
pub struct Failure<L> {
    pub error: ClearError,
    pub cause: Option<L>,
}

impl Failure<String> {
    /// What is told of the failure.
    pub fn text(&self) -> (text: String)
        ensures
            text@ == failure_text(self.error, self.cause.deep_view()),
    {
        match &self.cause {
            None => self.error.message(),
            Some(cause) => match self.error {
                ClearError::ChainSpawn
                | ClearError::CounterpartyConfig
                | ClearError::ForwardLink
                | ClearError::ReverseLink
                | ClearError::Relay => cause.clone(),
                _ => {
                    let mut text = self.error.message();
                    text.append(": ");
                    text.append(cause.as_str());
                    text
                },
            },
        }
    }
}

} // verus!
