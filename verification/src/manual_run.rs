//! The course of the command that clears one packet.
//!
//! The command alternates between work on the chains and decisions. A
//! [`ManualRun`] makes the decisions: it says what to do next, and is told how
//! that went.

use vstd::prelude::*;
use vstd::string::StringExecFns;

use crate::commands::ClearManualCmd;
use crate::error::{failure_text, ClearError, Direction, Failure};
use crate::event::{
    attributes_of, find_send_packet, is_last_of_packet, is_last_with_key, law_events_readable,
    law_found_event, law_last_attribute_wins, law_packet_event_found, lookup, names_other_packet,
    send_packet_attributes, sent_packet, Event, RawAttribute, PACKET_SEQUENCE,
};
use crate::height::{
    event_height, event_height_of, law_event_height, law_event_height_exact, revision_number_of,
    Height,
};
use crate::identifier::{
    valid_channel_id, valid_port_id, ChannelEnd, ChannelEndView, ChannelId, PortId,
};
use crate::packet::{
    describes_packet, law_packet_described, law_packet_error, law_packet_read_back, packet_of,
    writes_packet, Packet, PacketView, PACKET_DATA,
};
use crate::text::{decimal_digits, law_decimal_exact, law_decimal_read_back, DASH};

verus! {

/// Under this name the relayed messages are tracked.
pub const TRACKING_ID: &'static str = "packet-recv";

/// A transaction as the chain that included it returns it.
#[derive(Debug, PartialEq, Eq)]
pub struct TxResponse {
    pub height: i64,
    pub events: Vec<Event>,
}

/// The header of a block.
#[derive(Debug, PartialEq, Eq)]
pub struct Header {
    pub chain_id: String,
}

/// A block as a chain returns it.
#[derive(Debug, PartialEq, Eq)]
pub struct Block {
    pub header: Option<Header>,
}

/// The event that sent a packet, and the height at which it happened.
#[derive(Debug, PartialEq, Eq)]
pub struct SendPacketEvent {
    pub packet: Packet,
    pub height: Height,
}

/// What the event that sent a packet says.
pub struct SendPacketView {
    pub packet: PacketView,
    pub height: Height,
}

impl View for SendPacketEvent {
    type V = SendPacketView;

    open spec fn view(&self) -> SendPacketView {
        SendPacketView { packet: self.packet@, height: self.height }
    }
}

/// The event of a transaction that sent the packet with the given source port,
/// source channel and sequence number. The latest block of the chain tells the
/// chain's identifier, and so the revision of the event's height.
pub open spec fn problem_event_of(
    port: Seq<char>,
    channel: Seq<char>,
    sequence: u64,
    tx: TxResponse,
    latest_block: Option<Block>,
) -> Result<SendPacketView, ClearError> {
    match latest_block {
        None => Err(ClearError::NoBlock),
        Some(block) => match block.header {
            None => Err(ClearError::NoBlockHeader),
            Some(header) => match event_height_of(header.chain_id@, tx.height) {
                Err(e) => Err(e),
                Ok(height) => match send_packet_attributes(tx.events@, port, channel, sequence) {
                    Err(e) => Err(e),
                    Ok(None) => Err(ClearError::NoSendPacket),
                    Ok(Some(attributes)) => match packet_of(attributes) {
                        Err(e) => Err(e),
                        Ok(packet) => Ok(SendPacketView { packet, height }),
                    },
                },
            },
        },
    }
}

/// The packet that is found is the one that was asked for: it has that sequence
/// number, and was sent from that channel on that port. Its height and timeout
/// height are past zero.
pub proof fn law_problem_event_sequence(
    port: Seq<char>,
    channel: Seq<char>,
    sequence: u64,
    tx: TxResponse,
    latest_block: Option<Block>,
)
    ensures
        problem_event_of(port, channel, sequence, tx, latest_block) matches Ok(event) ==> {
            &&& event.packet.sequence == sequence
            &&& event.packet.source_port == port
            &&& event.packet.source_channel == channel
            &&& event.height.valid()
            &&& event.packet.timeout_height.valid()
        },
{
    law_found_event(tx.events@, port, channel, sequence);
}

/// The packet that is found carries the bytes of the data attribute of an event of
/// the transaction that sent a packet.
pub proof fn law_problem_event_data(
    port: Seq<char>,
    channel: Seq<char>,
    sequence: u64,
    tx: TxResponse,
    latest_block: Option<Block>,
)
    ensures
        problem_event_of(port, channel, sequence, tx, latest_block) matches Ok(event) ==> exists|
            i: int,
            j: int,
        |
            {
                &&& 0 <= i < tx.events@.len()
                &&& sent_packet(#[trigger] tx.events@[i])
                &&& is_last_with_key(tx.events@[i].attributes@, PACKET_DATA@, j)
                &&& event.packet.data == (#[trigger] tx.events@[i].attributes@[j]).value@
            },
{
    if let Ok(event) = problem_event_of(port, channel, sequence, tx, latest_block) {
        law_found_event(tx.events@, port, channel, sequence);
        let attributes = send_packet_attributes(tx.events@, port, channel, sequence)->Ok_0->0;
        let i = choose|i: int| #[trigger]
            is_last_of_packet(tx.events@, port, channel, sequence, i, attributes);
        let raw = tx.events@[i].attributes@;
        law_last_attribute_wins(raw, PACKET_DATA@);
        let j = choose|j: int|
            is_last_with_key(raw, PACKET_DATA@, j) && event.packet.data == (
            #[trigger] raw[j]).value@;
        assert(event.packet.data == tx.events@[i].attributes@[j].value@);
    }
}

/// The event is what a transaction sent: its packet was sent on the given channel on
/// the given port with the given sequence number, and an event of the transaction
/// describes it, field by field; all later ones that sent a packet name other ones. Its
/// height is the transaction's, in the revision that the chain of the block is at.
pub open spec fn is_sent_event(
    port: Seq<char>,
    channel: Seq<char>,
    sequence: u64,
    tx: TxResponse,
    latest_block: Option<Block>,
    event: SendPacketView,
) -> bool {
    &&& latest_block matches Some(block) && block.header matches Some(header)
        && revision_number_of(header.chain_id@) == Some(event.height.revision_number)
    &&& event.height.revision_height != 0
    &&& (event.height.revision_height - tx.height) % 0x1_0000_0000_0000_0000 == 0
    &&& forall|i: int|
        0 <= i < tx.events@.len() && sent_packet(#[trigger] tx.events@[i]) ==> attributes_of(
            tx.events@[i].attributes@,
        ) is Ok
    &&& event.packet.source_port == port
    &&& event.packet.source_channel == channel
    &&& event.packet.sequence == sequence
    &&& exists|n: int, attributes: Map<Seq<char>, Seq<char>>|
        {
            &&& #[trigger] is_last_of_packet(
                tx.events@,
                port,
                channel,
                sequence,
                n,
                attributes,
            )
            &&& describes_packet(attributes, event.packet)
        }
}

/// An event is found in a transaction if and only if it is what the transaction sent.
pub proof fn law_problem_event_exact(
    port: Seq<char>,
    channel: Seq<char>,
    sequence: u64,
    tx: TxResponse,
    latest_block: Option<Block>,
    event: SendPacketView,
)
    ensures
        problem_event_of(port, channel, sequence, tx, latest_block) == Ok::<_, ClearError>(event)
            <==> is_sent_event(port, channel, sequence, tx, latest_block, event),
{
    let found = problem_event_of(port, channel, sequence, tx, latest_block);
    if found == Ok::<_, ClearError>(event) {
        let attributes = send_packet_attributes(tx.events@, port, channel, sequence)->Ok_0->0;
        law_event_height_exact(latest_block->0.header->0.chain_id@, tx.height);
        law_events_readable(tx.events@, port, channel, sequence);
        law_found_event(tx.events@, port, channel, sequence);
        law_problem_event_sequence(port, channel, sequence, tx, latest_block);
        law_packet_described(attributes, event.packet);
        let n = choose|n: int| #[trigger]
            is_last_of_packet(tx.events@, port, channel, sequence, n, attributes);
        assert(is_last_of_packet(tx.events@, port, channel, sequence, n, attributes));
    }
    if is_sent_event(port, channel, sequence, tx, latest_block, event) {
        let (n, attributes): (int, Map<Seq<char>, Seq<char>>) = choose|
            n: int,
            attributes: Map<Seq<char>, Seq<char>>,
        |
            {
                &&& #[trigger] is_last_of_packet(
                    tx.events@,
                    port,
                    channel,
                    sequence,
                    n,
                    attributes,
                )
                &&& describes_packet(attributes, event.packet)
            };
        law_event_height_exact(latest_block->0.header->0.chain_id@, tx.height);
        law_packet_described(attributes, event.packet);
        law_decimal_exact(lookup(attributes, PACKET_SEQUENCE@)->0, sequence);
        law_packet_event_found(tx.events@, port, channel, sequence, n);
    }
}

/// Why no event is found in a transaction: the chain gives no block, or a block without
/// a header; the event would have no height; an event that sent a packet is no text;
/// none sent the packet; or the one that did describes no packet. The first of these
/// reasons counts.
pub proof fn law_problem_event_error(
    port: Seq<char>,
    channel: Seq<char>,
    sequence: u64,
    tx: TxResponse,
    latest_block: Option<Block>,
)
    ensures
        problem_event_of(port, channel, sequence, tx, latest_block) matches Err(e) ==> {
            &&& e == ClearError::NoBlock <==> latest_block is None
            &&& e == ClearError::NoBlockHeader <==> latest_block is Some && latest_block->0.header
                is None
            &&& latest_block is Some && latest_block->0.header is Some ==> {
                let height = event_height_of(latest_block->0.header->0.chain_id@, tx.height);
                let found = send_packet_attributes(tx.events@, port, channel, sequence);
                &&& height matches Err(cause) ==> e == cause
                &&& height is Ok ==> (found matches Err(cause) ==> e == cause)
                &&& height is Ok && found is Ok ==> (e == ClearError::NoSendPacket
                    <==> found->Ok_0 is None)
                &&& height is Ok && found is Ok && found->Ok_0 is Some ==> packet_of(
                    found->Ok_0->0,
                ) == Err::<PacketView, _>(e)
            }
        },
{
    if let Some(block) = latest_block {
        if let Some(header) = block.header {
            law_event_height_exact(header.chain_id@, tx.height);
            if let Ok(Some(attributes)) = send_packet_attributes(
                tx.events@,
                port,
                channel,
                sequence,
            ) {
                law_packet_error(attributes, attributes);
            }
            if let Err(e) = send_packet_attributes(tx.events@, port, channel, sequence) {
                lemma_event_errors(tx.events@, port, channel, sequence);
            }
        }
    }
}

/// Events that cannot be read hold a key or a value that is no text.
proof fn lemma_event_errors(
    events: Seq<Event>,
    port: Seq<char>,
    channel: Seq<char>,
    sequence: u64,
)
    ensures
        send_packet_attributes(events, port, channel, sequence) matches Err(e) ==> e
            == ClearError::NonUtf8Key || e == ClearError::NonUtf8Value,
    decreases events.len(),
{
    if events.len() > 0 {
        lemma_event_errors(events.drop_last(), port, channel, sequence);
        lemma_attribute_errors(events.last().attributes@);
    }
}

proof fn lemma_attribute_errors(raw: Seq<RawAttribute>)
    ensures
        attributes_of(raw) matches Err(e) ==> e == ClearError::NonUtf8Key || e
            == ClearError::NonUtf8Value,
    decreases raw.len(),
{
    if raw.len() > 0 {
        lemma_attribute_errors(raw.drop_last());
    }
}

/// A packet that a transaction sent is read back from the transaction's events.
/// The event of the packet writes the packet into its attributes, every event that
/// sent a packet is text, and those behind the packet's name other packets.
pub proof fn law_sent_packet_read_back(
    tx: TxResponse,
    block: Block,
    n: int,
    packet: PacketView,
    data: Seq<char>,
    chain_name: Seq<char>,
    revision: u64,
)
    requires
        tx.height > 0,
        block.header matches Some(header) && header.chain_id@ == chain_name + seq![DASH]
            + decimal_digits(revision as nat),
        0 <= n < tx.events@.len(),
        sent_packet(tx.events@[n]),
        forall|i: int|
            0 <= i < tx.events@.len() && sent_packet(#[trigger] tx.events@[i]) ==> attributes_of(
                tx.events@[i].attributes@,
            ) is Ok,
        forall|i: int|
            n < i < tx.events@.len() && sent_packet(#[trigger] tx.events@[i])
                ==> names_other_packet(
                attributes_of(tx.events@[i].attributes@)->Ok_0,
                packet.source_port,
                packet.source_channel,
                packet.sequence,
            ),
        writes_packet(attributes_of(tx.events@[n].attributes@)->Ok_0, packet, data),
        valid_port_id(packet.source_port),
        valid_channel_id(packet.source_channel),
        valid_port_id(packet.destination_port),
        valid_channel_id(packet.destination_channel),
        packet.timeout_height.valid(),
    ensures
        problem_event_of(
            packet.source_port,
            packet.source_channel,
            packet.sequence,
            tx,
            Some(block),
        ) == Ok::<_, ClearError>(
            SendPacketView {
                packet,
                height: Height { revision_number: revision, revision_height: tx.height as u64 },
            },
        ),
{
    law_event_height(chain_name, revision, tx.height);
    law_decimal_read_back(packet.sequence);
    law_packet_event_found(
        tx.events@,
        packet.source_port,
        packet.source_channel,
        packet.sequence,
        n,
    );
    law_packet_read_back(attributes_of(tx.events@[n].attributes@)->Ok_0, packet, data);
}

/// Finds the event of a transaction that sent the packet with the given source
/// port, source channel and sequence number.
pub fn problem_event(
    port: &PortId,
    channel: &ChannelId,
    sequence: u64,
    tx: &TxResponse,
    latest_block: &Option<Block>,
) -> (event: Result<SendPacketEvent, ClearError>)
    ensures
        match event {
            Ok(e) => problem_event_of(port@, channel@, sequence, *tx, *latest_block) == Ok::<
                _,
                ClearError,
            >(e@),
            Err(e) => problem_event_of(port@, channel@, sequence, *tx, *latest_block) == Err::<
                SendPacketView,
                _,
            >(e),
        },
{
    let block = match latest_block {
        Some(block) => block,
        None => return Err(ClearError::NoBlock),
    };
    let header = match &block.header {
        Some(header) => header,
        None => return Err(ClearError::NoBlockHeader),
    };
    let height = match event_height(header.chain_id.as_str(), tx.height) {
        Ok(height) => height,
        Err(e) => return Err(e),
    };
    let attributes = match find_send_packet(&tx.events, port, channel, sequence) {
        Ok(Some(attributes)) => attributes,
        Ok(None) => return Err(ClearError::NoSendPacket),
        Err(e) => return Err(e),
    };
    match Packet::from_attributes(&attributes) {
        Ok(packet) => Ok(SendPacketEvent { packet, height }),
        Err(e) => Err(e),
    }
}

/// Work to do on the chains.
#[derive(Clone, Copy, Debug, PartialEq, Eq, Structural)]
pub enum ManualStage {
    /// Start both chains of the channel.
    SpawnChains,
    /// Let the counterparty chain sign with the counterparty key.
    CounterpartyConfig,
    /// Make the link from the chain to its counterparty.
    ForwardLink,
    /// Make the link back.
    ReverseLink,
    /// Ask the source chain for its configuration.
    SourceConfig,
    /// Connect to the source chain's service for transactions.
    ConnectTxService,
    /// Connect to the source chain's service for blocks.
    ConnectBlockService,
    /// Ask for the transaction.
    GetTx,
    /// Ask for the latest block.
    GetLatestBlock,
    /// Schedule the messages for the packet's event.
    Schedule(Direction),
    /// Take the work that is ready from the schedule.
    FetchReady(Direction),
    /// Relay the ready work that goes to the source of the direction.
    RelaySource(Direction),
    /// Relay the ready work that goes to the destination of the direction.
    RelayDestination(Direction),
    /// Wait for the next piece of scheduled work and take it.
    FetchScheduled(Direction),
    /// Relay the piece of scheduled work.
    RelayScheduled(Direction),
    /// Relay the acknowledgements that are pending.
    RelayAck(Direction),
    /// Nothing is left to do.
    Done,
}

/// How the work went.
pub enum ManualReply<L> {
    /// The work succeeded.
    Done,
    /// The query for the transaction was answered.
    Tx(Option<TxResponse>),
    /// The query for the latest block was answered.
    LatestBlock(Option<Block>),
    /// A piece of scheduled work was taken, or none was left.
    Scheduled(bool),
    /// The work failed for this cause.
    Failed(L),
}

/// How far a run is.
pub struct ManualState {
    pub stage: ManualStage,
    /// The transaction, once it is known.
    pub tx: Option<TxResponse>,
    /// The event of the packet, once it is known.
    pub event: Option<SendPacketView>,
}

/// What stays the same in a run.
pub struct ManualPlan {
    /// The command names a key for the counterparty chain.
    pub with_counterparty_key: bool,
    /// The chain that the packet was sent from.
    pub chain_id: Seq<char>,
    /// The port that the packet was sent from.
    pub port_id: Seq<char>,
    /// The channel that the packet was sent on.
    pub channel_id: Seq<char>,
    /// The sequence number of the packet.
    pub sequence: u64,
    /// The transaction that sent the packet.
    pub tx_hash: Seq<char>,
}

/// The event of a transaction that sent the packet of the plan.
pub open spec fn planned_event(
    plan: ManualPlan,
    tx: TxResponse,
    latest_block: Option<Block>,
) -> Result<SendPacketView, ClearError> {
    problem_event_of(plan.port_id, plan.channel_id, plan.sequence, tx, latest_block)
}

/// The packet of the state's event, if one is known, is that of the plan.
pub open spec fn holds_planned_packet(plan: ManualPlan, state: ManualState) -> bool {
    state.event matches Some(event) ==> {
        &&& event.packet.source_port == plan.port_id
        &&& event.packet.source_channel == plan.channel_id
        &&& event.packet.sequence == plan.sequence
    }
}

/// The state in which every run starts.
pub open spec fn manual_start() -> ManualState {
    ManualState { stage: ManualStage::SpawnChains, tx: None, event: None }
}

/// The transaction is known when its packet is looked for, and the packet is
/// known when it is relayed.
pub open spec fn manual_valid(state: ManualState) -> bool {
    &&& state.stage == ManualStage::GetLatestBlock ==> state.tx is Some
    &&& is_relay_stage(state.stage) ==> state.event is Some
}

/// The stage relays the packet.
pub open spec fn is_relay_stage(stage: ManualStage) -> bool {
    ||| stage is Schedule
    ||| stage is FetchReady
    ||| stage is RelaySource
    ||| stage is RelayDestination
    ||| stage is FetchScheduled
    ||| stage is RelayScheduled
    ||| stage is RelayAck
}

/// A stage can be answered so: every stage with its own kind of reply or a
/// failure, and a finished run not at all.
pub open spec fn manual_accepts<L>(stage: ManualStage, reply: ManualReply<L>) -> bool {
    match stage {
        ManualStage::Done => false,
        ManualStage::GetTx => reply is Tx || reply is Failed,
        ManualStage::GetLatestBlock => reply is LatestBlock || reply is Failed,
        ManualStage::FetchScheduled(d) => reply is Scheduled || reply is Failed,
        _ => reply is Done || reply is Failed,
    }
}

/// What it means that a stage failed. That the packet's messages could not be
/// scheduled does not end the run: it goes on with what the schedule holds.
pub open spec fn manual_failure(stage: ManualStage) -> Option<ClearError> {
    match stage {
        ManualStage::SpawnChains => Some(ClearError::ChainSpawn),
        ManualStage::CounterpartyConfig => Some(ClearError::CounterpartyConfig),
        ManualStage::ForwardLink => Some(ClearError::ForwardLink),
        ManualStage::ReverseLink => Some(ClearError::ReverseLink),
        ManualStage::SourceConfig => Some(ClearError::NoSourceConfig),
        ManualStage::ConnectTxService => Some(ClearError::Unreachable),
        ManualStage::ConnectBlockService => Some(ClearError::Unreachable),
        ManualStage::GetTx => Some(ClearError::TxQuery),
        ManualStage::GetLatestBlock => Some(ClearError::BlockQuery),
        ManualStage::Schedule(d) => None,
        ManualStage::FetchReady(d) => Some(ClearError::ReadyFetch),
        ManualStage::RelaySource(d) => Some(ClearError::ReadyRelay(d)),
        ManualStage::RelayDestination(d) => Some(ClearError::ReadyRelay(d)),
        ManualStage::FetchScheduled(d) => Some(ClearError::ScheduledFetch),
        ManualStage::RelayScheduled(d) => Some(ClearError::ScheduledRelay),
        ManualStage::RelayAck(d) => Some(ClearError::Relay),
        ManualStage::Done => None,
    }
}

/// The work that follows on a stage whose work is done. `scheduled` says whether a
/// piece of scheduled work was taken, where that is the work.
pub open spec fn manual_next(
    with_counterparty_key: bool,
    stage: ManualStage,
    scheduled: bool,
) -> ManualStage {
    match stage {
        ManualStage::SpawnChains => if with_counterparty_key {
            ManualStage::CounterpartyConfig
        } else {
            ManualStage::ForwardLink
        },
        ManualStage::CounterpartyConfig => ManualStage::ForwardLink,
        ManualStage::ForwardLink => ManualStage::ReverseLink,
        ManualStage::ReverseLink => ManualStage::SourceConfig,
        ManualStage::SourceConfig => ManualStage::ConnectTxService,
        ManualStage::ConnectTxService => ManualStage::ConnectBlockService,
        ManualStage::ConnectBlockService => ManualStage::GetTx,
        ManualStage::GetTx => ManualStage::GetLatestBlock,
        ManualStage::GetLatestBlock => ManualStage::Schedule(Direction::Forward),
        ManualStage::Schedule(d) => ManualStage::FetchReady(d),
        ManualStage::FetchReady(d) => ManualStage::RelaySource(d),
        ManualStage::RelaySource(d) => ManualStage::RelayDestination(d),
        ManualStage::RelayDestination(d) => ManualStage::FetchScheduled(d),
        ManualStage::FetchScheduled(d) => if scheduled {
            ManualStage::RelayScheduled(d)
        } else {
            match d {
                Direction::Forward => ManualStage::Schedule(Direction::Reverse),
                Direction::Reverse => ManualStage::RelayAck(Direction::Forward),
            }
        },
        ManualStage::RelayScheduled(d) => ManualStage::FetchScheduled(d),
        ManualStage::RelayAck(d) => match d {
            Direction::Forward => ManualStage::RelayAck(Direction::Reverse),
            Direction::Reverse => ManualStage::Done,
        },
        ManualStage::Done => ManualStage::Done,
    }
}

/// How a run goes on after a reply.
pub open spec fn manual_step<L>(plan: ManualPlan, state: ManualState, reply: ManualReply<L>) -> Result<
    ManualState,
    ClearError,
> {
    let next = manual_next(
        plan.with_counterparty_key,
        state.stage,
        reply matches ManualReply::Scheduled(taken) && taken,
    );
    match reply {
        ManualReply::Failed(cause) => match manual_failure(state.stage) {
            Some(e) => Err(e),
            None => Ok(ManualState { stage: next, ..state }),
        },
        ManualReply::Tx(None) => Err(ClearError::NoTxResponse),
        ManualReply::Tx(Some(tx)) => Ok(ManualState { stage: next, tx: Some(tx), ..state }),
        ManualReply::LatestBlock(block) => match planned_event(
            plan,
            state.tx->0,
            block,
        ) {
            Ok(event) => Ok(ManualState { stage: next, event: Some(event), ..state }),
            Err(e) => Err(e),
        },
        _ => Ok(ManualState { stage: next, ..state }),
    }
}

/// A run of the command that clears one packet.
pub struct ManualRun {
    with_counterparty_key: bool,
    end: ChannelEnd,
    sequence: u64,
    tx_hash: String,
    stage: ManualStage,
    tx: Option<TxResponse>,
    event: Option<SendPacketEvent>,
}

impl View for ManualRun {
    type V = ManualState;

    closed spec fn view(&self) -> ManualState {
        ManualState {
            stage: self.stage,
            tx: self.tx,
            event: match self.event {
                Some(event) => Some(event@),
                None => None,
            },
        }
    }
}

/// What is told of a run that failed. Where the transaction is missing, its hash is
/// told too.
pub open spec fn manual_failure_text(
    plan: ManualPlan,
    error: ClearError,
    cause: Option<Seq<char>>,
) -> Seq<char> {
    if error == ClearError::NoTxResponse {
        failure_text(error, cause) + " "@ + plan.tx_hash
    } else {
        failure_text(error, cause)
    }
}

/// What is told of a missing transaction ends in its hash; of any other failure the
/// same is told whatever the transaction is.
pub proof fn law_manual_failure_text(
    plan: ManualPlan,
    error: ClearError,
    cause: Option<Seq<char>>,
)
    ensures
        error == ClearError::NoTxResponse ==> plan.tx_hash.is_suffix_of(
            manual_failure_text(plan, error, cause),
        ) && failure_text(error, cause).is_prefix_of(manual_failure_text(plan, error, cause)),
        error != ClearError::NoTxResponse ==> manual_failure_text(plan, error, cause)
            == failure_text(error, cause),
{
}

impl ManualRun {
    #[verifier::type_invariant]
    spec fn well_formed(self) -> bool {
        manual_valid(self@)
    }

    /// What stays the same in the run.
    pub closed spec fn plan(&self) -> ManualPlan {
        ManualPlan {
            with_counterparty_key: self.with_counterparty_key,
            chain_id: self.end@.chain_id,
            port_id: self.end@.port_id,
            channel_id: self.end@.channel_id,
            sequence: self.sequence,
            tx_hash: self.tx_hash@,
        }
    }

    /// Starts a run of the command.
    pub fn new(cmd: &ClearManualCmd) -> (run: ManualRun)
        ensures
            run@ == manual_start(),
            manual_valid(run@),
            run.plan() == (ManualPlan {
                with_counterparty_key: cmd@.counterparty_key_name is Some,
                chain_id: cmd@.chain_id,
                port_id: cmd@.port_id,
                channel_id: cmd@.channel_id,
                sequence: cmd@.packet_sequence,
                tx_hash: cmd@.tx_hash,
            }),
    {
        ManualRun {
            with_counterparty_key: cmd.counterparty_key_name.is_some(),
            end: cmd.channel_end(),
            sequence: cmd.packet_sequence,
            tx_hash: cmd.tx_hash.clone(),
            stage: ManualStage::SpawnChains,
            tx: None,
            event: None,
        }
    }

    /// The work to do now.
    pub fn stage(&self) -> (stage: ManualStage)
        ensures
            stage == self@.stage,
            manual_valid(self@),
    {
        proof {
            use_type_invariant(self);
        }
        self.stage
    }

    /// The end of the channel that the packet was sent from: the chain to start
    /// beside its counterparty, and the port and channel of the forward link.
    pub fn channel_end(&self) -> (end: &ChannelEnd)
        ensures
            end@ == (ChannelEndView {
                chain_id: self.plan().chain_id,
                port_id: self.plan().port_id,
                channel_id: self.plan().channel_id,
            }),
    {
        &self.end
    }

    /// The hash of the transaction to ask for.
    pub fn tx_hash(&self) -> (hash: &str)
        ensures
            hash@ == self.plan().tx_hash,
    {
        self.tx_hash.as_str()
    }

    /// What is told of a failure of the run.
    pub fn failure_text(&self, failure: &Failure<String>) -> (text: String)
        ensures
            text@ == manual_failure_text(self.plan(), failure.error, failure.cause.deep_view()),
    {
        let mut text = failure.text();
        if failure.error == ClearError::NoTxResponse {
            text.append(" ");
            text.append(self.tx_hash.as_str());
        }
        text
    }

    /// The event of the packet, once it is known.
    pub fn event(&self) -> (event: Option<&SendPacketEvent>)
        ensures
            event is Some <==> self@.event is Some,
            event matches Some(e) ==> self@.event == Some(e@),
    {
        self.event.as_ref()
    }

    fn next_stage(&self, scheduled: bool) -> (stage: ManualStage)
        ensures
            stage == manual_next(self.plan().with_counterparty_key, self@.stage, scheduled),
    {
        match self.stage {
            ManualStage::SpawnChains => if self.with_counterparty_key {
                ManualStage::CounterpartyConfig
            } else {
                ManualStage::ForwardLink
            },
            ManualStage::CounterpartyConfig => ManualStage::ForwardLink,
            ManualStage::ForwardLink => ManualStage::ReverseLink,
            ManualStage::ReverseLink => ManualStage::SourceConfig,
            ManualStage::SourceConfig => ManualStage::ConnectTxService,
            ManualStage::ConnectTxService => ManualStage::ConnectBlockService,
            ManualStage::ConnectBlockService => ManualStage::GetTx,
            ManualStage::GetTx => ManualStage::GetLatestBlock,
            ManualStage::GetLatestBlock => ManualStage::Schedule(Direction::Forward),
            ManualStage::Schedule(d) => ManualStage::FetchReady(d),
            ManualStage::FetchReady(d) => ManualStage::RelaySource(d),
            ManualStage::RelaySource(d) => ManualStage::RelayDestination(d),
            ManualStage::RelayDestination(d) => ManualStage::FetchScheduled(d),
            ManualStage::FetchScheduled(d) => if scheduled {
                ManualStage::RelayScheduled(d)
            } else {
                match d {
                    Direction::Forward => ManualStage::Schedule(Direction::Reverse),
                    Direction::Reverse => ManualStage::RelayAck(Direction::Forward),
                }
            },
            ManualStage::RelayScheduled(d) => ManualStage::FetchScheduled(d),
            ManualStage::RelayAck(d) => match d {
                Direction::Forward => ManualStage::RelayAck(Direction::Reverse),
                Direction::Reverse => ManualStage::Done,
            },
            ManualStage::Done => ManualStage::Done,
        }
    }

    fn failure(&self) -> (error: Option<ClearError>)
        ensures
            error == manual_failure(self@.stage),
    {
        match self.stage {
            ManualStage::SpawnChains => Some(ClearError::ChainSpawn),
            ManualStage::CounterpartyConfig => Some(ClearError::CounterpartyConfig),
            ManualStage::ForwardLink => Some(ClearError::ForwardLink),
            ManualStage::ReverseLink => Some(ClearError::ReverseLink),
            ManualStage::SourceConfig => Some(ClearError::NoSourceConfig),
            ManualStage::ConnectTxService => Some(ClearError::Unreachable),
            ManualStage::ConnectBlockService => Some(ClearError::Unreachable),
            ManualStage::GetTx => Some(ClearError::TxQuery),
            ManualStage::GetLatestBlock => Some(ClearError::BlockQuery),
            ManualStage::Schedule(_) => None,
            ManualStage::FetchReady(_) => Some(ClearError::ReadyFetch),
            ManualStage::RelaySource(d) => Some(ClearError::ReadyRelay(d)),
            ManualStage::RelayDestination(d) => Some(ClearError::ReadyRelay(d)),
            ManualStage::FetchScheduled(_) => Some(ClearError::ScheduledFetch),
            ManualStage::RelayScheduled(_) => Some(ClearError::ScheduledRelay),
            ManualStage::RelayAck(_) => Some(ClearError::Relay),
            ManualStage::Done => None,
        }
    }

    /// Goes on after the work of the stage.
    pub fn advance<L>(&mut self, reply: ManualReply<L>) -> (result: Result<(), Failure<L>>)
        requires
            manual_accepts(old(self)@.stage, reply),
        ensures
            manual_valid(final(self)@),
            final(self).plan() == old(self).plan(),
            match manual_step(old(self).plan(), old(self)@, reply) {
                Ok(state) => result is Ok && final(self)@ == state,
                Err(error) => {
                    &&& result is Err
                    &&& result->Err_0.error == error
                    &&& result->Err_0.cause == (match reply {
                        ManualReply::Failed(cause) => Some(cause),
                        _ => None,
                    })
                    &&& final(self)@ == old(self)@
                },
            },
    {
        proof {
            use_type_invariant(&*self);
        }
        match reply {
            ManualReply::Failed(cause) => match self.failure() {
                Some(error) => Err(Failure { error, cause: Some(cause) }),
                None => {
                    self.stage = self.next_stage(false);
                    Ok(())
                },
            },
            ManualReply::Tx(None) => Err(Failure { error: ClearError::NoTxResponse, cause: None }),
            ManualReply::Tx(Some(tx)) => {
                self.tx = Some(tx);
                self.stage = self.next_stage(false);
                Ok(())
            },
            ManualReply::LatestBlock(block) => {
                let found = match &self.tx {
                    Some(tx) => problem_event(
                        &self.end.port_id,
                        &self.end.channel_id,
                        self.sequence,
                        tx,
                        &block,
                    ),
                    None => Err(ClearError::NoTxResponse),
                };
                match found {
                    Ok(event) => {
                        self.event = Some(event);
                        self.stage = self.next_stage(false);
                        Ok(())
                    },
                    Err(error) => Err(Failure { error, cause: None }),
                }
            },
            ManualReply::Scheduled(taken) => {
                self.stage = self.next_stage(taken);
                Ok(())
            },
            ManualReply::Done => {
                self.stage = self.next_stage(false);
                Ok(())
            },
        }
    }
}

/// How a run goes on after a row of replies; none if a stage was answered with what
/// it cannot be answered with.
pub open spec fn manual_after<L>(
    plan: ManualPlan,
    state: ManualState,
    replies: Seq<ManualReply<L>>,
) -> Option<Result<ManualState, ClearError>>
    decreases replies.len(),
{
    if replies.len() == 0 {
        Some(Ok(state))
    } else if !manual_accepts(state.stage, replies[0]) {
        None
    } else {
        match manual_step(plan, state, replies[0]) {
            Ok(next) => manual_after(plan, next, replies.skip(1)),
            Err(e) => Some(Err(e)),
        }
    }
}

/// A run that was answered with `replies` from its start is in `state`.
pub open spec fn manual_reaches<L>(
    plan: ManualPlan,
    replies: Seq<ManualReply<L>>,
    state: ManualState,
) -> bool {
    manual_after(plan, manual_start(), replies) == Some(Ok::<_, ClearError>(state))
}

/// The first reply of a row is taken first.
proof fn lemma_manual_after_first<L>(
    plan: ManualPlan,
    state: ManualState,
    reply: ManualReply<L>,
    rest: Seq<ManualReply<L>>,
)
    requires
        manual_accepts(state.stage, reply),
    ensures
        manual_after(plan, state, seq![reply] + rest) == (match manual_step(plan, state, reply) {
            Ok(next) => manual_after(plan, next, rest),
            Err(e) => Some(Err(e)),
        }),
{
    assert((seq![reply] + rest).skip(1) =~= rest);
}

/// Replies in two rows have the effect of one row after the other.
proof fn lemma_manual_after_split<L>(
    plan: ManualPlan,
    state: ManualState,
    first: Seq<ManualReply<L>>,
    second: Seq<ManualReply<L>>,
)
    requires
        manual_after(plan, state, first) matches Some(Ok(_)),
    ensures
        manual_after(plan, state, first + second) == manual_after(
            plan,
            manual_after(plan, state, first)->0->Ok_0,
            second,
        ),
    decreases first.len(),
{
    if first.len() == 0 {
        assert(first + second =~= second);
    } else {
        let next = manual_step(plan, state, first[0])->Ok_0;
        lemma_manual_after_split(plan, next, first.skip(1), second);
        assert((first + second).skip(1) =~= first.skip(1) + second);
        assert((first + second)[0] == first[0]);
    }
}

/// The last reply of a row is taken last.
proof fn lemma_manual_last<L>(plan: ManualPlan, from: ManualState, replies: Seq<ManualReply<L>>)
    requires
        replies.len() > 0,
        manual_after(plan, from, replies) matches Some(Ok(_)),
    ensures
        manual_after(plan, from, replies.drop_last()) matches Some(Ok(before)) && {
            &&& manual_accepts(before.stage, replies.last())
            &&& manual_after(plan, from, replies) == Some(
                manual_step(plan, before, replies.last()),
            )
        },
    decreases replies.len(),
{
    let next = manual_step(plan, from, replies[0])->Ok_0;
    if replies.len() > 1 {
        lemma_manual_last(plan, next, replies.skip(1));
        assert(replies.drop_last().skip(1) =~= replies.skip(1).drop_last());
        assert(replies.drop_last()[0] == replies[0]);
    } else {
        assert(replies.skip(1) =~= Seq::empty());
        assert(manual_after(plan, next, replies.skip(1)) == Some(Ok::<_, ClearError>(next)));
    }
}

/// How many stages are left before the run is done, if no scheduled work is left.
pub open spec fn manual_rank(stage: ManualStage) -> nat {
    match stage {
        ManualStage::SpawnChains => 21,
        ManualStage::CounterpartyConfig => 20,
        ManualStage::ForwardLink => 19,
        ManualStage::ReverseLink => 18,
        ManualStage::SourceConfig => 17,
        ManualStage::ConnectTxService => 16,
        ManualStage::ConnectBlockService => 15,
        ManualStage::GetTx => 14,
        ManualStage::GetLatestBlock => 13,
        ManualStage::Schedule(d) => 7 + direction_rank(d),
        ManualStage::FetchReady(d) => 6 + direction_rank(d),
        ManualStage::RelaySource(d) => 5 + direction_rank(d),
        ManualStage::RelayDestination(d) => 4 + direction_rank(d),
        ManualStage::FetchScheduled(d) => 3 + direction_rank(d),
        ManualStage::RelayScheduled(d) => 3 + direction_rank(d),
        ManualStage::RelayAck(d) => match d {
            Direction::Forward => 2,
            Direction::Reverse => 1,
        },
        ManualStage::Done => 0,
    }
}

/// The stages of the reverse direction come after those of the forward one.
pub open spec fn direction_rank(direction: Direction) -> nat {
    match direction {
        Direction::Forward => 5,
        Direction::Reverse => 0,
    }
}

/// The run is taking scheduled work and relaying it, piece by piece.
pub open spec fn is_draining<L>(stage: ManualStage, reply: ManualReply<L>) -> bool {
    ||| stage is RelayScheduled
    ||| stage is FetchScheduled && reply == ManualReply::<L>::Scheduled(true)
}

/// A run never goes back: every reply that does not end it brings it closer to its
/// end, but for the pieces of scheduled work, which it takes and relays one by one
/// without moving. So the forward direction is finished before the reverse one is
/// begun.
pub proof fn law_manual_progress<L>(plan: ManualPlan, state: ManualState, reply: ManualReply<L>)
    requires
        manual_valid(state),
        manual_accepts(state.stage, reply),
    ensures
        manual_step(plan, state, reply) matches Ok(next) ==> {
            &&& manual_valid(next)
            &&& if is_draining(state.stage, reply) {
                manual_rank(next.stage) == manual_rank(state.stage)
            } else {
                manual_rank(next.stage) < manual_rank(state.stage)
            }
        },
{
}

/// The counterparty chain's configuration is changed if and only if the command
/// names a key for that chain, and then right after the chains are started.
pub proof fn law_manual_counterparty_config<L>(
    plan: ManualPlan,
    state: ManualState,
    reply: ManualReply<L>,
)
    requires
        manual_accepts(state.stage, reply),
    ensures
        manual_step(plan, state, reply) matches Ok(next) ==> (next.stage
            == ManualStage::CounterpartyConfig <==> plan.with_counterparty_key && state.stage
            == ManualStage::SpawnChains),
{
}

/// Every stage is reached from the one before it, after that one's work succeeded, and
/// from no other: none is passed over. The ready work that was taken is relayed to the
/// source and then to the destination before scheduled work is waited for, and every
/// piece of scheduled work that was taken is relayed before the next one. A stage whose
/// work succeeded does not end the run, but for a query that brought no transaction or
/// not the packet.
pub proof fn law_manual_order<L>(plan: ManualPlan, state: ManualState, reply: ManualReply<L>)
    requires
        manual_accepts(state.stage, reply),
    ensures
        reply !is Failed && reply !is LatestBlock && reply != ManualReply::<L>::Tx(None)
            ==> manual_step(plan, state, reply) is Ok,
        manual_step(plan, state, reply) matches Ok(next) ==> match next.stage {
            ManualStage::SpawnChains => false,
            ManualStage::CounterpartyConfig => reply is Done && state.stage
                == ManualStage::SpawnChains && plan.with_counterparty_key,
            ManualStage::ForwardLink => reply is Done && {
                ||| state.stage == ManualStage::CounterpartyConfig
                ||| state.stage == ManualStage::SpawnChains && !plan.with_counterparty_key
            },
            ManualStage::ReverseLink => reply is Done && state.stage == ManualStage::ForwardLink,
            ManualStage::SourceConfig => reply is Done && state.stage == ManualStage::ReverseLink,
            ManualStage::ConnectTxService => reply is Done && state.stage
                == ManualStage::SourceConfig,
            ManualStage::ConnectBlockService => reply is Done && state.stage
                == ManualStage::ConnectTxService,
            ManualStage::GetTx => reply is Done && state.stage == ManualStage::ConnectBlockService,
            ManualStage::GetLatestBlock => reply is Tx && state.stage == ManualStage::GetTx,
            ManualStage::Schedule(Direction::Forward) => reply is LatestBlock && state.stage
                == ManualStage::GetLatestBlock,
            ManualStage::Schedule(Direction::Reverse) => reply == ManualReply::<L>::Scheduled(false)
                && state.stage == ManualStage::FetchScheduled(Direction::Forward),
            ManualStage::FetchReady(d) => state.stage == ManualStage::Schedule(d),
            ManualStage::RelaySource(d) => reply is Done && state.stage
                == ManualStage::FetchReady(d),
            ManualStage::RelayDestination(d) => reply is Done && state.stage
                == ManualStage::RelaySource(d),
            ManualStage::FetchScheduled(d) => reply is Done && {
                ||| state.stage == ManualStage::RelayDestination(d)
                ||| state.stage == ManualStage::RelayScheduled(d)
            },
            ManualStage::RelayScheduled(d) => reply == ManualReply::<L>::Scheduled(true)
                && state.stage == ManualStage::FetchScheduled(d),
            ManualStage::RelayAck(Direction::Forward) => reply == ManualReply::<L>::Scheduled(false)
                && state.stage == ManualStage::FetchScheduled(Direction::Reverse),
            ManualStage::RelayAck(Direction::Reverse) => reply is Done && state.stage
                == ManualStage::RelayAck(Direction::Forward),
            ManualStage::Done => reply is Done && state.stage == ManualStage::RelayAck(
                Direction::Reverse,
            ),
        },
{
}

/// Every stage but the last can fail. Only a failed scheduling lets the run go on; any
/// other failure ends it, and the error tells what failed.
pub proof fn law_manual_error<L>(plan: ManualPlan, state: ManualState, cause: L)
    requires
        state.stage != ManualStage::Done,
    ensures
        manual_accepts(state.stage, ManualReply::Failed(cause)),
        manual_step(plan, state, ManualReply::Failed(cause)) is Ok <==> state.stage is Schedule,
        manual_step(plan, state, ManualReply::Failed(cause)) matches Err(e) ==> {
            &&& e == ClearError::ChainSpawn <==> state.stage == ManualStage::SpawnChains
            &&& e == ClearError::CounterpartyConfig <==> state.stage
                == ManualStage::CounterpartyConfig
            &&& e == ClearError::ForwardLink <==> state.stage == ManualStage::ForwardLink
            &&& e == ClearError::ReverseLink <==> state.stage == ManualStage::ReverseLink
            &&& e == ClearError::NoSourceConfig <==> state.stage == ManualStage::SourceConfig
            &&& e == ClearError::Unreachable <==> state.stage == ManualStage::ConnectTxService
                || state.stage == ManualStage::ConnectBlockService
            &&& e == ClearError::TxQuery <==> state.stage == ManualStage::GetTx
            &&& e == ClearError::BlockQuery <==> state.stage == ManualStage::GetLatestBlock
            &&& e == ClearError::ReadyFetch <==> state.stage is FetchReady
            &&& e is ReadyRelay <==> state.stage is RelaySource || state.stage is RelayDestination
            &&& e matches ClearError::ReadyRelay(d) ==> {
                ||| state.stage == ManualStage::RelaySource(d)
                ||| state.stage == ManualStage::RelayDestination(d)
            }
            &&& e == ClearError::ScheduledFetch <==> state.stage is FetchScheduled
            &&& e == ClearError::ScheduledRelay <==> state.stage is RelayScheduled
            &&& e == ClearError::Relay <==> state.stage is RelayAck
        },
{
}

/// A run holds the transaction that was replied, and learns the packet's event from it
/// and the latest block alone; no other reply changes either.
pub proof fn law_manual_keeps<L>(plan: ManualPlan, state: ManualState, reply: ManualReply<L>)
    requires
        manual_valid(state),
        manual_accepts(state.stage, reply),
    ensures
        manual_step(plan, state, reply) matches Ok(next) ==> {
            &&& next.tx == (match reply {
                ManualReply::Tx(tx) => tx,
                _ => state.tx,
            })
            &&& reply !is LatestBlock ==> next.event == state.event
        },
        reply == ManualReply::<L>::Tx(None) ==> manual_step(plan, state, reply) == Err::<
            ManualState,
            _,
        >(ClearError::NoTxResponse),
{
}

/// The answer to the query for the latest block leads to the relaying if and only if the
/// transaction sent the packet of the plan, and the event that is then relayed is what
/// it sent, in every field.
pub proof fn law_manual_found<L>(
    plan: ManualPlan,
    state: ManualState,
    latest_block: Option<Block>,
    event: SendPacketView,
)
    requires
        state.stage == ManualStage::GetLatestBlock,
        manual_valid(state),
    ensures
        ({
            let step = manual_step(plan, state, ManualReply::<L>::LatestBlock(latest_block));
            &&& step is Ok && step->Ok_0.event == Some(event) <==> is_sent_event(
                plan.port_id,
                plan.channel_id,
                plan.sequence,
                state.tx->0,
                latest_block,
                event,
            )
            &&& step is Ok ==> step->Ok_0.event is Some
            &&& step matches Err(e) ==> problem_event_of(
                plan.port_id,
                plan.channel_id,
                plan.sequence,
                state.tx->0,
                latest_block,
            ) == Err::<SendPacketView, _>(e)
        }),
{
    law_problem_event_exact(
        plan.port_id,
        plan.channel_id,
        plan.sequence,
        state.tx->0,
        latest_block,
        event,
    );
}

/// The queries of a run were answered with a transaction and a latest block by which
/// the event is what the transaction sent.
pub open spec fn was_told<L>(
    plan: ManualPlan,
    replies: Seq<ManualReply<L>>,
    event: SendPacketView,
) -> bool {
    exists|i: int, j: int, tx: TxResponse, latest_block: Option<Block>|
        {
            &&& 0 <= i < replies.len()
            &&& 0 <= j < replies.len()
            &&& replies[i] == ManualReply::<L>::Tx(Some(tx))
            &&& replies[j] == ManualReply::<L>::LatestBlock(latest_block)
            &&& #[trigger] told_by(plan, tx, latest_block, event, i, j)
        }
}

/// The event is what the transaction sent, as the replies at `i` and `j` tell it.
pub open spec fn told_by(
    plan: ManualPlan,
    tx: TxResponse,
    latest_block: Option<Block>,
    event: SendPacketView,
    i: int,
    j: int,
) -> bool {
    is_sent_event(plan.port_id, plan.channel_id, plan.sequence, tx, latest_block, event)
}

/// The packet that a run relays, in both directions, is the packet that the command
/// names as the transaction that was replied sent it, in every field and at the height
/// of its event.
pub proof fn law_manual_relays_sent_packet<L>(
    plan: ManualPlan,
    replies: Seq<ManualReply<L>>,
    state: ManualState,
)
    requires
        manual_reaches(plan, replies, state),
    ensures
        manual_valid(state),
        is_relay_stage(state.stage) || state.stage == ManualStage::Done ==> state.event is Some,
        state.tx matches Some(tx) ==> replies.contains(ManualReply::Tx(Some(tx))),
        state.event matches Some(event) ==> was_told(plan, replies, event),
    decreases replies.len(),
{
    if replies.len() > 0 {
        let front = replies.drop_last();
        let last = replies.last();
        lemma_manual_last(plan, manual_start(), replies);
        let before = manual_after(plan, manual_start(), front)->0->Ok_0;
        law_manual_relays_sent_packet(plan, front, before);
        law_manual_progress(plan, before, last);
        law_manual_order(plan, before, last);
        law_manual_keeps(plan, before, last);
        assert(replies[replies.len() - 1] == last);
        if let Some(tx) = before.tx {
            let i = front.index_of(ManualReply::Tx(Some(tx)));
            assert(replies[i] == front[i]);
        }
        match last {
            ManualReply::LatestBlock(latest_block) => {
                let event = state.event->0;
                law_manual_found::<L>(plan, before, latest_block, event);
                let tx = before.tx->0;
                let i = front.index_of(ManualReply::Tx(Some(tx)));
                let j = replies.len() - 1;
                assert(replies[i] == ManualReply::<L>::Tx(Some(tx)));
                assert(told_by(plan, tx, latest_block, event, i, j));
            },
            _ => {
                if let Some(event) = before.event {
                    let (i, j, tx, latest_block): (int, int, TxResponse, Option<Block>) = choose|
                        i: int,
                        j: int,
                        tx: TxResponse,
                        latest_block: Option<Block>,
                    |
                        {
                            &&& 0 <= i < front.len()
                            &&& 0 <= j < front.len()
                            &&& front[i] == ManualReply::<L>::Tx(Some(tx))
                            &&& front[j] == ManualReply::<L>::LatestBlock(latest_block)
                            &&& #[trigger] told_by(plan, tx, latest_block, event, i, j)
                        };
                    assert(replies[i] == front[i] && replies[j] == front[j]);
                    assert(told_by(plan, tx, latest_block, event, i, j));
                }
            },
        }
    }
}

/// The reply says that the work of the stage is done: the last piece of scheduled work
/// has been taken, the transaction was found, and so on. The scheduling may have failed.
pub open spec fn completes<L>(stage: ManualStage, reply: ManualReply<L>) -> bool {
    match stage {
        ManualStage::Schedule(_) => reply is Done || reply is Failed,
        ManualStage::FetchScheduled(_) => reply == ManualReply::<L>::Scheduled(false),
        ManualStage::GetTx => reply matches ManualReply::Tx(Some(_)),
        ManualStage::GetLatestBlock => reply is LatestBlock,
        _ => reply is Done,
    }
}

/// The run was at the stage and completed its work.
pub open spec fn manual_did<L>(
    plan: ManualPlan,
    replies: Seq<ManualReply<L>>,
    stage: ManualStage,
) -> bool {
    exists|k: int, state: ManualState|
        {
            &&& 0 <= k < replies.len()
            &&& #[trigger] manual_reaches(plan, replies.take(k), state)
            &&& state.stage == stage
            &&& completes(stage, replies[k])
        }
}

/// A step that does not take or relay a piece of scheduled work completes the work of
/// its stage, and leads to the next stage.
proof fn lemma_manual_rank_step<L>(plan: ManualPlan, state: ManualState, reply: ManualReply<L>)
    requires
        manual_accepts(state.stage, reply),
        manual_step(plan, state, reply) is Ok,
        !is_draining(state.stage, reply),
    ensures
        completes(state.stage, reply),
        ({
            let next = manual_step(plan, state, reply)->Ok_0;
            ||| manual_rank(state.stage) == manual_rank(next.stage) + 1
            ||| state.stage == ManualStage::SpawnChains && !plan.with_counterparty_key
                && next.stage == ManualStage::ForwardLink
        }),
{
}

/// Different stages are at different distances from the end, but for the two between
/// which scheduled work is taken and relayed.
proof fn lemma_manual_rank_tells(a: ManualStage, b: ManualStage)
    requires
        manual_rank(a) == manual_rank(b),
        a !is RelayScheduled,
        b !is RelayScheduled,
    ensures
        a == b,
{
    match a {
        ManualStage::SpawnChains => {},
        ManualStage::CounterpartyConfig => {},
        ManualStage::ForwardLink => {},
        ManualStage::ReverseLink => {},
        ManualStage::SourceConfig => {},
        ManualStage::ConnectTxService => {},
        ManualStage::ConnectBlockService => {},
        ManualStage::GetTx => {},
        ManualStage::GetLatestBlock => {},
        ManualStage::Schedule(d) => {},
        ManualStage::FetchReady(d) => {},
        ManualStage::RelaySource(d) => {},
        ManualStage::RelayDestination(d) => {},
        ManualStage::FetchScheduled(d) => {},
        ManualStage::RelayScheduled(d) => {},
        ManualStage::RelayAck(d) => {},
        ManualStage::Done => {},
    }
}

/// A step completes the work of the stage that it leaves behind.
proof fn lemma_manual_completes<L>(
    plan: ManualPlan,
    state: ManualState,
    reply: ManualReply<L>,
    stage: ManualStage,
)
    requires
        manual_accepts(state.stage, reply),
        manual_step(plan, state, reply) matches Ok(next) && manual_rank(stage) > manual_rank(
            next.stage,
        ),
        stage == ManualStage::CounterpartyConfig ==> plan.with_counterparty_key,
        stage !is RelayScheduled,
    ensures
        manual_rank(stage) > manual_rank(state.stage) || (state.stage == stage && completes(
            stage,
            reply,
        )),
{
    let next = manual_step(plan, state, reply)->Ok_0;
    if is_draining(state.stage, reply) {
        assert(manual_rank(next.stage) == manual_rank(state.stage));
    } else {
        lemma_manual_rank_step(plan, state, reply);
        if manual_rank(stage) == manual_rank(ManualStage::CounterpartyConfig) {
            lemma_manual_rank_tells(stage, ManualStage::CounterpartyConfig);
        }
        if manual_rank(stage) == manual_rank(state.stage) {
            lemma_manual_rank_tells(stage, state.stage);
        }
    }
}

/// A run has completed the work of all stages before the one that it is at.
proof fn lemma_manual_did<L>(
    plan: ManualPlan,
    replies: Seq<ManualReply<L>>,
    state: ManualState,
    stage: ManualStage,
)
    requires
        manual_reaches(plan, replies, state),
        manual_rank(stage) > manual_rank(state.stage),
        stage == ManualStage::CounterpartyConfig ==> plan.with_counterparty_key,
        stage !is RelayScheduled,
    ensures
        manual_did(plan, replies, stage),
    decreases replies.len(),
{
    assert(replies.len() > 0);
    let front = replies.drop_last();
    lemma_manual_last(plan, manual_start(), replies);
    let before = manual_after(plan, manual_start(), front)->0->Ok_0;
    lemma_manual_completes(plan, before, replies.last(), stage);
    if manual_rank(stage) <= manual_rank(before.stage) {
        assert(replies.take(replies.len() - 1) =~= front);
        assert(manual_reaches(plan, replies.take(replies.len() - 1), before));
        assert(replies[replies.len() - 1] == replies.last());
    } else {
        lemma_manual_did(plan, front, before, stage);
        let (k, at): (int, ManualState) = choose|k: int, at: ManualState|
            {
                &&& 0 <= k < front.len()
                &&& #[trigger] manual_reaches(plan, front.take(k), at)
                &&& at.stage == stage
                &&& completes(stage, front[k])
            };
        assert(front.take(k) =~= replies.take(k));
        assert(manual_reaches(plan, replies.take(k), at));
    }
}

/// In one direction a run has scheduled the packet, taken the ready work, relayed it to
/// the source and to the destination, and taken scheduled work until none was left.
pub open spec fn manual_did_direction<L>(
    plan: ManualPlan,
    replies: Seq<ManualReply<L>>,
    d: Direction,
) -> bool {
    &&& manual_did(plan, replies, ManualStage::Schedule(d))
    &&& manual_did(plan, replies, ManualStage::FetchReady(d))
    &&& manual_did(plan, replies, ManualStage::RelaySource(d))
    &&& manual_did(plan, replies, ManualStage::RelayDestination(d))
    &&& manual_did(plan, replies, ManualStage::FetchScheduled(d))
}

proof fn lemma_manual_did_direction<L>(
    plan: ManualPlan,
    replies: Seq<ManualReply<L>>,
    state: ManualState,
    d: Direction,
)
    requires
        manual_reaches(plan, replies, state),
        state.stage == ManualStage::Done,
    ensures
        manual_did_direction(plan, replies, d),
{
    lemma_manual_did(plan, replies, state, ManualStage::Schedule(d));
    lemma_manual_did(plan, replies, state, ManualStage::FetchReady(d));
    lemma_manual_did(plan, replies, state, ManualStage::RelaySource(d));
    lemma_manual_did(plan, replies, state, ManualStage::RelayDestination(d));
    lemma_manual_did(plan, replies, state, ManualStage::FetchScheduled(d));
}

/// A run is done only after it has completed everything: the preparation, with the
/// counterparty's key if one is named, the queries for the transaction and the latest
/// block, the relaying of the packet in both directions, and that of the
/// acknowledgements in both directions.
pub proof fn law_manual_done<L>(
    plan: ManualPlan,
    replies: Seq<ManualReply<L>>,
    state: ManualState,
)
    requires
        manual_reaches(plan, replies, state),
        state.stage == ManualStage::Done,
    ensures
        manual_did(plan, replies, ManualStage::SpawnChains),
        plan.with_counterparty_key ==> manual_did(plan, replies, ManualStage::CounterpartyConfig),
        manual_did(plan, replies, ManualStage::ForwardLink),
        manual_did(plan, replies, ManualStage::ReverseLink),
        manual_did(plan, replies, ManualStage::SourceConfig),
        manual_did(plan, replies, ManualStage::ConnectTxService),
        manual_did(plan, replies, ManualStage::ConnectBlockService),
        manual_did(plan, replies, ManualStage::GetTx),
        manual_did(plan, replies, ManualStage::GetLatestBlock),
        manual_did_direction(plan, replies, Direction::Forward),
        manual_did_direction(plan, replies, Direction::Reverse),
        manual_did(plan, replies, ManualStage::RelayAck(Direction::Forward)),
        manual_did(plan, replies, ManualStage::RelayAck(Direction::Reverse)),
{
    lemma_manual_did(plan, replies, state, ManualStage::SpawnChains);
    if plan.with_counterparty_key {
        lemma_manual_did(plan, replies, state, ManualStage::CounterpartyConfig);
    }
    lemma_manual_did(plan, replies, state, ManualStage::ForwardLink);
    lemma_manual_did(plan, replies, state, ManualStage::ReverseLink);
    lemma_manual_did(plan, replies, state, ManualStage::SourceConfig);
    lemma_manual_did(plan, replies, state, ManualStage::ConnectTxService);
    lemma_manual_did(plan, replies, state, ManualStage::ConnectBlockService);
    lemma_manual_did(plan, replies, state, ManualStage::GetTx);
    lemma_manual_did(plan, replies, state, ManualStage::GetLatestBlock);
    lemma_manual_did_direction(plan, replies, state, Direction::Forward);
    lemma_manual_did_direction(plan, replies, state, Direction::Reverse);
    lemma_manual_did(plan, replies, state, ManualStage::RelayAck(Direction::Forward));
    lemma_manual_did(plan, replies, state, ManualStage::RelayAck(Direction::Reverse));
}

/// A run is done only once the pending acknowledgements have been relayed, forward
/// and then back, and they are relayed only once no scheduled work is left.
pub proof fn law_manual_acks<L>(plan: ManualPlan, state: ManualState, reply: ManualReply<L>)
    requires
        manual_valid(state),
        manual_accepts(state.stage, reply),
    ensures
        manual_step(plan, state, reply) matches Ok(next) ==> {
            &&& next.stage is Done ==> state.stage == ManualStage::RelayAck(Direction::Reverse)
                && reply is Done
            &&& next.stage == ManualStage::RelayAck(Direction::Reverse) ==> state.stage
                == ManualStage::RelayAck(Direction::Forward) && reply is Done
            &&& next.stage == ManualStage::RelayAck(Direction::Forward) ==> state.stage
                == ManualStage::FetchScheduled(Direction::Reverse) && reply
                == ManualReply::<L>::Scheduled(false)
        },
{
}

/// In every run the packet that is relayed is the one that the command names.
pub proof fn law_manual_planned_packet<L>(
    plan: ManualPlan,
    state: ManualState,
    reply: ManualReply<L>,
)
    ensures
        holds_planned_packet(plan, manual_start()),
        holds_planned_packet(plan, state) ==> (manual_step(plan, state, reply) matches Ok(next)
            ==> holds_planned_packet(plan, next)),
{
    if let ManualReply::LatestBlock(block) = reply {
        law_problem_event_sequence(
            plan.port_id,
            plan.channel_id,
            plan.sequence,
            state.tx->0,
            block,
        );
    }
}

/// While the packet is relayed, in both directions, its event stays the same.
pub proof fn law_manual_same_event<L>(plan: ManualPlan, state: ManualState, reply: ManualReply<L>)
    requires
        is_relay_stage(state.stage),
        manual_accepts(state.stage, reply),
    ensures
        manual_step(plan, state, reply) matches Ok(next) ==> next.event == state.event,
{
}

/// The replies to a preparation that goes well.
pub open spec fn manual_prepared<L>(with_counterparty_key: bool) -> Seq<ManualReply<L>> {
    Seq::new(
        if with_counterparty_key {
            7
        } else {
            6
        },
        |i: int| ManualReply::Done,
    )
}

/// The replies to taking and relaying `n` pieces of scheduled work, and finding
/// none left.
pub open spec fn drained<L>(n: nat) -> Seq<ManualReply<L>>
    decreases n,
{
    if n == 0 {
        seq![ManualReply::Scheduled(false)]
    } else {
        seq![ManualReply::Scheduled(true), ManualReply::Done] + drained((n - 1) as nat)
    }
}

/// The replies to relaying the packet in one direction, with `n` pieces of work
/// that had to be waited for. `scheduled` is the reply to the scheduling.
pub open spec fn relayed<L>(scheduled: ManualReply<L>, n: nat) -> Seq<ManualReply<L>> {
    seq![scheduled, ManualReply::Done, ManualReply::Done, ManualReply::Done] + drained(n)
}

/// All scheduled work of a direction is relayed before the run leaves it.
proof fn lemma_drained<L>(plan: ManualPlan, state: ManualState, d: Direction, n: nat)
    requires
        state.stage == ManualStage::FetchScheduled(d),
    ensures
        manual_after(plan, state, drained::<L>(n)) == Some(
            Ok::<_, ClearError>(
                ManualState {
                    stage: manual_next(plan.with_counterparty_key, state.stage, false),
                    ..state
                },
            ),
        ),
    decreases n,
{
    if n == 0 {
        lemma_manual_after_first::<L>(
            plan,
            state,
            ManualReply::Scheduled(false),
            Seq::empty(),
        );
        assert(drained::<L>(n) =~= seq![ManualReply::Scheduled(false)] + Seq::empty());
    } else {
        let rest = drained::<L>((n - 1) as nat);
        let relaying = ManualState { stage: ManualStage::RelayScheduled(d), ..state };
        lemma_drained::<L>(plan, state, d, (n - 1) as nat);
        lemma_manual_after_first(plan, relaying, ManualReply::Done, rest);
        lemma_manual_after_first(
            plan,
            state,
            ManualReply::Scheduled(true),
            seq![ManualReply::Done] + rest,
        );
        assert(drained::<L>(n) =~= seq![ManualReply::Scheduled(true)] + (seq![ManualReply::Done]
            + rest));
    }
}

/// In each direction the run schedules the packet, relays what is ready, and then
/// relays all scheduled work, however much there is and whether or not the
/// scheduling succeeded.
pub proof fn law_manual_direction<L>(
    plan: ManualPlan,
    state: ManualState,
    d: Direction,
    scheduled: ManualReply<L>,
    n: nat,
)
    requires
        state.stage == ManualStage::Schedule(d),
        manual_accepts(state.stage, scheduled),
    ensures
        manual_after(plan, state, relayed(scheduled, n)) == Some(
            Ok::<_, ClearError>(
                ManualState {
                    stage: match d {
                        Direction::Forward => ManualStage::Schedule(Direction::Reverse),
                        Direction::Reverse => ManualStage::RelayAck(Direction::Forward),
                    },
                    ..state
                },
            ),
        ),
{
    let one = seq![ManualReply::<L>::Done] + drained(n);
    let two = seq![ManualReply::<L>::Done] + one;
    let three = seq![ManualReply::<L>::Done] + two;
    let ready = ManualState { stage: ManualStage::FetchReady(d), ..state };
    let source = ManualState { stage: ManualStage::RelaySource(d), ..state };
    let destination = ManualState { stage: ManualStage::RelayDestination(d), ..state };
    let fetching = ManualState { stage: ManualStage::FetchScheduled(d), ..state };
    lemma_drained::<L>(plan, fetching, d, n);
    lemma_manual_after_first::<L>(plan, destination, ManualReply::Done, drained(n));
    lemma_manual_after_first(plan, source, ManualReply::Done, one);
    lemma_manual_after_first(plan, ready, ManualReply::Done, two);
    lemma_manual_after_first(plan, state, scheduled, three);
    assert(relayed(scheduled, n) =~= seq![scheduled] + three);
}

/// A preparation that goes well leads to the query for the transaction.
proof fn lemma_manual_prepared<L>(plan: ManualPlan)
    ensures
        manual_after(
            plan,
            manual_start(),
            manual_prepared::<L>(plan.with_counterparty_key),
        ) == Some(
            Ok::<_, ClearError>(
                ManualState { stage: ManualStage::GetTx, tx: None, event: None },
            ),
        ),
{
    reveal_with_fuel(manual_after, 8);
}

/// The transaction and the latest block lead to the relaying.
proof fn lemma_manual_found<L>(plan: ManualPlan, tx: TxResponse, latest_block: Option<Block>)
    requires
        planned_event(plan, tx, latest_block) is Ok,
    ensures
        manual_after(
            plan,
            ManualState { stage: ManualStage::GetTx, tx: None, event: None },
            seq![ManualReply::<L>::Tx(Some(tx)), ManualReply::LatestBlock(latest_block)],
        ) == Some(
            Ok::<_, ClearError>(
                ManualState {
                    stage: ManualStage::Schedule(Direction::Forward),
                    tx: Some(tx),
                    event: Some(planned_event(plan, tx, latest_block)->Ok_0),
                },
            ),
        ),
{
    reveal_with_fuel(manual_after, 3);
}

/// The acknowledgements of both directions are the last work of a run.
proof fn lemma_manual_acks<L>(plan: ManualPlan, state: ManualState)
    requires
        state.stage == ManualStage::RelayAck(Direction::Forward),
    ensures
        manual_after(plan, state, seq![ManualReply::<L>::Done, ManualReply::Done]) == Some(
            Ok::<_, ClearError>(ManualState { stage: ManualStage::Done, ..state }),
        ),
{
    reveal_with_fuel(manual_after, 3);
}

/// A run whose work goes well, and whose transaction sent the packet, relays the
/// packet's event forward and then back, then the pending acknowledgements forward
/// and back, and is then done.
pub proof fn law_manual_run<L>(
    plan: ManualPlan,
    tx: TxResponse,
    latest_block: Option<Block>,
    forward: ManualReply<L>,
    forward_pieces: nat,
    reverse: ManualReply<L>,
    reverse_pieces: nat,
)
    requires
        planned_event(plan, tx, latest_block) is Ok,
        forward is Done || forward is Failed,
        reverse is Done || reverse is Failed,
    ensures
        manual_after(
            plan,
            manual_start(),
            manual_prepared(plan.with_counterparty_key) + seq![
                ManualReply::Tx(Some(tx)),
                ManualReply::LatestBlock(latest_block),
            ] + relayed(forward, forward_pieces) + relayed(reverse, reverse_pieces) + seq![
                ManualReply::Done,
                ManualReply::Done,
            ],
        ) == Some(
            Ok::<_, ClearError>(
                ManualState {
                    stage: ManualStage::Done,
                    tx: Some(tx),
                    event: Some(planned_event(plan, tx, latest_block)->Ok_0),
                },
            ),
        ),
{
    let prepared = manual_prepared::<L>(plan.with_counterparty_key);
    let replies = seq![ManualReply::Tx(Some(tx)), ManualReply::LatestBlock(latest_block)];
    let found = ManualState {
        stage: ManualStage::Schedule(Direction::Forward),
        tx: Some(tx),
        event: Some(planned_event(plan, tx, latest_block)->Ok_0),
    };
    lemma_manual_prepared::<L>(plan);
    lemma_manual_found::<L>(plan, tx, latest_block);
    lemma_manual_after_split(plan, manual_start(), prepared, replies);
    law_manual_direction(plan, found, Direction::Forward, forward, forward_pieces);
    lemma_manual_after_split(
        plan,
        manual_start(),
        prepared + replies,
        relayed(forward, forward_pieces),
    );
    let back = ManualState { stage: ManualStage::Schedule(Direction::Reverse), ..found };
    law_manual_direction(plan, back, Direction::Reverse, reverse, reverse_pieces);
    lemma_manual_after_split(
        plan,
        manual_start(),
        prepared + replies + relayed(forward, forward_pieces),
        relayed(reverse, reverse_pieces),
    );
    let acks = ManualState { stage: ManualStage::RelayAck(Direction::Forward), ..found };
    lemma_manual_acks::<L>(plan, acks);
    lemma_manual_after_split(
        plan,
        manual_start(),
        prepared + replies + relayed(forward, forward_pieces) + relayed(reverse, reverse_pieces),
        seq![ManualReply::Done, ManualReply::Done],
    );
}

/// A run whose transaction sent the packet relays it as it was sent: after the answers
/// to its queries, and at every later moment, it holds the event with the packet that
/// the transaction's event writes, in every field, and with that event's height.
pub proof fn law_sent_packet_relayed<L>(
    plan: ManualPlan,
    tx: TxResponse,
    block: Block,
    n: int,
    packet: PacketView,
    data: Seq<char>,
    chain_name: Seq<char>,
    revision: u64,
    rest: Seq<ManualReply<L>>,
)
    requires
        plan.port_id == packet.source_port,
        plan.channel_id == packet.source_channel,
        plan.sequence == packet.sequence,
        tx.height > 0,
        block.header matches Some(header) && header.chain_id@ == chain_name + seq![DASH]
            + decimal_digits(revision as nat),
        0 <= n < tx.events@.len(),
        sent_packet(tx.events@[n]),
        forall|i: int|
            0 <= i < tx.events@.len() && sent_packet(#[trigger] tx.events@[i]) ==> attributes_of(
                tx.events@[i].attributes@,
            ) is Ok,
        forall|i: int|
            n < i < tx.events@.len() && sent_packet(#[trigger] tx.events@[i])
                ==> names_other_packet(
                attributes_of(tx.events@[i].attributes@)->Ok_0,
                packet.source_port,
                packet.source_channel,
                packet.sequence,
            ),
        writes_packet(attributes_of(tx.events@[n].attributes@)->Ok_0, packet, data),
        valid_port_id(packet.source_port),
        valid_channel_id(packet.source_channel),
        valid_port_id(packet.destination_port),
        valid_channel_id(packet.destination_channel),
        packet.timeout_height.valid(),
    ensures
        ({
            let queried = manual_prepared::<L>(plan.with_counterparty_key) + seq![
                ManualReply::Tx(Some(tx)),
                ManualReply::LatestBlock(Some(block)),
            ];
            let event = SendPacketView {
                packet,
                height: Height { revision_number: revision, revision_height: tx.height as u64 },
            };
            &&& manual_reaches(
                plan,
                queried,
                (ManualState {
                    stage: ManualStage::Schedule(Direction::Forward),
                    tx: Some(tx),
                    event: Some(event),
                }),
            )
            &&& manual_after(plan, manual_start(), queried + rest) matches Some(Ok(state))
                ==> state.event == Some(event)
        }),
{
    let prepared = manual_prepared::<L>(plan.with_counterparty_key);
    let replies = seq![ManualReply::Tx(Some(tx)), ManualReply::LatestBlock(Some(block))];
    law_sent_packet_read_back(tx, block, n, packet, data, chain_name, revision);
    lemma_manual_prepared::<L>(plan);
    lemma_manual_found::<L>(plan, tx, Some(block));
    lemma_manual_after_split(plan, manual_start(), prepared, replies);
    lemma_manual_after_split(plan, manual_start(), prepared + replies, rest);
    let found = manual_after(plan, manual_start(), prepared + replies)->0->Ok_0;
    lemma_manual_event_stays(plan, found, rest);
}

/// Once the packet is being relayed its event stays the same to the end.
proof fn lemma_manual_event_stays<L>(
    plan: ManualPlan,
    state: ManualState,
    replies: Seq<ManualReply<L>>,
)
    requires
        is_relay_stage(state.stage) || state.stage == ManualStage::Done,
    ensures
        manual_after(plan, state, replies) matches Some(Ok(end)) ==> end.event == state.event,
    decreases replies.len(),
{
    if replies.len() > 0 && manual_accepts(state.stage, replies[0]) {
        if let Ok(next) = manual_step(plan, state, replies[0]) {
            law_manual_same_event(plan, state, replies[0]);
            lemma_manual_event_stays(plan, next, replies.skip(1));
        }
    }
}

/// The first failure of a stage other than the scheduling ends a run with the
/// error of that stage; no later reply is looked at.
pub proof fn law_manual_first_failure<L>(
    plan: ManualPlan,
    state: ManualState,
    before: Seq<ManualReply<L>>,
    cause: L,
    after: Seq<ManualReply<L>>,
)
    requires
        manual_after(plan, state, before) matches Some(Ok(failing)) && manual_failure(
            failing.stage,
        ) is Some,
    ensures
        manual_after(plan, state, before + (seq![ManualReply::Failed(cause)] + after)) == Some(
            Err::<ManualState, _>(
                manual_failure(manual_after(plan, state, before)->0->Ok_0.stage)->0,
            ),
        ),
{
    lemma_manual_after_split(plan, state, before, seq![ManualReply::Failed(cause)] + after);
}

} // verus!
