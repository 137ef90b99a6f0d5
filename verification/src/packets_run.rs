//! The course of the command that clears all outstanding packets of a channel.
//!
//! The command alternates between work on the chains and decisions. A
//! [`PacketsRun`] makes the decisions: it says what to do next, and is told how
//! that went.

use vstd::prelude::*;

use crate::commands::ClearPacketsCmd;
use crate::error::{ClearError, Direction, Failure};
use crate::identifier::{ChannelEnd, ChannelEndView};

verus! {

/// Work to do on the chains.
#[derive(Clone, Copy, Debug, PartialEq, Eq, Structural)]
pub enum PacketsStage {
    /// Start both chains of the channel.
    SpawnChains,
    /// Let the counterparty chain sign with the counterparty key.
    CounterpartyConfig,
    /// Make the link from the chain to its counterparty.
    ForwardLink,
    /// Make the link back.
    ReverseLink,
    /// Relay the receipts and timeouts of pending packets.
    RelayRecv(Direction),
    /// Relay the pending acknowledgements.
    RelayAck(Direction),
    /// Report the collected events.
    Done,
}

/// How the work went.
pub enum PacketsReply<E, L> {
    /// The preparation succeeded.
    Done,
    /// The relaying succeeded and led to these events.
    Events(Vec<E>),
    /// The work failed for this cause.
    Failed(L),
}

/// How the work went, leaving aside the cause of a failure.
pub enum PacketsReplyView<E> {
    Done,
    Events(Seq<E>),
    Failed,
}

impl<E, L> View for PacketsReply<E, L> {
    type V = PacketsReplyView<E>;

    open spec fn view(&self) -> PacketsReplyView<E> {
        match self {
            PacketsReply::Done => PacketsReplyView::Done,
            PacketsReply::Events(events) => PacketsReplyView::Events(events@),
            PacketsReply::Failed(cause) => PacketsReplyView::Failed,
        }
    }
}

/// How far a run is.
#[verifier::ext_equal]
pub struct PacketsState<E> {
    pub stage: PacketsStage,
    /// What the relaying so far has led to.
    pub events: Seq<E>,
}

/// The work that follows on a stage that succeeded.
pub open spec fn packets_next(with_counterparty_key: bool, stage: PacketsStage) -> PacketsStage {
    match stage {
        PacketsStage::SpawnChains => if with_counterparty_key {
            PacketsStage::CounterpartyConfig
        } else {
            PacketsStage::ForwardLink
        },
        PacketsStage::CounterpartyConfig => PacketsStage::ForwardLink,
        PacketsStage::ForwardLink => PacketsStage::ReverseLink,
        PacketsStage::ReverseLink => PacketsStage::RelayRecv(Direction::Forward),
        PacketsStage::RelayRecv(Direction::Forward) => PacketsStage::RelayRecv(Direction::Reverse),
        PacketsStage::RelayRecv(Direction::Reverse) => PacketsStage::RelayAck(Direction::Forward),
        PacketsStage::RelayAck(Direction::Forward) => PacketsStage::RelayAck(Direction::Reverse),
        PacketsStage::RelayAck(Direction::Reverse) => PacketsStage::Done,
        PacketsStage::Done => PacketsStage::Done,
    }
}

/// What it means that a stage failed.
pub open spec fn packets_failure(stage: PacketsStage) -> ClearError {
    match stage {
        PacketsStage::SpawnChains => ClearError::ChainSpawn,
        PacketsStage::CounterpartyConfig => ClearError::CounterpartyConfig,
        PacketsStage::ForwardLink => ClearError::ForwardLink,
        PacketsStage::ReverseLink => ClearError::ReverseLink,
        _ => ClearError::Relay,
    }
}

/// The stage relays messages.
pub open spec fn is_relaying(stage: PacketsStage) -> bool {
    stage is RelayRecv || stage is RelayAck
}

/// A stage can be answered so: relaying with events, preparation without, both
/// with a failure, and a finished run not at all.
pub open spec fn packets_accepts<E>(stage: PacketsStage, reply: PacketsReplyView<E>) -> bool {
    &&& stage != PacketsStage::Done
    &&& reply is Done ==> !is_relaying(stage)
    &&& reply is Events ==> is_relaying(stage)
}

/// How a run goes on after a reply.
pub open spec fn packets_step<E>(
    with_counterparty_key: bool,
    state: PacketsState<E>,
    reply: PacketsReplyView<E>,
) -> Result<PacketsState<E>, ClearError> {
    let stage = packets_next(with_counterparty_key, state.stage);
    match reply {
        PacketsReplyView::Done => Ok(PacketsState { stage, events: state.events }),
        PacketsReplyView::Events(events) => Ok(
            PacketsState { stage, events: state.events + events },
        ),
        PacketsReplyView::Failed => Err(packets_failure(state.stage)),
    }
}

/// The state in which every run starts.
pub open spec fn packets_start<E>() -> PacketsState<E> {
    PacketsState { stage: PacketsStage::SpawnChains, events: Seq::empty() }
}

/// Appends the events of an outcome to a list, or hands on its error.
pub fn collect_events<E, L>(ev_list: &mut Vec<E>, outcome: Result<Vec<E>, L>) -> (collected: Result<
    (),
    L,
>)
    ensures
        match outcome {
            Ok(events) => collected is Ok && final(ev_list)@ == old(ev_list)@ + events@,
            Err(e) => collected == Err::<(), L>(e) && final(ev_list)@ == old(ev_list)@,
        },
{
    match outcome {
        Ok(events) => {
            let mut events = events;
            ev_list.append(&mut events);
            Ok(())
        },
        Err(e) => Err(e),
    }
}

/// Calls `f` and appends the events that it returns to a list, or hands on its
/// error.
pub fn run_and_collect_events<E, L, F>(ev_list: &mut Vec<E>, f: F) -> (collected: Result<(), L>)
    where F: FnOnce() -> Result<Vec<E>, L>,
    requires
        f.requires(()),
    ensures
        exists|outcome: Result<Vec<E>, L>| #[trigger]
            f.ensures((), outcome) && match outcome {
                Ok(events) => collected is Ok && final(ev_list)@ == old(ev_list)@ + events@,
                Err(e) => collected == Err::<(), L>(e) && final(ev_list)@ == old(ev_list)@,
            },
{
    let outcome = f();
    collect_events(ev_list, outcome)
}

/// A run of the command that clears all outstanding packets of a channel.
pub struct PacketsRun<E> {
    end: ChannelEnd,
    with_counterparty_key: bool,
    stage: PacketsStage,
    events: Vec<E>,
}

impl<E> View for PacketsRun<E> {
    type V = PacketsState<E>;

    closed spec fn view(&self) -> PacketsState<E> {
        PacketsState { stage: self.stage, events: self.events@ }
    }
}

impl<E> PacketsRun<E> {
    /// The command names a key for the counterparty chain.
    pub closed spec fn with_counterparty_key(&self) -> bool {
        self.with_counterparty_key
    }

    /// The end of the channel that is cleared.
    pub closed spec fn end(&self) -> ChannelEndView {
        self.end@
    }

    /// Starts a run of the command.
    pub fn new(cmd: &ClearPacketsCmd) -> (run: PacketsRun<E>)
        ensures
            run@ == packets_start::<E>(),
            run.with_counterparty_key() == (cmd@.counterparty_key_name is Some),
            run.end() == (ChannelEndView {
                chain_id: cmd@.chain_id,
                port_id: cmd@.port_id,
                channel_id: cmd@.channel_id,
            }),
    {
        PacketsRun {
            end: cmd.channel_end(),
            with_counterparty_key: cmd.counterparty_key_name.is_some(),
            stage: PacketsStage::SpawnChains,
            events: Vec::new(),
        }
    }

    /// The work to do now.
    pub fn stage(&self) -> (stage: PacketsStage)
        ensures
            stage == self@.stage,
    {
        self.stage
    }

    /// The end of the channel that is cleared: the chain to start beside its
    /// counterparty, and the port and channel of the forward link.
    pub fn channel_end(&self) -> (end: &ChannelEnd)
        ensures
            end@ == self.end(),
    {
        &self.end
    }

    /// The events to report.
    pub fn into_events(self) -> (events: Vec<E>)
        ensures
            events@ == self@.events,
    {
        self.events
    }

    fn next_stage(&self) -> (stage: PacketsStage)
        ensures
            stage == packets_next(self.with_counterparty_key(), self@.stage),
    {
        match self.stage {
            PacketsStage::SpawnChains => if self.with_counterparty_key {
                PacketsStage::CounterpartyConfig
            } else {
                PacketsStage::ForwardLink
            },
            PacketsStage::CounterpartyConfig => PacketsStage::ForwardLink,
            PacketsStage::ForwardLink => PacketsStage::ReverseLink,
            PacketsStage::ReverseLink => PacketsStage::RelayRecv(Direction::Forward),
            PacketsStage::RelayRecv(Direction::Forward) => PacketsStage::RelayRecv(
                Direction::Reverse,
            ),
            PacketsStage::RelayRecv(Direction::Reverse) => PacketsStage::RelayAck(
                Direction::Forward,
            ),
            PacketsStage::RelayAck(Direction::Forward) => PacketsStage::RelayAck(
                Direction::Reverse,
            ),
            PacketsStage::RelayAck(Direction::Reverse) => PacketsStage::Done,
            PacketsStage::Done => PacketsStage::Done,
        }
    }

    fn failure(&self) -> (error: ClearError)
        ensures
            error == packets_failure(self@.stage),
    {
        match self.stage {
            PacketsStage::SpawnChains => ClearError::ChainSpawn,
            PacketsStage::CounterpartyConfig => ClearError::CounterpartyConfig,
            PacketsStage::ForwardLink => ClearError::ForwardLink,
            PacketsStage::ReverseLink => ClearError::ReverseLink,
            _ => ClearError::Relay,
        }
    }

    /// Goes on after the work of the stage.
    pub fn advance<L>(&mut self, reply: PacketsReply<E, L>) -> (result: Result<(), Failure<L>>)
        requires
            packets_accepts(old(self)@.stage, reply@),
        ensures
            final(self).with_counterparty_key() == old(self).with_counterparty_key(),
            final(self).end() == old(self).end(),
            match packets_step(old(self).with_counterparty_key(), old(self)@, reply@) {
                Ok(state) => result is Ok && final(self)@ == state,
                Err(error) => {
                    &&& result is Err
                    &&& result->Err_0.error == error
                    &&& result->Err_0.cause == (match reply {
                        PacketsReply::Failed(cause) => Some(cause),
                        _ => None,
                    })
                    &&& final(self)@ == old(self)@
                },
            },
    {
        let next = self.next_stage();
        let outcome = match reply {
            PacketsReply::Done => Ok(Vec::new()),
            PacketsReply::Events(events) => Ok(events),
            PacketsReply::Failed(cause) => Err(cause),
        };
        match collect_events(&mut self.events, outcome) {
            Ok(()) => {
                self.stage = next;
                Ok(())
            },
            Err(cause) => Err(Failure { error: self.failure(), cause: Some(cause) }),
        }
    }
}

/// How a run goes on after a row of replies; none if a stage was answered with what
/// it cannot be answered with.
pub open spec fn packets_after<E>(
    with_counterparty_key: bool,
    state: PacketsState<E>,
    replies: Seq<PacketsReplyView<E>>,
) -> Option<Result<PacketsState<E>, ClearError>>
    decreases replies.len(),
{
    if replies.len() == 0 {
        Some(Ok(state))
    } else if !packets_accepts(state.stage, replies[0]) {
        None
    } else {
        match packets_step(with_counterparty_key, state, replies[0]) {
            Ok(next) => packets_after(with_counterparty_key, next, replies.skip(1)),
            Err(e) => Some(Err(e)),
        }
    }
}

/// A run that was answered with `replies` from its start is in `state`.
pub open spec fn packets_reaches<E>(
    with_counterparty_key: bool,
    replies: Seq<PacketsReplyView<E>>,
    state: PacketsState<E>,
) -> bool {
    packets_after(with_counterparty_key, packets_start(), replies) == Some(
        Ok::<_, ClearError>(state),
    )
}

/// How many stages are left before the run is done.
pub open spec fn packets_rank(stage: PacketsStage) -> nat {
    match stage {
        PacketsStage::SpawnChains => 8,
        PacketsStage::CounterpartyConfig => 7,
        PacketsStage::ForwardLink => 6,
        PacketsStage::ReverseLink => 5,
        PacketsStage::RelayRecv(Direction::Forward) => 4,
        PacketsStage::RelayRecv(Direction::Reverse) => 3,
        PacketsStage::RelayAck(Direction::Forward) => 2,
        PacketsStage::RelayAck(Direction::Reverse) => 1,
        PacketsStage::Done => 0,
    }
}

/// Every reply that is not a failure brings the run closer to its end, and keeps
/// the events collected before; a failure ends it.
pub proof fn law_packets_progress<E>(
    with_counterparty_key: bool,
    state: PacketsState<E>,
    reply: PacketsReplyView<E>,
)
    requires
        packets_accepts(state.stage, reply),
    ensures
        match packets_step(with_counterparty_key, state, reply) {
            Ok(next) => {
                &&& reply !is Failed
                &&& packets_rank(next.stage) < packets_rank(state.stage)
                &&& state.events.is_prefix_of(next.events)
            },
            Err(e) => reply is Failed,
        },
{
}

/// The counterparty chain's configuration is changed if and only if the command
/// names a key for that chain, and then right after the chains are started.
pub proof fn law_packets_counterparty_config<E>(
    with_counterparty_key: bool,
    state: PacketsState<E>,
    reply: PacketsReplyView<E>,
)
    ensures
        packets_step(with_counterparty_key, state, reply) matches Ok(next) ==> (next.stage
            == PacketsStage::CounterpartyConfig <==> with_counterparty_key && state.stage
            == PacketsStage::SpawnChains),
{
}

/// The stages come one after the other, none is passed over, and none comes again:
/// which stage comes next does not depend on the events that were replied. Only the
/// stage at which the counterparty chain's configuration is changed may be missing.
pub proof fn law_packets_order<E>(
    with_counterparty_key: bool,
    state: PacketsState<E>,
    reply: PacketsReplyView<E>,
)
    requires
        packets_accepts(state.stage, reply),
    ensures
        packets_step(with_counterparty_key, state, reply) is Ok <==> reply !is Failed,
        packets_step(with_counterparty_key, state, reply) matches Ok(next) ==> match next.stage {
            PacketsStage::SpawnChains => false,
            PacketsStage::CounterpartyConfig => state.stage == PacketsStage::SpawnChains
                && with_counterparty_key,
            PacketsStage::ForwardLink => {
                ||| state.stage == PacketsStage::CounterpartyConfig
                ||| state.stage == PacketsStage::SpawnChains && !with_counterparty_key
            },
            PacketsStage::ReverseLink => state.stage == PacketsStage::ForwardLink,
            PacketsStage::RelayRecv(Direction::Forward) => state.stage
                == PacketsStage::ReverseLink,
            PacketsStage::RelayRecv(Direction::Reverse) => state.stage
                == PacketsStage::RelayRecv(Direction::Forward),
            PacketsStage::RelayAck(Direction::Forward) => state.stage
                == PacketsStage::RelayRecv(Direction::Reverse),
            PacketsStage::RelayAck(Direction::Reverse) => state.stage
                == PacketsStage::RelayAck(Direction::Forward),
            PacketsStage::Done => state.stage == PacketsStage::RelayAck(Direction::Reverse),
        },
        is_relaying(state.stage) ==> (packets_step(with_counterparty_key, state, reply) matches Ok(
            next,
        ) ==> packets_rank(next.stage) == packets_rank(state.stage) - 1),
{
}

/// Every stage but the last can fail, and the error tells what failed: which part of
/// the preparation, or the relaying.
pub proof fn law_packets_error<E>(with_counterparty_key: bool, state: PacketsState<E>)
    requires
        state.stage != PacketsStage::Done,
    ensures
        packets_accepts(state.stage, PacketsReplyView::<E>::Failed),
        packets_step(with_counterparty_key, state, PacketsReplyView::Failed) matches Err(e) && {
            &&& e == ClearError::ChainSpawn <==> state.stage == PacketsStage::SpawnChains
            &&& e == ClearError::CounterpartyConfig <==> state.stage
                == PacketsStage::CounterpartyConfig
            &&& e == ClearError::ForwardLink <==> state.stage == PacketsStage::ForwardLink
            &&& e == ClearError::ReverseLink <==> state.stage == PacketsStage::ReverseLink
            &&& e == ClearError::Relay <==> is_relaying(state.stage)
        },
{
}

/// The last reply of a row is taken last.
proof fn lemma_packets_last<E>(
    with_counterparty_key: bool,
    from: PacketsState<E>,
    replies: Seq<PacketsReplyView<E>>,
)
    requires
        replies.len() > 0,
        packets_after(with_counterparty_key, from, replies) matches Some(Ok(_)),
    ensures
        packets_after(with_counterparty_key, from, replies.drop_last()) matches Some(Ok(before)) && {
            &&& packets_accepts(before.stage, replies.last())
            &&& packets_after(with_counterparty_key, from, replies) == Some(
                packets_step(with_counterparty_key, before, replies.last()),
            )
        },
    decreases replies.len(),
{
    if replies.len() > 1 {
        let next = packets_step(with_counterparty_key, from, replies[0])->Ok_0;
        lemma_packets_last(with_counterparty_key, next, replies.skip(1));
        assert(replies.drop_last().skip(1) =~= replies.skip(1).drop_last());
        assert(replies.drop_last()[0] == replies[0]);
    } else {
        let next = packets_step(with_counterparty_key, from, replies[0])->Ok_0;
        assert(replies.skip(1) =~= Seq::empty());
        assert(packets_after(with_counterparty_key, next, replies.skip(1)) == Some(
            Ok::<_, ClearError>(next),
        ));
    }
}

/// The run was at the stage, and its work succeeded.
pub open spec fn packets_did<E>(
    with_counterparty_key: bool,
    replies: Seq<PacketsReplyView<E>>,
    stage: PacketsStage,
) -> bool {
    exists|k: int, state: PacketsState<E>|
        {
            &&& 0 <= k < replies.len()
            &&& #[trigger] packets_reaches(with_counterparty_key, replies.take(k), state)
            &&& state.stage == stage
            &&& replies[k] !is Failed
        }
}

/// A run has done the work of all stages before the one that it is at.
proof fn lemma_packets_did<E>(
    with_counterparty_key: bool,
    replies: Seq<PacketsReplyView<E>>,
    state: PacketsState<E>,
    stage: PacketsStage,
)
    requires
        packets_reaches(with_counterparty_key, replies, state),
        packets_rank(stage) > packets_rank(state.stage),
        stage == PacketsStage::CounterpartyConfig ==> with_counterparty_key,
    ensures
        packets_did(with_counterparty_key, replies, stage),
    decreases replies.len(),
{
    assert(replies.len() > 0);
    let front = replies.drop_last();
    lemma_packets_last(with_counterparty_key, packets_start(), replies);
    let before = packets_after(with_counterparty_key, packets_start(), front)->0->Ok_0;
    law_packets_order(with_counterparty_key, before, replies.last());
    if before.stage == stage {
        assert(replies.take(replies.len() - 1) =~= front);
        assert(packets_reaches(
            with_counterparty_key,
            replies.take(replies.len() - 1),
            before,
        ));
    } else {
        lemma_packets_did(with_counterparty_key, front, before, stage);
        let (k, at): (int, PacketsState<E>) = choose|k: int, at: PacketsState<E>|
            {
                &&& 0 <= k < front.len()
                &&& #[trigger] packets_reaches(with_counterparty_key, front.take(k), at)
                &&& at.stage == stage
                &&& front[k] !is Failed
            };
        assert(front.take(k) =~= replies.take(k));
        assert(packets_reaches(with_counterparty_key, replies.take(k), at));
    }
}

/// The events of all replies, in order.
pub open spec fn replied_events<E>(replies: Seq<PacketsReplyView<E>>) -> Seq<E>
    decreases replies.len(),
{
    if replies.len() == 0 {
        Seq::empty()
    } else {
        match replies.last() {
            PacketsReplyView::Events(events) => replied_events(replies.drop_last()) + events,
            _ => replied_events(replies.drop_last()),
        }
    }
}

/// At every moment a run holds the events of all replies so far, and no others.
pub proof fn law_packets_collects<E>(
    with_counterparty_key: bool,
    replies: Seq<PacketsReplyView<E>>,
    state: PacketsState<E>,
)
    requires
        packets_reaches(with_counterparty_key, replies, state),
    ensures
        state.events == replied_events(replies),
    decreases replies.len(),
{
    if replies.len() > 0 {
        lemma_packets_last(with_counterparty_key, packets_start(), replies);
        let before = packets_after(
            with_counterparty_key,
            packets_start(),
            replies.drop_last(),
        )->0->Ok_0;
        law_packets_collects(with_counterparty_key, replies.drop_last(), before);
    }
}

/// A run is done only after it has started the chains, made both links, relayed the
/// receipts in both directions and the acknowledgements in both directions, whatever
/// events these led to, and let the counterparty sign with its key if one is named.
pub proof fn law_packets_done<E>(
    with_counterparty_key: bool,
    replies: Seq<PacketsReplyView<E>>,
    state: PacketsState<E>,
)
    requires
        packets_reaches(with_counterparty_key, replies, state),
        state.stage == PacketsStage::Done,
    ensures
        packets_did(with_counterparty_key, replies, PacketsStage::SpawnChains),
        with_counterparty_key ==> packets_did(
            with_counterparty_key,
            replies,
            PacketsStage::CounterpartyConfig,
        ),
        packets_did(with_counterparty_key, replies, PacketsStage::ForwardLink),
        packets_did(with_counterparty_key, replies, PacketsStage::ReverseLink),
        packets_did(with_counterparty_key, replies, PacketsStage::RelayRecv(Direction::Forward)),
        packets_did(with_counterparty_key, replies, PacketsStage::RelayRecv(Direction::Reverse)),
        packets_did(with_counterparty_key, replies, PacketsStage::RelayAck(Direction::Forward)),
        packets_did(with_counterparty_key, replies, PacketsStage::RelayAck(Direction::Reverse)),
{
    let key = with_counterparty_key;
    lemma_packets_did(key, replies, state, PacketsStage::SpawnChains);
    if key {
        lemma_packets_did(key, replies, state, PacketsStage::CounterpartyConfig);
    }
    lemma_packets_did(key, replies, state, PacketsStage::ForwardLink);
    lemma_packets_did(key, replies, state, PacketsStage::ReverseLink);
    lemma_packets_did(key, replies, state, PacketsStage::RelayRecv(Direction::Forward));
    lemma_packets_did(key, replies, state, PacketsStage::RelayRecv(Direction::Reverse));
    lemma_packets_did(key, replies, state, PacketsStage::RelayAck(Direction::Forward));
    lemma_packets_did(key, replies, state, PacketsStage::RelayAck(Direction::Reverse));
}

/// The replies to the preparation of a run that goes well.
pub open spec fn prepared<E>(with_counterparty_key: bool) -> Seq<PacketsReplyView<E>> {
    Seq::new(
        if with_counterparty_key {
            4
        } else {
            3
        },
        |i: int| PacketsReplyView::Done,
    )
}

/// A preparation that goes well leads to the relaying, with nothing collected yet.
proof fn lemma_prepared<E>(with_counterparty_key: bool, replies: Seq<PacketsReplyView<E>>)
    ensures
        packets_after(
            with_counterparty_key,
            packets_start(),
            prepared(with_counterparty_key) + replies,
        ) == packets_after(
            with_counterparty_key,
            PacketsState {
                stage: PacketsStage::RelayRecv(Direction::Forward),
                events: Seq::<E>::empty(),
            },
            replies,
        ),
{
    reveal_with_fuel(packets_after, 5);
    let all = prepared::<E>(with_counterparty_key) + replies;
    if with_counterparty_key {
        assert(all.skip(1).skip(1).skip(1).skip(1) =~= replies);
    } else {
        assert(all.skip(1).skip(1).skip(1) =~= replies);
    }
}

/// A run that goes well relays the receipts in both directions, then the
/// acknowledgements in both directions, and reports the events of all four in
/// that order.
pub proof fn law_packets_events<E>(
    with_counterparty_key: bool,
    forward_recv: Seq<E>,
    reverse_recv: Seq<E>,
    forward_ack: Seq<E>,
    reverse_ack: Seq<E>,
)
    ensures
        packets_after(
            with_counterparty_key,
            packets_start(),
            prepared(with_counterparty_key) + seq![
                PacketsReplyView::Events(forward_recv),
                PacketsReplyView::Events(reverse_recv),
                PacketsReplyView::Events(forward_ack),
                PacketsReplyView::Events(reverse_ack),
            ],
        ) == Some(
            Ok::<_, ClearError>(
                PacketsState {
                    stage: PacketsStage::Done,
                    events: forward_recv + reverse_recv + forward_ack + reverse_ack,
                },
            ),
        ),
{
    let replies = seq![
        PacketsReplyView::Events(forward_recv),
        PacketsReplyView::Events(reverse_recv),
        PacketsReplyView::Events(forward_ack),
        PacketsReplyView::Events(reverse_ack),
    ];
    lemma_prepared(with_counterparty_key, replies);
    reveal_with_fuel(packets_after, 5);
    assert(Seq::<E>::empty() + forward_recv =~= forward_recv);
}

/// The first failure ends a run with the error of the stage that failed; no later
/// reply is looked at.
pub proof fn law_packets_first_failure<E>(
    with_counterparty_key: bool,
    state: PacketsState<E>,
    before: Seq<PacketsReplyView<E>>,
    after: Seq<PacketsReplyView<E>>,
)
    requires
        packets_after(with_counterparty_key, state, before) matches Some(Ok(failing))
            && failing.stage != PacketsStage::Done,
    ensures
        packets_after(
            with_counterparty_key,
            state,
            before + seq![PacketsReplyView::Failed] + after,
        ) == Some(
            Err::<PacketsState<E>, _>(
                packets_failure(
                    packets_after(with_counterparty_key, state, before)->0->Ok_0.stage,
                ),
            ),
        ),
    decreases before.len(),
{
    let all = before + seq![PacketsReplyView::Failed] + after;
    if before.len() > 0 {
        let next = packets_step(with_counterparty_key, state, before[0])->Ok_0;
        law_packets_first_failure(with_counterparty_key, next, before.skip(1), after);
        assert(all.skip(1) =~= before.skip(1) + seq![PacketsReplyView::Failed] + after);
        assert(all[0] == before[0]);
    } else {
        assert(all[0] == PacketsReplyView::<E>::Failed);
    }
}

} // verus!
