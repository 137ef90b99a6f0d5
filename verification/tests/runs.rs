use clear_packets::commands::{ClearManualCmd, ClearPacketsCmd};
use clear_packets::error::{ClearError, Direction, Failure};
use clear_packets::event::{Event, RawAttribute};
use clear_packets::height::Height;
use clear_packets::identifier::{ChainId, ChannelEnd, ChannelId, PortId};
use clear_packets::manual_run::{
    problem_event, Block, Header, ManualReply, ManualRun, ManualStage, TxResponse,
};
use clear_packets::packets_run::{
    run_and_collect_events, PacketsReply, PacketsRun, PacketsStage,
};

fn packets_run(counterparty_key: bool) -> PacketsRun<u32> {
    let mut argv = vec!["test", "--chain", "ibc-0", "--port", "transfer", "--channel", "channel-0"];
    if counterparty_key {
        argv.extend(["--counterparty-key-name", "k"]);
    }
    PacketsRun::new(&ClearPacketsCmd::try_parse_from(&argv).unwrap())
}

/// Drives a run; the work of the stage at `failing` fails.
fn drive_packets(
    counterparty_key: bool,
    failing: Option<PacketsStage>,
) -> (Vec<PacketsStage>, Result<Vec<u32>, Failure<String>>) {
    let mut run = packets_run(counterparty_key);
    let mut stages = Vec::new();
    while run.stage() != PacketsStage::Done {
        let stage = run.stage();
        stages.push(stage);
        let reply = if Some(stage) == failing {
            PacketsReply::Failed("cause".to_owned())
        } else {
            match stage {
                PacketsStage::RelayRecv(Direction::Forward) => PacketsReply::Events(vec![1, 2]),
                PacketsStage::RelayRecv(Direction::Reverse) => PacketsReply::Events(vec![]),
                PacketsStage::RelayAck(Direction::Forward) => PacketsReply::Events(vec![3]),
                PacketsStage::RelayAck(Direction::Reverse) => PacketsReply::Events(vec![4, 5]),
                _ => PacketsReply::Done,
            }
        };
        if let Err(failure) = run.advance(reply) {
            return (stages, Err(failure));
        }
    }
    (stages, Ok(run.into_events()))
}

#[test]
fn packets_are_cleared_in_order() {
    let (stages, events) = drive_packets(false, None);
    assert_eq!(
        stages,
        [
            PacketsStage::SpawnChains,
            PacketsStage::ForwardLink,
            PacketsStage::ReverseLink,
            PacketsStage::RelayRecv(Direction::Forward),
            PacketsStage::RelayRecv(Direction::Reverse),
            PacketsStage::RelayAck(Direction::Forward),
            PacketsStage::RelayAck(Direction::Reverse),
        ]
    );
    assert_eq!(events, Ok(vec![1, 2, 3, 4, 5]));
}

#[test]
fn the_counterparty_key_adds_a_stage() {
    let (stages, events) = drive_packets(true, None);
    assert_eq!(stages[1], PacketsStage::CounterpartyConfig);
    assert_eq!(stages.len(), 8);
    assert_eq!(events, Ok(vec![1, 2, 3, 4, 5]));
}

#[test]
fn the_first_failure_ends_clearing() {
    for (stage, error) in [
        (PacketsStage::SpawnChains, ClearError::ChainSpawn),
        (PacketsStage::CounterpartyConfig, ClearError::CounterpartyConfig),
        (PacketsStage::ForwardLink, ClearError::ForwardLink),
        (PacketsStage::ReverseLink, ClearError::ReverseLink),
        (PacketsStage::RelayRecv(Direction::Reverse), ClearError::Relay),
        (PacketsStage::RelayAck(Direction::Forward), ClearError::Relay),
    ] {
        let (stages, result) = drive_packets(true, Some(stage));
        assert_eq!(stages.last(), Some(&stage));
        assert_eq!(result, Err(Failure { error, cause: Some("cause".to_owned()) }));
    }
}

#[test]
fn events_are_appended() {
    let mut events = vec![1];
    assert_eq!(run_and_collect_events(&mut events, || Ok::<_, String>(vec![2, 3])), Ok(()));
    assert_eq!(events, [1, 2, 3]);
    assert_eq!(
        run_and_collect_events(&mut events, || Err("broken".to_owned())),
        Err("broken".to_owned())
    );
    assert_eq!(events, [1, 2, 3]);
}

fn attribute(key: &str, value: &str) -> RawAttribute {
    RawAttribute { key: key.as_bytes().to_vec(), value: value.as_bytes().to_vec() }
}

fn send_packet(sequence: &str) -> Event {
    send_packet_on("transfer", "channel-0", sequence)
}

fn send_packet_on(port: &str, channel: &str, sequence: &str) -> Event {
    Event {
        kind: "send_packet".to_owned(),
        attributes: vec![
            attribute("packet_data", "payload"),
            attribute("packet_timeout_height", "1-500"),
            attribute("packet_timeout_timestamp", "0"),
            attribute("packet_sequence", sequence),
            attribute("packet_src_port", port),
            attribute("packet_src_channel", channel),
            attribute("packet_dst_port", "transfer"),
            attribute("packet_dst_channel", "channel-1"),
        ],
    }
}

fn tx(events: Vec<Event>) -> TxResponse {
    TxResponse { height: 77, events }
}

fn block(chain_id: &str) -> Option<Block> {
    Some(Block { header: Some(Header { chain_id: chain_id.to_owned() }) })
}

fn manual_run(counterparty_key: bool) -> ManualRun {
    let mut argv = vec![
        "test", "--chain", "ibc-0", "--port", "transfer", "--channel", "channel-0", "--sequence",
        "9", "--tx_hash", "AB",
    ];
    if counterparty_key {
        argv.extend(["--counterparty-key-name", "k"]);
    }
    ManualRun::new(&ClearManualCmd::try_parse_from(&argv).unwrap())
}

/// Drives a run with `pieces` of scheduled work in each direction; the work of the
/// stage at `failing` fails.
fn drive_manual(
    counterparty_key: bool,
    pieces: usize,
    failing: Option<ManualStage>,
) -> (Vec<ManualStage>, Result<ManualRun, Failure<String>>) {
    let mut run = manual_run(counterparty_key);
    let mut stages = Vec::new();
    let mut left = pieces;
    while run.stage() != ManualStage::Done {
        let stage = run.stage();
        stages.push(stage);
        let reply = if Some(stage) == failing {
            ManualReply::Failed("cause".to_owned())
        } else {
            match stage {
                ManualStage::GetTx => {
                    ManualReply::Tx(Some(tx(vec![
                        send_packet("8"),
                        send_packet("9"),
                        send_packet("10"),
                        send_packet_on("transfer", "channel-141", "9"),
                    ])))
                }
                ManualStage::GetLatestBlock => ManualReply::LatestBlock(block("ibc-1")),
                ManualStage::Schedule(_) => {
                    left = pieces;
                    ManualReply::Done
                }
                ManualStage::FetchScheduled(_) if left > 0 => {
                    left -= 1;
                    ManualReply::Scheduled(true)
                }
                ManualStage::FetchScheduled(_) => ManualReply::Scheduled(false),
                _ => ManualReply::Done,
            }
        };
        if let Err(failure) = run.advance(reply) {
            return (stages, Err(failure));
        }
    }
    (stages, Ok(run))
}

#[test]
fn one_packet_is_cleared_in_order() {
    let (stages, result) = drive_manual(true, 1, None);
    let mut expected = vec![
        ManualStage::SpawnChains,
        ManualStage::CounterpartyConfig,
        ManualStage::ForwardLink,
        ManualStage::ReverseLink,
        ManualStage::SourceConfig,
        ManualStage::ConnectTxService,
        ManualStage::ConnectBlockService,
        ManualStage::GetTx,
        ManualStage::GetLatestBlock,
    ];
    for d in [Direction::Forward, Direction::Reverse] {
        expected.extend([
            ManualStage::Schedule(d),
            ManualStage::FetchReady(d),
            ManualStage::RelaySource(d),
            ManualStage::RelayDestination(d),
            ManualStage::FetchScheduled(d),
            ManualStage::RelayScheduled(d),
            ManualStage::FetchScheduled(d),
        ]);
    }
    expected.push(ManualStage::RelayAck(Direction::Forward));
    expected.push(ManualStage::RelayAck(Direction::Reverse));
    assert_eq!(stages, expected);
    let run = result.ok().unwrap();
    let event = run.event().unwrap();
    assert_eq!(event.height, Height { revision_number: 1, revision_height: 77 });
    assert_eq!(event.packet.sequence, 9);
    assert_eq!(event.packet.source_port.as_str(), "transfer");
    assert_eq!(event.packet.source_channel.as_str(), "channel-0");
    assert_eq!(event.packet.data, b"payload");
    assert_eq!(event.packet.destination_channel.as_str(), "channel-1");
    assert_eq!(event.packet.timeout_timestamp, 0);
}

#[test]
fn all_scheduled_work_is_relayed() {
    for pieces in 0..4 {
        let (stages, result) = drive_manual(false, pieces, None);
        assert!(result.is_ok());
        for d in [Direction::Forward, Direction::Reverse] {
            let relayed = stages.iter().filter(|s| **s == ManualStage::RelayScheduled(d)).count();
            assert_eq!(relayed, pieces);
        }
    }
}

#[test]
fn the_first_failure_ends_the_run() {
    let f = Direction::Forward;
    let r = Direction::Reverse;
    for (stage, error) in [
        (ManualStage::SpawnChains, ClearError::ChainSpawn),
        (ManualStage::CounterpartyConfig, ClearError::CounterpartyConfig),
        (ManualStage::ForwardLink, ClearError::ForwardLink),
        (ManualStage::ReverseLink, ClearError::ReverseLink),
        (ManualStage::SourceConfig, ClearError::NoSourceConfig),
        (ManualStage::ConnectTxService, ClearError::Unreachable),
        (ManualStage::ConnectBlockService, ClearError::Unreachable),
        (ManualStage::GetTx, ClearError::TxQuery),
        (ManualStage::GetLatestBlock, ClearError::BlockQuery),
        (ManualStage::FetchReady(f), ClearError::ReadyFetch),
        (ManualStage::RelaySource(f), ClearError::ReadyRelay(f)),
        (ManualStage::RelayDestination(r), ClearError::ReadyRelay(r)),
        (ManualStage::FetchScheduled(r), ClearError::ScheduledFetch),
        (ManualStage::RelayScheduled(f), ClearError::ScheduledRelay),
        (ManualStage::RelayAck(f), ClearError::Relay),
        (ManualStage::RelayAck(r), ClearError::Relay),
    ] {
        let (stages, result) = drive_manual(true, 1, Some(stage));
        assert_eq!(stages.last(), Some(&stage));
        assert_eq!(result.err(), Some(Failure { error, cause: Some("cause".to_owned()) }));
    }
}

#[test]
fn a_failed_scheduling_does_not_end_the_run() {
    for d in [Direction::Forward, Direction::Reverse] {
        let (_, result) = drive_manual(false, 0, Some(ManualStage::Schedule(d)));
        assert!(result.is_ok());
    }
}

#[test]
fn a_transaction_is_needed() {
    let mut run = manual_run(false);
    while run.stage() != ManualStage::GetTx {
        assert_eq!(run.advance(ManualReply::<String>::Done), Ok(()));
    }
    assert_eq!(
        run.advance(ManualReply::<String>::Tx(None)),
        Err(Failure { error: ClearError::NoTxResponse, cause: None })
    );
    assert!(run.event().is_none());
}

#[test]
fn the_problem_event_needs_a_block_and_a_packet() {
    let port = PortId::from_str("transfer").unwrap();
    let channel = ChannelId::from_str("channel-0").unwrap();
    let found = |events, block| {
        problem_event(&port, &channel, 9, &tx(events), &block).map(|e| e.packet.sequence)
    };
    assert_eq!(found(vec![send_packet("9")], block("ibc-1")), Ok(9));
    assert_eq!(found(vec![send_packet("9")], None), Err(ClearError::NoBlock));
    assert_eq!(
        found(vec![send_packet("9")], Some(Block { header: None })),
        Err(ClearError::NoBlockHeader)
    );
    assert_eq!(found(vec![send_packet("9")], block("ibc")), Err(ClearError::RevisionNumber));
    assert_eq!(found(vec![send_packet("8")], block("ibc-1")), Err(ClearError::NoSendPacket));
    assert_eq!(found(vec![], block("ibc-1")), Err(ClearError::NoSendPacket));
    assert_eq!(found(vec![send_packet("nine")], block("ibc-1")), Err(ClearError::InvalidSequence));
    for (port, channel, error) in [
        ("transfer", "channel-141", ClearError::NoSendPacket),
        ("oracle", "channel-0", ClearError::NoSendPacket),
        ("a b", "channel-0", ClearError::InvalidSourcePort),
        ("transfer", "no", ClearError::InvalidSourceChannel),
    ] {
        assert_eq!(found(vec![send_packet_on(port, channel, "9")], block("ibc-1")), Err(error));
    }
}

#[test]
fn runs_hand_out_what_the_command_names() {
    let end = ChannelEnd {
        chain_id: ChainId::from_string("ibc-0"),
        port_id: PortId::from_str("transfer").unwrap(),
        channel_id: ChannelId::from_str("channel-0").unwrap(),
    };
    assert_eq!(packets_run(false).channel_end(), &end);
    let mut run = manual_run(false);
    assert_eq!(run.advance(ManualReply::<String>::Done), Ok(()));
    assert_eq!(run.channel_end(), &end);
    assert_eq!(run.tx_hash(), "AB");
}

#[test]
fn failures_are_told() {
    let failure = |error, cause: Option<&str>| Failure { error, cause: cause.map(str::to_owned) };
    for error in [
        ClearError::ChainSpawn,
        ClearError::CounterpartyConfig,
        ClearError::ForwardLink,
        ClearError::ReverseLink,
        ClearError::Relay,
    ] {
        assert_eq!(failure(error, Some("cause")).text(), "cause");
    }
    assert_eq!(
        failure(ClearError::TxQuery, Some("cause")).text(),
        "failed to get tx by hash!: cause"
    );
    assert_eq!(failure(ClearError::NoBlock, None).text(), "Latest block not found!");
    let run = manual_run(false);
    assert_eq!(
        run.failure_text(&failure(ClearError::NoTxResponse, None)),
        "No tx response found with hash AB"
    );
    assert_eq!(run.failure_text(&failure(ClearError::NoData, None)), "No packet_data!");
    for (error, words) in [
        (ClearError::NoSourceConfig, "No src config!"),
        (ClearError::Unreachable, "Unable to contact src chain via grpc"),
        (ClearError::RevisionNumber, "Invalid revision number at end of chain id!"),
        (ClearError::NoSendPacket, "Could not find a send_packet event on the given tx!"),
        (ClearError::InvalidSequence, "Invalid packet_sequence!"),
        (
            ClearError::TimeoutHeightFields,
            "invalid packet_timeout_height, expected 2 values separated by '-'!",
        ),
        (ClearError::ReadyRelay(Direction::Forward), "relay_and_accumulate failed!"),
        (ClearError::ReadyRelay(Direction::Reverse), "try_fetch_scheduled_op_data failed"),
        (ClearError::ScheduledRelay, "relay_and_accumulate failed"),
    ] {
        assert_eq!(error.message(), words);
    }
}
