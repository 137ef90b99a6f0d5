use clear_packets::args::Refusal;
use clear_packets::commands::{ArgsError, ClearCmds, ClearManualCmd, ClearPacketsCmd, InvalidValue};
use clear_packets::identifier::{ChainId, ChannelId, PortId};

#[test]
fn test_clear_packets_required_only() {
    assert_eq!(
        ClearPacketsCmd {
            chain_id: ChainId::from_string("chain_id"),
            port_id: PortId::from_str("port_id").unwrap(),
            channel_id: ChannelId::from_str("channel-07").unwrap(),
            key_name: None,
            counterparty_key_name: None,
        },
        ClearPacketsCmd::try_parse_from(&[
            "test",
            "--chain",
            "chain_id",
            "--port",
            "port_id",
            "--channel",
            "channel-07"
        ])
        .unwrap()
    )
}

#[test]
fn test_clear_packets_chan_alias() {
    assert_eq!(
        ClearPacketsCmd {
            chain_id: ChainId::from_string("chain_id"),
            port_id: PortId::from_str("port_id").unwrap(),
            channel_id: ChannelId::from_str("channel-07").unwrap(),
            key_name: None,
            counterparty_key_name: None
        },
        ClearPacketsCmd::try_parse_from(&[
            "test",
            "--chain",
            "chain_id",
            "--port",
            "port_id",
            "--chan",
            "channel-07"
        ])
        .unwrap()
    )
}

#[test]
fn test_clear_packets_key_name() {
    assert_eq!(
        ClearPacketsCmd {
            chain_id: ChainId::from_string("chain_id"),
            port_id: PortId::from_str("port_id").unwrap(),
            channel_id: ChannelId::from_str("channel-07").unwrap(),
            key_name: Some("key_name".to_owned()),
            counterparty_key_name: None,
        },
        ClearPacketsCmd::try_parse_from(&[
            "test",
            "--chain",
            "chain_id",
            "--port",
            "port_id",
            "--channel",
            "channel-07",
            "--key-name",
            "key_name"
        ])
        .unwrap()
    )
}

#[test]
fn test_clear_packets_counterparty_key_name() {
    assert_eq!(
        ClearPacketsCmd {
            chain_id: ChainId::from_string("chain_id"),
            port_id: PortId::from_str("port_id").unwrap(),
            channel_id: ChannelId::from_str("channel-07").unwrap(),
            key_name: None,
            counterparty_key_name: Some("counterparty_key_name".to_owned()),
        },
        ClearPacketsCmd::try_parse_from(&[
            "test",
            "--chain",
            "chain_id",
            "--port",
            "port_id",
            "--channel",
            "channel-07",
            "--counterparty-key-name",
            "counterparty_key_name"
        ])
        .unwrap()
    )
}

#[test]
fn test_clear_packets_no_chan() {
    assert!(ClearPacketsCmd::try_parse_from(&[
        "test", "--chain", "chain_id", "--port", "port_id"
    ])
    .is_err())
}

#[test]
fn test_clear_packets_no_port() {
    assert!(ClearPacketsCmd::try_parse_from(&[
        "test",
        "--chain",
        "chain_id",
        "--channel",
        "channel-07"
    ])
    .is_err())
}

#[test]
fn test_clear_packets_no_chain() {
    assert!(ClearPacketsCmd::try_parse_from(&[
        "test",
        "--port",
        "port_id",
        "--channel",
        "channel-07"
    ])
    .is_err())
}

#[test]
fn help_is_shown_when_asked_for() {
    match ClearPacketsCmd::try_parse_from(&["test", "--help"]) {
        Err(ArgsError::Refused(refusal)) => {
            assert!(refusal.help);
            assert!(refusal.text.contains("--counterparty-key-name <COUNTERPARTY_KEY_NAME>"));
            assert!(refusal.text.contains("Identifier of the channel"));
            assert!(refusal.text.contains("REQUIRED"));
        }
        other => panic!("unexpected {:?}", other),
    }
}

#[test]
fn subcommands_are_chosen_by_name() {
    let packets = ClearCmds::try_parse_from(&[
        "hermes", "packets", "--chain", "ibc-0", "--port", "transfer", "--channel", "channel-0",
    ]);
    assert_eq!(
        packets,
        Ok(ClearCmds::Packets(ClearPacketsCmd {
            chain_id: ChainId::from_string("ibc-0"),
            port_id: PortId::from_str("transfer").unwrap(),
            channel_id: ChannelId::from_str("channel-0").unwrap(),
            key_name: None,
            counterparty_key_name: None,
        }))
    );
    let manual = ClearCmds::try_parse_from(&[
        "hermes", "manual", "--chain", "ibc-0", "--port", "transfer", "--chan", "channel-0", "--seq",
        "12", "--hash", "AB01", "--key-name", "alice",
    ]);
    assert_eq!(
        manual,
        Ok(ClearCmds::Manual(ClearManualCmd {
            chain_id: ChainId::from_string("ibc-0"),
            port_id: PortId::from_str("transfer").unwrap(),
            channel_id: ChannelId::from_str("channel-0").unwrap(),
            packet_sequence: 12,
            tx_hash: "AB01".to_owned(),
            key_name: Some("alice".to_owned()),
            counterparty_key_name: None,
        }))
    );
    for argv in [&["hermes"][..], &["hermes", "other"], &[], &["hermes", "--chain", "c"]] {
        assert!(matches!(
            ClearCmds::try_parse_from(argv),
            Err(ArgsError::Refused(refusal)) if !refusal.help
        ));
    }
    match ClearCmds::try_parse_from(&["hermes", "--help"]) {
        Err(ArgsError::Refused(refusal)) => {
            assert!(refusal.help);
            assert!(refusal.text.contains("packets") && refusal.text.contains("manual"));
        }
        other => panic!("unexpected {:?}", other),
    }
}

#[test]
fn malformed_values_are_invalid() {
    let parse = |port, channel| {
        ClearPacketsCmd::try_parse_from(&["test", "--chain", "c", "--port", port, "--channel", channel])
    };
    assert!(parse("transfer", "channel-0").is_ok());
    let invalid = |option: &str, value: &str| {
        ArgsError::Invalid(InvalidValue { option: option.to_owned(), value: value.to_owned() })
    };
    assert_eq!(parse("p", "channel-0"), Err(invalid("port", "p")));
    assert_eq!(parse("transfer", "chan"), Err(invalid("channel", "chan")));
    assert_eq!(parse("p", "chan"), Err(invalid("port", "p")));
    let manual = ClearManualCmd::try_parse_from(&[
        "test", "--chain", "c", "--port", "transfer", "--channel", "channel-0", "--sequence", "x",
        "--tx_hash", "00",
    ]);
    assert_eq!(manual, Err(invalid("sequence", "x")));
    assert_eq!(invalid("sequence", "x").message(), "Invalid value \"x\" for '--sequence'");
    assert_eq!(ArgsError::Missing.message(), "A required option has no value");
    let refusal = Refusal { text: "text".to_owned(), help: false };
    assert_eq!(ArgsError::Refused(refusal).message(), "text");
}

#[test]
fn unknown_arguments_are_refused() {
    let required = ["test", "--chain", "c", "--port", "transfer", "--channel", "channel-0"];
    for extra in [&["--sequence", "1"][..], &["--key-name"], &["extra"], &["--chain", "d"]] {
        let mut argv = required.to_vec();
        argv.extend(extra);
        assert!(matches!(
            ClearPacketsCmd::try_parse_from(&argv),
            Err(ArgsError::Refused(refusal)) if !refusal.help
        ));
    }
}

#[test]
fn commands_are_built_from_values() {
    let value = |s: &str| Some(s.to_owned());
    assert_eq!(ClearPacketsCmd::from_values(&vec![]), Err(ArgsError::Missing));
    assert_eq!(
        ClearPacketsCmd::from_values(&vec![value("c"), value("transfer"), None]),
        Err(ArgsError::Missing)
    );
    let choices = || {
        let values = vec![value("c"), value("transfer"), value("channel-0"), None, value("k")];
        Ok(vec![values, vec![None; 7]])
    };
    let cmd = ClearPacketsCmd::from_matched(choices()).unwrap();
    assert!(matches!(ClearCmds::from_matched(choices()), Ok(ClearCmds::Packets(_))));
    assert_eq!(ClearManualCmd::from_matched(choices()), Err(ArgsError::Missing));
    assert_eq!(ClearCmds::from_matched(Ok(vec![])), Err(ArgsError::Missing));
    assert_eq!(cmd.key_name, None);
    assert_eq!(cmd.counterparty_key_name, value("k"));
    let manual = ClearManualCmd::from_values(&vec![
        value("c"),
        value("transfer"),
        value("channel-0"),
        value("18446744073709551615"),
        value("00"),
    ])
    .unwrap();
    assert_eq!(manual.packet_sequence, u64::MAX);
    let refused = || Refusal { text: "text".to_owned(), help: true };
    assert_eq!(
        ClearManualCmd::from_matched(Err(refused())),
        Err(ArgsError::Refused(refused()))
    );
}

#[test]
fn manual_requires_sequence_and_hash() {
    let base = ["test", "--chain", "c", "--port", "transfer", "--channel", "channel-0"];
    for extra in [&["--sequence", "1"], &["--tx_hash", "00"]] {
        let mut argv = base.to_vec();
        argv.extend(extra.iter());
        assert!(ClearManualCmd::try_parse_from(&argv).is_err());
    }
}
