use clear_packets::commands::{ClearManualCmd, ClearPacketsCmd};
use clear_packets::config::{override_key, set_key, ChainConfig, Config, MissingChain};
use clear_packets::identifier::ChainId;

fn chain(id: &str, key_name: &str) -> ChainConfig {
    ChainConfig { id: ChainId::from_string(id), key_name: key_name.to_owned() }
}

fn config(chains: &[(&str, &str)]) -> Config {
    Config { chains: chains.iter().map(|(id, key)| chain(id, key)).collect() }
}

fn packets(extra: &[&str]) -> ClearPacketsCmd {
    let mut argv = vec!["test", "--chain", "ibc-1", "--port", "transfer", "--channel", "channel-0"];
    argv.extend(extra);
    ClearPacketsCmd::try_parse_from(&argv).unwrap()
}

#[test]
fn the_key_of_the_first_such_chain_is_overridden() {
    let before = config(&[("ibc-0", "a"), ("ibc-1", "b"), ("ibc-1", "c")]);
    let key = Some("k".to_owned());
    assert_eq!(
        override_key(before, &ChainId::from_string("ibc-1"), &key),
        Ok(config(&[("ibc-0", "a"), ("ibc-1", "k"), ("ibc-1", "c")]))
    );
}

#[test]
fn without_a_key_nothing_changes() {
    let before = config(&[("ibc-0", "a"), ("ibc-1", "b")]);
    assert_eq!(
        override_key(before, &ChainId::from_string("ibc-1"), &None),
        Ok(config(&[("ibc-0", "a"), ("ibc-1", "b")]))
    );
}

#[test]
fn a_missing_chain_is_an_error_even_without_a_key() {
    for key in [None, Some("k".to_owned())] {
        let error = override_key(config(&[("ibc-0", "a")]), &ChainId::from_string("ibc-1"), &key)
            .unwrap_err();
        assert_eq!(error, MissingChain { chain_id: "ibc-1".to_owned() });
        assert_eq!(error.message(), "missing configuration for chain 'ibc-1'");
    }
}

#[test]
fn the_later_of_two_overrides_counts() {
    let id = ChainId::from_string("ibc-0");
    let once = override_key(config(&[("ibc-0", "a")]), &id, &Some("b".to_owned())).unwrap();
    assert_eq!(
        override_key(once, &id, &Some("c".to_owned())),
        Ok(config(&[("ibc-0", "c")]))
    );
}

#[test]
fn commands_override_the_key_of_their_chain() {
    let before = || config(&[("ibc-0", "a"), ("ibc-1", "b")]);
    assert_eq!(packets(&[]).override_config(before()), Ok(before()));
    assert_eq!(
        packets(&["--key-name", "k"]).override_config(before()),
        Ok(config(&[("ibc-0", "a"), ("ibc-1", "k")]))
    );
    let manual = ClearManualCmd::try_parse_from(&[
        "test", "--chain", "ibc-2", "--port", "transfer", "--channel", "channel-0", "--sequence",
        "1", "--tx_hash", "00",
    ])
    .unwrap();
    assert_eq!(
        manual.override_config(before()),
        Err(MissingChain { chain_id: "ibc-2".to_owned() })
    );
}

#[test]
fn the_counterparty_key_overrides_the_counterparty() {
    assert_eq!(set_key(chain("ibc-0", "a"), &None), chain("ibc-0", "a"));
    assert_eq!(packets(&[]).override_counterparty(chain("ibc-0", "a")), chain("ibc-0", "a"));
    assert_eq!(
        packets(&["--counterparty-key-name", "k"]).override_counterparty(chain("ibc-0", "a")),
        chain("ibc-0", "k")
    );
}
