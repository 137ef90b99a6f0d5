//! The clearing commands and what they are told on the command line.

use vstd::prelude::*;
use vstd::string::StringExecFns;

use crate::args::{
    choices_view, clear_name, clear_subcommands, manual_command, manual_spec, match_line,
    matched_subcommands, matched_view, packets_command, packets_spec, sequence_from_str,
    values_view, CommandSpecView, OptionSpecView, Refusal, RefusalView,
};
use crate::config::{overridden, override_key, set_key, with_key, ChainConfig, Config, MissingChain};
use crate::identifier::{
    parsed_channel_id, parsed_port_id, ChainId, ChannelEnd, ChannelEndView, ChannelId, PortId,
};
use crate::text::{decimal_u64, law_decimal_exact, writes_number};

verus! {

/// The clearing commands.
#[derive(Debug, PartialEq, Eq)]
pub enum ClearCmds {
    /// Clear outstanding packets (i.e., packet-recv and packet-ack)
    /// on a given channel in both directions. The channel is identified
    /// by the chain, port, and channel IDs at one of its ends.
    Packets(ClearPacketsCmd),
    /// Clear problem packets manually (i.e. packet-recv and packet-ack)
    /// on a given channel. The packet is identified by its sequence number
    /// and submission height on the src chain. The channel is identified by
    /// the chain, port, and channel ID at one of its ends
    Manual(ClearManualCmd),
}

/// Clears the outstanding packets of a channel.
#[derive(Debug, PartialEq, Eq)]
pub struct ClearPacketsCmd {
    pub chain_id: ChainId,
    pub port_id: PortId,
    pub channel_id: ChannelId,
    /// The key that signs for the chain, if not the configured one.
    pub key_name: Option<String>,
    /// The key that signs for the counterparty chain, if not the configured one.
    pub counterparty_key_name: Option<String>,
}

/// Clears one packet of a channel.
#[derive(Debug, PartialEq, Eq)]
pub struct ClearManualCmd {
    pub chain_id: ChainId,
    pub port_id: PortId,
    pub channel_id: ChannelId,
    pub packet_sequence: u64,
    /// The transaction that sent the packet.
    pub tx_hash: String,
    /// The key that signs for the chain, if not the configured one.
    pub key_name: Option<String>,
    /// The key that signs for the counterparty chain, if not the configured one.
    pub counterparty_key_name: Option<String>,
}

/// What a command to clear a channel says.
pub struct PacketsView {
    pub chain_id: Seq<char>,
    pub port_id: Seq<char>,
    pub channel_id: Seq<char>,
    pub key_name: Option<Seq<char>>,
    pub counterparty_key_name: Option<Seq<char>>,
}

impl View for ClearPacketsCmd {
    type V = PacketsView;

    open spec fn view(&self) -> PacketsView {
        PacketsView {
            chain_id: self.chain_id@,
            port_id: self.port_id@,
            channel_id: self.channel_id@,
            key_name: self.key_name.deep_view(),
            counterparty_key_name: self.counterparty_key_name.deep_view(),
        }
    }
}

/// What a command to clear one packet says.
pub struct ManualView {
    pub chain_id: Seq<char>,
    pub port_id: Seq<char>,
    pub channel_id: Seq<char>,
    pub packet_sequence: u64,
    pub tx_hash: Seq<char>,
    pub key_name: Option<Seq<char>>,
    pub counterparty_key_name: Option<Seq<char>>,
}

impl View for ClearManualCmd {
    type V = ManualView;

    open spec fn view(&self) -> ManualView {
        ManualView {
            chain_id: self.chain_id@,
            port_id: self.port_id@,
            channel_id: self.channel_id@,
            packet_sequence: self.packet_sequence,
            tx_hash: self.tx_hash@,
            key_name: self.key_name.deep_view(),
            counterparty_key_name: self.counterparty_key_name.deep_view(),
        }
    }
}

/// What a command says.
pub enum ClearView {
    Packets(PacketsView),
    Manual(ManualView),
}

impl View for ClearCmds {
    type V = ClearView;

    open spec fn view(&self) -> ClearView {
        match self {
            ClearCmds::Packets(cmd) => ClearView::Packets(cmd@),
            ClearCmds::Manual(cmd) => ClearView::Manual(cmd@),
        }
    }
}

/// A value that is malformed, and the option that it was given for.
#[derive(Debug, PartialEq, Eq)]
pub struct InvalidValue {
    pub option: String,
    pub value: String,
}

/// What an [`InvalidValue`] says.
pub struct InvalidValueView {
    pub option: Seq<char>,
    pub value: Seq<char>,
}

impl View for InvalidValue {
    type V = InvalidValueView;

    open spec fn view(&self) -> InvalidValueView {
        InvalidValueView { option: self.option@, value: self.value@ }
    }
}

/// Why a command line gives no command.
#[derive(Debug, PartialEq, Eq)]
pub enum ArgsError {
    /// The arguments are not those of the command, or they ask for help.
    Refused(Refusal),
    /// A required option has no value.
    Missing,
    /// The value of an option is malformed. Of several it is the first one in the
    /// order port, channel, sequence.
    Invalid(InvalidValue),
}

/// What an [`ArgsError`] says.
pub enum ArgsErrorView {
    Refused(RefusalView),
    Missing,
    Invalid(InvalidValueView),
}

impl View for ArgsError {
    type V = ArgsErrorView;

    open spec fn view(&self) -> ArgsErrorView {
        match self {
            ArgsError::Refused(refusal) => ArgsErrorView::Refused(refusal@),
            ArgsError::Missing => ArgsErrorView::Missing,
            ArgsError::Invalid(invalid) => ArgsErrorView::Invalid(invalid@),
        }
    }
}

/// What is told of a command line that gives no command.
pub open spec fn args_error_text(error: ArgsErrorView) -> Seq<char> {
    match error {
        ArgsErrorView::Refused(refusal) => refusal.text,
        ArgsErrorView::Missing => "A required option has no value"@,
        ArgsErrorView::Invalid(invalid) => "Invalid value \""@ + invalid.value + "\" for '--"@
            + invalid.option + "'"@,
    }
}

impl ArgsError {
    /// What is told of the error.
    pub fn message(&self) -> (text: String)
        ensures
            text@ == args_error_text(self@),
    {
        match self {
            ArgsError::Refused(refusal) => refusal.text.clone(),
            ArgsError::Missing => "A required option has no value".to_owned(),
            ArgsError::Invalid(invalid) => {
                let mut text = "Invalid value \"".to_owned();
                text.append(invalid.value.as_str());
                text.append("\" for '--");
                text.append(invalid.option.as_str());
                text.append("'");
                text
            },
        }
    }
}

/// A result by its views.
pub open spec fn parsed_view<T: View>(parsed: Result<T, ArgsError>) -> Result<T::V, ArgsErrorView> {
    match parsed {
        Ok(cmd) => Ok(cmd@),
        Err(e) => Err(e@),
    }
}

/// The value of the option at an index, if there is one.
pub open spec fn value_at(values: Seq<Option<Seq<char>>>, i: int) -> Option<Seq<char>> {
    if 0 <= i < values.len() {
        values[i]
    } else {
        None
    }
}

/// The error for a malformed value.
pub open spec fn invalid_value(option: Seq<char>, value: Seq<char>) -> ArgsErrorView {
    ArgsErrorView::Invalid(InvalidValueView { option, value })
}

/// The end of a channel that the values of its three options give.
pub open spec fn end_from(chain: Seq<char>, port: Seq<char>, channel: Seq<char>) -> Result<
    ChannelEndView,
    ArgsErrorView,
> {
    match parsed_port_id(port) {
        None => Err(invalid_value("port"@, port)),
        Some(port_id) => match parsed_channel_id(channel) {
            None => Err(invalid_value("channel"@, channel)),
            Some(channel_id) => Ok(ChannelEndView { chain_id: chain, port_id, channel_id }),
        },
    }
}

/// The command that the option values chain, port, channel, key name and
/// counterparty key name give.
pub open spec fn packets_from(values: Seq<Option<Seq<char>>>) -> Result<
    PacketsView,
    ArgsErrorView,
> {
    match (value_at(values, 0), value_at(values, 1), value_at(values, 2)) {
        (Some(chain), Some(port), Some(channel)) => match end_from(chain, port, channel) {
            Err(e) => Err(e),
            Ok(end) => Ok(
                PacketsView {
                    chain_id: end.chain_id,
                    port_id: end.port_id,
                    channel_id: end.channel_id,
                    key_name: value_at(values, 3),
                    counterparty_key_name: value_at(values, 4),
                },
            ),
        },
        _ => Err(ArgsErrorView::Missing),
    }
}

/// The command that the option values chain, port, channel, sequence, transaction
/// hash, key name and counterparty key name give.
pub open spec fn manual_from(values: Seq<Option<Seq<char>>>) -> Result<ManualView, ArgsErrorView> {
    match (
        value_at(values, 0),
        value_at(values, 1),
        value_at(values, 2),
        value_at(values, 3),
        value_at(values, 4),
    ) {
        (Some(chain), Some(port), Some(channel), Some(sequence), Some(tx_hash)) => match end_from(
            chain,
            port,
            channel,
        ) {
            Err(e) => Err(e),
            Ok(end) => match decimal_u64(sequence) {
                None => Err(invalid_value("sequence"@, sequence)),
                Some(packet_sequence) => Ok(
                    ManualView {
                        chain_id: end.chain_id,
                        port_id: end.port_id,
                        channel_id: end.channel_id,
                        packet_sequence,
                        tx_hash,
                        key_name: value_at(values, 5),
                        counterparty_key_name: value_at(values, 6),
                    },
                ),
            },
        },
        _ => Err(ArgsErrorView::Missing),
    }
}

/// The arguments with the name of a command behind that of the program.
pub open spec fn with_command(argv: Seq<Seq<char>>, name: Seq<char>) -> Seq<Seq<char>> {
    if argv.len() == 0 {
        seq![""@, name]
    } else {
        seq![argv[0], name] + argv.skip(1)
    }
}

/// The names of the options are different.
proof fn lemma_option_names()
    ensures
        "chain"@ != "port"@,
        "chain"@ != "channel"@,
        "chain"@ != "sequence"@,
        "chain"@ != "tx_hash"@,
        "chain"@ != "key-name"@,
        "chain"@ != "counterparty-key-name"@,
        "port"@ != "channel"@,
        "port"@ != "sequence"@,
        "port"@ != "tx_hash"@,
        "port"@ != "key-name"@,
        "port"@ != "counterparty-key-name"@,
        "channel"@ != "sequence"@,
        "channel"@ != "tx_hash"@,
        "channel"@ != "key-name"@,
        "channel"@ != "counterparty-key-name"@,
        "sequence"@ != "tx_hash"@,
        "sequence"@ != "key-name"@,
        "sequence"@ != "counterparty-key-name"@,
        "tx_hash"@ != "key-name"@,
        "tx_hash"@ != "counterparty-key-name"@,
        "key-name"@ != "counterparty-key-name"@,
{
    reveal_strlit("chain");
    reveal_strlit("port");
    reveal_strlit("channel");
    reveal_strlit("sequence");
    reveal_strlit("tx_hash");
    reveal_strlit("key-name");
    reveal_strlit("counterparty-key-name");
    assert("chain"@.len() == 5 && "port"@.len() == 4 && "channel"@.len() == 7 && "sequence"@.len()
        == 8 && "tx_hash"@.len() == 7 && "key-name"@.len() == 8 && "counterparty-key-name"@.len()
        == 21);
    assert("channel"@[0] != "tx_hash"@[0]);
    assert("sequence"@[0] != "key-name"@[0]);
}

/// A command has the option, under its name and aliases.
pub open spec fn has_option(
    command: CommandSpecView,
    long: Seq<char>,
    aliases: Seq<Seq<char>>,
    required: bool,
) -> bool {
    exists|i: int|
        {
            &&& 0 <= i < command.options.len()
            &&& (#[trigger] command.options[i]).long == long
            &&& command.options[i].aliases == aliases
            &&& command.options[i].required == required
        }
}

/// Both commands take the end of a channel, which must be given, and two key names,
/// which may be left out; the command for one packet also takes its sequence number and
/// transaction, which must be given. Neither takes any other option.
pub proof fn law_command_options()
    ensures
        forall|c: int| #![trigger clear_subcommands()[c]]
            0 <= c < clear_subcommands().len() ==> {
                let command = clear_subcommands()[c];
                &&& has_option(command, "chain"@, Seq::empty(), true)
                &&& has_option(command, "port"@, Seq::empty(), true)
                &&& has_option(command, "channel"@, seq!["chan"@], true)
                &&& has_option(command, "key-name"@, Seq::empty(), false)
                &&& has_option(command, "counterparty-key-name"@, Seq::empty(), false)
                &&& command.name == "manual"@ ==> has_option(
                    command,
                    "sequence"@,
                    seq!["seq"@],
                    true,
                ) && has_option(command, "tx_hash"@, seq!["hash"@], true)
                &&& command.options.len() == (if command.name == "manual"@ {
                    7int
                } else {
                    5int
                })
            },
        clear_subcommands().len() == 2,
        clear_subcommands()[0].name == "packets"@,
        clear_subcommands()[1].name == "manual"@,
{
    reveal_strlit("packets");
    reveal_strlit("manual");
    assert("packets"@.len() != "manual"@.len());
    assert(clear_subcommands()[0] == packets_command());
    assert(clear_subcommands()[1] == manual_command());
    let packets = packets_command().options;
    assert(packets[0].long == "chain"@ && packets[1].long == "port"@ && packets[2].long
        == "channel"@ && packets[3].long == "key-name"@ && packets[4].long
        == "counterparty-key-name"@);
    let manual = manual_command().options;
    assert(manual[0].long == "chain"@ && manual[1].long == "port"@ && manual[2].long == "channel"@
        && manual[3].long == "sequence"@ && manual[4].long == "tx_hash"@ && manual[5].long
        == "key-name"@ && manual[6].long == "counterparty-key-name"@);
}

/// Every field of a command to clear a channel is the value of the option that is named
/// like it.
pub proof fn law_packets_fields(values: Seq<Option<Seq<char>>>, i: int)
    requires
        values.len() == packets_command().options.len(),
        0 <= i < values.len(),
    ensures
        packets_from(values) matches Ok(cmd) ==> {
            let long = packets_command().options[i].long;
            &&& long == "chain"@ ==> values[i] == Some(cmd.chain_id)
            &&& long == "port"@ ==> values[i] is Some && parsed_port_id(values[i]->0) == Some(
                cmd.port_id,
            )
            &&& long == "channel"@ ==> values[i] is Some && parsed_channel_id(values[i]->0) == Some(
                cmd.channel_id,
            )
            &&& long == "key-name"@ ==> values[i] == cmd.key_name
            &&& long == "counterparty-key-name"@ ==> values[i] == cmd.counterparty_key_name
        },
{
    lemma_option_names();
}

/// Every field of a command to clear one packet is the value of the option that is
/// named like it.
pub proof fn law_manual_fields(values: Seq<Option<Seq<char>>>, i: int)
    requires
        values.len() == manual_command().options.len(),
        0 <= i < values.len(),
    ensures
        manual_from(values) matches Ok(cmd) ==> {
            let long = manual_command().options[i].long;
            &&& long == "chain"@ ==> values[i] == Some(cmd.chain_id)
            &&& long == "port"@ ==> values[i] is Some && parsed_port_id(values[i]->0) == Some(
                cmd.port_id,
            )
            &&& long == "channel"@ ==> values[i] is Some && parsed_channel_id(values[i]->0) == Some(
                cmd.channel_id,
            )
            &&& long == "sequence"@ ==> values[i] is Some && writes_number(
                values[i]->0,
                cmd.packet_sequence as nat,
            )
            &&& long == "tx_hash"@ ==> values[i] == Some(cmd.tx_hash)
            &&& long == "key-name"@ ==> values[i] == cmd.key_name
            &&& long == "counterparty-key-name"@ ==> values[i] == cmd.counterparty_key_name
        },
{
    lemma_option_names();
    if let Ok(cmd) = manual_from(values) {
        law_decimal_exact(values[3]->0, cmd.packet_sequence);
    }
}

/// The value cannot be that of the option.
pub open spec fn is_malformed(option: Seq<char>, value: Seq<char>) -> bool {
    ||| option == "port"@ && parsed_port_id(value) is None
    ||| option == "channel"@ && parsed_channel_id(value) is None
    ||| option == "sequence"@ && forall|n: u64| !writes_number(value, n as nat)
}

/// An option that must be given has no value.
pub open spec fn lacks_required(
    options: Seq<OptionSpecView>,
    values: Seq<Option<Seq<char>>>,
) -> bool {
    exists|i: int|
        0 <= i < options.len() && (#[trigger] options[i]).required && values[i] is None
}

/// An option has a malformed value.
pub open spec fn has_malformed(
    options: Seq<OptionSpecView>,
    values: Seq<Option<Seq<char>>>,
) -> bool {
    exists|i: int|
        0 <= i < options.len() && values[i] is Some && is_malformed(
            (#[trigger] options[i]).long,
            values[i]->0,
        )
}

/// The malformed value that is told is one that was given, for the option that is told;
/// the values of options before it are well-formed.
pub open spec fn is_first_malformed(
    options: Seq<OptionSpecView>,
    values: Seq<Option<Seq<char>>>,
    invalid: InvalidValueView,
) -> bool {
    exists|i: int|
        {
            &&& 0 <= i < options.len()
            &&& (#[trigger] options[i]).long == invalid.option
            &&& values[i] == Some(invalid.value)
            &&& is_malformed(invalid.option, invalid.value)
            &&& forall|j: int|
                0 <= j < i && values[j] is Some ==> !is_malformed(
                    (#[trigger] options[j]).long,
                    values[j]->0,
                )
        }
}

/// Option values give a command to clear a channel if and only if none is missing that
/// must be given, and none is malformed. Otherwise the error tells which of the two it
/// is, and which value is malformed.
pub proof fn law_packets_refused(values: Seq<Option<Seq<char>>>)
    requires
        values.len() == packets_command().options.len(),
    ensures
        ({
            let options = packets_command().options;
            match packets_from(values) {
                Ok(_) => !lacks_required(options, values) && !has_malformed(options, values),
                Err(ArgsErrorView::Missing) => lacks_required(options, values),
                Err(ArgsErrorView::Invalid(invalid)) => {
                    &&& !lacks_required(options, values)
                    &&& is_first_malformed(options, values, invalid)
                },
                Err(ArgsErrorView::Refused(_)) => false,
            }
        }),
{
    lemma_option_names();
    let options = packets_command().options;
    assert(options[0].required && options[1].required && options[2].required);
    assert(options[0].long == "chain"@ && options[1].long == "port"@ && options[2].long
        == "channel"@);
}

/// Option values give a command to clear one packet if and only if none is missing that
/// must be given, and none is malformed. Otherwise the error tells which of the two it
/// is, and which value is malformed.
pub proof fn law_manual_refused(values: Seq<Option<Seq<char>>>)
    requires
        values.len() == manual_command().options.len(),
    ensures
        ({
            let options = manual_command().options;
            match manual_from(values) {
                Ok(_) => !lacks_required(options, values) && !has_malformed(options, values),
                Err(ArgsErrorView::Missing) => lacks_required(options, values),
                Err(ArgsErrorView::Invalid(invalid)) => {
                    &&& !lacks_required(options, values)
                    &&& is_first_malformed(options, values, invalid)
                },
                Err(ArgsErrorView::Refused(_)) => false,
            }
        }),
{
    lemma_option_names();
    let options = manual_command().options;
    assert(options[0].required && options[1].required && options[2].required);
    assert(options[3].required && options[4].required);
    assert(options[0].long == "chain"@ && options[1].long == "port"@ && options[2].long
        == "channel"@ && options[3].long == "sequence"@ && options[4].long == "tx_hash"@);
    if let Some(sequence) = values[3] {
        match decimal_u64(sequence) {
            Some(n) => {
                law_decimal_exact(sequence, n);
                assert(writes_number(sequence, n as nat));
            },
            None => {
                assert forall|n: u64| !writes_number(sequence, n as nat) by {
                    law_decimal_exact(sequence, n);
                }
            },
        }
    }
}

/// The name of the command stands behind that of the program, and all other arguments
/// stay, in order.
pub proof fn law_with_command(argv: Seq<Seq<char>>, name: Seq<char>, i: int)
    ensures
        with_command(argv, name).len() > 1,
        with_command(argv, name)[1] == name,
        argv.len() > 0 ==> {
            &&& with_command(argv, name).len() == argv.len() + 1
            &&& with_command(argv, name)[0] == argv[0]
            &&& 0 < i < argv.len() ==> with_command(argv, name)[i + 1] == argv[i]
        },
{
}

/// The option values of the subcommand at an index.
pub open spec fn choice_at(choices: Seq<Seq<Option<Seq<char>>>>, i: int) -> Seq<
    Option<Seq<char>>,
> {
    if 0 <= i < choices.len() {
        choices[i]
    } else {
        Seq::empty()
    }
}

/// The command that a matched command line gives; a refusal is handed on.
pub open spec fn packets_outcome(
    matched: Result<Seq<Seq<Option<Seq<char>>>>, RefusalView>,
) -> Result<PacketsView, ArgsErrorView> {
    match matched {
        Ok(choices) => packets_from(choice_at(choices, 0)),
        Err(refusal) => Err(ArgsErrorView::Refused(refusal)),
    }
}

/// `parsed` is what the arguments `argv` of the command give, whatever the text of a
/// refusal.
pub open spec fn packets_parsed(
    argv: Seq<Seq<char>>,
    parsed: Result<PacketsView, ArgsErrorView>,
) -> bool {
    match matched_subcommands(
        clear_name(),
        clear_subcommands(),
        with_command(argv, packets_command().name),
    ) {
        Ok(choices) => parsed == packets_from(choice_at(choices, 0)),
        Err(error) => parsed matches Err(ArgsErrorView::Refused(refusal)) && refusal.help == !error,
    }
}

/// The command that a matched command line gives; a refusal is handed on.
pub open spec fn manual_outcome(
    matched: Result<Seq<Seq<Option<Seq<char>>>>, RefusalView>,
) -> Result<ManualView, ArgsErrorView> {
    match matched {
        Ok(choices) => manual_from(choice_at(choices, 1)),
        Err(refusal) => Err(ArgsErrorView::Refused(refusal)),
    }
}

/// `parsed` is what the arguments `argv` of the command give, whatever the text of a
/// refusal.
pub open spec fn manual_parsed(
    argv: Seq<Seq<char>>,
    parsed: Result<ManualView, ArgsErrorView>,
) -> bool {
    match matched_subcommands(
        clear_name(),
        clear_subcommands(),
        with_command(argv, manual_command().name),
    ) {
        Ok(choices) => parsed == manual_from(choice_at(choices, 1)),
        Err(error) => parsed matches Err(ArgsErrorView::Refused(refusal)) && refusal.help == !error,
    }
}

/// The command that the option values of the two subcommands give: the first one if
/// it has a chain, else the second one.
pub open spec fn clear_from(choices: Seq<Seq<Option<Seq<char>>>>) -> Result<
    ClearView,
    ArgsErrorView,
> {
    if value_at(choice_at(choices, 0), 0) is Some {
        match packets_from(choice_at(choices, 0)) {
            Ok(cmd) => Ok(ClearView::Packets(cmd)),
            Err(e) => Err(e),
        }
    } else {
        match manual_from(choice_at(choices, 1)) {
            Ok(cmd) => Ok(ClearView::Manual(cmd)),
            Err(e) => Err(e),
        }
    }
}

/// The command that a matched command line gives; a refusal is handed on.
pub open spec fn clear_outcome(
    matched: Result<Seq<Seq<Option<Seq<char>>>>, RefusalView>,
) -> Result<ClearView, ArgsErrorView> {
    match matched {
        Ok(choices) => clear_from(choices),
        Err(refusal) => Err(ArgsErrorView::Refused(refusal)),
    }
}

/// `parsed` is what the arguments `argv` of the command give, whatever the text of a
/// refusal.
pub open spec fn clear_parsed(
    argv: Seq<Seq<char>>,
    parsed: Result<ClearView, ArgsErrorView>,
) -> bool {
    match matched_subcommands(
        clear_name(),
        clear_subcommands(),
        argv,
    ) {
        Ok(choices) => parsed == clear_from(choices),
        Err(error) => parsed matches Err(ArgsErrorView::Refused(refusal)) && refusal.help == !error,
    }
}

/// Of the two subcommands the one that was given option values is built from its own
/// values, and its error is told.
pub proof fn law_chosen_command(choices: Seq<Seq<Option<Seq<char>>>>)
    requires
        choices.len() == clear_subcommands().len(),
        forall|c: int|
            0 <= c < choices.len() ==> (#[trigger] choices[c]).len()
                == clear_subcommands()[c].options.len(),
    ensures
        !lacks_required(packets_command().options, choices[0]) ==> clear_from(choices) == (
        match packets_from(choices[0]) {
            Ok(cmd) => Ok(ClearView::Packets(cmd)),
            Err(e) => Err(e),
        }),
        (forall|k: int| 0 <= k < choices[0].len() ==> (#[trigger] choices[0][k]) is None)
            ==> clear_from(choices) == (match manual_from(choices[1]) {
            Ok(cmd) => Ok(ClearView::Manual(cmd)),
            Err(e) => Err(e),
        }),
        clear_from(choices) matches Ok(ClearView::Packets(cmd)) ==> packets_from(choices[0])
            == Ok::<_, ArgsErrorView>(cmd),
        clear_from(choices) matches Ok(ClearView::Manual(cmd)) ==> manual_from(choices[1])
            == Ok::<_, ArgsErrorView>(cmd) && lacks_required(
            packets_command().options,
            choices[0],
        ),
{
    assert(choices[0].len() == clear_subcommands()[0].options.len());
    assert(choices[1].len() == clear_subcommands()[1].options.len());
    assert(packets_command().options[0].required);
}

/// What clap refuses is handed on as it is; what it matches is never refused, and each
/// command is built from the values of its own options.
pub proof fn law_matched_command(
    choices: Seq<Seq<Option<Seq<char>>>>,
    refusal: RefusalView,
)
    requires
        choices.len() == clear_subcommands().len(),
    ensures
        packets_outcome(Err(refusal)) == Err::<PacketsView, _>(ArgsErrorView::Refused(refusal)),
        manual_outcome(Err(refusal)) == Err::<ManualView, _>(ArgsErrorView::Refused(refusal)),
        clear_outcome(Err(refusal)) == Err::<ClearView, _>(ArgsErrorView::Refused(refusal)),
        packets_outcome(Ok(choices)) == packets_from(choices[0]),
        manual_outcome(Ok(choices)) == manual_from(choices[1]),
        clear_outcome(Ok(choices)) == clear_from(choices),
        clear_outcome(Ok(choices)) matches Err(e) ==> e !is Refused,
{
}

/// To read the arguments of a command alone is to read them with the command's name
/// behind that of the program: the same command comes out, and what is refused is
/// refused, as an error or as help, both ways.
pub proof fn law_command_alone(
    argv: Seq<Seq<char>>,
    packets: Result<PacketsView, ArgsErrorView>,
    manual: Result<ManualView, ArgsErrorView>,
    named_packets: Result<ClearView, ArgsErrorView>,
    named_manual: Result<ClearView, ArgsErrorView>,
)
    requires
        packets_parsed(argv, packets),
        manual_parsed(argv, manual),
        clear_parsed(with_command(argv, "packets"@), named_packets),
        clear_parsed(with_command(argv, "manual"@), named_manual),
    ensures
        packets matches Ok(cmd) ==> named_packets == Ok::<_, ArgsErrorView>(
            ClearView::Packets(cmd),
        ),
        named_packets matches Ok(ClearView::Packets(cmd)) ==> packets == Ok::<_, ArgsErrorView>(
            cmd,
        ),
        named_manual matches Ok(ClearView::Manual(cmd)) ==> manual == Ok::<_, ArgsErrorView>(cmd),
        packets matches Err(ArgsErrorView::Refused(a)) ==> (named_packets matches Err(
            ArgsErrorView::Refused(b),
        ) && a.help == b.help),
        manual matches Err(ArgsErrorView::Refused(a)) ==> (named_manual matches Err(
            ArgsErrorView::Refused(b),
        ) && a.help == b.help),
        named_packets matches Err(ArgsErrorView::Refused(_)) ==> (packets matches Err(
            ArgsErrorView::Refused(_),
        )),
        named_manual matches Err(ArgsErrorView::Refused(_)) ==> (manual matches Err(
            ArgsErrorView::Refused(_),
        )),
{
}

/// Puts the name of a command behind that of the program.
fn name_command<'a>(argv: &[&'a str], name: &'a str) -> (line: Vec<&'a str>)
    ensures
        line.deep_view() == with_command(argv.deep_view(), name@),
{
    let mut line: Vec<&'a str> = Vec::new();
    line.push(if argv.len() > 0 { argv[0] } else { "" });
    line.push(name);
    let ghost start = line@;
    let mut i: usize = 1;
    while i < argv.len()
        invariant
            1 <= i,
            argv@.len() > 0 ==> i <= argv@.len(),
            argv@.len() == 0 ==> line@ == start,
            argv@.len() > 0 ==> line@ == start + argv@.subrange(1, i as int),
        decreases argv.len() - i,
    {
        line.push(argv[i]);
        i = i + 1;
    }
    assert(line.deep_view() =~= with_command(argv.deep_view(), name@));
    line
}

/// A copy of an option's value.
fn take_value(values: &Vec<Option<String>>, i: usize) -> (value: Option<String>)
    ensures
        value.deep_view() == value_at(values_view(values@), i as int),
{
    if i < values.len() {
        match &values[i] {
            Some(value) => Some(value.clone()),
            None => None,
        }
    } else {
        None
    }
}

/// The end of a channel that the values of its three options give.
fn channel_end(chain: String, port: String, channel: String) -> (end: Result<ChannelEnd, ArgsError>)
    ensures
        parsed_view(end) == end_from(chain@, port@, channel@),
{
    let port_id = match PortId::from_str(port.as_str()) {
        Some(port_id) => port_id,
        None => return Err(
            ArgsError::Invalid(InvalidValue { option: "port".to_owned(), value: port }),
        ),
    };
    let channel_id = match ChannelId::from_str(channel.as_str()) {
        Some(channel_id) => channel_id,
        None => return Err(
            ArgsError::Invalid(InvalidValue { option: "channel".to_owned(), value: channel }),
        ),
    };
    Ok(ChannelEnd { chain_id: ChainId { id: chain }, port_id, channel_id })
}

impl ClearPacketsCmd {
    /// Builds the command from the values of its options.
    pub fn from_values(values: &Vec<Option<String>>) -> (parsed: Result<ClearPacketsCmd, ArgsError>)
        ensures
            parsed_view(parsed) == packets_from(values_view(values@)),
    {
        match (take_value(values, 0), take_value(values, 1), take_value(values, 2)) {
            (Some(chain), Some(port), Some(channel)) => match channel_end(chain, port, channel) {
                Ok(end) => Ok(
                    ClearPacketsCmd {
                        chain_id: end.chain_id,
                        port_id: end.port_id,
                        channel_id: end.channel_id,
                        key_name: take_value(values, 3),
                        counterparty_key_name: take_value(values, 4),
                    },
                ),
                Err(e) => Err(e),
            },
            _ => Err(ArgsError::Missing),
        }
    }

    /// Builds the command from the option values of the subcommands.
    fn from_choices(choices: &Vec<Vec<Option<String>>>) -> (parsed: Result<ClearPacketsCmd, ArgsError>)
        ensures
            parsed_view(parsed) == packets_from(choice_at(choices_view(choices@), 0)),
    {
        if choices.len() > 0 {
            ClearPacketsCmd::from_values(&choices[0])
        } else {
            Err(ArgsError::Missing)
        }
    }

    /// Builds the command from a matched command line.
    pub fn from_matched(matched: Result<Vec<Vec<Option<String>>>, Refusal>) -> (parsed:
        Result<ClearPacketsCmd, ArgsError>)
        ensures
            parsed_view(parsed) == packets_outcome(matched_view(matched)),
    {
        match matched {
            Ok(choices) => ClearPacketsCmd::from_choices(&choices),
            Err(refusal) => Err(ArgsError::Refused(refusal)),
        }
    }

    /// Reads the arguments of the command; the first of them is the program's name.
    pub fn try_parse_from(argv: &[&str]) -> (parsed: Result<ClearPacketsCmd, ArgsError>)
        ensures
            packets_parsed(argv.deep_view(), parsed_view(parsed)),
            parsed_view(parsed) != Err::<PacketsView, _>(ArgsErrorView::Missing),
    {
        let line = name_command(argv, packets_spec().name);
        proof {
            let options = clear_subcommands()[0].options;
            assert(options[0].required && options[1].required && options[2].required);
        }
        ClearPacketsCmd::from_matched(match_line(line.as_slice()))
    }

    /// The end of the channel that the command names.
    pub fn channel_end(&self) -> (end: ChannelEnd)
        ensures
            end@ == (ChannelEndView {
                chain_id: self@.chain_id,
                port_id: self@.port_id,
                channel_id: self@.channel_id,
            }),
    {
        ChannelEnd {
            chain_id: self.chain_id.clone(),
            port_id: self.port_id.clone(),
            channel_id: self.channel_id.clone(),
        }
    }

    /// Lets the chain of the command sign with the key of the command.
    pub fn override_config(&self, config: Config) -> (result: Result<Config, MissingChain>)
        ensures
            match result {
                Ok(changed) => overridden(config@, self@.chain_id, self@.key_name) == Some(
                    changed@,
                ),
                Err(e) => {
                    &&& overridden(config@, self@.chain_id, self@.key_name) is None
                    &&& e.chain_id@ == self@.chain_id
                },
            },
    {
        override_key(config, &self.chain_id, &self.key_name)
    }

    /// Lets the counterparty chain sign with the counterparty key of the command.
    pub fn override_counterparty(&self, config: ChainConfig) -> (changed: ChainConfig)
        ensures
            changed@ == with_key(config@, self@.counterparty_key_name),
    {
        set_key(config, &self.counterparty_key_name)
    }
}

impl ClearManualCmd {
    /// Builds the command from the values of its options.
    pub fn from_values(values: &Vec<Option<String>>) -> (parsed: Result<ClearManualCmd, ArgsError>)
        ensures
            parsed_view(parsed) == manual_from(values_view(values@)),
    {
        match (
            take_value(values, 0),
            take_value(values, 1),
            take_value(values, 2),
            take_value(values, 3),
            take_value(values, 4),
        ) {
            (Some(chain), Some(port), Some(channel), Some(sequence), Some(tx_hash)) => {
                let end = match channel_end(chain, port, channel) {
                    Ok(end) => end,
                    Err(e) => return Err(e),
                };
                match sequence_from_str(sequence.as_str()) {
                    Some(packet_sequence) => Ok(
                        ClearManualCmd {
                            chain_id: end.chain_id,
                            port_id: end.port_id,
                            channel_id: end.channel_id,
                            packet_sequence,
                            tx_hash,
                            key_name: take_value(values, 5),
                            counterparty_key_name: take_value(values, 6),
                        },
                    ),
                    None => Err(
                        ArgsError::Invalid(
                            InvalidValue { option: "sequence".to_owned(), value: sequence },
                        ),
                    ),
                }
            },
            _ => Err(ArgsError::Missing),
        }
    }

    /// Builds the command from the option values of the subcommands.
    fn from_choices(choices: &Vec<Vec<Option<String>>>) -> (parsed: Result<ClearManualCmd, ArgsError>)
        ensures
            parsed_view(parsed) == manual_from(choice_at(choices_view(choices@), 1)),
    {
        if choices.len() > 1 {
            ClearManualCmd::from_values(&choices[1])
        } else {
            Err(ArgsError::Missing)
        }
    }

    /// Builds the command from a matched command line.
    pub fn from_matched(matched: Result<Vec<Vec<Option<String>>>, Refusal>) -> (parsed:
        Result<ClearManualCmd, ArgsError>)
        ensures
            parsed_view(parsed) == manual_outcome(matched_view(matched)),
    {
        match matched {
            Ok(choices) => ClearManualCmd::from_choices(&choices),
            Err(refusal) => Err(ArgsError::Refused(refusal)),
        }
    }

    /// Reads the arguments of the command; the first of them is the program's name.
    pub fn try_parse_from(argv: &[&str]) -> (parsed: Result<ClearManualCmd, ArgsError>)
        ensures
            manual_parsed(argv.deep_view(), parsed_view(parsed)),
            parsed_view(parsed) != Err::<ManualView, _>(ArgsErrorView::Missing),
    {
        let line = name_command(argv, manual_spec().name);
        proof {
            let options = clear_subcommands()[1].options;
            assert(options[0].required && options[1].required && options[2].required);
            assert(options[3].required && options[4].required);
        }
        ClearManualCmd::from_matched(match_line(line.as_slice()))
    }

    /// The end of the channel that the command names.
    pub fn channel_end(&self) -> (end: ChannelEnd)
        ensures
            end@ == (ChannelEndView {
                chain_id: self@.chain_id,
                port_id: self@.port_id,
                channel_id: self@.channel_id,
            }),
    {
        ChannelEnd {
            chain_id: self.chain_id.clone(),
            port_id: self.port_id.clone(),
            channel_id: self.channel_id.clone(),
        }
    }

    /// Lets the chain of the command sign with the key of the command.
    pub fn override_config(&self, config: Config) -> (result: Result<Config, MissingChain>)
        ensures
            match result {
                Ok(changed) => overridden(config@, self@.chain_id, self@.key_name) == Some(
                    changed@,
                ),
                Err(e) => {
                    &&& overridden(config@, self@.chain_id, self@.key_name) is None
                    &&& e.chain_id@ == self@.chain_id
                },
            },
    {
        override_key(config, &self.chain_id, &self.key_name)
    }

    /// Lets the counterparty chain sign with the counterparty key of the command.
    pub fn override_counterparty(&self, config: ChainConfig) -> (changed: ChainConfig)
        ensures
            changed@ == with_key(config@, self@.counterparty_key_name),
    {
        set_key(config, &self.counterparty_key_name)
    }
}

impl ClearCmds {
    /// Builds the chosen command from a matched command line.
    pub fn from_matched(matched: Result<Vec<Vec<Option<String>>>, Refusal>) -> (parsed:
        Result<ClearCmds, ArgsError>)
        ensures
            parsed_view(parsed) == clear_outcome(matched_view(matched)),
    {
        match matched {
            Ok(choices) => if choices.len() > 0 && choices[0].len() > 0 && choices[0][0].is_some() {
                match ClearPacketsCmd::from_choices(&choices) {
                    Ok(cmd) => Ok(ClearCmds::Packets(cmd)),
                    Err(e) => Err(e),
                }
            } else {
                match ClearManualCmd::from_choices(&choices) {
                    Ok(cmd) => Ok(ClearCmds::Manual(cmd)),
                    Err(e) => Err(e),
                }
            },
            Err(refusal) => Err(ArgsError::Refused(refusal)),
        }
    }

    /// Reads a command line; its first element is the program's name, and the
    /// command's name comes next.
    pub fn try_parse_from(argv: &[&str]) -> (parsed: Result<ClearCmds, ArgsError>)
        ensures
            clear_parsed(argv.deep_view(), parsed_view(parsed)),
            parsed_view(parsed) != Err::<ClearView, _>(ArgsErrorView::Missing),
            argv@.len() > 1 && argv@[1]@ == packets_command().name && parsed is Ok
                ==> parsed->Ok_0 is Packets,
            argv@.len() > 1 && argv@[1]@ == manual_command().name && parsed is Ok
                ==> parsed->Ok_0 is Manual,
    {
        proof {
            let packets = clear_subcommands()[0].options;
            assert(packets[0].required && packets[1].required && packets[2].required);
            let manual = clear_subcommands()[1].options;
            assert(manual[0].required && manual[1].required && manual[2].required);
            assert(manual[3].required && manual[4].required);
        }
        ClearCmds::from_matched(match_line(argv))
    }
}

} // verus!
