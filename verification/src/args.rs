//! The command lines of the clearing commands.

use abscissa_core::clap::AppSettings::SubcommandRequiredElseHelp;
use abscissa_core::clap::{Arg, Command};
use std::str::FromStr;

use vstd::prelude::*;

use crate::text::decimal_u64;

verus! {

/// An option of a command; it takes one value.
pub struct OptionSpec {
    pub long: &'static str,
    pub aliases: Vec<&'static str>,
    pub required: bool,
    pub value_name: &'static str,
    pub help: &'static str,
    pub help_heading: Option<&'static str>,
}

/// What an option is called and whether it must be given.
pub struct OptionSpecView {
    pub long: Seq<char>,
    pub aliases: Seq<Seq<char>>,
    pub required: bool,
    pub value_name: Seq<char>,
    pub help: Seq<char>,
    pub help_heading: Option<Seq<char>>,
}

impl View for OptionSpec {
    type V = OptionSpecView;

    open spec fn view(&self) -> OptionSpecView {
        OptionSpecView {
            long: self.long@,
            aliases: self.aliases.deep_view(),
            required: self.required,
            value_name: self.value_name@,
            help: self.help@,
            help_heading: self.help_heading.deep_view(),
        }
    }
}

/// A command and its options.
pub struct CommandSpec {
    pub name: &'static str,
    pub about: &'static str,
    pub options: Vec<OptionSpec>,
}

/// What a command is called and which options it has.
pub struct CommandSpecView {
    pub name: Seq<char>,
    pub about: Seq<char>,
    pub options: Seq<OptionSpecView>,
}

impl View for CommandSpec {
    type V = CommandSpecView;

    open spec fn view(&self) -> CommandSpecView {
        CommandSpecView {
            name: self.name@,
            about: self.about@,
            options: self.options@.map_values(|o: OptionSpec| o@),
        }
    }
}

/// An option that must be given.
pub open spec fn required_option(
    long: Seq<char>,
    aliases: Seq<Seq<char>>,
    value_name: Seq<char>,
    help: Seq<char>,
) -> OptionSpecView {
    OptionSpecView {
        long,
        aliases,
        required: true,
        value_name,
        help,
        help_heading: Some("REQUIRED"@),
    }
}

/// An option that may be left out.
pub open spec fn optional_option(
    long: Seq<char>,
    value_name: Seq<char>,
    help: Seq<char>,
) -> OptionSpecView {
    OptionSpecView {
        long,
        aliases: Seq::empty(),
        required: false,
        value_name,
        help,
        help_heading: None,
    }
}

pub open spec fn chain_option() -> OptionSpecView {
    required_option("chain"@, Seq::empty(), "CHAIN_ID"@, "Identifier of the chain"@)
}

pub open spec fn port_option() -> OptionSpecView {
    required_option("port"@, Seq::empty(), "PORT_ID"@, "Identifier of the port"@)
}

pub open spec fn channel_option() -> OptionSpecView {
    required_option("channel"@, seq!["chan"@], "CHANNEL_ID"@, "Identifier of the channel"@)
}

pub open spec fn sequence_option() -> OptionSpecView {
    required_option(
        "sequence"@,
        seq!["seq"@],
        "PACKET_SEQUENCE"@,
        "Sequnce number of the problem packet"@,
    )
}

pub open spec fn tx_hash_option() -> OptionSpecView {
    required_option(
        "tx_hash"@,
        seq!["hash"@],
        "TX_HASH"@,
        "The exact block the problem packet was included in"@,
    )
}

pub open spec fn key_name_option() -> OptionSpecView {
    optional_option(
        "key-name"@,
        "KEY_NAME"@,
        "use the given signing key for the specified chain (default: `key_name` config)"@,
    )
}

pub open spec fn counterparty_key_name_option() -> OptionSpecView {
    optional_option(
        "counterparty-key-name"@,
        "COUNTERPARTY_KEY_NAME"@,
        "use the given signing key for the counterparty chain (default: `counterparty_key_name` config)"@,
    )
}

/// The command that clears all outstanding packets of a channel.
pub open spec fn packets_command() -> CommandSpecView {
    CommandSpecView {
        name: "packets"@,
        about: "Clear outstanding packets (i.e., packet-recv and packet-ack) on a given channel in both directions. The channel is identified by the chain, port, and channel IDs at one of its ends"@,
        options: seq![
            chain_option(),
            port_option(),
            channel_option(),
            key_name_option(),
            counterparty_key_name_option(),
        ],
    }
}

/// The command that clears one packet.
pub open spec fn manual_command() -> CommandSpecView {
    CommandSpecView {
        name: "manual"@,
        about: "Clear problem packets manually (i.e. packet-recv and packet-ack) on a given channel. The packet is identified by its sequence number and submission height on the src chain. The channel is identified by the chain, port, and channel ID at one of its ends"@,
        options: seq![
            chain_option(),
            port_option(),
            channel_option(),
            sequence_option(),
            tx_hash_option(),
            key_name_option(),
            counterparty_key_name_option(),
        ],
    }
}

/// The name of the command that has the two others as subcommands.
pub open spec fn clear_name() -> Seq<char> {
    "clear"@
}

/// The subcommands, in order.
pub open spec fn clear_subcommands() -> Seq<CommandSpecView> {
    seq![packets_command(), manual_command()]
}

fn required(
    long: &'static str,
    aliases: Vec<&'static str>,
    value_name: &'static str,
    help: &'static str,
) -> (option: OptionSpec)
    ensures
        option@ == required_option(long@, aliases.deep_view(), value_name@, help@),
{
    OptionSpec {
        long,
        aliases,
        required: true,
        value_name,
        help,
        help_heading: Some("REQUIRED"),
    }
}

fn optional(long: &'static str, value_name: &'static str, help: &'static str) -> (option:
    OptionSpec)
    ensures
        option@ == optional_option(long@, value_name@, help@),
{
    OptionSpec {
        long,
        aliases: no_alias(),
        required: false,
        value_name,
        help,
        help_heading: None,
    }
}

fn no_alias() -> (aliases: Vec<&'static str>)
    ensures
        aliases.deep_view() == Seq::<Seq<char>>::empty(),
{
    let aliases: Vec<&'static str> = Vec::new();
    assert(aliases.deep_view() =~= Seq::<Seq<char>>::empty());
    aliases
}

fn one_alias(alias: &'static str) -> (aliases: Vec<&'static str>)
    ensures
        aliases.deep_view() == seq![alias@],
{
    let mut aliases: Vec<&'static str> = Vec::new();
    aliases.push(alias);
    assert(aliases.deep_view() =~= seq![alias@]);
    aliases
}

/// The three options that name one end of a channel.
fn channel_end_options() -> (options: Vec<OptionSpec>)
    ensures
        options@.map_values(|o: OptionSpec| o@) == seq![
            chain_option(),
            port_option(),
            channel_option(),
        ],
{
    let mut options: Vec<OptionSpec> = Vec::new();
    options.push(required("chain", no_alias(), "CHAIN_ID", "Identifier of the chain"));
    options.push(required("port", no_alias(), "PORT_ID", "Identifier of the port"));
    options.push(
        required("channel", one_alias("chan"), "CHANNEL_ID", "Identifier of the channel"),
    );
    assert(options@.map_values(|o: OptionSpec| o@) =~= seq![
        chain_option(),
        port_option(),
        channel_option(),
    ]);
    options
}

/// Adds the two options that choose signing keys.
fn push_key_options(options: &mut Vec<OptionSpec>)
    ensures
        final(options)@.map_values(|o: OptionSpec| o@) == old(options)@.map_values(
            |o: OptionSpec| o@,
        ) + seq![key_name_option(), counterparty_key_name_option()],
{
    options.push(
        optional(
            "key-name",
            "KEY_NAME",
            "use the given signing key for the specified chain (default: `key_name` config)",
        ),
    );
    options.push(
        optional(
            "counterparty-key-name",
            "COUNTERPARTY_KEY_NAME",
            "use the given signing key for the counterparty chain (default: `counterparty_key_name` config)",
        ),
    );
    assert(options@.map_values(|o: OptionSpec| o@) =~= old(options)@.map_values(
        |o: OptionSpec| o@,
    ) + seq![key_name_option(), counterparty_key_name_option()]);
}

/// Describes the subcommands.
pub fn subcommand_specs() -> (commands: Vec<CommandSpec>)
    ensures
        commands@.map_values(|c: CommandSpec| c@) == clear_subcommands(),
{
    let mut commands: Vec<CommandSpec> = Vec::new();
    commands.push(packets_spec());
    commands.push(manual_spec());
    assert(commands@.map_values(|c: CommandSpec| c@) =~= clear_subcommands());
    commands
}

/// Describes the command that clears all outstanding packets of a channel.
pub fn packets_spec() -> (command: CommandSpec)
    ensures
        command@ == packets_command(),
{
    let mut options = channel_end_options();
    push_key_options(&mut options);
    assert(options@.map_values(|o: OptionSpec| o@) =~= packets_command().options);
    CommandSpec {
        name: "packets",
        about: "Clear outstanding packets (i.e., packet-recv and packet-ack) on a given channel in both directions. The channel is identified by the chain, port, and channel IDs at one of its ends",
        options,
    }
}

/// Describes the command that clears one packet.
pub fn manual_spec() -> (command: CommandSpec)
    ensures
        command@ == manual_command(),
{
    let mut options = channel_end_options();
    let ghost end = options@.map_values(|o: OptionSpec| o@);
    options.push(
        required(
            "sequence",
            one_alias("seq"),
            "PACKET_SEQUENCE",
            "Sequnce number of the problem packet",
        ),
    );
    options.push(
        required(
            "tx_hash",
            one_alias("hash"),
            "TX_HASH",
            "The exact block the problem packet was included in",
        ),
    );
    assert(options@.map_values(|o: OptionSpec| o@) =~= end + seq![
        sequence_option(),
        tx_hash_option(),
    ]);
    push_key_options(&mut options);
    assert(options@.map_values(|o: OptionSpec| o@) =~= manual_command().options);
    CommandSpec {
        name: "manual",
        about: "Clear problem packets manually (i.e. packet-recv and packet-ack) on a given channel. The packet is identified by its sequence number and submission height on the src chain. The channel is identified by the chain, port, and channel ID at one of its ends",
        options,
    }
}

/// Why a command line was not taken.
#[derive(Debug, PartialEq, Eq)]
pub struct Refusal {
    /// The text to show.
    pub text: String,
    /// The text is help that was asked for, not an error.
    pub help: bool,
}

/// What a refusal says.
pub struct RefusalView {
    pub text: Seq<char>,
    pub help: bool,
}

impl View for Refusal {
    type V = RefusalView;

    open spec fn view(&self) -> RefusalView {
        RefusalView { text: self.text@, help: self.help }
    }
}

/// The values of a command's options, in the order of the options.
pub open spec fn values_view(values: Seq<Option<String>>) -> Seq<Option<Seq<char>>> {
    values.map_values(|v: Option<String>| v.deep_view())
}

/// The values fit the options: one entry each, and none missing that is required.
pub open spec fn values_fit(options: Seq<OptionSpecView>, values: Seq<Option<String>>) -> bool {
    &&& values.len() == options.len()
    &&& forall|i: int|
        0 <= i < options.len() && (#[trigger] options[i]).required ==> values[i] is Some
}

/// For each subcommand the values of its options.
pub open spec fn choices_view(choices: Seq<Vec<Option<String>>>) -> Seq<Seq<Option<Seq<char>>>> {
    choices.map_values(|values: Vec<Option<String>>| values_view(values@))
}

/// The outcome of matching a command line, by its views.
pub open spec fn matched_view(matched: Result<Vec<Vec<Option<String>>>, Refusal>) -> Result<
    Seq<Seq<Option<Seq<char>>>>,
    RefusalView,
> {
    match matched {
        Ok(choices) => Ok(choices_view(choices@)),
        Err(refusal) => Err(refusal@),
    }
}

/// One subcommand was chosen, and the values fit its options; no option of another
/// one has a value. The chosen one is that which the second argument names, if it
/// names one.
pub open spec fn choices_fit(
    subcommands: Seq<CommandSpecView>,
    choices: Seq<Vec<Option<String>>>,
    argv: Seq<Seq<char>>,
) -> bool {
    &&& choices.len() == subcommands.len()
    &&& exists|i: int|
        {
            &&& 0 <= i < subcommands.len()
            &&& values_fit((#[trigger] subcommands[i]).options, choices[i]@)
            &&& forall|j: int, k: int|
                0 <= j < choices.len() && j != i && 0 <= k < choices[j]@.len() ==> (
                #[trigger] choices[j]@[k]) is None
        }
    &&& forall|i: int|
        0 <= i < subcommands.len() && argv.len() > 1 && (#[trigger] subcommands[i]).name == argv[1]
            ==> values_fit(subcommands[i].options, choices[i]@)
}

/// What `Command::try_get_matches_from` of clap makes of the arguments of a command
/// with subcommands: for each subcommand the values of its options, none of them if
/// it was not chosen; or a refusal, and whether that is an error (it is none where
/// help was asked for).
pub uninterp spec fn matched_subcommands(
    name: Seq<char>,
    subcommands: Seq<CommandSpecView>,
    argv: Seq<Seq<char>>,
) -> Result<Seq<Seq<Option<Seq<char>>>>, bool>;

/// Calls `Command::try_get_matches_from` of clap for a command that requires one of
/// its subcommands, whose options take one value each. The first element of `argv`
/// is the program's name. clap chooses one subcommand, by name; it gives a value or
/// none for each option of it, and refuses arguments that leave out a required one.
/// Which other arguments it takes is left to the name. Nothing is said of the text
/// that it shows when it refuses: that depends on how the machine writes paths, and
/// on the width of the terminal where clap measures it.
#[verifier::external_body]
fn match_subcommands(name: &'static str, subcommands: &Vec<CommandSpec>, argv: &[&str]) -> (matched:
    Result<Vec<Vec<Option<String>>>, (String, bool)>)
    requires
        name@ == clear_name(),
        subcommands@.map_values(|c: CommandSpec| c@) == clear_subcommands(),
    ensures
        match matched {
            Ok(choices) => {
                &&& matched_subcommands(
                    name@,
                    subcommands@.map_values(|c: CommandSpec| c@),
                    argv.deep_view(),
                ) == Ok::<_, bool>(choices_view(choices@))
                &&& choices_fit(
                    subcommands@.map_values(|c: CommandSpec| c@),
                    choices@,
                    argv.deep_view(),
                )
            },
            Err((_, error)) => matched_subcommands(
                name@,
                subcommands@.map_values(|c: CommandSpec| c@),
                argv.deep_view(),
            ) == Err::<Seq<Seq<Option<Seq<char>>>>, _>(error),
        },
{
    Command::new(name).setting(SubcommandRequiredElseHelp)
        .subcommands(subcommands.iter().map(|c| Command::new(c.name).about(c.about)
            .args(c.options.iter().map(|o| Arg::new(o.long).long(o.long).aliases(&o.aliases)
                .required(o.required).value_name(o.value_name).help(o.help)
                .help_heading(o.help_heading)))))
        .try_get_matches_from(argv)
        .map(|m| subcommands.iter().map(|c| c.options.iter().map(|o|
            m.subcommand_matches(c.name)?.get_one(o.long).cloned()).collect()).collect())
        .map_err(|e| (e.to_string(), e.use_stderr()))
}

/// Matches a command line; its first element is the program's name.
pub fn match_line(argv: &[&str]) -> (matched: Result<Vec<Vec<Option<String>>>, Refusal>)
    ensures
        match matched {
            Ok(choices) => {
                &&& matched_subcommands(clear_name(), clear_subcommands(), argv.deep_view()) == Ok::<
                    _,
                    bool,
                >(choices_view(choices@))
                &&& choices_fit(clear_subcommands(), choices@, argv.deep_view())
            },
            Err(refusal) => matched_subcommands(
                clear_name(),
                clear_subcommands(),
                argv.deep_view(),
            ) == Err::<Seq<Seq<Option<Seq<char>>>>, _>(!refusal.help),
        },
{
    match match_subcommands("clear", &subcommand_specs(), argv) {
        Ok(choices) => Ok(choices),
        Err((text, error)) => Err(Refusal { text, help: !error }),
    }
}

/// Calls `Sequence::from_str` of the `ibc` crate: a sequence number is a decimal
/// `u64`.
#[verifier::external_body]
pub(crate) fn sequence_from_str(s: &str) -> (sequence: Option<u64>)
    ensures
        sequence == decimal_u64(s@),
{
    ibc::core::ics04_channel::packet::Sequence::from_str(s).ok().map(|n| n.into())
}

} // verus!
