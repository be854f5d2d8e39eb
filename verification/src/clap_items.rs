//! The items of `clap` that the command line is defined and read with.

use vstd::prelude::*;

verus! {

/// `clap::Arg`: the definition of an argument.
#[verifier::external_type_specification]
#[verifier::external_body]
pub struct ExArg(clap::Arg);

/// `clap::Command`: the definition of a command.
#[verifier::external_type_specification]
#[verifier::external_body]
pub struct ExCommand(clap::Command);

/// `clap::ArgMatches`: the arguments that were found on a command line.
#[verifier::external_type_specification]
#[verifier::external_body]
pub struct ExArgMatches(clap::ArgMatches);

/// `clap::parser::MatchesError`: an argument is not defined, or not of the type that it
/// is read as.
#[verifier::external_type_specification]
#[verifier::external_body]
pub struct ExMatchesError(clap::parser::MatchesError);

/// What the definition of an argument holds.
pub struct ArgDefinition {
    pub id: Seq<char>,
    pub long: Option<Seq<char>>,
    /// Other long names, which the help does not show.
    pub aliases: Seq<Seq<char>>,
    pub required: bool,
    pub help: Option<Seq<char>>,
    pub value_names: Seq<Seq<char>>,
    /// A flag: it takes no value, and is true if it is there.
    pub set_true: bool,
}

/// What the definition of a command holds.
pub struct CommandDefinition {
    pub name: Seq<char>,
    /// Other names, which the help does not show.
    pub aliases: Seq<Seq<char>>,
    pub about: Option<Seq<char>>,
    pub args: Seq<ArgDefinition>,
    pub after_help: Option<Seq<char>>,
}

/// What a `clap::Arg` holds.
pub uninterp spec fn arg_definition(arg: clap::Arg) -> ArgDefinition;

/// What a `clap::Command` holds.
pub uninterp spec fn command_definition(command: clap::Command) -> CommandDefinition;

/// The arguments in a `clap::ArgMatches` that can be read as text, by their ids: each
/// with the first text that the command line gives for it, if there is one. Whether an
/// id that the command does not define is among them depends on how `clap` was built.
pub uninterp spec fn text_arguments(matches: clap::ArgMatches) -> Map<Seq<char>, Option<Seq<char>>>;

/// The arguments in a `clap::ArgMatches` that can be read as `bool`, in the same way.
pub uninterp spec fn flag_arguments(matches: clap::ArgMatches) -> Map<Seq<char>, Option<bool>>;

/// `Arg::new`: an argument with an id and nothing else.
#[verifier::external_body]
pub(crate) fn arg_new(id: &'static str) -> (arg: clap::Arg)
    ensures
        arg_definition(arg) == (ArgDefinition {
            id: id@,
            long: None,
            aliases: Seq::empty(),
            required: false,
            help: None,
            value_names: Seq::empty(),
            set_true: false,
        }),
{
    clap::Arg::new(id)
}

/// `Arg::long`: sets the long name.
#[verifier::external_body]
pub(crate) fn arg_long(arg: clap::Arg, name: &'static str) -> (out: clap::Arg)
    ensures
        arg_definition(out) == (ArgDefinition { long: Some(name@), ..arg_definition(arg) }),
{
    arg.long(name)
}

/// `Arg::alias`: adds another long name.
#[verifier::external_body]
pub(crate) fn arg_alias(arg: clap::Arg, name: &'static str) -> (out: clap::Arg)
    ensures
        arg_definition(out) == (ArgDefinition {
            aliases: arg_definition(arg).aliases.push(name@),
            ..arg_definition(arg)
        }),
{
    arg.alias(name)
}

/// `Arg::required`: sets whether the argument must be there.
#[verifier::external_body]
pub(crate) fn arg_required(arg: clap::Arg, yes: bool) -> (out: clap::Arg)
    ensures
        arg_definition(out) == (ArgDefinition { required: yes, ..arg_definition(arg) }),
{
    arg.required(yes)
}

/// `Arg::help`: sets the help text.
#[verifier::external_body]
pub(crate) fn arg_help(arg: clap::Arg, text: &'static str) -> (out: clap::Arg)
    ensures
        arg_definition(out) == (ArgDefinition { help: Some(text@), ..arg_definition(arg) }),
{
    arg.help(text)
}

/// `Arg::value_name`: sets the one name that stands for the value in the help.
#[verifier::external_body]
pub(crate) fn arg_value_name(arg: clap::Arg, name: &'static str) -> (out: clap::Arg)
    ensures
        arg_definition(out) == (ArgDefinition { value_names: seq![name@], ..arg_definition(arg) }),
{
    arg.value_name(name)
}

/// `Arg::action` with `ArgAction::SetTrue`: makes the argument a flag.
#[verifier::external_body]
pub(crate) fn arg_set_true(arg: clap::Arg) -> (out: clap::Arg)
    ensures
        arg_definition(out) == (ArgDefinition { set_true: true, ..arg_definition(arg) }),
{
    arg.action(clap::ArgAction::SetTrue)
}

/// `Command::new`: a command with a name and nothing else.
#[verifier::external_body]
pub(crate) fn command_new(name: &'static str) -> (command: clap::Command)
    ensures
        command_definition(command) == (CommandDefinition {
            name: name@,
            aliases: Seq::empty(),
            about: None,
            args: Seq::empty(),
            after_help: None,
        }),
{
    clap::Command::new(name)
}

/// `Command::alias`: adds another name.
#[verifier::external_body]
pub(crate) fn command_alias(command: clap::Command, name: &'static str) -> (out: clap::Command)
    ensures
        command_definition(out) == (CommandDefinition {
            aliases: command_definition(command).aliases.push(name@),
            ..command_definition(command)
        }),
{
    command.alias(name)
}

/// `Command::about`: sets the line that describes the command.
#[verifier::external_body]
pub(crate) fn command_about(command: clap::Command, text: &'static str) -> (out: clap::Command)
    ensures
        command_definition(out) == (CommandDefinition {
            about: Some(text@),
            ..command_definition(command)
        }),
{
    command.about(text)
}

/// `Command::arg`: adds an argument behind those that are there.
#[verifier::external_body]
pub(crate) fn command_arg(command: clap::Command, arg: clap::Arg) -> (out: clap::Command)
    ensures
        command_definition(out) == (CommandDefinition {
            args: command_definition(command).args.push(arg_definition(arg)),
            ..command_definition(command)
        }),
{
    command.arg(arg)
}

/// `Command::after_help`: sets the text that stands behind the help.
#[verifier::external_body]
pub(crate) fn command_after_help(command: clap::Command, text: &'static str) -> (out: clap::Command)
    ensures
        command_definition(out) == (CommandDefinition {
            after_help: Some(text@),
            ..command_definition(command)
        }),
{
    command.after_help(text)
}

/// `ArgMatches::try_get_one::<String>`: the first text given for an argument.
#[verifier::external_body]
pub(crate) fn read_text(matches: &clap::ArgMatches, id: &str) -> (value: Result<
    Option<String>,
    clap::parser::MatchesError,
>)
    ensures
        match value {
            Ok(Some(text)) => text_arguments(*matches).contains_pair(id@, Some(text@)),
            Ok(None) => text_arguments(*matches).contains_pair(id@, None),
            Err(_) => !text_arguments(*matches).contains_key(id@),
        },
{
    match matches.try_get_one::<String>(id) {
        Ok(text) => Ok(text.cloned()),
        Err(e) => Err(e),
    }
}

/// `ArgMatches::try_get_one::<bool>`: the first `bool` given for an argument.
#[verifier::external_body]
pub(crate) fn read_flag(matches: &clap::ArgMatches, id: &str) -> (value: Result<
    Option<bool>,
    clap::parser::MatchesError,
>)
    ensures
        match value {
            Ok(flag) => flag_arguments(*matches).contains_pair(id@, flag),
            Err(_) => !flag_arguments(*matches).contains_key(id@),
        },
{
    match matches.try_get_one::<bool>(id) {
        Ok(flag) => Ok(flag.copied()),
        Err(e) => Err(e),
    }
}

} // verus!
