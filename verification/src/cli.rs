//! The command line of the download.

use std::path::PathBuf;

use vstd::prelude::*;

use crate::clap_items::{arg_alias, arg_help, arg_long, arg_new, arg_required, arg_set_true};
use crate::clap_items::{arg_value_name, command_about, command_after_help, command_alias};
use crate::clap_items::{command_arg, command_new, read_flag, read_text};
use crate::clap_items::{ArgDefinition, CommandDefinition};
use crate::error::{ErrorView, GwsError};
use crate::validate::{reject_dangerous_chars, validate_safe_output_dir};
use crate::validate::{DirectoryLookup, LookupView};

verus! {

/// What the user asks for.
#[derive(Debug)]
pub struct DownloadAttachmentsConfig {
    pub message_id: String,
    pub output_dir: PathBuf,
    pub include_inline: bool,
    pub overwrite: bool,
    pub dry_run: bool,
}

/// What a [`DownloadAttachmentsConfig`] says.
pub struct ConfigView {
    pub message_id: Seq<char>,
    pub output_dir: PathBuf,
    pub include_inline: bool,
    pub overwrite: bool,
    pub dry_run: bool,
}

impl View for DownloadAttachmentsConfig {
    type V = ConfigView;

    open spec fn view(&self) -> ConfigView {
        ConfigView {
            message_id: self.message_id@,
            output_dir: self.output_dir,
            include_inline: self.include_inline,
            overwrite: self.overwrite,
            dry_run: self.dry_run,
        }
    }
}

/// A required argument with a value: `--long VALUE`.
pub open spec fn required_option(
    id: Seq<char>,
    aliases: Seq<Seq<char>>,
    help: Seq<char>,
    value_name: Seq<char>,
) -> ArgDefinition {
    ArgDefinition {
        id,
        long: Some(id),
        aliases,
        required: true,
        help: Some(help),
        value_names: seq![value_name],
        set_true: false,
    }
}

/// An argument that is there or not: `--long`.
pub open spec fn flag(id: Seq<char>, help: Seq<char>) -> ArgDefinition {
    ArgDefinition {
        id,
        long: Some(id),
        aliases: Seq::empty(),
        required: false,
        help: Some(help),
        value_names: Seq::empty(),
        set_true: true,
    }
}

/// The definition of the command.
pub open spec fn download_command() -> CommandDefinition {
    CommandDefinition {
        name: "+download-attachments"@,
        aliases: seq!["+attachments"@],
        about: Some("[Helper] Download attachments from a Gmail message"@),
        args: seq![
            required_option(
                "id"@,
                seq!["message-id"@],
                "The Gmail message ID to download attachments from"@,
                "ID"@,
            ),
            required_option(
                "output-dir"@,
                Seq::empty(),
                "Relative directory under the current workspace where files are saved"@,
                "DIR"@,
            ),
            flag(
                "include-inline"@,
                "Also download inline MIME parts, such as embedded images"@,
            ),
            flag(
                "overwrite"@,
                "Overwrite existing files with the same sanitized attachment filename"@,
            ),
        ],
        after_help: Some(AFTER_HELP@),
    }
}

/// The text behind the help of the command.
pub const AFTER_HELP: &'static str = "\
EXAMPLES:
  gws gmail +download-attachments --id 18f1a2b3c4d --output-dir ./downloads/gmail
  gws gmail +download-attachments --message-id 18f1a2b3c4d --output-dir ./downloads/gmail --include-inline

TIPS:
  Writes only under a validated relative --output-dir.
  Regular file attachments are downloaded by default; inline images are skipped unless --include-inline is set.
  Existing files are not overwritten unless --overwrite is set.
  Output is JSON with exact saved paths and attachment metadata.";

/// Defines the `+download-attachments` command.
pub fn command() -> (command: clap::Command)
    ensures
        crate::clap_items::command_definition(command) == download_command(),
{
    let id = arg_value_name(
        arg_help(
            arg_required(arg_alias(arg_long(arg_new("id"), "id"), "message-id"), true),
            "The Gmail message ID to download attachments from",
        ),
        "ID",
    );
    let output_dir = arg_value_name(
        arg_help(
            arg_required(arg_long(arg_new("output-dir"), "output-dir"), true),
            "Relative directory under the current workspace where files are saved",
        ),
        "DIR",
    );
    let include_inline = arg_set_true(
        arg_help(
            arg_long(arg_new("include-inline"), "include-inline"),
            "Also download inline MIME parts, such as embedded images",
        ),
    );
    let overwrite = arg_set_true(
        arg_help(
            arg_long(arg_new("overwrite"), "overwrite"),
            "Overwrite existing files with the same sanitized attachment filename",
        ),
    );
    let command = command_about(
        command_alias(command_new("+download-attachments"), "+attachments"),
        "[Helper] Download attachments from a Gmail message",
    );
    let command = command_arg(command, id);
    let command = command_arg(command, output_dir);
    let command = command_arg(command, include_inline);
    let command = command_arg(command, overwrite);
    let command = command_after_help(command, AFTER_HELP);
    proof {
        let made = crate::clap_items::command_definition(command);
        assert(made.aliases =~= download_command().aliases);
        assert(crate::clap_items::arg_definition(id).aliases =~= seq!["message-id"@]);
        assert(made.args =~= download_command().args);
    }
    command
}

/// The value of a flag, if the matches define it as one.
pub open spec fn flag_value(matches: clap::ArgMatches, id: Seq<char>) -> Option<bool> {
    let flags = crate::clap_items::flag_arguments(matches);
    if flags.contains_key(id) {
        flags[id]
    } else {
        None
    }
}

/// The request that the arguments make, or the first thing that is wrong with it.
/// `lookup` is what was found out about the directory that they name. `None` where an
/// argument that is needed to tell is not defined.
pub open spec fn requested(
    matches: clap::ArgMatches,
    lookup: LookupView,
) -> Option<Result<ConfigView, ErrorView>> {
    let texts = crate::clap_items::text_arguments(matches);
    if !texts.contains_key("id"@) {
        None
    } else {
        match texts["id"@] {
            None => Some(
                Err(ErrorView::Validation("--id is required for +download-attachments"@)),
            ),
            Some(message_id) => match crate::validate::dangerous_chars_error(message_id, "--id"@) {
                Some(error) => Some(Err(error)),
                None => if !texts.contains_key("output-dir"@) {
                    None
                } else if texts["output-dir"@] is None {
                    Some(
                        Err(
                            ErrorView::Validation(
                                "--output-dir is required for +download-attachments"@,
                            ),
                        ),
                    )
                } else {
                    match crate::validate::safe_output_dir(texts["output-dir"@]->0, lookup) {
                        Err(error) => Some(Err(error)),
                        Ok(output_dir) => match (
                            flag_value(matches, "include-inline"@),
                            flag_value(matches, "overwrite"@),
                            flag_value(matches, "dry-run"@),
                        ) {
                            (Some(include_inline), Some(overwrite), Some(dry_run)) => Some(
                                Ok(
                                    ConfigView {
                                        message_id,
                                        output_dir,
                                        include_inline,
                                        overwrite,
                                        dry_run,
                                    },
                                ),
                            ),
                            _ => None,
                        },
                    }
                },
            },
        }
    }
}

/// The directory that the arguments name, if they name one.
pub fn requested_output_dir(matches: &clap::ArgMatches) -> (dir: Option<String>)
    ensures
        ({
            let texts = crate::clap_items::text_arguments(*matches);
            match dir {
                Some(text) => texts.contains_pair("output-dir"@, Some(text@)),
                None => !texts.contains_key("output-dir"@) || texts["output-dir"@] is None,
            }
        }),
{
    match read_text(matches, "output-dir") {
        Ok(dir) => dir,
        Err(_) => None,
    }
}

fn read_defined_flag(matches: &clap::ArgMatches, id: &str) -> (value: Option<bool>)
    ensures
        value == flag_value(*matches, id@),
{
    match read_flag(matches, id) {
        Ok(value) => value,
        Err(_) => None,
    }
}

/// Reads the request from the arguments. `lookup` is what was found out about the
/// directory of [`requested_output_dir`]. The result is `None` where an argument is not
/// defined.
pub fn try_parse_download_config(
    matches: &clap::ArgMatches,
    lookup: DirectoryLookup,
) -> (config: Option<Result<DownloadAttachmentsConfig, GwsError>>)
    ensures
        match (config, requested(*matches, lookup@)) {
            (None, None) => true,
            (Some(Ok(config)), Some(Ok(expected))) => config@ == expected,
            (Some(Err(error)), Some(Err(expected))) => error@ == expected,
            _ => false,
        },
{
    let message_id = match read_text(matches, "id") {
        Ok(Some(message_id)) => message_id,
        Ok(None) => {
            return Some(
                Err(
                    GwsError::Validation("--id is required for +download-attachments".to_owned()),
                ),
            );
        },
        Err(_) => {
            return None;
        },
    };
    match reject_dangerous_chars(&message_id, "--id") {
        Ok(()) => {},
        Err(error) => {
            return Some(Err(error));
        },
    }
    let raw_dir = match read_text(matches, "output-dir") {
        Ok(Some(raw_dir)) => raw_dir,
        Ok(None) => {
            return Some(
                Err(
                    GwsError::Validation(
                        "--output-dir is required for +download-attachments".to_owned(),
                    ),
                ),
            );
        },
        Err(_) => {
            return None;
        },
    };
    let output_dir = match validate_safe_output_dir(&raw_dir, lookup) {
        Ok(dir) => dir,
        Err(error) => {
            return Some(Err(error));
        },
    };
    let include_inline = read_defined_flag(matches, "include-inline");
    let overwrite = read_defined_flag(matches, "overwrite");
    let dry_run = read_defined_flag(matches, "dry-run");
    match (include_inline, overwrite, dry_run) {
        (Some(include_inline), Some(overwrite), Some(dry_run)) => Some(
            Ok(
                DownloadAttachmentsConfig {
                    message_id,
                    output_dir,
                    include_inline,
                    overwrite,
                    dry_run,
                },
            ),
        ),
        _ => None,
    }
}

/// Reads the request from the arguments of a command that defines them all.
pub fn parse_download_config(
    matches: &clap::ArgMatches,
    lookup: DirectoryLookup,
) -> (config: Result<DownloadAttachmentsConfig, GwsError>)
    requires
        requested(*matches, lookup@) is Some,
    ensures
        match (config, requested(*matches, lookup@)->0) {
            (Ok(config), Ok(expected)) => config@ == expected,
            (Err(error), Err(expected)) => error@ == expected,
            _ => false,
        },
{
    try_parse_download_config(matches, lookup).unwrap()
}

} // verus!
