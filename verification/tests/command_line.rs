use std::path::PathBuf;

use clap::{Arg, ArgAction, ArgMatches, Command};
use gmail_attachments::cli::{
    command, parse_download_config, requested_output_dir, try_parse_download_config,
};
use gmail_attachments::error::GwsError;
use gmail_attachments::parts::OriginalPart;
use gmail_attachments::plan::plan_downloads;
use gmail_attachments::session::{Action, DownloadSession};
use gmail_attachments::validate::{
    reject_dangerous_chars, validate_safe_output_dir, DirectoryLookup,
};

fn found(workspace: &str, resolved: &str) -> DirectoryLookup {
    DirectoryLookup {
        absolute: false,
        places: Ok((PathBuf::from(workspace), PathBuf::from(resolved))),
    }
}

fn not_found(cause: &str) -> DirectoryLookup {
    DirectoryLookup { absolute: false, places: Err(GwsError::Validation(cause.to_string())) }
}

fn absolute(mut lookup: DirectoryLookup) -> DirectoryLookup {
    lookup.absolute = true;
    lookup
}

fn gws() -> Command {
    Command::new("gws")
        .arg(
            Arg::new("dry-run")
                .long("dry-run")
                .action(ArgAction::SetTrue)
                .global(true),
        )
        .subcommand(Command::new("gmail").subcommand(command()))
}

fn download_matches(args: &[&str]) -> ArgMatches {
    let mut line = vec!["gws", "gmail", "+download-attachments"];
    line.extend_from_slice(args);
    let matches = gws().try_get_matches_from(line).unwrap();
    matches
        .subcommand_matches("gmail")
        .unwrap()
        .subcommand_matches("+download-attachments")
        .unwrap()
        .clone()
}

#[test]
fn command_requires_id_and_output_dir() {
    let err = command()
        .try_get_matches_from(["+download-attachments", "--id", "msg-1"])
        .unwrap_err();
    assert_eq!(err.kind(), clap::error::ErrorKind::MissingRequiredArgument);
}

#[test]
fn command_accepts_alias() {
    let cmd = Command::new("gmail").subcommand(command());
    let matches = cmd
        .try_get_matches_from([
            "gmail",
            "+attachments",
            "--id",
            "msg-1",
            "--output-dir",
            "downloads",
        ])
        .unwrap();
    assert!(matches
        .subcommand_matches("+download-attachments")
        .is_some());
}

#[test]
fn handle_dry_run_returns_before_auth() {
    let matches = gws()
        .try_get_matches_from([
            "gws",
            "gmail",
            "+download-attachments",
            "--id",
            "msg-1",
            "--output-dir",
            "downloads",
            "--dry-run",
        ])
        .unwrap();
    let gmail_matches = matches.subcommand_matches("gmail").unwrap();
    let download_matches = gmail_matches
        .subcommand_matches("+download-attachments")
        .unwrap();

    let config = parse_download_config(download_matches, found("", "downloads")).unwrap();
    let (_, action) = DownloadSession::start(config);
    match action {
        Action::Report(report) => {
            assert_eq!(report.message_id, "msg-1");
            assert_eq!(report.output_dir, "downloads");
            assert!(report.dry_run);
            assert_eq!(report.downloaded_count, 0);
            assert_eq!(report.skipped_inline_count, 0);
            assert!(report.attachments.is_empty());
        }
        other => panic!("{other:?}"),
    }
}

#[test]
fn command_is_defined_as_documented() {
    let cmd = command();
    assert_eq!(cmd.get_name(), "+download-attachments");
    assert_eq!(cmd.get_all_aliases().collect::<Vec<_>>(), ["+attachments"]);
    assert_eq!(
        cmd.get_about().unwrap().to_string(),
        "[Helper] Download attachments from a Gmail message"
    );
    let after_help = cmd.get_after_help().unwrap().to_string();
    assert!(after_help.starts_with("EXAMPLES:\n  gws gmail +download-attachments --id "));
    assert!(after_help.ends_with("exact saved paths and attachment metadata."));
    let args: Vec<&Arg> = cmd.get_arguments().collect();
    let ids: Vec<&str> = args.iter().map(|arg| arg.get_id().as_str()).collect();
    assert_eq!(ids, ["id", "output-dir", "include-inline", "overwrite"]);
    for arg in &args {
        assert_eq!(arg.get_long(), Some(arg.get_id().as_str()));
        assert!(arg.get_help().is_some());
    }
    assert_eq!(args[0].get_all_aliases(), Some(vec!["message-id"]));
    assert!(args[0].is_required_set() && args[1].is_required_set());
    assert!(!args[2].is_required_set() && !args[3].is_required_set());
    assert_eq!(args[0].get_value_names().unwrap()[0].as_str(), "ID");
    assert_eq!(args[1].get_value_names().unwrap()[0].as_str(), "DIR");
    assert!(matches!(args[2].get_action(), ArgAction::SetTrue));
    assert!(matches!(args[3].get_action(), ArgAction::SetTrue));
}

#[test]
fn config_is_read_from_the_arguments() {
    let matches = download_matches(&["--message-id", "18f1", "--output-dir", "./dl", "--overwrite"]);
    assert_eq!(requested_output_dir(&matches), Some("./dl".to_string()));
    let config = parse_download_config(&matches, found("/work", "/work/dl")).unwrap();
    assert_eq!(config.message_id, "18f1");
    assert_eq!(config.output_dir, PathBuf::from("/work/dl"));
    assert!(!config.include_inline && config.overwrite && !config.dry_run);
    let matches = download_matches(&["--id", "x", "--output-dir", "d", "--include-inline"]);
    let config = parse_download_config(&matches, found("", "d")).unwrap();
    assert!(config.include_inline && !config.overwrite && !config.dry_run);
}

#[test]
fn dangerous_message_id_comes_before_a_bad_directory() {
    let matches = download_matches(&["--id", "a\u{202e}", "--output-dir", "d"]);
    let err = parse_download_config(&matches, not_found("bad directory")).unwrap_err();
    assert_eq!(err.message(), "--id contains invalid Unicode characters");
    let matches = download_matches(&["--id", "a", "--output-dir", "d"]);
    let err = parse_download_config(&matches, not_found("bad directory")).unwrap_err();
    assert_eq!(err.message(), "bad directory");
}

#[test]
fn the_named_directory_is_validated() {
    let matches = download_matches(&["--id", "a", "--output-dir", "../x"]);
    let err = parse_download_config(&matches, found("/work", "/x")).unwrap_err();
    assert_eq!(
        err.message(),
        "--output-dir '../x' resolves to '/x', which is outside the current directory"
    );
    let matches = download_matches(&["--id", "a", "--output-dir", "/work/x"]);
    let lookup = absolute(found("/work", "/work/x"));
    let err = try_parse_download_config(&matches, lookup).unwrap().unwrap_err();
    assert_eq!(
        err.message(),
        "--output-dir must be a relative path, got absolute path '/work/x'"
    );
    let matches = download_matches(&["--id", "a", "--output-dir", "x\u{200b}"]);
    let err = parse_download_config(&matches, found("/work", "/work/x")).unwrap_err();
    assert_eq!(err.message(), "--output-dir contains invalid Unicode characters");
}

#[test]
fn missing_values_are_reported() {
    let optional = Command::new("x")
        .arg(Arg::new("id").long("id"))
        .arg(Arg::new("output-dir").long("output-dir"));
    let none = optional.clone().try_get_matches_from(["x"]).unwrap();
    assert_eq!(requested_output_dir(&none), None);
    let err = parse_download_config(&none, found("", "d")).unwrap_err();
    assert_eq!(err.message(), "--id is required for +download-attachments");
    let id_only = optional.try_get_matches_from(["x", "--id", "1"]).unwrap();
    let err = parse_download_config(&id_only, found("", "d")).unwrap_err();
    assert_eq!(err.message(), "--output-dir is required for +download-attachments");
}

#[test]
fn undefined_flags_are_noticed() {
    let matches = Command::new("x")
        .subcommand(command())
        .try_get_matches_from(["x", "+attachments", "--id", "1", "--output-dir", "d"])
        .unwrap();
    let matches = matches.subcommand_matches("+download-attachments").unwrap();
    assert!(try_parse_download_config(matches, found("", "d")).is_none());
    let wrong_type = Command::new("x")
        .arg(Arg::new("id").long("id").action(ArgAction::SetTrue))
        .try_get_matches_from(["x", "--id"])
        .unwrap();
    assert!(try_parse_download_config(&wrong_type, found("", "d")).is_none());
}

#[test]
fn dangerous_characters_are_rejected() {
    assert!(reject_dangerous_chars("msg-1 caf\u{e9}", "--id").is_ok());
    assert!(reject_dangerous_chars("", "--id").is_ok());
    let err = reject_dangerous_chars("a\nb\u{200b}", "--id").unwrap_err();
    assert_eq!(err.message(), "--id contains invalid control characters");
    let err = reject_dangerous_chars("a\u{200b}\n", "--x").unwrap_err();
    assert_eq!(err.message(), "--x contains invalid Unicode characters");
}

#[test]
fn output_directory_must_be_relative_and_inside() {
    let inside = || found("/work", "/work/dl");
    let dir = validate_safe_output_dir("dl", inside()).unwrap();
    assert_eq!(dir, PathBuf::from("/work/dl"));
    let err = validate_safe_output_dir("/work/dl", absolute(inside())).unwrap_err();
    assert_eq!(
        err.message(),
        "--output-dir must be a relative path, got absolute path '/work/dl'"
    );
    let err = validate_safe_output_dir("../x", found("/work", "/x")).unwrap_err();
    assert_eq!(
        err.message(),
        "--output-dir '../x' resolves to '/x', which is outside the current directory"
    );
    let err = validate_safe_output_dir("a\tb", absolute(inside())).unwrap_err();
    assert_eq!(err.message(), "--output-dir contains invalid control characters");
}

#[test]
fn a_directory_that_cannot_be_found_is_reported_last() {
    let err = validate_safe_output_dir("dl", not_found("no such place")).unwrap_err();
    assert_eq!(err.message(), "no such place");
    let err = validate_safe_output_dir("/dl", absolute(not_found("no such place"))).unwrap_err();
    assert_eq!(err.message(), "--output-dir must be a relative path, got absolute path '/dl'");
    let err = validate_safe_output_dir("d\n", not_found("no such place")).unwrap_err();
    assert_eq!(err.message(), "--output-dir contains invalid control characters");
}

#[test]
fn planned_files_stay_below_the_current_directory() {
    let dir = validate_safe_output_dir("dl", found("/work", "/work/dl")).unwrap();
    let part = OriginalPart {
        filename: "../../etc/passwd".to_string(),
        content_type: "text/plain".to_string(),
        size: 1,
        attachment_id: "att-0".to_string(),
        content_id: None,
    };
    let planned = plan_downloads(&[(0, &part)], &dir, false, &[false]).unwrap();
    assert!(planned[0].path.starts_with("/work"));
    assert_eq!(planned[0].path.parent(), Some(dir.as_path()));
}
