use std::path::PathBuf;

use gmail_attachments::cli::DownloadAttachmentsConfig;
use gmail_attachments::error::GwsError;
use gmail_attachments::parts::OriginalPart;
use gmail_attachments::plan::plan_targets;
use gmail_attachments::parts::select_download_parts;
use gmail_attachments::session::{
    downloaded_attachment, Action, DownloadSession, Event, GMAIL_READONLY_SCOPE,
};
use gmail_attachments::write::{open_mode, write_error, WriteFailure, WriteStep};

fn config(include_inline: bool, overwrite: bool) -> DownloadAttachmentsConfig {
    DownloadAttachmentsConfig {
        message_id: "msg-1".to_string(),
        output_dir: PathBuf::from("/work/dl"),
        include_inline,
        overwrite,
        dry_run: false,
    }
}

fn parts() -> Vec<OriginalPart> {
    vec![
        OriginalPart {
            filename: "a.pdf".to_string(),
            content_type: "application/pdf".to_string(),
            size: 3,
            attachment_id: "att-0".to_string(),
            content_id: None,
        },
        OriginalPart {
            filename: "logo.png".to_string(),
            content_type: "image/png".to_string(),
            size: 2,
            attachment_id: "att-1".to_string(),
            content_id: Some("cid".to_string()),
        },
        OriginalPart {
            filename: "a.pdf".to_string(),
            content_type: "text/csv".to_string(),
            size: 0,
            attachment_id: "att-2".to_string(),
            content_id: None,
        },
    ]
}

fn until_message<'a>(config: DownloadAttachmentsConfig) -> DownloadSession<'a> {
    let (mut session, action) = DownloadSession::start(config);
    match action {
        Action::Authorize { scope } => assert_eq!(scope, GMAIL_READONLY_SCOPE),
        other => panic!("{other:?}"),
    }
    assert!(matches!(session.step(Event::Authorized(Ok(()))), Action::BuildClient));
    match session.step(Event::ClientBuilt(Ok(()))) {
        Action::FetchMessage { message_id } => assert_eq!(message_id, "msg-1"),
        other => panic!("{other:?}"),
    }
    session
}

fn failure(action: Action) -> GwsError {
    match action {
        Action::Fail(error) => error,
        other => panic!("{other:?}"),
    }
}

#[test]
fn a_download_fetches_writes_and_reports() {
    let parts = parts();
    let mut session = until_message(config(false, false));
    let dir = PathBuf::from("/work/dl");
    match session.step(Event::MessageFetched(Ok(&parts))) {
        Action::ProbeTargets { paths } => {
            assert_eq!(paths, [dir.join("a.pdf"), dir.join("a-2.pdf")]);
        }
        other => panic!("{other:?}"),
    }
    match session.step(Event::TargetsProbed(vec![false, false])) {
        Action::CreateDirectory { path } => assert_eq!(path, dir),
        other => panic!("{other:?}"),
    }
    match session.step(Event::DirectoryCreated(Ok(()))) {
        Action::FetchAttachment { message_id, attachment_id } => {
            assert_eq!(message_id, "msg-1");
            assert_eq!(attachment_id, "att-0");
        }
        other => panic!("{other:?}"),
    }
    match session.step(Event::AttachmentFetched(Ok(vec![1, 2, 3]))) {
        Action::WriteFile { path, data, overwrite } => {
            assert_eq!(path, dir.join("a.pdf"));
            assert_eq!(data, [1, 2, 3]);
            assert!(!overwrite);
        }
        other => panic!("{other:?}"),
    }
    match session.step(Event::FileWritten(Ok(()))) {
        Action::FetchAttachment { attachment_id, .. } => assert_eq!(attachment_id, "att-2"),
        other => panic!("{other:?}"),
    }
    match session.step(Event::AttachmentFetched(Ok(vec![]))) {
        Action::WriteFile { path, .. } => assert_eq!(path, dir.join("a-2.pdf")),
        other => panic!("{other:?}"),
    }
    match session.step(Event::FileWritten(Ok(()))) {
        Action::Report(report) => {
            assert_eq!(report.message_id, "msg-1");
            assert_eq!(report.output_dir, "/work/dl");
            assert!(!report.dry_run);
            assert_eq!(report.downloaded_count, 2);
            assert_eq!(report.skipped_inline_count, 1);
            let indices: Vec<usize> = report.attachments.iter().map(|a| a.part_index).collect();
            assert_eq!(indices, [0, 2]);
            let first = &report.attachments[0];
            assert_eq!(first.filename, "a.pdf");
            assert_eq!(first.path, dir.join("a.pdf").display().to_string());
            assert_eq!(first.mime_type, "application/pdf");
            assert_eq!(first.size_bytes, 3);
            assert_eq!(first.attachment_id, "att-0");
            assert!(!first.inline && first.content_id.is_none());
            assert_eq!(report.attachments[1].size_bytes, 0);
        }
        other => panic!("{other:?}"),
    }
}

#[test]
fn a_message_without_chosen_parts_is_reported_at_once() {
    let parts = parts();
    let inline_only = &parts[1..2];
    let mut session = until_message(config(false, false));
    match session.step(Event::MessageFetched(Ok(inline_only))) {
        Action::Report(report) => {
            assert_eq!(report.downloaded_count, 0);
            assert_eq!(report.skipped_inline_count, 1);
            assert!(report.attachments.is_empty() && !report.dry_run);
        }
        other => panic!("{other:?}"),
    }
}

#[test]
fn existing_files_stop_a_download_unless_overwritten() {
    let parts = parts();
    let mut session = until_message(config(true, false));
    session.step(Event::MessageFetched(Ok(&parts)));
    let error = failure(session.step(Event::TargetsProbed(vec![false, true, false])));
    assert!(error.message().starts_with("Refusing to overwrite existing file '"));
    assert!(error.message().contains("logo.png"));

    let mut session = until_message(config(true, true));
    session.step(Event::MessageFetched(Ok(&parts)));
    let action = session.step(Event::TargetsProbed(vec![true, true, true]));
    assert!(matches!(action, Action::CreateDirectory { .. }));
    session.step(Event::DirectoryCreated(Ok(())));
    let action = session.step(Event::AttachmentFetched(Ok(vec![7])));
    assert!(matches!(action, Action::WriteFile { overwrite: true, .. }));
}

#[test]
fn each_failure_has_its_error() {
    let (mut session, _) = DownloadSession::start(config(false, false));
    let error = failure(session.step(Event::Authorized(Err("no token".to_string()))));
    assert!(matches!(error, GwsError::Auth(_)));
    assert_eq!(error.message(), "Gmail auth failed: no token");

    let (mut session, _) = DownloadSession::start(config(false, false));
    session.step(Event::Authorized(Ok(())));
    let down = GwsError::Other("down".to_string());
    let error = failure(session.step(Event::ClientBuilt(Err(down))));
    assert!(matches!(error, GwsError::Other(_)));

    let mut session = until_message(config(false, false));
    let down = GwsError::Other("not found".to_string());
    let error = failure(session.step(Event::MessageFetched(Err(down))));
    assert_eq!(error.message(), "not found");

    let parts = parts();
    let mut session = until_message(config(false, false));
    session.step(Event::MessageFetched(Ok(&parts)));
    session.step(Event::TargetsProbed(vec![false, false]));
    let error = failure(session.step(Event::DirectoryCreated(Err("read-only".to_string()))));
    assert_eq!(error.message(), "Failed to create --output-dir '/work/dl': read-only");

    let mut session = until_message(config(false, false));
    session.step(Event::MessageFetched(Ok(&parts)));
    session.step(Event::TargetsProbed(vec![false, false]));
    session.step(Event::DirectoryCreated(Ok(())));
    let gone = GwsError::Other("gone".to_string());
    let error = failure(session.step(Event::AttachmentFetched(Err(gone))));
    assert_eq!(error.message(), "gone");

    let mut session = until_message(config(false, false));
    session.step(Event::MessageFetched(Ok(&parts)));
    session.step(Event::TargetsProbed(vec![false, false]));
    session.step(Event::DirectoryCreated(Ok(())));
    session.step(Event::AttachmentFetched(Ok(vec![1])));
    let failed = WriteFailure { step: WriteStep::Create, cause: "exists".to_string() };
    let error = failure(session.step(Event::FileWritten(Err(failed))));
    let path = PathBuf::from("/work/dl").join("a.pdf");
    assert_eq!(
        error.message(),
        format!("Failed to create attachment file '{}': exists", path.display())
    );
}

#[test]
fn write_steps_are_told_apart() {
    let cases = [
        (WriteStep::Create, "Failed to create attachment file 'p': c"),
        (WriteStep::Write, "Failed to write attachment file 'p': c"),
        (WriteStep::Sync, "Failed to sync attachment file 'p': c"),
    ];
    for (step, text) in cases {
        let error = write_error(&WriteFailure { step, cause: "c".to_string() }, "p");
        assert!(matches!(error, GwsError::Validation(_)));
        assert_eq!(error.message(), text);
    }
}

#[test]
fn files_are_replaced_only_when_requested() {
    let keep = open_mode(false);
    assert!(keep.write && keep.create_new && !keep.create && !keep.truncate);
    let replace = open_mode(true);
    assert!(replace.write && replace.create && replace.truncate && !replace.create_new);
}

#[test]
fn inline_parts_are_described_with_their_content_id() {
    let parts = parts();
    let selected = select_download_parts(&parts, true);
    let planned = plan_targets(&selected, &PathBuf::from("d"));
    let record = downloaded_attachment(&planned[1], 2);
    assert_eq!(record.part_index, 1);
    assert_eq!(record.filename, "logo.png");
    assert_eq!(record.mime_type, "image/png");
    assert_eq!(record.size_bytes, 2);
    assert!(record.inline);
    assert_eq!(record.content_id, Some("cid".to_string()));
}

#[test]
fn only_the_answer_to_the_last_action_is_expected() {
    let parts = parts();
    let (mut session, _) = DownloadSession::start(config(false, false));
    assert!(session.is_expected(&Event::Authorized(Ok(()))));
    assert!(!session.is_expected(&Event::ClientBuilt(Ok(()))));
    session.step(Event::Authorized(Ok(())));
    session.step(Event::ClientBuilt(Ok(())));
    session.step(Event::MessageFetched(Ok(&parts)));
    assert!(session.is_expected(&Event::TargetsProbed(vec![false, false])));
    assert!(!session.is_expected(&Event::TargetsProbed(vec![false])));
    session.step(Event::TargetsProbed(vec![true, false]));
    assert!(!session.is_expected(&Event::DirectoryCreated(Ok(()))));
    assert!(!session.is_expected(&Event::TargetsProbed(vec![false, false])));
}

#[test]
fn only_reading_is_asked_for() {
    assert_eq!(GMAIL_READONLY_SCOPE, "https://www.googleapis.com/auth/gmail.readonly");
    let (_, action) = DownloadSession::start(config(true, true));
    match action {
        Action::Authorize { scope } => {
            assert_eq!(scope, "https://www.googleapis.com/auth/gmail.readonly");
        }
        other => panic!("{other:?}"),
    }
}
