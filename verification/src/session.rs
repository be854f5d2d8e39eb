//! The course of a download: what is done next, and what is made of how it went.
//!
//! A [`DownloadSession`] decides; its owner acts. Each [`Action`] is carried out by the
//! owner, who hands the outcome back as an [`Event`].

use std::path::PathBuf;

use vstd::prelude::*;

use crate::cli::{ConfigView, DownloadAttachmentsConfig};
use crate::error::{ErrorView, GwsError};
use crate::parts::{select_download_parts, skipped_inline_count, OriginalPart};
use crate::paths::display_path;
use crate::plan::{check_targets, plan_targets, PlannedAttachment};
use crate::write::{write_error, WriteFailure};

verus! {

/// An attachment that was written to a file.
#[derive(Debug)]
pub struct DownloadedAttachment {
    pub part_index: usize,
    pub filename: String,
    pub path: String,
    pub mime_type: String,
    pub size_bytes: u64,
    pub attachment_id: String,
    pub inline: bool,
    pub content_id: Option<String>,
}

/// What a [`DownloadedAttachment`] says.
pub struct RecordView {
    pub part_index: int,
    pub filename: Seq<char>,
    pub path: Seq<char>,
    pub mime_type: Seq<char>,
    pub size_bytes: int,
    pub attachment_id: Seq<char>,
    pub inline: bool,
    pub content_id: Option<Seq<char>>,
}

/// The text in an optional string.
pub open spec fn optional_text(text: Option<String>) -> Option<Seq<char>> {
    match text {
        Some(text) => Some(text@),
        None => None,
    }
}

impl View for DownloadedAttachment {
    type V = RecordView;

    open spec fn view(&self) -> RecordView {
        RecordView {
            part_index: self.part_index as int,
            filename: self.filename@,
            path: self.path@,
            mime_type: self.mime_type@,
            size_bytes: self.size_bytes as int,
            attachment_id: self.attachment_id@,
            inline: self.inline,
            content_id: optional_text(self.content_id),
        }
    }
}

/// What a list of downloaded attachments says.
pub open spec fn records(attachments: Seq<DownloadedAttachment>) -> Seq<RecordView> {
    attachments.map_values(|attachment: DownloadedAttachment| attachment@)
}

/// What is said of a planned attachment when `size_bytes` bytes were written for it.
pub open spec fn record_of(item: PlannedAttachment, size_bytes: int) -> RecordView {
    RecordView {
        part_index: item.original_index as int,
        filename: item.filename@,
        path: crate::paths::path_text(item.path),
        mime_type: item.part.content_type@,
        size_bytes,
        attachment_id: item.part.attachment_id@,
        inline: item.part.inline(),
        content_id: optional_text(item.part.content_id),
    }
}

/// The outcome of a download, as it is shown to the user.
#[derive(Debug)]
pub struct DownloadAttachmentsResult {
    pub message_id: String,
    pub output_dir: String,
    pub dry_run: bool,
    pub downloaded_count: usize,
    pub skipped_inline_count: usize,
    pub attachments: Vec<DownloadedAttachment>,
}

/// What a [`DownloadAttachmentsResult`] says.
pub struct ReportView {
    pub message_id: Seq<char>,
    pub output_dir: Seq<char>,
    pub dry_run: bool,
    pub downloaded_count: int,
    pub skipped_inline_count: int,
    pub attachments: Seq<RecordView>,
}

impl View for DownloadAttachmentsResult {
    type V = ReportView;

    open spec fn view(&self) -> ReportView {
        ReportView {
            message_id: self.message_id@,
            output_dir: self.output_dir@,
            dry_run: self.dry_run,
            downloaded_count: self.downloaded_count as int,
            skipped_inline_count: self.skipped_inline_count as int,
            attachments: records(self.attachments@),
        }
    }
}

/// The scope that an access token needs for reading mail.
pub const GMAIL_READONLY_SCOPE: &'static str = "https://www.googleapis.com/auth/gmail.readonly";

/// What is to be done next.
#[derive(Debug)]
pub enum Action {
    /// Get an access token for the scope.
    Authorize { scope: String },
    /// Set up the client that talks to the mail service.
    BuildClient,
    /// Fetch the parts of the message.
    FetchMessage { message_id: String },
    /// Find out which of these files exist.
    ProbeTargets { paths: Vec<PathBuf> },
    /// Create the directory, and those above it, unless they are there.
    CreateDirectory { path: PathBuf },
    /// Fetch the content of an attachment.
    FetchAttachment { message_id: String, attachment_id: String },
    /// Write the content of an attachment to its file.
    WriteFile { path: PathBuf, data: Vec<u8>, overwrite: bool },
    /// Show the outcome; the download is over.
    Report(DownloadAttachmentsResult),
    /// Fail; the download is over.
    Fail(GwsError),
}

/// What an [`Action`] says.
pub enum ActionView {
    Authorize { scope: Seq<char> },
    BuildClient,
    FetchMessage { message_id: Seq<char> },
    ProbeTargets { paths: Seq<PathBuf> },
    CreateDirectory { path: PathBuf },
    FetchAttachment { message_id: Seq<char>, attachment_id: Seq<char> },
    WriteFile { path: PathBuf, data: Seq<u8>, overwrite: bool },
    Report(ReportView),
    Fail(ErrorView),
}

impl View for Action {
    type V = ActionView;

    open spec fn view(&self) -> ActionView {
        match self {
            Action::Authorize { scope } => ActionView::Authorize { scope: scope@ },
            Action::BuildClient => ActionView::BuildClient,
            Action::FetchMessage { message_id } => ActionView::FetchMessage {
                message_id: message_id@,
            },
            Action::ProbeTargets { paths } => ActionView::ProbeTargets { paths: paths@ },
            Action::CreateDirectory { path } => ActionView::CreateDirectory { path: *path },
            Action::FetchAttachment { message_id, attachment_id } => ActionView::FetchAttachment {
                message_id: message_id@,
                attachment_id: attachment_id@,
            },
            Action::WriteFile { path, data, overwrite } => ActionView::WriteFile {
                path: *path,
                data: data@,
                overwrite: *overwrite,
            },
            Action::Report(report) => ActionView::Report(report@),
            Action::Fail(error) => ActionView::Fail(error@),
        }
    }
}

/// How an action went.
#[derive(Debug)]
pub enum Event<'a> {
    Authorized(Result<(), String>),
    ClientBuilt(Result<(), GwsError>),
    MessageFetched(Result<&'a [OriginalPart], GwsError>),
    /// Of each file that was asked about, whether it exists.
    TargetsProbed(Vec<bool>),
    DirectoryCreated(Result<(), String>),
    AttachmentFetched(Result<Vec<u8>, GwsError>),
    FileWritten(Result<(), WriteFailure>),
}

/// Which action the download is waiting for.
#[derive(Debug, Clone, Copy, PartialEq, Eq, Structural)]
pub enum Stage {
    Authorizing,
    BuildingClient,
    FetchingMessage,
    ProbingTargets,
    CreatingDirectory,
    FetchingAttachment,
    WritingFile,
    Finished,
}

/// A download under way.
#[derive(Debug)]
pub struct DownloadSession<'a> {
    stage: Stage,
    message_id: String,
    output_dir: PathBuf,
    include_inline: bool,
    overwrite: bool,
    skipped_inline_count: usize,
    pending: Vec<PlannedAttachment<'a>>,
    writing: Option<DownloadedAttachment>,
    downloaded: Vec<DownloadedAttachment>,
}

/// What a [`DownloadSession`] knows.
pub struct SessionView<'a> {
    pub stage: Stage,
    pub message_id: Seq<char>,
    pub output_dir: PathBuf,
    pub include_inline: bool,
    pub overwrite: bool,
    pub skipped_inline_count: int,
    /// The attachments that are still to be fetched, in order.
    pub pending: Seq<PlannedAttachment<'a>>,
    /// The attachment that is being written.
    pub writing: Option<RecordView>,
    /// The attachments that were written, in order.
    pub downloaded: Seq<RecordView>,
}

impl<'a> View for DownloadSession<'a> {
    type V = SessionView<'a>;

    closed spec fn view(&self) -> SessionView<'a> {
        SessionView {
            stage: self.stage,
            message_id: self.message_id@,
            output_dir: self.output_dir,
            include_inline: self.include_inline,
            overwrite: self.overwrite,
            skipped_inline_count: self.skipped_inline_count as int,
            pending: self.pending@,
            writing: match self.writing {
                Some(record) => Some(record@),
                None => None,
            },
            downloaded: records(self.downloaded@),
        }
    }
}

impl<'a> SessionView<'a> {
    /// There is an attachment to go on with wherever the stage needs one, and nothing has
    /// been written before the first attachment is.
    pub open spec fn wf(self) -> bool {
        match self.stage {
            Stage::Authorizing | Stage::BuildingClient | Stage::FetchingMessage => {
                self.pending.len() == 0 && self.writing is None && self.downloaded.len() == 0
            },
            Stage::ProbingTargets | Stage::CreatingDirectory => {
                self.pending.len() > 0 && self.writing is None && self.downloaded.len() == 0
            },
            Stage::FetchingAttachment => self.pending.len() > 0 && self.writing is None,
            Stage::WritingFile => self.writing is Some,
            Stage::Finished => true,
        }
    }

    /// Whether `event` answers the action that the download is waiting for.
    pub open spec fn expects(self, event: Event<'a>) -> bool {
        match (self.stage, event) {
            (Stage::Authorizing, Event::Authorized(_)) => true,
            (Stage::BuildingClient, Event::ClientBuilt(_)) => true,
            (Stage::FetchingMessage, Event::MessageFetched(_)) => true,
            (Stage::ProbingTargets, Event::TargetsProbed(present)) => {
                present@.len() == self.pending.len()
            },
            (Stage::CreatingDirectory, Event::DirectoryCreated(_)) => true,
            (Stage::FetchingAttachment, Event::AttachmentFetched(_)) => true,
            (Stage::WritingFile, Event::FileWritten(_)) => true,
            _ => false,
        }
    }

    /// The same at another stage.
    pub open spec fn at(self, stage: Stage) -> SessionView<'a> {
        SessionView { stage, ..self }
    }

    /// What is shown to the user when the download is over.
    pub open spec fn report(self) -> ReportView {
        ReportView {
            message_id: self.message_id,
            output_dir: crate::paths::path_text(self.output_dir),
            dry_run: false,
            downloaded_count: self.downloaded.len() as int,
            skipped_inline_count: self.skipped_inline_count,
            attachments: self.downloaded,
        }
    }

    /// The download is over, and what was written has gone into the report.
    pub open spec fn reported(self) -> SessionView<'a> {
        SessionView { stage: Stage::Finished, downloaded: Seq::empty(), ..self }
    }

    /// The request for the content of the next attachment.
    pub open spec fn fetch_next(self) -> ActionView {
        ActionView::FetchAttachment {
            message_id: self.message_id,
            attachment_id: self.pending[0].part.attachment_id@,
        }
    }
}

/// The report of a dry run: nothing was looked at and nothing was done.
pub open spec fn dry_run_report(config: ConfigView) -> ReportView {
    ReportView {
        message_id: config.message_id,
        output_dir: crate::paths::path_text(config.output_dir),
        dry_run: true,
        downloaded_count: 0,
        skipped_inline_count: 0,
        attachments: Seq::empty(),
    }
}

/// A download that has just been asked for, and its first action: a dry run is over at
/// once, any other download needs an access token for reading mail first.
pub open spec fn started(config: ConfigView, session: SessionView, action: ActionView) -> bool {
    &&& session.message_id == config.message_id
    &&& session.output_dir == config.output_dir
    &&& session.include_inline == config.include_inline
    &&& session.overwrite == config.overwrite
    &&& session.skipped_inline_count == 0
    &&& session.pending.len() == 0
    &&& session.writing is None
    &&& session.downloaded.len() == 0
    &&& session.stage == if config.dry_run {
        Stage::Finished
    } else {
        Stage::Authorizing
    }
    &&& action == if config.dry_run {
        ActionView::Report(dry_run_report(config))
    } else {
        ActionView::Authorize { scope: GMAIL_READONLY_SCOPE@ }
    }
}

/// The download fails with `error`.
pub open spec fn failed(
    before: SessionView,
    after: SessionView,
    action: ActionView,
    error: ErrorView,
) -> bool {
    after == before.at(Stage::Finished) && action == ActionView::Fail(error)
}

/// The parts of the message are known: the chosen ones are planned, and the download is
/// over if there is none.
pub open spec fn message_planned(
    before: SessionView,
    parts: Seq<OriginalPart>,
    after: SessionView,
    action: ActionView,
) -> bool {
    let chosen = crate::parts::selection(parts, before.include_inline);
    &&& crate::plan::is_plan(after.pending, chosen, before.output_dir)
    &&& after.stage == if chosen.len() == 0 {
        Stage::Finished
    } else {
        Stage::ProbingTargets
    }
    &&& after.skipped_inline_count == crate::parts::skipped_inline(parts, before.include_inline)
    &&& after == (SessionView {
        stage: after.stage,
        skipped_inline_count: after.skipped_inline_count,
        pending: after.pending,
        ..before
    })
    &&& action == if chosen.len() == 0 {
        ActionView::Report(after.report())
    } else {
        ActionView::ProbeTargets { paths: crate::plan::targets(after.pending) }
    }
}

/// How a download goes on: what it knows after `event`, and what it does next.
pub open spec fn goes_on(
    before: SessionView,
    event: Event,
    after: SessionView,
    action: ActionView,
) -> bool {
    match event {
        Event::Authorized(Ok(())) => {
            after == before.at(Stage::BuildingClient) && action == ActionView::BuildClient
        },
        Event::Authorized(Err(cause)) => failed(
            before,
            after,
            action,
            ErrorView::Auth("Gmail auth failed: "@ + cause@),
        ),
        Event::ClientBuilt(Ok(())) => {
            &&& after == before.at(Stage::FetchingMessage)
            &&& action == ActionView::FetchMessage { message_id: before.message_id }
        },
        Event::ClientBuilt(Err(error)) => failed(before, after, action, error@),
        Event::MessageFetched(Ok(parts)) => message_planned(before, parts@, after, action),
        Event::MessageFetched(Err(error)) => failed(before, after, action, error@),
        Event::TargetsProbed(present) => {
            match crate::plan::first_target_error(
                before.output_dir,
                crate::plan::targets(before.pending),
                present@,
                before.overwrite,
            ) {
                Some(error) => failed(before, after, action, error),
                None => {
                    &&& after == before.at(Stage::CreatingDirectory)
                    &&& action == ActionView::CreateDirectory { path: before.output_dir }
                },
            }
        },
        Event::DirectoryCreated(Ok(())) => {
            after == before.at(Stage::FetchingAttachment) && action == before.fetch_next()
        },
        Event::DirectoryCreated(Err(cause)) => failed(
            before,
            after,
            action,
            ErrorView::Validation(
                "Failed to create --output-dir '"@ + crate::paths::path_text(before.output_dir)
                    + "': "@ + cause@,
            ),
        ),
        Event::AttachmentFetched(Ok(data)) => {
            &&& after == (SessionView {
                stage: Stage::WritingFile,
                pending: before.pending.drop_first(),
                writing: Some(record_of(before.pending[0], data@.len() as int)),
                ..before
            })
            &&& action == ActionView::WriteFile {
                path: before.pending[0].path,
                data: data@,
                overwrite: before.overwrite,
            }
        },
        Event::AttachmentFetched(Err(error)) => failed(before, after, action, error@),
        Event::FileWritten(Ok(())) => {
            let done = SessionView {
                writing: None,
                downloaded: before.downloaded.push(before.writing->0),
                ..before
            };
            if before.pending.len() == 0 {
                &&& after == done.reported()
                &&& action == ActionView::Report(done.report())
            } else {
                &&& after == done.at(Stage::FetchingAttachment)
                &&& action == done.fetch_next()
            }
        },
        Event::FileWritten(Err(failure)) => failed(
            before,
            after,
            action,
            crate::write::write_failure_error(
                failure.step,
                (before.writing->0).path,
                failure.cause@,
            ),
        ),
    }
}

fn copied_text(text: &Option<String>) -> (copy: Option<String>)
    ensures
        optional_text(copy) == optional_text(*text),
{
    match text {
        Some(text) => Some(text.clone()),
        None => None,
    }
}

/// Describes a planned attachment of which `size_bytes` bytes are written.
pub fn downloaded_attachment(item: &PlannedAttachment, size_bytes: u64) -> (record:
    DownloadedAttachment)
    ensures
        record@ == record_of(*item, size_bytes as int),
{
    DownloadedAttachment {
        part_index: item.original_index,
        filename: item.filename.clone(),
        path: display_path(&item.path),
        mime_type: item.part.content_type.clone(),
        size_bytes,
        attachment_id: item.part.attachment_id.clone(),
        inline: item.part.is_inline(),
        content_id: copied_text(&item.part.content_id),
    }
}

impl<'a> DownloadSession<'a> {
    /// Begins a download.
    pub fn start(config: DownloadAttachmentsConfig) -> (begun: (DownloadSession<'a>, Action))
        ensures
            started(config@, begun.0@, begun.1@),
            begun.0@.wf(),
    {
        let action = if config.dry_run {
            Action::Report(
                DownloadAttachmentsResult {
                    message_id: config.message_id.clone(),
                    output_dir: display_path(&config.output_dir),
                    dry_run: true,
                    downloaded_count: 0,
                    skipped_inline_count: 0,
                    attachments: Vec::new(),
                },
            )
        } else {
            Action::Authorize { scope: GMAIL_READONLY_SCOPE.to_owned() }
        };
        let session = DownloadSession {
            stage: if config.dry_run {
                Stage::Finished
            } else {
                Stage::Authorizing
            },
            message_id: config.message_id,
            output_dir: config.output_dir,
            include_inline: config.include_inline,
            overwrite: config.overwrite,
            skipped_inline_count: 0,
            pending: Vec::new(),
            writing: None,
            downloaded: Vec::new(),
        };
        proof {
            if config.dry_run {
                assert((action->Report_0)@.attachments =~= Seq::<RecordView>::empty());
            }
        }
        (session, action)
    }

    /// Whether `event` answers the action that the download is waiting for.
    pub fn is_expected(&self, event: &Event<'a>) -> (yes: bool)
        ensures
            yes == self@.expects(*event),
    {
        match (self.stage, event) {
            (Stage::Authorizing, Event::Authorized(_)) => true,
            (Stage::BuildingClient, Event::ClientBuilt(_)) => true,
            (Stage::FetchingMessage, Event::MessageFetched(_)) => true,
            (Stage::ProbingTargets, Event::TargetsProbed(present)) => {
                present.len() == self.pending.len()
            },
            (Stage::CreatingDirectory, Event::DirectoryCreated(_)) => true,
            (Stage::FetchingAttachment, Event::AttachmentFetched(_)) => true,
            (Stage::WritingFile, Event::FileWritten(_)) => true,
            _ => false,
        }
    }

    fn fail(&mut self, error: GwsError) -> (action: Action)
        ensures
            failed(old(self)@, final(self)@, action@, error@),
    {
        self.stage = Stage::Finished;
        Action::Fail(error)
    }

    fn finish(&mut self) -> (action: Action)
        ensures
            final(self)@ == old(self)@.reported(),
            action@ == ActionView::Report(old(self)@.report()),
    {
        let mut attachments: Vec<DownloadedAttachment> = Vec::new();
        std::mem::swap(&mut attachments, &mut self.downloaded);
        self.stage = Stage::Finished;
        assert(self@.downloaded =~= Seq::empty());
        Action::Report(
            DownloadAttachmentsResult {
                message_id: self.message_id.clone(),
                output_dir: display_path(&self.output_dir),
                dry_run: false,
                downloaded_count: attachments.len(),
                skipped_inline_count: self.skipped_inline_count,
                attachments,
            },
        )
    }

    fn fetch_next(&mut self) -> (action: Action)
        requires
            old(self)@.pending.len() > 0,
        ensures
            final(self)@ == old(self)@.at(Stage::FetchingAttachment),
            action@ == old(self)@.fetch_next(),
    {
        self.stage = Stage::FetchingAttachment;
        Action::FetchAttachment {
            message_id: self.message_id.clone(),
            attachment_id: self.pending[0].part.attachment_id.clone(),
        }
    }

    fn plan_message(&mut self, parts: &'a [OriginalPart]) -> (action: Action)
        requires
            old(self)@.wf(),
            old(self)@.stage == Stage::FetchingMessage,
        ensures
            message_planned(old(self)@, parts@, final(self)@, action@),
    {
        self.skipped_inline_count = skipped_inline_count(parts, self.include_inline);
        let selected = select_download_parts(parts, self.include_inline);
        assert(crate::parts::chosen(selected@).len() == selected@.len());
        self.pending = plan_targets(&selected, &self.output_dir);
        if self.pending.len() == 0 {
            assert(self@.downloaded =~= Seq::empty());
            return self.finish();
        }
        self.stage = Stage::ProbingTargets;
        let mut paths: Vec<PathBuf> = Vec::new();
        for i in 0..self.pending.len()
            invariant
                paths@ == crate::plan::targets(self.pending@).take(i as int),
        {
            paths.push(self.pending[i].path.clone());
            assert(paths@ =~= crate::plan::targets(self.pending@).take(i + 1));
        }
        assert(paths@ =~= crate::plan::targets(self.pending@));
        Action::ProbeTargets { paths }
    }

    fn write_next(&mut self, data: Vec<u8>) -> (action: Action)
        requires
            old(self)@.wf(),
            old(self)@.stage == Stage::FetchingAttachment,
        ensures
            goes_on(old(self)@, Event::AttachmentFetched(Ok(data)), final(self)@, action@),
            final(self)@.wf(),
    {
        let item = self.pending.remove(0);
        assert(self.pending@ =~= old(self)@.pending.drop_first());
        self.writing = Some(downloaded_attachment(&item, data.len() as u64));
        self.stage = Stage::WritingFile;
        Action::WriteFile { path: item.path, data, overwrite: self.overwrite }
    }

    /// Takes in how the last action went, and tells what to do next.
    pub fn step(&mut self, event: Event<'a>) -> (action: Action)
        requires
            old(self)@.wf(),
            old(self)@.expects(event),
        ensures
            goes_on(old(self)@, event, final(self)@, action@),
            final(self)@.wf(),
    {
        match event {
            Event::Authorized(Ok(())) => {
                self.stage = Stage::BuildingClient;
                Action::BuildClient
            },
            Event::Authorized(Err(cause)) => {
                let mut text = "Gmail auth failed: ".to_owned();
                text.append(&cause);
                self.fail(GwsError::Auth(text))
            },
            Event::ClientBuilt(Ok(())) => {
                self.stage = Stage::FetchingMessage;
                Action::FetchMessage { message_id: self.message_id.clone() }
            },
            Event::ClientBuilt(Err(error)) => self.fail(error),
            Event::MessageFetched(Ok(parts)) => self.plan_message(parts),
            Event::MessageFetched(Err(error)) => self.fail(error),
            Event::TargetsProbed(present) => {
                match check_targets(&self.pending, &self.output_dir, &present, self.overwrite) {
                    Ok(()) => {
                        self.stage = Stage::CreatingDirectory;
                        Action::CreateDirectory { path: self.output_dir.clone() }
                    },
                    Err(error) => self.fail(error),
                }
            },
            Event::DirectoryCreated(Ok(())) => self.fetch_next(),
            Event::DirectoryCreated(Err(cause)) => {
                let mut text = "Failed to create --output-dir '".to_owned();
                text.append(&display_path(&self.output_dir));
                text.append("': ");
                text.append(&cause);
                self.fail(GwsError::Validation(text))
            },
            Event::AttachmentFetched(Ok(data)) => self.write_next(data),
            Event::AttachmentFetched(Err(error)) => self.fail(error),
            Event::FileWritten(Ok(())) => {
                let mut writing: Option<DownloadedAttachment> = None;
                std::mem::swap(&mut writing, &mut self.writing);
                let ghost before = self.downloaded@;
                self.downloaded.push(writing.unwrap());
                assert(records(self.downloaded@) =~= records(before).push((writing->0)@));
                if self.pending.len() == 0 {
                    self.finish()
                } else {
                    self.fetch_next()
                }
            },
            Event::FileWritten(Err(failure)) => {
                let error = write_error(&failure, &self.writing.as_ref().unwrap().path);
                self.fail(error)
            },
        }
    }
}

} // verus!
