//! The course of a download, action by action, said of the request and of the answers
//! alone: what a download knows in between does not come into it.

use std::path::PathBuf;

use vstd::prelude::*;

use crate::cli::ConfigView;
use crate::error::ErrorView;
use crate::parts::OriginalPart;
use crate::run::Run;
use crate::session::{ActionView, Event, RecordView, ReportView, Stage};
use crate::validate::LookupView;
use crate::write::WriteStep;

verus! {

/// Whether `event` is an answer to `action`: of the right kind and, where files were asked
/// about, with one answer for each.
pub open spec fn answers(action: ActionView, event: Event) -> bool {
    match (action, event) {
        (ActionView::Authorize { .. }, Event::Authorized(_)) => true,
        (ActionView::BuildClient, Event::ClientBuilt(_)) => true,
        (ActionView::FetchMessage { .. }, Event::MessageFetched(_)) => true,
        (ActionView::ProbeTargets { paths }, Event::TargetsProbed(present)) => {
            present@.len() == paths.len()
        },
        (ActionView::CreateDirectory { .. }, Event::DirectoryCreated(_)) => true,
        (ActionView::FetchAttachment { .. }, Event::AttachmentFetched(_)) => true,
        (ActionView::WriteFile { .. }, Event::FileWritten(_)) => true,
        _ => false,
    }
}

/// Every answer to an action is taken, and nothing else is.
pub proof fn every_answer_is_taken(run: Run, config: ConfigView, i: int, event: Event)
    requires
        run.of(config),
        0 <= i < run.states.len(),
    ensures
        run.states[i].expects(event) <==> answers(run.actions[i], event),
{
    if i > 0 {
        assert(run.step_at(i - 1));
        crate::run::lemma_run(run, config, i - 1);
    }
}

/// A dry run reports the message and the directory that it was asked about, and nothing
/// else: it has no other action, and nothing is answered.
pub proof fn a_dry_run_is_one_report(run: Run, config: ConfigView)
    requires
        run.of(config),
        config.dry_run,
    ensures
        run.events.len() == 0,
        run.actions.len() == 1,
        run.actions[0] == ActionView::Report(
            ReportView {
                message_id: config.message_id,
                output_dir: crate::paths::path_text(config.output_dir),
                dry_run: true,
                downloaded_count: 0,
                skipped_inline_count: 0,
                attachments: Seq::empty(),
            },
        ),
{
    crate::run::dry_run_only_reports(run, config);
}

/// If the command line holds `--dry-run`, an accepted request is nothing but the report
/// of a dry run, whatever else the command line holds.
pub proof fn dry_run_on_the_command_line_prevails(
    run: Run,
    config: ConfigView,
    matches: clap::ArgMatches,
    lookup: LookupView,
)
    requires
        crate::cli::requested(matches, lookup) == Some(Ok::<ConfigView, ErrorView>(config)),
        crate::clap_items::flag_arguments(matches).contains_pair("dry-run"@, Some(true)),
        run.of(config),
    ensures
        run.events.len() == 0,
        run.actions.len() == 1,
        run.actions[0] matches ActionView::Report(report) && report.dry_run
            && report.attachments.len() == 0,
{
    crate::promises::requests_say_what_the_arguments_say(matches, lookup, config);
    a_dry_run_is_one_report(run, config);
}

/// Whether the run ends at the event `i`, with the error `error`.
pub open spec fn fails_at(run: Run, i: int, error: ErrorView) -> bool {
    run.events.len() == i + 1 && run.actions[i + 1] == ActionView::Fail(error)
}

/// Any other download first asks for an access token for reading mail and nothing else,
/// then sets up its client, then asks for the message of the request. The first of these
/// that fails ends it.
pub proof fn a_download_begins_so(run: Run, config: ConfigView)
    requires
        run.of(config),
        !config.dry_run,
    ensures
        run.actions[0] == (ActionView::Authorize {
            scope: "https://www.googleapis.com/auth/gmail.readonly"@,
        }),
        run.events.len() > 0 ==> match run.events[0] {
            Event::Authorized(Ok(())) => run.actions[1] == ActionView::BuildClient,
            Event::Authorized(Err(cause)) => fails_at(
                run,
                0,
                ErrorView::Auth("Gmail auth failed: "@ + cause@),
            ),
            _ => false,
        },
        run.events.len() > 1 ==> match run.events[1] {
            Event::ClientBuilt(Ok(())) => run.actions[2] == (ActionView::FetchMessage {
                message_id: config.message_id,
            }),
            Event::ClientBuilt(Err(error)) => fails_at(run, 1, error@),
            _ => false,
        },
        run.events.len() > 2 ==> match run.events[2] {
            Event::MessageFetched(Ok(_)) => true,
            Event::MessageFetched(Err(error)) => fails_at(run, 2, error@),
            _ => false,
        },
{
    if run.events.len() > 0 {
        assert(run.step_at(0));
    }
    if run.events.len() > 1 {
        assert(run.step_at(1));
    }
    if run.events.len() > 2 {
        assert(run.step_at(2));
    }
    if run.events.len() > 3 {
        assert(run.step_at(3));
    }
}

/// The parts that a run has to download: those of its message that were asked for.
pub open spec fn wanted_parts(run: Run, config: ConfigView) -> Seq<(int, OriginalPart)> {
    crate::parts::selection(run.events[2]->MessageFetched_0->Ok_0@, config.include_inline)
}

/// The place of the file for the part `i` of those.
pub open spec fn place_of(run: Run, config: ConfigView, i: int) -> PathBuf {
    crate::paths::joined(
        config.output_dir,
        crate::plan::planned_names(wanted_parts(run, config))[i],
    )
}

/// Whether a run has got to know its message.
pub open spec fn knows_the_message(run: Run) -> bool {
    run.events.len() > 2 && run.events[2] matches Event::MessageFetched(Ok(_))
}

/// The request for the content of the part `i` of those.
pub open spec fn request_for(run: Run, config: ConfigView, i: int) -> ActionView {
    ActionView::FetchAttachment {
        message_id: config.message_id,
        attachment_id: wanted_parts(run, config)[i].1.attachment_id@,
    }
}

/// What is reported of the part `i` of those, once its content was fetched.
pub open spec fn told_of(run: Run, config: ConfigView, i: int) -> RecordView {
    let (position, part) = wanted_parts(run, config)[i];
    RecordView {
        part_index: position,
        filename: crate::plan::planned_names(wanted_parts(run, config))[i],
        path: crate::paths::path_text(place_of(run, config, i)),
        mime_type: part.content_type@,
        size_bytes: run.events[5 + 2 * i]->AttachmentFetched_0->Ok_0@.len() as int,
        attachment_id: part.attachment_id@,
        inline: part.content_id is Some,
        content_id: match part.content_id {
            Some(id) => Some(id@),
            None => None,
        },
    }
}

/// Whether `report` is what is to be said of the run when all its parts are written: one
/// record for each, in the order of the message, and how many parts were left out.
pub open spec fn tells_all(report: ReportView, run: Run, config: ConfigView) -> bool {
    let parts = wanted_parts(run, config);
    &&& report.message_id == config.message_id
    &&& report.output_dir == crate::paths::path_text(config.output_dir)
    &&& !report.dry_run
    &&& report.downloaded_count == parts.len()
    &&& report.skipped_inline_count == run.events[2]->MessageFetched_0->Ok_0@.len() - parts.len()
    &&& report.attachments.len() == parts.len()
    &&& forall|i: int|
        0 <= i < parts.len() ==> (#[trigger] report.attachments[i]) == told_of(run, config, i)
}

proof fn lemma_message(run: Run, config: ConfigView)
    requires
        run.of(config),
        knows_the_message(run),
    ensures
        !config.dry_run,
        run.states[2].stage == Stage::FetchingMessage,
        crate::run::faithful(run.states[3], config),
        crate::session::message_planned(
            run.states[2],
            run.events[2]->MessageFetched_0->Ok_0@,
            run.states[3],
            run.actions[3],
        ),
        crate::plan::is_plan(
            run.states[3].pending,
            wanted_parts(run, config),
            config.output_dir,
        ),
        run.states[2].downloaded.len() == 0,
{
    crate::run::lemma_run(run, config, 2);
    crate::run::lemma_run(run, config, 3);
    assert(run.step_at(2));
}

proof fn lemma_item(run: Run, config: ConfigView, i: int)
    requires
        run.of(config),
        knows_the_message(run),
        0 <= i < wanted_parts(run, config).len(),
    ensures
        ({
            let item = run.states[3].pending[i];
            let (position, part) = wanted_parts(run, config)[i];
            &&& run.states[3].pending.len() == wanted_parts(run, config).len()
            &&& item.original_index == position
            &&& *item.part == part
            &&& item.filename@ == crate::plan::planned_names(wanted_parts(run, config))[i]
            &&& item.path == place_of(run, config, i)
        }),
{
    lemma_message(run, config);
    crate::promises::plans_tell_of_their_parts(
        run.states[3].pending,
        wanted_parts(run, config),
        config.output_dir,
        i,
    );
}

/// Once the message is known, a download with nothing to fetch reports that, and any other
/// asks about the place of every wanted part, in order.
pub proof fn every_place_is_asked_about(run: Run, config: ConfigView)
    requires
        run.of(config),
        knows_the_message(run),
    ensures
        wanted_parts(run, config).len() == 0 ==> {
            &&& run.events.len() == 3
            &&& run.actions[3] is Report
            &&& tells_all(run.actions[3]->Report_0, run, config)
        },
        wanted_parts(run, config).len() > 0 ==> {
            &&& run.actions[3] is ProbeTargets
            &&& run.actions[3]->paths.len() == wanted_parts(run, config).len()
            &&& forall|i: int|
                0 <= i < wanted_parts(run, config).len() ==> (#[trigger] run.actions[3]->paths[i])
                    == place_of(run, config, i)
        },
{
    lemma_message(run, config);
    let parts = wanted_parts(run, config);
    crate::laws::selected_and_skipped_make_up_the_message(
        run.events[2]->MessageFetched_0->Ok_0@,
        config.include_inline,
    );
    if parts.len() == 0 {
        if run.events.len() > 3 {
            assert(run.step_at(3));
        }
    } else {
        lemma_item(run, config, 0);
        assert forall|i: int| 0 <= i < parts.len() implies (#[trigger] run.actions[3]->paths[i])
            == place_of(run, config, i) by {
            lemma_item(run, config, i);
        }
    }
}

/// Whether the place `i` is not acceptable, as the answer at the event 3 tells: it leaves
/// the output directory, or there is a file that is not to be overwritten.
pub open spec fn objectionable(run: Run, config: ConfigView, i: int) -> bool {
    ||| !crate::promises::goes_on_from(place_of(run, config, i), config.output_dir)
    ||| run.events[3]->TargetsProbed_0@[i] && !config.overwrite
}

/// What is wrong with the place `i`.
pub open spec fn objection(run: Run, config: ConfigView, i: int) -> ErrorView {
    if !crate::promises::goes_on_from(place_of(run, config, i), config.output_dir) {
        ErrorView::Validation(
            "Attachment target '"@ + crate::paths::path_text(place_of(run, config, i))
                + "' escapes --output-dir '"@ + crate::paths::path_text(config.output_dir) + "'"@,
        )
    } else {
        ErrorView::Validation(
            "Refusing to overwrite existing file '"@ + crate::paths::path_text(
                place_of(run, config, i),
            ) + "'; pass --overwrite to replace it"@,
        )
    }
}

/// The answer tells of each place whether there is a file. If no place is objectionable,
/// the output directory is created next; else the download ends with the objection to the
/// first such place, before anything was created, fetched or written.
pub proof fn the_answer_decides(run: Run, config: ConfigView, n: int)
    requires
        run.of(config),
        knows_the_message(run),
        run.events.len() > 3,
        0 <= n <= wanted_parts(run, config).len(),
        forall|i: int| 0 <= i < n ==> !#[trigger] objectionable(run, config, i),
        n < wanted_parts(run, config).len() ==> objectionable(run, config, n),
    ensures
        run.events[3] matches Event::TargetsProbed(present) && present@.len() == wanted_parts(
            run,
            config,
        ).len(),
        n == wanted_parts(run, config).len() ==> run.actions[4] == (ActionView::CreateDirectory {
            path: config.output_dir,
        }),
        n < wanted_parts(run, config).len() ==> fails_at(run, 3, objection(run, config, n)),
{
    let parts = wanted_parts(run, config);
    let plan = run.states[3].pending;
    lemma_message(run, config);
    every_place_is_asked_about(run, config);
    assert(run.step_at(3));
    let present = run.events[3]->TargetsProbed_0@;
    let paths = crate::plan::targets(plan);
    assert forall|i: int| 0 <= i < parts.len() implies paths[i] == place_of(run, config, i) by {
        lemma_item(run, config, i);
    }
    assert forall|i: int| 0 <= i < n implies crate::promises::goes_on_from(
        #[trigger] paths[i],
        config.output_dir,
    ) && !(present[i] && !config.overwrite) by {
        assert(!objectionable(run, config, i));
    }
    crate::promises::the_first_bad_target_decides(
        config.output_dir,
        paths,
        present,
        config.overwrite,
        n,
    );
    if n < parts.len() {
        crate::promises::targets_are_judged(
            config.output_dir,
            paths[n],
            present[n],
            config.overwrite,
        );
        if run.events.len() > 4 {
            assert(run.step_at(4));
        }
    }
}

/// Once the directory is there, the content of the first wanted part is asked for.
pub proof fn the_directory_comes_first(run: Run, config: ConfigView)
    requires
        run.of(config),
        knows_the_message(run),
        run.events.len() > 4,
    ensures
        wanted_parts(run, config).len() > 0,
        match run.events[4] {
            Event::DirectoryCreated(Ok(())) => run.actions[5] == request_for(run, config, 0),
            Event::DirectoryCreated(Err(cause)) => fails_at(
                run,
                4,
                ErrorView::Validation(
                    "Failed to create --output-dir '"@ + crate::paths::path_text(config.output_dir)
                        + "': "@ + cause@,
                ),
            ),
            _ => false,
        },
{
    lemma_message(run, config);
    assert(run.step_at(3));
    assert(run.step_at(4));
    crate::run::lemma_run(run, config, 4);
    if run.events.len() > 5 {
        assert(run.step_at(5));
    }
    lemma_item(run, config, 0);
}

proof fn lemma_turn(run: Run, config: ConfigView, at: int)
    requires
        run.of(config),
        knows_the_message(run),
        5 <= at < run.events.len(),
    ensures
        crate::run::working_off(run, 3, at),
        crate::run::faithful(run.states[at], config),
        run.states[at].stage == Stage::FetchingAttachment || run.states[at].stage
            == Stage::WritingFile,
        run.states[at].downloaded.len() == (at - 5) / 2,
        run.states[at].stage == Stage::FetchingAttachment <==> (at - 5) % 2 == 0,
        run.states[3].stage == Stage::ProbingTargets,
{
    lemma_message(run, config);
    assert(run.step_at(3));
    crate::run::lemma_working_off(run, config, 3, at);
    crate::run::lemma_run(run, config, at);
}

/// The wanted parts are fetched one by one, and each is written to its place, exactly as
/// it was fetched, before the next is asked for. What cannot be fetched ends the download.
pub proof fn what_is_fetched_is_written(run: Run, config: ConfigView, i: int)
    requires
        run.of(config),
        knows_the_message(run),
        0 <= i,
        5 + 2 * i < run.events.len(),
    ensures
        i < wanted_parts(run, config).len(),
        run.actions[5 + 2 * i] == request_for(run, config, i),
        match run.events[5 + 2 * i] {
            Event::AttachmentFetched(Ok(data)) => run.actions[6 + 2 * i] == (
            ActionView::WriteFile {
                path: place_of(run, config, i),
                data: data@,
                overwrite: config.overwrite,
            }),
            Event::AttachmentFetched(Err(error)) => fails_at(run, 5 + 2 * i, error@),
            _ => false,
        },
{
    let at = 5 + 2 * i;
    let plan = run.states[3].pending;
    lemma_message(run, config);
    lemma_turn(run, config, at);
    assert(run.step_at(at));
    lemma_item(run, config, i);
    assert(run.states[at].pending[0] == plan[i]);
    if at + 1 < run.events.len() {
        assert(run.step_at(at + 1));
    }
}

/// When a part is written, the next is asked for; when the last is, all of them are
/// reported. What cannot be written ends the download, with the step that failed.
pub proof fn what_is_written_is_reported(run: Run, config: ConfigView, i: int)
    requires
        run.of(config),
        knows_the_message(run),
        0 <= i,
        6 + 2 * i < run.events.len(),
    ensures
        i < wanted_parts(run, config).len(),
        match run.events[6 + 2 * i] {
            Event::FileWritten(Ok(())) => if i + 1 < wanted_parts(run, config).len() {
                run.actions[7 + 2 * i] == request_for(run, config, i + 1)
            } else {
                &&& run.events.len() == 7 + 2 * i
                &&& run.actions[7 + 2 * i] is Report
                &&& tells_all(run.actions[7 + 2 * i]->Report_0, run, config)
            },
            Event::FileWritten(Err(failure)) => fails_at(
                run,
                6 + 2 * i,
                ErrorView::Validation(
                    match failure.step {
                        WriteStep::Create => "Failed to create attachment file '"@,
                        WriteStep::Write => "Failed to write attachment file '"@,
                        WriteStep::Sync => "Failed to sync attachment file '"@,
                    } + crate::paths::path_text(place_of(run, config, i)) + "': "@ + failure.cause@,
                ),
            ),
            _ => false,
        },
{
    let at = 6 + 2 * i;
    let parts = wanted_parts(run, config);
    lemma_message(run, config);
    lemma_turn(run, config, at);
    assert(run.step_at(at));
    lemma_item(run, config, i);
    if at + 1 < run.events.len() {
        assert(run.step_at(at + 1));
    }
    crate::run::lemma_progress(run, config, 3, at);
    match run.events[at] {
        Event::FileWritten(Ok(())) => {
            if i + 1 < parts.len() {
                lemma_item(run, config, i + 1);
            } else {
                let report = run.actions[at + 1]->Report_0;
                crate::laws::selected_and_skipped_make_up_the_message(
                    run.events[2]->MessageFetched_0->Ok_0@,
                    config.include_inline,
                );
                assert forall|j: int| 0 <= j < parts.len() implies (
                #[trigger] report.attachments[j]) == told_of(run, config, j) by {
                    assert(crate::run::written(run, 3, j, report.attachments[j]));
                    lemma_item(run, config, j);
                }
            }
        },
        Event::FileWritten(Err(failure)) => {
            crate::promises::failures_to_write_are_told(
                crate::paths::path_text(place_of(run, config, i)),
                failure.cause@,
            );
        },
        _ => {},
    }
}

/// The paths that are asked about are those that are written later, each of them in its
/// turn: no file is written that was not asked about, and none in another place.
pub proof fn what_is_written_was_asked_about(run: Run, config: ConfigView, at: int)
    requires
        run.of(config),
        0 <= at < run.actions.len(),
        run.actions[at] is WriteFile,
    ensures
        at >= 6,
        at % 2 == 0,
        knows_the_message(run),
        run.actions[3] is ProbeTargets,
        (at - 6) / 2 < run.actions[3]->paths.len(),
        run.actions[at]->WriteFile_path == run.actions[3]->paths[(at - 6) / 2],
        run.events[3] matches Event::TargetsProbed(present) && present@.len()
            == run.actions[3]->paths.len() && (config.overwrite || forall|j: int|
            0 <= j < present@.len() ==> !#[trigger] present@[j]),
{
    assert(at > 0);
    assert(run.step_at(at - 1));
    crate::run::lemma_run(run, config, at - 1);
    a_download_begins_so(run, config);
    assert(at >= 3) by {
        if run.events.len() > 0 {
            assert(run.step_at(0));
        }
        if run.events.len() > 1 {
            assert(run.step_at(1));
        }
    }
    assert(run.step_at(2));
    lemma_message(run, config);
    every_place_is_asked_about(run, config);
    assert(at > 3);
    assert(run.step_at(3));
    assert(at > 4);
    assert(run.step_at(4));
    assert(at > 5);
    lemma_turn(run, config, at - 1);
    let i = (at - 6) / 2;
    what_is_fetched_is_written(run, config, i);
    let present = run.events[3]->TargetsProbed_0@;
    if !config.overwrite {
        crate::laws::targets_accepted_iff(
            config.output_dir,
            crate::plan::targets(run.states[3].pending),
            present,
            false,
        );
        assert forall|j: int| 0 <= j < present.len() implies !#[trigger] present[j] by {
            assert(crate::plan::acceptable_target(
                config.output_dir,
                crate::plan::targets(run.states[3].pending)[j],
                present[j],
                false,
            ));
        }
    }
}

} // verus!
