//! Whole downloads: what holds of every course that a download can take.

use std::path::PathBuf;

use vstd::prelude::*;

use crate::cli::ConfigView;
use crate::error::ErrorView;
use crate::parts::OriginalPart;
use crate::session::{ActionView, Event, RecordView, ReportView, SessionView, Stage};
use crate::validate::LookupView;

verus! {

/// A download from its start: what it knew, what it did, and how that went. The event
/// `i` answers the action `i`.
pub struct Run<'a> {
    pub states: Seq<SessionView<'a>>,
    pub actions: Seq<ActionView>,
    pub events: Seq<Event<'a>>,
}

impl<'a> Run<'a> {
    /// Whether this is a course that the download for `config` can take.
    pub open spec fn of(self, config: ConfigView) -> bool {
        &&& self.states.len() == self.events.len() + 1
        &&& self.actions.len() == self.events.len() + 1
        &&& crate::session::started(config, self.states[0], self.actions[0])
        &&& forall|i: int| 0 <= i < self.events.len() ==> #[trigger] self.step_at(i)
    }

    /// Whether the download goes on from state `i` as it does on the event `i`.
    pub open spec fn step_at(self, i: int) -> bool {
        &&& self.states[i].expects(self.events[i])
        &&& crate::session::goes_on(
            self.states[i],
            self.events[i],
            self.states[i + 1],
            self.actions[i + 1],
        )
    }
}

/// What every state of a download for `config` keeps.
pub open spec fn faithful(state: SessionView, config: ConfigView) -> bool {
    &&& state.wf()
    &&& state.message_id == config.message_id
    &&& state.output_dir == config.output_dir
    &&& state.include_inline == config.include_inline
    &&& state.overwrite == config.overwrite
    &&& config.dry_run ==> state.stage == Stage::Finished
}

/// Every file that is still to be written lies in the output directory.
pub open spec fn cleared(state: SessionView) -> bool {
    forall|i: int|
        0 <= i < state.pending.len() ==> crate::paths::lies_under(
            #[trigger] state.pending[i].path,
            state.output_dir,
        )
}

/// The stages in which files are written.
pub open spec fn writing_stage(stage: Stage) -> bool {
    stage == Stage::CreatingDirectory || stage == Stage::FetchingAttachment || stage
        == Stage::WritingFile
}

proof fn lemma_step(
    before: SessionView,
    event: Event,
    after: SessionView,
    action: ActionView,
    config: ConfigView,
)
    requires
        faithful(before, config),
        before.expects(event),
        crate::session::goes_on(before, event, after, action),
        writing_stage(before.stage) ==> cleared(before),
    ensures
        faithful(after, config),
        writing_stage(after.stage) ==> cleared(after),
{
    match event {
        Event::TargetsProbed(present) => {
            let paths = crate::plan::targets(before.pending);
            crate::laws::targets_accepted_iff(before.output_dir, paths, present@, before.overwrite);
            if writing_stage(after.stage) {
                assert forall|i: int| 0 <= i < after.pending.len() implies crate::paths::lies_under(
                    #[trigger] after.pending[i].path,
                    after.output_dir,
                ) by {
                    assert(crate::plan::acceptable_target(
                        before.output_dir,
                        paths[i],
                        present@[i],
                        before.overwrite,
                    ));
                }
            }
        },
        Event::AttachmentFetched(Ok(_)) => {
            assert forall|i: int| 0 <= i < after.pending.len() implies crate::paths::lies_under(
                #[trigger] after.pending[i].path,
                after.output_dir,
            ) by {
                assert(after.pending[i] == before.pending[i + 1]);
            }
        },
        _ => {},
    }
}

pub(crate) proof fn lemma_run(run: Run, config: ConfigView, i: int)
    requires
        run.of(config),
        0 <= i < run.states.len(),
    ensures
        faithful(run.states[i], config),
        writing_stage(run.states[i].stage) ==> cleared(run.states[i]),
    decreases i,
{
    if i > 0 {
        lemma_run(run, config, i - 1);
        assert(run.step_at(i - 1));
        lemma_step(run.states[i - 1], run.events[i - 1], run.states[i], run.actions[i], config);
    }
}

/// A download never changes what it was asked for, and is always ready for the answer
/// to its last action.
pub proof fn request_is_kept(run: Run, config: ConfigView, i: int)
    requires
        run.of(config),
        0 <= i < run.states.len(),
    ensures
        faithful(run.states[i], config),
{
    lemma_run(run, config, i);
}

/// A dry run does one thing: it reports that nothing was done. It never asks for an
/// access token.
pub proof fn dry_run_only_reports(run: Run, config: ConfigView)
    requires
        run.of(config),
        config.dry_run,
    ensures
        run.events.len() == 0,
        run.actions == seq![ActionView::Report(crate::session::dry_run_report(config))],
{
    if run.events.len() > 0 {
        assert(run.step_at(0));
        lemma_run(run, config, 0);
    }
    assert(run.actions =~= seq![ActionView::Report(crate::session::dry_run_report(config))]);
}

/// A file is written only inside the output directory, with exactly the content that was
/// fetched for it just before, and is replaced only if that was asked for.
pub proof fn writes_are_confined(run: Run, config: ConfigView, i: int)
    requires
        run.of(config),
        0 <= i < run.actions.len(),
        run.actions[i] is WriteFile,
    ensures
        crate::paths::lies_under(run.actions[i]->WriteFile_path, config.output_dir),
        run.actions[i]->overwrite == config.overwrite,
        i >= 2,
        run.events[i - 1] matches Event::AttachmentFetched(Ok(data)) && data@
            == run.actions[i]->data,
        run.actions[i - 1] is FetchAttachment,
{
    assert(i > 0);
    assert(run.step_at(i - 1));
    lemma_run(run, config, i - 1);
    let before = run.states[i - 1];
    assert(crate::paths::lies_under(before.pending[0].path, before.output_dir));
    lemma_fetching(run, config, i - 1);
}

/// A download waits for the content of an attachment only after it has asked for it.
proof fn lemma_fetching(run: Run, config: ConfigView, i: int)
    requires
        run.of(config),
        0 <= i < run.states.len(),
        run.states[i].stage == Stage::FetchingAttachment,
    ensures
        i >= 1,
        run.actions[i] == run.states[i].fetch_next(),
{
    if i > 0 {
        assert(run.step_at(i - 1));
    }
}

/// An outcome that a download cannot go on after: an action failed, or a target is not
/// acceptable.
pub open spec fn hopeless(state: SessionView, event: Event) -> bool {
    match event {
        Event::Authorized(outcome) => outcome is Err,
        Event::ClientBuilt(outcome) => outcome is Err,
        Event::MessageFetched(outcome) => outcome is Err,
        Event::TargetsProbed(present) => crate::plan::first_target_error(
            state.output_dir,
            crate::plan::targets(state.pending),
            present@,
            state.overwrite,
        ) is Some,
        Event::DirectoryCreated(outcome) => outcome is Err,
        Event::AttachmentFetched(outcome) => outcome is Err,
        Event::FileWritten(outcome) => outcome is Err,
    }
}

/// A download fails exactly when an action failed or a target is not acceptable, and
/// then nothing follows.
pub proof fn failures_end_the_download(run: Run, config: ConfigView, i: int)
    requires
        run.of(config),
        0 <= i < run.events.len(),
    ensures
        run.actions[i + 1] is Fail <==> hopeless(run.states[i], run.events[i]),
        run.actions[i + 1] is Fail ==> i + 1 == run.events.len(),
{
    assert(run.step_at(i));
    if i + 1 < run.events.len() {
        assert(run.step_at(i + 1));
    }
}

/// How many more answers a download takes at most, once its targets are known.
pub open spec fn answers_left(state: SessionView) -> nat {
    match state.stage {
        Stage::ProbingTargets => 2 + 2 * state.pending.len(),
        Stage::CreatingDirectory => 1 + 2 * state.pending.len(),
        Stage::FetchingAttachment => 2 * state.pending.len(),
        Stage::WritingFile => 1 + 2 * state.pending.len(),
        _ => 0,
    }
}

proof fn lemma_answers_left(run: Run, config: ConfigView, i: int)
    requires
        run.of(config),
        0 <= i < run.states.len(),
        run.states[i].stage == Stage::ProbingTargets || run.states[i].stage == Stage::Finished
            || writing_stage(run.states[i].stage),
    ensures
        run.events.len() - i <= answers_left(run.states[i]),
    decreases run.events.len() - i,
{
    if i < run.events.len() {
        assert(run.step_at(i));
        lemma_run(run, config, i);
        lemma_answers_left(run, config, i + 1);
    }
}

/// Every download comes to its end: once the message is known, it takes two more answers
/// and two for each chosen part, or fewer.
pub proof fn downloads_end(run: Run, config: ConfigView, k: int, parts: Seq<OriginalPart>)
    requires
        run.of(config),
        0 <= k < run.events.len(),
        run.events[k] matches Event::MessageFetched(Ok(fetched)) && fetched@ == parts,
    ensures
        run.events.len() <= k + 3 + 2 * crate::parts::selection(parts, config.include_inline).len(),
{
    assert(run.step_at(k));
    lemma_run(run, config, k);
    lemma_answers_left(run, config, k + 1);
}

/// Whether the run has begun with the item `i` of the plan that it has at the state
/// `start`: its content was asked for and fetched, `record` describes the item with the
/// size of that content, and the content goes to the place of the item.
pub open spec fn begun(run: Run, start: int, i: int, record: RecordView) -> bool {
    let item = run.states[start].pending[i];
    &&& run.actions[start + 2 + 2 * i] == ActionView::FetchAttachment {
        message_id: run.states[start].message_id,
        attachment_id: item.part.attachment_id@,
    }
    &&& run.events[start + 2 + 2 * i] matches Event::AttachmentFetched(Ok(data)) && {
        &&& record == crate::session::record_of(item, data@.len() as int)
        &&& run.actions[start + 3 + 2 * i] == ActionView::WriteFile {
            path: item.path,
            data: data@,
            overwrite: run.states[start].overwrite,
        }
    }
}

/// Whether the run has written the item `i` of that plan.
pub open spec fn written(run: Run, start: int, i: int, record: RecordView) -> bool {
    &&& begun(run, start, i, record)
    &&& run.events[start + 3 + 2 * i] matches Event::FileWritten(Ok(()))
}

/// How far a run has come, at the state `at`, with the plan that it has at the state
/// `start`: what is written, what is being written and what is left make up the plan, in
/// its order.
pub open spec fn working_off(run: Run, start: int, at: int) -> bool {
    let plan = run.states[start].pending;
    let state = run.states[at];
    let done = state.downloaded.len() as int;
    &&& state.skipped_inline_count == run.states[start].skipped_inline_count
    &&& forall|i: int| 0 <= i < done ==> written(run, start, i, #[trigger] state.downloaded[i])
    &&& match state.stage {
        Stage::ProbingTargets => at == start && done == 0 && state.pending == plan,
        Stage::CreatingDirectory => at == start + 1 && done == 0 && state.pending == plan,
        Stage::FetchingAttachment => {
            &&& at == start + 2 + 2 * done
            &&& done < plan.len()
            &&& state.pending == plan.skip(done)
            &&& run.actions[at] == state.fetch_next()
        },
        Stage::WritingFile => {
            &&& at == start + 3 + 2 * done
            &&& done < plan.len()
            &&& state.pending == plan.skip(done + 1)
            &&& begun(run, start, done, state.writing->0)
        },
        _ => false,
    }
}

/// Whether `report` tells of the whole plan, and the run has written all of it.
pub open spec fn covers(report: ReportView, run: Run, start: int) -> bool {
    let plan = run.states[start].pending;
    &&& report.downloaded_count == plan.len()
    &&& report.attachments.len() == plan.len()
    &&& forall|i: int|
        0 <= i < plan.len() ==> written(run, start, i, #[trigger] report.attachments[i])
}

pub(crate) proof fn lemma_progress(run: Run, config: ConfigView, start: int, at: int)
    requires
        run.of(config),
        0 <= start <= at < run.events.len(),
        working_off(run, start, at),
    ensures
        match run.actions[at + 1] {
            ActionView::Report(report) => {
                &&& run.states[at + 1].stage == Stage::Finished
                &&& at + 1 == start + 2 + 2 * run.states[start].pending.len()
                &&& covers(report, run, start)
                &&& report.skipped_inline_count == run.states[start].skipped_inline_count
                &&& !report.dry_run
            },
            ActionView::Fail(_) => run.states[at + 1].stage == Stage::Finished,
            _ => working_off(run, start, at + 1),
        },
{
    let plan = run.states[start].pending;
    let before = run.states[at];
    let after = run.states[at + 1];
    let done = before.downloaded.len() as int;
    assert(run.step_at(at));
    lemma_run(run, config, start);
    lemma_run(run, config, at);
    match run.events[at] {
        Event::DirectoryCreated(Ok(())) => {
            assert(plan.skip(0) =~= plan);
        },
        Event::AttachmentFetched(Ok(data)) => {
            assert(before.pending[0] == plan[done]);
            assert(before.pending.drop_first() =~= plan.skip(done + 1));
            assert(begun(run, start, done, after.writing->0));
        },
        Event::FileWritten(Ok(())) => {
            let downloaded = before.downloaded.push(before.writing->0);
            assert forall|i: int| 0 <= i < done + 1 implies written(
                run,
                start,
                i,
                #[trigger] downloaded[i],
            ) by {
                if i < done {
                    assert(downloaded[i] == before.downloaded[i]);
                }
            }
        },
        _ => {},
    }
}

/// From the moment its targets are known, a download works off their plan.
pub(crate) proof fn lemma_working_off(run: Run, config: ConfigView, start: int, at: int)
    requires
        run.of(config),
        0 <= start <= at < run.states.len(),
        run.states[start].stage == Stage::ProbingTargets,
    ensures
        run.states[at].stage == Stage::Finished || working_off(run, start, at),
        run.states[at].stage == Stage::Finished ==> at == run.events.len(),
    decreases at - start,
{
    if at == start {
        lemma_run(run, config, start);
    } else {
        lemma_working_off(run, config, start, at - 1);
        assert(run.step_at(at - 1));
        lemma_progress(run, config, start, at - 1);
    }
    if run.states[at].stage == Stage::Finished && at < run.events.len() {
        assert(run.step_at(at));
    }
}

proof fn lemma_message_known(run: Run, config: ConfigView, i: int)
    requires
        run.of(config),
        0 <= i < run.states.len(),
        run.states[i].stage == Stage::ProbingTargets || writing_stage(run.states[i].stage),
    ensures
        exists|k: int|
            0 <= k < i && (#[trigger] run.events[k]) matches Event::MessageFetched(Ok(_)),
    decreases i,
{
    assert(i > 0);
    assert(run.step_at(i - 1));
    if !(run.events[i - 1] matches Event::MessageFetched(Ok(_))) {
        lemma_message_known(run, config, i - 1);
    }
}

/// Nothing is written before the message is known.
pub proof fn nothing_is_written_without_a_message(run: Run, config: ConfigView, at: int)
    requires
        run.of(config),
        0 <= at < run.actions.len(),
        run.actions[at] is WriteFile,
    ensures
        exists|k: int|
            0 <= k < at && (#[trigger] run.events[k]) matches Event::MessageFetched(Ok(_)),
{
    assert(at > 0);
    assert(run.step_at(at - 1));
    lemma_message_known(run, config, at - 1);
}

/// Once the message is known, only planned files are written: each in its turn.
pub proof fn only_planned_files_are_written(run: Run, config: ConfigView, k: int, at: int)
    requires
        run.of(config),
        0 <= k < run.events.len(),
        run.events[k] matches Event::MessageFetched(Ok(_)),
        0 <= at < run.actions.len(),
        run.actions[at] is WriteFile,
    ensures
        exists|i: int|
            {
                &&& 0 <= i < run.states[k + 1].pending.len()
                &&& at == k + 4 + 2 * i
                &&& run.actions[at]->WriteFile_path == (
                #[trigger] run.states[k + 1].pending[i]).path
            },
{
    assert(run.step_at(k));
    lemma_run(run, config, k);
    assert(at > 0);
    assert(run.step_at(at - 1));
    lemma_run(run, config, at - 1);
    if at <= k + 1 {
        lemma_early(run, config, k, at - 1);
    }
    if run.states[k + 1].stage == Stage::Finished {
        if k + 1 < run.events.len() {
            assert(run.step_at(k + 1));
        }
    }
    lemma_working_off(run, config, k + 1, at - 1);
    let i = run.states[at - 1].downloaded.len() as int;
    assert(run.states[at - 1].pending[0] == run.states[k + 1].pending[i]);
}

/// Until the message is known, no attachment has been asked for.
proof fn lemma_early(run: Run, config: ConfigView, k: int, i: int)
    requires
        run.of(config),
        0 <= k < run.events.len(),
        run.states[k].stage == Stage::FetchingMessage,
        0 <= i <= k,
    ensures
        run.states[i].stage == Stage::Authorizing || run.states[i].stage == Stage::BuildingClient
            || run.states[i].stage == Stage::FetchingMessage,
    decreases k - i,
{
    if i < k {
        lemma_early(run, config, k, i + 1);
        assert(run.step_at(i));
    }
}

/// Every write comes after the targets have been looked for.
pub proof fn nothing_is_written_without_looking(run: Run, config: ConfigView, at: int)
    requires
        run.of(config),
        0 <= at < run.actions.len(),
        run.actions[at] is WriteFile,
    ensures
        exists|k: int| 0 <= k < at && (#[trigger] run.events[k]) matches Event::TargetsProbed(_),
{
    nothing_is_written_without_a_message(run, config, at);
    let k = choose|k: int|
        0 <= k < at && (#[trigger] run.events[k]) matches Event::MessageFetched(Ok(_));
    only_planned_files_are_written(run, config, k, at);
    assert(run.step_at(k));
    assert(run.step_at(k + 1));
    assert(run.events[k + 1] matches Event::TargetsProbed(_));
}

/// Whether the file `i` of the plan was looked for at the event `k`, was not there, and
/// has its place at `path`.
pub open spec fn looked_for_in_vain(run: Run, k: int, i: int, path: PathBuf) -> bool {
    &&& run.events[k] matches Event::TargetsProbed(present) && 0 <= i < present@.len()
        && !present@[i]
    &&& path == run.states[k].pending[i].path
}

proof fn lemma_not_replaced(run: Run, config: ConfigView, k: int, at: int)
    requires
        run.of(config),
        !config.overwrite,
        0 <= k < at < run.actions.len(),
        run.events[k] matches Event::TargetsProbed(_),
        run.actions[at] is WriteFile,
    ensures
        exists|i: int|
            #[trigger] looked_for_in_vain(run, k, i, run.actions[at]->WriteFile_path),
{
    let plan = run.states[k].pending;
    let present = run.events[k]->TargetsProbed_0@;
    lemma_run(run, config, k);
    assert(run.step_at(k));
    assert(at > k + 1);
    lemma_working_off(run, config, k, at - 1);
    assert(run.step_at(at - 1));
    lemma_run(run, config, at - 1);
    assert(run.step_at(k + 1));
    let i = run.states[at - 1].downloaded.len() as int;
    assert(run.states[at - 1].pending[0] == plan[i]);
    let paths = crate::plan::targets(plan);
    crate::laws::targets_accepted_iff(config.output_dir, paths, present, false);
    assert(crate::plan::acceptable_target(config.output_dir, paths[i], present[i], false));
    assert(looked_for_in_vain(run, k, i, run.actions[at]->WriteFile_path));
}

/// Unless files are to be overwritten, what is written is the place of a planned file
/// that was looked for before, and that was not there then.
pub proof fn existing_files_are_not_replaced(run: Run, config: ConfigView, at: int)
    requires
        run.of(config),
        !config.overwrite,
        0 <= at < run.actions.len(),
        run.actions[at] is WriteFile,
    ensures
        exists|k: int| 0 <= k < at && (#[trigger] run.events[k]) matches Event::TargetsProbed(_),
        forall|k: int|
            0 <= k < at && ((#[trigger] run.events[k]) matches Event::TargetsProbed(_))
                ==> exists|i: int|
                #[trigger] looked_for_in_vain(run, k, i, run.actions[at]->WriteFile_path),
{
    nothing_is_written_without_looking(run, config, at);
    assert forall|k: int|
        0 <= k < at && ((#[trigger] run.events[k]) matches Event::TargetsProbed(_)) implies exists|
        i: int,
    |
        #[trigger] looked_for_in_vain(run, k, i, run.actions[at]->WriteFile_path) by {
        lemma_not_replaced(run, config, k, at);
    }
}

/// Except in a dry run, nothing is reported before the message is known.
pub proof fn nothing_is_reported_without_a_message(run: Run, config: ConfigView, at: int)
    requires
        run.of(config),
        !config.dry_run,
        0 <= at < run.actions.len(),
        run.actions[at] is Report,
    ensures
        exists|k: int|
            0 <= k < at && (#[trigger] run.events[k]) matches Event::MessageFetched(Ok(_)),
{
    assert(at > 0);
    assert(run.step_at(at - 1));
    if !(run.events[at - 1] matches Event::MessageFetched(Ok(_))) {
        lemma_message_known(run, config, at - 1);
    }
}

/// A report at the end of a download that looked at the message tells of every chosen
/// part, in the order of the message, with the place it was written to and the size of
/// what was fetched for it; as many inline parts were skipped as it says; and nothing else
/// was done.
pub proof fn report_covers_the_message(
    run: Run,
    config: ConfigView,
    k: int,
    parts: Seq<OriginalPart>,
)
    requires
        run.of(config),
        0 <= k < run.events.len(),
        run.events[k] matches Event::MessageFetched(Ok(fetched)) && fetched@ == parts,
        run.actions.last() is Report,
    ensures
        ({
            let report = run.actions.last()->Report_0;
            let plan = run.states[k + 1].pending;
            &&& crate::plan::is_plan(
                plan,
                crate::parts::selection(parts, config.include_inline),
                config.output_dir,
            )
            &&& covers(report, run, k + 1)
            &&& run.events.len() == if plan.len() == 0 {
                k + 1
            } else {
                k + 3 + 2 * plan.len()
            }
            &&& forall|i: int|
                0 <= i < report.attachments.len() ==> (#[trigger] report.attachments[i]).path
                    == crate::paths::path_text(
                    crate::paths::joined(config.output_dir, report.attachments[i].filename),
                )
            &&& report.message_id == config.message_id
            &&& report.output_dir == crate::paths::path_text(config.output_dir)
            &&& report.skipped_inline_count == crate::parts::skipped_inline(
                parts,
                config.include_inline,
            )
            &&& !report.dry_run
        }),
{
    let last = run.actions.len() - 1;
    let chosen = crate::parts::selection(parts, config.include_inline);
    let plan = run.states[k + 1].pending;
    let report = run.actions.last()->Report_0;
    lemma_run(run, config, k);
    assert(run.step_at(k));
    lemma_run(run, config, k + 1);
    if run.states[k + 1].stage == Stage::Finished {
        if k + 1 < run.events.len() {
            assert(run.step_at(k + 1));
        }
    } else {
        assert(last > k + 1);
        lemma_working_off(run, config, k + 1, last - 1);
        lemma_run(run, config, last - 1);
        assert(run.step_at(last - 1));
        lemma_progress(run, config, k + 1, last - 1);
    }
    assert forall|i: int| 0 <= i < report.attachments.len() implies (
    #[trigger] report.attachments[i]).path == crate::paths::path_text(
        crate::paths::joined(config.output_dir, report.attachments[i].filename),
    ) by {
        assert(written(run, k + 1, i, report.attachments[i]));
        assert(crate::plan::planned_for(
            plan[i],
            chosen[i],
            config.output_dir,
            crate::plan::planned_names(chosen)[i],
        ));
    }
}

/// The files that a report names have different, safe names.
pub proof fn reported_names_are_distinct_and_safe(
    run: Run,
    config: ConfigView,
    k: int,
    parts: Seq<OriginalPart>,
    i: int,
    j: int,
)
    requires
        run.of(config),
        0 <= k < run.events.len(),
        run.events[k] matches Event::MessageFetched(Ok(fetched)) && fetched@ == parts,
        run.actions.last() is Report,
        0 <= i < (run.actions.last()->Report_0).attachments.len(),
        0 <= j < (run.actions.last()->Report_0).attachments.len(),
        i != j,
    ensures
        ({
            let attachments = (run.actions.last()->Report_0).attachments;
            &&& crate::laws::safe_name(attachments[i].filename)
            &&& attachments[i].filename != attachments[j].filename
        }),
{
    let attachments = (run.actions.last()->Report_0).attachments;
    let chosen = crate::parts::selection(parts, config.include_inline);
    let names = crate::plan::planned_names(chosen);
    let plan = run.states[k + 1].pending;
    report_covers_the_message(run, config, k, parts);
    crate::laws::planned_names_are_distinct_and_safe(chosen);
    assert(written(run, k + 1, i, attachments[i]));
    assert(written(run, k + 1, j, attachments[j]));
    assert(crate::plan::planned_for(plan[i], chosen[i], config.output_dir, names[i]));
    assert(crate::plan::planned_for(plan[j], chosen[j], config.output_dir, names[j]));
    assert(crate::laws::safe_name(names[i]));
}

/// A download that was asked for on the command line writes only below the current
/// directory, and only into a directory that was named by a relative path.
pub proof fn writes_stay_in_the_workspace(
    run: Run,
    config: ConfigView,
    matches: clap::ArgMatches,
    lookup: LookupView,
    at: int,
)
    requires
        crate::cli::requested(matches, lookup) == Some(Ok::<ConfigView, ErrorView>(config)),
        run.of(config),
        0 <= at < run.actions.len(),
        run.actions[at] is WriteFile,
    ensures
        !lookup.absolute,
        crate::paths::lies_under(run.actions[at]->WriteFile_path, (lookup.places->Ok_0).0),
{
    writes_are_confined(run, config, at);
    crate::laws::lying_under_is_transitive(
        run.actions[at]->WriteFile_path,
        config.output_dir,
        (lookup.places->Ok_0).0,
    );
}

} // verus!
