//! The files on disk: what writing does to them, and what a download leaves of them.
//!
//! The library touches no file. [`written`] says what opening a file in an [`OpenMode`]
//! and writing to it does, as `std::fs::OpenOptions` documents it; the laws here say what
//! follows for downloads whose actions are carried out in that way, while nobody else
//! touches the files.

use std::path::PathBuf;

use vstd::prelude::*;

use crate::cli::ConfigView;
use crate::run::Run;
use crate::session::{ActionView, Event};
use crate::write::{OpenMode, WriteFailure, WriteStep};

verus! {

/// The files on disk. Several paths may lead to one file.
pub struct Disk {
    /// The file that a path leads to, for every path that leads to one.
    pub places: Map<PathBuf, int>,
    /// What each file holds.
    pub contents: Map<int, Seq<u8>>,
}

impl Disk {
    /// Whether `path` leads to a file.
    pub open spec fn present(self, path: PathBuf) -> bool {
        self.places.contains_key(path)
    }

    /// Whether `path` leads to `file`.
    pub open spec fn leads_to(self, path: PathBuf, file: int) -> bool {
        self.present(path) && self.places[path] == file
    }

    /// Whether `path` leads to a file that holds `data`.
    pub open spec fn holds(self, path: PathBuf, data: Seq<u8>) -> bool {
        self.present(path) && self.contents.contains_pair(self.places[path], data)
    }
}

/// Every path that led to a file leads to the same file.
pub open spec fn places_kept(before: Disk, after: Disk) -> bool {
    forall|path: PathBuf|
        before.places.contains_key(path) ==> #[trigger] after.places.contains_key(path)
            && after.places[path] == before.places[path]
}

/// Every file is still there and holds what it held, except perhaps `file`.
pub open spec fn kept_except(before: Disk, after: Disk, file: int) -> bool {
    forall|other: int|
        before.contents.contains_key(other) && other != file
            ==> #[trigger] after.contents.contains_key(other) && after.contents[other]
            == before.contents[other]
}

/// Every file is still there and holds what it held.
pub open spec fn kept(before: Disk, after: Disk) -> bool {
    &&& places_kept(before, after)
    &&& forall|file: int|
        before.contents.contains_key(file) ==> #[trigger] after.contents.contains_key(file)
            && after.contents[file] == before.contents[file]
}

/// Whether a file at `path` cannot be opened in `mode`: it has to be new and there is one,
/// or it has to be there and there is none.
pub open spec fn refused(disk: Disk, path: PathBuf, mode: OpenMode) -> bool {
    if mode.create_new {
        disk.present(path)
    } else {
        !mode.create && !disk.present(path)
    }
}

/// What becomes of the files when a file at `path` is opened in `mode` and `data` is
/// written to it, with the given outcome. If it was not opened, all files are as they
/// were. If it was, only the file there is touched, a new one if there was none; and if
/// all went well, it holds `data`, provided that it was empty after opening.
pub open spec fn written(
    before: Disk,
    path: PathBuf,
    mode: OpenMode,
    data: Seq<u8>,
    outcome: Result<(), WriteFailure>,
    after: Disk,
) -> bool {
    if outcome is Err && (outcome->Err_0).step == WriteStep::Create {
        kept(before, after)
    } else {
        let file = after.places[path];
        &&& !refused(before, path, mode)
        &&& after.present(path)
        &&& !before.present(path) ==> !before.contents.contains_key(file)
        &&& places_kept(before, after)
        &&& kept_except(before, after, file)
        &&& outcome is Ok && (mode.truncate || !before.present(path)) ==> after.holds(path, data)
    }
}

/// Whether the outcome of writing owes nothing to a failure of the disk: only a file that
/// cannot be opened in `mode` is an error.
pub open spec fn nothing_broke(
    before: Disk,
    path: PathBuf,
    mode: OpenMode,
    outcome: Result<(), WriteFailure>,
) -> bool {
    outcome matches Err(failure) ==> failure.step == WriteStep::Create && refused(
        before,
        path,
        mode,
    )
}

/// What is written to a file can be read from it.
pub proof fn a_written_file_holds_the_data(
    before: Disk,
    path: PathBuf,
    data: Seq<u8>,
    overwrite: bool,
    outcome: Result<(), WriteFailure>,
    after: Disk,
)
    requires
        written(before, path, crate::write::mode_for(overwrite), data, outcome, after),
        outcome is Ok,
    ensures
        after.holds(path, data),
{
}

/// Once a file has been written, writing to it again replaces what it holds if it is to
/// be overwritten; else it is an error, and the file holds what it held.
pub proof fn writing_a_file_again(
    before: Disk,
    path: PathBuf,
    first: Seq<u8>,
    first_overwrite: bool,
    first_outcome: Result<(), WriteFailure>,
    between: Disk,
    second: Seq<u8>,
    overwrite: bool,
    outcome: Result<(), WriteFailure>,
    after: Disk,
)
    requires
        written(
            before,
            path,
            crate::write::mode_for(first_overwrite),
            first,
            first_outcome,
            between,
        ),
        first_outcome is Ok,
        written(between, path, crate::write::mode_for(overwrite), second, outcome, after),
        nothing_broke(between, path, crate::write::mode_for(overwrite), outcome),
    ensures
        overwrite ==> outcome is Ok && after.holds(path, second),
        !overwrite ==> outcome is Err && after.holds(path, first),
{
    a_written_file_holds_the_data(
        before,
        path,
        first,
        first_overwrite,
        first_outcome,
        between,
    );
}

/// Without leave to overwrite, writing leaves every file as it was, however it goes.
pub proof fn writing_keeps_files_unless_told(
    before: Disk,
    path: PathBuf,
    data: Seq<u8>,
    outcome: Result<(), WriteFailure>,
    after: Disk,
)
    requires
        written(before, path, crate::write::mode_for(false), data, outcome, after),
    ensures
        kept(before, after),
{
}

/// Whether `disks` are the files before each action of the run, and after the last that
/// was answered: files are touched only by writing them, in the mode for their action.
pub open spec fn plays_out(run: Run, disks: Seq<Disk>) -> bool {
    &&& disks.len() == run.events.len() + 1
    &&& forall|i: int|
        0 <= i < run.events.len() ==> #[trigger] carried_out(
            run.actions[i],
            run.events[i],
            disks[i],
            disks[i + 1],
        )
}

/// Whether carrying out `action`, with the outcome `event`, makes `after` of the files
/// `before`.
pub open spec fn carried_out(action: ActionView, event: Event, before: Disk, after: Disk) -> bool {
    match (action, event) {
        (ActionView::WriteFile { path, data, overwrite }, Event::FileWritten(outcome)) => written(
            before,
            path,
            crate::write::mode_for(overwrite),
            data,
            outcome,
            after,
        ),
        _ => kept(before, after),
    }
}

/// Whether no file that is to be overwritten between the actions `from` and `to` is
/// `file`.
pub open spec fn spared(run: Run, disks: Seq<Disk>, file: int, from: int, to: int) -> bool {
    forall|i: int|
        from <= i < to && (#[trigger] run.actions[i]) is WriteFile && run.actions[i]->overwrite
            ==> !disks[i].leads_to(run.actions[i]->WriteFile_path, file)
}

proof fn lemma_spared(run: Run, disks: Seq<Disk>, file: int, from: int, to: int)
    requires
        plays_out(run, disks),
        0 <= from <= to <= run.events.len(),
        disks[from].contents.contains_key(file),
        spared(run, disks, file, from, to),
    ensures
        disks[to].contents.contains_pair(file, disks[from].contents[file]),
    decreases to - from,
{
    if from < to {
        let i = to - 1;
        lemma_spared(run, disks, file, from, i);
        assert(carried_out(run.actions[i], run.events[i], disks[i], disks[i + 1]));
        assert(disks[i + 1].contents.contains_key(file));
    }
}

proof fn lemma_places_kept(run: Run, disks: Seq<Disk>, from: int, to: int, path: PathBuf)
    requires
        plays_out(run, disks),
        0 <= from <= to <= run.events.len(),
        disks[from].present(path),
    ensures
        disks[to].present(path),
        disks[to].places[path] == disks[from].places[path],
    decreases to - from,
{
    if from < to {
        let i = to - 1;
        lemma_places_kept(run, disks, from, i, path);
        assert(carried_out(run.actions[i], run.events[i], disks[i], disks[i + 1]));
        assert(disks[i + 1].places.contains_key(path));
    }
}

/// Unless files are to be overwritten, every file that was there before a download holds
/// the same after it, and at every moment in between, however the download goes.
pub proof fn existing_files_keep_their_contents(
    run: Run,
    config: ConfigView,
    disks: Seq<Disk>,
    file: int,
    at: int,
)
    requires
        run.of(config),
        !config.overwrite,
        plays_out(run, disks),
        disks[0].contents.contains_key(file),
        0 <= at < disks.len(),
    ensures
        disks[at].contents.contains_pair(file, disks[0].contents[file]),
{
    assert(spared(run, disks, file, 0, at)) by {
        lemma_nothing_overwritten(run, config, disks, file, 0, at);
    }
    lemma_spared(run, disks, file, 0, at);
}

proof fn lemma_nothing_overwritten(
    run: Run,
    config: ConfigView,
    disks: Seq<Disk>,
    file: int,
    from: int,
    to: int,
)
    requires
        run.of(config),
        !config.overwrite,
        0 <= from <= to <= run.events.len(),
    ensures
        spared(run, disks, file, from, to),
{
    assert forall|i: int|
        from <= i < to && (#[trigger] run.actions[i]) is WriteFile
            && run.actions[i]->overwrite implies !disks[i].leads_to(
        run.actions[i]->WriteFile_path,
        file,
    ) by {
        crate::run::writes_are_confined(run, config, i);
    }
}

/// A file that no written path leads to holds the same after a download as before it,
/// also where files are overwritten.
pub proof fn other_files_keep_their_contents(
    run: Run,
    config: ConfigView,
    disks: Seq<Disk>,
    file: int,
)
    requires
        run.of(config),
        plays_out(run, disks),
        disks[0].contents.contains_key(file),
        forall|i: int|
            0 <= i < run.events.len() && (#[trigger] run.actions[i]) is WriteFile
                ==> !disks[i].leads_to(run.actions[i]->WriteFile_path, file),
    ensures
        disks.last().contents.contains_pair(file, disks[0].contents[file]),
{
    lemma_spared(run, disks, file, 0, run.events.len() as int);
}

/// When a download reports, each file that it reports holds exactly what was fetched for
/// it. Where files are overwritten, this takes that no two of the paths lead to one file,
/// as links on the disk could make them.
pub proof fn reported_files_hold_what_was_fetched(
    run: Run,
    config: ConfigView,
    disks: Seq<Disk>,
    k: int,
    i: int,
)
    requires
        run.of(config),
        plays_out(run, disks),
        0 <= k < run.events.len(),
        run.events[k] matches Event::MessageFetched(Ok(_)),
        run.actions.last() is Report,
        0 <= i < (run.actions.last()->Report_0).attachments.len(),
        config.overwrite ==> forall|j: int|
            0 <= j < run.states[k + 1].pending.len() && j != i ==> disks.last().places[(
            #[trigger] run.states[k + 1].pending[j]).path]
                != disks.last().places[run.states[k + 1].pending[i].path],
    ensures
        ({
            let attachment = (run.actions.last()->Report_0).attachments[i];
            let path = crate::paths::joined(config.output_dir, attachment.filename);
            &&& attachment.path == crate::paths::path_text(path)
            &&& run.actions[k + 3 + 2 * i] == ActionView::FetchAttachment {
                message_id: config.message_id,
                attachment_id: attachment.attachment_id,
            }
            &&& run.events[k + 3 + 2 * i] matches Event::AttachmentFetched(Ok(data))
                && disks.last().holds(path, data@) && attachment.size_bytes == data@.len()
        }),
{
    let parts = run.events[k]->MessageFetched_0->Ok_0@;
    let chosen = crate::parts::selection(parts, config.include_inline);
    let attachment = (run.actions.last()->Report_0).attachments[i];
    let plan = run.states[k + 1].pending;
    let last = run.events.len() as int;
    let at = k + 4 + 2 * i;
    crate::run::report_covers_the_message(run, config, k, parts);
    assert(crate::run::written(run, k + 1, i, attachment));
    assert(crate::plan::planned_for(
        plan[i],
        chosen[i],
        config.output_dir,
        crate::plan::planned_names(chosen)[i],
    ));
    crate::run::request_is_kept(run, config, k + 1);
    let path = plan[i].path;
    assert(at < last);
    assert(carried_out(run.actions[at], run.events[at], disks[at], disks[at + 1]));
    let file = disks[at + 1].places[path];
    lemma_places_kept(run, disks, at + 1, last, path);
    assert(spared(run, disks, file, at + 1, last)) by {
        if !config.overwrite {
            lemma_nothing_overwritten(run, config, disks, file, at + 1, last);
        } else {
            assert forall|s: int|
                at + 1 <= s < last && (#[trigger] run.actions[s]) is WriteFile
                    && run.actions[s]->overwrite implies !disks[s].leads_to(
                run.actions[s]->WriteFile_path,
                file,
            ) by {
                crate::run::only_planned_files_are_written(run, config, k, s);
                let target = run.actions[s]->WriteFile_path;
                if disks[s].present(target) {
                    lemma_places_kept(run, disks, s, last, target);
                }
            }
        }
    }
    lemma_spared(run, disks, file, at + 1, last);
}

/// Whether every answer on which files exist is true of the files at that moment.
pub open spec fn told_truly(run: Run, disks: Seq<Disk>) -> bool {
    forall|i: int, j: int|
        0 <= i < run.events.len() && run.actions[i] is ProbeTargets && run.events[i]
            is TargetsProbed && 0 <= j < run.actions[i]->paths.len() ==> (
        #[trigger] run.events[i]->TargetsProbed_0@[j]) == disks[i].present(
            run.actions[i]->paths[j],
        )
}

proof fn lemma_first_objection(run: Run, config: ConfigView, from: int, found: int) -> (n: int)
    requires
        0 <= from <= found,
        crate::course::objectionable(run, config, found),
        forall|i: int| 0 <= i < from ==> !#[trigger] crate::course::objectionable(run, config, i),
    ensures
        0 <= n <= found,
        crate::course::objectionable(run, config, n),
        forall|i: int| 0 <= i < n ==> !#[trigger] crate::course::objectionable(run, config, i),
    decreases found - from,
{
    if crate::course::objectionable(run, config, from) {
        from
    } else {
        lemma_first_objection(run, config, from + 1, found)
    }
}

/// Unless files are to be overwritten, a file in the place of any wanted part stops a
/// download before it creates, fetches or writes anything: all files are as they were.
pub proof fn a_file_in_the_way_stops_the_download(
    run: Run,
    config: ConfigView,
    disks: Seq<Disk>,
    i: int,
    at: int,
)
    requires
        run.of(config),
        !config.overwrite,
        plays_out(run, disks),
        told_truly(run, disks),
        crate::course::knows_the_message(run),
        run.events.len() > 3,
        0 <= i < crate::course::wanted_parts(run, config).len(),
        disks[3].present(crate::course::place_of(run, config, i)),
        0 <= at < run.actions.len(),
    ensures
        run.events.len() == 4,
        run.actions[4] is Fail,
        !(run.actions[at] is CreateDirectory),
        !(run.actions[at] is FetchAttachment),
        !(run.actions[at] is WriteFile),
        kept(disks[0], disks[4]),
{
    crate::run::request_is_kept(run, config, 0);
    assert(!config.dry_run) by {
        if config.dry_run {
            crate::course::a_dry_run_is_one_report(run, config);
        }
    }
    crate::course::a_download_begins_so(run, config);
    crate::course::every_place_is_asked_about(run, config);
    crate::course::every_answer_is_taken(run, config, 3, run.events[3]);
    assert(run.step_at(3));
    assert(run.actions[3]->paths[i] == crate::course::place_of(run, config, i));
    assert(run.events[3]->TargetsProbed_0@[i]);
    assert(crate::course::objectionable(run, config, i));
    let n = lemma_first_objection(run, config, 0, i);
    crate::course::the_answer_decides(run, config, n);
    lemma_carried_out(run, disks, 0);
    lemma_carried_out(run, disks, 1);
    lemma_carried_out(run, disks, 2);
    lemma_carried_out(run, disks, 3);
    lemma_kept_is_transitive(disks[0], disks[1], disks[2]);
    lemma_kept_is_transitive(disks[0], disks[2], disks[3]);
    lemma_kept_is_transitive(disks[0], disks[3], disks[4]);
}

proof fn lemma_carried_out(run: Run, disks: Seq<Disk>, i: int)
    requires
        plays_out(run, disks),
        0 <= i < run.events.len(),
    ensures
        carried_out(run.actions[i], run.events[i], disks[i], disks[i + 1]),
{
}

proof fn lemma_kept_is_transitive(first: Disk, second: Disk, third: Disk)
    requires
        kept(first, second),
        kept(second, third),
    ensures
        kept(first, third),
{
    assert forall|path: PathBuf| first.places.contains_key(path) implies (
    #[trigger] third.places.contains_key(path)) && third.places[path] == first.places[path] by {
        assert(second.places.contains_key(path));
        assert(third.places.contains_key(path));
    }
    assert forall|file: int| first.contents.contains_key(file) implies (
    #[trigger] third.contents.contains_key(file)) && third.contents[file]
        == first.contents[file] by {
        assert(second.contents.contains_key(file));
        assert(third.contents.contains_key(file));
    }
}

/// Where nothing breaks, a file that is not there is written, whether or not files are to
/// be overwritten.
pub proof fn a_new_file_is_written(
    before: Disk,
    path: PathBuf,
    data: Seq<u8>,
    overwrite: bool,
    outcome: Result<(), WriteFailure>,
    after: Disk,
)
    requires
        !before.present(path),
        written(before, path, crate::write::mode_for(overwrite), data, outcome, after),
        nothing_broke(before, path, crate::write::mode_for(overwrite), outcome),
    ensures
        outcome is Ok,
        after.holds(path, data),
{
}

} // verus!
