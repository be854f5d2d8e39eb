//! What holds of the library as a whole.

use std::path::PathBuf;

use vstd::prelude::*;

use crate::error::ErrorView;
use crate::parts::OriginalPart;
use crate::plan::PlannedAttachment;
use crate::validate::LookupView;

verus! {

/// A name that is one component of a path, whatever the path: it is not empty, it does
/// not stand for a directory, and it holds no invalid character.
pub open spec fn safe_name(name: Seq<char>) -> bool {
    &&& !crate::filename::unusable_name(name)
    &&& forall|i: int|
        0 <= i < name.len() ==> !crate::filename::invalid_filename_char(#[trigger] name[i])
}

/// A name with neither white space nor a dot at its ends.
pub open spec fn plain_ends(name: Seq<char>) -> bool {
    &&& name.len() > 0
    &&& !crate::text::white_space(name.first()) && name.first() != '.'
    &&& !crate::text::white_space(name.last()) && name.last() != '.'
}

proof fn lemma_cleaned_name(source: Seq<char>)
    ensures
        forall|i: int|
            0 <= i < crate::filename::cleaned_name(source).len()
                ==> !crate::filename::invalid_filename_char(
                #[trigger] crate::filename::cleaned_name(source)[i],
            ),
{
    let cleaned = crate::filename::cleaned(source);
    let dots = |c: char| crate::filename::dot_or_space(c);
    let white = |c: char| crate::text::white_space(c);
    let inner = crate::text::trimmed(cleaned, dots);
    let (a, b) = crate::text::trimmed_is_a_stretch(cleaned, dots);
    let (c, d) = crate::text::trimmed_is_a_stretch(inner, white);
    let kept = crate::filename::cleaned_name(source);
    assert forall|i: int| 0 <= i < kept.len() implies !crate::filename::invalid_filename_char(
        #[trigger] kept[i],
    ) by {
        assert(kept[i] == cleaned[a + c + i]);
    }
}

/// A file name made from any text is safe, as long as the fallback is.
pub proof fn sanitized_is_safe(raw: Seq<char>, fallback: Seq<char>)
    requires
        safe_name(fallback),
    ensures
        safe_name(crate::filename::sanitized(raw, fallback)),
{
    lemma_cleaned_name(raw);
    lemma_cleaned_name(fallback);
}

/// The name made up for a part without one is safe, and trimming would not change it.
pub proof fn synthesized_is_safe(part_index: nat, mime_type: Seq<char>)
    ensures
        safe_name(crate::filename::synthesized_name(part_index, mime_type)),
        plain_ends(crate::filename::synthesized_name(part_index, mime_type)),
{
    let name = crate::filename::synthesized_name(part_index, mime_type);
    let number = crate::text::decimal(part_index);
    let extension = crate::filename::extension(mime_type);
    crate::text::decimal_reads_back(part_index);
    reveal_strlit("part-");
    reveal_strlit(".");
    reveal_strlit("jpg");
    reveal_strlit("png");
    reveal_strlit("gif");
    reveal_strlit("webp");
    reveal_strlit("svg");
    reveal_strlit("pdf");
    reveal_strlit("zip");
    reveal_strlit("txt");
    reveal_strlit("html");
    reveal_strlit("csv");
    reveal_strlit("bin");
    assert(3 <= extension.len() <= 4);
    assert forall|i: int| 0 <= i < extension.len() implies 'a' <= #[trigger] extension[i] <= 'z' by {}
    assert(name.last() == extension.last());
    assert(name.first() == 'p');
    assert forall|i: int| 0 <= i < name.len() implies !crate::filename::invalid_filename_char(
        #[trigger] name[i],
    ) by {
        if i < 5 {
            assert(name[i] == "part-"@[i]);
        } else if i < 5 + number.len() {
            assert(name[i] == number[i - 5]);
        } else if i == 5 + number.len() {
            assert(name[i] == '.');
        } else {
            assert(name[i] == extension[i - 6 - number.len()]);
        }
    }
}

/// Whatever name a message gives to a part, and whatever its type, the file name made
/// from it is safe.
pub proof fn download_filename_is_safe(raw: Seq<char>, part_index: nat, mime_type: Seq<char>)
    ensures
        safe_name(
            crate::filename::sanitized(
                raw,
                crate::filename::synthesized_name(part_index, mime_type),
            ),
        ),
{
    synthesized_is_safe(part_index, mime_type);
    sanitized_is_safe(raw, crate::filename::synthesized_name(part_index, mime_type));
}

proof fn lemma_cleaned_name_keeps(name: Seq<char>)
    requires
        safe_name(name),
        plain_ends(name),
    ensures
        crate::filename::cleaned_name(name) == name,
{
    assert(crate::filename::cleaned(name) =~= name);
}

/// A name that is safe already, with neither white space nor a dot at its ends, is kept
/// as it is.
pub proof fn safe_names_are_kept(name: Seq<char>, fallback: Seq<char>)
    requires
        safe_name(name),
        plain_ends(name),
    ensures
        crate::filename::sanitized(name, fallback) == name,
{
    lemma_cleaned_name_keeps(name);
    assert(!crate::text::white_space(name[0]));
}

/// A part whose name is blank gets the name made up for it.
pub proof fn blank_names_are_made_up(raw: Seq<char>, part_index: nat, mime_type: Seq<char>)
    requires
        crate::filename::blank(raw),
    ensures
        crate::filename::sanitized(raw, crate::filename::synthesized_name(part_index, mime_type))
            == crate::filename::synthesized_name(part_index, mime_type),
{
    synthesized_is_safe(part_index, mime_type);
    lemma_cleaned_name_keeps(crate::filename::synthesized_name(part_index, mime_type));
}

/// A file name made for a part never begins or ends with white space.
pub proof fn download_filename_has_no_outer_white_space(
    raw: Seq<char>,
    part_index: nat,
    mime_type: Seq<char>,
)
    ensures
        ({
            let name = crate::filename::sanitized(
                raw,
                crate::filename::synthesized_name(part_index, mime_type),
            );
            !crate::text::white_space(name.first()) && !crate::text::white_space(name.last())
        }),
{
    let fallback = crate::filename::synthesized_name(part_index, mime_type);
    synthesized_is_safe(part_index, mime_type);
    let white = |c: char| crate::text::white_space(c);
    let source = if crate::filename::blank(raw) {
        fallback
    } else {
        raw
    };
    crate::text::trimmed_has_clean_ends(
        crate::text::trimmed(
            crate::filename::cleaned(source),
            |c: char| crate::filename::dot_or_space(c),
        ),
        white,
    );
}

/// Putting a number into a safe name leaves it safe.
pub proof fn suffixed_is_safe(name: Seq<char>, k: nat)
    requires
        safe_name(name),
    ensures
        safe_name(crate::filename::suffixed(name, k)),
{
    let numbered = crate::filename::suffixed(name, k);
    let number = crate::text::decimal(k);
    let at = crate::filename::suffix_position(name);
    crate::text::decimal_reads_back(k);
    crate::filename::lemma_last_dot(name);
    crate::filename::suffixed_is_longer(name, k);
    assert(numbered[at] == '-');
    assert forall|i: int| 0 <= i < numbered.len() implies !crate::filename::invalid_filename_char(
        #[trigger] numbered[i],
    ) by {
        if i < at {
            assert(numbered[i] == name[i]);
        } else if i == at {
        } else if i < at + 1 + number.len() {
            assert(numbered[i] == number[i - at - 1]);
        } else {
            assert(numbered[i] == name[i - 1 - number.len()]);
        }
    }
}

pub(crate) proof fn lemma_last_dot_is(name: Seq<char>, at: int)
    requires
        0 <= at < name.len(),
        name[at] == '.',
        forall|i: int| at < i < name.len() ==> name[i] != '.',
    ensures
        crate::filename::last_dot(name) == at,
{
    crate::filename::lemma_last_dot(name);
    let found = crate::filename::last_dot(name);
    assert(found >= at) by {
        if found < at {
            assert(name[at] != '.');
        }
    }
}

/// Putting a number into a name with an extension keeps the extension.
pub proof fn suffix_keeps_the_extension(name: Seq<char>, k: nat)
    requires
        0 < crate::filename::last_dot(name) < name.len() - 1,
    ensures
        ({
            let numbered = crate::filename::suffixed(name, k);
            numbered.skip(crate::filename::last_dot(numbered)) == name.skip(
                crate::filename::last_dot(name),
            )
        }),
{
    let numbered = crate::filename::suffixed(name, k);
    let number = crate::text::decimal(k);
    let at = crate::filename::last_dot(name);
    crate::filename::lemma_last_dot(name);
    let moved = at + 1 + number.len();
    assert(numbered.skip(moved) =~= name.skip(at));
    assert(numbered[moved] == name.skip(at)[0]);
    assert forall|i: int| moved < i < numbered.len() implies numbered[i] != '.' by {
        assert(numbered[i] == name[i - 1 - number.len()]);
    }
    lemma_last_dot_is(numbered, moved);
}

pub(crate) proof fn lemma_first_free_suffix(name: Seq<char>, used: Set<Seq<char>>, k: nat)
    requires
        used.finite(),
        used.contains(name),
        k >= 2,
        forall|j: nat| 2 <= j < k ==> used.contains(#[trigger] crate::filename::suffixed(name, j)),
    ensures
        exists|free: nat| crate::filename::first_free_suffix(name, used, free),
    decreases used.len() + 1 - k,
{
    crate::filename::lemma_taken_names(name, used, (k - 1) as nat);
    if used.contains(crate::filename::suffixed(name, k)) {
        crate::filename::lemma_taken_names(name, used, k);
        lemma_first_free_suffix(name, used, k + 1);
    } else {
        assert(crate::filename::first_free_suffix(name, used, k));
    }
}

/// A name that is given out was not in use.
pub proof fn unique_name_is_fresh(name: Seq<char>, used: Set<Seq<char>>)
    requires
        used.finite(),
    ensures
        !used.contains(crate::filename::unique_name(name, used)),
{
    if used.contains(name) {
        lemma_first_free_suffix(name, used, 2);
    }
}

/// A name given out for a safe name is safe.
pub proof fn unique_name_is_safe(name: Seq<char>, used: Set<Seq<char>>)
    requires
        safe_name(name),
    ensures
        safe_name(crate::filename::unique_name(name, used)),
{
    if used.contains(name) {
        suffixed_is_safe(
            name,
            choose|k: nat| crate::filename::first_free_suffix(name, used, k),
        );
    }
}

/// Targets are accepted exactly when each lies in the output directory and, unless files
/// are to be overwritten, none exists yet.
pub proof fn targets_accepted_iff(
    output_dir: PathBuf,
    paths: Seq<PathBuf>,
    present: Seq<bool>,
    overwrite: bool,
)
    requires
        present.len() == paths.len(),
    ensures
        crate::plan::first_target_error(output_dir, paths, present, overwrite) is None <==> (
        forall|i: int|
            0 <= i < paths.len() ==> #[trigger] crate::plan::acceptable_target(
                output_dir,
                paths[i],
                present[i],
                overwrite,
            )),
    decreases paths.len(),
{
    if paths.len() > 0 {
        let rest = paths.drop_first();
        let rest_present = present.drop_first();
        targets_accepted_iff(output_dir, rest, rest_present, overwrite);
        if crate::plan::first_target_error(output_dir, paths, present, overwrite) is None {
            assert forall|i: int| 0 <= i < paths.len() implies #[trigger] crate::plan::acceptable_target(
            output_dir, paths[i], present[i], overwrite) by {
                if i > 0 {
                    assert(crate::plan::acceptable_target(
                        output_dir,
                        rest[i - 1],
                        rest_present[i - 1],
                        overwrite,
                    ));
                }
            }
        } else if crate::plan::acceptable_target(output_dir, paths[0], present[0], overwrite) {
            let i = choose|i: int|
                0 <= i < rest.len() && !#[trigger] crate::plan::acceptable_target(
                    output_dir,
                    rest[i],
                    rest_present[i],
                    overwrite,
                );
            assert(!crate::plan::acceptable_target(
                output_dir,
                paths[i + 1],
                present[i + 1],
                overwrite,
            ));
        }
    }
}

/// A file in a directory lies in it.
pub proof fn file_in_directory_lies_under(path: PathBuf, dir: PathBuf, name: Seq<char>)
    requires
        crate::paths::is_file_in(path, dir, name),
    ensures
        crate::paths::lies_under(path, dir),
{
}

/// The targets of a plan are the output directory joined with the planned names.
pub proof fn plan_has_the_planned_paths(
    planned: Seq<PlannedAttachment>,
    parts: Seq<(int, OriginalPart)>,
    dir: PathBuf,
)
    requires
        crate::plan::is_plan(planned, parts, dir),
    ensures
        crate::plan::targets(planned) == crate::plan::planned_paths(parts, dir),
{
    let paths = crate::plan::planned_paths(parts, dir);
    assert forall|i: int| 0 <= i < planned.len() implies crate::plan::targets(planned)[i]
        == paths[i] by {
        assert(crate::plan::planned_for(
            planned[i],
            parts[i],
            dir,
            crate::plan::planned_names(parts)[i],
        ));
    }
    assert(crate::plan::targets(planned) =~= paths);
}

/// The files of a plan lie directly in a complete directory.
pub proof fn complete_directories_hold_the_files(
    planned: Seq<PlannedAttachment>,
    parts: Seq<(int, OriginalPart)>,
    dir: PathBuf,
)
    requires
        crate::plan::is_plan(planned, parts, dir),
        crate::paths::complete_directory(dir),
    ensures
        crate::plan::lands_directly_in(parts, dir),
{
    let names = crate::plan::planned_names(parts);
    assert forall|i: int| 0 <= i < names.len() implies crate::paths::is_file_in(
        crate::paths::joined(dir, #[trigger] names[i]),
        dir,
        names[i],
    ) by {
        assert(crate::plan::planned_for(planned[i], parts[i], dir, names[i]));
    }
}

/// Every planned target lies in the output directory itself: no name that a message gives
/// to a part leads out of it, or into a directory below it.
pub proof fn planned_targets_stay_inside(
    planned: Seq<PlannedAttachment>,
    parts: Seq<(int, OriginalPart)>,
    dir: PathBuf,
)
    requires
        crate::plan::is_plan(planned, parts, dir),
        crate::paths::complete_directory(dir) || crate::plan::lands_directly_in(parts, dir),
    ensures
        forall|i: int|
            0 <= i < planned.len() ==> crate::paths::lies_under(#[trigger] planned[i].path, dir)
                && crate::paths::is_file_in(planned[i].path, dir, planned[i].filename@),
{
    if crate::paths::complete_directory(dir) {
        complete_directories_hold_the_files(planned, parts, dir);
    }
    assert forall|i: int| 0 <= i < planned.len() implies crate::paths::lies_under(
        #[trigger] planned[i].path,
        dir,
    ) && crate::paths::is_file_in(planned[i].path, dir, planned[i].filename@) by {
        assert(crate::plan::planned_for(
            planned[i],
            parts[i],
            dir,
            crate::plan::planned_names(parts)[i],
        ));
        file_in_directory_lies_under(planned[i].path, dir, crate::plan::planned_names(parts)[i]);
    }
}

/// What lies in a directory that lies in another one lies in that one.
pub proof fn lying_under_is_transitive(inner: PathBuf, middle: PathBuf, outer: PathBuf)
    requires
        crate::paths::lies_under(inner, middle),
        crate::paths::lies_under(middle, outer),
    ensures
        crate::paths::lies_under(inner, outer),
{
    let first = crate::paths::path_components(outer);
    let second = crate::paths::path_components(middle);
    let third = crate::paths::path_components(inner);
    assert forall|i: int| 0 <= i < first.len() implies first[i] == third[i] by {
        assert(first[i] == second.subrange(0, first.len() as int)[i]);
        assert(second[i] == third.subrange(0, second.len() as int)[i]);
    }
    assert(first =~= third.subrange(0, first.len() as int));
}

/// Once the output directory has been validated and the targets accepted, everything is
/// written below the current directory.
pub proof fn accepted_targets_stay_in_the_workspace(
    raw: Seq<char>,
    lookup: LookupView,
    dir: PathBuf,
    paths: Seq<PathBuf>,
    present: Seq<bool>,
    overwrite: bool,
)
    requires
        crate::validate::safe_output_dir(raw, lookup) == Ok::<PathBuf, ErrorView>(dir),
        present.len() == paths.len(),
        crate::plan::first_target_error(dir, paths, present, overwrite) is None,
    ensures
        !lookup.absolute,
        forall|i: int|
            0 <= i < paths.len() ==> crate::paths::lies_under(#[trigger] paths[i], dir)
                && crate::paths::lies_under(paths[i], (lookup.places->Ok_0).0),
{
    targets_accepted_iff(dir, paths, present, overwrite);
    assert forall|i: int| 0 <= i < paths.len() implies crate::paths::lies_under(
        #[trigger] paths[i],
        dir,
    ) && crate::paths::lies_under(paths[i], (lookup.places->Ok_0).0) by {
        assert(crate::plan::acceptable_target(dir, paths[i], present[i], overwrite));
        lying_under_is_transitive(paths[i], dir, (lookup.places->Ok_0).0);
    }
}

/// A plan is accepted exactly when files are to be overwritten or none of its targets
/// exists.
pub proof fn plan_accepted_iff_nothing_is_replaced(
    planned: Seq<PlannedAttachment>,
    parts: Seq<(int, OriginalPart)>,
    dir: PathBuf,
    present: Seq<bool>,
    overwrite: bool,
)
    requires
        crate::plan::is_plan(planned, parts, dir),
        crate::paths::complete_directory(dir) || crate::plan::lands_directly_in(parts, dir),
        present.len() == planned.len(),
    ensures
        crate::plan::first_target_error(dir, crate::plan::targets(planned), present, overwrite)
            is None <==> overwrite || !present.contains(true),
{
    let paths = crate::plan::targets(planned);
    planned_targets_stay_inside(planned, parts, dir);
    targets_accepted_iff(dir, paths, present, overwrite);
    if overwrite || !present.contains(true) {
        assert forall|i: int| 0 <= i < paths.len() implies #[trigger] crate::plan::acceptable_target(
        dir, paths[i], present[i], overwrite) by {
            assert(crate::paths::lies_under(planned[i].path, dir));
        }
    } else {
        let i = choose|i: int| 0 <= i < present.len() && present[i] == true;
        assert(!crate::plan::acceptable_target(dir, paths[i], present[i], overwrite));
    }
}

proof fn lemma_names_given(base_names: Seq<Seq<char>>)
    requires
        forall|i: int| 0 <= i < base_names.len() ==> safe_name(#[trigger] base_names[i]),
    ensures
        crate::plan::names_given(base_names).len() == base_names.len(),
        crate::plan::names_given(base_names).no_duplicates(),
        forall|i: int|
            0 <= i < base_names.len() ==> safe_name(
                #[trigger] crate::plan::names_given(base_names)[i],
            ),
    decreases base_names.len(),
{
    if base_names.len() > 0 {
        let before = crate::plan::names_given(base_names.drop_last());
        let last = base_names.last();
        assert(safe_name(base_names[base_names.len() - 1]));
        assert forall|i: int| 0 <= i < base_names.len() - 1 implies safe_name(
            #[trigger] base_names.drop_last()[i],
        ) by {
            assert(safe_name(base_names[i]));
        }
        lemma_names_given(base_names.drop_last());
        vstd::seq_lib::seq_to_set_is_finite(before);
        unique_name_is_fresh(last, before.to_set());
        unique_name_is_safe(last, before.to_set());
        let given = crate::filename::unique_name(last, before.to_set());
        assert forall|i: int| 0 <= i < before.len() implies before[i] != given by {
            assert(before.to_set().contains(before[i]));
        }
    }
}

/// The file names of a plan are all different, and each is safe.
pub proof fn planned_names_are_distinct_and_safe(parts: Seq<(int, OriginalPart)>)
    ensures
        crate::plan::planned_names(parts).len() == parts.len(),
        crate::plan::planned_names(parts).no_duplicates(),
        forall|i: int|
            0 <= i < parts.len() ==> safe_name(#[trigger] crate::plan::planned_names(parts)[i]),
{
    let bases = parts.map_values(|entry: (int, OriginalPart)| crate::plan::base_name(entry));
    assert forall|i: int| 0 <= i < bases.len() implies safe_name(#[trigger] bases[i]) by {
        download_filename_is_safe(
            parts[i].1.filename@,
            parts[i].0 as nat,
            parts[i].1.content_type@,
        );
    }
    lemma_names_given(bases);
}

/// The first parts of a message get the names that they get in the whole message.
pub proof fn names_of_the_first_parts(base_names: Seq<Seq<char>>, k: int)
    requires
        0 <= k <= base_names.len(),
    ensures
        crate::plan::names_given(base_names).len() == base_names.len(),
        crate::plan::names_given(base_names.take(k)) == crate::plan::names_given(
            base_names,
        ).take(k),
    decreases base_names.len(),
{
    let names = crate::plan::names_given(base_names);
    if base_names.len() > 0 {
        let rest = base_names.drop_last();
        names_of_the_first_parts(rest, if k < base_names.len() { k } else { k - 1 });
        if k < base_names.len() {
            assert(rest.take(k) =~= base_names.take(k));
            assert(crate::plan::names_given(rest).take(k) =~= names.take(k));
        }
    }
    if k == base_names.len() {
        assert(base_names.take(k) =~= base_names);
        assert(names.take(k) =~= names);
    }
}

/// Whether two items of plans are the same, field by field.
pub open spec fn same_item(first: PlannedAttachment, second: PlannedAttachment) -> bool {
    &&& first.original_index == second.original_index
    &&& *first.part == *second.part
    &&& first.filename@ == second.filename@
    &&& first.path == second.path
}

/// Planning the first parts gives the first items of the plan for all parts, and if all
/// were accepted, so are they. For all parts this says that there is one plan only.
pub proof fn planning_the_first_parts(
    all: Seq<PlannedAttachment>,
    some: Seq<PlannedAttachment>,
    parts: Seq<(int, OriginalPart)>,
    k: int,
    dir: PathBuf,
    present: Seq<bool>,
    overwrite: bool,
)
    requires
        0 <= k <= parts.len(),
        crate::plan::is_plan(all, parts, dir),
        crate::plan::is_plan(some, parts.take(k), dir),
        present.len() == parts.len(),
    ensures
        some.len() == k,
        forall|i: int| 0 <= i < k ==> same_item(#[trigger] some[i], all[i]),
        crate::plan::first_target_error(dir, crate::plan::targets(all), present, overwrite) is None
            ==> crate::plan::first_target_error(
            dir,
            crate::plan::targets(some),
            present.take(k),
            overwrite,
        ) is None,
{
    let base = |entry: (int, OriginalPart)| crate::plan::base_name(entry);
    let names = crate::plan::planned_names(parts);
    let bases = parts.map_values(base);
    assert(bases.take(k) =~= parts.take(k).map_values(base));
    names_of_the_first_parts(bases, k);
    assert(crate::plan::planned_names(parts.take(k)) == names.take(k));
    assert forall|i: int| 0 <= i < k implies same_item(#[trigger] some[i], all[i]) by {
        assert(crate::plan::planned_for(some[i], parts.take(k)[i], dir, names.take(k)[i]));
        assert(crate::plan::planned_for(all[i], parts[i], dir, names[i]));
    }
    let paths = crate::plan::targets(all);
    let first = crate::plan::targets(some);
    targets_accepted_iff(dir, paths, present, overwrite);
    targets_accepted_iff(dir, first, present.take(k), overwrite);
    if crate::plan::first_target_error(dir, paths, present, overwrite) is None {
        assert forall|i: int| 0 <= i < first.len() implies #[trigger] crate::plan::acceptable_target(
        dir, first[i], present.take(k)[i], overwrite) by {
            assert(same_item(some[i], all[i]));
            assert(crate::plan::acceptable_target(dir, paths[i], present[i], overwrite));
        }
    }
}

/// The names in use after names were given out for `name` again and again: the name
/// itself and the numbers from two on.
pub open spec fn numbered_names(name: Seq<char>, n: int) -> Set<Seq<char>> {
    Set::new(
        |x: Seq<char>|
            n >= 1 && x == name || exists|j: nat|
                2 <= j <= n && x == #[trigger] crate::filename::suffixed(name, j),
    )
}

proof fn lemma_numbered_name(name: Seq<char>, n: int)
    requires
        n >= 0,
    ensures
        crate::filename::unique_name(name, numbered_names(name, n)) == if n == 0 {
            name
        } else {
            crate::filename::suffixed(name, (n + 1) as nat)
        },
{
    let used = numbered_names(name, n);
    if n == 0 {
        assert(!used.contains(name));
    } else {
        let next = (n + 1) as nat;
        assert(used.contains(name));
        assert forall|j: nat| 2 <= j <= n implies used.contains(
            #[trigger] crate::filename::suffixed(name, j),
        ) by {}
        assert(!used.contains(crate::filename::suffixed(name, next))) by {
            crate::filename::suffixed_is_longer(name, next);
            assert forall|j: nat| 2 <= j <= n implies crate::filename::suffixed(name, next)
                != #[trigger] crate::filename::suffixed(name, j) by {
                if crate::filename::suffixed(name, next) == crate::filename::suffixed(name, j) {
                    crate::filename::suffixed_is_injective(name, next, j);
                }
            }
        }
        assert(crate::filename::first_free_suffix(name, used, next));
        let k = choose|k: nat| crate::filename::first_free_suffix(name, used, k);
        assert(k == next) by {
            if k < next {
                assert(used.contains(crate::filename::suffixed(name, k)));
            } else if k > next {
                assert(used.contains(crate::filename::suffixed(name, next)));
            }
        }
    }
}

/// Giving names out for one name again and again, with no name in use at first, gives
/// the name itself and then the numbers from two on. `used` holds the names in use
/// before each time and after the last.
pub proof fn one_name_again_and_again(
    name: Seq<char>,
    given: Seq<Seq<char>>,
    used: Seq<Set<Seq<char>>>,
    n: int,
)
    requires
        0 <= n <= given.len(),
        used.len() == given.len() + 1,
        used[0] == Set::<Seq<char>>::empty(),
        forall|i: int|
            0 <= i < given.len() ==> (#[trigger] given[i]) == crate::filename::unique_name(
                name,
                used[i],
            ) && used[i + 1] == used[i].insert(given[i]),
    ensures
        n >= 1 ==> given[0] == name,
        forall|j: int|
            2 <= j <= n ==> #[trigger] given[j - 1] == crate::filename::suffixed(name, j as nat),
        used[n] == given.take(n).to_set(),
        used[n].finite(),
        used[n].len() == n,
{
    lemma_again(name, given, used, n);
    let first = given.take(n).to_set();
    assert forall|x: Seq<char>| used[n].contains(x) <==> first.contains(x) by {
        if used[n].contains(x) {
            if x == name {
                assert(given.take(n)[0] == x);
            } else {
                let j = choose|j: nat| 2 <= j <= n && x == #[trigger] crate::filename::suffixed(name, j);
                assert(given[j - 1] == x);
                assert(given.take(n)[j - 1] == x);
            }
        }
        if first.contains(x) {
            let i = choose|i: int| 0 <= i < n && given.take(n)[i] == x;
            assert(given[i] == x);
            if i > 0 {
                assert(given[(i + 1) - 1] == crate::filename::suffixed(name, (i + 1) as nat));
            }
        }
    }
    assert(used[n] =~= first);
}

proof fn lemma_again(name: Seq<char>, given: Seq<Seq<char>>, used: Seq<Set<Seq<char>>>, n: int)
    requires
        0 <= n <= given.len(),
        used.len() == given.len() + 1,
        used[0] == Set::<Seq<char>>::empty(),
        forall|i: int|
            0 <= i < given.len() ==> (#[trigger] given[i]) == crate::filename::unique_name(
                name,
                used[i],
            ) && used[i + 1] == used[i].insert(given[i]),
    ensures
        n >= 1 ==> given[0] == name,
        forall|j: int|
            2 <= j <= n ==> #[trigger] given[j - 1] == crate::filename::suffixed(name, j as nat),
        used[n] == numbered_names(name, n),
        used[n].finite(),
        used[n].len() == n,
    decreases n,
{
    if n == 0 {
        assert(used[0] =~= numbered_names(name, 0));
    } else {
        lemma_again(name, given, used, n - 1);
        lemma_numbered_name(name, n - 1);
        assert(given[n - 1] == crate::filename::unique_name(name, used[n - 1]));
        unique_name_is_fresh(name, used[n - 1]);
        let grown = numbered_names(name, n);
        assert forall|x: Seq<char>| used[n].contains(x) <==> grown.contains(x) by {
            if x == given[n - 1] && n >= 2 {
                assert(x == crate::filename::suffixed(name, n as nat));
            }
        }
        assert(used[n] =~= grown);
    }
}

/// No two parts of a plan are written to the same place, whatever the directory.
pub proof fn planned_targets_are_distinct(
    planned: Seq<PlannedAttachment>,
    parts: Seq<(int, OriginalPart)>,
    dir: PathBuf,
    i: int,
    j: int,
)
    requires
        crate::plan::is_plan(planned, parts, dir),
        0 <= i < planned.len(),
        0 <= j < planned.len(),
        i != j,
    ensures
        planned[i].path != planned[j].path,
        crate::paths::path_components(planned[i].path) != crate::paths::path_components(
            planned[j].path,
        ),
{
    let names = crate::plan::planned_names(parts);
    planned_names_are_distinct_and_safe(parts);
    assert(crate::plan::planned_for(planned[i], parts[i], dir, names[i]));
    assert(crate::plan::planned_for(planned[j], parts[j], dir, names[j]));
    assert(safe_name(names[j]));
    assert(crate::paths::single_component(names[j]));
    assert(planned[j].path == crate::paths::joined(dir, names[j]));
}

/// Asked for inline parts, the selection is the whole message.
pub proof fn all_parts_are_selected(parts: Seq<OriginalPart>)
    ensures
        crate::parts::selection(parts, true) == crate::parts::numbered(parts),
    decreases parts.len(),
{
    reveal(Seq::filter);
    if parts.len() > 0 {
        all_parts_are_selected(parts.drop_last());
        assert(crate::parts::numbered(parts).drop_last() =~= crate::parts::numbered(
            parts.drop_last(),
        ));
        assert(crate::parts::numbered(parts) =~= crate::parts::numbered(parts).drop_last().push(
            crate::parts::numbered(parts).last(),
        ));
    } else {
        assert(crate::parts::selection(parts, true) =~= crate::parts::numbered(parts));
    }
}

/// A part is selected exactly when inline parts are asked for or it is not inline.
pub proof fn part_is_selected_iff(parts: Seq<OriginalPart>, include_inline: bool, i: int)
    requires
        0 <= i < parts.len(),
    ensures
        crate::parts::selection(parts, include_inline).contains((i, parts[i])) <==> include_inline
            || !parts[i].inline(),
{
    let wanted = |entry: (int, OriginalPart)| include_inline || !entry.1.inline();
    let all = crate::parts::numbered(parts);
    broadcast use vstd::seq_lib::group_filter_ensures;

    assert(all[i] == (i, parts[i]));
    if wanted(all[i]) {
        assert(all.filter(wanted).contains(all[i]));
    }
}

/// The selection keeps the order of the message: the positions in it go up, and each
/// names the part it stands with.
pub proof fn selection_keeps_order(parts: Seq<OriginalPart>, include_inline: bool)
    ensures
        ({
            let selected = crate::parts::selection(parts, include_inline);
            &&& forall|i: int|
                0 <= i < selected.len() ==> 0 <= (#[trigger] selected[i]).0 < parts.len()
                    && selected[i].1 == parts[selected[i].0]
            &&& forall|i: int, j: int|
                0 <= i < j < selected.len() ==> (#[trigger] selected[i]).0 < (
                #[trigger] selected[j]).0
        }),
    decreases parts.len(),
{
    reveal(Seq::filter);
    if parts.len() > 0 {
        let rest = parts.drop_last();
        let before = crate::parts::selection(rest, include_inline);
        let selected = crate::parts::selection(parts, include_inline);
        let last = (parts.len() - 1, parts.last());
        selection_keeps_order(rest, include_inline);
        assert(crate::parts::numbered(parts).drop_last() =~= crate::parts::numbered(rest));
        assert(selected == before || selected == before.push(last));
        assert forall|i: int| 0 <= i < selected.len() implies 0 <= (#[trigger] selected[i]).0
            < parts.len() && selected[i].1 == parts[selected[i].0] by {
            if i < before.len() {
                assert(selected[i] == before[i]);
            }
        }
        assert forall|i: int, j: int| 0 <= i < j < selected.len() implies (#[trigger] selected[i]).0
            < (#[trigger] selected[j]).0 by {
            assert(selected[i] == before[i]);
            if j < before.len() {
                assert(selected[j] == before[j]);
            }
        }
    }
}

/// What is downloaded and what is left out make up the message.
pub proof fn selected_and_skipped_make_up_the_message(
    parts: Seq<OriginalPart>,
    include_inline: bool,
)
    ensures
        crate::parts::selection(parts, include_inline).len() + crate::parts::skipped_inline(
            parts,
            include_inline,
        ) == parts.len(),
    decreases parts.len(),
{
    reveal(Seq::filter);
    if parts.len() > 0 {
        selected_and_skipped_make_up_the_message(parts.drop_last(), include_inline);
        assert(crate::parts::numbered(parts).drop_last() =~= crate::parts::numbered(
            parts.drop_last(),
        ));
    }
}

/// Without leave to overwrite, opening a file never touches one that is there; with it,
/// nothing is left of one.
pub proof fn files_are_replaced_only_on_request(overwrite: bool)
    ensures
        !overwrite ==> crate::write::mode_for(overwrite).create_new && !crate::write::mode_for(
            overwrite,
        ).truncate,
        overwrite ==> crate::write::mode_for(overwrite).truncate && !crate::write::mode_for(
            overwrite,
        ).create_new,
{
}

} // verus!
