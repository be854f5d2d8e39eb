//! Which file each chosen part is written to.

use std::path::PathBuf;

use vstd::prelude::*;

use crate::error::{ErrorView, GwsError};
use crate::filename::{sanitize_download_filename, unique_filename, UsedNames};
use crate::parts::OriginalPart;
use crate::paths::{display_path, join, starts_with};

verus! {

/// A part and the file that it is written to.
#[derive(Debug)]
pub struct PlannedAttachment<'a> {
    /// The position of the part in the message.
    pub original_index: usize,
    pub part: &'a OriginalPart,
    pub filename: String,
    pub path: PathBuf,
}

/// The names that parts with the given names get, one after the other: each the first
/// name that the parts before it have left free.
pub open spec fn names_given(base_names: Seq<Seq<char>>) -> Seq<Seq<char>>
    decreases base_names.len(),
{
    if base_names.len() == 0 {
        Seq::empty()
    } else {
        let before = names_given(base_names.drop_last());
        before.push(crate::filename::unique_name(base_names.last(), before.to_set()))
    }
}

/// The name of a part, cleaned.
pub open spec fn base_name(entry: (int, OriginalPart)) -> Seq<char> {
    crate::filename::sanitized(
        entry.1.filename@,
        crate::filename::synthesized_name(entry.0 as nat, entry.1.content_type@),
    )
}

/// The file names that the chosen parts get.
pub open spec fn planned_names(parts: Seq<(int, OriginalPart)>) -> Seq<Seq<char>> {
    names_given(parts.map_values(|entry: (int, OriginalPart)| base_name(entry)))
}

/// The places of the files of the chosen parts.
pub open spec fn planned_paths(parts: Seq<(int, OriginalPart)>, dir: PathBuf) -> Seq<PathBuf> {
    planned_names(parts).map_values(|name: Seq<char>| crate::paths::joined(dir, name))
}

/// Whether the files of the chosen parts lie directly in the directory `dir`: joining
/// their names to it adds one component. A [complete directory] is known to be such a one.
///
/// [complete directory]: crate::paths::complete_directory
pub open spec fn lands_directly_in(parts: Seq<(int, OriginalPart)>, dir: PathBuf) -> bool {
    forall|i: int|
        0 <= i < planned_names(parts).len() ==> crate::paths::is_file_in(
            crate::paths::joined(dir, #[trigger] planned_names(parts)[i]),
            dir,
            planned_names(parts)[i],
        )
}

/// Whether `item` is the plan for `entry` under the file name `name` in the directory
/// `dir`.
pub open spec fn planned_for(
    item: PlannedAttachment,
    entry: (int, OriginalPart),
    dir: PathBuf,
    name: Seq<char>,
) -> bool {
    &&& item.original_index == entry.0
    &&& *item.part == entry.1
    &&& item.filename@ == name
    &&& item.path == crate::paths::joined(dir, name)
    &&& crate::paths::set_apart(item.path, dir, name)
    &&& crate::paths::complete_directory(dir) ==> crate::paths::is_file_in(item.path, dir, name)
}

/// Whether `planned` is the plan for the chosen parts: one item for each part, in order,
/// under the names that [`planned_names`] gives.
pub open spec fn is_plan(
    planned: Seq<PlannedAttachment>,
    parts: Seq<(int, OriginalPart)>,
    dir: PathBuf,
) -> bool {
    &&& planned.len() == parts.len()
    &&& planned_names(parts).len() == parts.len()
    &&& forall|i: int|
        0 <= i < parts.len() ==> planned_for(
            #[trigger] planned[i],
            parts[i],
            dir,
            planned_names(parts)[i],
        )
}

/// The places of the planned files.
pub open spec fn targets(planned: Seq<PlannedAttachment>) -> Seq<PathBuf> {
    planned.map_values(|item: PlannedAttachment| item.path)
}

/// A place to write to: it lies in the output directory and, unless files are to be
/// overwritten, there is no file yet.
pub open spec fn acceptable_target(
    output_dir: PathBuf,
    path: PathBuf,
    present: bool,
    overwrite: bool,
) -> bool {
    crate::paths::lies_under(path, output_dir) && (overwrite || !present)
}

/// What is wrong with writing to `path`, if anything: it leaves the output directory, or
/// it exists and is not to be replaced.
pub open spec fn target_error(
    output_dir: PathBuf,
    path: PathBuf,
    present: bool,
    overwrite: bool,
) -> Option<ErrorView> {
    if !crate::paths::lies_under(path, output_dir) {
        Some(
            ErrorView::Validation(
                "Attachment target '"@ + crate::paths::path_text(path)
                    + "' escapes --output-dir '"@ + crate::paths::path_text(output_dir) + "'"@,
            ),
        )
    } else if present && !overwrite {
        Some(
            ErrorView::Validation(
                "Refusing to overwrite existing file '"@ + crate::paths::path_text(path)
                    + "'; pass --overwrite to replace it"@,
            ),
        )
    } else {
        None
    }
}

/// What is wrong with the first path that something is wrong with. `present` tells of
/// each path whether there is a file already.
pub open spec fn first_target_error(
    output_dir: PathBuf,
    paths: Seq<PathBuf>,
    present: Seq<bool>,
    overwrite: bool,
) -> Option<ErrorView>
    decreases paths.len(),
{
    if paths.len() == 0 {
        None
    } else {
        match target_error(output_dir, paths.first(), present.first(), overwrite) {
            Some(error) => Some(error),
            None => first_target_error(
                output_dir,
                paths.drop_first(),
                present.drop_first(),
                overwrite,
            ),
        }
    }
}

/// Refuses a path outside the output directory, and one with a file already `present`
/// unless it is to be replaced.
pub fn ensure_target_path(
    output_dir: &PathBuf,
    path: &PathBuf,
    present: bool,
    overwrite: bool,
) -> (checked: Result<(), GwsError>)
    ensures
        match checked {
            Ok(()) => target_error(*output_dir, *path, present, overwrite) is None,
            Err(e) => target_error(*output_dir, *path, present, overwrite) == Some(e@),
        },
{
    if !starts_with(path, output_dir) {
        let mut text = "Attachment target '".to_owned();
        text.append(&display_path(path));
        text.append("' escapes --output-dir '");
        text.append(&display_path(output_dir));
        text.append("'");
        return Err(GwsError::Validation(text));
    }
    if present && !overwrite {
        let mut text = "Refusing to overwrite existing file '".to_owned();
        text.append(&display_path(path));
        text.append("'; pass --overwrite to replace it");
        return Err(GwsError::Validation(text));
    }
    Ok(())
}

/// Gives each chosen part a file name of its own, and its place in the output directory.
pub fn plan_targets<'a>(parts: &[(usize, &'a OriginalPart)], output_dir: &PathBuf) -> (planned: Vec<
    PlannedAttachment<'a>,
>)
    ensures
        is_plan(planned@, crate::parts::chosen(parts@), *output_dir),
{
    let ghost chosen = crate::parts::chosen(parts@);
    let ghost bases = chosen.map_values(|entry: (int, OriginalPart)| base_name(entry));
    let mut used_names = UsedNames::new();
    let mut planned: Vec<PlannedAttachment<'a>> = Vec::new();
    assert(names_given(bases.take(0)).to_set() =~= Set::empty());
    for i in 0..parts.len()
        invariant
            chosen == crate::parts::chosen(parts@),
            bases == chosen.map_values(|entry: (int, OriginalPart)| base_name(entry)),
            planned@.len() == i,
            used_names.wf(),
            used_names@ == names_given(bases.take(i as int)).to_set(),
            used_names@.len() <= i,
            names_given(bases.take(i as int)).len() == i,
            forall|j: int|
                0 <= j < i ==> planned_for(
                    #[trigger] planned@[j],
                    chosen[j],
                    *output_dir,
                    names_given(bases.take(i as int))[j],
                ),
    {
        let (original_index, part) = parts[i];
        let name = sanitize_download_filename(&part.filename, original_index, &part.content_type);
        assert(name@ == bases[i as int]);
        let filename = unique_filename(&name, &mut used_names);
        proof {
            let before = names_given(bases.take(i as int));
            let grown = bases.take(i + 1);
            assert(grown.drop_last() =~= bases.take(i as int));
            assert(names_given(grown) == before.push(filename@));
            assert(before.push(filename@).to_set() =~= before.to_set().insert(filename@)) by {
                broadcast use vstd::seq_lib::group_seq_properties;

            }
            crate::laws::download_filename_is_safe(
                part.filename@,
                original_index as nat,
                part.content_type@,
            );
            crate::laws::unique_name_is_safe(name@, before.to_set());
        }
        let path = join(output_dir, &filename);
        planned.push(PlannedAttachment { original_index, part, filename, path });
    }
    assert(bases.take(parts@.len() as int) =~= bases);
    planned
}

/// Checks the planned targets, in order; `present` tells of each whether there is a file
/// already.
pub fn check_targets(
    planned: &[PlannedAttachment],
    output_dir: &PathBuf,
    present: &[bool],
    overwrite: bool,
) -> (checked: Result<(), GwsError>)
    requires
        present@.len() == planned@.len(),
    ensures
        ({
            let error = first_target_error(*output_dir, targets(planned@), present@, overwrite);
            match checked {
                Ok(()) => error is None,
                Err(e) => error == Some(e@),
            }
        }),
{
    let ghost paths = targets(planned@);
    assert(paths.skip(0) =~= paths);
    assert(present@.skip(0) =~= present@);
    for i in 0..planned.len()
        invariant
            present@.len() == planned@.len(),
            paths == targets(planned@),
            first_target_error(*output_dir, paths, present@, overwrite) == first_target_error(
                *output_dir,
                paths.skip(i as int),
                present@.skip(i as int),
                overwrite,
            ),
    {
        assert(paths.skip(i as int).drop_first() =~= paths.skip(i + 1));
        assert(present@.skip(i as int).drop_first() =~= present@.skip(i + 1));
        match ensure_target_path(output_dir, &planned[i].path, present[i], overwrite) {
            Ok(()) => {},
            Err(e) => {
                return Err(e);
            },
        }
    }
    Ok(())
}

/// Plans the download of the chosen parts into the output directory. `present` tells of
/// each target of [`plan_targets`] whether there is a file already; unless files are to
/// be overwritten, the first that there is stops the download.
pub fn plan_downloads<'a>(
    parts: &[(usize, &'a OriginalPart)],
    output_dir: &PathBuf,
    overwrite: bool,
    present: &[bool],
) -> (result: Result<Vec<PlannedAttachment<'a>>, GwsError>)
    requires
        present@.len() == parts@.len(),
    ensures
        ({
            let chosen = crate::parts::chosen(parts@);
            let error = first_target_error(
                *output_dir,
                planned_paths(chosen, *output_dir),
                present@,
                overwrite,
            );
            match result {
                Ok(planned) => is_plan(planned@, chosen, *output_dir) && error is None,
                Err(e) => error == Some(e@),
            }
        }),
        crate::paths::complete_directory(*output_dir) || lands_directly_in(
            crate::parts::chosen(parts@),
            *output_dir,
        ) ==> (result is Ok <==> overwrite || !present@.contains(true)),
{
    let planned = plan_targets(parts, output_dir);
    proof {
        crate::laws::plan_has_the_planned_paths(
            planned@,
            crate::parts::chosen(parts@),
            *output_dir,
        );
        if crate::paths::complete_directory(*output_dir) || lands_directly_in(
            crate::parts::chosen(parts@),
            *output_dir,
        ) {
            crate::laws::plan_accepted_iff_nothing_is_replaced(
                planned@,
                crate::parts::chosen(parts@),
                *output_dir,
                present@,
                overwrite,
            );
        }
    }
    match check_targets(&planned, output_dir, present, overwrite) {
        Ok(()) => Ok(planned),
        Err(e) => Err(e),
    }
}

} // verus!
