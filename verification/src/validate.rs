//! Checks on what the user passes on the command line.

use std::path::PathBuf;

use vstd::prelude::*;

use crate::error::{ErrorView, GwsError};
use crate::paths::{display_path, starts_with};
use crate::text::{chars_of, is_control};

verus! {

/// Characters that are no control codes, yet hide or reorder the text around them:
/// zero-width characters, line and paragraph separators, bidirectional overrides
/// and isolates.
pub open spec fn dangerous_unicode(c: char) -> bool {
    ||| '\u{200b}' <= c <= '\u{200d}'
    ||| '\u{2028}' <= c <= '\u{2029}'
    ||| '\u{202a}' <= c <= '\u{202e}'
    ||| '\u{2066}' <= c <= '\u{2069}'
    ||| c == '\u{feff}'
}

/// Whether `c` hides or reorders the text around it.
pub fn is_dangerous_unicode(c: char) -> (yes: bool)
    ensures
        yes == dangerous_unicode(c),
{
    ('\u{200b}' <= c && c <= '\u{200d}') || ('\u{2028}' <= c && c <= '\u{2029}') || ('\u{202a}' <= c
        && c <= '\u{202e}') || ('\u{2066}' <= c && c <= '\u{2069}') || c == '\u{feff}'
}

/// A character that no command line value may hold.
pub open spec fn rejected_char(c: char) -> bool {
    crate::text::control(c) || dangerous_unicode(c)
}

/// The complaint about the value `value` of the flag `flag`, if there is one: it is
/// about the first rejected character.
pub open spec fn dangerous_chars_error(value: Seq<char>, flag: Seq<char>) -> Option<ErrorView>
    decreases value.len(),
{
    if value.len() == 0 {
        None
    } else if crate::text::control(value.first()) {
        Some(ErrorView::Validation(flag + " contains invalid control characters"@))
    } else if dangerous_unicode(value.first()) {
        Some(ErrorView::Validation(flag + " contains invalid Unicode characters"@))
    } else {
        dangerous_chars_error(value.drop_first(), flag)
    }
}

/// A value is accepted exactly when it holds no rejected character.
pub proof fn accepted_iff_no_rejected_char(value: Seq<char>, flag: Seq<char>)
    ensures
        dangerous_chars_error(value, flag) is None <==> forall|i: int|
            0 <= i < value.len() ==> !rejected_char(#[trigger] value[i]),
    decreases value.len(),
{
    if value.len() > 0 {
        let rest = value.drop_first();
        accepted_iff_no_rejected_char(rest, flag);
        if dangerous_chars_error(value, flag) is None {
            assert forall|i: int| 0 <= i < value.len() implies !rejected_char(
                #[trigger] value[i],
            ) by {
                if i > 0 {
                    assert(value[i] == rest[i - 1]);
                }
            }
        } else if !rejected_char(value[0]) {
            let i = choose|i: int| 0 <= i < rest.len() && rejected_char(#[trigger] rest[i]);
            assert(value[i + 1] == rest[i]);
        }
    }
}

/// Refuses a value with control codes or other dangerous characters in it.
pub fn reject_dangerous_chars(value: &str, flag_name: &str) -> (checked: Result<(), GwsError>)
    ensures
        match checked {
            Ok(()) => dangerous_chars_error(value@, flag_name@) is None,
            Err(e) => dangerous_chars_error(value@, flag_name@) == Some(e@),
        },
{
    let chars = chars_of(value);
    assert(value@.skip(0) =~= value@);
    for i in 0..chars.len()
        invariant
            chars@ == value@,
            dangerous_chars_error(value@, flag_name@) == dangerous_chars_error(
                value@.skip(i as int),
                flag_name@,
            ),
    {
        assert(value@.skip(i as int).drop_first() =~= value@.skip(i + 1));
        if is_control(chars[i]) {
            let mut text = flag_name.to_owned();
            text.append(" contains invalid control characters");
            return Err(GwsError::Validation(text));
        }
        if is_dangerous_unicode(chars[i]) {
            let mut text = flag_name.to_owned();
            text.append(" contains invalid Unicode characters");
            return Err(GwsError::Validation(text));
        }
    }
    Ok(())
}

/// What was found out about the output directory that the user names.
#[derive(Debug)]
pub struct DirectoryLookup {
    /// Whether the path is absolute.
    pub absolute: bool,
    /// The current directory, and the directory that the path leads to from there, with
    /// links and dots resolved; or why they could not be found.
    pub places: Result<(PathBuf, PathBuf), GwsError>,
}

/// What a [`DirectoryLookup`] says.
pub struct LookupView {
    pub absolute: bool,
    pub places: Result<(PathBuf, PathBuf), ErrorView>,
}

impl View for DirectoryLookup {
    type V = LookupView;

    open spec fn view(&self) -> LookupView {
        LookupView {
            absolute: self.absolute,
            places: match self.places {
                Ok(places) => Ok(places),
                Err(e) => Err(e@),
            },
        }
    }
}

/// The output directory that the user names by `raw`, or the first thing that is wrong
/// with it: it holds dangerous characters, it is absolute, it could not be found, or it
/// leads out of the current directory.
pub open spec fn safe_output_dir(raw: Seq<char>, lookup: LookupView) -> Result<PathBuf, ErrorView> {
    match dangerous_chars_error(raw, "--output-dir"@) {
        Some(error) => Err(error),
        None => if lookup.absolute {
            Err(
                ErrorView::Validation(
                    "--output-dir must be a relative path, got absolute path '"@ + raw + "'"@,
                ),
            )
        } else {
            match lookup.places {
                Err(error) => Err(error),
                Ok((workspace, resolved)) => if crate::paths::lies_under(resolved, workspace) {
                    Ok(resolved)
                } else {
                    Err(
                        ErrorView::Validation(
                            "--output-dir '"@ + raw + "' resolves to '"@
                                + crate::paths::path_text(resolved)
                                + "', which is outside the current directory"@,
                        ),
                    )
                },
            }
        },
    }
}

/// Accepts an output directory that is relative and stays in the current directory.
/// `lookup` is what was found out about the path `raw`.
pub fn validate_safe_output_dir(raw: &str, lookup: DirectoryLookup) -> (dir: Result<
    PathBuf,
    GwsError,
>)
    ensures
        match (dir, safe_output_dir(raw@, lookup@)) {
            (Ok(dir), Ok(expected)) => dir == expected,
            (Err(e), Err(expected)) => e@ == expected,
            _ => false,
        },
{
    match reject_dangerous_chars(raw, "--output-dir") {
        Ok(()) => {},
        Err(e) => {
            return Err(e);
        },
    }
    if lookup.absolute {
        let mut text = "--output-dir must be a relative path, got absolute path '".to_owned();
        text.append(raw);
        text.append("'");
        return Err(GwsError::Validation(text));
    }
    let (workspace, resolved) = match lookup.places {
        Ok(places) => places,
        Err(e) => {
            return Err(e);
        },
    };
    if !starts_with(&resolved, &workspace) {
        let mut text = "--output-dir '".to_owned();
        text.append(raw);
        text.append("' resolves to '");
        text.append(&display_path(&resolved));
        text.append("', which is outside the current directory");
        return Err(GwsError::Validation(text));
    }
    Ok(resolved)
}

} // verus!
