//! What the single operations promise, said of their inputs and results alone.
//!
//! The words that the statements are made of are defined here, by the characters
//! themselves and their numbers, and nothing else in the library is built on them.

use std::path::PathBuf;

use vstd::prelude::*;

use crate::cli::{ConfigView, DownloadAttachmentsConfig};
use crate::clap_items::ArgDefinition;
use crate::error::{ErrorView, GwsError};
use crate::parts::OriginalPart;
use crate::session::{Action, ActionView, DownloadAttachmentsResult, DownloadedAttachment};
use crate::validate::{DirectoryLookup, LookupView};
use crate::write::{OpenMode, WriteStep};

verus! {

/// A control code: the numbers below 32, and those from 127 to 159.
pub open spec fn control_code(c: char) -> bool {
    (c as int) < 32 || 127 <= (c as int) < 160
}

/// One of the characters that hide or reorder text: zero-width space and joiners, line
/// and paragraph separator, the directional embeddings, overrides and isolates, and the
/// byte order mark.
pub open spec fn hides_text(c: char) -> bool {
    ||| 0x200b <= c as int && c as int <= 0x200d
    ||| 0x2028 <= c as int && c as int <= 0x202e
    ||| 0x2066 <= c as int && c as int <= 0x2069
    ||| c as int == 0xfeff
}

/// One of the nine characters that file systems and shells give a meaning to.
pub open spec fn one_of_nine(c: char) -> bool {
    seq!['/', '\\', ':', '*', '?', '"', '<', '>', '|'].contains(c)
}

/// A character that is replaced in a file name.
pub open spec fn replaced(c: char) -> bool {
    control_code(c) || hides_text(c) || one_of_nine(c)
}

/// A character that Unicode counts as white space.
pub open spec fn white(c: char) -> bool {
    let n = c as int;
    ||| 9 <= n <= 13
    ||| n == 32 || n == 133 || n == 160 || n == 0x1680
    ||| 0x2000 <= n <= 0x200a
    ||| n == 0x2028 || n == 0x2029 || n == 0x202f || n == 0x205f || n == 0x3000
}

/// A text with an underscore for each character that is replaced.
pub open spec fn with_underscores(text: Seq<char>) -> Seq<char> {
    Seq::new(
        text.len(),
        |i: int|
            if replaced(text[i]) {
                '_'
            } else {
                text[i]
            },
    )
}

/// Nothing but spaces and dots.
pub open spec fn spaces_and_dots(text: Seq<char>) -> bool {
    forall|i: int| 0 <= i < text.len() ==> (#[trigger] text[i]) == ' ' || text[i] == '.'
}

/// Nothing but white space that a file name may hold.
pub open spec fn white_and_kept(text: Seq<char>) -> bool {
    forall|i: int| 0 <= i < text.len() ==> white(#[trigger] text[i]) && !replaced(text[i])
}

/// Whether a text holds something besides white space.
pub open spec fn says_something(text: Seq<char>) -> bool {
    exists|i: int| 0 <= i < text.len() && !white(#[trigger] text[i])
}

/// A character is a control code exactly if it is one of the 65 that Unicode lists.
pub proof fn control_codes_are_told(c: char)
    ensures
        crate::text::control(c) <==> control_code(c),
{
}

/// A character is white space exactly if it is one of the 25 that Unicode lists.
pub proof fn white_space_is_told(c: char)
    ensures
        crate::text::white_space(c) <==> white(c),
{
}

/// The characters that hide or reorder text are told from all others.
pub proof fn hiding_characters_are_told(c: char)
    ensures
        crate::validate::dangerous_unicode(c) <==> hides_text(c),
{
}

/// A character is invalid in a file name exactly if it is a control code, hides or
/// reorders text, or is one of `/`, `\`, `:`, `*`, `?`, `"`, `<`, `>` and `|`.
pub proof fn invalid_characters_are_told(c: char)
    ensures
        crate::filename::invalid_filename_char(c) <==> replaced(c),
        one_of_nine(c) <==> c == '/' || c == '\\' || c == ':' || c == '*' || c == '?' || c == '"'
            || c == '<' || c == '>' || c == '|',
{
    let nine = seq!['/', '\\', ':', '*', '?', '"', '<', '>', '|'];
    assert(nine[0] == '/' && nine[1] == '\\' && nine[2] == ':' && nine[3] == '*' && nine[4] == '?'
        && nine[5] == '"' && nine[6] == '<' && nine[7] == '>' && nine[8] == '|');
}

/// No letter, digit, space or other printable character of ASCII is invalid in a file
/// name, except the nine.
pub proof fn printable_characters_are_valid(c: char)
    requires
        ' ' <= c <= '~',
    ensures
        crate::filename::invalid_filename_char(c) ==> c == '/' || c == '\\' || c == ':' || c == '*'
            || c == '?' || c == '"' || c == '<' || c == '>' || c == '|',
        'a' <= c <= 'z' || 'A' <= c <= 'Z' || '0' <= c <= '9' || c == ' ' || c == '.' || c == '-' || c
            == '_' ==> !crate::filename::invalid_filename_char(c),
{
    invalid_characters_are_told(c);
}

proof fn lemma_words()
    ensures
        forall|c: char| #[trigger] crate::filename::invalid_filename_char(c) <==> replaced(c),
        forall|c: char| #[trigger] crate::text::white_space(c) <==> white(c),
{
    assert forall|c: char| #[trigger]
        crate::filename::invalid_filename_char(c) <==> replaced(c) by {
        invalid_characters_are_told(c);
    }
}

proof fn lemma_cleaned(text: Seq<char>)
    ensures
        crate::filename::cleaned(text) == with_underscores(text),
{
    lemma_words();
    assert(crate::filename::cleaned(text) =~= with_underscores(text));
}

/// Trimming takes away exactly what stands before and behind the first and the last
/// character that is not of the class.
pub proof fn trimming_leaves_the_core(
    before: Seq<char>,
    core: Seq<char>,
    behind: Seq<char>,
    class: spec_fn(char) -> bool,
)
    requires
        forall|i: int| 0 <= i < before.len() ==> class(#[trigger] before[i]),
        forall|i: int| 0 <= i < behind.len() ==> class(#[trigger] behind[i]),
        core.len() > 0 ==> !class(core.first()) && !class(core.last()),
    ensures
        crate::text::trimmed(before + core + behind, class) == core,
    decreases before.len() + behind.len(), behind.len(),
{
    let text = before + core + behind;
    if before.len() > 0 {
        let rest = before.drop_first();
        assert forall|i: int| 0 <= i < rest.len() implies class(#[trigger] rest[i]) by {
            assert(rest[i] == before[i + 1]);
        }
        trimming_leaves_the_core(rest, core, behind, class);
        assert(text.first() == before[0]);
        assert(text.drop_first() =~= rest + core + behind);
    } else if core.len() == 0 && behind.len() > 0 {
        assert(behind + core + before =~= text);
        trimming_leaves_the_core(behind, core, before, class);
    } else if behind.len() > 0 {
        let rest = behind.drop_last();
        assert forall|i: int| 0 <= i < rest.len() implies class(#[trigger] rest[i]) by {
            assert(rest[i] == behind[i]);
        }
        trimming_leaves_the_core(before, core, rest, class);
        assert(text.first() == core.first());
        assert(text.last() == behind.last());
        assert(text.drop_last() =~= before + core + rest);
        assert((before + core + rest).first() == core.first());
    } else {
        assert(text =~= core);
    }
}

/// A name in which something is said is cleaned in this way: the spaces and dots at its
/// ends go, then the white space at its ends, and in what is left each invalid character
/// becomes an underscore and every other character stays. Where that leaves `.` or `..`,
/// the fallback is taken.
pub proof fn names_are_cleaned(
    dots: Seq<char>,
    gap: Seq<char>,
    core: Seq<char>,
    last_gap: Seq<char>,
    last_dots: Seq<char>,
    fallback: Seq<char>,
)
    requires
        spaces_and_dots(dots),
        spaces_and_dots(last_dots),
        white_and_kept(gap),
        white_and_kept(last_gap),
        gap.len() > 0 ==> gap.first() != ' ',
        last_gap.len() > 0 ==> last_gap.last() != ' ',
        core.len() > 0,
        replaced(core.first()) || !white(core.first()),
        replaced(core.last()) || !white(core.last()),
        gap.len() == 0 ==> core.first() != '.',
        last_gap.len() == 0 ==> core.last() != '.',
        says_something(dots + gap + core + last_gap + last_dots),
    ensures
        crate::filename::sanitized(dots + gap + core + last_gap + last_dots, fallback) == if core
            == seq!['.'] || core == seq!['.', '.'] {
            fallback
        } else {
            with_underscores(core)
        },
{
    let raw = dots + gap + core + last_gap + last_dots;
    let middle = gap + core + last_gap;
    let kept = with_underscores(core);
    lemma_words();
    lemma_cleaned(raw);
    assert(!crate::filename::blank(raw)) by {
        let i = choose|i: int| 0 <= i < raw.len() && !white(#[trigger] raw[i]);
        assert(!crate::text::white_space(raw[i]));
    }
    assert(with_underscores(middle) =~= gap + kept + last_gap);
    assert(with_underscores(raw) =~= dots + (gap + kept + last_gap) + last_dots);
    trimming_leaves_the_core(
        dots,
        gap + kept + last_gap,
        last_dots,
        |c: char| crate::filename::dot_or_space(c),
    );
    trimming_leaves_the_core(gap, kept, last_gap, |c: char| crate::text::white_space(c));
    if core.len() == 1 && kept[0] == '.' {
        assert(core =~= seq!['.']);
    }
    if core.len() == 2 && kept[0] == '.' && kept[1] == '.' {
        assert(core =~= seq!['.', '.']);
    }
    if core == seq!['.'] || core == seq!['.', '.'] {
        assert(kept =~= core);
    }
}

/// A name that is nothing but spaces and dots, with white space between them, is not
/// used: the fallback is taken.
pub proof fn names_of_dots_are_not_used(
    dots: Seq<char>,
    gap: Seq<char>,
    last_dots: Seq<char>,
    fallback: Seq<char>,
)
    requires
        spaces_and_dots(dots),
        spaces_and_dots(last_dots),
        white_and_kept(gap),
        says_something(dots + gap + last_dots),
    ensures
        crate::filename::sanitized(dots + gap + last_dots, fallback) == fallback,
    decreases gap.len(),
{
    let raw = dots + gap + last_dots;
    lemma_words();
    lemma_cleaned(raw);
    if gap.len() > 0 && gap.first() == ' ' {
        assert((dots.push(' ') + gap.drop_first() + last_dots) =~= raw);
        names_of_dots_are_not_used(dots.push(' '), gap.drop_first(), last_dots, fallback);
    } else if gap.len() > 0 && gap.last() == ' ' {
        let moved = seq![' '] + last_dots;
        assert((dots + gap.drop_last() + moved) =~= raw);
        names_of_dots_are_not_used(dots, gap.drop_last(), moved, fallback);
    } else {
        let none = Seq::<char>::empty();
        assert(!crate::filename::blank(raw)) by {
            let i = choose|i: int| 0 <= i < raw.len() && !white(#[trigger] raw[i]);
            assert(!crate::text::white_space(raw[i]));
        }
        assert(with_underscores(raw) =~= raw);
        trimming_leaves_the_core(
            dots,
            gap,
            last_dots,
            |c: char| crate::filename::dot_or_space(c),
        );
        trimming_leaves_the_core(gap, none, none, |c: char| crate::text::white_space(c));
        assert(gap + none + none =~= gap);
    }
}

/// A part whose name is blank, or nothing but spaces and dots with white space between
/// them, gets the name made up for it.
pub proof fn empty_names_are_made_up(
    dots: Seq<char>,
    gap: Seq<char>,
    last_dots: Seq<char>,
    blank: Seq<char>,
    part_index: nat,
    mime_type: Seq<char>,
)
    requires
        spaces_and_dots(dots),
        spaces_and_dots(last_dots),
        white_and_kept(gap),
        !says_something(blank),
    ensures
        ({
            let made_up = crate::filename::synthesized_name(part_index, mime_type);
            &&& crate::filename::sanitized(dots + gap + last_dots, made_up) == made_up
            &&& crate::filename::sanitized(blank, made_up) == made_up
        }),
{
    let made_up = crate::filename::synthesized_name(part_index, mime_type);
    let raw = dots + gap + last_dots;
    lemma_blank(blank);
    crate::laws::blank_names_are_made_up(blank, part_index, mime_type);
    if says_something(raw) {
        names_of_dots_are_not_used(dots, gap, last_dots, made_up);
    } else {
        lemma_blank(raw);
        crate::laws::blank_names_are_made_up(raw, part_index, mime_type);
    }
}

proof fn lemma_blank(raw: Seq<char>)
    requires
        !says_something(raw),
    ensures
        crate::filename::blank(raw),
{
    lemma_words();
    assert forall|i: int| 0 <= i < raw.len() implies crate::text::white_space(
        #[trigger] raw[i],
    ) by {
        assert(white(raw[i]));
    }
}

/// A name of nothing but white space counts as no name: the fallback is cleaned instead.
pub proof fn blank_names_stand_for_the_fallback(raw: Seq<char>, fallback: Seq<char>)
    requires
        !says_something(raw),
    ensures
        crate::filename::sanitized(raw, fallback) == crate::filename::sanitized(fallback, fallback),
{
    lemma_blank(raw);
}

/// A name of printable characters other than the nine, with no space or dot at its ends,
/// is kept as it is.
pub proof fn ordinary_names_are_kept(name: Seq<char>, fallback: Seq<char>)
    requires
        name.len() > 0,
        forall|i: int|
            0 <= i < name.len() ==> ' ' <= (#[trigger] name[i]) <= '~' && name[i] != '/' && name[i]
                != '\\' && name[i] != ':' && name[i] != '*' && name[i] != '?' && name[i] != '"'
                && name[i] != '<' && name[i] != '>' && name[i] != '|',
        name.first() != ' ' && name.first() != '.',
        name.last() != ' ' && name.last() != '.',
    ensures
        crate::filename::sanitized(name, fallback) == name,
{
    let none = Seq::<char>::empty();
    assert forall|i: int| 0 <= i < name.len() implies !replaced(#[trigger] name[i]) by {
        invalid_characters_are_told(name[i]);
    }
    assert(none + none + name + none + none =~= name);
    assert(!white(name[0]));
    assert(with_underscores(name) =~= name);
    assert(!replaced(name[name.len() - 1]));
    assert(name != seq!['.'] && name != seq!['.', '.']) by {
        assert(name.first() != '.');
        assert(seq!['.'].first() == '.' && seq!['.', '.'].first() == '.');
    }
    names_are_cleaned(none, none, name, none, none, fallback);
}

/// A number is written with the ten digits: one digit for a number below ten, and one
/// digit more for ten times the number.
pub proof fn numbers_are_written_in_decimal(n: nat, d: nat)
    requires
        d < 10,
    ensures
        crate::text::decimal(d) == seq!["0123456789"@[d as int]],
        n > 0 ==> crate::text::decimal(10 * n + d) == crate::text::decimal(n).push(
            "0123456789"@[d as int],
        ),
{
    reveal_strlit("0123456789");
    assert("0123456789"@[d as int] == (48 + d) as char);
    assert((10 * n + d) / 10 == n && (10 * n + d) % 10 == d);
}

/// The number goes behind the stem of a name that has a stem and an extension.
pub proof fn numbers_go_before_the_extension(stem: Seq<char>, extension: Seq<char>, k: nat)
    requires
        stem.len() > 0,
        extension.len() > 0,
        !extension.contains('.'),
    ensures
        crate::filename::suffixed(stem + seq!['.'] + extension, k) == stem + seq!['-']
            + crate::text::decimal(k) + seq!['.'] + extension,
{
    let name = stem + seq!['.'] + extension;
    assert forall|i: int| stem.len() < i < name.len() implies name[i] != '.' by {
        assert(extension.contains(extension[i - stem.len() - 1]));
    }
    crate::laws::lemma_last_dot_is(name, stem.len() as int);
    assert(crate::filename::suffixed(name, k) =~= stem + seq!['-'] + crate::text::decimal(k) + seq![
        '.',
    ] + extension);
}

/// The number goes behind a name without an extension: one without a dot, with its only
/// dot in front, or with a dot at its end.
pub proof fn numbers_go_behind_other_names(name: Seq<char>, k: nat)
    requires
        !name.skip(1).contains('.') || name.len() > 0 && name.last() == '.',
    ensures
        crate::filename::suffixed(name, k) == name + seq!['-'] + crate::text::decimal(k),
{
    let at = crate::filename::last_dot(name);
    crate::filename::lemma_last_dot(name);
    if 0 < at < name.len() - 1 {
        assert(name.skip(1)[at - 1] == '.');
    }
    assert(crate::filename::suffixed(name, k) =~= name + seq!['-'] + crate::text::decimal(k));
}

/// Taking the number out of a numbered name again gives the name back.
pub proof fn numbers_can_be_taken_out(name: Seq<char>, k: nat) -> (at: int)
    ensures
        ({
            let numbered = crate::filename::suffixed(name, k);
            let added = seq!['-'] + crate::text::decimal(k);
            &&& 0 <= at <= name.len()
            &&& numbered.subrange(at, at + added.len()) == added
            &&& numbered.take(at) + numbered.skip(at + added.len()) == name
        }),
{
    let at = crate::filename::suffix_position(name);
    let numbered = crate::filename::suffixed(name, k);
    let added = seq!['-'] + crate::text::decimal(k);
    crate::filename::lemma_last_dot(name);
    assert(numbered.subrange(at, at + added.len()) =~= added);
    assert(numbered.take(at) + numbered.skip(at + added.len()) =~= name);
    at
}

/// A name that is free is given out as it is. One that is in use gets the least number,
/// from two on, with which it is free.
pub proof fn names_get_the_first_free_number(name: Seq<char>, used: Set<Seq<char>>) -> (k: nat)
    requires
        used.finite(),
    ensures
        !used.contains(name) ==> crate::filename::unique_name(name, used) == name,
        used.contains(name) ==> {
            &&& k >= 2
            &&& crate::filename::unique_name(name, used) == crate::filename::suffixed(name, k)
            &&& !used.contains(crate::filename::suffixed(name, k))
            &&& forall|j: nat|
                2 <= j < k ==> used.contains(#[trigger] crate::filename::suffixed(name, j))
        },
{
    if used.contains(name) {
        crate::laws::lemma_first_free_suffix(name, used, 2);
    }
    choose|k: nat| crate::filename::first_free_suffix(name, used, k)
}

/// A name is made up of the word `part`, the position of the part and the extension for
/// its type.
pub proof fn made_up_names_tell_position_and_type(part_index: nat, mime_type: Seq<char>)
    ensures
        ({
            let name = crate::filename::synthesized_name(part_index, mime_type);
            let front = "part-"@ + crate::text::decimal(part_index);
            &&& mime_type == "image/jpeg"@ ==> name == front + ".jpg"@
            &&& mime_type == "image/png"@ ==> name == front + ".png"@
            &&& mime_type == "image/gif"@ ==> name == front + ".gif"@
            &&& mime_type == "image/webp"@ ==> name == front + ".webp"@
            &&& mime_type == "image/svg+xml"@ ==> name == front + ".svg"@
            &&& mime_type == "application/pdf"@ ==> name == front + ".pdf"@
            &&& mime_type == "application/zip"@ ==> name == front + ".zip"@
            &&& mime_type == "text/plain"@ ==> name == front + ".txt"@
            &&& mime_type == "text/html"@ ==> name == front + ".html"@
            &&& mime_type == "text/csv"@ ==> name == front + ".csv"@
            &&& mime_type != "image/jpeg"@ && mime_type != "image/png"@ && mime_type
                != "image/gif"@ && mime_type != "image/webp"@ && mime_type != "image/svg+xml"@
                && mime_type != "application/pdf"@ && mime_type != "application/zip"@ && mime_type
                != "text/plain"@ && mime_type != "text/html"@ && mime_type != "text/csv"@ ==> name
                == front + ".bin"@
        }),
{
    let name = crate::filename::synthesized_name(part_index, mime_type);
    let front = "part-"@ + crate::text::decimal(part_index);
    reveal_strlit(".");
    lemma_types_differ();
    assert(name =~= front + ("."@ + crate::filename::extension(mime_type)));
    reveal_strlit("jpg");
    reveal_strlit(".jpg");
    assert("."@ + "jpg"@ =~= ".jpg"@);
    reveal_strlit("png");
    reveal_strlit(".png");
    assert("."@ + "png"@ =~= ".png"@);
    reveal_strlit("gif");
    reveal_strlit(".gif");
    assert("."@ + "gif"@ =~= ".gif"@);
    reveal_strlit("webp");
    reveal_strlit(".webp");
    assert("."@ + "webp"@ =~= ".webp"@);
    reveal_strlit("svg");
    reveal_strlit(".svg");
    assert("."@ + "svg"@ =~= ".svg"@);
    reveal_strlit("pdf");
    reveal_strlit(".pdf");
    assert("."@ + "pdf"@ =~= ".pdf"@);
    reveal_strlit("zip");
    reveal_strlit(".zip");
    assert("."@ + "zip"@ =~= ".zip"@);
    reveal_strlit("txt");
    reveal_strlit(".txt");
    assert("."@ + "txt"@ =~= ".txt"@);
    reveal_strlit("html");
    reveal_strlit(".html");
    assert("."@ + "html"@ =~= ".html"@);
    reveal_strlit("csv");
    reveal_strlit(".csv");
    assert("."@ + "csv"@ =~= ".csv"@);
    reveal_strlit("bin");
    reveal_strlit(".bin");
    assert("."@ + "bin"@ =~= ".bin"@);
}

proof fn lemma_types_differ()
    ensures
        forall|i: int, j: int|
            0 <= i < j < 10 ==> #[trigger] listed_types()[i] != #[trigger] listed_types()[j],
        listed_types() == seq![
            "image/jpeg"@,
            "image/png"@,
            "image/gif"@,
            "image/webp"@,
            "image/svg+xml"@,
            "application/pdf"@,
            "application/zip"@,
            "text/plain"@,
            "text/html"@,
            "text/csv"@,
        ],
        forall|i: int| 0 <= i < 10 ==> (#[trigger] listed_types()[i]).len() > 7,
{
    reveal_strlit("image/jpeg");
    reveal_strlit("image/png");
    reveal_strlit("image/gif");
    reveal_strlit("image/webp");
    reveal_strlit("image/svg+xml");
    reveal_strlit("application/pdf");
    reveal_strlit("application/zip");
    reveal_strlit("text/plain");
    reveal_strlit("text/html");
    reveal_strlit("text/csv");
    assert forall|i: int, j: int| 0 <= i < j < 10 implies #[trigger] listed_types()[i]
        != #[trigger] listed_types()[j] by {
        assert(listed_types()[i].len() != listed_types()[j].len() || listed_types()[i][6]
            != listed_types()[j][6] || listed_types()[i][7] != listed_types()[j][7]
            || listed_types()[i].last() != listed_types()[j].last());
    }
}

/// The types that have an extension of their own.
pub open spec fn listed_types() -> Seq<Seq<char>> {
    seq![
        "image/jpeg"@,
        "image/png"@,
        "image/gif"@,
        "image/webp"@,
        "image/svg+xml"@,
        "application/pdf"@,
        "application/zip"@,
        "text/plain"@,
        "text/html"@,
        "text/csv"@,
    ]
}

/// A part is inline exactly if it has a content id, whatever else it holds.
pub proof fn parts_with_a_content_id_are_inline(part: OriginalPart)
    ensures
        part.inline() <==> part.content_id is Some,
{
}

/// A list of chosen parts stands for its positions and parts.
pub proof fn chosen_parts_are_what_the_list_holds(parts: Seq<(usize, &OriginalPart)>, i: int)
    requires
        0 <= i < parts.len(),
    ensures
        crate::parts::chosen(parts).len() == parts.len(),
        crate::parts::chosen(parts)[i].0 == parts[i].0,
        crate::parts::chosen(parts)[i].1 == *parts[i].1,
{
}

/// Whether the part `i` of a message is to be downloaded: inline parts have a content id.
pub open spec fn wanted(parts: Seq<OriginalPart>, include_inline: bool, i: int) -> bool {
    0 <= i < parts.len() && (include_inline || parts[i].content_id is None)
}

/// The selection holds every part that has no content id, and those with one exactly if
/// they are asked for: each once, in the order of the message, with its position.
pub proof fn exactly_the_wanted_parts_are_selected(parts: Seq<OriginalPart>, include_inline: bool)
    ensures
        ({
            let selected = crate::parts::selection(parts, include_inline);
            &&& forall|n: int|
                0 <= n < selected.len() ==> wanted(
                    parts,
                    include_inline,
                    (#[trigger] selected[n]).0,
                ) && selected[n].1 == parts[selected[n].0]
            &&& forall|m: int, n: int|
                0 <= m < n < selected.len() ==> (#[trigger] selected[m]).0 < (
                #[trigger] selected[n]).0
            &&& forall|i: int|
                #[trigger] wanted(parts, include_inline, i) ==> selected.contains((i, parts[i]))
        }),
{
    let selected = crate::parts::selection(parts, include_inline);
    crate::laws::selection_keeps_order(parts, include_inline);
    assert forall|n: int| 0 <= n < selected.len() implies wanted(
        parts,
        include_inline,
        (#[trigger] selected[n]).0,
    ) && selected[n].1 == parts[selected[n].0] by {
        let i = selected[n].0;
        assert(selected.contains((i, parts[i])));
        crate::laws::part_is_selected_iff(parts, include_inline, i);
    }
    assert forall|i: int| #[trigger] wanted(parts, include_inline, i) implies selected.contains(
        (i, parts[i]),
    ) by {
        crate::laws::part_is_selected_iff(parts, include_inline, i);
    }
}

/// As many parts are skipped as have a content id, unless they are asked for. Said by
/// counting up: a message with one part more has one more skipped exactly if that part
/// has a content id.
pub proof fn skipped_parts_are_counted(parts: Seq<OriginalPart>, part: OriginalPart)
    ensures
        crate::parts::skipped_inline(parts, true) == 0,
        crate::parts::skipped_inline(Seq::<OriginalPart>::empty(), false) == 0,
        crate::parts::skipped_inline(parts.push(part), false) == crate::parts::skipped_inline(
            parts,
            false,
        ) + if part.content_id is Some {
            1nat
        } else {
            0nat
        },
{
    reveal(Seq::filter);
    assert(parts.push(part).drop_last() =~= parts);
}

/// Each chosen part gets, in turn, the name that the message gives it, cleaned, with a
/// number if a part before it has that name.
pub proof fn files_are_named_one_after_the_other(parts: Seq<(int, OriginalPart)>, i: int)
    requires
        0 <= i < parts.len(),
    ensures
        crate::plan::planned_names(parts).len() == parts.len(),
        crate::plan::planned_names(parts)[i] == crate::filename::unique_name(
            crate::filename::sanitized(
                parts[i].1.filename@,
                crate::filename::synthesized_name(parts[i].0 as nat, parts[i].1.content_type@),
            ),
            crate::plan::planned_names(parts).take(i).to_set(),
        ),
{
    let bases = parts.map_values(|entry: (int, OriginalPart)| crate::plan::base_name(entry));
    crate::laws::names_of_the_first_parts(bases, i);
    crate::laws::names_of_the_first_parts(bases, i + 1);
    let grown = bases.take(i + 1);
    assert(grown.drop_last() =~= bases.take(i));
    assert(crate::plan::names_given(grown)[i] == crate::plan::names_given(bases)[i]);
}

/// Every item of a plan tells of its part: the position, the part itself, the name, and
/// the place of that name in the directory.
pub proof fn plans_tell_of_their_parts(
    planned: Seq<crate::plan::PlannedAttachment>,
    parts: Seq<(int, OriginalPart)>,
    dir: PathBuf,
    i: int,
)
    requires
        crate::plan::is_plan(planned, parts, dir),
        0 <= i < parts.len(),
    ensures
        planned.len() == parts.len(),
        planned[i].original_index == parts[i].0,
        *planned[i].part == parts[i].1,
        planned[i].filename@ == crate::plan::planned_names(parts)[i],
        planned[i].path == crate::paths::joined(dir, planned[i].filename@),
        crate::plan::planned_paths(parts, dir)[i] == planned[i].path,
        crate::plan::targets(planned)[i] == planned[i].path,
        crate::plan::planned_paths(parts, dir).len() == parts.len(),
        crate::plan::targets(planned).len() == parts.len(),
{
    assert(crate::plan::planned_for(
        planned[i],
        parts[i],
        dir,
        crate::plan::planned_names(parts)[i],
    ));
}

/// A character that no value on the command line may hold.
pub open spec fn forbidden(c: char) -> bool {
    control_code(c) || hides_text(c)
}

/// A text without such characters.
pub open spec fn harmless(text: Seq<char>) -> bool {
    forall|i: int| 0 <= i < text.len() ==> !forbidden(#[trigger] text[i])
}

/// A value without forbidden characters is accepted.
pub proof fn harmless_values_are_accepted(value: Seq<char>, flag: Seq<char>)
    ensures
        crate::validate::dangerous_chars_error(value, flag) is None <==> harmless(value),
{
    crate::validate::accepted_iff_no_rejected_char(value, flag);
    if harmless(value) {
        assert forall|i: int| 0 <= i < value.len() implies !crate::validate::rejected_char(
            #[trigger] value[i],
        ) by {
            assert(!forbidden(value[i]));
        }
    }
    if crate::validate::dangerous_chars_error(value, flag) is None {
        assert forall|i: int| 0 <= i < value.len() implies !forbidden(#[trigger] value[i]) by {
            assert(!crate::validate::rejected_char(value[i]));
        }
    }
}

/// A value with a forbidden character is refused for the first of them, whatever follows:
/// the error names the flag, and tells control codes from the others.
pub proof fn the_first_forbidden_character_decides(
    before: Seq<char>,
    c: char,
    behind: Seq<char>,
    flag: Seq<char>,
)
    requires
        harmless(before),
        forbidden(c),
    ensures
        crate::validate::dangerous_chars_error(before + seq![c] + behind, flag) == Some(
            ErrorView::Validation(
                flag + if control_code(c) {
                    " contains invalid control characters"@
                } else {
                    " contains invalid Unicode characters"@
                },
            ),
        ),
    decreases before.len(),
{
    let value = before + seq![c] + behind;
    if before.len() > 0 {
        let rest = before.drop_first();
        assert forall|i: int| 0 <= i < rest.len() implies !forbidden(#[trigger] rest[i]) by {
            assert(rest[i] == before[i + 1]);
        }
        the_first_forbidden_character_decides(rest, c, behind, flag);
        assert(value.drop_first() =~= rest + seq![c] + behind);
        assert(value.first() == before[0]);
        assert(!forbidden(before[0]));
    } else {
        assert(value.first() == c);
    }
}

/// A path lies in a directory exactly if it goes on where the directory ends.
pub proof fn lying_in_a_directory_is_going_on(path: PathBuf, base: PathBuf)
    ensures
        crate::paths::lies_under(path, base) <==> exists|rest: Seq<Seq<u8>>|
            crate::paths::path_components(path) == #[trigger] (crate::paths::path_components(base)
                + rest),
{
    let whole = crate::paths::path_components(path);
    let first = crate::paths::path_components(base);
    if crate::paths::lies_under(path, base) {
        let rest = whole.skip(first.len() as int);
        assert(whole =~= first + rest);
    }
    if exists|rest: Seq<Seq<u8>>| whole == #[trigger] (first + rest) {
        let rest = choose|rest: Seq<Seq<u8>>| whole == #[trigger] (first + rest);
        assert(whole.subrange(0, first.len() as int) =~= first);
    }
}

/// Whether the components of `base` come first in those of `path`.
pub open spec fn goes_on_from(path: PathBuf, base: PathBuf) -> bool {
    let whole = crate::paths::path_components(path);
    let first = crate::paths::path_components(base);
    first.len() <= whole.len() && whole.take(first.len() as int) == first
}

proof fn lemma_goes_on_from(path: PathBuf, base: PathBuf)
    ensures
        crate::paths::lies_under(path, base) <==> goes_on_from(path, base),
{
    let whole = crate::paths::path_components(path);
    let first = crate::paths::path_components(base);
    if first.len() <= whole.len() {
        assert(whole.take(first.len() as int) =~= whole.subrange(0, first.len() as int));
    }
}

/// An output directory is accepted exactly if its name is harmless and relative, it was
/// found, and it lies in the current directory; and then it is the place that was found.
pub proof fn output_directories_are_judged(raw: Seq<char>, lookup: LookupView)
    ensures
        ({
            let dir = crate::validate::safe_output_dir(raw, lookup);
            &&& dir is Ok <==> harmless(raw) && !lookup.absolute && lookup.places is Ok
                && goes_on_from((lookup.places->Ok_0).1, (lookup.places->Ok_0).0)
            &&& dir is Ok ==> dir->Ok_0 == (lookup.places->Ok_0).1
            &&& harmless(raw) && lookup.absolute ==> dir == Err::<PathBuf, ErrorView>(
                ErrorView::Validation(
                    "--output-dir must be a relative path, got absolute path '"@ + raw + "'"@,
                ),
            )
            &&& harmless(raw) && !lookup.absolute && lookup.places is Err ==> dir
                == Err::<PathBuf, ErrorView>(lookup.places->Err_0)
            &&& harmless(raw) && !lookup.absolute && lookup.places is Ok && !goes_on_from(
                (lookup.places->Ok_0).1,
                (lookup.places->Ok_0).0,
            ) ==> dir == Err::<PathBuf, ErrorView>(
                ErrorView::Validation(
                    "--output-dir '"@ + raw + "' resolves to '"@ + crate::paths::path_text(
                        (lookup.places->Ok_0).1,
                    ) + "', which is outside the current directory"@,
                ),
            )
            &&& !harmless(raw) ==> dir is Err && Some(dir->Err_0)
                == crate::validate::dangerous_chars_error(raw, "--output-dir"@)
        }),
{
    harmless_values_are_accepted(raw, "--output-dir"@);
    if lookup.places is Ok {
        lemma_goes_on_from((lookup.places->Ok_0).1, (lookup.places->Ok_0).0);
    }
}

/// A place is acceptable exactly if it lies in the output directory and is free or to be
/// overwritten; the error says which of the two is wrong, and names the place.
pub proof fn targets_are_judged(dir: PathBuf, path: PathBuf, present: bool, overwrite: bool)
    ensures
        ({
            let error = crate::plan::target_error(dir, path, present, overwrite);
            &&& error is None <==> goes_on_from(path, dir) && !(present && !overwrite)
            &&& !goes_on_from(path, dir) ==> error == Some(
                ErrorView::Validation(
                    "Attachment target '"@ + crate::paths::path_text(path)
                        + "' escapes --output-dir '"@ + crate::paths::path_text(dir) + "'"@,
                ),
            )
            &&& goes_on_from(path, dir) && present && !overwrite ==> error == Some(
                ErrorView::Validation(
                    "Refusing to overwrite existing file '"@ + crate::paths::path_text(path)
                        + "'; pass --overwrite to replace it"@,
                ),
            )
        }),
{
    lemma_goes_on_from(path, dir);
}

/// Of several places, the first that is not acceptable is refused; if there is none, all
/// are accepted.
pub proof fn the_first_bad_target_decides(
    dir: PathBuf,
    paths: Seq<PathBuf>,
    present: Seq<bool>,
    overwrite: bool,
    n: int,
)
    requires
        present.len() == paths.len(),
        0 <= n <= paths.len(),
        forall|i: int|
            0 <= i < n ==> goes_on_from(#[trigger] paths[i], dir) && !(present[i] && !overwrite),
        n < paths.len() ==> !goes_on_from(paths[n], dir) || present[n] && !overwrite,
    ensures
        crate::plan::first_target_error(dir, paths, present, overwrite) == if n == paths.len() {
            None
        } else {
            crate::plan::target_error(dir, paths[n], present[n], overwrite)
        },
        n < paths.len() ==> crate::plan::first_target_error(dir, paths, present, overwrite) is Some,
    decreases n,
{
    if paths.len() > 0 {
        targets_are_judged(dir, paths[0], present[0], overwrite);
        if n > 0 {
            let rest = paths.drop_first();
            let flags = present.drop_first();
            assert forall|i: int| 0 <= i < n - 1 implies goes_on_from(#[trigger] rest[i], dir) by {
                assert(rest[i] == paths[i + 1]);
            }
            assert forall|i: int| 0 <= i < n - 1 implies !(#[trigger] flags[i] && !overwrite) by {
                assert(goes_on_from(paths[i + 1], dir));
                assert(flags[i] == present[i + 1]);
            }
            assert(goes_on_from(paths[0], dir));
            the_first_bad_target_decides(dir, rest, flags, overwrite, n - 1);
        }
    }
}

/// A request is accepted exactly if all its arguments are defined, the message id is
/// harmless, and the output directory is acceptable; and then each field is the value of
/// its own argument, and of no other.
pub proof fn requests_say_what_the_arguments_say(
    matches: clap::ArgMatches,
    lookup: LookupView,
    config: ConfigView,
)
    ensures
        crate::cli::requested(matches, lookup) == Some(Ok::<ConfigView, ErrorView>(config)) <==> ({
            let texts = crate::clap_items::text_arguments(matches);
            let flags = crate::clap_items::flag_arguments(matches);
            &&& texts.contains_pair("id"@, Some(config.message_id))
            &&& harmless(config.message_id)
            &&& texts.contains_key("output-dir"@) && texts["output-dir"@] is Some
            &&& harmless(texts["output-dir"@]->0)
            &&& !lookup.absolute
            &&& lookup.places is Ok
            &&& goes_on_from((lookup.places->Ok_0).1, (lookup.places->Ok_0).0)
            &&& config.output_dir == (lookup.places->Ok_0).1
            &&& flags.contains_pair("include-inline"@, Some(config.include_inline))
            &&& flags.contains_pair("overwrite"@, Some(config.overwrite))
            &&& flags.contains_pair("dry-run"@, Some(config.dry_run))
        }),
{
    let texts = crate::clap_items::text_arguments(matches);
    if texts.contains_key("id"@) && texts["id"@] is Some {
        harmless_values_are_accepted(texts["id"@]->0, "--id"@);
    }
    if texts.contains_key("output-dir"@) && texts["output-dir"@] is Some {
        output_directories_are_judged(texts["output-dir"@]->0, lookup);
    }
}

/// A request is refused for the first thing that is wrong with it: the message id is
/// missing, or not harmless, or the output directory is missing, or not acceptable. A
/// refusal has no other reason.
pub proof fn requests_are_refused_for_a_reason(matches: clap::ArgMatches, lookup: LookupView)
    ensures
        ({
            let texts = crate::clap_items::text_arguments(matches);
            let request = crate::cli::requested(matches, lookup);
            let id = texts["id"@];
            let raw = texts["output-dir"@];
            let judged = crate::validate::safe_output_dir(raw->0, lookup);
            let id_known = texts.contains_key("id"@);
            let dir_known = texts.contains_key("output-dir"@);
            let id_good = id_known && id is Some && harmless(id->0);
            &&& id_known && id is None ==> request == Some(
                Err::<ConfigView, ErrorView>(
                    ErrorView::Validation("--id is required for +download-attachments"@),
                ),
            )
            &&& id_known && id is Some && !harmless(id->0) ==> (request matches Some(Err(e)) && Some(
                e,
            ) == crate::validate::dangerous_chars_error(id->0, "--id"@))
            &&& id_good && dir_known && raw is None ==> request == Some(
                Err::<ConfigView, ErrorView>(
                    ErrorView::Validation("--output-dir is required for +download-attachments"@),
                ),
            )
            &&& id_good && dir_known && raw is Some && judged is Err ==> request == Some(
                Err::<ConfigView, ErrorView>(judged->Err_0),
            )
            &&& request matches Some(Err(_)) ==> id_known && (id is None || !harmless(id->0)
                || dir_known && (raw is None || judged is Err))
        }),
{
    let texts = crate::clap_items::text_arguments(matches);
    if texts.contains_key("id"@) && texts["id"@] is Some {
        harmless_values_are_accepted(texts["id"@]->0, "--id"@);
    }
}

/// The command is called `+download-attachments`, or `+attachments`, and takes a message
/// id and an output directory, both required, and two flags.
pub proof fn the_command_takes_these_arguments()
    ensures
        ({
            let command = crate::cli::download_command();
            &&& command.name == "+download-attachments"@
            &&& command.aliases == seq!["+attachments"@]
            &&& command.about == Some("[Helper] Download attachments from a Gmail message"@)
            &&& command.args.len() == 4
            &&& command.args[0] == (ArgDefinition {
                id: "id"@,
                long: Some("id"@),
                aliases: seq!["message-id"@],
                required: true,
                help: Some("The Gmail message ID to download attachments from"@),
                value_names: seq!["ID"@],
                set_true: false,
            })
            &&& command.args[1] == (ArgDefinition {
                id: "output-dir"@,
                long: Some("output-dir"@),
                aliases: Seq::empty(),
                required: true,
                help: Some("Relative directory under the current workspace where files are saved"@),
                value_names: seq!["DIR"@],
                set_true: false,
            })
            &&& command.args[2] == (ArgDefinition {
                id: "include-inline"@,
                long: Some("include-inline"@),
                aliases: Seq::empty(),
                required: false,
                help: Some("Also download inline MIME parts, such as embedded images"@),
                value_names: Seq::empty(),
                set_true: true,
            })
            &&& command.args[3] == (ArgDefinition {
                id: "overwrite"@,
                long: Some("overwrite"@),
                aliases: Seq::empty(),
                required: false,
                help: Some("Overwrite existing files with the same sanitized attachment filename"@),
                value_names: Seq::empty(),
                set_true: true,
            })
            &&& command.after_help == Some(
                "\
EXAMPLES:
  gws gmail +download-attachments --id 18f1a2b3c4d --output-dir ./downloads/gmail
  gws gmail +download-attachments --message-id 18f1a2b3c4d --output-dir ./downloads/gmail --include-inline

TIPS:
  Writes only under a validated relative --output-dir.
  Regular file attachments are downloaded by default; inline images are skipped unless --include-inline is set.
  Existing files are not overwritten unless --overwrite is set.
  Output is JSON with exact saved paths and attachment metadata."@,
            )
        }),
{
}

/// A file is opened for writing only: created or emptied if files are to be overwritten,
/// else created where there is none.
pub proof fn files_are_opened_so()
    ensures
        crate::write::mode_for(true) == (OpenMode {
            write: true,
            create: true,
            truncate: true,
            create_new: false,
        }),
        crate::write::mode_for(false) == (OpenMode {
            write: true,
            create: false,
            truncate: false,
            create_new: true,
        }),
{
}

/// What is said of a file that could not be written tells the step, the place and the
/// cause.
pub proof fn failures_to_write_are_told(path: Seq<char>, cause: Seq<char>)
    ensures
        crate::write::write_failure_error(WriteStep::Create, path, cause) == ErrorView::Validation(
            "Failed to create attachment file '"@ + path + "': "@ + cause,
        ),
        crate::write::write_failure_error(WriteStep::Write, path, cause) == ErrorView::Validation(
            "Failed to write attachment file '"@ + path + "': "@ + cause,
        ),
        crate::write::write_failure_error(WriteStep::Sync, path, cause) == ErrorView::Validation(
            "Failed to sync attachment file '"@ + path + "': "@ + cause,
        ),
{
    reveal_strlit("Failed to ");
    reveal_strlit("create");
    reveal_strlit("write");
    reveal_strlit("sync");
    reveal_strlit(" attachment file '");
    reveal_strlit("Failed to create attachment file '");
    reveal_strlit("Failed to write attachment file '");
    reveal_strlit("Failed to sync attachment file '");
    assert("Failed to "@ + "create"@ + " attachment file '"@
        =~= "Failed to create attachment file '"@);
    assert("Failed to "@ + "write"@ + " attachment file '"@ =~= "Failed to write attachment file '"@);
    assert("Failed to "@ + "sync"@ + " attachment file '"@ =~= "Failed to sync attachment file '"@);
}

/// An error says its text, and of which kind it is.
pub proof fn errors_say_their_text(error: GwsError)
    ensures
        match error {
            GwsError::Validation(text) => error@ == ErrorView::Validation(text@) && error@.text()
                == text@,
            GwsError::Auth(text) => error@ == ErrorView::Auth(text@) && error@.text() == text@,
            GwsError::Other(text) => error@ == ErrorView::Other(text@) && error@.text() == text@,
        },
{
}

/// What is said of a request is what its fields hold.
pub proof fn requests_are_seen_as_they_are(config: DownloadAttachmentsConfig)
    ensures
        config@.message_id == config.message_id@,
        config@.output_dir == config.output_dir,
        config@.include_inline == config.include_inline,
        config@.overwrite == config.overwrite,
        config@.dry_run == config.dry_run,
{
}

/// What is said of a looked-up directory is what its fields hold.
pub proof fn lookups_are_seen_as_they_are(lookup: DirectoryLookup)
    ensures
        lookup@.absolute == lookup.absolute,
        lookup.places matches Ok(places) ==> lookup@.places == Ok::<(PathBuf, PathBuf), ErrorView>(
            places,
        ),
        lookup.places matches Err(e) ==> lookup@.places == Err::<(PathBuf, PathBuf), ErrorView>(e@),
{
}

/// What is said of a downloaded attachment is what its fields hold.
pub proof fn records_are_seen_as_they_are(record: DownloadedAttachment)
    ensures
        record@.part_index == record.part_index,
        record@.filename == record.filename@,
        record@.path == record.path@,
        record@.mime_type == record.mime_type@,
        record@.size_bytes == record.size_bytes,
        record@.attachment_id == record.attachment_id@,
        record@.inline == record.inline,
        record.content_id matches Some(id) ==> record@.content_id == Some(id@),
        record.content_id is None ==> record@.content_id is None,
{
}

/// What is reported of a planned attachment is what its plan and its part hold, and the
/// size that was written.
pub proof fn records_tell_of_the_item(item: crate::plan::PlannedAttachment, size: int)
    ensures
        ({
            let record = crate::session::record_of(item, size);
            &&& record.part_index == item.original_index
            &&& record.filename == item.filename@
            &&& record.path == crate::paths::path_text(item.path)
            &&& record.mime_type == item.part.content_type@
            &&& record.size_bytes == size
            &&& record.attachment_id == item.part.attachment_id@
            &&& record.inline == (item.part.content_id is Some)
            &&& item.part.content_id is None ==> record.content_id is None
            &&& item.part.content_id matches Some(id) ==> record.content_id == Some(id@)
        }),
{
}

/// What is said of an outcome is what its fields hold.
pub proof fn outcomes_are_seen_as_they_are(outcome: DownloadAttachmentsResult)
    ensures
        outcome@.message_id == outcome.message_id@,
        outcome@.output_dir == outcome.output_dir@,
        outcome@.dry_run == outcome.dry_run,
        outcome@.downloaded_count == outcome.downloaded_count,
        outcome@.skipped_inline_count == outcome.skipped_inline_count,
        outcome@.attachments.len() == outcome.attachments@.len(),
        forall|i: int|
            0 <= i < outcome.attachments@.len() ==> (#[trigger] outcome@.attachments[i])
                == outcome.attachments@[i]@,
{
}

/// What is said of an action is what it holds.
pub proof fn actions_are_seen_as_they_are(action: Action)
    ensures
        match action {
            Action::Authorize { scope } => action@ == ActionView::Authorize { scope: scope@ },
            Action::BuildClient => action@ == ActionView::BuildClient,
            Action::FetchMessage { message_id } => action@ == ActionView::FetchMessage {
                message_id: message_id@,
            },
            Action::ProbeTargets { paths } => action@ == ActionView::ProbeTargets { paths: paths@ },
            Action::CreateDirectory { path } => action@ == ActionView::CreateDirectory { path },
            Action::FetchAttachment { message_id, attachment_id } => action@
                == ActionView::FetchAttachment {
                message_id: message_id@,
                attachment_id: attachment_id@,
            },
            Action::WriteFile { path, data, overwrite } => action@ == ActionView::WriteFile {
                path,
                data: data@,
                overwrite,
            },
            Action::Report(report) => action@ == ActionView::Report(report@),
            Action::Fail(error) => action@ == ActionView::Fail(error@),
        },
{
}

} // verus!
