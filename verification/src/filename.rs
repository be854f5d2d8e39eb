//! File names for attachments: cleaned of what a file system, a terminal or a path
//! could trip over, and told apart where two attachments share a name.

use vstd::prelude::*;

use crate::text::{chars_of, is_control, is_white_space, push_chars, push_decimal, text_of, trim_chars};
use crate::validate::is_dangerous_unicode;

verus! {

/// A character with a meaning in paths or in shells.
pub open spec fn reserved_char(c: char) -> bool {
    c == '/' || c == '\\' || c == ':' || c == '*' || c == '?' || c == '"' || c == '<' || c == '>'
        || c == '|'
}

/// A character that no file name keeps.
pub open spec fn invalid_filename_char(c: char) -> bool {
    crate::text::control(c) || crate::validate::dangerous_unicode(c) || reserved_char(c)
}

/// Whether no file name keeps `ch`.
pub fn is_invalid_filename_char(ch: char) -> (yes: bool)
    ensures
        yes == invalid_filename_char(ch),
{
    is_control(ch) || is_dangerous_unicode(ch) || matches!(
        ch,
        '/' | '\\' | ':' | '*' | '?' | '"' | '<' | '>' | '|'
    )
}

/// The extension that files of a MIME type usually have; `bin` for a type not listed.
pub open spec fn extension(mime_type: Seq<char>) -> Seq<char> {
    if mime_type == "image/jpeg"@ {
        "jpg"@
    } else if mime_type == "image/png"@ {
        "png"@
    } else if mime_type == "image/gif"@ {
        "gif"@
    } else if mime_type == "image/webp"@ {
        "webp"@
    } else if mime_type == "image/svg+xml"@ {
        "svg"@
    } else if mime_type == "application/pdf"@ {
        "pdf"@
    } else if mime_type == "application/zip"@ {
        "zip"@
    } else if mime_type == "text/plain"@ {
        "txt"@
    } else if mime_type == "text/html"@ {
        "html"@
    } else if mime_type == "text/csv"@ {
        "csv"@
    } else {
        "bin"@
    }
}

/// The name of a part that has none of its own: `part-2.jpg`.
pub open spec fn synthesized_name(part_index: nat, mime_type: Seq<char>) -> Seq<char> {
    "part-"@ + crate::text::decimal(part_index) + "."@ + extension(mime_type)
}

fn extension_of(mime_type: &str) -> (text: &'static str)
    ensures
        text@ == extension(mime_type@),
{
    let mime = mime_type.to_owned();
    if mime == "image/jpeg".to_owned() {
        "jpg"
    } else if mime == "image/png".to_owned() {
        "png"
    } else if mime == "image/gif".to_owned() {
        "gif"
    } else if mime == "image/webp".to_owned() {
        "webp"
    } else if mime == "image/svg+xml".to_owned() {
        "svg"
    } else if mime == "application/pdf".to_owned() {
        "pdf"
    } else if mime == "application/zip".to_owned() {
        "zip"
    } else if mime == "text/plain".to_owned() {
        "txt"
    } else if mime == "text/html".to_owned() {
        "html"
    } else if mime == "text/csv".to_owned() {
        "csv"
    } else {
        "bin"
    }
}

/// Makes a name for a part that has none of its own, from its position in the message
/// and its MIME type.
pub fn synthesize_filename(part_index: usize, mime_type: &str) -> (name: String)
    ensures
        name@ == synthesized_name(part_index as nat, mime_type@),
{
    let mut name = "part-".to_owned();
    push_decimal(&mut name, part_index);
    name.append(".");
    name.append(extension_of(mime_type));
    name
}

/// `raw` with an underscore in the place of each invalid character.
pub open spec fn cleaned(raw: Seq<char>) -> Seq<char> {
    raw.map_values(
        |c: char|
            if invalid_filename_char(c) {
                '_'
            } else {
                c
            },
    )
}

/// Nothing but white space.
pub open spec fn blank(text: Seq<char>) -> bool {
    forall|i: int| 0 <= i < text.len() ==> crate::text::white_space(#[trigger] text[i])
}

pub open spec fn dot_or_space(c: char) -> bool {
    c == ' ' || c == '.'
}

/// What is left of `source` when its invalid characters are replaced and the dots,
/// spaces and white space at its ends are gone.
pub open spec fn cleaned_name(source: Seq<char>) -> Seq<char> {
    crate::text::trimmed(
        crate::text::trimmed(cleaned(source), |c: char| dot_or_space(c)),
        |c: char| crate::text::white_space(c),
    )
}

/// An empty name, or one that stands for a directory.
pub open spec fn unusable_name(name: Seq<char>) -> bool {
    name.len() == 0 || name == seq!['.'] || name == seq!['.', '.']
}

/// The file name made from `raw`: `raw` cleaned, or `fallback` where `raw` is blank or
/// nothing usable is left of it.
pub open spec fn sanitized(raw: Seq<char>, fallback: Seq<char>) -> Seq<char> {
    let name = cleaned_name(
        if blank(raw) {
            fallback
        } else {
            raw
        },
    );
    if unusable_name(name) {
        fallback
    } else {
        name
    }
}

fn is_dot_or_space(c: char) -> (yes: bool)
    ensures
        yes == dot_or_space(c),
{
    c == ' ' || c == '.'
}

fn is_blank(chars: &[char]) -> (yes: bool)
    ensures
        yes == blank(chars@),
{
    for i in 0..chars.len()
        invariant
            forall|j: int| 0 <= j < i ==> crate::text::white_space(#[trigger] chars@[j]),
    {
        if !is_white_space(chars[i]) {
            assert(!crate::text::white_space(chars@[i as int]));
            return false;
        }
    }
    true
}

/// Makes a file name from `raw`; `fallback` is the name to take where `raw` gives none.
pub fn sanitize_with_fallback(raw: &str, fallback: String) -> (name: String)
    ensures
        name@ == sanitized(raw@, fallback@),
{
    let raw_chars = chars_of(raw);
    let source = if is_blank(&raw_chars) {
        chars_of(&fallback)
    } else {
        raw_chars
    };
    let mut cleaned_chars: Vec<char> = Vec::new();
    for i in 0..source.len()
        invariant
            cleaned_chars@ == cleaned(source@).take(i as int),
    {
        if is_invalid_filename_char(source[i]) {
            cleaned_chars.push('_');
        } else {
            cleaned_chars.push(source[i]);
        }
        assert(cleaned_chars@ =~= cleaned(source@).take(i + 1));
    }
    assert(cleaned_chars@ =~= cleaned(source@));
    let inner = trim_chars(&cleaned_chars, is_dot_or_space, Ghost(|c: char| dot_or_space(c)));
    let kept = trim_chars(
        &inner,
        is_white_space,
        Ghost(|c: char| crate::text::white_space(c)),
    );
    assert(kept@ == cleaned_name(source@));
    let unusable = kept.len() == 0 || (kept.len() == 1 && kept[0] == '.') || (kept.len() == 2
        && kept[0] == '.' && kept[1] == '.');
    assert(unusable == unusable_name(kept@)) by {
        if kept@.len() == 1 && kept@[0] == '.' {
            assert(kept@ =~= seq!['.']);
        }
        if kept@.len() == 2 && kept@[0] == '.' && kept@[1] == '.' {
            assert(kept@ =~= seq!['.', '.']);
        }
    }
    if unusable {
        fallback
    } else {
        text_of(&kept)
    }
}

/// Makes the file name for the part `part_index` of a message from the name `raw` that
/// the message gives it.
pub fn sanitize_download_filename(raw: &str, part_index: usize, mime_type: &str) -> (name: String)
    ensures
        name@ == sanitized(raw@, synthesized_name(part_index as nat, mime_type@)),
{
    sanitize_with_fallback(raw, synthesize_filename(part_index, mime_type))
}

/// The position of the last dot in `name`, or `-1`.
pub open spec fn last_dot(name: Seq<char>) -> int
    decreases name.len(),
{
    if name.len() == 0 {
        -1
    } else if name.last() == '.' {
        name.len() - 1
    } else {
        last_dot(name.drop_last())
    }
}

/// Where the number goes into `name`: before the last dot if there is something on
/// both sides of it, else at the end.
pub open spec fn suffix_position(name: Seq<char>) -> int {
    if 0 < last_dot(name) < name.len() - 1 {
        last_dot(name)
    } else {
        name.len() as int
    }
}

/// `name` with the number `k` in it.
pub open spec fn suffixed(name: Seq<char>, k: nat) -> Seq<char> {
    let at = suffix_position(name);
    name.take(at) + seq!['-'] + crate::text::decimal(k) + name.skip(at)
}

pub(crate) proof fn lemma_last_dot(name: Seq<char>)
    ensures
        -1 <= last_dot(name) < name.len(),
        last_dot(name) >= 0 ==> name[last_dot(name)] == '.',
        forall|j: int| last_dot(name) < j < name.len() ==> name[j] != '.',
    decreases name.len(),
{
    if name.len() > 0 && name.last() != '.' {
        lemma_last_dot(name.drop_last());
        assert forall|j: int| last_dot(name) < j < name.len() implies name[j] != '.' by {
            if j < name.len() - 1 {
                assert(name.drop_last()[j] == name[j]);
            }
        }
    }
}

/// Finds where the number goes in a name.
fn find_suffix_position(chars: &[char]) -> (at: usize)
    ensures
        at == suffix_position(chars@),
        at <= chars@.len(),
{
    let mut end: usize = chars.len();
    assert(chars@.take(end as int) =~= chars@);
    while end > 0 && chars[end - 1] != '.'
        invariant
            end <= chars.len(),
            last_dot(chars@) == last_dot(chars@.take(end as int)),
        decreases end,
    {
        assert(chars@.take(end as int).drop_last() =~= chars@.take(end - 1));
        end = end - 1;
    }
    proof {
        lemma_last_dot(chars@);
    }
    if end > 1 && end < chars.len() {
        end - 1
    } else {
        chars.len()
    }
}

/// Puts a number into a file name, before its extension.
#[verifier::spinoff_prover]
pub fn append_filename_suffix(base_name: &str, suffix: usize) -> (name: String)
    ensures
        name@ == suffixed(base_name@, suffix as nat),
{
    let chars = chars_of(base_name);
    let at = find_suffix_position(&chars);
    let mut name = String::new();
    push_chars(&mut name, &chars, 0, at);
    assert(name@ =~= base_name@.take(at as int));
    name.push('-');
    push_decimal(&mut name, suffix);
    let ghost front = name@;
    push_chars(&mut name, &chars, at, chars.len());
    proof {
        let number = crate::text::decimal(suffix as nat);
        assert(front =~= base_name@.take(at as int) + seq!['-'] + number);
        assert(chars@.subrange(at as int, chars@.len() as int) =~= base_name@.skip(at as int));
    }
    name
}

/// Two numbers never give the same name.
pub proof fn suffixed_is_injective(name: Seq<char>, j: nat, k: nat)
    requires
        suffixed(name, j) == suffixed(name, k),
    ensures
        j == k,
{
    lemma_last_dot(name);
    let at = suffix_position(name);
    let first = crate::text::decimal(j);
    let second = crate::text::decimal(k);
    let whole = suffixed(name, j);
    assert(whole.len() == name.len() + 1 + first.len());
    assert(suffixed(name, k).len() == name.len() + 1 + second.len());
    assert(first =~= whole.subrange(at + 1, at + 1 + first.len()));
    assert(second =~= suffixed(name, k).subrange(at + 1, at + 1 + second.len()));
    crate::text::decimal_reads_back(j);
    crate::text::decimal_reads_back(k);
}

/// A numbered name is longer than the name it was made from, and so never equal to it.
pub proof fn suffixed_is_longer(name: Seq<char>, k: nat)
    ensures
        suffixed(name, k).len() > name.len(),
{
    lemma_last_dot(name);
    crate::text::decimal_reads_back(k);
}

/// The number `k` is the first, from two on, whose name is not in `used`.
pub open spec fn first_free_suffix(name: Seq<char>, used: Set<Seq<char>>, k: nat) -> bool {
    &&& k >= 2
    &&& !used.contains(suffixed(name, k))
    &&& forall|j: nat| 2 <= j < k ==> used.contains(#[trigger] suffixed(name, j))
}

/// `name` itself if it is not in `used`, else `name` with the first free number.
pub open spec fn unique_name(name: Seq<char>, used: Set<Seq<char>>) -> Seq<char> {
    if used.contains(name) {
        suffixed(name, choose|k: nat| first_free_suffix(name, used, k))
    } else {
        name
    }
}

/// A set that holds `name` and its numbered names from two up to `k` has at least `k`
/// elements.
pub(crate) proof fn lemma_taken_names(name: Seq<char>, used: Set<Seq<char>>, k: nat)
    requires
        used.finite(),
        used.contains(name),
        k >= 1,
        forall|j: nat| 2 <= j <= k ==> used.contains(#[trigger] suffixed(name, j)),
    ensures
        used.len() >= k,
    decreases k,
{
    if k >= 2 {
        let last = suffixed(name, k);
        let rest = used.remove(last);
        suffixed_is_longer(name, k);
        assert forall|j: nat| 2 <= j <= k - 1 implies rest.contains(#[trigger] suffixed(name, j)) by {
            if suffixed(name, j) == last {
                suffixed_is_injective(name, j, k);
            }
        }
        lemma_taken_names(name, rest, (k - 1) as nat);
    } else {
        assert(used.len() > 0);
    }
}

/// The names that attachments have been given so far.
pub struct UsedNames {
    names: vstd::hash_set::StringHashSet,
}

impl View for UsedNames {
    type V = Set<Seq<char>>;

    closed spec fn view(&self) -> Set<Seq<char>> {
        self.names@
    }
}

impl UsedNames {
    /// Finitely many names have been given.
    pub open spec fn wf(&self) -> bool {
        self@.finite()
    }

    /// No name has been given yet.
    pub fn new() -> (used: UsedNames)
        ensures
            used.wf(),
            used@ == Set::<Seq<char>>::empty(),
    {
        UsedNames { names: vstd::hash_set::StringHashSet::new() }
    }

    /// Adds a name; the result tells whether it was new.
    pub fn insert(&mut self, name: String) -> (fresh: bool)
        requires
            old(self).wf(),
        ensures
            final(self).wf(),
            final(self)@ == old(self)@.insert(name@),
            fresh == !old(self)@.contains(name@),
    {
        self.names.insert(name)
    }
}

/// Gives a name out: the base name if it is still free, else the base name with the
/// first free number in it.
pub fn unique_filename(base_name: &str, used_names: &mut UsedNames) -> (name: String)
    requires
        old(used_names).wf(),
        old(used_names)@.len() < usize::MAX,
    ensures
        final(used_names).wf(),
        name@ == unique_name(base_name@, old(used_names)@),
        final(used_names)@ == old(used_names)@.insert(name@),
{
    if used_names.insert(base_name.to_owned()) {
        return base_name.to_owned();
    }
    let ghost used = used_names@;
    assert(used =~= old(used_names)@);
    let mut suffix: usize = 2;
    loop
        invariant
            used_names.wf(),
            used_names@ == used,
            used == old(used_names)@,
            used.finite(),
            used.contains(base_name@),
            used.len() < usize::MAX,
            2 <= suffix <= used.len() + 1,
            forall|j: nat| 2 <= j < suffix ==> used.contains(#[trigger] suffixed(base_name@, j)),
        decreases used.len() + 1 - suffix,
    {
        let candidate = append_filename_suffix(base_name, suffix);
        if used_names.insert(candidate.clone()) {
            proof {
                assert(first_free_suffix(base_name@, used, suffix as nat));
                let k = choose|k: nat| first_free_suffix(base_name@, used, k);
                assert(k == suffix) by {
                    assert(used.contains(suffixed(base_name@, k)) <==> k < suffix);
                    assert(used.contains(suffixed(base_name@, suffix as nat)) <==> suffix < k);
                }
            }
            return candidate;
        }
        assert(used_names@ =~= used);
        proof {
            lemma_taken_names(base_name@, used, suffix as nat);
        }
        suffix = suffix + 1;
    }
}

} // verus!
