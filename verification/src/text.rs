//! Characters and text: the character classes that file names are cleaned by,
//! trimming, and decimal numbers.

use vstd::prelude::*;

verus! {

/// `String::push` appends one character to the end of the string.
pub assume_specification[ String::push ](text: &mut String, c: char)
    ensures
        final(text)@ == old(text)@.push(c),
;

/// The control codes of Unicode (general category `Cc`).
pub open spec fn control(c: char) -> bool {
    c <= '\u{1f}' || '\u{7f}' <= c <= '\u{9f}'
}

/// The characters with the Unicode property `White_Space`.
pub open spec fn white_space(c: char) -> bool {
    ||| '\u{9}' <= c <= '\u{d}'
    ||| c == ' '
    ||| c == '\u{85}'
    ||| c == '\u{a0}'
    ||| c == '\u{1680}'
    ||| '\u{2000}' <= c <= '\u{200a}'
    ||| '\u{2028}' <= c <= '\u{2029}'
    ||| c == '\u{202f}'
    ||| c == '\u{205f}'
    ||| c == '\u{3000}'
}

/// Whether `c` is a control code.
pub fn is_control(c: char) -> (yes: bool)
    ensures
        yes == control(c),
{
    c <= '\u{1f}' || ('\u{7f}' <= c && c <= '\u{9f}')
}

/// Whether `c` is white space.
pub fn is_white_space(c: char) -> (yes: bool)
    ensures
        yes == white_space(c),
{
    ('\u{9}' <= c && c <= '\u{d}') || c == ' ' || c == '\u{85}' || c == '\u{a0}' || c == '\u{1680}'
        || ('\u{2000}' <= c && c <= '\u{200a}') || ('\u{2028}' <= c && c <= '\u{2029}') || c
        == '\u{202f}' || c == '\u{205f}' || c == '\u{3000}'
}

/// The decimal digit of `d`, for `d` below ten.
pub open spec fn digit(d: nat) -> char {
    (48 + d) as char
}

/// The decimal notation of `n`: no sign and no leading zero.
pub open spec fn decimal(n: nat) -> Seq<char>
    decreases n,
{
    if n < 10 {
        seq![digit(n)]
    } else {
        decimal(n / 10).push(digit(n % 10))
    }
}

/// The number that a row of decimal digits denotes.
pub open spec fn decimal_value(digits: Seq<char>) -> int
    decreases digits.len(),
{
    if digits.len() == 0 {
        0
    } else {
        decimal_value(digits.drop_last()) * 10 + (digits.last() as int - 48)
    }
}

/// Decimal notation can be read back: no two numbers share one.
pub proof fn decimal_reads_back(n: nat)
    ensures
        decimal_value(decimal(n)) == n,
        decimal(n).len() > 0,
        forall|i: int| 0 <= i < decimal(n).len() ==> '0' <= #[trigger] decimal(n)[i] <= '9',
    decreases n,
{
    if n < 10 {
        assert(decimal(n).drop_last() =~= Seq::empty());
        reveal_with_fuel(decimal_value, 2);
    } else {
        decimal_reads_back(n / 10);
        assert(decimal(n).drop_last() =~= decimal(n / 10));
    }
}

/// Appends the decimal notation of `n` to `text`.
pub fn push_decimal(text: &mut String, n: usize)
    ensures
        final(text)@ == old(text)@ + decimal(n as nat),
    decreases n,
{
    if n >= 10 {
        push_decimal(text, n / 10);
    }
    let d: u8 = (n % 10) as u8;
    text.push((48 + d) as char);
    assert(text@ =~= old(text)@ + decimal(n as nat));
}

/// `text` without its longest prefix of characters in `class`.
pub open spec fn strip_start(text: Seq<char>, class: spec_fn(char) -> bool) -> Seq<char>
    decreases text.len(),
{
    if text.len() > 0 && class(text.first()) {
        strip_start(text.drop_first(), class)
    } else {
        text
    }
}

/// `text` without its longest suffix of characters in `class`.
pub open spec fn strip_end(text: Seq<char>, class: spec_fn(char) -> bool) -> Seq<char>
    decreases text.len(),
{
    if text.len() > 0 && class(text.last()) {
        strip_end(text.drop_last(), class)
    } else {
        text
    }
}

/// `text` without the characters of `class` at its two ends.
pub open spec fn trimmed(text: Seq<char>, class: spec_fn(char) -> bool) -> Seq<char> {
    strip_end(strip_start(text, class), class)
}

/// What trimming leaves is a stretch of the text.
pub proof fn trimmed_is_a_stretch(text: Seq<char>, class: spec_fn(char) -> bool) -> (span: (int, int))
    ensures
        0 <= span.0 <= span.1 <= text.len(),
        trimmed(text, class) == text.subrange(span.0, span.1),
    decreases text.len(),
{
    if text.len() > 0 && class(text.first()) {
        let (start, end) = trimmed_is_a_stretch(text.drop_first(), class);
        assert(text.drop_first().subrange(start, end) =~= text.subrange(start + 1, end + 1));
        (start + 1, end + 1)
    } else {
        let end = lemma_strip_end(text, class);
        (0, end)
    }
}

proof fn lemma_strip_end(text: Seq<char>, class: spec_fn(char) -> bool) -> (end: int)
    ensures
        0 <= end <= text.len(),
        strip_end(text, class) == text.subrange(0, end),
    decreases text.len(),
{
    if text.len() > 0 && class(text.last()) {
        let end = lemma_strip_end(text.drop_last(), class);
        assert(text.drop_last().subrange(0, end) =~= text.subrange(0, end));
        end
    } else {
        assert(text.subrange(0, text.len() as int) =~= text);
        text.len() as int
    }
}

/// What trimming leaves neither begins nor ends with a character of the class.
pub proof fn trimmed_has_clean_ends(text: Seq<char>, class: spec_fn(char) -> bool)
    ensures
        trimmed(text, class).len() > 0 ==> !class(trimmed(text, class).first()) && !class(
            trimmed(text, class).last(),
        ),
    decreases text.len(),
{
    if text.len() > 0 && class(text.first()) {
        trimmed_has_clean_ends(text.drop_first(), class);
    } else {
        lemma_strip_end_clean(text, class);
    }
}

proof fn lemma_strip_end_clean(text: Seq<char>, class: spec_fn(char) -> bool)
    ensures
        ({
            let kept = strip_end(text, class);
            &&& kept.len() > 0 ==> !class(kept.last()) && kept.first() == text.first()
            &&& kept.len() > 0 ==> text.len() > 0
        }),
    decreases text.len(),
{
    if text.len() > 0 && class(text.last()) {
        lemma_strip_end_clean(text.drop_last(), class);
    }
}

/// The characters of `text`, in order.
pub fn chars_of(text: &str) -> (chars: Vec<char>)
    ensures
        chars@ == text@,
{
    let mut chars: Vec<char> = Vec::new();
    for c in it: text.chars()
        invariant
            it.seq() == text@,
            chars@ == it.seq().take(it.index() as int),
    {
        chars.push(c);
    }
    chars
}

/// Appends the characters from `start` up to `end` to `text`.
pub fn push_chars(text: &mut String, chars: &[char], start: usize, end: usize)
    requires
        start <= end <= chars@.len(),
    ensures
        final(text)@ == old(text)@ + chars@.subrange(start as int, end as int),
{
    let ghost before = text@;
    for i in start..end
        invariant
            start <= end <= chars@.len(),
            text@ == before + chars@.subrange(start as int, i as int),
    {
        text.push(chars[i]);
        assert(text@ =~= before + chars@.subrange(start as int, i + 1));
    }
}

/// The text that a row of characters spells.
pub fn text_of(chars: &[char]) -> (text: String)
    ensures
        text@ == chars@,
{
    let mut text = String::new();
    push_chars(&mut text, chars, 0, chars.len());
    assert(text@ =~= chars@);
    text
}

/// `chars` without the characters of a class at its two ends; `in_class` tells the class.
pub(crate) fn trim_chars<F: Fn(char) -> bool>(
    chars: &[char],
    in_class: F,
    Ghost(class): Ghost<spec_fn(char) -> bool>,
) -> (kept: Vec<char>)
    requires
        forall|c: char| call_requires(in_class, (c,)),
        forall|c: char, yes: bool| call_ensures(in_class, (c,), yes) ==> yes == class(c),
    ensures
        kept@ == trimmed(chars@, class),
{
    let mut start: usize = 0;
    assert(chars@.skip(0) =~= chars@);
    while start < chars.len() && in_class(chars[start])
        invariant
            start <= chars.len(),
            forall|c: char| call_requires(in_class, (c,)),
            forall|c: char, yes: bool| call_ensures(in_class, (c,), yes) ==> yes == class(c),
            strip_start(chars@, class) == strip_start(chars@.skip(start as int), class),
        decreases chars.len() - start,
    {
        assert(chars@.skip(start as int).drop_first() =~= chars@.skip(start + 1));
        start = start + 1;
    }
    let mut end: usize = chars.len();
    assert(chars@.skip(start as int) =~= chars@.subrange(start as int, end as int));
    while end > start && in_class(chars[end - 1])
        invariant
            start <= end <= chars.len(),
            forall|c: char| call_requires(in_class, (c,)),
            forall|c: char, yes: bool| call_ensures(in_class, (c,), yes) ==> yes == class(c),
            trimmed(chars@, class) == strip_end(
                chars@.subrange(start as int, end as int),
                class,
            ),
        decreases end - start,
    {
        assert(chars@.subrange(start as int, end as int).drop_last() =~= chars@.subrange(
            start as int,
            end - 1,
        ));
        end = end - 1;
    }
    let mut kept: Vec<char> = Vec::new();
    for i in start..end
        invariant
            start <= end <= chars.len(),
            kept@ == chars@.subrange(start as int, i as int),
    {
        kept.push(chars[i]);
    }
    kept
}

} // verus!
