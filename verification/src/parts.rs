//! The parts of a message, and which of them are downloaded.

use vstd::prelude::*;

verus! {

/// A part of a message whose content is fetched separately: an attachment, or an image
/// that is shown within the text.
#[derive(Debug)]
pub struct OriginalPart {
    pub filename: String,
    pub content_type: String,
    pub size: u64,
    pub attachment_id: String,
    /// The name by which the text refers to the part.
    pub content_id: Option<String>,
}

impl OriginalPart {
    /// A part with a content id is shown within the text.
    pub open spec fn inline(self) -> bool {
        self.content_id is Some
    }

    /// Whether the part is shown within the text.
    pub fn is_inline(&self) -> (yes: bool)
        ensures
            yes == self.inline(),
    {
        self.content_id.is_some()
    }
}

/// Each part with its position in the message.
pub open spec fn numbered(parts: Seq<OriginalPart>) -> Seq<(int, OriginalPart)> {
    Seq::new(parts.len(), |i: int| (i, parts[i]))
}

/// The parts to download, in the order of the message, each with its position: all of
/// them, or those that are not inline.
pub open spec fn selection(parts: Seq<OriginalPart>, include_inline: bool) -> Seq<
    (int, OriginalPart),
> {
    numbered(parts).filter(|entry: (int, OriginalPart)| include_inline || !entry.1.inline())
}

/// How many parts are left out.
pub open spec fn skipped_inline(parts: Seq<OriginalPart>, include_inline: bool) -> nat {
    if include_inline {
        0
    } else {
        parts.filter(|part: OriginalPart| part.inline()).len()
    }
}

/// What a list of chosen parts stands for.
pub open spec fn chosen(parts: Seq<(usize, &OriginalPart)>) -> Seq<(int, OriginalPart)> {
    parts.map_values(|entry: (usize, &OriginalPart)| (entry.0 as int, *entry.1))
}

/// Chooses the parts to download; inline parts only if they are asked for.
pub fn select_download_parts<'a>(parts: &'a [OriginalPart], include_inline: bool) -> (selected: Vec<
    (usize, &'a OriginalPart),
>)
    ensures
        chosen(selected@) == selection(parts@, include_inline),
{
    let ghost wanted = |entry: (int, OriginalPart)| include_inline || !entry.1.inline();
    let mut selected: Vec<(usize, &'a OriginalPart)> = Vec::new();
    proof {
        reveal(Seq::filter);
        assert(chosen(selected@) =~= numbered(parts@).take(0).filter(wanted));
    }
    for i in 0..parts.len()
        invariant
            wanted == (|entry: (int, OriginalPart)| include_inline || !entry.1.inline()),
            chosen(selected@) == numbered(parts@).take(i as int).filter(wanted),
    {
        let ghost before = selected@;
        if include_inline || !parts[i].is_inline() {
            selected.push((i, &parts[i]));
            assert(chosen(selected@) =~= chosen(before).push((i as int, parts@[i as int])));
        }
        proof {
            reveal(Seq::filter);
            let grown = numbered(parts@).take(i + 1);
            assert(grown.drop_last() =~= numbered(parts@).take(i as int));
            assert(grown.last() == (i as int, parts@[i as int]));
        }
    }
    assert(numbered(parts@).take(parts@.len() as int) =~= numbered(parts@));
    selected
}

/// Counts the parts that are left out because they are inline.
pub fn skipped_inline_count(parts: &[OriginalPart], include_inline: bool) -> (count: usize)
    ensures
        count == skipped_inline(parts@, include_inline),
{
    if include_inline {
        return 0;
    }
    let ghost inline = |part: OriginalPart| part.inline();
    let mut count: usize = 0;
    proof {
        reveal(Seq::filter);
    }
    for i in 0..parts.len()
        invariant
            inline == (|part: OriginalPart| part.inline()),
            count == parts@.take(i as int).filter(inline).len(),
            count <= i,
    {
        proof {
            reveal(Seq::filter);
            let grown = parts@.take(i + 1);
            assert(grown.drop_last() =~= parts@.take(i as int));
            assert(grown.last() == parts@[i as int]);
        }
        if parts[i].is_inline() {
            count = count + 1;
        }
    }
    assert(parts@.take(parts@.len() as int) =~= parts@);
    count
}

} // verus!
