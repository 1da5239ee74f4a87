//! Combo boxes found under a window, their item texts and their score.
use crate::text::{
    is_white_space, string_views, trim, trimmed, trimmed_has_clean_ends,
    trimming_cuts_white_space_only,
};
use vstd::prelude::*;
use vstd::string::*;

verus! {

/// A combo box with what was read of it. Window handles are held as addresses.
#[derive(Clone, Debug)]
pub struct ComboCandidate {
    pub hwnd: usize,
    pub count: isize,
    pub score: i32,
    pub is_dropdownlist: bool,
    pub visible: bool,
    pub enabled: bool,
    pub decode_errors: usize,
    pub samples: Vec<String>,
}

/// A combo box with its sample texts as plain character sequences.
pub struct CandidateView {
    pub hwnd: usize,
    pub count: isize,
    pub score: i32,
    pub is_dropdownlist: bool,
    pub visible: bool,
    pub enabled: bool,
    pub decode_errors: usize,
    pub samples: Seq<Seq<char>>,
}

impl View for ComboCandidate {
    type V = CandidateView;

    open spec fn view(&self) -> CandidateView {
        CandidateView {
            hwnd: self.hwnd,
            count: self.count,
            score: self.score,
            is_dropdownlist: self.is_dropdownlist,
            visible: self.visible,
            enabled: self.enabled,
            decode_errors: self.decode_errors,
            samples: string_views(self.samples@),
        }
    }
}

/// The views of candidates.
pub open spec fn candidate_views(candidates: Seq<ComboCandidate>) -> Seq<CandidateView> {
    candidates.map_values(|c: ComboCandidate| c@)
}

/// How much a combo box looks like a font list: points for its style, for
/// being usable, for many items and for readable sample texts.
pub open spec fn score_of(
    count: int,
    is_dropdownlist: bool,
    visible: bool,
    enabled: bool,
    sample_len: int,
    decode_errors: int,
) -> int {
    let style: int = if is_dropdownlist { 3 } else { 0 };
    let shown: int = if visible { 2 } else { 0 };
    let usable: int = if enabled { 1 } else { 0 };
    let items: int = if count >= 50 { 3 } else if count >= 10 { 1 } else { 0 };
    let samples: int = if sample_len >= 3 { 1 } else if sample_len >= 1 { 0 } else { -1 };
    let readable: int = if decode_errors == 0 { 1 } else { -1 };
    style + shown + usable + items + samples + readable
}

/// Scores a combo box.
pub fn score_candidate(
    count: isize,
    is_dropdownlist: bool,
    visible: bool,
    enabled: bool,
    sample_len: usize,
    decode_errors: usize,
) -> (r: i32)
    ensures
        r == score_of(
            count as int,
            is_dropdownlist,
            visible,
            enabled,
            sample_len as int,
            decode_errors as int,
        ),
{
    let mut score: i32 = 0;
    if is_dropdownlist {
        score += 3;
    }
    if visible {
        score += 2;
    }
    if enabled {
        score += 1;
    }
    if count >= 10 {
        score += 1;
    }
    if count >= 50 {
        score += 2;
    }
    if sample_len >= 3 {
        score += 1;
    } else if sample_len < 1 {
        score -= 1;
    }
    if decode_errors == 0 {
        score += 1;
    } else {
        score -= 1;
    }
    score
}

/// Every score lies between -2 and 11.
pub proof fn score_is_bounded(
    count: int,
    is_dropdownlist: bool,
    visible: bool,
    enabled: bool,
    sample_len: int,
    decode_errors: int,
)
    ensures
        -2 <= score_of(count, is_dropdownlist, visible, enabled, sample_len, decode_errors) <= 11,
{
}

/// A combo box never loses points by having more items, more samples or fewer
/// decoding errors, nor by being a drop-down list, visible or enabled.
pub proof fn score_is_monotone(
    count: (int, int),
    is_dropdownlist: (bool, bool),
    visible: (bool, bool),
    enabled: (bool, bool),
    sample_len: (int, int),
    decode_errors: (int, int),
)
    requires
        count.0 <= count.1,
        is_dropdownlist.0 ==> is_dropdownlist.1,
        visible.0 ==> visible.1,
        enabled.0 ==> enabled.1,
        sample_len.0 <= sample_len.1,
        0 <= decode_errors.1 <= decode_errors.0,
    ensures
        score_of(
            count.0,
            is_dropdownlist.0,
            visible.0,
            enabled.0,
            sample_len.0,
            decode_errors.0,
        ) <= score_of(
            count.1,
            is_dropdownlist.1,
            visible.1,
            enabled.1,
            sample_len.1,
            decode_errors.1,
        ),
{
}

/// What the bytes of an item turned out to hold.
#[derive(Debug)]
pub enum ItemText<T> {
    /// Bytes that are no valid text.
    Malformed,
    /// Nothing but white space.
    Blank,
    /// A text without white space at its ends.
    Sample(T),
}

/// The view of an item's text.
pub open spec fn item_view(item: ItemText<String>) -> ItemText<Seq<char>> {
    match item {
        ItemText::Malformed => ItemText::Malformed,
        ItemText::Blank => ItemText::Blank,
        ItemText::Sample(text) => ItemText::Sample(text@),
    }
}

/// The result of decoding Shift_JIS bytes: the text, and whether any part of
/// the bytes was malformed.
pub uninterp spec fn shift_jis_decoded(bytes: Seq<u8>) -> (Seq<char>, bool);

/// The text whose characters are the given ASCII bytes.
pub open spec fn ascii_text(bytes: Seq<u8>) -> Seq<char> {
    bytes.map_values(|b: u8| b as char)
}

/// Decodes bytes with `encoding_rs`'s `SHIFT_JIS.decode`: the text, in which
/// U+FFFD stands for what is malformed, and whether anything was. A byte order
/// mark at the start selects UTF-8 or UTF-16 instead and is dropped. Bytes that
/// are all ASCII stand for themselves. Beyond a length of `isize::MAX / 8` the
/// size of the output buffer may not be representable.
#[verifier::external_body]
fn decode_shift_jis(bytes: &[u8]) -> (r: (String, bool))
    requires
        bytes@.len() <= isize::MAX / 8,
    ensures
        (r.0@, r.1) == shift_jis_decoded(bytes@),
        (forall|i: int| 0 <= i < bytes@.len() ==> bytes@[i] < 128) ==> (r.0@, r.1) == (
            ascii_text(bytes@),
            false,
        ),
{
    let (decoded, _, had_errors) = encoding_rs::SHIFT_JIS.decode(bytes);
    (decoded.into_owned(), had_errors)
}

/// What a decoded item holds: malformed bytes spoil it, and white space at the
/// ends does not belong to it.
pub open spec fn item_of(decoded: (Seq<char>, bool)) -> ItemText<Seq<char>> {
    if decoded.1 {
        ItemText::Malformed
    } else if trimmed(decoded.0).len() == 0 {
        ItemText::Blank
    } else {
        ItemText::Sample(trimmed(decoded.0))
    }
}

/// Judges a decoded item.
pub fn classify_item(decoded: &str, had_errors: bool) -> (r: ItemText<String>)
    ensures
        item_view(r) == item_of((decoded@, had_errors)),
{
    if had_errors {
        return ItemText::Malformed;
    }
    let text = trim(decoded);
    if text.as_str().is_empty() {
        ItemText::Blank
    } else {
        ItemText::Sample(text)
    }
}

/// Decodes and judges the bytes of an item.
pub fn read_item(bytes: &[u8]) -> (r: ItemText<String>)
    requires
        bytes@.len() <= isize::MAX / 8,
    ensures
        item_view(r) == item_of(shift_jis_decoded(bytes@)),
        (forall|i: int| 0 <= i < bytes@.len() ==> bytes@[i] < 128) ==> item_view(r) == item_of(
            (ascii_text(bytes@), false),
        ),
{
    let (decoded, had_errors) = decode_shift_jis(bytes);
    classify_item(decoded.as_str(), had_errors)
}

/// Tells whether a text is a proper sample: not empty, and without white space
/// at its ends.
pub open spec fn is_clean(text: Seq<char>) -> bool {
    &&& text.len() > 0
    &&& !is_white_space(text.first())
    &&& !is_white_space(text.last())
}

/// Every sample is proper, whatever was decoded.
pub proof fn samples_are_clean(decoded: (Seq<char>, bool))
    ensures
        item_of(decoded) matches ItemText::Sample(text) ==> is_clean(text),
{
    trimmed_has_clean_ends(decoded.0);
}

/// Every field of a candidate shows in its view.
pub proof fn candidate_views_are_faithful(candidates: Seq<ComboCandidate>, i: int)
    requires
        0 <= i < candidates.len(),
    ensures
        candidate_views(candidates).len() == candidates.len(),
        ({
            let (shown, candidate) = (candidate_views(candidates)[i], candidates[i]);
            &&& shown == candidate@
            &&& shown.hwnd == candidate.hwnd
            &&& shown.count == candidate.count
            &&& shown.score == candidate.score
            &&& shown.is_dropdownlist == candidate.is_dropdownlist
            &&& shown.visible == candidate.visible
            &&& shown.enabled == candidate.enabled
            &&& shown.decode_errors == candidate.decode_errors
            &&& shown.samples.len() == candidate.samples@.len()
            &&& forall|k: int|
                0 <= k < shown.samples.len() ==> #[trigger] shown.samples[k]
                    == candidate.samples@[k]@
        }),
{
}

/// The points for style and state add up: 3 for a drop-down list, 2 for being
/// visible, 1 for being enabled, whatever else is known of the combo box.
pub proof fn score_counts_style_and_state(
    count: int,
    is_dropdownlist: bool,
    visible: bool,
    enabled: bool,
    sample_len: int,
    decode_errors: int,
)
    ensures
        score_of(count, true, visible, enabled, sample_len, decode_errors) == 3 + score_of(
            count,
            false,
            visible,
            enabled,
            sample_len,
            decode_errors,
        ),
        score_of(count, is_dropdownlist, true, enabled, sample_len, decode_errors) == 2 + score_of(
            count,
            is_dropdownlist,
            false,
            enabled,
            sample_len,
            decode_errors,
        ),
        score_of(count, is_dropdownlist, visible, true, sample_len, decode_errors) == 1 + score_of(
            count,
            is_dropdownlist,
            visible,
            false,
            sample_len,
            decode_errors,
        ),
{
}

/// The number of items matters by whether there are 10 and whether there are 50:
/// the first gains 1 point, the second 2 more, and nothing between them counts.
pub proof fn score_counts_items(
    count: (int, int),
    is_dropdownlist: bool,
    visible: bool,
    enabled: bool,
    sample_len: int,
    decode_errors: int,
)
    requires
        count.0 <= count.1,
    ensures
        ({
            let gained = score_of(
                count.1,
                is_dropdownlist,
                visible,
                enabled,
                sample_len,
                decode_errors,
            ) - score_of(count.0, is_dropdownlist, visible, enabled, sample_len, decode_errors);
            &&& count.1 < 10 || 10 <= count.0 && count.1 < 50 || 50 <= count.0 ==> gained == 0
            &&& count.0 < 10 && 10 <= count.1 < 50 ==> gained == 1
            &&& 10 <= count.0 < 50 && 50 <= count.1 ==> gained == 2
            &&& count.0 < 10 && 50 <= count.1 ==> gained == 3
        }),
{
}

/// The samples matter by whether there are any and whether there are 3, each
/// worth 1 point; a malformed item costs 2 points, and further ones nothing.
pub proof fn score_counts_texts(
    count: int,
    is_dropdownlist: bool,
    visible: bool,
    enabled: bool,
    sample_len: (int, int),
    decode_errors: (int, int),
)
    requires
        0 <= sample_len.0 <= sample_len.1,
        0 <= decode_errors.1 <= decode_errors.0,
    ensures
        ({
            let more = score_of(
                count,
                is_dropdownlist,
                visible,
                enabled,
                sample_len.1,
                decode_errors.0,
            ) - score_of(
                count,
                is_dropdownlist,
                visible,
                enabled,
                sample_len.0,
                decode_errors.0,
            );
            let cleaner = score_of(
                count,
                is_dropdownlist,
                visible,
                enabled,
                sample_len.0,
                decode_errors.1,
            ) - score_of(
                count,
                is_dropdownlist,
                visible,
                enabled,
                sample_len.0,
                decode_errors.0,
            );
            &&& sample_len.1 == 0 || 1 <= sample_len.0 && sample_len.1 < 3 || 3 <= sample_len.0
                ==> more == 0
            &&& sample_len.0 == 0 && 1 <= sample_len.1 < 3 ==> more == 1
            &&& 1 <= sample_len.0 < 3 && 3 <= sample_len.1 ==> more == 1
            &&& sample_len.0 == 0 && 3 <= sample_len.1 ==> more == 2
            &&& decode_errors.0 == 0 || 1 <= decode_errors.1 ==> cleaner == 0
            &&& decode_errors.0 > 0 && decode_errors.1 == 0 ==> cleaner == 2
        }),
{
}

/// A combo box that is hidden and disabled, no drop-down list, with few items and
/// no sample has 0 points when nothing was malformed; one with everything in its
/// favour has 11.
pub proof fn score_has_its_ends(count: int, sample_len: int)
    ensures
        count < 10 ==> score_of(count, false, false, false, 0, 0) == 0,
        count >= 50 && sample_len >= 3 ==> score_of(count, true, true, true, sample_len, 0) == 11,
{
}

/// ASCII bytes stand for the characters of the same code.
pub proof fn ascii_stands_for_itself(bytes: Seq<u8>)
    ensures
        ascii_text(bytes).len() == bytes.len(),
        forall|i: int|
            0 <= i < bytes.len() ==> #[trigger] ascii_text(bytes)[i] as int == bytes[i] as int,
{
}

/// Text is judged by its characters alone: malformed text is nothing else, text
/// of white space is blank, and any other text gives all that lies between its
/// first and its last character that is no white space, these two included.
pub proof fn items_are_judged_by_their_text(decoded: (Seq<char>, bool))
    ensures
        item_of(decoded) is Malformed <==> decoded.1,
        item_of(decoded) is Blank <==> !decoded.1 && forall|i: int|
            0 <= i < decoded.0.len() ==> is_white_space(#[trigger] decoded.0[i]),
        item_of(decoded) matches ItemText::Sample(text) ==> exists|from: int, to: int|
            {
                &&& 0 <= from < to <= decoded.0.len()
                &&& text == #[trigger] decoded.0.subrange(from, to)
                &&& !is_white_space(decoded.0[from])
                &&& !is_white_space(decoded.0[to - 1])
                &&& forall|i: int|
                    0 <= i < from || to <= i < decoded.0.len() ==> is_white_space(
                        #[trigger] decoded.0[i],
                    )
            },
{
    trimming_cuts_white_space_only(decoded.0);
    let (from, to) = choose|from: int, to: int|
        {
            &&& 0 <= from <= to <= decoded.0.len()
            &&& trimmed(decoded.0) == #[trigger] decoded.0.subrange(from, to)
            &&& from < to ==> !is_white_space(decoded.0[from]) && !is_white_space(
                decoded.0[to - 1],
            )
            &&& forall|i: int|
                0 <= i < from || to <= i < decoded.0.len() ==> is_white_space(
                    #[trigger] decoded.0[i],
                )
        };
    assert(trimmed(decoded.0) == decoded.0.subrange(from, to));
    if from < to {
        assert(!is_white_space(decoded.0[from]));
    }
}

/// An item keeps its kind and its text in its view.
pub proof fn item_views_are_faithful(item: ItemText<String>)
    ensures
        item_view(item) is Malformed <==> item is Malformed,
        item_view(item) is Blank <==> item is Blank,
        item matches ItemText::Sample(text) ==> item_view(item) == ItemText::Sample(text@),
{
}

} // verus!
