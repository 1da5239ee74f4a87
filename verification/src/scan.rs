//! Reading a window as a combo box.
//!
//! A scan is a dialogue: it says what it has to know about the window next,
//! takes the answer, and in the end has found a candidate or none.
use crate::bits::lower_bits_are_the_remainder;
use crate::candidate::{
    is_clean, item_of, read_item, samples_are_clean, score_candidate, score_is_bounded, score_of,
    shift_jis_decoded, CandidateView, ComboCandidate, ItemText,
};
use crate::text::string_views;
use crate::wide::{combo_boxes_have_one_name, is_combo_box, is_combo_box_class};
use vstd::prelude::*;

verus! {

/// No more than this many items of a combo box are read.
pub const MAX_ITEMS_TO_EXTRACT: usize = 5;

/// The bits of a window style that hold the type of a combo box.
pub const COMBO_STYLE_TYPE_MASK: u32 = 0x0003;

/// The type of a combo box that is a drop-down list (`CBS_DROPDOWNLIST`).
pub const COMBO_STYLE_DROPDOWNLIST: u32 = 0x0003;

/// The bit of a window style that disables the window.
pub const WS_DISABLED: u32 = 0x0800_0000;

/// What a scan has to know next.
#[derive(Clone, Copy, Debug)]
pub enum ComboQuery {
    /// The class name of the window, in a buffer of UTF-16 units.
    ClassName,
    /// The number of items (`CB_GETCOUNT`).
    ItemCount,
    /// The length of an item's text (`CB_GETLBTEXTLEN`).
    TextLength { index: usize },
    /// An item's text (`CB_GETLBTEXT`), in a buffer of the given length.
    Text { index: usize, buffer_len: usize },
    /// The window style (`GWL_STYLE`).
    Style,
    /// Whether the window is visible.
    Visibility,
    /// Nothing: the scan is over.
    Nothing,
}

/// An answer to a [`ComboQuery`].
pub enum ComboReply {
    /// The buffer, and how many units of it hold the class name.
    ClassName { units: Vec<u16>, len: i32 },
    ItemCount(isize),
    TextLength(isize),
    /// The buffer, and how many bytes of it hold the text.
    Text { raw: Vec<u8>, copied: isize },
    Style(isize),
    Visibility(bool),
}

/// An answer with its buffers as sequences.
pub enum ReplyView {
    ClassName { units: Seq<u16>, len: i32 },
    ItemCount(isize),
    TextLength(isize),
    Text { raw: Seq<u8>, copied: isize },
    Style(isize),
    Visibility(bool),
}

impl View for ComboReply {
    type V = ReplyView;

    open spec fn view(&self) -> ReplyView {
        match *self {
            ComboReply::ClassName { units, len } => ReplyView::ClassName { units: units@, len },
            ComboReply::ItemCount(count) => ReplyView::ItemCount(count),
            ComboReply::TextLength(len) => ReplyView::TextLength(len),
            ComboReply::Text { raw, copied } => ReplyView::Text { raw: raw@, copied },
            ComboReply::Style(style) => ReplyView::Style(style),
            ComboReply::Visibility(visible) => ReplyView::Visibility(visible),
        }
    }
}

impl ReplyView {
    /// An answer never claims more than its buffer holds, and a text is short
    /// enough to be decoded.
    pub open spec fn fits(self) -> bool {
        match self {
            ReplyView::ClassName { units, len } => len <= units.len(),
            ReplyView::Text { raw, copied } => copied <= raw.len() && copied <= isize::MAX / 8,
            _ => true,
        }
    }
}

/// The items read so far. `index` is the item that is being read.
struct Items {
    hwnd: usize,
    count: isize,
    index: usize,
    decode_errors: usize,
    samples: Vec<String>,
}

/// The items read so far, with the samples as character sequences.
pub struct ItemsView {
    pub hwnd: usize,
    pub count: isize,
    pub index: usize,
    pub decode_errors: usize,
    pub samples: Seq<Seq<char>>,
}

impl View for Items {
    type V = ItemsView;

    closed spec fn view(&self) -> ItemsView {
        ItemsView {
            hwnd: self.hwnd,
            count: self.count,
            index: self.index,
            decode_errors: self.decode_errors,
            samples: string_views(self.samples@),
        }
    }
}

impl ItemsView {
    /// How many items are read of a combo box with that many.
    pub open spec fn limit(self) -> int {
        if self.count < MAX_ITEMS_TO_EXTRACT {
            self.count as int
        } else {
            MAX_ITEMS_TO_EXTRACT as int
        }
    }

    /// Each item before `index` gave at most one sample or one error.
    pub open spec fn valid(self) -> bool {
        &&& self.count > 0
        &&& self.index < self.limit()
        &&& self.decode_errors + self.samples.len() <= self.index
    }

    /// The same for items that have all been read.
    pub open spec fn complete(self) -> bool {
        &&& self.count > 0
        &&& self.decode_errors + self.samples.len() <= self.limit()
    }

    /// What is read after the item at `index`.
    pub open spec fn after_item(self) -> ScanView {
        if self.index + 1 < self.limit() {
            ScanView::TextLength(ItemsView { index: (self.index + 1) as usize, ..self })
        } else {
            ScanView::Style(self)
        }
    }

    /// The items with what the item at `index` turned out to hold.
    pub open spec fn with(self, item: ItemText<Seq<char>>) -> ItemsView {
        match item {
            ItemText::Malformed => ItemsView {
                decode_errors: (self.decode_errors + 1) as usize,
                ..self
            },
            ItemText::Blank => self,
            ItemText::Sample(text) => ItemsView { samples: self.samples.push(text), ..self },
        }
    }

    /// The candidate that these items give under a window style.
    pub open spec fn candidate(self, style: isize, visible: bool) -> CandidateView {
        candidate_from(
            self.hwnd,
            self.count,
            self.samples,
            self.decode_errors,
            style,
            visible,
        )
    }
}

/// Tells whether a window style is that of a drop-down list.
pub open spec fn style_is_dropdownlist(style: isize) -> bool {
    (style as u32) & COMBO_STYLE_TYPE_MASK == COMBO_STYLE_DROPDOWNLIST
}

/// Tells whether a window style is that of an enabled window.
pub open spec fn style_is_enabled(style: isize) -> bool {
    (style as u32) & WS_DISABLED == 0
}

/// The candidate with the given contents, style and visibility.
pub open spec fn candidate_from(
    hwnd: usize,
    count: isize,
    samples: Seq<Seq<char>>,
    decode_errors: usize,
    style: isize,
    visible: bool,
) -> CandidateView {
    CandidateView {
        hwnd,
        count,
        score: score_of(
            count as int,
            style_is_dropdownlist(style),
            visible,
            style_is_enabled(style),
            samples.len() as int,
            decode_errors as int,
        ) as i32,
        is_dropdownlist: style_is_dropdownlist(style),
        visible,
        enabled: style_is_enabled(style),
        decode_errors,
        samples,
    }
}

enum Stage {
    ClassName { hwnd: usize },
    ItemCount { hwnd: usize },
    TextLength { items: Items },
    Text { items: Items, buffer_len: usize },
    Style { items: Items },
    Visibility { items: Items, style: isize },
    Finished { candidate: Option<ComboCandidate> },
}

/// How far a scan has come. Each stage but the last waits for one answer.
pub enum ScanView {
    ClassName(usize),
    ItemCount(usize),
    TextLength(ItemsView),
    Text(ItemsView, usize),
    Style(ItemsView),
    Visibility(ItemsView, isize),
    Finished(Option<CandidateView>),
}

impl ScanView {
    /// What the scan has to know next.
    pub open spec fn query(self) -> ComboQuery {
        match self {
            ScanView::ClassName(_) => ComboQuery::ClassName,
            ScanView::ItemCount(_) => ComboQuery::ItemCount,
            ScanView::TextLength(items) => ComboQuery::TextLength { index: items.index },
            ScanView::Text(items, buffer_len) => ComboQuery::Text {
                index: items.index,
                buffer_len,
            },
            ScanView::Style(_) => ComboQuery::Style,
            ScanView::Visibility(..) => ComboQuery::Visibility,
            ScanView::Finished(_) => ComboQuery::Nothing,
        }
    }

    /// Where an answer takes the scan. An answer to another question than the
    /// one asked takes it nowhere.
    pub open spec fn answered(self, reply: ReplyView) -> ScanView {
        match (self, reply) {
            (ScanView::ClassName(hwnd), ReplyView::ClassName { units, len }) => if len > 0
                && is_combo_box_class(units.take(len as int)) {
                ScanView::ItemCount(hwnd)
            } else {
                ScanView::Finished(None)
            },
            (ScanView::ItemCount(hwnd), ReplyView::ItemCount(count)) => if count > 0 {
                ScanView::TextLength(
                    ItemsView { hwnd, count, index: 0, decode_errors: 0, samples: Seq::empty() },
                )
            } else {
                ScanView::Finished(None)
            },
            (ScanView::TextLength(items), ReplyView::TextLength(len)) => if len > 0 {
                ScanView::Text(items, (len + 1) as usize)
            } else {
                items.after_item()
            },
            (ScanView::Text(items, _), ReplyView::Text { raw, copied }) => if copied > 0 {
                items.with(item_of(shift_jis_decoded(raw.take(copied as int)))).after_item()
            } else {
                items.after_item()
            },
            (ScanView::Style(items), ReplyView::Style(style)) => ScanView::Visibility(items, style),
            (ScanView::Visibility(items, style), ReplyView::Visibility(visible)) => {
                ScanView::Finished(Some(items.candidate(style, visible)))
            },
            _ => self,
        }
    }
}

/// A scan of one window.
pub struct ComboScan {
    stage: Stage,
}

impl View for ComboScan {
    type V = ScanView;

    closed spec fn view(&self) -> ScanView {
        match self.stage {
            Stage::ClassName { hwnd } => ScanView::ClassName(hwnd),
            Stage::ItemCount { hwnd } => ScanView::ItemCount(hwnd),
            Stage::TextLength { items } => ScanView::TextLength(items@),
            Stage::Text { items, buffer_len } => ScanView::Text(items@, buffer_len),
            Stage::Style { items } => ScanView::Style(items@),
            Stage::Visibility { items, style } => ScanView::Visibility(items@, style),
            Stage::Finished { candidate } => ScanView::Finished(
                match candidate {
                    Some(found) => Some(found@),
                    None => None,
                },
            ),
        }
    }
}

impl Items {
    fn after_item(self) -> (r: Stage)
        requires
            self@.count > 0,
            self@.index < self@.limit(),
            self@.decode_errors + self@.samples.len() <= self@.index + 1,
        ensures
            (ComboScan { stage: r })@ == self@.after_item(),
            stage_valid(r),
    {
        let mut items = self;
        if items.index + 1 < MAX_ITEMS_TO_EXTRACT && items.index + 1 < items.count as usize {
            items.index += 1;
            Stage::TextLength { items }
        } else {
            Stage::Style { items }
        }
    }
}

spec fn stage_valid(stage: Stage) -> bool {
    match stage {
        Stage::TextLength { items } => items@.valid(),
        Stage::Text { items, buffer_len } => items@.valid(),
        Stage::Style { items } => items@.complete(),
        Stage::Visibility { items, style } => items@.complete(),
        _ => true,
    }
}

impl ComboScan {
    #[verifier::type_invariant]
    spec fn valid(self) -> bool {
        stage_valid(self.stage)
    }

    /// Starts a scan of the window at the given address.
    pub fn new(hwnd: usize) -> (r: ComboScan)
        ensures
            r@ == ScanView::ClassName(hwnd),
    {
        ComboScan { stage: Stage::ClassName { hwnd } }
    }

    /// What the scan has to know next. Only the first few items are asked for,
    /// and only those that the combo box has.
    pub fn query(&self) -> (r: ComboQuery)
        ensures
            r == self@.query(),
            self@ matches ScanView::TextLength(items) ==> items.valid(),
            self@ matches ScanView::Text(items, _) ==> items.valid(),
    {
        proof {
            use_type_invariant(self);
        }
        match &self.stage {
            Stage::ClassName { .. } => ComboQuery::ClassName,
            Stage::ItemCount { .. } => ComboQuery::ItemCount,
            Stage::TextLength { items } => ComboQuery::TextLength { index: items.index },
            Stage::Text { items, buffer_len } => ComboQuery::Text {
                index: items.index,
                buffer_len: *buffer_len,
            },
            Stage::Style { .. } => ComboQuery::Style,
            Stage::Visibility { .. } => ComboQuery::Visibility,
            Stage::Finished { .. } => ComboQuery::Nothing,
        }
    }

    /// Takes an answer.
    pub fn answer(self, reply: ComboReply) -> (r: ComboScan)
        requires
            reply@.fits(),
        ensures
            r@ == self@.answered(reply@),
    {
        proof {
            use_type_invariant(&self);
        }
        let stage = match (self.stage, reply) {
            (Stage::ClassName { hwnd }, ComboReply::ClassName { units, len }) => {
                if is_combo_box(units.as_slice(), len) {
                    Stage::ItemCount { hwnd }
                } else {
                    Stage::Finished { candidate: None }
                }
            },
            (Stage::ItemCount { hwnd }, ComboReply::ItemCount(count)) => {
                if count > 0 {
                    let items = Items {
                        hwnd,
                        count,
                        index: 0,
                        decode_errors: 0,
                        samples: Vec::new(),
                    };
                    assert(items@.samples =~= Seq::empty());
                    Stage::TextLength { items }
                } else {
                    Stage::Finished { candidate: None }
                }
            },
            (Stage::TextLength { items }, ComboReply::TextLength(len)) => {
                if len > 0 {
                    Stage::Text { items, buffer_len: len as usize + 1 }
                } else {
                    items.after_item()
                }
            },
            (Stage::Text { items, buffer_len: _ }, ComboReply::Text { raw, copied }) => {
                if copied > 0 {
                    let bytes = vstd::slice::slice_subrange(raw.as_slice(), 0, copied as usize);
                    assert(bytes@ =~= raw@.take(copied as int));
                    let ghost before = items@;
                    let mut items = items;
                    match read_item(bytes) {
                        ItemText::Malformed => {
                            items.decode_errors += 1;
                        },
                        ItemText::Blank => {},
                        ItemText::Sample(text) => {
                            items.samples.push(text);
                            assert(items@.samples =~= before.samples.push(text@));
                        },
                    }
                    items.after_item()
                } else {
                    items.after_item()
                }
            },
            (Stage::Style { items }, ComboReply::Style(style)) => Stage::Visibility {
                items,
                style,
            },
            (Stage::Visibility { items, style }, ComboReply::Visibility(visible)) => {
                Stage::Finished { candidate: Some(candidate_of_items(items, style, visible)) }
            },
            (stage, _) => stage,
        };
        ComboScan { stage }
    }

    /// What the scan has found; nothing as long as it is not over.
    pub fn into_candidate(self) -> (r: Option<ComboCandidate>)
        ensures
            self@ matches ScanView::Finished(Some(found)) ==> r is Some && r->0@ == found,
            !(self@ matches ScanView::Finished(Some(_))) ==> r is None,
    {
        match self.stage {
            Stage::Finished { candidate } => candidate,
            _ => None,
        }
    }
}

fn candidate_of_items(items: Items, style: isize, visible: bool) -> (r: ComboCandidate)
    ensures
        r@ == items@.candidate(style, visible),
{
    let bits: u32 = #[verifier::truncate]
    (style as u32);
    let is_dropdownlist = (bits & COMBO_STYLE_TYPE_MASK) == COMBO_STYLE_DROPDOWNLIST;
    let enabled = (bits & WS_DISABLED) == 0;
    let score = score_candidate(
        items.count,
        is_dropdownlist,
        visible,
        enabled,
        items.samples.len(),
        items.decode_errors,
    );
    ComboCandidate {
        hwnd: items.hwnd,
        count: items.count,
        score,
        is_dropdownlist,
        visible,
        enabled,
        decode_errors: items.decode_errors,
        samples: items.samples,
    }
}

/// An item of a combo box, as a window answers for it.
pub struct WindowItem {
    pub text_len: isize,
    pub raw: Seq<u8>,
    pub copied: isize,
}

/// A window, as it answers a scan.
pub struct ComboWindow {
    pub hwnd: usize,
    pub class_units: Seq<u16>,
    pub class_len: i32,
    pub count: isize,
    pub items: spec_fn(usize) -> WindowItem,
    pub style: isize,
    pub visible: bool,
}

impl ComboWindow {
    /// The window's answer to a query.
    pub open spec fn reply(self, query: ComboQuery) -> ReplyView {
        match query {
            ComboQuery::ClassName => ReplyView::ClassName {
                units: self.class_units,
                len: self.class_len,
            },
            ComboQuery::ItemCount => ReplyView::ItemCount(self.count),
            ComboQuery::TextLength { index } => ReplyView::TextLength((self.items)(index).text_len),
            ComboQuery::Text { index, .. } => ReplyView::Text {
                raw: (self.items)(index).raw,
                copied: (self.items)(index).copied,
            },
            ComboQuery::Style => ReplyView::Style(self.style),
            _ => ReplyView::Visibility(self.visible),
        }
    }

    /// What an item of the window holds; one without a text is blank.
    pub open spec fn item(self, index: int) -> ItemText<Seq<char>> {
        let item = (self.items)(index as usize);
        if item.text_len > 0 && item.copied > 0 {
            item_of(shift_jis_decoded(item.raw.take(item.copied as int)))
        } else {
            ItemText::Blank
        }
    }

    /// The samples among the first `n` items, in order.
    pub open spec fn samples(self, n: int) -> Seq<Seq<char>>
        decreases n,
    {
        if n <= 0 {
            Seq::empty()
        } else {
            match self.item(n - 1) {
                ItemText::Sample(text) => self.samples(n - 1).push(text),
                _ => self.samples(n - 1),
            }
        }
    }

    /// How many of the first `n` items are malformed.
    pub open spec fn decode_errors(self, n: int) -> int
        decreases n,
    {
        if n <= 0 {
            0
        } else {
            self.decode_errors(n - 1) + if self.item(n - 1) is Malformed {
                1int
            } else {
                0
            }
        }
    }

    /// How many items of the window are read.
    pub open spec fn items_read(self) -> int {
        if self.count < MAX_ITEMS_TO_EXTRACT {
            self.count as int
        } else {
            MAX_ITEMS_TO_EXTRACT as int
        }
    }

    /// The candidate that the window is: none unless its class is that of a
    /// combo box and it has items, else what its first items, its style and
    /// its visibility make it.
    pub open spec fn candidate(self) -> Option<CandidateView> {
        if self.class_len > 0 && is_combo_box_class(self.class_units.take(self.class_len as int))
            && self.count > 0 {
            Some(
                candidate_from(
                    self.hwnd,
                    self.count,
                    self.samples(self.items_read()),
                    self.decode_errors(self.items_read()) as usize,
                    self.style,
                    self.visible,
                ),
            )
        } else {
            None
        }
    }

    spec fn on_track(self, items: ItemsView) -> bool {
        &&& items.hwnd == self.hwnd
        &&& items.count == self.count > 0
        &&& items.index < items.limit()
        &&& items.samples == self.samples(items.index as int)
        &&& items.decode_errors == self.decode_errors(items.index as int)
    }
}

impl ScanView {
    /// An upper bound of the number of answers that a scan still takes.
    pub open spec fn answers_left(self) -> nat {
        match self {
            ScanView::ClassName(_) => 18,
            ScanView::ItemCount(_) => 17,
            ScanView::TextLength(items) => if items.index < 6 {
                (16 - 2 * items.index) as nat
            } else {
                4
            },
            ScanView::Text(items, _) => if items.index < 6 {
                (15 - 2 * items.index) as nat
            } else {
                3
            },
            ScanView::Style(_) => 2,
            ScanView::Visibility(..) => 1,
            ScanView::Finished(_) => 0,
        }
    }

    /// Where a scan ends when a window gives all the answers.
    pub open spec fn end(self, window: ComboWindow) -> ScanView
        decreases self.answers_left(),
    {
        if self is Finished {
            self
        } else {
            self.answered(window.reply(self.query())).end(window)
        }
    }
}

proof fn lemma_errors_fit(window: ComboWindow, n: int)
    requires
        0 <= n,
    ensures
        0 <= window.decode_errors(n) <= n,
    decreases n,
{
    if n > 0 {
        lemma_errors_fit(window, n - 1);
    }
}

proof fn lemma_scan_items(window: ComboWindow, items: ItemsView)
    requires
        window.on_track(items),
    ensures
        ScanView::TextLength(items).end(window) == ScanView::Finished(window.candidate())
            || !(window.class_len > 0 && is_combo_box_class(
            window.class_units.take(window.class_len as int),
        )),
    decreases items.limit() - items.index,
{
    let start = ScanView::TextLength(items);
    let index = items.index as int;
    let item = (window.items)(items.index);
    lemma_errors_fit(window, index);
    lemma_errors_fit(window, index + 1);
    let read = items.with(window.item(index));
    let text_stage = ScanView::Text(items, (item.text_len + 1) as usize);
    if item.text_len > 0 {
        assert(start.answered(window.reply(start.query())) == text_stage);
        assert(text_stage.answered(window.reply(text_stage.query())) == read.after_item());
        assert(text_stage.end(window) == read.after_item().end(window));
    } else {
        assert(start.answered(window.reply(start.query())) == read.after_item());
    }
    assert(start.end(window) == read.after_item().end(window));
    assert(read.samples =~= window.samples(index + 1));
    assert(read.decode_errors == window.decode_errors(index + 1));
    if items.index + 1 < items.limit() {
        let next = ItemsView { index: (items.index + 1) as usize, ..read };
        lemma_scan_items(window, next);
    } else {
        let style_stage = ScanView::Style(read);
        let visible_stage = ScanView::Visibility(read, window.style);
        assert(style_stage.answered(window.reply(style_stage.query())) == visible_stage);
        let last = visible_stage.answered(window.reply(visible_stage.query()));
        assert(last.end(window) == last);
        assert(visible_stage.end(window) == last);
        assert(style_stage.end(window) == last);
    }
}

/// A scan that a window answers is over after finitely many answers, and has
/// then found the candidate that the window is.
pub proof fn scan_finds_the_candidate(window: ComboWindow)
    ensures
        ScanView::ClassName(window.hwnd).end(window) == ScanView::Finished(window.candidate()),
{
    let start = ScanView::ClassName(window.hwnd);
    let named = start.answered(window.reply(start.query()));
    if named is Finished {
        assert(named.end(window) == named);
        assert(start.end(window) == named);
    } else {
        let counted = named.answered(window.reply(named.query()));
        if counted is Finished {
            assert(counted.end(window) == counted);
            assert(named.end(window) == counted);
            assert(start.end(window) == named.end(window));
        } else {
            lemma_scan_items(window, counted->TextLength_0);
            assert(named.end(window) == counted.end(window));
            assert(start.end(window) == named.end(window));
        }
    }
}

proof fn lemma_samples_fit(window: ComboWindow, n: int)
    requires
        0 <= n,
    ensures
        window.samples(n).len() + window.decode_errors(n) <= n,
        forall|i: int| 0 <= i < window.samples(n).len() ==> is_clean(#[trigger] window.samples(n)[i]),
    decreases n,
{
    if n > 0 {
        lemma_samples_fit(window, n - 1);
        let item = (window.items)((n - 1) as usize);
        samples_are_clean(shift_jis_decoded(item.raw.take(item.copied as int)));
    }
}

/// Every candidate has items, is scored by its own fields, and has proper
/// samples; there are no more samples and errors than items that were read.
pub proof fn candidates_are_sound(window: ComboWindow)
    ensures
        window.candidate() matches Some(found) ==> {
            &&& found.hwnd == window.hwnd
            &&& found.count > 0
            &&& found.score == score_of(
                found.count as int,
                found.is_dropdownlist,
                found.visible,
                found.enabled,
                found.samples.len() as int,
                found.decode_errors as int,
            )
            &&& found.samples.len() + found.decode_errors <= window.items_read()
                <= MAX_ITEMS_TO_EXTRACT
            &&& forall|i: int|
                0 <= i < found.samples.len() ==> is_clean(#[trigger] found.samples[i])
        },
{
    if window.count > 0 {
        lemma_samples_fit(window, window.items_read());
        lemma_errors_fit(window, window.items_read());
    }
}

impl ComboWindow {
    /// The queries about the first `n` items: the length of each, once and in
    /// order, followed by its text where the length is positive.
    pub open spec fn item_queries(self, n: int) -> Seq<ComboQuery>
        decreases n,
    {
        if n <= 0 {
            Seq::empty()
        } else {
            let index = (n - 1) as usize;
            let text_len = (self.items)(index).text_len;
            self.item_queries(n - 1).push(ComboQuery::TextLength { index }) + if text_len > 0 {
                seq![ComboQuery::Text { index, buffer_len: (text_len + 1) as usize }]
            } else {
                Seq::empty()
            }
        }
    }

    /// All queries about the window, in order.
    pub open spec fn queries(self) -> Seq<ComboQuery> {
        if !(self.class_len > 0 && is_combo_box_class(
            self.class_units.take(self.class_len as int),
        )) {
            seq![ComboQuery::ClassName]
        } else if self.count <= 0 {
            seq![ComboQuery::ClassName, ComboQuery::ItemCount]
        } else {
            seq![ComboQuery::ClassName, ComboQuery::ItemCount] + self.item_queries(
                self.items_read(),
            ) + seq![ComboQuery::Style, ComboQuery::Visibility]
        }
    }
}

impl ScanView {
    /// All that a scan asks from here on, in order, when a window gives the
    /// answers.
    pub open spec fn queries(self, window: ComboWindow) -> Seq<ComboQuery>
        decreases self.answers_left(),
    {
        if self is Finished {
            Seq::empty()
        } else {
            seq![self.query()] + self.answered(window.reply(self.query())).queries(window)
        }
    }
}

proof fn lemma_item_queries(window: ComboWindow, items: ItemsView)
    requires
        items.count == window.count > 0,
        items.index < items.limit(),
    ensures
        window.item_queries(items.index as int) + ScanView::TextLength(items).queries(window)
            == window.item_queries(window.items_read()) + seq![
            ComboQuery::Style,
            ComboQuery::Visibility,
        ],
    decreases items.limit() - items.index,
{
    let start = ScanView::TextLength(items);
    let index = items.index;
    let item = (window.items)(index);
    let read = items.with(window.item(index as int));
    let after = read.after_item();
    let text_stage = ScanView::Text(items, (item.text_len + 1) as usize);
    let asked = window.item_queries(index as int);
    if item.text_len > 0 {
        assert(start.answered(window.reply(start.query())) == text_stage);
        assert(text_stage.answered(window.reply(text_stage.query())) == after);
        assert(text_stage.queries(window) == seq![text_stage.query()] + after.queries(window));
    } else {
        assert(start.answered(window.reply(start.query())) == after);
    }
    assert(asked + start.queries(window) =~= window.item_queries(index + 1) + after.queries(
        window,
    ));
    if index + 1 < items.limit() {
        lemma_item_queries(window, ItemsView { index: (index + 1) as usize, ..read });
    } else {
        let visible_stage = ScanView::Visibility(read, window.style);
        let last = visible_stage.answered(window.reply(visible_stage.query()));
        assert(after.answered(window.reply(after.query())) == visible_stage);
        assert(last.queries(window) == Seq::<ComboQuery>::empty());
        assert(visible_stage.queries(window) == seq![ComboQuery::Visibility] + last.queries(
            window,
        ));
        assert(after.queries(window) == seq![ComboQuery::Style] + visible_stage.queries(window));
        assert(after.queries(window) =~= seq![ComboQuery::Style, ComboQuery::Visibility]);
    }
}

/// A scan asks for the class name; of a combo box for the number of items; of
/// one with items for the length of each of the first ones, once and in order,
/// for the text of those whose length is positive, and last for the style and
/// the visibility.
pub proof fn scan_asks_in_order(window: ComboWindow)
    ensures
        ScanView::ClassName(window.hwnd).queries(window) == window.queries(),
{
    let start = ScanView::ClassName(window.hwnd);
    let named = start.answered(window.reply(start.query()));
    assert(start.queries(window) == seq![ComboQuery::ClassName] + named.queries(window));
    if named is Finished {
        assert(start.queries(window) =~= window.queries());
    } else {
        let counted = named.answered(window.reply(named.query()));
        assert(named.queries(window) == seq![ComboQuery::ItemCount] + counted.queries(window));
        if !(counted is Finished) {
            lemma_item_queries(window, counted->TextLength_0);
            assert(window.item_queries(0) + counted.queries(window) =~= counted.queries(window));
        }
        assert(start.queries(window) =~= window.queries());
    }
}

/// A window is a drop-down list exactly when the two lowest bits of its style are
/// set, and enabled exactly when bit 27 is clear. No other bit has a say.
pub proof fn styles_are_read_bit_by_bit(style: isize)
    ensures
        style_is_dropdownlist(style) <==> style as int % 4 == 3,
        style_is_enabled(style) <==> (style as int / 0x800_0000) % 2 == 0,
{
    let bits = style as u32;
    lower_bits_are_the_remainder(style);
    assert(bits & 3 == 3 <==> bits % 4 == 3) by (bit_vector);
    assert(bits & 0x0800_0000 == 0 <==> (bits / 0x0800_0000) % 2 == 0) by (bit_vector);
}

/// Two styles with the same lowest bits are both drop-down lists or neither, and
/// two with the same bit 27 both enabled or neither, whatever their other bits.
pub proof fn other_style_bits_do_not_matter(a: isize, b: isize)
    ensures
        a as int % 4 == b as int % 4 ==> style_is_dropdownlist(a) == style_is_dropdownlist(b),
        (a as int / 0x800_0000) % 2 == (b as int / 0x800_0000) % 2 ==> style_is_enabled(a)
            == style_is_enabled(b),
{
    styles_are_read_bit_by_bit(a);
    styles_are_read_bit_by_bit(b);
}

/// What a window answers about an item, one without a text counting as blank.
pub open spec fn item_answers(item: WindowItem) -> ItemText<Seq<char>> {
    if item.text_len > 0 && item.copied > 0 {
        item_of(shift_jis_decoded(item.raw.take(item.copied as int)))
    } else {
        ItemText::Blank
    }
}

proof fn lemma_items_listed(window: ComboWindow, n: nat)
    requires
        n <= 5,
    ensures
        ({
            let items = Seq::new(n, |i: int| item_answers((window.items)(i as usize)));
            &&& window.samples(n as int) == items.filter_map(
                |item: ItemText<Seq<char>>|
                    match item {
                        ItemText::Sample(text) => Some(text),
                        _ => None,
                    },
            )
            &&& window.decode_errors(n as int) == items.filter(
                |item: ItemText<Seq<char>>| item is Malformed,
            ).len()
        }),
    decreases n,
{
    reveal(Seq::filter);
    if n > 0 {
        let items = Seq::new(n, |i: int| item_answers((window.items)(i as usize)));
        let front = Seq::new((n - 1) as nat, |i: int| item_answers((window.items)(i as usize)));
        lemma_items_listed(window, (n - 1) as nat);
        assert(items.drop_last() =~= front);
        assert(items.last() == window.item(n - 1));
    }
}

/// What a scan concludes of a window. Only a window whose class is `ComboBox`, to
/// the letter, and that has items is a candidate. It is then told as it is: by
/// its handle, its number of items, the two lowest bits and bit 27 of its style,
/// its visibility, the texts among its first items, at most five of them, in
/// order, and how many of these are malformed.
pub proof fn windows_are_told_as_they_are(window: ComboWindow)
    requires
        window.class_len <= window.class_units.len(),
    ensures
        ({
            let end = ScanView::ClassName(window.hwnd).end(window);
            let read: nat = if window.count < 5 {
                window.count as nat
            } else {
                5
            };
            let items = Seq::new(read, |i: int| item_answers((window.items)(i as usize)));
            &&& end is Finished
            &&& end->Finished_0 is Some <==> {
                &&& window.class_len == 8
                &&& window.class_units.take(8) == seq![
                    0x43u16,
                    0x6F,
                    0x6D,
                    0x62,
                    0x6F,
                    0x42,
                    0x6F,
                    0x78,
                ]
                &&& window.count > 0
            }
            &&& end->Finished_0 matches Some(found) ==> {
                &&& found.hwnd == window.hwnd
                &&& found.count == window.count
                &&& found.is_dropdownlist == (window.style as int % 4 == 3)
                &&& found.enabled == ((window.style as int / 0x800_0000) % 2 == 0)
                &&& found.visible == window.visible
                &&& found.samples == items.filter_map(
                    |item: ItemText<Seq<char>>|
                        match item {
                            ItemText::Sample(text) => Some(text),
                            _ => None,
                        },
                )
                &&& found.decode_errors == items.filter(
                    |item: ItemText<Seq<char>>| item is Malformed,
                ).len()
                &&& found.score == score_of(
                    found.count as int,
                    found.is_dropdownlist,
                    found.visible,
                    found.enabled,
                    found.samples.len() as int,
                    found.decode_errors as int,
                )
            }
        }),
{
    scan_finds_the_candidate(window);
    candidates_are_sound(window);
    styles_are_read_bit_by_bit(window.style);
    combo_boxes_have_one_name(window.class_units.take(window.class_len as int));
    if window.count > 0 {
        lemma_items_listed(window, window.items_read() as nat);
        lemma_errors_fit(window, window.items_read());
    }
}

/// What a scan does with the class name and the number of items: only the eight
/// letters of `ComboBox` lead on, and only a positive number of items.
pub proof fn scan_goes_on_with_combo_boxes(hwnd: usize, units: Seq<u16>, len: i32, count: isize)
    requires
        len <= units.len(),
    ensures
        ({
            let named = ScanView::ClassName(hwnd).answered(ReplyView::ClassName { units, len });
            let letters = seq![0x43u16, 0x6F, 0x6D, 0x62, 0x6F, 0x42, 0x6F, 0x78];
            &&& len == 8 && units.take(8) == letters ==> named == ScanView::ItemCount(hwnd)
            &&& !(len == 8 && units.take(8) == letters) ==> named == ScanView::Finished(None)
        }),
        ({
            let counted = ScanView::ItemCount(hwnd).answered(ReplyView::ItemCount(count));
            &&& count <= 0 ==> counted == ScanView::Finished(None)
            &&& count > 0 ==> {
                &&& counted.query() == ComboQuery::TextLength { index: 0 }
                &&& counted matches ScanView::TextLength(items) && items.hwnd == hwnd && items.count
                    == count && items.decode_errors == 0 && items.samples.len() == 0
            }
        }),
{
    combo_boxes_have_one_name(units.take(len as int));
}

/// What a scan does with an item. Its text is asked for, with room for a closing
/// zero, exactly when its length is positive. Text that was copied is decoded and
/// adds a sample, an error or nothing; anything else adds nothing. Then the next
/// one of the first five items follows, or the style.
pub proof fn scan_reads_an_item(items: ItemsView, text_len: isize, raw: Seq<u8>, copied: isize)
    requires
        items.index < items.count,
        items.index < 5,
        items.decode_errors <= items.index,
        text_len > 0,
    ensures
        ({
            let item = item_of(shift_jis_decoded(raw.take(copied as int)));
            let asked = ScanView::TextLength(items).answered(ReplyView::TextLength(text_len));
            let next = asked.answered(ReplyView::Text { raw, copied });
            let more = items.index + 1 < items.count && items.index + 1 < 5;
            &&& asked.query() == ComboQuery::Text {
                index: items.index,
                buffer_len: (text_len + 1) as usize,
            }
            &&& more ==> next.query() == ComboQuery::TextLength {
                index: (items.index + 1) as usize,
            }
            &&& !more ==> next.query() == ComboQuery::Style
            &&& scan_items(next) matches Some(after) && {
                &&& after.hwnd == items.hwnd
                &&& after.count == items.count
                &&& copied <= 0 ==> after.samples == items.samples && after.decode_errors
                    == items.decode_errors
                &&& copied > 0 && item is Malformed ==> after.samples == items.samples
                    && after.decode_errors == items.decode_errors + 1
                &&& copied > 0 && item is Blank ==> after.samples == items.samples
                    && after.decode_errors == items.decode_errors
                &&& copied > 0 ==> (item matches ItemText::Sample(text) ==> after.samples
                    == items.samples.push(text) && after.decode_errors == items.decode_errors)
            }
        }),
{
}

/// The items that a scan has read so far, while it reads them.
pub open spec fn scan_items(scan: ScanView) -> Option<ItemsView> {
    match scan {
        ScanView::TextLength(items) => Some(items),
        ScanView::Text(items, _) => Some(items),
        ScanView::Style(items) => Some(items),
        ScanView::Visibility(items, _) => Some(items),
        _ => None,
    }
}

/// An item without a text is passed over and adds nothing.
pub proof fn scan_passes_over_an_item(items: ItemsView, text_len: isize)
    requires
        items.index < items.count,
        items.index < 5,
        text_len <= 0,
    ensures
        ({
            let next = ScanView::TextLength(items).answered(ReplyView::TextLength(text_len));
            let more = items.index + 1 < items.count && items.index + 1 < 5;
            &&& more ==> next == ScanView::TextLength(
                ItemsView { index: (items.index + 1) as usize, ..items },
            )
            &&& !more ==> next == ScanView::Style(items)
        }),
{
}

/// A scan ends with the style and the visibility, and with a candidate that shows
/// what was read.
pub proof fn scan_ends_with_style_and_visibility(items: ItemsView, style: isize, visible: bool)
    ensures
        ({
            let styled = ScanView::Style(items).answered(ReplyView::Style(style));
            let end = styled.answered(ReplyView::Visibility(visible));
            &&& styled.query() == ComboQuery::Visibility
            &&& end.query() == ComboQuery::Nothing
            &&& end matches ScanView::Finished(Some(found)) && {
                &&& found.hwnd == items.hwnd
                &&& found.count == items.count
                &&& found.samples == items.samples
                &&& found.decode_errors == items.decode_errors
                &&& found.visible == visible
                &&& found.is_dropdownlist == (style as int % 4 == 3)
                &&& found.enabled == ((style as int / 0x800_0000) % 2 == 0)
                &&& found.score == score_of(
                    items.count as int,
                    found.is_dropdownlist,
                    visible,
                    found.enabled,
                    items.samples.len() as int,
                    items.decode_errors as int,
                )
            }
        }),
{
    styles_are_read_bit_by_bit(style);
    score_is_bounded(
        items.count as int,
        style_is_dropdownlist(style),
        visible,
        style_is_enabled(style),
        items.samples.len() as int,
        items.decode_errors as int,
    );
}

/// A scan asks one question at a time, and is not moved by an answer to another
/// one, nor by any when it is over.
pub proof fn scan_ignores_other_answers(scan: ScanView, reply: ReplyView)
    requires
        match reply {
            ReplyView::ClassName { .. } => !(scan.query() is ClassName),
            ReplyView::ItemCount(_) => !(scan.query() is ItemCount),
            ReplyView::TextLength(_) => !(scan.query() is TextLength),
            ReplyView::Text { .. } => !(scan.query() is Text),
            ReplyView::Style(_) => !(scan.query() is Style),
            ReplyView::Visibility(_) => !(scan.query() is Visibility),
        },
    ensures
        scan.answered(reply) == scan,
{
}

/// Every answer that claims no more than its buffer holds is taken, a text up to
/// the length that can be decoded.
pub proof fn answers_may_fill_their_buffers(reply: ReplyView)
    ensures
        reply.fits() <==> match reply {
            ReplyView::ClassName { units, len } => len <= units.len(),
            ReplyView::Text { raw, copied } => copied <= raw.len() && copied * 8 <= isize::MAX,
            _ => true,
        },
{
}

/// An answer keeps its contents in its view.
pub proof fn reply_views_are_faithful(reply: ComboReply)
    ensures
        match reply {
            ComboReply::ClassName { units, len } => reply@ == (ReplyView::ClassName {
                units: units@,
                len,
            }),
            ComboReply::ItemCount(count) => reply@ == ReplyView::ItemCount(count),
            ComboReply::TextLength(len) => reply@ == ReplyView::TextLength(len),
            ComboReply::Text { raw, copied } => reply@ == (ReplyView::Text { raw: raw@, copied }),
            ComboReply::Style(style) => reply@ == ReplyView::Style(style),
            ComboReply::Visibility(visible) => reply@ == ReplyView::Visibility(visible),
        },
{
}

} // verus!
