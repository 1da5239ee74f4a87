//! A probe of a window: what was found under it, and the lines that tell.
use crate::candidate::{candidate_views, CandidateView, ComboCandidate};
use crate::rank::{
    has_strong, is_ranking, is_strong, rank_candidates, ranking_keeps_strength,
    strength_takes_points_items_and_clean_text, strong_candidate_found,
};
use crate::text::{
    bool_text, decimal, hwnd_text, push_bool, push_decimal, push_hwnd, push_string_list,
    string_list_text, string_views,
};
use vstd::prelude::*;
use vstd::string::*;

verus! {

/// No more than this many candidates are described one by one.
pub const MAX_DESCRIBED_CANDIDATES: usize = 3;

/// The outcome of a probe.
#[derive(Clone, Copy, Debug)]
pub struct ProbeOutcome {
    pub strong_found: bool,
}

impl Default for ProbeOutcome {
    fn default() -> (r: ProbeOutcome)
        ensures
            !r.strong_found,
    {
        ProbeOutcome { strong_found: false }
    }
}

/// The numbers of the probes.
pub struct ProbeSequence {
    pub next: u64,
}

/// The number after `id`; after the greatest one comes 0.
pub open spec fn following(id: u64) -> u64 {
    if id == u64::MAX {
        0
    } else {
        (id + 1) as u64
    }
}

/// The next number after a probe whose next number was `next`: only a probe
/// whose window is there takes a number.
pub open spec fn after_probe(next: u64, window_is_there: bool) -> u64 {
    if window_is_there {
        following(next)
    } else {
        next
    }
}

impl ProbeSequence {
    /// Probes are numbered from 1.
    pub fn new() -> (r: ProbeSequence)
        ensures
            r.next == 1,
    {
        ProbeSequence { next: 1 }
    }

    /// Takes the next number.
    pub fn fetch(&mut self) -> (r: u64)
        ensures
            r == old(self).next,
            final(self).next == following(old(self).next),
    {
        let id: u64 = self.next;
        self.next = id.wrapping_add(1);
        id
    }
}

/// The outcome of a probe with the lines to log and the candidates, best first.
pub struct ProbeReport {
    pub outcome: ProbeOutcome,
    pub lines: Vec<String>,
    pub ranked: Vec<ComboCandidate>,
}

/// The line of a probe whose window is gone.
pub open spec fn skipped_line(root: usize, source: Seq<char>, attempt: u32) -> Seq<char> {
    "[SpikeTest] Probe skipped source="@ + source + " attempt="@ + decimal(attempt as int)
        + " root="@ + hwnd_text(root) + " (invalid window)"@
}

/// How the line of a probe begins.
pub open spec fn probe_heading(id: u64, root: usize, source: Seq<char>, attempt: u32) -> Seq<char> {
    "[SpikeTest] Probe#"@ + decimal(id as int) + " source="@ + source + " attempt="@ + decimal(
        attempt as int,
    ) + " root="@ + hwnd_text(root)
}

/// The line of a probe: how many candidates there are, whether any is strong,
/// and which is best.
pub open spec fn summary_line(
    id: u64,
    root: usize,
    source: Seq<char>,
    attempt: u32,
    combos: int,
    strong: bool,
    best: CandidateView,
) -> Seq<char> {
    probe_heading(id, root, source, attempt) + " combos="@ + decimal(combos) + " strong="@
        + bool_text(strong) + " best_score="@ + decimal(best.score as int) + " best_hwnd="@
        + hwnd_text(best.hwnd) + " best_count="@ + decimal(best.count as int) + " best_samples="@
        + string_list_text(best.samples)
}

/// The line of a probe that found nothing.
pub open spec fn empty_line(id: u64, root: usize, source: Seq<char>, attempt: u32) -> Seq<char> {
    probe_heading(id, root, source, attempt) + " combos=0 strong=false"@
}

/// The line that describes a candidate.
pub open spec fn candidate_line(candidate: CandidateView) -> Seq<char> {
    "[SpikeTest] Candidate hwnd="@ + hwnd_text(candidate.hwnd) + " score="@ + decimal(
        candidate.score as int,
    ) + " count="@ + decimal(candidate.count as int) + " dropdownlist="@ + bool_text(
        candidate.is_dropdownlist,
    ) + " visible="@ + bool_text(candidate.visible) + " enabled="@ + bool_text(candidate.enabled)
        + " decode_errors="@ + decimal(candidate.decode_errors as int) + " samples="@
        + string_list_text(candidate.samples)
}

/// How many of the ranked candidates are described.
pub open spec fn described(ranked: Seq<CandidateView>) -> int {
    if ranked.len() < MAX_DESCRIBED_CANDIDATES {
        ranked.len() as int
    } else {
        MAX_DESCRIBED_CANDIDATES as int
    }
}

/// All lines of a probe: the summary, then one for each of the best candidates.
pub open spec fn probe_lines(
    id: u64,
    root: usize,
    source: Seq<char>,
    attempt: u32,
    ranked: Seq<CandidateView>,
) -> Seq<Seq<char>> {
    if ranked.len() == 0 {
        seq![empty_line(id, root, source, attempt)]
    } else {
        seq![
            summary_line(
                id,
                root,
                source,
                attempt,
                ranked.len() as int,
                has_strong(ranked),
                ranked[0],
            ),
        ] + Seq::new(described(ranked) as nat, |i: int| candidate_line(ranked[i]))
    }
}

/// How the scan of a child window ended.
pub enum ScanEnd {
    /// With a candidate.
    Found(ComboCandidate),
    /// Without one.
    Nothing,
    /// With a panic.
    Panicked,
}

/// What the enumeration of child windows goes on with: 1 asks for the next
/// window. There may be a line to log.
pub struct EnumerationStep {
    pub go_on: i32,
    pub line: Option<String>,
}

impl ScanEnd {
    /// The candidate that the scan found.
    pub open spec fn found(self) -> Option<ComboCandidate> {
        match self {
            ScanEnd::Found(found) => Some(found),
            _ => None,
        }
    }
}

/// The candidates before the child windows are enumerated: the window itself,
/// if it is one.
pub open spec fn begun(own: Option<ComboCandidate>) -> Seq<ComboCandidate> {
    match own {
        Some(found) => seq![found],
        None => Seq::empty(),
    }
}

/// The candidates after the scan of one more child window.
pub open spec fn after_scan(candidates: Seq<ComboCandidate>, end: ScanEnd) -> Seq<ComboCandidate> {
    match end.found() {
        Some(found) => candidates.push(found),
        None => candidates,
    }
}

/// The candidates of a whole enumeration: the window itself first, if it is one,
/// then what was found in the child windows, in order.
pub open spec fn collected(own: Option<ComboCandidate>, ends: Seq<ScanEnd>) -> Seq<
    ComboCandidate,
> {
    begun(own) + ends.filter_map(|end: ScanEnd| end.found())
}

/// Starts to collect candidates.
pub fn begin_collection(own: Option<ComboCandidate>) -> (r: Vec<ComboCandidate>)
    ensures
        r@ == begun(own),
{
    let mut candidates: Vec<ComboCandidate> = Vec::new();
    if let Some(found) = own {
        candidates.push(found);
    }
    assert(candidates@ =~= begun(own));
    candidates
}

/// Adds what the scan of a child window found, and asks for the next window. A
/// panic costs the candidate, leaves a line, and does not end the enumeration.
pub fn collect_combo_proc(candidates: &mut Vec<ComboCandidate>, end: ScanEnd) -> (r:
    EnumerationStep)
    ensures
        r.go_on == 1,
        final(candidates)@ == after_scan(old(candidates)@, end),
        end is Panicked ==> {
            &&& r.line is Some
            &&& r.line->0@ == "[SpikeTest] panic in collect_combo_proc callback"@
        },
        !(end is Panicked) ==> r.line is None,
{
    match end {
        ScanEnd::Found(found) => {
            candidates.push(found);
            EnumerationStep { go_on: 1, line: None }
        },
        ScanEnd::Nothing => EnumerationStep { go_on: 1, line: None },
        ScanEnd::Panicked => {
            let line = "[SpikeTest] panic in collect_combo_proc callback".to_owned();
            EnumerationStep { go_on: 1, line: Some(line) }
        },
    }
}

fn make_skipped_line(root: usize, source: &str, attempt: u32) -> (r: String)
    ensures
        r@ == skipped_line(root, source@, attempt),
{
    let mut line = "[SpikeTest] Probe skipped source=".to_owned();
    line.append(source);
    line.append(" attempt=");
    push_decimal(&mut line, attempt as i128);
    line.append(" root=");
    push_hwnd(&mut line, root);
    line.append(" (invalid window)");
    line
}

fn make_heading(id: u64, root: usize, source: &str, attempt: u32) -> (r: String)
    ensures
        r@ == probe_heading(id, root, source@, attempt),
{
    let mut line = "[SpikeTest] Probe#".to_owned();
    push_decimal(&mut line, id as i128);
    line.append(" source=");
    line.append(source);
    line.append(" attempt=");
    push_decimal(&mut line, attempt as i128);
    line.append(" root=");
    push_hwnd(&mut line, root);
    line
}

fn make_candidate_line(candidate: &ComboCandidate) -> (r: String)
    ensures
        r@ == candidate_line(candidate@),
{
    let mut line = "[SpikeTest] Candidate hwnd=".to_owned();
    push_hwnd(&mut line, candidate.hwnd);
    line.append(" score=");
    push_decimal(&mut line, candidate.score as i128);
    line.append(" count=");
    push_decimal(&mut line, candidate.count as i128);
    line.append(" dropdownlist=");
    push_bool(&mut line, candidate.is_dropdownlist);
    line.append(" visible=");
    push_bool(&mut line, candidate.visible);
    line.append(" enabled=");
    push_bool(&mut line, candidate.enabled);
    line.append(" decode_errors=");
    push_decimal(&mut line, candidate.decode_errors as i128);
    line.append(" samples=");
    push_string_list(&mut line, &candidate.samples);
    line
}

fn make_summary_line(
    id: u64,
    root: usize,
    source: &str,
    attempt: u32,
    ranked: &Vec<ComboCandidate>,
    strong: bool,
) -> (r: String)
    requires
        ranked@.len() > 0,
    ensures
        r@ == summary_line(id, root, source@, attempt, ranked@.len() as int, strong, ranked@[0]@),
{
    let best = &ranked[0];
    let mut line = make_heading(id, root, source, attempt);
    line.append(" combos=");
    push_decimal(&mut line, ranked.len() as i128);
    line.append(" strong=");
    push_bool(&mut line, strong);
    line.append(" best_score=");
    push_decimal(&mut line, best.score as i128);
    line.append(" best_hwnd=");
    push_hwnd(&mut line, best.hwnd);
    line.append(" best_count=");
    push_decimal(&mut line, best.count as i128);
    line.append(" best_samples=");
    push_string_list(&mut line, &best.samples);
    line
}

/// Concludes a probe of `root`. `found` holds the combo boxes under it in the
/// order in which they were enumerated, or nothing when there is no such
/// window any more; a probe without a window takes no number.
pub fn run_probe(
    sequence: &mut ProbeSequence,
    root: usize,
    source: &str,
    attempt: u32,
    found: Option<Vec<ComboCandidate>>,
) -> (r: ProbeReport)
    ensures
        found is None ==> {
            &&& !r.outcome.strong_found
            &&& string_views(r.lines@) == seq![skipped_line(root, source@, attempt)]
            &&& r.ranked@.len() == 0
        },
        found matches Some(candidates) ==> {
            &&& r.outcome.strong_found == has_strong(candidate_views(candidates@))
            &&& is_ranking(candidate_views(candidates@), candidate_views(r.ranked@))
            &&& string_views(r.lines@) == probe_lines(
                old(sequence).next,
                root,
                source@,
                attempt,
                candidate_views(r.ranked@),
            )
        },
        final(sequence).next == after_probe(old(sequence).next, found is Some),
{
    let mut lines: Vec<String> = Vec::new();
    match found {
        None => {
            lines.push(make_skipped_line(root, source, attempt));
            assert(string_views(lines@) =~= seq![skipped_line(root, source@, attempt)]);
            ProbeReport { outcome: ProbeOutcome::default(), lines, ranked: Vec::new() }
        },
        Some(candidates) => {
            let mut ranked = candidates;
            rank_candidates(&mut ranked);
            let strong_found = strong_candidate_found(&ranked);
            let ghost shown = candidate_views(ranked@);
            proof {
                ranking_keeps_strength(candidate_views(candidates@), shown);
            }
            let id = sequence.fetch();
            let ghost expected = probe_lines(id, root, source@, attempt, shown);
            if ranked.len() > 0 {
                lines.push(
                    make_summary_line(id, root, source, attempt, &ranked, strong_found),
                );
                let mut i: usize = 0;
                assert(string_views(lines@) =~= expected.take(1));
                while i < ranked.len() && i < MAX_DESCRIBED_CANDIDATES
                    invariant
                        i <= ranked@.len(),
                        i <= MAX_DESCRIBED_CANDIDATES,
                        ranked@.len() > 0,
                        shown == candidate_views(ranked@),
                        expected == probe_lines(id, root, source@, attempt, shown),
                        string_views(lines@) == expected.take(i + 1),
                    decreases ranked@.len() - i,
                {
                    let line = make_candidate_line(&ranked[i]);
                    let ghost before = lines@;
                    lines.push(line);
                    assert(expected[i + 1] == line@);
                    assert(string_views(lines@) =~= string_views(before).push(line@));
                    assert(expected.take(i + 2) =~= expected.take(i + 1).push(line@));
                    i = i + 1;
                }
                assert(expected.take(i + 1) =~= expected);
            } else {
                let mut line = make_heading(id, root, source, attempt);
                line.append(" combos=0 strong=false");
                lines.push(line);
                assert(string_views(lines@) =~= expected);
            }
            ProbeReport { outcome: ProbeOutcome { strong_found }, lines, ranked }
        },
    }
}

/// Whatever the scans of the child windows end with, an enumeration collects the
/// window itself first, if it is a candidate, and then each candidate among its
/// child windows, in order. `steps` holds the candidates at the start and after
/// each child window.
pub proof fn enumeration_collects(
    own: Option<ComboCandidate>,
    ends: Seq<ScanEnd>,
    steps: Seq<Seq<ComboCandidate>>,
)
    requires
        steps.len() == ends.len() + 1,
        steps[0] == begun(own),
        forall|i: int|
            0 <= i < ends.len() ==> steps[i + 1] == after_scan(steps[i], #[trigger] ends[i]),
    ensures
        steps.last() == collected(own, ends),
    decreases ends.len(),
{
    if ends.len() > 0 {
        let front = ends.drop_last();
        assert forall|i: int| 0 <= i < front.len() implies steps.drop_last()[i + 1] == after_scan(
            steps.drop_last()[i],
            #[trigger] front[i],
        ) by {
            assert(front[i] == ends[i]);
        }
        enumeration_collects(own, front, steps.drop_last());
        assert(ends[ends.len() - 1] == ends.last());
    }
    assert(steps.last() =~= collected(own, ends));
}

/// Tells whether what was found in one window is a strong candidate.
pub open spec fn found_strong(found: Option<ComboCandidate>) -> bool {
    found matches Some(candidate) && is_strong(candidate@)
}

/// An enumeration finds a strong candidate exactly when the window itself or one
/// of its child windows is one.
pub proof fn strong_windows_are_found(own: Option<ComboCandidate>, ends: Seq<ScanEnd>)
    ensures
        has_strong(candidate_views(collected(own, ends))) <==> {
            ||| found_strong(own)
            ||| exists|i: int| 0 <= i < ends.len() && found_strong((#[trigger] ends[i]).found())
        },
    decreases ends.len(),
{
    let all = candidate_views(collected(own, ends));
    if ends.len() == 0 {
        assert(collected(own, ends) =~= begun(own));
        if own is Some {
            assert(all[0] == own->0@);
        }
    } else {
        let front = ends.drop_last();
        let before = candidate_views(collected(own, front));
        strong_windows_are_found(own, front);
        assert(forall|i: int| 0 <= i < front.len() ==> #[trigger] front[i] == ends[i]);
        assert(forall|i: int| 0 <= i < front.len() ==> #[trigger] ends[i] == front[i]);
        match ends.last().found() {
            Some(found) => {
                assert(all =~= before.push(found@));
                assert(all[before.len() as int] == found@);
                assert(ends[ends.len() - 1].found() == Some(found));
            },
            None => {
                assert(all =~= before);
            },
        }
        assert(forall|i: int| 0 <= i < before.len() ==> #[trigger] before[i] == all[i]);
        assert(forall|i: int| 0 <= i < before.len() ==> #[trigger] all[i] == before[i]);
    }
}

/// The number that comes `n` numbers after `first`.
pub open spec fn number_after(first: u64, n: nat) -> u64
    decreases n,
{
    if n == 0 {
        first
    } else {
        following(number_after(first, (n - 1) as nat))
    }
}

/// The next number after a sequence of probes; each entry tells whether the
/// window of that probe was there.
pub open spec fn next_after(first: u64, windows: Seq<bool>) -> u64
    decreases windows.len(),
{
    if windows.len() == 0 {
        first
    } else {
        after_probe(next_after(first, windows.drop_last()), windows.last())
    }
}

/// The numbers that a sequence of probes takes, in order.
pub open spec fn numbers(first: u64, windows: Seq<bool>) -> Seq<u64>
    decreases windows.len(),
{
    if windows.len() == 0 {
        Seq::empty()
    } else if windows.last() {
        numbers(first, windows.drop_last()).push(next_after(first, windows.drop_last()))
    } else {
        numbers(first, windows.drop_last())
    }
}

/// Numbers count up by one, and come around after the greatest one.
pub proof fn numbers_come_around(first: u64, n: nat)
    ensures
        number_after(first, n) == (first + n) % (u64::MAX + 1),
    decreases n,
{
    if n > 0 {
        numbers_come_around(first, (n - 1) as nat);
    }
}

/// Probes are numbered from 1 up to the greatest number.
pub proof fn probes_are_numbered(n: nat)
    requires
        n < u64::MAX,
    ensures
        number_after(1, n) == n + 1,
{
    numbers_come_around(1, n);
}

proof fn lemma_numbers(first: u64, windows: Seq<bool>)
    ensures
        numbers(first, windows).len() == windows.filter(|there: bool| there).len(),
        next_after(first, windows) == number_after(first, numbers(first, windows).len()),
        forall|i: int|
            0 <= i < numbers(first, windows).len() ==> #[trigger] numbers(first, windows)[i]
                == number_after(first, i as nat),
    decreases windows.len(),
{
    reveal(Seq::filter);
    if windows.len() > 0 {
        lemma_numbers(first, windows.drop_last());
    }
}

/// Among all probes, those whose window is there, and no others, take a number
/// each, one after the other. Until the greatest number is passed these are 1, 2
/// and so on, without a gap and none twice.
pub proof fn probe_numbers_have_no_gaps(windows: Seq<bool>)
    ensures
        numbers(1, windows).len() == windows.filter(|there: bool| there).len(),
        forall|i: int|
            0 <= i < numbers(1, windows).len() ==> #[trigger] numbers(1, windows)[i]
                == number_after(1, i as nat),
        forall|i: int|
            0 <= i < numbers(1, windows).len() && i < u64::MAX ==> #[trigger] numbers(
                1,
                windows,
            )[i] == i + 1,
        numbers(1, windows).len() <= u64::MAX ==> numbers(1, windows).no_duplicates(),
        next_after(1, windows) == number_after(1, numbers(1, windows).len()),
{
    lemma_numbers(1, windows);
    assert forall|i: int| 0 <= i < numbers(1, windows).len() && i < u64::MAX implies
        #[trigger] numbers(1, windows)[i] == i + 1 by {
        probes_are_numbered(i as nat);
    }
}

/// What the scan of a window found is added at the end; a scan that found nothing
/// or panicked adds nothing. The window itself comes before all child windows.
pub proof fn scans_add_what_they_find(
    candidates: Seq<ComboCandidate>,
    found: ComboCandidate,
    ends: Seq<ScanEnd>,
)
    ensures
        begun(Some(found)) == seq![found],
        begun(None) == Seq::<ComboCandidate>::empty(),
        after_scan(candidates, ScanEnd::Found(found)) == candidates.push(found),
        after_scan(candidates, ScanEnd::Nothing) == candidates,
        after_scan(candidates, ScanEnd::Panicked) == candidates,
        collected(None, ends.push(ScanEnd::Found(found))) == collected(None, ends).push(found),
        collected(Some(found), ends) == seq![found] + collected(None, ends),
{
    let more = ends.push(ScanEnd::Found(found));
    assert(more.drop_last() =~= ends);
    assert(more.last() == ScanEnd::Found(found));
    assert(collected(None, more) =~= collected(None, ends).push(found));
    assert(collected(Some(found), ends) =~= seq![found] + collected(None, ends));
}

/// The lines of a probe: one that tells its number, its source, its attempt and
/// its window with how many combo boxes there are, whether any is strong and
/// which is best, and one for each of the best three.
pub proof fn probes_tell_what_they_found(
    id: u64,
    root: usize,
    source: Seq<char>,
    attempt: u32,
    ranked: Seq<CandidateView>,
    i: int,
)
    ensures
        ({
            let lines = probe_lines(id, root, source, attempt, ranked);
            let heading = "[SpikeTest] Probe#"@ + decimal(id as int) + " source="@ + source
                + " attempt="@ + decimal(attempt as int) + " root="@ + hwnd_text(root);
            let strong = exists|k: int|
                #![trigger ranked[k]]
                0 <= k < ranked.len() && ranked[k].score >= 8 && ranked[k].count >= 20
                    && ranked[k].decode_errors == 0;
            &&& ranked.len() <= 3 ==> lines.len() == 1 + ranked.len()
            &&& ranked.len() >= 3 ==> lines.len() == 4
            &&& ranked.len() == 0 ==> lines[0] == heading + " combos=0 strong=false"@
            &&& ranked.len() > 0 ==> lines[0] == heading + " combos="@ + decimal(
                ranked.len() as int,
            ) + " strong="@ + bool_text(strong) + " best_score="@ + decimal(ranked[0].score as int)
                + " best_hwnd="@ + hwnd_text(ranked[0].hwnd) + " best_count="@ + decimal(
                ranked[0].count as int,
            ) + " best_samples="@ + string_list_text(ranked[0].samples)
            &&& 0 <= i < ranked.len() && i < 3 ==> lines[i + 1] == "[SpikeTest] Candidate hwnd="@
                + hwnd_text(ranked[i].hwnd) + " score="@ + decimal(ranked[i].score as int)
                + " count="@ + decimal(ranked[i].count as int) + " dropdownlist="@ + bool_text(
                ranked[i].is_dropdownlist,
            ) + " visible="@ + bool_text(ranked[i].visible) + " enabled="@ + bool_text(
                ranked[i].enabled,
            ) + " decode_errors="@ + decimal(ranked[i].decode_errors as int) + " samples="@
                + string_list_text(ranked[i].samples)
        }),
{
    strength_takes_points_items_and_clean_text(ranked);
}

/// A probe without a window tells its source, its attempt and its window.
pub proof fn skipped_probes_tell(root: usize, source: Seq<char>, attempt: u32)
    ensures
        skipped_line(root, source, attempt) == "[SpikeTest] Probe skipped source="@ + source
            + " attempt="@ + decimal(attempt as int) + " root="@ + hwnd_text(root)
            + " (invalid window)"@,
{
}

/// A probe of a window takes the next number, and one without a window takes none;
/// after the greatest number comes 0.
pub proof fn probes_take_the_next_number(next: u64)
    ensures
        after_probe(next, false) == next,
        next < u64::MAX ==> after_probe(next, true) == next + 1,
        after_probe(u64::MAX, true) == 0,
        following(next) == after_probe(next, true),
{
}

} // verus!
