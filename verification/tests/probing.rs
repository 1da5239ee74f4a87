use aviutl2_font_select_helper::candidate::ComboCandidate;
use aviutl2_font_select_helper::probe::{
    begin_collection, collect_combo_proc, run_probe, ProbeOutcome, ProbeSequence, ScanEnd,
};
use aviutl2_font_select_helper::rank::{rank_candidates, strong_candidate_found};

fn candidate(hwnd: usize, score: i32, count: isize) -> ComboCandidate {
    ComboCandidate {
        hwnd,
        count,
        score,
        is_dropdownlist: true,
        visible: true,
        enabled: false,
        decode_errors: 0,
        samples: vec![format!("font {}", hwnd)],
    }
}

fn handles(candidates: &[ComboCandidate]) -> Vec<usize> {
    candidates.iter().map(|c| c.hwnd).collect()
}

#[test]
fn ranking_goes_by_score_then_count_then_handle() {
    let mut candidates = vec![
        candidate(1, 3, 10),
        candidate(2, 8, 10),
        candidate(3, 8, 40),
        candidate(4, 8, 10),
        candidate(5, -2, 900),
    ];
    rank_candidates(&mut candidates);
    assert_eq!(handles(&candidates), vec![3, 4, 2, 1, 5]);
    let mut reversed = candidates.clone();
    reversed.reverse();
    rank_candidates(&mut reversed);
    assert_eq!(handles(&reversed), handles(&candidates));
    let mut none: Vec<ComboCandidate> = vec![];
    rank_candidates(&mut none);
    assert!(none.is_empty());
}

#[test]
fn equal_ranks_keep_their_order() {
    let mut candidates: Vec<ComboCandidate> = (0..6).map(|i| candidate(9, 1, i % 2)).collect();
    for (i, c) in candidates.iter_mut().enumerate() {
        c.decode_errors = i;
    }
    let mut expected = candidates.clone();
    expected.sort_by(|a, b| b.count.cmp(&a.count));
    rank_candidates(&mut candidates);
    let order: Vec<usize> = candidates.iter().map(|c| c.decode_errors).collect();
    let expected: Vec<usize> = expected.iter().map(|c| c.decode_errors).collect();
    assert_eq!(order, expected);
    assert_eq!(order, vec![1, 3, 5, 0, 2, 4]);
}

#[test]
fn strength_needs_score_items_and_clean_text() {
    assert!(strong_candidate_found(&vec![candidate(1, 0, 0), candidate(2, 8, 20)]));
    assert!(!strong_candidate_found(&vec![candidate(2, 7, 20), candidate(3, 8, 19)]));
    let mut spoiled = candidate(2, 11, 200);
    spoiled.decode_errors = 1;
    assert!(!strong_candidate_found(&vec![spoiled]));
    assert!(!strong_candidate_found(&vec![]));
}

#[test]
fn enumeration_collects_and_goes_on() {
    let mut candidates = begin_collection(None);
    assert!(candidates.is_empty());
    for end in [
        ScanEnd::Found(candidate(4, 1, 1)),
        ScanEnd::Nothing,
        ScanEnd::Found(candidate(2, 9, 1)),
    ] {
        let step = collect_combo_proc(&mut candidates, end);
        assert_eq!(step.go_on, 1);
        assert!(step.line.is_none());
    }
    assert_eq!(handles(&candidates), vec![4, 2]);
}

#[test]
fn window_itself_comes_first() {
    let mut candidates = begin_collection(Some(candidate(7, 1, 1)));
    collect_combo_proc(&mut candidates, ScanEnd::Found(candidate(8, 9, 1)));
    assert_eq!(handles(&candidates), vec![7, 8]);
}

#[test]
fn panic_costs_one_candidate() {
    let mut candidates = begin_collection(Some(candidate(7, 1, 1)));
    let step = collect_combo_proc(&mut candidates, ScanEnd::Panicked);
    assert_eq!(step.go_on, 1);
    assert_eq!(
        step.line.unwrap(),
        "[SpikeTest] panic in collect_combo_proc callback"
    );
    collect_combo_proc(&mut candidates, ScanEnd::Found(candidate(8, 9, 1)));
    assert_eq!(handles(&candidates), vec![7, 8]);
}

#[test]
fn whole_enumeration_is_collected_in_order() {
    let mut candidates = begin_collection(Some(candidate(7, 1, 1)));
    for end in [
        ScanEnd::Panicked,
        ScanEnd::Found(candidate(3, 8, 20)),
        ScanEnd::Nothing,
        ScanEnd::Panicked,
        ScanEnd::Found(candidate(9, 2, 5)),
    ] {
        collect_combo_proc(&mut candidates, end);
    }
    assert_eq!(handles(&candidates), vec![7, 3, 9]);
    assert!(strong_candidate_found(&candidates));
    candidates.remove(1);
    assert!(!strong_candidate_found(&candidates));
}

#[test]
fn only_probes_of_windows_take_numbers() {
    let mut sequence = ProbeSequence::new();
    let mut numbers: Vec<String> = Vec::new();
    for there in [true, false, false, true, true, false, true] {
        let found = if there { Some(vec![]) } else { None };
        let report = run_probe(&mut sequence, 1, "DELAYED", 1, found);
        let heading = report.lines[0].split(' ').nth(1).unwrap().to_string();
        if there {
            numbers.push(heading);
        } else {
            assert_eq!(heading, "Probe");
        }
    }
    assert_eq!(numbers, vec!["Probe#1", "Probe#2", "Probe#3", "Probe#4"]);
    assert_eq!(sequence.next, 5);
}

#[test]
fn probe_without_window_is_skipped() {
    let mut sequence = ProbeSequence::new();
    let report = run_probe(&mut sequence, 0x2a, "DELAYED", 3, None);
    assert!(!report.outcome.strong_found);
    assert_eq!(
        report.lines,
        vec!["[SpikeTest] Probe skipped source=DELAYED attempt=3 root=HWND(0x2a) (invalid window)"]
    );
    assert!(report.ranked.is_empty());
    assert_eq!(sequence.next, 1);
}

#[test]
fn probe_without_combo_boxes() {
    let mut sequence = ProbeSequence::new();
    let report = run_probe(&mut sequence, 16, "EVENT_OBJECT_SHOW", 0, Some(vec![]));
    assert!(!report.outcome.strong_found);
    assert_eq!(
        report.lines,
        vec!["[SpikeTest] Probe#1 source=EVENT_OBJECT_SHOW attempt=0 root=HWND(0x10) combos=0 strong=false"]
    );
    assert_eq!(sequence.next, 2);
}

#[test]
fn probe_tells_of_the_best() {
    let mut sequence = ProbeSequence { next: 41 };
    let found = vec![
        candidate(1, 3, 10),
        candidate(2, 4, 10),
        candidate(0xab, 9, 60),
        candidate(4, -1, 10),
    ];
    let report = run_probe(&mut sequence, 0x10, "DELAYED", 2, Some(found));
    assert!(report.outcome.strong_found);
    assert_eq!(handles(&report.ranked), vec![0xab, 2, 1, 4]);
    assert_eq!(
        report.lines,
        vec![
            "[SpikeTest] Probe#41 source=DELAYED attempt=2 root=HWND(0x10) combos=4 strong=true best_score=9 best_hwnd=HWND(0xab) best_count=60 best_samples=[\"font 171\"]",
            "[SpikeTest] Candidate hwnd=HWND(0xab) score=9 count=60 dropdownlist=true visible=true enabled=false decode_errors=0 samples=[\"font 171\"]",
            "[SpikeTest] Candidate hwnd=HWND(0x2) score=4 count=10 dropdownlist=true visible=true enabled=false decode_errors=0 samples=[\"font 2\"]",
            "[SpikeTest] Candidate hwnd=HWND(0x1) score=3 count=10 dropdownlist=true visible=true enabled=false decode_errors=0 samples=[\"font 1\"]",
        ]
    );
    assert_eq!(sequence.next, 42);
}

#[test]
fn samples_are_shown_quoted() {
    let mut odd = candidate(1, 0, 1);
    odd.samples = vec!["a\"b".to_string(), "\u{3042}\n".to_string()];
    let shown = format!("{:?}", odd.samples);
    let report = run_probe(&mut ProbeSequence::new(), 1, "DELAYED", 1, Some(vec![odd]));
    assert_eq!(report.lines.len(), 2);
    assert!(report.lines[1].ends_with(&format!(" samples={}", shown)));
}

#[test]
fn probe_numbers_are_consecutive() {
    let mut sequence = ProbeSequence::new();
    assert_eq!(sequence.fetch(), 1);
    assert_eq!(sequence.fetch(), 2);
    let mut sequence = ProbeSequence { next: u64::MAX };
    assert_eq!(sequence.fetch(), u64::MAX);
    assert_eq!(sequence.fetch(), 0);
}

#[test]
fn default_outcome_is_not_strong() {
    assert!(!ProbeOutcome::default().strong_found);
}
