//! Ranking of candidates, best first.
use crate::candidate::{candidate_views, CandidateView, ComboCandidate};
use vstd::prelude::*;

verus! {

/// The least score of a strong candidate.
pub const STRONG_CANDIDATE_SCORE: i32 = 8;

/// The least number of items of a strong candidate.
pub const STRONG_CANDIDATE_COUNT: isize = 20;

/// Tells whether `a` ranks before `b`: by score, then by number of items, then
/// by handle, the greater one first.
pub open spec fn outranks(a: CandidateView, b: CandidateView) -> bool {
    ||| a.score > b.score
    ||| a.score == b.score && a.count > b.count
    ||| a.score == b.score && a.count == b.count && a.hwnd > b.hwnd
}

/// Tells whether `order` lists each of the positions below `n` once.
pub open spec fn is_permutation(order: Seq<int>, n: nat) -> bool {
    &&& order.len() == n
    &&& order.no_duplicates()
    &&& forall|x: int| order.contains(x) <==> 0 <= x < n
}

/// Tells whether the candidate at position `x` belongs before the one at
/// position `y`: it outranks it, or neither does the other and it came first.
pub open spec fn precedes(candidates: Seq<CandidateView>, x: int, y: int) -> bool {
    ||| outranks(candidates[x], candidates[y])
    ||| !outranks(candidates[y], candidates[x]) && x < y
}

/// Tells whether `order` lists the positions of `candidates` by rank.
pub open spec fn is_rank_order(candidates: Seq<CandidateView>, order: Seq<int>) -> bool {
    &&& is_permutation(order, candidates.len())
    &&& forall|i: int, j: int|
        0 <= i < j < order.len() ==> precedes(candidates, #[trigger] order[i], #[trigger] order[j])
}

/// The candidates at the given positions.
pub open spec fn at_positions(candidates: Seq<CandidateView>, order: Seq<int>) -> Seq<
    CandidateView,
> {
    order.map_values(|x: int| candidates[x])
}

/// Tells whether `ranked` holds the same candidates as `candidates`, ranked;
/// those of equal rank keep their order.
pub open spec fn is_ranking(candidates: Seq<CandidateView>, ranked: Seq<CandidateView>) -> bool {
    exists|order: Seq<int>| #[trigger]
        is_rank_order(candidates, order) && ranked == at_positions(candidates, order)
}

/// A candidate that is so good that no further probe is needed.
pub open spec fn is_strong(candidate: CandidateView) -> bool {
    &&& candidate.score >= STRONG_CANDIDATE_SCORE
    &&& candidate.count >= STRONG_CANDIDATE_COUNT
    &&& candidate.decode_errors == 0
}

/// Tells whether there is a strong candidate.
pub open spec fn has_strong(candidates: Seq<CandidateView>) -> bool {
    exists|i: int| 0 <= i < candidates.len() && is_strong(#[trigger] candidates[i])
}

fn ranks_before(a: &ComboCandidate, b: &ComboCandidate) -> (r: bool)
    ensures
        r == outranks(a@, b@),
{
    if a.score != b.score {
        a.score > b.score
    } else if a.count != b.count {
        a.count > b.count
    } else {
        a.hwnd > b.hwnd
    }
}

/// Ranks the candidates, best first.
pub fn rank_candidates(candidates: &mut Vec<ComboCandidate>)
    ensures
        is_ranking(candidate_views(old(candidates)@), candidate_views(final(candidates)@)),
        forall|i: int, j: int|
            #![trigger final(candidates)@[i], final(candidates)@[j]]
            0 <= i < j < final(candidates)@.len() ==> {
                let (a, b) = (final(candidates)@[i], final(candidates)@[j]);
                &&& a.score >= b.score
                &&& a.score == b.score ==> a.count >= b.count
                &&& a.score == b.score && a.count == b.count ==> a.hwnd >= b.hwnd
            },
{
    let ghost before = candidates@;
    let ghost all = candidate_views(before);
    let mut ranked: Vec<ComboCandidate> = Vec::new();
    let ghost mut order: Seq<int> = Seq::empty();
    assert(candidate_views(ranked@) =~= at_positions(all, order));
    while candidates.len() > 0
        invariant
            candidates@.len() <= all.len(),
            all == candidate_views(before),
            candidates@ == before.take(candidates@.len() as int),
            candidate_views(ranked@) == at_positions(all, order),
            order.len() == all.len() - candidates@.len(),
            order.no_duplicates(),
            forall|x: int| order.contains(x) <==> candidates@.len() <= x < all.len(),
            forall|i: int, j: int|
                0 <= i < j < order.len() ==> precedes(
                    all,
                    #[trigger] order[i],
                    #[trigger] order[j],
                ),
        decreases candidates@.len(),
    {
        let ghost x = candidates@.len() - 1;
        match candidates.pop() {
            None => {},
            Some(candidate) => {
                assert(candidate@ == all[x]);
                assert(candidates@ =~= before.take(x));
                let mut at: usize = 0;
                while at < ranked.len() && ranks_before(&ranked[at], &candidate)
                    invariant
                        at <= ranked@.len(),
                        forall|i: int| 0 <= i < at ==> outranks(
                            #[trigger] candidate_views(ranked@)[i],
                            candidate@,
                        ),
                    decreases ranked@.len() - at,
                {
                    at = at + 1;
                }
                let ghost listed = candidate_views(ranked@);
                assert(listed.len() == order.len());
                proof {
                    lemma_insert_position(all, order, x, at as int);
                    order = order.insert(at as int, x);
                }
                ranked.insert(at, candidate);
                assert(candidate_views(ranked@) =~= listed.insert(at as int, candidate@));
                assert(candidate_views(ranked@) =~= at_positions(all, order));
            },
        }
    }
    assert(is_rank_order(all, order));
    proof {
        let shown = candidate_views(ranked@);
        ranking_goes_by_score_count_and_handle(all, shown);
        assert forall|i: int, j: int|
            #![trigger ranked@[i], ranked@[j]]
            0 <= i < j < ranked@.len() implies {
            let (a, b) = (ranked@[i], ranked@[j]);
            &&& a.score >= b.score
            &&& a.score == b.score ==> a.count >= b.count
            &&& a.score == b.score && a.count == b.count ==> a.hwnd >= b.hwnd
        } by {
            assert(shown[i] == ranked@[i]@ && shown[j] == ranked@[j]@);
        }
    }
    *candidates = ranked;
}

proof fn lemma_insert_position(all: Seq<CandidateView>, order: Seq<int>, x: int, at: int)
    requires
        0 <= x < all.len(),
        0 <= at <= order.len(),
        order.no_duplicates(),
        forall|y: int| order.contains(y) <==> x < y < all.len(),
        forall|i: int, j: int|
            0 <= i < j < order.len() ==> precedes(all, #[trigger] order[i], #[trigger] order[j]),
        forall|i: int| 0 <= i < at ==> outranks(#[trigger] at_positions(all, order)[i], all[x]),
        at < order.len() ==> !outranks(at_positions(all, order)[at], all[x]),
    ensures
        ({
            let new = order.insert(at, x);
            &&& new.no_duplicates()
            &&& forall|y: int| new.contains(y) <==> x <= y < all.len()
            &&& forall|i: int, j: int|
                0 <= i < j < new.len() ==> precedes(all, #[trigger] new[i], #[trigger] new[j])
        }),
{
    let new = order.insert(at, x);
    assert forall|k: int| 0 <= k < order.len() implies x < #[trigger] order[k] < all.len() by {
        assert(order.contains(order[k]));
    }
    assert forall|y: int| new.contains(y) <==> x <= y < all.len() by {
        if new.contains(y) {
            let k = choose|k: int| 0 <= k < new.len() && new[k] == y;
            if k < at {
                assert(order[k] == y);
            } else if k > at {
                assert(order[k - 1] == y);
            }
        }
        if x <= y < all.len() {
            if y == x {
                assert(new[at] == y);
            } else {
                assert(order.contains(y));
                let k = choose|k: int| 0 <= k < order.len() && order[k] == y;
                if k < at {
                    assert(new[k] == y);
                } else {
                    assert(new[k + 1] == y);
                }
            }
        }
    }
    assert forall|i: int, j: int| 0 <= i < j < new.len() implies precedes(
        all,
        #[trigger] new[i],
        #[trigger] new[j],
    ) by {
        if i < at && j == at {
            assert(at_positions(all, order)[i] == all[order[i]]);
        } else if i == at {
            let k = j - 1;
            assert(new[j] == order[k]);
            assert(at_positions(all, order)[at] == all[order[at]]);
            if k > at {
                assert(precedes(all, order[at], order[k]));
            }
        } else if j < at {
            assert(precedes(all, order[i], order[j]));
        } else if i < at {
            assert(precedes(all, order[i], order[j - 1]));
        } else {
            assert(precedes(all, order[i - 1], order[j - 1]));
        }
    }
}

/// Tells whether there is a strong candidate.
pub fn strong_candidate_found(candidates: &Vec<ComboCandidate>) -> (r: bool)
    ensures
        r == has_strong(candidate_views(candidates@)),
        r == exists|i: int|
            #![trigger candidates@[i]]
            0 <= i < candidates@.len() && candidates@[i].score >= 8 && candidates@[i].count >= 20
                && candidates@[i].decode_errors == 0,
{
    let mut i: usize = 0;
    while i < candidates.len()
        invariant
            i <= candidates@.len(),
            forall|j: int| 0 <= j < i ==> !is_strong(#[trigger] candidate_views(candidates@)[j]),
            forall|j: int|
                #![trigger candidates@[j]]
                0 <= j < i ==> !(candidates@[j].score >= 8 && candidates@[j].count >= 20
                    && candidates@[j].decode_errors == 0),
        decreases candidates@.len() - i,
    {
        let candidate = &candidates[i];
        if candidate.score >= STRONG_CANDIDATE_SCORE && candidate.count >= STRONG_CANDIDATE_COUNT
            && candidate.decode_errors == 0 {
            assert(is_strong(candidate_views(candidates@)[i as int]));
            return true;
        }
        i = i + 1;
    }
    false
}

proof fn lemma_same_order(candidates: Seq<CandidateView>, a: Seq<int>, b: Seq<int>, k: int)
    requires
        is_rank_order(candidates, a),
        is_rank_order(candidates, b),
        0 <= k <= a.len(),
    ensures
        forall|i: int| 0 <= i < k ==> a[i] == b[i],
    decreases k,
{
    if k > 0 {
        lemma_same_order(candidates, a, b, k - 1);
        let x = a[k - 1];
        let y = b[k - 1];
        if x != y {
            assert(a.contains(x));
            assert(b.contains(y));
            assert(b.contains(x));
            assert(a.contains(y));
            let m = choose|m: int| 0 <= m < b.len() && b[m] == x;
            let n = choose|n: int| 0 <= n < a.len() && a[n] == y;
            assert(m >= k) by {
                if m < k - 1 {
                    assert(a[m] == x);
                }
            }
            assert(n >= k) by {
                if n < k - 1 {
                    assert(b[n] == y);
                }
            }
            assert(precedes(candidates, b[k - 1], b[m]));
            assert(precedes(candidates, a[k - 1], a[n]));
        }
    }
}

/// The ranking is determined: there is one ranking of given candidates.
pub proof fn ranking_is_unique(
    candidates: Seq<CandidateView>,
    a: Seq<CandidateView>,
    b: Seq<CandidateView>,
)
    requires
        is_ranking(candidates, a),
        is_ranking(candidates, b),
    ensures
        a == b,
{
    let p = choose|p: Seq<int>| #[trigger]
        is_rank_order(candidates, p) && a == at_positions(candidates, p);
    let q = choose|q: Seq<int>| #[trigger]
        is_rank_order(candidates, q) && b == at_positions(candidates, q);
    lemma_same_order(candidates, p, q, p.len() as int);
    assert(p =~= q);
}

proof fn lemma_same_multiset(candidates: Seq<CandidateView>, order: Seq<int>)
    requires
        is_permutation(order, candidates.len()),
    ensures
        at_positions(candidates, order).to_multiset() == candidates.to_multiset(),
    decreases candidates.len(),
{
    let listed = at_positions(candidates, order);
    if candidates.len() == 0 {
        assert(listed =~= candidates);
    } else {
        let last = candidates.len() - 1;
        assert(order.contains(last));
        let k = choose|k: int| 0 <= k < order.len() && order[k] == last;
        let rest = order.remove(k);
        let front = candidates.drop_last();
        assert forall|x: int| rest.contains(x) <==> 0 <= x < last by {
            if rest.contains(x) {
                let i = choose|i: int| 0 <= i < rest.len() && rest[i] == x;
                let j = if i < k { i } else { i + 1 };
                assert(order[j] == x);
                assert(order.contains(x));
            }
            if 0 <= x < last {
                assert(order.contains(x));
                let j = choose|j: int| 0 <= j < order.len() && order[j] == x;
                let i = if j < k { j } else { j - 1 };
                assert(rest[i] == x);
            }
        }
        assert(is_permutation(rest, front.len()));
        lemma_same_multiset(front, rest);
        assert forall|i: int| 0 <= i < rest.len() implies 0 <= #[trigger] rest[i] < last by {
            assert(rest.contains(rest[i]));
        }
        assert(listed.remove(k) =~= at_positions(front, rest));
        listed.to_multiset_ensures();
        front.to_multiset_ensures();
        assert(front.push(candidates.last()) =~= candidates);
        assert(listed.contains(listed[k]));
        assert(listed.to_multiset() =~= listed.to_multiset().remove(listed[k]).insert(listed[k]));
    }
}

/// A ranking holds the candidates that were ranked and no others, each as
/// often as before, and the earlier of two is never outranked by the later.
pub proof fn ranking_is_sorted(candidates: Seq<CandidateView>, ranked: Seq<CandidateView>)
    requires
        is_ranking(candidates, ranked),
    ensures
        ranked.to_multiset() == candidates.to_multiset(),
        ranked.len() == candidates.len(),
        forall|c: CandidateView| ranked.contains(c) <==> candidates.contains(c),
        forall|i: int, j: int|
            0 <= i < j < ranked.len() ==> !outranks(#[trigger] ranked[j], #[trigger] ranked[i]),
{
    let order = choose|order: Seq<int>| #[trigger]
        is_rank_order(candidates, order) && ranked == at_positions(candidates, order);
    lemma_same_multiset(candidates, order);
    assert forall|c: CandidateView| ranked.contains(c) <==> candidates.contains(c) by {
        if ranked.contains(c) {
            let k = choose|k: int| 0 <= k < ranked.len() && ranked[k] == c;
            assert(order.contains(order[k]));
            assert(candidates[order[k]] == c);
        }
        if candidates.contains(c) {
            let x = choose|x: int| 0 <= x < candidates.len() && candidates[x] == c;
            assert(order.contains(x));
            let k = choose|k: int| 0 <= k < order.len() && order[k] == x;
            assert(ranked[k] == c);
        }
    }
    assert forall|i: int, j: int| 0 <= i < j < ranked.len() implies !outranks(
        #[trigger] ranked[j],
        #[trigger] ranked[i],
    ) by {
        assert(precedes(candidates, order[i], order[j]));
    }
}

/// Ranking does not change whether there is a strong candidate.
pub proof fn ranking_keeps_strength(candidates: Seq<CandidateView>, ranked: Seq<CandidateView>)
    requires
        is_ranking(candidates, ranked),
    ensures
        has_strong(ranked) == has_strong(candidates),
{
    ranking_is_sorted(candidates, ranked);
    if has_strong(candidates) {
        let i = choose|i: int| 0 <= i < candidates.len() && is_strong(#[trigger] candidates[i]);
        assert(candidates.contains(candidates[i]));
        assert(ranked.contains(candidates[i]));
    }
    if has_strong(ranked) {
        let i = choose|i: int| 0 <= i < ranked.len() && is_strong(#[trigger] ranked[i]);
        assert(ranked.contains(ranked[i]));
        assert(candidates.contains(ranked[i]));
    }
}

/// Tells whether no window occurs twice.
pub open spec fn distinct_windows(candidates: Seq<CandidateView>) -> bool {
    forall|i: int, j: int|
        0 <= i < j < candidates.len() ==> (#[trigger] candidates[i]).hwnd != (
        #[trigger] candidates[j]).hwnd
}

proof fn lemma_strictly_ranked(candidates: Seq<CandidateView>, ranked: Seq<CandidateView>)
    requires
        distinct_windows(candidates),
        is_ranking(candidates, ranked),
    ensures
        forall|i: int, j: int|
            0 <= i < j < ranked.len() ==> outranks(#[trigger] ranked[i], #[trigger] ranked[j]),
{
    let order = choose|order: Seq<int>| #[trigger]
        is_rank_order(candidates, order) && ranked == at_positions(candidates, order);
    assert forall|i: int, j: int| 0 <= i < j < ranked.len() implies outranks(
        #[trigger] ranked[i],
        #[trigger] ranked[j],
    ) by {
        assert(order.contains(order[i]) && order.contains(order[j]));
        assert(order[i] != order[j]);
        assert(candidates[order[i]].hwnd != candidates[order[j]].hwnd);
        assert(precedes(candidates, order[i], order[j]));
    }
}

proof fn lemma_same_ranking(a: Seq<CandidateView>, b: Seq<CandidateView>, k: int)
    requires
        a.len() == b.len(),
        forall|c: CandidateView| a.contains(c) <==> b.contains(c),
        forall|i: int, j: int| 0 <= i < j < a.len() ==> outranks(#[trigger] a[i], #[trigger] a[j]),
        forall|i: int, j: int| 0 <= i < j < b.len() ==> outranks(#[trigger] b[i], #[trigger] b[j]),
        0 <= k <= a.len(),
    ensures
        forall|i: int| 0 <= i < k ==> a[i] == b[i],
    decreases k,
{
    if k > 0 {
        lemma_same_ranking(a, b, k - 1);
        let x = a[k - 1];
        let y = b[k - 1];
        assert(a.contains(x) && b.contains(y));
        let m = choose|m: int| 0 <= m < b.len() && b[m] == x;
        let n = choose|n: int| 0 <= n < a.len() && a[n] == y;
        if m < k - 1 {
            assert(a[m] == x);
        }
        if n < k - 1 {
            assert(b[n] == y);
        }
        if x != y {
            assert(outranks(b[k - 1], b[m]));
            assert(outranks(a[k - 1], a[n]));
        }
    }
}

proof fn lemma_same_length(a: Seq<CandidateView>, b: Seq<CandidateView>)
    requires
        distinct_windows(a),
        distinct_windows(b),
        forall|c: CandidateView| a.contains(c) <==> b.contains(c),
    ensures
        a.len() == b.len(),
{
    assert(a.no_duplicates() && b.no_duplicates());
    assert(a.to_set() =~= b.to_set());
    a.unique_seq_to_set();
    b.unique_seq_to_set();
}

/// The ranking of different windows does not depend on the order in which they
/// were enumerated: the same contents are ranked alike.
pub proof fn ranking_ignores_enumeration_order(
    a: Seq<CandidateView>,
    b: Seq<CandidateView>,
    ranked_a: Seq<CandidateView>,
    ranked_b: Seq<CandidateView>,
)
    requires
        distinct_windows(a),
        distinct_windows(b),
        forall|c: CandidateView| a.contains(c) <==> b.contains(c),
        is_ranking(a, ranked_a),
        is_ranking(b, ranked_b),
    ensures
        ranked_a == ranked_b,
{
    lemma_same_length(a, b);
    ranking_is_sorted(a, ranked_a);
    ranking_is_sorted(b, ranked_b);
    lemma_strictly_ranked(a, ranked_a);
    lemma_strictly_ranked(b, ranked_b);
    lemma_same_ranking(ranked_a, ranked_b, ranked_a.len() as int);
    assert(ranked_a =~= ranked_b);
}

/// Of two candidates the earlier one has the greater score; of two with the same
/// score the greater number of items; of two that agree in both the greater
/// handle.
pub proof fn ranking_goes_by_score_count_and_handle(
    candidates: Seq<CandidateView>,
    ranked: Seq<CandidateView>,
)
    requires
        is_ranking(candidates, ranked),
    ensures
        forall|i: int, j: int|
            #![trigger ranked[i], ranked[j]]
            0 <= i < j < ranked.len() ==> {
                &&& ranked[i].score >= ranked[j].score
                &&& ranked[i].score == ranked[j].score ==> ranked[i].count >= ranked[j].count
                &&& ranked[i].score == ranked[j].score && ranked[i].count == ranked[j].count
                    ==> ranked[i].hwnd >= ranked[j].hwnd
            },
{
    ranking_is_sorted(candidates, ranked);
}

/// A ranking is a rearrangement in which candidates that agree in score, number
/// of items and handle stay in the order in which they came.
pub proof fn ranking_is_stable(candidates: Seq<CandidateView>, ranked: Seq<CandidateView>)
    requires
        is_ranking(candidates, ranked),
    ensures
        exists|order: Seq<int>|
            {
                &&& #[trigger] order.no_duplicates()
                &&& order.len() == candidates.len() == ranked.len()
                &&& forall|i: int|
                    #![trigger order[i]]
                    0 <= i < order.len() ==> 0 <= order[i] < candidates.len() && ranked[i]
                        == candidates[order[i]]
                &&& forall|i: int, j: int|
                    #![trigger order[i], order[j]]
                    0 <= i < j < order.len() && ranked[i].score == ranked[j].score
                        && ranked[i].count == ranked[j].count && ranked[i].hwnd == ranked[j].hwnd
                        ==> order[i] < order[j]
            },
{
    let order = choose|order: Seq<int>| #[trigger]
        is_rank_order(candidates, order) && ranked == at_positions(candidates, order);
    assert forall|i: int| #![trigger order[i]] 0 <= i < order.len() implies 0 <= order[i]
        < candidates.len() && ranked[i] == candidates[order[i]] by {
        assert(order.contains(order[i]));
    }
    assert forall|i: int, j: int|
        #![trigger order[i], order[j]]
        0 <= i < j < order.len() && ranked[i].score == ranked[j].score && ranked[i].count
            == ranked[j].count && ranked[i].hwnd == ranked[j].hwnd implies order[i] < order[j] by {
        assert(precedes(candidates, order[i], order[j]));
    }
    assert(order.no_duplicates());
}

/// Nothing but score, number of items and handle decides the order: candidates
/// that agree in these are arranged alike, whatever else tells them apart.
pub proof fn ranking_ignores_other_fields(
    a: Seq<CandidateView>,
    b: Seq<CandidateView>,
    ranked_a: Seq<CandidateView>,
    ranked_b: Seq<CandidateView>,
)
    requires
        is_ranking(a, ranked_a),
        is_ranking(b, ranked_b),
        a.len() == b.len(),
        forall|i: int|
            #![trigger a[i]]
            #![trigger b[i]]
            0 <= i < a.len() ==> a[i].score == b[i].score && a[i].count == b[i].count && a[i].hwnd
                == b[i].hwnd,
    ensures
        exists|order: Seq<int>|
            {
                &&& #[trigger] order.no_duplicates()
                &&& order.len() == a.len() == ranked_a.len() == ranked_b.len()
                &&& forall|i: int|
                    #![trigger order[i]]
                    0 <= i < order.len() ==> 0 <= order[i] < a.len() && ranked_a[i] == a[order[i]]
                        && ranked_b[i] == b[order[i]]
            },
{
    let order = choose|order: Seq<int>| #[trigger]
        is_rank_order(a, order) && ranked_a == at_positions(a, order);
    assert(is_rank_order(b, order)) by {
        assert forall|i: int, j: int| 0 <= i < j < order.len() implies precedes(
            b,
            #[trigger] order[i],
            #[trigger] order[j],
        ) by {
            assert(order.contains(order[i]) && order.contains(order[j]));
            assert(precedes(a, order[i], order[j]));
        }
    }
    assert(is_ranking(b, at_positions(b, order)));
    ranking_is_unique(b, ranked_b, at_positions(b, order));
    assert forall|i: int| #![trigger order[i]] 0 <= i < order.len() implies 0 <= order[i] < a.len()
        && ranked_a[i] == a[order[i]] && ranked_b[i] == b[order[i]] by {
        assert(order.contains(order[i]));
    }
    assert(order.no_duplicates());
}

/// There is a strong candidate exactly when one has at least 8 points and at
/// least 20 items, and none of its items was malformed.
pub proof fn strength_takes_points_items_and_clean_text(candidates: Seq<CandidateView>)
    ensures
        has_strong(candidates) <==> exists|i: int|
            #![trigger candidates[i]]
            0 <= i < candidates.len() && candidates[i].score >= 8 && candidates[i].count >= 20
                && candidates[i].decode_errors == 0,
{
}

/// A strong candidate stays strong when it gains points or items, and more
/// candidates do not take the strength away.
pub proof fn strength_grows(
    candidates: Seq<CandidateView>,
    others: Seq<CandidateView>,
    i: int,
    j: int,
)
    requires
        0 <= i < candidates.len(),
        is_strong(candidates[i]),
        0 <= j < others.len(),
        others[j].score >= candidates[i].score,
        others[j].count >= candidates[i].count,
        others[j].decode_errors == 0,
    ensures
        is_strong(others[j]),
        has_strong(candidates),
        has_strong(others),
{
}

} // verus!
