//! Throttling: a window is probed at most once in a while.
use std::collections::HashMap;
use vstd::prelude::*;

verus! {

broadcast use vstd::std_specs::hash::group_hash_axioms;

/// The least time between two probes of one window, in milliseconds.
pub const PROBE_MIN_INTERVAL_MS: u64 = 150;

/// Nanoseconds in a millisecond.
pub const NANOS_PER_MILLI: u128 = 1_000_000;

/// The least time between two probes of one window, in nanoseconds.
pub open spec fn min_interval() -> int {
    PROBE_MIN_INTERVAL_MS * NANOS_PER_MILLI
}

/// When each window was probed last. Windows are known by their handles, times
/// are nanoseconds of a clock.
pub struct ProbeHistory {
    last_probe: HashMap<usize, u128>,
}

impl View for ProbeHistory {
    type V = Map<usize, u128>;

    closed spec fn view(&self) -> Map<usize, u128> {
        self.last_probe@
    }
}

/// Tells whether a probe of `root` at the time `now` is due: the window was
/// never probed, or not for the least interval. A clock that runs backwards
/// counts as one that stands still.
pub open spec fn probe_is_due(history: Map<usize, u128>, root: usize, now: u128) -> bool {
    history.contains_key(root) ==> now - history[root] >= min_interval()
}

/// The history after a request to probe `root` at the time `now`: a probe that
/// is due is recorded, one that is not leaves no trace.
pub open spec fn history_after(history: Map<usize, u128>, root: usize, now: u128) -> Map<
    usize,
    u128,
> {
    if probe_is_due(history, root, now) {
        history.insert(root, now)
    } else {
        history
    }
}

impl ProbeHistory {
    /// A history without any probe.
    pub fn new() -> (r: ProbeHistory)
        ensures
            r@ == Map::<usize, u128>::empty(),
    {
        ProbeHistory { last_probe: HashMap::new() }
    }
}

/// The history in `slot`, which starts empty the first time it is asked for.
pub fn probe_history(slot: &mut Option<ProbeHistory>) -> (r: &mut ProbeHistory)
    ensures
        (*old(slot)) matches Some(history) ==> *r == history,
        *old(slot) is None ==> r@ == Map::<usize, u128>::empty(),
        *final(slot) == Some(*final(r)),
{
    slot.get_or_insert(ProbeHistory::new())
}

/// Decides whether to probe `root` at the time `now`, in nanoseconds, and
/// records the probe if so.
pub fn should_probe_now(history: &mut ProbeHistory, root: usize, now: u128) -> (r: bool)
    ensures
        r == probe_is_due(old(history)@, root, now),
        final(history)@ == history_after(old(history)@, root, now),
        r == (!old(history)@.contains_key(root) || now >= old(history)@[root] + 150_000_000),
        r ==> final(history)@ == old(history)@.insert(root, now),
        !r ==> final(history)@ == old(history)@,
{
    if let Some(last) = history.last_probe.get(&root) {
        let elapsed: u128 = if now >= *last { now - *last } else { 0 };
        if elapsed < PROBE_MIN_INTERVAL_MS as u128 * NANOS_PER_MILLI {
            return false;
        }
    }
    history.last_probe.insert(root, now);
    true
}

/// A request to probe a window.
pub struct ProbeRequest {
    pub root: usize,
    pub now: u128,
}

/// The history after a sequence of requests.
pub open spec fn replayed(history: Map<usize, u128>, requests: Seq<ProbeRequest>) -> Map<
    usize,
    u128,
>
    decreases requests.len(),
{
    if requests.len() == 0 {
        history
    } else {
        let request = requests.last();
        history_after(replayed(history, requests.drop_last()), request.root, request.now)
    }
}

/// Tells whether the request at position `i` of a sequence led to a probe.
pub open spec fn was_probed(
    history: Map<usize, u128>,
    requests: Seq<ProbeRequest>,
    i: int,
) -> bool {
    probe_is_due(replayed(history, requests.take(i)), requests[i].root, requests[i].now)
}

proof fn lemma_last_probe_grows(
    history: Map<usize, u128>,
    requests: Seq<ProbeRequest>,
    i: int,
    n: int,
)
    requires
        0 <= i < n <= requests.len(),
        was_probed(history, requests, i),
    ensures
        replayed(history, requests.take(n)).contains_key(requests[i].root),
        replayed(history, requests.take(n))[requests[i].root] >= requests[i].now,
    decreases n,
{
    assert(requests.take(n).drop_last() =~= requests.take(n - 1));
    assert(requests.take(n).last() == requests[n - 1]);
    if i < n - 1 {
        lemma_last_probe_grows(history, requests, i, n - 1);
    }
}

/// Whatever the requests and whatever the clock does, two probes of one window
/// lie at least the least interval apart.
pub proof fn probes_are_spaced(
    history: Map<usize, u128>,
    requests: Seq<ProbeRequest>,
    i: int,
    j: int,
)
    requires
        0 <= i < j < requests.len(),
        requests[i].root == requests[j].root,
        was_probed(history, requests, i),
        was_probed(history, requests, j),
    ensures
        requests[j].now >= requests[i].now + min_interval(),
{
    lemma_last_probe_grows(history, requests, i, j);
}

/// A request for one window does not delay the probes of another.
pub proof fn windows_are_throttled_apart(
    history: Map<usize, u128>,
    request: ProbeRequest,
    root: usize,
    now: u128,
)
    requires
        root != request.root,
    ensures
        probe_is_due(history_after(history, request.root, request.now), root, now) == probe_is_due(
            history,
            root,
            now,
        ),
{
}

proof fn lemma_last_probe_stays(
    history: Map<usize, u128>,
    root: usize,
    probed: u128,
    requests: Seq<ProbeRequest>,
)
    requires
        history.contains_key(root),
        history[root] == probed,
        forall|i: int|
            0 <= i < requests.len() && (#[trigger] requests[i]).root == root ==> !was_probed(
                history,
                requests,
                i,
            ),
    ensures
        replayed(history, requests).contains_key(root),
        replayed(history, requests)[root] == probed,
    decreases requests.len(),
{
    if requests.len() > 0 {
        let front = requests.drop_last();
        assert forall|i: int| 0 <= i < front.len() && (#[trigger] front[i]).root
            == root implies !was_probed(history, front, i) by {
            assert(front[i] == requests[i]);
            assert(front.take(i) =~= requests.take(i));
        }
        lemma_last_probe_stays(history, root, probed, front);
        let last = requests.len() - 1;
        assert(requests[last].root == root ==> !was_probed(history, requests, last));
        assert(requests.take(last) =~= front);
    }
}

/// After a probe, the next one of that window is due exactly when the least
/// interval is over, whatever was requested meanwhile, as long as no request
/// for that window led to a probe.
pub proof fn probe_is_due_after_interval(
    history: Map<usize, u128>,
    root: usize,
    probed: u128,
    requests: Seq<ProbeRequest>,
    now: u128,
)
    requires
        probe_is_due(history, root, probed),
        forall|i: int|
            0 <= i < requests.len() && (#[trigger] requests[i]).root == root ==> !was_probed(
                history_after(history, root, probed),
                requests,
                i,
            ),
    ensures
        probe_is_due(replayed(history_after(history, root, probed), requests), root, now) <==> now
            >= probed + min_interval(),
{
    lemma_last_probe_stays(history_after(history, root, probed), root, probed, requests);
}

/// A window is probed exactly when it never was before, or 150 milliseconds ago
/// or more. Only a probe is recorded, and only for its own window.
pub proof fn throttle_lasts_150_milliseconds(
    history: Map<usize, u128>,
    root: usize,
    other: usize,
    now: u128,
)
    requires
        other != root,
    ensures
        !history.contains_key(root) ==> probe_is_due(history, root, now),
        history.contains_key(root) ==> (probe_is_due(history, root, now) <==> now >= history[root]
            + 150_000_000),
        probe_is_due(history, root, now) ==> {
            &&& history_after(history, root, now).contains_key(root)
            &&& history_after(history, root, now)[root] == now
        },
        !probe_is_due(history, root, now) ==> history_after(history, root, now) == history,
        history_after(history, root, now).contains_key(other) == history.contains_key(other),
        history_after(history, root, now)[other] == history[other],
{
}

/// Of two requests for a window that was never probed the first leads to a probe,
/// and the second exactly when it comes 150 milliseconds later or more.
pub proof fn first_request_is_never_refused(
    history: Map<usize, u128>,
    root: usize,
    first: u128,
    second: u128,
)
    requires
        !history.contains_key(root),
    ensures
        probe_is_due(history, root, first),
        probe_is_due(history_after(history, root, first), root, second) <==> second - first
            >= 150_000_000,
{
}

} // verus!
