//! Delayed probes of a window without a strong candidate.
use crate::bits::lower_bits_are_the_remainder;
use crate::text::{number_list_text, hwnd_text, push_hwnd, push_number_list};
use vstd::prelude::*;
use vstd::string::*;

verus! {

/// The first message number that is left to applications.
pub const WM_APP: u32 = 0x8000;

/// The message that asks the hook thread for a probe. Its first parameter is
/// the window, the second the number of the attempt.
pub const WM_SPIKE_PROBE: u32 = WM_APP + 0x51;

/// How long after the first probe each further one follows, in milliseconds.
pub const PROBE_RETRY_DELAYS_MS: [u64; 3] = [80, 220, 500];

/// A message to post to the hook thread after a delay.
pub struct ProbeRetry {
    pub delay_ms: u64,
    pub message: u32,
    pub wparam: usize,
    pub lparam: isize,
}

/// The delayed probes of a window, with the line that announces them.
pub struct RetrySchedule {
    pub line: String,
    pub retries: Vec<ProbeRetry>,
}

/// A probe that a message asks for.
pub struct DelayedProbe {
    pub root: usize,
    pub attempt: u32,
}

/// The message for one of the delayed probes of `root`; attempts count from 1.
pub open spec fn retry_of(root: usize, index: int) -> ProbeRetry {
    ProbeRetry {
        delay_ms: PROBE_RETRY_DELAYS_MS@[index],
        message: WM_SPIKE_PROBE,
        wparam: root,
        lparam: (index + 1) as isize,
    }
}

/// All delayed probes of `root`.
pub open spec fn retries_of(root: usize) -> Seq<ProbeRetry> {
    Seq::new(PROBE_RETRY_DELAYS_MS@.len(), |i: int| retry_of(root, i))
}

/// The line that announces the delayed probes of `root`.
pub open spec fn retries_line(root: usize) -> Seq<char> {
    "[SpikeTest] Scheduling retries root="@ + hwnd_text(root) + " delays_ms="@ + number_list_text(
        PROBE_RETRY_DELAYS_MS@,
    )
}

/// Plans the delayed probes of `root`.
pub fn schedule_probe_retries(root: usize) -> (r: RetrySchedule)
    ensures
        r.line@ == retries_line(root),
        r.retries@ == retries_of(root),
{
    let delays = PROBE_RETRY_DELAYS_MS;
    let mut line = "[SpikeTest] Scheduling retries root=".to_owned();
    push_hwnd(&mut line, root);
    line.append(" delays_ms=");
    push_number_list(&mut line, delays.as_slice());
    let mut retries: Vec<ProbeRetry> = Vec::new();
    let mut i: usize = 0;
    while i < delays.len()
        invariant
            i <= delays@.len(),
            delays@ == PROBE_RETRY_DELAYS_MS@,
            delays@.len() == 3,
            retries@ == retries_of(root).take(i as int),
        decreases delays@.len() - i,
    {
        retries.push(
            ProbeRetry {
                delay_ms: delays[i],
                message: WM_SPIKE_PROBE,
                wparam: root,
                lparam: i as isize + 1,
            },
        );
        assert(retries@ =~= retries_of(root).take(i + 1));
        i = i + 1;
    }
    assert(retries@ =~= retries_of(root));
    RetrySchedule { line, retries }
}

/// The line to log when a delayed message could not be posted.
pub fn retry_post_line(posted: bool) -> (r: Option<String>)
    ensures
        posted ==> r is None,
        !posted ==> r is Some && r->0@ == "[SpikeTest] delayed probe message post failed"@,
{
    if posted {
        None
    } else {
        Some("[SpikeTest] delayed probe message post failed".to_owned())
    }
}

/// The probe that a message asks for, if it is such a message.
pub open spec fn delayed_probe_of(message: u32, wparam: usize, lparam: isize) -> Option<
    DelayedProbe,
> {
    if message == WM_SPIKE_PROBE {
        Some(DelayedProbe { root: wparam, attempt: lparam as u32 })
    } else {
        None
    }
}

/// Reads the probe that a message asks for.
pub fn delayed_probe(message: u32, wparam: usize, lparam: isize) -> (r: Option<DelayedProbe>)
    ensures
        r == delayed_probe_of(message, wparam, lparam),
{
    if message == WM_SPIKE_PROBE {
        let attempt: u32 = #[verifier::truncate]
        (lparam as u32);
        Some(DelayedProbe { root: wparam, attempt })
    } else {
        None
    }
}

/// The hook thread reads each delayed message as the probe it was posted for:
/// same window, attempts 1, 2, 3 in the order of the delays.
pub proof fn retries_are_understood(root: usize, index: int)
    requires
        0 <= index < PROBE_RETRY_DELAYS_MS@.len(),
    ensures
        ({
            let retry = retries_of(root)[index];
            delayed_probe_of(retry.message, retry.wparam, retry.lparam) == Some(
                DelayedProbe { root, attempt: (index + 1) as u32 },
            )
        }),
{
}

/// Later attempts come after longer delays.
pub proof fn delays_increase(root: usize, i: int, j: int)
    requires
        0 <= i < j < retries_of(root).len(),
    ensures
        retries_of(root)[i].delay_ms < retries_of(root)[j].delay_ms,
{
}

/// Every window gets three delayed probes, after 80, 220 and 500 milliseconds,
/// as attempts 1, 2 and 3. The schedules of two windows differ in the window
/// alone.
pub proof fn retries_are_the_same_for_all_windows(root: usize, other: usize, i: int)
    requires
        0 <= i < 3,
    ensures
        retries_of(root).len() == 3,
        retries_of(root)[i].delay_ms == seq![80u64, 220, 500][i],
        retries_of(root)[i].message == 0x8051,
        retries_of(root)[i].wparam == root,
        retries_of(root)[i].lparam == i + 1,
        retries_of(other)[i] == (ProbeRetry { wparam: other, ..retries_of(root)[i] }),
{
}

/// A message asks for a probe exactly when it has the number that the schedule
/// uses, whatever its parameters. They are the window and the attempt, of which
/// the lower 32 bits count.
pub proof fn probes_are_asked_for_by_one_message(message: u32, wparam: usize, lparam: isize)
    ensures
        delayed_probe_of(message, wparam, lparam) is Some <==> message == 0x8051,
        delayed_probe_of(message, wparam, lparam) matches Some(probe) ==> {
            &&& probe.root == wparam
            &&& 0 <= lparam <= u32::MAX ==> probe.attempt == lparam
            &&& probe.attempt == lparam as int % 0x1_0000_0000
        },
{
    lower_bits_are_the_remainder(lparam);
}

/// The line of a schedule tells the window and the delays.
pub proof fn retries_are_announced(root: usize)
    ensures
        retries_line(root) == "[SpikeTest] Scheduling retries root="@ + hwnd_text(root)
            + " delays_ms="@ + number_list_text(seq![80u64, 220, 500]),
{
    assert(PROBE_RETRY_DELAYS_MS@ =~= seq![80u64, 220, 500]);
}

} // verus!
