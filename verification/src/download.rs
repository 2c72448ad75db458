//! Download planning: whether to split a file, the byte range of each
//! part, resuming saved progress, and the decisions of the part workers and
//! of the monitor that watches them.
use vstd::prelude::*;
use crate::text::{dec, push_char, push_decimal, push_str};

verus! {

/// Files of known size from ten MiB on are fetched in parallel parts;
/// smaller ones, and those of unknown size, over a single connection.
pub open spec fn spec_use_parallel(total: Option<u64>) -> bool {
    match total {
        Some(s) => s >= 10 * 1024 * 1024,
        None => false,
    }
}

/// Whether a download is split into parallel parts.
pub fn use_parallel(total: Option<u64>) -> (r: bool)
    ensures
        r == spec_use_parallel(total),
{
    match total {
        Some(s) => s >= 10 * 1024 * 1024,
        None => false,
    }
}

/// The byte range `(first, last)` of part `i` of `n` over `total` bytes:
/// equal parts of `total / n` bytes, the last one taking the remainder.
pub open spec fn spec_part_range(total: nat, n: nat, i: nat) -> (nat, nat) {
    let chunk = total / n;
    let first = i * chunk;
    let last = if i + 1 == n { (total - 1) as nat } else { ((i + 1) * chunk - 1) as nat };
    (first, last)
}

/// The byte range of part `i` of `n` of a `total`-byte file.
pub fn part_range(total: u64, n: u64, i: u64) -> (r: (u64, u64))
    requires
        1 <= n <= total,
        i < n,
    ensures
        (r.0 as nat, r.1 as nat) == spec_part_range(total as nat, n as nat, i as nat),
{
    let chunk = total / n;
    proof {
        lemma_part_bounds(total as nat, n as nat, i as nat);
    }
    let first = i * chunk;
    let last = if i == n - 1 { total - 1 } else { (i + 1) * chunk - 1 };
    (first, last)
}

proof fn lemma_part_bounds(total: nat, n: nat, i: nat)
    requires
        1 <= n <= total,
        i < n,
    ensures
        total / n >= 1,
        (i + 1) * (total / n) <= total,
        i * (total / n) < (i + 1) * (total / n),
{
    let c = total / n;
    assert(c >= 1) by (nonlinear_arith)
        requires 1 <= n <= total, c == total / n;
    assert((i + 1) * c <= n * c) by (nonlinear_arith)
        requires i + 1 <= n, c >= 0;
    assert(n * c <= total) by (nonlinear_arith)
        requires n >= 1, c == total / n;
    assert(i * c < (i + 1) * c) by (nonlinear_arith)
        requires c >= 1;
}

/// The parts of a split download cover the whole file, each byte exactly
/// once: the first part starts at byte 0, each part ends right before the
/// next one starts, the last part ends at the last byte, and no part is empty.
pub proof fn parts_partition_file(total: nat, n: nat)
    requires
        1 <= n <= total,
    ensures
        spec_part_range(total, n, 0).0 == 0,
        spec_part_range(total, n, (n - 1) as nat).1 == total - 1,
        forall|i: nat| i < n ==> (#[trigger] spec_part_range(total, n, i)).0 <= spec_part_range(total, n, i).1,
        forall|i: nat| i + 1 < n ==> (#[trigger] spec_part_range(total, n, i)).1 + 1
            == spec_part_range(total, n, i + 1).0,
{
    assert forall|i: nat| i < n implies (#[trigger] spec_part_range(total, n, i)).0 <= spec_part_range(total, n, i).1 by {
        lemma_part_bounds(total, n, i);
        let c = total / n;
        if i + 1 == n {
            assert(i * c < (i + 1) * c);
        }
    }
    assert forall|i: nat| i + 1 < n implies (#[trigger] spec_part_range(total, n, i)).1 + 1
        == spec_part_range(total, n, i + 1).0 by {
        lemma_part_bounds(total, n, i);
    }
}

/// Saved progress is reused only when it has one entry per part; otherwise
/// every part starts from zero.
pub open spec fn spec_resume_parts(saved: Option<Seq<u64>>, n: nat) -> Seq<u64> {
    match saved {
        Some(s) => if s.len() == n { s } else { Seq::new(n, |i: int| 0u64) },
        None => Seq::new(n, |i: int| 0u64),
    }
}

/// Bytes already fetched per part, from the saved download state if it fits.
pub fn resume_parts(saved: Option<Vec<u64>>, n: usize) -> (r: Vec<u64>)
    ensures
        r@ == spec_resume_parts(
            match saved {
                Some(v) => Some(v@),
                None => None,
            },
            n as nat,
        ),
{
    match saved {
        Some(v) => {
            if v.len() == n {
                return v;
            }
        },
        None => {},
    }
    let mut r: Vec<u64> = Vec::new();
    let mut i: usize = 0;
    while i < n
        invariant
            i <= n,
            r@ == Seq::new(i as nat, |k: int| 0u64),
        decreases n - i,
    {
        r.push(0);
        i = i + 1;
        assert(r@ =~= Seq::new(i as nat, |k: int| 0u64));
    }
    r
}

/// Sum of a sequence of byte counts.
pub open spec fn spec_sum(s: Seq<u64>) -> nat
    decreases s.len(),
{
    if s.len() == 0 { 0 } else { spec_sum(s.drop_last()) + s.last() as nat }
}

/// Total bytes already fetched, or `None` if the sum does not fit in 64 bits.
pub fn fetched_total(parts: &Vec<u64>) -> (r: Option<u64>)
    ensures
        r == (if spec_sum(parts@) <= u64::MAX { Some(spec_sum(parts@) as u64) } else { None::<u64> }),
{
    let mut total: u64 = 0;
    let mut i: usize = 0;
    while i < parts.len()
        invariant
            i <= parts@.len(),
            total == spec_sum(parts@.subrange(0, i as int)),
        decreases parts@.len() - i,
    {
        assert(parts@.subrange(0, i + 1).drop_last() =~= parts@.subrange(0, i as int));
        match total.checked_add(parts[i]) {
            Some(t) => total = t,
            None => {
                proof { lemma_sum_prefix_monotone(parts@, i + 1); }
                return None;
            },
        }
        i = i + 1;
    }
    assert(parts@.subrange(0, parts@.len() as int) =~= parts@);
    Some(total)
}

proof fn lemma_sum_prefix_monotone(s: Seq<u64>, k: int)
    requires
        0 <= k <= s.len(),
    ensures
        spec_sum(s.subrange(0, k)) <= spec_sum(s),
    decreases s.len() - k,
{
    if k < s.len() {
        lemma_sum_prefix_monotone(s, k + 1);
        assert(s.subrange(0, k + 1).drop_last() =~= s.subrange(0, k));
    } else {
        assert(s.subrange(0, k) =~= s);
    }
}

/// The `Range` header value `bytes=first-last`.
pub open spec fn spec_range_header(first: nat, last: nat) -> Seq<char> {
    "bytes="@ + dec(first) + seq!['-'] + dec(last)
}

/// The `Range` header value for the given bytes.
pub fn range_header(first: u64, last: u64) -> (r: String)
    ensures
        r@ == spec_range_header(first as nat, last as nat),
{
    let mut r = String::new();
    push_str(&mut r, "bytes=");
    push_decimal(&mut r, first);
    push_char(&mut r, '-');
    push_decimal(&mut r, last);
    proof {
        assert(r@ =~= spec_range_header(first as nat, last as nat));
    }
    r
}

/// Where a part worker resumes: `None` once the part is complete, else the
/// first byte still missing.
pub open spec fn spec_resume_at(first: nat, fetched: nat, last: nat) -> Option<nat> {
    if first + fetched > last { None } else { Some(first + fetched) }
}

/// The first byte a part worker still has to fetch, if any.
pub fn resume_at(first: u64, fetched: u64, last: u64) -> (r: Option<u64>)
    requires
        first + fetched <= u64::MAX,
    ensures
        r == (match spec_resume_at(first as nat, fetched as nat, last as nat) {
            Some(b) => Some(b as u64),
            None => None::<u64>,
        }),
{
    let start = first + fetched;
    if start > last { None } else { Some(start) }
}

/// Failed requests a part worker tolerates before it gives up.
pub const REQUEST_RETRY_LIMIT: u64 = 10;

/// Failed transfers a part worker tolerates before it gives up.
pub const TRANSFER_RETRY_LIMIT: u64 = 15;

/// What a part worker does after an attempt.
#[derive(Debug)]
pub enum ChunkStep {
    /// The part is complete.
    Done,
    /// Wait `wait_secs` seconds and try again, with `retries` failures so far.
    Retry { retries: u64, wait_secs: u64 },
    /// Stop with this error.
    GiveUp(String),
}

/// After a request failed (an HTTP error status or a transport error with
/// message `err`): retry after 3 seconds, or give up once more than
/// `REQUEST_RETRY_LIMIT` failures have been counted.
pub open spec fn spec_after_request_failure(retries: nat, err: Seq<char>) -> (nat, Option<Seq<char>>) {
    if retries + 1 > REQUEST_RETRY_LIMIT { (retries + 1, Some(err)) } else { (retries + 1, None) }
}

/// The decision of a part worker whose request failed.
pub fn after_request_failure(retries: u64, err: String) -> (r: ChunkStep)
    requires
        retries < u64::MAX,
    ensures
        match r {
            ChunkStep::GiveUp(m) => spec_after_request_failure(retries as nat, err@) == ((retries + 1) as nat, Some(m@)),
            ChunkStep::Retry { retries: n, wait_secs } => wait_secs == 3
                && spec_after_request_failure(retries as nat, err@) == (n as nat, None::<Seq<char>>),
            ChunkStep::Done => false,
        },
{
    let n = retries + 1;
    if n > REQUEST_RETRY_LIMIT {
        ChunkStep::GiveUp(err)
    } else {
        ChunkStep::Retry { retries: n, wait_secs: 3 }
    }
}

/// The message of a request answered with an error status.
pub fn http_error_message(status: &str) -> (r: String)
    ensures
        r@ == "HTTP error: "@ + status@,
{
    let mut r = String::new();
    push_str(&mut r, "HTTP error: ");
    push_str(&mut r, status);
    r
}

/// After a transfer ended: done if every byte arrived; otherwise retry after
/// 2 seconds, or give up once more than `TRANSFER_RETRY_LIMIT` failures have
/// been counted.
pub fn after_transfer(complete: bool, retries: u64) -> (r: ChunkStep)
    requires
        retries < u64::MAX,
    ensures
        complete ==> r is Done,
        !complete && retries + 1 > TRANSFER_RETRY_LIMIT ==> (r matches ChunkStep::GiveUp(m)
            && m@ == "Failed after 15 chunk retries"@),
        !complete && retries + 1 <= TRANSFER_RETRY_LIMIT ==> r == (ChunkStep::Retry { retries: (retries + 1) as u64, wait_secs: 2 }),
{
    if complete {
        ChunkStep::Done
    } else if retries + 1 > TRANSFER_RETRY_LIMIT {
        ChunkStep::GiveUp(String::from_str("Failed after 15 chunk retries"))
    } else {
        ChunkStep::Retry { retries: retries + 1, wait_secs: 2 }
    }
}

/// Progress label of a finished download.
pub fn done_label(label: &str) -> (r: String)
    ensures
        r@ == label@ + " \u{b7} Done \u{2713}"@,
{
    let mut r = String::new();
    push_str(&mut r, label);
    push_str(&mut r, " \u{b7} Done \u{2713}");
    r
}

/// Progress label when the parts of a split download start or resume.
pub fn starting_label(label: &str) -> (r: String)
    ensures
        r@ == label@ + " \u{b7} Resuming/Starting"@,
{
    let mut r = String::new();
    push_str(&mut r, label);
    push_str(&mut r, " \u{b7} Resuming/Starting");
    r
}

/// The error a download reports after a pause was lifted.
pub const RESUMED: &'static str = "Resumed";

/// The error a download reports when it was cancelled.
pub const CANCELLED: &'static str = "Cancelled";

/// What the monitor of a split download does on one tick.
#[derive(Debug)]
pub enum Tick {
    /// Stop the workers and wait for the download to be resumed or cancelled.
    Pause,
    /// Stop the workers, delete the file and its state, report [`CANCELLED`].
    Cancel,
    /// Stop the workers and report this error, which asks for a retry.
    Fail(String),
    /// Report progress; the download is complete when `finished`.
    Report { finished: bool },
}

/// The monitor's decision: pausing wins over cancelling, cancelling over a
/// worker's error; otherwise it reports progress and finishes once every
/// worker is done and the download is not paused.
pub open spec fn spec_monitor(paused: bool, cancelled: bool, failure: Option<Seq<char>>, all_done: bool, paused_again: bool) -> (int, Seq<char>, bool) {
    if paused {
        (0, Seq::empty(), false)
    } else if cancelled {
        (1, Seq::empty(), false)
    } else if failure is Some {
        (2, "Retry|"@ + failure->0, false)
    } else {
        (3, Seq::empty(), all_done && !paused_again)
    }
}

/// One tick of the monitor of a split download. `paused_again` is the pause
/// flag read once more after progress was reported.
pub fn monitor(paused: bool, cancelled: bool, failure: Option<String>, all_done: bool, paused_again: bool) -> (r: Tick)
    ensures
        ({
            let s = spec_monitor(paused, cancelled, match failure { Some(f) => Some(f@), None => None }, all_done, paused_again);
            match r {
                Tick::Pause => s.0 == 0,
                Tick::Cancel => s.0 == 1,
                Tick::Fail(m) => s.0 == 2 && m@ == s.1,
                Tick::Report { finished } => s.0 == 3 && finished == s.2,
            }
        }),
        paused ==> r is Pause,
        !paused && cancelled ==> r is Cancel,
        !paused && !cancelled && failure is Some ==> r is Fail,
        r matches Tick::Report { finished } ==> !paused && !cancelled && failure is None
            && (finished <==> all_done && !paused_again),
{
    if paused {
        Tick::Pause
    } else if cancelled {
        Tick::Cancel
    } else {
        match failure {
            Some(f) => {
                let mut m = String::new();
                push_str(&mut m, "Retry|");
                push_str(&mut m, f.as_str());
                Tick::Fail(m)
            },
            None => Tick::Report { finished: all_done && !paused_again },
        }
    }
}

/// The monitor's priorities: a pause wins over everything; a cancel wins
/// over a worker's error and over completion; a worker's error asks for a
/// retry with the error after `Retry|`; only a tick with none of these
/// reports progress, and it finishes exactly when every worker is done and
/// no pause came in meanwhile.
pub proof fn monitor_priorities(
    paused: bool,
    cancelled: bool,
    failure: Option<Seq<char>>,
    all_done: bool,
    paused_again: bool,
)
    ensures
        ({
            let s = spec_monitor(paused, cancelled, failure, all_done, paused_again);
            &&& (s.0 == 0) == paused
            &&& !paused && cancelled ==> s.0 == 1
            &&& !paused && !cancelled && failure is Some ==> s.0 == 2
                && s.1 == seq!['R', 'e', 't', 'r', 'y', '|'] + failure->0
            &&& (s.0 == 3) == (!paused && !cancelled && failure is None)
            &&& s.0 == 3 ==> (s.2 <==> all_done && !paused_again)
        }),
{
    reveal_strlit("Retry|");
}

/// What a single-connection download does with the next chunk it received.
#[derive(Clone, Copy, Debug, PartialEq, Eq, Structural)]
pub enum StreamTick {
    /// Wait while paused (cancelling if asked), then report [`RESUMED`].
    Pause,
    /// Delete the partial file and report [`CANCELLED`].
    Cancel,
    /// Write the chunk and report progress.
    Write,
}

/// The single-connection download checks the pause flag before the cancel flag.
pub fn stream_tick(paused: bool, cancelled: bool) -> (r: StreamTick)
    ensures
        r == (if paused { StreamTick::Pause } else if cancelled { StreamTick::Cancel } else { StreamTick::Write }),
{
    if paused {
        StreamTick::Pause
    } else if cancelled {
        StreamTick::Cancel
    } else {
        StreamTick::Write
    }
}

} // verus!
