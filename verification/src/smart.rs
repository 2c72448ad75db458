//! The download loop of one file: skipping identical files, falling back
//! from Git LFS pointers to the media URL, resuming after a pause and
//! retrying after a dropped connection.
use vstd::prelude::*;
use crate::download::RESUMED;
use crate::files::{already_present, spec_already_present};
use crate::text::{
    contains, contains_str, dec, is_prefix, lemma_replace_all_len, occurs_at, push_char, push_decimal,
    push_str, replace_all, replaced_count, replace_str, starts_with, str_eq,
};

verus! {

/// The host part of raw GitHub URLs.
pub const RAW_HOST: &'static str = "raw.githubusercontent.com/";

/// The host and path prefix that serves Git LFS objects.
pub const MEDIA_HOST: &'static str = "media.githubusercontent.com/media/";

/// The media URL of a raw GitHub URL, which serves the real LFS content;
/// `None` for any other URL.
pub open spec fn spec_lfs_media_url(raw: Seq<char>) -> Option<Seq<char>> {
    if contains(raw, RAW_HOST@) {
        Some(replace_all(raw, RAW_HOST@, MEDIA_HOST@))
    } else {
        None
    }
}

/// Converts a raw.githubusercontent.com URL into the
/// media.githubusercontent.com URL that serves the real binary content.
pub fn to_lfs_media_url(raw_url: &str) -> (r: Option<String>)
    ensures
        match r {
            Some(m) => spec_lfs_media_url(raw_url@) == Some(m@),
            None => spec_lfs_media_url(raw_url@) is None,
        },
{
    if contains_str(raw_url, RAW_HOST) {
        proof { reveal_strlit("raw.githubusercontent.com/"); }
        Some(replace_str(raw_url, RAW_HOST, MEDIA_HOST))
    } else {
        None
    }
}

/// The characters of the raw host, one by one.
proof fn lemma_raw_host_chars()
    ensures
        RAW_HOST@ == seq!['r', 'a', 'w', '.', 'g', 'i', 't', 'h', 'u', 'b', 'u', 's', 'e', 'r', 'c',
            'o', 'n', 't', 'e', 'n', 't', '.', 'c', 'o', 'm', '/'],
        MEDIA_HOST@ == seq!['m', 'e', 'd', 'i', 'a', '.', 'g', 'i', 't', 'h', 'u', 'b', 'u', 's', 'e',
            'r', 'c', 'o', 'n', 't', 'e', 'n', 't', '.', 'c', 'o', 'm', '/', 'm', 'e', 'd', 'i', 'a', '/'],
{
    reveal_strlit("raw.githubusercontent.com/");
    reveal_strlit("media.githubusercontent.com/media/");
    assert(RAW_HOST@ =~= seq!['r', 'a', 'w', '.', 'g', 'i', 't', 'h', 'u', 'b', 'u', 's', 'e', 'r', 'c',
            'o', 'n', 't', 'e', 'n', 't', '.', 'c', 'o', 'm', '/']);
    assert(MEDIA_HOST@ =~= seq!['m', 'e', 'd', 'i', 'a', '.', 'g', 'i', 't', 'h', 'u', 'b', 'u', 's', 'e',
            'r', 'c', 'o', 'n', 't', 'e', 'n', 't', '.', 'c', 'o', 'm', '/', 'm', 'e', 'd', 'i', 'a', '/']);
}

/// In the raw host only position 24 holds an `m`; in the media host only
/// position 15 holds an `r`.
proof fn lemma_host_letters(j: int, p: int)
    requires
        0 <= j < 26,
        0 <= p < 34,
    ensures
        RAW_HOST@[j] == 'm' ==> j == 24,
        MEDIA_HOST@[p] == 'r' ==> p == 15,
{
    lemma_raw_host_chars();
    assert(j == 0 || j == 1 || j == 2 || j == 3 || j == 4 || j == 5 || j == 6 || j == 7 || j == 8
        || j == 9 || j == 10 || j == 11 || j == 12 || j == 13 || j == 14 || j == 15 || j == 16
        || j == 17 || j == 18 || j == 19 || j == 20 || j == 21 || j == 22 || j == 23 || j == 24
        || j == 25);
    assert(p == 0 || p == 1 || p == 2 || p == 3 || p == 4 || p == 5 || p == 6 || p == 7 || p == 8
        || p == 9 || p == 10 || p == 11 || p == 12 || p == 13 || p == 14 || p == 15 || p == 16
        || p == 17 || p == 18 || p == 19 || p == 20 || p == 21 || p == 22 || p == 23 || p == 24
        || p == 25 || p == 26 || p == 27 || p == 28 || p == 29 || p == 30 || p == 31 || p == 32
        || p == 33);
}

/// If the rewritten text starts with the tail of the raw host from position
/// `j` on (`j >= 1`), the text itself does: the media host cannot supply it.
proof fn lemma_rewritten_tail(x: Seq<char>, j: int)
    requires
        1 <= j < 26,
        is_prefix(replace_all(x, RAW_HOST@, MEDIA_HOST@), RAW_HOST@.subrange(j, 26)),
    ensures
        is_prefix(x, RAW_HOST@.subrange(j, 26)),
    decreases x.len(),
{
    lemma_raw_host_chars();
    let f = RAW_HOST@;
    let t = MEDIA_HOST@;
    let q = f.subrange(j, 26);
    let r = replace_all(x, f, t);
    assert(r.subrange(0, q.len() as int) == q);
    assert(r[0] == q[0]);
    if x.len() == 0 {
    } else if is_prefix(x, f) {
        let rest = replace_all(x.subrange(26, x.len() as int), f, t);
        assert(r == t + rest);
        assert(r[0] == 'm');
        lemma_host_letters(j, 0);
        assert(j == 24);
        assert(r[1] == q[1]);
        assert(r[1] == 'e');
    } else {
        let x1 = x.subrange(1, x.len() as int);
        let r1 = replace_all(x1, f, t);
        assert(r == seq![x[0]] + r1);
        assert(x[0] == q[0]);
        if j == 25 {
            assert(x.subrange(0, 1) =~= q);
        } else {
            let q1 = f.subrange(j + 1, 26);
            assert(r1.subrange(0, q1.len() as int) =~= q1) by {
                assert forall|k: int| 0 <= k < q1.len() implies r1[k] == q1[k] by {
                    assert(r[k + 1] == r1[k]);
                    assert(r.subrange(0, q.len() as int)[k + 1] == q[k + 1]);
                }
            }
            lemma_rewritten_tail(x1, j + 1);
            assert(x.subrange(0, q.len() as int) =~= q) by {
                assert forall|k: int| 0 <= k < q.len() implies x[k] == q[k] by {
                    if k > 0 {
                        assert(x1.subrange(0, q1.len() as int)[k - 1] == q1[k - 1]);
                    }
                }
            }
        }
    }
}

/// The rewritten text holds no raw host.
proof fn lemma_rewritten_has_no_raw_host(x: Seq<char>)
    ensures
        !contains(replace_all(x, RAW_HOST@, MEDIA_HOST@), RAW_HOST@),
    decreases x.len(),
{
    lemma_raw_host_chars();
    let f = RAW_HOST@;
    let t = MEDIA_HOST@;
    let r = replace_all(x, f, t);
    if x.len() == 0 {
        assert(!contains(r, f)) by {
            if contains(r, f) {
                let p = choose|p: int| occurs_at(r, f, p);
                assert(r.len() == 0);
            }
        }
    } else if is_prefix(x, f) {
        let x1 = x.subrange(26, x.len() as int);
        let r1 = replace_all(x1, f, t);
        assert(r == t + r1);
        lemma_rewritten_has_no_raw_host(x1);
        assert(!contains(r, f)) by {
            if contains(r, f) {
                let p = choose|p: int| occurs_at(r, f, p);
                assert(r.subrange(p, p + 26) == f);
                assert(r[p] == f[0]);
                if p < 34 {
                    assert(r[p] == t[p]);
                    lemma_host_letters(0, p);
                    assert(r.subrange(p, p + 26)[1] == f[1]);
                    assert(r[16] == t[16]);
                } else {
                    assert(r1.subrange(p - 34, p - 34 + 26) =~= r.subrange(p, p + 26));
                    assert(occurs_at(r1, f, p - 34));
                }
            }
        }
    } else {
        let x1 = x.subrange(1, x.len() as int);
        let r1 = replace_all(x1, f, t);
        assert(r == seq![x[0]] + r1);
        lemma_rewritten_has_no_raw_host(x1);
        assert(!contains(r, f)) by {
            if contains(r, f) {
                let p = choose|p: int| occurs_at(r, f, p);
                if p >= 1 {
                    assert(r1.subrange(p - 1, p - 1 + 26) =~= r.subrange(p, p + 26));
                    assert(occurs_at(r1, f, p - 1));
                } else {
                    let q1 = f.subrange(1, 26);
                    assert(r1.subrange(0, 25) =~= q1) by {
                        assert forall|k: int| 0 <= k < 25 implies r1[k] == q1[k] by {
                            assert(r[k + 1] == r1[k]);
                            assert(r.subrange(0, 26)[k + 1] == f[k + 1]);
                        }
                    }
                    lemma_rewritten_tail(x1, 1);
                    assert(x.subrange(0, 26) =~= f) by {
                        assert forall|k: int| 0 <= k < 26 implies x[k] == f[k] by {
                            if k == 0 {
                                assert(r.subrange(0, 26)[0] == f[0]);
                            } else {
                                assert(x1.subrange(0, 25)[k - 1] == q1[k - 1]);
                            }
                        }
                    }
                }
            }
        }
    }
}

/// A media URL is final: it holds no raw host, so it is never rewritten
/// again, and it is eight characters longer than the raw URL for every raw
/// host that was replaced.
pub proof fn media_url_is_final(raw: Seq<char>)
    requires
        spec_lfs_media_url(raw) is Some,
    ensures
        spec_lfs_media_url(spec_lfs_media_url(raw)->0) is None,
        spec_lfs_media_url(raw)->0.len() == raw.len() + 8 * replaced_count(raw, RAW_HOST@),
{
    lemma_raw_host_chars();
    lemma_rewritten_has_no_raw_host(raw);
    lemma_replace_all_len(raw, RAW_HOST@, MEDIA_HOST@);
    let c = replaced_count(raw, RAW_HOST@);
    assert(c * (34 - 26) == 8 * c) by (nonlinear_arith);
}

/// The text after the first `|`, if there is one.
pub open spec fn after_bar(s: Seq<char>) -> Option<Seq<char>>
    decreases s.len(),
{
    if s.len() == 0 {
        None
    } else if s[0] == '|' {
        Some(s.subrange(1, s.len() as int))
    } else {
        after_bar(s.subrange(1, s.len() as int))
    }
}

/// The text before the first `|`, or all of it.
pub open spec fn before_bar(s: Seq<char>) -> Seq<char>
    decreases s.len(),
{
    if s.len() == 0 {
        s
    } else if s[0] == '|' {
        Seq::empty()
    } else {
        seq![s[0]] + before_bar(s.subrange(1, s.len() as int))
    }
}

/// The second `|`-separated field, as `split('|').nth(1)` gives it.
pub open spec fn second_field(s: Seq<char>) -> Option<Seq<char>> {
    match after_bar(s) {
        Some(rest) => Some(before_bar(rest)),
        None => None,
    }
}

proof fn lemma_after_bar_skip(s: Seq<char>, i: int)
    requires
        0 <= i < s.len(),
        s[i] != '|',
    ensures
        after_bar(s.subrange(i, s.len() as int)) == after_bar(s.subrange(i + 1, s.len() as int)),
{
    let t = s.subrange(i, s.len() as int);
    assert(t.subrange(1, t.len() as int) =~= s.subrange(i + 1, s.len() as int));
}

proof fn lemma_before_bar_step(s: Seq<char>, i: int)
    requires
        0 <= i < s.len(),
        s[i] != '|',
    ensures
        before_bar(s.subrange(i, s.len() as int)) == seq![s[i]] + before_bar(s.subrange(i + 1, s.len() as int)),
{
    let t = s.subrange(i, s.len() as int);
    assert(t.subrange(1, t.len() as int) =~= s.subrange(i + 1, s.len() as int));
}

/// The second `|`-separated field of `s`, or `"Unknown"` when there is none.
pub fn second_field_or_unknown(s: &str) -> (r: String)
    ensures
        r@ == (match second_field(s@) {
            Some(f) => f,
            None => "Unknown"@,
        }),
{
    let cs = crate::text::chars_of(s);
    let n = cs.len();
    let mut i: usize = 0;
    assert(s@.subrange(0, n as int) =~= s@);
    while i < n && cs[i] != '|'
        invariant
            cs@ == s@,
            n == s@.len(),
            i <= n,
            after_bar(s@) == after_bar(s@.subrange(i as int, n as int)),
        decreases n - i,
    {
        proof { lemma_after_bar_skip(s@, i as int); }
        i = i + 1;
    }
    if i == n {
        proof {
            assert(s@.subrange(n as int, n as int) =~= Seq::<char>::empty());
        }
        return String::from_str("Unknown");
    }
    proof {
        let t = s@.subrange(i as int, n as int);
        assert(t[0] == '|');
        assert(t.subrange(1, t.len() as int) =~= s@.subrange(i + 1, n as int));
    }
    let ghost rest = s@.subrange(i + 1, n as int);
    let mut r = String::new();
    let mut j: usize = i + 1;
    while j < n && cs[j] != '|'
        invariant
            cs@ == s@,
            n == s@.len(),
            i + 1 <= j <= n,
            rest == s@.subrange(i + 1, n as int),
            r@ + before_bar(s@.subrange(j as int, n as int)) == before_bar(rest),
        decreases n - j,
    {
        proof { lemma_before_bar_step(s@, j as int); }
        push_char(&mut r, cs[j]);
        j = j + 1;
        proof {
            assert(r@ + before_bar(s@.subrange(j as int, n as int)) =~= before_bar(rest));
        }
    }
    proof {
        if j == n {
            assert(s@.subrange(j as int, n as int) =~= Seq::<char>::empty());
        } else {
            assert(s@.subrange(j as int, n as int)[0] == '|');
        }
        assert(r@ + Seq::<char>::empty() =~= r@);
    }
    r
}

/// How a failed transfer is handled.
#[derive(Debug)]
pub enum StreamFailure {
    /// The transfer was paused and then resumed: start over at once.
    Resumed,
    /// The connection dropped: retry later; holds the underlying error.
    Retry(String),
    /// Give up with the error as it is.
    Fatal,
}

/// A transfer error [`RESUMED`] resumes, one starting with `Retry` is
/// retried (its second `|` field being the cause), any other is fatal.
pub fn classify_failure(e: &str) -> (r: StreamFailure)
    ensures
        e@ == RESUMED@ <==> r is Resumed,
        e@ != RESUMED@ && is_prefix(e@, "Retry"@) <==> r is Retry,
        r matches StreamFailure::Retry(m) ==> m@ == (match second_field(e@) {
            Some(f) => f,
            None => "Unknown"@,
        }),
{
    if str_eq(e, RESUMED) {
        StreamFailure::Resumed
    } else if starts_with(e, "Retry") {
        StreamFailure::Retry(second_field_or_unknown(e))
    } else {
        StreamFailure::Fatal
    }
}

/// Parallel connections for a download: one below 2 MiB of known size
/// (an unknown size counts as 0), `optimal` otherwise; when more than one
/// part file of an earlier attempt exists, their count, so that resumed
/// parts line up.
pub open spec fn spec_choose_parts(remote: Option<u64>, optimal: nat, existing: nat) -> nat {
    let size: nat = match remote {
        Some(s) => s as nat,
        None => 0,
    };
    if existing > 1 {
        existing
    } else if size < 2 * 1024 * 1024 {
        1
    } else {
        optimal
    }
}

/// Number of parallel connections for a download. The size test is the
/// exact integer form of `size as f64 / 1_048_576.0 < 2.0`.
pub fn choose_parts(remote: Option<u64>, optimal: usize, existing: usize) -> (r: usize)
    ensures
        r as nat == spec_choose_parts(remote, optimal as nat, existing as nat),
{
    let size = match remote {
        Some(s) => s,
        None => 0,
    };
    let n = if size < 2 * 1024 * 1024 { 1 } else { optimal };
    if existing > 1 { existing } else { n }
}

/// Name of the temporary file of part `i` of a download.
pub open spec fn spec_part_file_name(file: Seq<char>, i: nat) -> Seq<char> {
    ".dl_part_"@ + file + seq!['_'] + dec(i)
}

/// Name of the temporary file of part `i` of a download.
pub fn part_file_name(file: &str, i: u64) -> (r: String)
    ensures
        r@ == spec_part_file_name(file@, i as nat),
{
    let mut r = String::new();
    push_str(&mut r, ".dl_part_");
    push_str(&mut r, file);
    push_char(&mut r, '_');
    push_decimal(&mut r, i);
    proof { assert(r@ =~= spec_part_file_name(file@, i as nat)); }
    r
}

/// What the download loop of one file does next.
#[derive(Debug)]
pub enum SmartAction {
    /// No identical file is there: transfer it.
    Transfer,
    /// The file was an LFS pointer: delete it, report that the media URL is
    /// being tried, and probe again.
    Switched,
    /// Probe again at once (after a resumed pause).
    Probe,
    /// Log the retry, report the dropped connection, wait 10 seconds, probe again.
    RetryLater(String),
    /// The file is in place; `transferred` tells whether it was downloaded now.
    Finished { transferred: bool },
    /// Give up with this error; `logged` tells whether it goes to the log
    /// too, `delete_first` whether the file (an LFS pointer) is deleted first.
    Failed { message: String, logged: bool, delete_first: bool },
}

/// What becomes of an LFS pointer fetched from `url`: the loop switches to
/// the media URL (`next` being that URL), or, where `url` has none, fails
/// without logging, deleting the pointer first; the URL then stays.
pub open spec fn lfs_outcome(url: Seq<char>, r: SmartAction, next: Seq<char>) -> bool {
    match spec_lfs_media_url(url) {
        Some(m) => r is Switched && next == m,
        None => next == url && (r matches SmartAction::Failed { message, logged, delete_first }
            && !logged && delete_first && message@ == "LFS detected but cannot build media URL from: "@ + url),
    }
}

/// State of the download loop of one file.
pub struct SmartDownload {
    /// The URL currently tried.
    pub url: String,
    /// Seconds spent in earlier attempts.
    pub elapsed: u64,
    /// Dropped connections so far.
    pub retries: u64,
}

impl SmartDownload {
    /// Starts with the given URL.
    pub fn new(url: &str) -> (r: SmartDownload)
        ensures
            r.url@ == url@,
            r.elapsed == 0,
            r.retries == 0,
    {
        SmartDownload { url: String::from_str(url), elapsed: 0, retries: 0 }
    }

    /// An LFS pointer arrived: it is deleted either way; switch to the media
    /// URL, or fail if the URL has none.
    fn switch_to_media(&mut self) -> (r: SmartAction)
        ensures
            final(self).elapsed == old(self).elapsed,
            final(self).retries == old(self).retries,
            lfs_outcome(old(self).url@, r, final(self).url@),
    {
        match to_lfs_media_url(self.url.as_str()) {
            Some(m) => {
                self.url = m;
                SmartAction::Switched
            },
            None => {
                let mut msg = String::new();
                push_str(&mut msg, "LFS detected but cannot build media URL from: ");
                push_str(&mut msg, self.url.as_str());
                SmartAction::Failed { message: msg, logged: false, delete_first: true }
            },
        }
    }

    /// After probing the destination: `local` is the size of the file there
    /// (`None` if there is none), `remote` the size the server reports, and
    /// `lfs` whether the file there is an LFS pointer. A file that is
    /// already there (see [`already_present`]) is kept, or, if it is an LFS
    /// pointer, replaced by the media URL's content.
    pub fn after_probe(&mut self, local: Option<u64>, remote: Option<u64>, lfs: bool) -> (r: SmartAction)
        ensures
            final(self).elapsed == old(self).elapsed,
            final(self).retries == old(self).retries,
            !spec_already_present(local, remote) ==> r is Transfer && final(self).url == old(self).url,
            spec_already_present(local, remote) && !lfs ==> (r matches SmartAction::Finished { transferred }
                && !transferred) && final(self).url == old(self).url,
            spec_already_present(local, remote) && lfs ==> lfs_outcome(old(self).url@, r, final(self).url@),
    {
        if !already_present(local, remote) {
            SmartAction::Transfer
        } else if lfs {
            self.switch_to_media()
        } else {
            SmartAction::Finished { transferred: false }
        }
    }

    /// After a transfer: its result (an error carries the seconds spent so
    /// far) and, on success, whether the file is an LFS pointer.
    pub fn after_transfer(&mut self, result: Result<(), (String, u64)>, lfs: bool) -> (r: SmartAction)
        requires
            old(self).retries < u64::MAX,
        ensures
            match result {
                Ok(()) => final(self).elapsed == old(self).elapsed && final(self).retries == old(self).retries && if lfs {
                    lfs_outcome(old(self).url@, r, final(self).url@)
                } else {
                    (r matches SmartAction::Finished { transferred } && transferred) && final(self).url == old(self).url
                },
                Err((e, t)) => final(self).url == old(self).url && if e@ == RESUMED@ {
                    r is Probe && final(self).elapsed == t && final(self).retries == old(self).retries
                } else if is_prefix(e@, "Retry"@) {
                    (r matches SmartAction::RetryLater(m) && m@ == (match second_field(e@) {
                        Some(f) => f,
                        None => "Unknown"@,
                    })) && final(self).elapsed == t && final(self).retries == old(self).retries + 1
                } else {
                    (r matches SmartAction::Failed { message, logged, delete_first } && logged && !delete_first
                        && message@ == e@)
                        && final(self).elapsed == old(self).elapsed && final(self).retries == old(self).retries
                },
            },
    {
        match result {
            Ok(()) => {
                if lfs {
                    self.switch_to_media()
                } else {
                    SmartAction::Finished { transferred: true }
                }
            },
            Err((e, t)) => match classify_failure(e.as_str()) {
                StreamFailure::Resumed => {
                    self.elapsed = t;
                    SmartAction::Probe
                },
                StreamFailure::Retry(cause) => {
                    self.elapsed = t;
                    self.retries = self.retries + 1;
                    SmartAction::RetryLater(cause)
                },
                StreamFailure::Fatal => SmartAction::Failed { message: e, logged: true, delete_first: false },
            },
        }
    }
}

/// Progress label while the media URL is tried.
pub fn lfs_retry_label(label: &str) -> (r: String)
    ensures
        r@ == label@ + " (LFS \u{2014} retrying via media URL)"@,
{
    let mut r = String::new();
    push_str(&mut r, label);
    push_str(&mut r, " (LFS \u{2014} retrying via media URL)");
    r
}

/// Log line of a finished download.
pub fn success_note(label: &str) -> (r: String)
    ensures
        r@ == "\u{2713} Successfully downloaded "@ + label@,
{
    let mut r = String::new();
    push_str(&mut r, "\u{2713} Successfully downloaded ");
    push_str(&mut r, label);
    r
}

/// Log line of a retry.
pub fn retry_note(attempt: u64, label: &str, cause: &str) -> (r: String)
    ensures
        r@ == "\u{26a0}\u{fe0f} Retry "@ + dec(attempt as nat) + " for "@ + label@ + " (Error: "@ + cause@ + ")"@,
{
    let mut r = String::new();
    push_str(&mut r, "\u{26a0}\u{fe0f} Retry ");
    push_decimal(&mut r, attempt);
    push_str(&mut r, " for ");
    push_str(&mut r, label);
    push_str(&mut r, " (Error: ");
    push_str(&mut r, cause);
    push_str(&mut r, ")");
    proof {
        assert(r@ =~= "\u{26a0}\u{fe0f} Retry "@ + dec(attempt as nat) + " for "@ + label@ + " (Error: "@ + cause@ + ")"@);
    }
    r
}

/// Progress label of a retry.
pub fn retry_label(label: &str, attempt: u64) -> (r: String)
    ensures
        r@ == label@ + " \u{b7} Disconnected, retrying ("@ + dec(attempt as nat) + ")..."@,
{
    let mut r = String::new();
    push_str(&mut r, label);
    push_str(&mut r, " \u{b7} Disconnected, retrying (");
    push_decimal(&mut r, attempt);
    push_str(&mut r, ")...");
    proof {
        assert(r@ =~= label@ + " \u{b7} Disconnected, retrying ("@ + dec(attempt as nat) + ")..."@);
    }
    r
}

/// Log line of a download given up.
pub fn fatal_note(label: &str, e: &str) -> (r: String)
    ensures
        r@ == "\u{274c} Fatal error downloading "@ + label@ + ": "@ + e@,
{
    let mut r = String::new();
    push_str(&mut r, "\u{274c} Fatal error downloading ");
    push_str(&mut r, label);
    push_str(&mut r, ": ");
    push_str(&mut r, e);
    proof {
        assert(r@ =~= "\u{274c} Fatal error downloading "@ + label@ + ": "@ + e@);
    }
    r
}

/// Log line when the part count follows the part files of an earlier attempt.
pub fn parts_note(existing: u64, label: &str) -> (r: String)
    ensures
        r@ == "Found "@ + dec(existing as nat) + " existing parts for "@ + label@ + ", forcing num_parts to match."@,
{
    let mut r = String::new();
    push_str(&mut r, "Found ");
    push_decimal(&mut r, existing);
    push_str(&mut r, " existing parts for ");
    push_str(&mut r, label);
    push_str(&mut r, ", forcing num_parts to match.");
    proof {
        assert(r@ =~= "Found "@ + dec(existing as nat) + " existing parts for "@ + label@ + ", forcing num_parts to match."@);
    }
    r
}

} // verus!
