//! Reading the size of a remote file from response headers.
use vstd::prelude::*;
use crate::text::{chars_of, dec, digit_char, is_digit_char, lemma_dec_digits};

verus! {

/// Unicode `White_Space` characters, which `str::trim` removes.
pub open spec fn is_white_space(c: char) -> bool {
    let u = c as u32;
    (0x09 <= u <= 0x0D) || u == 0x20 || u == 0x85 || u == 0xA0 || u == 0x1680
        || (0x2000 <= u <= 0x200A) || u == 0x2028 || u == 0x2029 || u == 0x202F
        || u == 0x205F || u == 0x3000
}

fn white_space(c: char) -> (r: bool)
    ensures
        r == is_white_space(c),
{
    let u = c as u32;
    (0x09 <= u && u <= 0x0D) || u == 0x20 || u == 0x85 || u == 0xA0 || u == 0x1680
        || (0x2000 <= u && u <= 0x200A) || u == 0x2028 || u == 0x2029 || u == 0x202F
        || u == 0x205F || u == 0x3000
}

/// `s` without its leading white space.
pub open spec fn trim_start(s: Seq<char>) -> Seq<char>
    decreases s.len(),
{
    if s.len() > 0 && is_white_space(s[0]) { trim_start(s.subrange(1, s.len() as int)) } else { s }
}

/// `s` without its trailing white space.
pub open spec fn trim_end(s: Seq<char>) -> Seq<char>
    decreases s.len(),
{
    if s.len() > 0 && is_white_space(s.last()) { trim_end(s.drop_last()) } else { s }
}

/// `s` without leading and trailing white space, as `str::trim` gives it.
pub open spec fn trim(s: Seq<char>) -> Seq<char> {
    trim_end(trim_start(s))
}

proof fn lemma_trim_start(s: Seq<char>, a: int, lo: int, b: int)
    requires
        0 <= a <= lo <= b <= s.len(),
        forall|i: int| a <= i < lo ==> is_white_space(#[trigger] s[i]),
        lo == b || !is_white_space(s[lo]),
    ensures
        trim_start(s.subrange(a, b)) == s.subrange(lo, b),
    decreases lo - a,
{
    let t = s.subrange(a, b);
    if a < lo {
        assert(t.subrange(1, t.len() as int) =~= s.subrange(a + 1, b));
        lemma_trim_start(s, a + 1, lo, b);
    } else {
        assert(t =~= s.subrange(lo, b));
    }
}

proof fn lemma_trim_end(s: Seq<char>, lo: int, hi: int, b: int)
    requires
        0 <= lo <= hi <= b <= s.len(),
        forall|i: int| hi <= i < b ==> is_white_space(#[trigger] s[i]),
        lo == hi || !is_white_space(s[hi - 1]),
    ensures
        trim_end(s.subrange(lo, b)) == s.subrange(lo, hi),
    decreases b - hi,
{
    let t = s.subrange(lo, b);
    if hi < b {
        assert(t.drop_last() =~= s.subrange(lo, b - 1));
        lemma_trim_end(s, lo, hi, b - 1);
    } else {
        assert(t =~= s.subrange(lo, hi));
    }
}

/// Bounds of `cs[a..b]` trimmed of white space.
fn trim_range(cs: &Vec<char>, a: usize, b: usize) -> (r: (usize, usize))
    requires
        a <= b <= cs@.len(),
    ensures
        a <= r.0 <= r.1 <= b,
        trim(cs@.subrange(a as int, b as int)) == cs@.subrange(r.0 as int, r.1 as int),
{
    let mut lo: usize = a;
    while lo < b && white_space(cs[lo])
        invariant
            a <= lo <= b <= cs@.len(),
            forall|i: int| a <= i < lo ==> is_white_space(#[trigger] cs@[i]),
        decreases b - lo,
    {
        lo = lo + 1;
    }
    proof { lemma_trim_start(cs@, a as int, lo as int, b as int); }
    let mut hi: usize = b;
    while hi > lo && white_space(cs[hi - 1])
        invariant
            a <= lo <= hi <= b <= cs@.len(),
            forall|i: int| hi <= i < b ==> is_white_space(#[trigger] cs@[i]),
        decreases hi,
    {
        hi = hi - 1;
    }
    proof { lemma_trim_end(cs@, lo as int, hi as int, b as int); }
    (lo, hi)
}

/// Whether `c` is an ASCII digit.
pub open spec fn is_digit(c: char) -> bool {
    '0' <= c <= '9'
}

/// Value of a string of ASCII digits.
pub open spec fn digits_value(s: Seq<char>) -> nat
    decreases s.len(),
{
    if s.len() == 0 {
        0
    } else {
        digits_value(s.drop_last()) * 10 + (s.last() as nat - '0' as nat) as nat
    }
}

/// `s` without a leading `+`.
pub open spec fn unsigned_part(s: Seq<char>) -> Seq<char> {
    if s.len() > 0 && s[0] == '+' { s.subrange(1, s.len() as int) } else { s }
}

/// Whether every character of `d` is an ASCII digit.
pub open spec fn all_digits(d: Seq<char>) -> bool {
    forall|i: int| 0 <= i < d.len() ==> is_digit(#[trigger] d[i])
}

/// What `str::parse::<u64>` gives: an optional `+` followed by at least one
/// ASCII digit, of a value that fits in 64 bits; `None` otherwise.
pub open spec fn spec_parse_u64(s: Seq<char>) -> Option<u64> {
    let d = unsigned_part(s);
    if d.len() == 0 || !all_digits(d) {
        None
    } else if digits_value(d) > u64::MAX {
        None
    } else {
        Some(digits_value(d) as u64)
    }
}

proof fn lemma_digits_value_grows(s: Seq<char>, k: int)
    requires
        0 <= k <= s.len(),
        forall|i: int| 0 <= i < s.len() ==> is_digit(#[trigger] s[i]),
    ensures
        digits_value(s.subrange(0, k)) <= digits_value(s),
    decreases s.len() - k,
{
    if k < s.len() {
        lemma_digits_value_grows(s, k + 1);
        assert(s.subrange(0, k + 1).drop_last() =~= s.subrange(0, k));
    } else {
        assert(s.subrange(0, k) =~= s);
    }
}

/// Parses `cs[lo..hi]` as `str::parse::<u64>` does.
fn parse_u64_range(cs: &Vec<char>, lo: usize, hi: usize) -> (r: Option<u64>)
    requires
        lo <= hi <= cs@.len(),
    ensures
        r == spec_parse_u64(cs@.subrange(lo as int, hi as int)),
{
    let ghost s = cs@.subrange(lo as int, hi as int);
    let mut start = lo;
    if lo < hi && cs[lo] == '+' {
        start = lo + 1;
    }
    let ghost d = cs@.subrange(start as int, hi as int);
    assert(d =~= unsigned_part(s));
    if start == hi {
        return None;
    }
    let mut v: u64 = 0;
    let mut i: usize = start;
    while i < hi
        invariant
            lo <= start <= i <= hi <= cs@.len(),
            start < hi,
            d == cs@.subrange(start as int, hi as int),
            s == cs@.subrange(lo as int, hi as int),
            d == unsigned_part(s),
            forall|k: int| start <= k < i ==> is_digit(#[trigger] cs@[k]),
            v == digits_value(cs@.subrange(start as int, i as int)),
        decreases hi - i,
    {
        let c = cs[i];
        if !('0' <= c && c <= '9') {
            assert(!is_digit(d[i - start]));
            return None;
        }
        let digit = (c as u32 - '0' as u32) as u64;
        assert(cs@.subrange(start as int, i + 1).drop_last() =~= cs@.subrange(start as int, i as int));
        if v > (u64::MAX - digit) / 10 {
            proof {
                assert(digits_value(cs@.subrange(start as int, i + 1)) > u64::MAX) by (nonlinear_arith)
                    requires
                        v > (u64::MAX - digit) / 10,
                        digit <= 9,
                        digits_value(cs@.subrange(start as int, i + 1)) == v * 10 + digit;
                if all_digits(d) {
                    assert(cs@.subrange(start as int, i + 1) =~= d.subrange(0, (i + 1 - start) as int));
                    lemma_digits_value_grows(d, (i + 1 - start) as int);
                }
            }
            return None;
        }
        v = v * 10 + digit;
        i = i + 1;
    }
    assert(cs@.subrange(start as int, i as int) =~= d);
    Some(v)
}

/// Parses a header value as `str::parse::<u64>` does.
pub fn parse_u64(s: &str) -> (r: Option<u64>)
    ensures
        r == spec_parse_u64(s@),
{
    let cs = chars_of(s);
    assert(cs@.subrange(0, cs@.len() as int) =~= s@);
    parse_u64_range(&cs, 0, cs.len())
}


/// The part of `s` after its last `/`, or all of `s` if it has none, as
/// `rsplit('/').next()` gives it.
pub open spec fn last_segment(s: Seq<char>) -> Seq<char>
    decreases s.len(),
{
    if s.len() == 0 {
        s
    } else if s.last() == '/' {
        Seq::empty()
    } else {
        last_segment(s.drop_last()).push(s.last())
    }
}

proof fn lemma_last_segment(s: Seq<char>, start: int, end: int)
    requires
        0 <= start <= end <= s.len(),
        forall|i: int| start <= i < end ==> #[trigger] s[i] != '/',
        start == 0 || s[start - 1] == '/',
    ensures
        last_segment(s.subrange(0, end)) == s.subrange(start, end),
    decreases end - start,
{
    let t = s.subrange(0, end);
    if start < end {
        assert(t.drop_last() =~= s.subrange(0, end - 1));
        lemma_last_segment(s, start, end - 1);
        assert(s.subrange(start, end - 1).push(s[end - 1]) =~= s.subrange(start, end));
    } else if start > 0 {
        assert(t.last() == '/');
        assert(s.subrange(start, end) =~= Seq::<char>::empty());
    } else {
        assert(t =~= Seq::<char>::empty());
        assert(s.subrange(start, end) =~= Seq::<char>::empty());
    }
}

/// The total size that a `Content-Range` value (`bytes 0-0/12345`) gives:
/// the part after its last `/`, trimmed, parsed, and only if positive.
pub open spec fn spec_content_range_total(cr: Seq<char>) -> Option<u64> {
    match spec_parse_u64(trim(last_segment(cr))) {
        Some(n) => if n > 0 { Some(n) } else { None },
        None => None,
    }
}

/// The total size in a `Content-Range` header value, if it gives one.
pub fn content_range_total(cr: &str) -> (r: Option<u64>)
    ensures
        r == spec_content_range_total(cr@),
{
    let cs = chars_of(cr);
    let n = cs.len();
    let mut start: usize = n;
    while start > 0 && cs[start - 1] != '/'
        invariant
            start <= n,
            n == cs@.len(),
            forall|i: int| start <= i < n ==> #[trigger] cs@[i] != '/',
        decreases start,
    {
        start = start - 1;
    }
    proof {
        lemma_last_segment(cs@, start as int, n as int);
        assert(cs@.subrange(0, n as int) =~= cr@);
    }
    let (lo, hi) = trim_range(&cs, start, n);
    match parse_u64_range(&cs, lo, hi) {
        Some(v) => if v > 0 { Some(v) } else { None },
        None => None,
    }
}

/// A positive `Content-Length` value, parsed as it is (no trimming).
pub open spec fn spec_positive_length(cl: Seq<char>) -> Option<u64> {
    match spec_parse_u64(cl) {
        Some(n) => if n > 0 { Some(n) } else { None },
        None => None,
    }
}

/// The size a `Content-Length` header value gives, if positive.
pub fn positive_length(cl: &str) -> (r: Option<u64>)
    ensures
        r == spec_positive_length(cl@),
{
    match parse_u64(cl) {
        Some(v) => if v > 0 { Some(v) } else { None },
        None => None,
    }
}

/// The remote size from the answer to a one-byte range request: the total
/// in `Content-Range` if it gives one, else a positive `Content-Length`.
/// Header values that are not visible ASCII come as `None`.
pub open spec fn spec_ranged_size(content_range: Option<Seq<char>>, content_length: Option<Seq<char>>) -> Option<u64> {
    let from_range = match content_range {
        Some(cr) => spec_content_range_total(cr),
        None => None,
    };
    match from_range {
        Some(n) => Some(n),
        None => match content_length {
            Some(cl) => spec_positive_length(cl),
            None => None,
        },
    }
}

/// The remote size the headers of a range request give, if any; when they
/// give none, a `HEAD` request's `Content-Length` is tried next.
pub fn ranged_size(content_range: Option<&str>, content_length: Option<&str>) -> (r: Option<u64>)
    ensures
        r == spec_ranged_size(
            match content_range { Some(c) => Some(c@), None => None },
            match content_length { Some(c) => Some(c@), None => None },
        ),
        content_range is None ==> r == match content_length {
            Some(c) => spec_positive_length(c@),
            None => None,
        },
        content_range matches Some(c) ==> (spec_content_range_total(c@) is Some
            ==> r == spec_content_range_total(c@)),
{
    match content_range {
        Some(cr) => match content_range_total(cr) {
            Some(n) => return Some(n),
            None => {},
        },
        None => {},
    }
    match content_length {
        Some(cl) => positive_length(cl),
        None => None,
    }
}

proof fn lemma_digit_char_value(d: nat)
    requires
        d < 10,
    ensures
        digit_char(d) as nat - '0' as nat == d,
{
    assert(d == 0 || d == 1 || d == 2 || d == 3 || d == 4 || d == 5 || d == 6 || d == 7 || d == 8 || d == 9);
}

proof fn lemma_digits_value_dec(n: nat)
    ensures
        digits_value(dec(n)) == n,
    decreases n,
{
    lemma_digit_char_value(n % 10);
    if n >= 10 {
        lemma_digits_value_dec(n / 10);
        assert(dec(n).drop_last() =~= dec(n / 10));
        assert(dec(n).last() == digit_char(n % 10));
        assert(digits_value(dec(n)) == digits_value(dec(n).drop_last()) * 10 + (dec(n).last() as nat - '0' as nat) as nat);
        assert(n == (n / 10) * 10 + n % 10);
    } else {
        assert(dec(n).drop_last() =~= Seq::<char>::empty());
        assert(dec(n).last() == digit_char(n % 10));
        assert(digits_value(dec(n)) == digits_value(dec(n).drop_last()) * 10 + (dec(n).last() as nat - '0' as nat) as nat);
        assert(digits_value(Seq::<char>::empty()) == 0);
    }
}

/// Decimal text parses back to its number.
proof fn lemma_parse_dec(n: u64)
    ensures
        spec_parse_u64(dec(n as nat)) == Some(n),
{
    lemma_dec_digits(n as nat);
    lemma_digits_value_dec(n as nat);
    assert(dec(n as nat)[0] != '+');
    assert(unsigned_part(dec(n as nat)) == dec(n as nat));
    assert(all_digits(dec(n as nat))) by {
        assert forall|i: int| 0 <= i < dec(n as nat).len() implies is_digit(#[trigger] dec(n as nat)[i]) by {
            assert(is_digit_char(dec(n as nat)[i]));
        }
    }
}

/// The size of a remote file: the total that `Content-Range` gives wins;
/// without one, the response's `Content-Length` counts when it is a
/// positive number, so a length written as the decimal `n > 0` gives `n`,
/// and `0` gives no size.
pub proof fn remote_size_from_headers(n: u64, cr: Seq<char>, cl: Option<Seq<char>>)
    ensures
        n > 0 ==> spec_ranged_size(None, Some(dec(n as nat))) == Some(n),
        spec_ranged_size(None, Some(dec(0))) is None,
        spec_ranged_size(None, None) is None,
        spec_content_range_total(cr) is Some ==> spec_ranged_size(Some(cr), cl) == spec_content_range_total(cr),
        spec_content_range_total(cr) is None && n > 0 ==> spec_ranged_size(Some(cr), Some(dec(n as nat))) == Some(n),
{
    lemma_parse_dec(n);
    lemma_parse_dec(0);
}

} // verus!
