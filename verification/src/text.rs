//! Character-level text helpers: decimal rendering, prefixes, substring
//! search and replacement, all over `Seq<char>` models.
use vstd::prelude::*;

verus! {

/// Appends one character to a string.
/// Trusted: `String::push` adds `c` at the end and changes nothing else.
#[verifier::external_body]
pub(crate) fn push_char(s: &mut String, c: char)
    ensures
        final(s)@ == old(s)@.push(c),
{
    s.push(c);
}

/// The ASCII digit for `d` (taken modulo nothing: callers pass `d < 10`).
pub open spec fn digit_char(d: nat) -> char {
    if d == 0 { '0' }
    else if d == 1 { '1' }
    else if d == 2 { '2' }
    else if d == 3 { '3' }
    else if d == 4 { '4' }
    else if d == 5 { '5' }
    else if d == 6 { '6' }
    else if d == 7 { '7' }
    else if d == 8 { '8' }
    else { '9' }
}

/// Decimal representation of `n`, most significant digit first, no padding.
pub open spec fn dec(n: nat) -> Seq<char>
    decreases n,
{
    if n < 10 {
        seq![digit_char(n)]
    } else {
        dec(n / 10).push(digit_char(n % 10))
    }
}

/// The ASCII decimal digits.
pub open spec fn is_digit_char(c: char) -> bool {
    '0' <= c && c <= '9'
}

/// Decimal text is made of digits, and is longer than one digit from ten on.
pub proof fn lemma_dec_digits(n: nat)
    ensures
        forall|k: int| 0 <= k < dec(n).len() ==> is_digit_char(#[trigger] dec(n)[k]),
        dec(n).len() >= 1,
        n >= 10 ==> dec(n).len() >= 2,
    decreases n,
{
    if n >= 10 {
        lemma_dec_digits(n / 10);
    }
}

pub proof fn lemma_digit_char_injective(a: nat, b: nat)
    requires
        a < 10,
        b < 10,
        digit_char(a) == digit_char(b),
    ensures
        a == b,
{
}

/// Different numbers have different decimal texts.
pub proof fn lemma_dec_injective(a: nat, b: nat)
    requires
        dec(a) == dec(b),
    ensures
        a == b,
    decreases a,
{
    lemma_dec_digits(a);
    lemma_dec_digits(b);
    if a >= 10 && b >= 10 {
        assert(dec(a).last() == digit_char(a % 10));
        assert(dec(b).last() == digit_char(b % 10));
        lemma_digit_char_injective(a % 10, b % 10);
        assert(dec(a).drop_last() =~= dec(a / 10));
        assert(dec(b).drop_last() =~= dec(b / 10));
        lemma_dec_injective(a / 10, b / 10);
    } else if a < 10 && b < 10 {
        assert(dec(a)[0] == digit_char(a));
        assert(dec(b)[0] == digit_char(b));
        lemma_digit_char_injective(a, b);
    }
}

/// Two texts `x c y` and `x2 c y2` whose heads `x`, `x2` are digits only,
/// split at a separator `c` that is no digit, are the same text only if
/// the heads and the tails are.
pub proof fn lemma_split_at_separator(x: Seq<char>, c: char, y: Seq<char>, x2: Seq<char>, y2: Seq<char>)
    requires
        !is_digit_char(c),
        x + seq![c] + y == x2 + seq![c] + y2,
        forall|k: int| 0 <= k < x.len() ==> is_digit_char(#[trigger] x[k]),
        forall|k: int| 0 <= k < x2.len() ==> is_digit_char(#[trigger] x2[k]),
    ensures
        x == x2,
        y == y2,
{
    let w = x + seq![c] + y;
    let w2 = x2 + seq![c] + y2;
    if x.len() < x2.len() {
        assert(w[x.len() as int] == c);
        assert(w2[x.len() as int] == x2[x.len() as int]);
    } else if x2.len() < x.len() {
        assert(w2[x2.len() as int] == c);
        assert(w[x2.len() as int] == x[x2.len() as int]);
    } else {
        assert(x =~= w.subrange(0, x.len() as int));
        assert(x2 =~= w2.subrange(0, x.len() as int));
        assert(y =~= w.subrange(x.len() as int + 1, w.len() as int));
        assert(y2 =~= w2.subrange(x.len() as int + 1, w.len() as int));
    }
}

/// `n` rendered with at least two digits (`{:02}`).
pub open spec fn pad2(n: nat) -> Seq<char> {
    if n < 10 {
        seq!['0'] + dec(n)
    } else {
        dec(n)
    }
}

fn digit(d: u64) -> (c: char)
    requires
        d < 10,
    ensures
        c == digit_char(d as nat),
{
    if d == 0 { '0' }
    else if d == 1 { '1' }
    else if d == 2 { '2' }
    else if d == 3 { '3' }
    else if d == 4 { '4' }
    else if d == 5 { '5' }
    else if d == 6 { '6' }
    else if d == 7 { '7' }
    else if d == 8 { '8' }
    else { '9' }
}

/// Appends the decimal representation of `n`.
pub fn push_decimal(s: &mut String, n: u64)
    ensures
        final(s)@ == old(s)@ + dec(n as nat),
    decreases n,
{
    if n >= 10 {
        push_decimal(s, n / 10);
    }
    push_char(s, digit(n % 10));
    assert(final(s)@ =~= old(s)@ + dec(n as nat)) by {
        if n >= 10 {
            assert(dec(n as nat) == dec((n / 10) as nat).push(digit_char((n % 10) as nat)));
        }
    }
}

/// Appends `n` padded to two digits with a leading zero.
pub fn push_pad2(s: &mut String, n: u64)
    ensures
        final(s)@ == old(s)@ + pad2(n as nat),
{
    if n < 10 {
        push_char(s, '0');
    }
    push_decimal(s, n);
    assert(final(s)@ =~= old(s)@ + pad2(n as nat));
}

/// Appends a string slice.
pub fn push_str(s: &mut String, t: &str)
    ensures
        final(s)@ == old(s)@ + t@,
{
    s.append(t);
}

/// Characters of a string slice as a vector.
pub fn chars_of(s: &str) -> (r: Vec<char>)
    ensures
        r@ == s@,
{
    let n = s.unicode_len();
    let mut r: Vec<char> = Vec::new();
    let mut i: usize = 0;
    while i < n
        invariant
            n == s@.len(),
            i <= n,
            r@ == s@.subrange(0, i as int),
        decreases n - i,
    {
        r.push(s.get_char(i));
        i = i + 1;
        assert(r@ =~= s@.subrange(0, i as int));
    }
    assert(r@ =~= s@);
    r
}

/// `p` is a prefix of `s`.
pub open spec fn is_prefix(s: Seq<char>, p: Seq<char>) -> bool {
    p.len() <= s.len() && s.subrange(0, p.len() as int) == p
}

/// `needle` occurs in `hay` starting at position `i`.
pub open spec fn occurs_at(hay: Seq<char>, needle: Seq<char>, i: int) -> bool {
    0 <= i && i + needle.len() <= hay.len() && hay.subrange(i, i + needle.len()) == needle
}

/// `needle` occurs somewhere in `hay`.
pub open spec fn contains(hay: Seq<char>, needle: Seq<char>) -> bool {
    exists|i: int| occurs_at(hay, needle, i)
}

/// Every non-overlapping occurrence of `from` (scanning left to right)
/// replaced by `to`; `from` must be non-empty.
pub open spec fn replace_all(s: Seq<char>, from: Seq<char>, to: Seq<char>) -> Seq<char>
    decreases s.len(),
{
    if from.len() == 0 || s.len() == 0 {
        s
    } else if is_prefix(s, from) {
        to + replace_all(s.subrange(from.len() as int, s.len() as int), from, to)
    } else {
        seq![s[0]] + replace_all(s.subrange(1, s.len() as int), from, to)
    }
}

/// `x` comes strictly before `y` in lexicographic (code point) order: at
/// the first position where they differ `x` has the smaller character, or
/// `x` is a proper prefix of `y`.
pub open spec fn text_before(x: Seq<char>, y: Seq<char>) -> bool {
    ||| exists|i: int| 0 <= i < x.len() && i < y.len() && x.subrange(0, i) == y.subrange(0, i) && x[i] < y[i]
    ||| x.len() < y.len() && y.subrange(0, x.len() as int) == x
}

/// How many occurrences of `from` [`replace_all`] replaces in `s`.
pub open spec fn replaced_count(s: Seq<char>, from: Seq<char>) -> nat
    decreases s.len(),
{
    if from.len() == 0 || s.len() == 0 {
        0
    } else if is_prefix(s, from) {
        1 + replaced_count(s.subrange(from.len() as int, s.len() as int), from)
    } else {
        replaced_count(s.subrange(1, s.len() as int), from)
    }
}

/// Each replacement changes the length by the difference of the lengths.
pub proof fn lemma_replace_all_len(s: Seq<char>, from: Seq<char>, to: Seq<char>)
    ensures
        replace_all(s, from, to).len() == s.len() + replaced_count(s, from) * (to.len() - from.len()),
    decreases s.len(),
{
    let d = to.len() - from.len();
    if from.len() == 0 || s.len() == 0 {
        assert(replaced_count(s, from) == 0);
        assert(0 * d == 0) by (nonlinear_arith);
    } else if is_prefix(s, from) {
        let rest = s.subrange(from.len() as int, s.len() as int);
        lemma_replace_all_len(rest, from, to);
        let c = replaced_count(rest, from);
        assert(replace_all(s, from, to) == to + replace_all(rest, from, to));
        assert(replaced_count(s, from) == 1 + c);
        assert(rest.len() == s.len() - from.len());
        assert((1 + c) * d == c * d + d) by (nonlinear_arith);
    } else {
        let rest = s.subrange(1, s.len() as int);
        lemma_replace_all_len(rest, from, to);
        assert(replace_all(s, from, to) == seq![s[0]] + replace_all(rest, from, to));
        assert(replaced_count(s, from) == replaced_count(rest, from));
    }
}

/// Whether `p` matches `s` at position `i`.
pub fn matches_at(s: &Vec<char>, p: &Vec<char>, i: usize) -> (r: bool)
    requires
        i <= s@.len(),
    ensures
        r == occurs_at(s@, p@, i as int),
{
    if p.len() > s.len() - i {
        return false;
    }
    let mut j: usize = 0;
    while j < p.len()
        invariant
            i + p@.len() <= s@.len(),
            j <= p@.len(),
            forall|k: int| 0 <= k < j ==> s@[i + k] == p@[k],
        decreases p@.len() - j,
    {
        assert(i + j < s.len());
        if s[i + j] != p[j] {
            assert(s@.subrange(i as int, i + p@.len())[j as int] != p@[j as int]);
            return false;
        }
        j = j + 1;
    }
    assert(s@.subrange(i as int, i + p@.len()) =~= p@);
    true
}

/// Whether `s` starts with `p`.
pub fn starts_with(s: &str, p: &str) -> (r: bool)
    ensures
        r == is_prefix(s@, p@),
{
    let sc = chars_of(s);
    let pc = chars_of(p);
    let r = matches_at(&sc, &pc, 0);
    assert(r == is_prefix(s@, p@)) by {
        if p@.len() <= s@.len() {
            assert(s@.subrange(0, p@.len() as int) == s@.subrange(0, 0 + p@.len() as int));
        }
    }
    r
}

/// Whether `needle` occurs in `hay`.
pub fn contains_str(hay: &str, needle: &str) -> (r: bool)
    ensures
        r == contains(hay@, needle@),
{
    let h = chars_of(hay);
    let n = chars_of(needle);
    let mut i: usize = 0;
    while i < h.len()
        invariant
            h@ == hay@,
            n@ == needle@,
            i <= h@.len(),
            forall|k: int| 0 <= k < i ==> !occurs_at(hay@, needle@, k),
        decreases h@.len() - i,
    {
        if matches_at(&h, &n, i) {
            return true;
        }
        i = i + 1;
    }
    if matches_at(&h, &n, i) {
        return true;
    }
    assert forall|k: int| !occurs_at(hay@, needle@, k) by {
        if 0 <= k && k + needle@.len() <= hay@.len() {
            assert(k <= i);
        }
    }
    false
}

/// Whether two string slices hold the same characters.
pub fn str_eq(a: &str, b: &str) -> (r: bool)
    ensures
        r == (a@ == b@),
{
    let ac = chars_of(a);
    let bc = chars_of(b);
    if ac.len() != bc.len() {
        return false;
    }
    let r = matches_at(&ac, &bc, 0);
    assert(r == (a@ == b@)) by {
        assert(a@.subrange(0, 0 + b@.len() as int) =~= a@);
    }
    r
}

/// `s` with every occurrence of `from` replaced by `to`, as `str::replace` does.
pub fn replace_str(s: &str, from: &str, to: &str) -> (r: String)
    requires
        from@.len() > 0,
    ensures
        r@ == replace_all(s@, from@, to@),
{
    let sc = chars_of(s);
    let fc = chars_of(from);
    let mut r = String::new();
    let mut i: usize = 0;
    assert(s@.subrange(0, s@.len() as int) =~= s@);
    assert(r@ + replace_all(s@, from@, to@) =~= replace_all(s@, from@, to@));
    while i < sc.len()
        invariant
            sc@ == s@,
            fc@ == from@,
            from@.len() > 0,
            i <= sc@.len(),
            r@ + replace_all(s@.subrange(i as int, s@.len() as int), from@, to@)
                == replace_all(s@, from@, to@),
        decreases sc@.len() - i,
    {
        let ghost rest = s@.subrange(i as int, s@.len() as int);
        if matches_at(&sc, &fc, i) {
            assert(is_prefix(rest, from@)) by {
                assert(rest.subrange(0, from@.len() as int) =~= s@.subrange(i as int, i + from@.len()));
            }
            assert(rest.subrange(from@.len() as int, rest.len() as int)
                =~= s@.subrange(i + from@.len(), s@.len() as int));
            push_str(&mut r, to);
            i = i + fc.len();
            assert(r@ + replace_all(s@.subrange(i as int, s@.len() as int), from@, to@)
                =~= replace_all(s@, from@, to@));
        } else {
            assert(!is_prefix(rest, from@)) by {
                if is_prefix(rest, from@) {
                    assert(rest.subrange(0, from@.len() as int) =~= s@.subrange(i as int, i + from@.len()));
                }
            }
            assert(rest.subrange(1, rest.len() as int) =~= s@.subrange(i + 1, s@.len() as int));
            assert(rest[0] == s@[i as int]);
            push_char(&mut r, sc[i]);
            i = i + 1;
            assert(r@ + replace_all(s@.subrange(i as int, s@.len() as int), from@, to@)
                =~= replace_all(s@, from@, to@));
        }
    }
    assert(s@.subrange(i as int, s@.len() as int) =~= Seq::<char>::empty());
    assert(r@ + Seq::<char>::empty() =~= r@);
    r
}

} // verus!
