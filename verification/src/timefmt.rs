//! Durations as `MM:SS` / `HH:MM:SS`, UNIX timestamps as UTC calendar
//! dates, and log lines.
use vstd::prelude::*;
use crate::text::{
    dec, digit_char, lemma_dec_digits, lemma_dec_injective, lemma_digit_char_injective,
    lemma_split_at_separator, pad2, push_char, push_decimal, push_pad2, push_str,
    text_before,
};

verus! {

/// A duration in seconds as `MM:SS`, or `HH:MM:SS` once it reaches an hour.
pub open spec fn spec_format_time(secs: nat) -> Seq<char> {
    let m = secs / 60;
    let s = secs % 60;
    if m > 59 {
        pad2(m / 60) + seq![':'] + pad2(m % 60) + seq![':'] + pad2(s)
    } else {
        pad2(m) + seq![':'] + pad2(s)
    }
}

/// Formats an elapsed time in seconds for progress labels.
pub fn format_time(secs: u64) -> (r: String)
    ensures
        r@ == spec_format_time(secs as nat),
{
    let m = secs / 60;
    let s = secs % 60;
    let mut r = String::new();
    if m > 59 {
        let h = m / 60;
        let m = m % 60;
        push_pad2(&mut r, h);
        push_char(&mut r, ':');
        push_pad2(&mut r, m);
        push_char(&mut r, ':');
        push_pad2(&mut r, s);
    } else {
        push_pad2(&mut r, m);
        push_char(&mut r, ':');
        push_pad2(&mut r, s);
    }
    assert(r@ =~= spec_format_time(secs as nat));
    r
}


/// Gregorian leap years.
pub open spec fn is_leap(y: nat) -> bool {
    (y % 4 == 0 && y % 100 != 0) || y % 400 == 0
}

/// Days in year `y`.
pub open spec fn year_len(y: nat) -> nat {
    if is_leap(y) { 366 } else { 365 }
}

/// Days in month `m` (1 to 12) of year `y`.
pub open spec fn month_len(y: nat, m: nat) -> nat {
    if m == 2 {
        if is_leap(y) { 29 } else { 28 }
    } else if m == 4 || m == 6 || m == 9 || m == 11 {
        30
    } else {
        31
    }
}

/// Days from 1970-01-01 to the first day of year `y`.
pub open spec fn days_before_year(y: nat) -> nat
    decreases y,
{
    if y <= 1970 { 0 } else { days_before_year((y - 1) as nat) + year_len((y - 1) as nat) }
}

/// Days from the first day of year `y` to the first day of month `m`.
pub open spec fn days_before_month(y: nat, m: nat) -> nat
    decreases m,
{
    if m <= 1 { 0 } else { days_before_month(y, (m - 1) as nat) + month_len(y, (m - 1) as nat) }
}

/// A UTC calendar date and time of day.
#[derive(Clone, Copy, Debug, PartialEq, Eq, Structural)]
pub struct UtcFields {
    pub year: u64,
    pub month: u64,
    pub day: u64,
    pub hour: u64,
    pub minute: u64,
    pub second: u64,
}

/// `f` is the UTC reading of `secs` seconds after 1970-01-01 00:00:00: a
/// valid date from 1970 on and a valid time of day that count exactly
/// `secs` seconds from the epoch.
pub open spec fn reads_as(secs: nat, f: UtcFields) -> bool {
    &&& f.year >= 1970
    &&& 1 <= f.month <= 12
    &&& 1 <= f.day <= month_len(f.year as nat, f.month as nat)
    &&& f.hour < 24 && f.minute < 60 && f.second < 60
    &&& (days_before_year(f.year as nat) + days_before_month(f.year as nat, f.month as nat) + f.day - 1) * 86400
            + f.hour * 3600 + f.minute * 60 + f.second == secs
}

proof fn lemma_months_fill_year(y: nat)
    ensures
        days_before_month(y, 13) == year_len(y),
{
    reveal_with_fuel(days_before_month, 13);
}

proof fn lemma_days_before_month_grows(y: nat, a: nat, b: nat)
    requires
        1 <= a <= b,
    ensures
        days_before_month(y, a) + (b - a) <= days_before_month(y, b),
        a < b ==> days_before_month(y, a) + month_len(y, a) <= days_before_month(y, b),
    decreases b - a,
{
    if a < b {
        lemma_days_before_month_grows(y, a, (b - 1) as nat);
    }
}

proof fn lemma_days_before_year_grows(a: nat, b: nat)
    requires
        1970 <= a < b,
    ensures
        days_before_year(a) + year_len(a) <= days_before_year(b),
    decreases b - a,
{
    if a + 1 < b {
        lemma_days_before_year_grows(a, (b - 1) as nat);
    }
}

/// Each moment from the epoch on has exactly one UTC reading.
pub proof fn utc_reading_unique(secs: nat, f: UtcFields, g: UtcFields)
    requires
        reads_as(secs, f),
        reads_as(secs, g),
    ensures
        f == g,
{
    let df = (days_before_year(f.year as nat) + days_before_month(f.year as nat, f.month as nat) + f.day - 1) as nat;
    let dg = (days_before_year(g.year as nat) + days_before_month(g.year as nat, g.month as nat) + g.day - 1) as nat;
    let tf = f.hour * 3600 + f.minute * 60 + f.second;
    let tg = g.hour * 3600 + g.minute * 60 + g.second;
    assert(df == dg && tf == tg) by (nonlinear_arith)
        requires
            df * 86400 + tf == dg * 86400 + tg,
            0 <= tf < 86400,
            0 <= tg < 86400;
    assert(f.hour == g.hour && f.minute == g.minute && f.second == g.second) by (nonlinear_arith)
        requires
            f.hour * 3600 + f.minute * 60 + f.second == g.hour * 3600 + g.minute * 60 + g.second,
            f.minute < 60, f.second < 60, g.minute < 60, g.second < 60;
    lemma_months_fill_year(f.year as nat);
    lemma_months_fill_year(g.year as nat);
    lemma_days_before_month_grows(f.year as nat, f.month as nat, 13);
    lemma_days_before_month_grows(g.year as nat, g.month as nat, 13);
    if f.year < g.year {
        lemma_days_before_year_grows(f.year as nat, g.year as nat);
    } else if g.year < f.year {
        lemma_days_before_year_grows(g.year as nat, f.year as nat);
    }
    assert(f.year == g.year);
    if f.month < g.month {
        lemma_days_before_month_grows(f.year as nat, f.month as nat, g.month as nat);
    } else if g.month < f.month {
        lemma_days_before_month_grows(g.year as nat, g.month as nat, f.month as nat);
    }
}

/// Leap years from 1970 up to, not including, year `y`.
spec fn leaps_before(y: nat) -> int {
    (y - 1) / 4 - (y - 1) / 100 + (y - 1) / 400 - 477
}

proof fn lemma_days_before_year_closed(y: nat)
    requires
        y >= 1970,
    ensures
        days_before_year(y) == 365 * (y - 1970) + leaps_before(y),
    decreases y,
{
    if y > 1970 {
        let p = (y - 1) as nat;
        lemma_days_before_year_closed(p);
        assert(leaps_before(y) - leaps_before(p) == (if is_leap(p) { 1int } else { 0int })) by (nonlinear_arith)
            requires
                p >= 1970,
                y == p + 1;
    }
}

/// Every reading of a moment before 10000-01-01 00:00:00 UTC has a
/// four-digit year.
proof fn lemma_four_digit_year(secs: nat, f: UtcFields)
    requires
        reads_as(secs, f),
        secs < 253402300800,
    ensures
        f.year < 10000,
{
    if f.year >= 10000 {
        lemma_days_before_year_closed(10000);
        if f.year > 10000 {
            lemma_days_before_year_grows(10000, f.year as nat);
        }
        let d = (days_before_year(f.year as nat) + days_before_month(f.year as nat, f.month as nat) + f.day - 1) as nat;
        assert(d >= 2932897);
        assert(d * 86400 >= 2932897 * 86400) by (nonlinear_arith)
            requires d >= 2932897;
    }
}

/// `f` comes before `g` in calendar order: by year, then month, day, hour,
/// minute and second.
spec fn fields_before(f: UtcFields, g: UtcFields) -> bool {
    ||| f.year < g.year
    ||| f.year == g.year && f.month < g.month
    ||| f.year == g.year && f.month == g.month && f.day < g.day
    ||| f.year == g.year && f.month == g.month && f.day == g.day && f.hour < g.hour
    ||| f.year == g.year && f.month == g.month && f.day == g.day && f.hour == g.hour && f.minute < g.minute
    ||| f.year == g.year && f.month == g.month && f.day == g.day && f.hour == g.hour && f.minute == g.minute
        && f.second < g.second
}

/// Calendar order is time order.
proof fn lemma_fields_before_earlier(a: nat, f: UtcFields, b: nat, g: UtcFields)
    requires
        reads_as(a, f),
        reads_as(b, g),
        fields_before(f, g),
    ensures
        a < b,
{
    let df = (days_before_year(f.year as nat) + days_before_month(f.year as nat, f.month as nat) + f.day - 1) as nat;
    let dg = (days_before_year(g.year as nat) + days_before_month(g.year as nat, g.month as nat) + g.day - 1) as nat;
    let tf = f.hour * 3600 + f.minute * 60 + f.second;
    let tg = g.hour * 3600 + g.minute * 60 + g.second;
    lemma_months_fill_year(f.year as nat);
    lemma_days_before_month_grows(f.year as nat, f.month as nat, 13);
    if f.year < g.year {
        lemma_days_before_year_grows(f.year as nat, g.year as nat);
    } else if f.month < g.month {
        lemma_days_before_month_grows(f.year as nat, f.month as nat, g.month as nat);
    }
    if df < dg {
        assert(df * 86400 + tf < dg * 86400 + tg) by (nonlinear_arith)
            requires
                df < dg,
                0 <= tf < 86400,
                0 <= tg;
    } else {
        assert(df == dg);
        assert(tf < tg) by (nonlinear_arith)
            requires
                f.hour < g.hour || (f.hour == g.hour && f.minute < g.minute)
                    || (f.hour == g.hour && f.minute == g.minute && f.second < g.second),
                f.minute < 60, f.second < 60, g.minute < 60, g.second < 60,
                tf == f.hour * 3600 + f.minute * 60 + f.second,
                tg == g.hour * 3600 + g.minute * 60 + g.second;
    }
}

/// Of two readings of earlier and later moments, the earlier comes first in
/// calendar order.
proof fn lemma_earlier_fields_before(a: nat, f: UtcFields, b: nat, g: UtcFields)
    requires
        reads_as(a, f),
        reads_as(b, g),
        a < b,
    ensures
        fields_before(f, g),
{
    if f == g {
    } else if fields_before(g, f) {
        lemma_fields_before_earlier(b, g, a, f);
    } else {
    }
}

/// The text of a reading with a four-digit year, character by character.
spec fn fixed_text(f: UtcFields) -> Seq<char> {
    seq![
        digit_char((f.year / 1000) as nat), digit_char(((f.year / 100) % 10) as nat),
        digit_char(((f.year / 10) % 10) as nat), digit_char((f.year % 10) as nat), '-',
        digit_char((f.month / 10) as nat), digit_char((f.month % 10) as nat), '-',
        digit_char((f.day / 10) as nat), digit_char((f.day % 10) as nat), ' ',
        digit_char((f.hour / 10) as nat), digit_char((f.hour % 10) as nat), ':',
        digit_char((f.minute / 10) as nat), digit_char((f.minute % 10) as nat), ':',
        digit_char((f.second / 10) as nat), digit_char((f.second % 10) as nat), ' ', 'U', 'T', 'C',
    ]
}

proof fn lemma_pad2_digits(n: nat)
    requires
        n < 100,
    ensures
        pad2(n) == seq![digit_char(n / 10), digit_char(n % 10)],
{
    reveal_with_fuel(dec, 2);
    if n < 10 {
        assert(pad2(n) =~= seq![digit_char(n / 10), digit_char(n % 10)]);
    } else {
        assert(dec(n / 10) == seq![digit_char(n / 10)]);
        assert(pad2(n) =~= seq![digit_char(n / 10), digit_char(n % 10)]);
    }
}

proof fn lemma_dec_four_digits(y: nat)
    requires
        1000 <= y < 10000,
    ensures
        dec(y) == seq![digit_char(y / 1000), digit_char((y / 100) % 10), digit_char((y / 10) % 10), digit_char(y % 10)],
{
    assert(y / 10 / 10 == y / 100 && y / 100 / 10 == y / 1000) by (nonlinear_arith)
        requires 1000 <= y < 10000;
    let y1 = y / 10;
    let y2 = y1 / 10;
    let y3 = y2 / 10;
    assert(dec(y3) == seq![digit_char(y3)]);
    assert(dec(y2) == dec(y3).push(digit_char(y2 % 10)));
    assert(dec(y1) == dec(y2).push(digit_char(y1 % 10)));
    assert(dec(y) == dec(y1).push(digit_char(y % 10)));
    assert(dec(y) =~= seq![digit_char(y / 1000), digit_char((y / 100) % 10), digit_char((y / 10) % 10), digit_char(y % 10)]);
}

/// A reading with a four-digit year is written with fixed widths.
proof fn lemma_fixed_text(f: UtcFields)
    requires
        1000 <= f.year < 10000,
        f.month < 100, f.day < 100, f.hour < 100, f.minute < 100, f.second < 100,
    ensures
        render_utc(f) == fixed_text(f),
{
    reveal_strlit(" UTC");
    lemma_dec_four_digits(f.year as nat);
    lemma_pad2_digits(f.month as nat);
    lemma_pad2_digits(f.day as nat);
    lemma_pad2_digits(f.hour as nat);
    lemma_pad2_digits(f.minute as nat);
    lemma_pad2_digits(f.second as nat);
    assert(render_utc(f) =~= fixed_text(f));
}

proof fn lemma_digit_order(a: nat, b: nat)
    requires
        a < b < 10,
    ensures
        digit_char(a) < digit_char(b),
{
}

/// Two texts that agree before position `p` and hold the two-digit numbers
/// `n < m` at `p` compare as the numbers do.
proof fn lemma_two_digits_before(x: Seq<char>, y: Seq<char>, p: int, n: nat, m: nat)
    requires
        0 <= p,
        p + 2 <= x.len(),
        p + 2 <= y.len(),
        x.subrange(0, p) == y.subrange(0, p),
        x[p] == digit_char(n / 10), x[p + 1] == digit_char(n % 10),
        y[p] == digit_char(m / 10), y[p + 1] == digit_char(m % 10),
        n < m < 100,
    ensures
        text_before(x, y),
{
    if n / 10 < m / 10 {
        lemma_digit_order(n / 10, m / 10);
        assert(0 <= p < x.len() && p < y.len() && x.subrange(0, p) == y.subrange(0, p) && x[p] < y[p]);
    } else {
        assert(n / 10 == m / 10 && n % 10 < m % 10);
        lemma_digit_order(n % 10, m % 10);
        assert(x.subrange(0, p + 1) =~= y.subrange(0, p + 1)) by {
            assert forall|k: int| 0 <= k < p + 1 implies x[k] == y[k] by {
                if k < p {
                    assert(x.subrange(0, p)[k] == x[k]);
                    assert(y.subrange(0, p)[k] == y[k]);
                    assert(x.subrange(0, p)[k] == y.subrange(0, p)[k]);
                } else {
                    assert(k == p);
                    assert(digit_char(n / 10) == digit_char(m / 10));
                    assert(x[k] == digit_char(n / 10));
                }
            }
        }
        assert(0 <= p + 1 < x.len() && p + 1 < y.len() && x.subrange(0, p + 1) == y.subrange(0, p + 1)
            && x[p + 1] < y[p + 1]);
    }
}

/// Two texts that agree before position `p` and hold the four-digit numbers
/// `n < m` at `p` compare as the numbers do.
proof fn lemma_four_digits_before(x: Seq<char>, y: Seq<char>, p: int, n: nat, m: nat)
    requires
        0 <= p,
        p + 4 <= x.len(),
        p + 4 <= y.len(),
        x.subrange(0, p) == y.subrange(0, p),
        x[p] == digit_char(n / 1000), x[p + 1] == digit_char((n / 100) % 10),
        x[p + 2] == digit_char((n / 10) % 10), x[p + 3] == digit_char(n % 10),
        y[p] == digit_char(m / 1000), y[p + 1] == digit_char((m / 100) % 10),
        y[p + 2] == digit_char((m / 10) % 10), y[p + 3] == digit_char(m % 10),
        n < m < 10000,
    ensures
        text_before(x, y),
{
    assert(n / 1000 == (n / 100) / 10 && (n / 10) % 10 == (n % 100) / 10 && n % 10 == (n % 100) % 10
        && m / 1000 == (m / 100) / 10 && (m / 10) % 10 == (m % 100) / 10 && m % 10 == (m % 100) % 10
        && n / 100 <= m / 100 && (n / 100 == m / 100 ==> n % 100 < m % 100)) by (nonlinear_arith)
        requires n < m < 10000;
    if n / 100 < m / 100 {
        lemma_two_digits_before(x, y, p, n / 100, m / 100);
    } else {
        assert(x.subrange(0, p + 2) =~= y.subrange(0, p + 2)) by {
            assert forall|k: int| 0 <= k < p + 2 implies x[k] == y[k] by {
                if k < p {
                    assert(x.subrange(0, p)[k] == x[k]);
                    assert(y.subrange(0, p)[k] == y[k]);
                }
            }
        }
        lemma_two_digits_before(x, y, p + 2, n % 100, m % 100);
    }
}

/// Later moments read as later text: of two moments before
/// 10000-01-01 00:00:00 UTC, the earlier one's text comes first in
/// lexicographic order, so the order of the texts is the order of time.
pub proof fn later_time_later_text(a: nat, fa: UtcFields, b: nat, fb: UtcFields)
    requires
        reads_as(a, fa),
        reads_as(b, fb),
        a < b,
        b < 253402300800,
    ensures
        text_before(render_utc(fa), render_utc(fb)),
{
    lemma_four_digit_year(a, fa);
    lemma_four_digit_year(b, fb);
    lemma_fixed_text(fa);
    lemma_fixed_text(fb);
    lemma_earlier_fields_before(a, fa, b, fb);
    lemma_fixed_text_order(fa, fb);
}

/// Calendar order of readings with four-digit years is the order of their
/// fixed-width texts.
proof fn lemma_fixed_text_order(fa: UtcFields, fb: UtcFields)
    requires
        fields_before(fa, fb),
        1000 <= fa.year < 10000,
        1000 <= fb.year < 10000,
        fa.month < 100, fa.day < 100, fa.hour < 100, fa.minute < 100, fa.second < 100,
        fb.month < 100, fb.day < 100, fb.hour < 100, fb.minute < 100, fb.second < 100,
    ensures
        text_before(fixed_text(fa), fixed_text(fb)),
{
    let x = fixed_text(fa);
    let y = fixed_text(fb);
    if fa.year < fb.year {
        assert(x.subrange(0, 0) =~= y.subrange(0, 0));
        lemma_four_digits_before(x, y, 0, fa.year as nat, fb.year as nat);
    } else if fa.month < fb.month {
        assert(x.subrange(0, 5) =~= y.subrange(0, 5));
        lemma_two_digits_before(x, y, 5, fa.month as nat, fb.month as nat);
    } else if fa.day < fb.day {
        assert(x.subrange(0, 8) =~= y.subrange(0, 8));
        lemma_two_digits_before(x, y, 8, fa.day as nat, fb.day as nat);
    } else if fa.hour < fb.hour {
        assert(x.subrange(0, 11) =~= y.subrange(0, 11));
        lemma_two_digits_before(x, y, 11, fa.hour as nat, fb.hour as nat);
    } else if fa.minute < fb.minute {
        assert(x.subrange(0, 14) =~= y.subrange(0, 14));
        lemma_two_digits_before(x, y, 14, fa.minute as nat, fb.minute as nat);
    } else {
        assert(x.subrange(0, 17) =~= y.subrange(0, 17));
        lemma_two_digits_before(x, y, 17, fa.second as nat, fb.second as nat);
    }
}

/// What follows the year and its dash in the text of a reading.
spec fn text_after_year(f: UtcFields) -> Seq<char> {
    seq![
        digit_char((f.month / 10) as nat), digit_char((f.month % 10) as nat), '-',
        digit_char((f.day / 10) as nat), digit_char((f.day % 10) as nat), ' ',
        digit_char((f.hour / 10) as nat), digit_char((f.hour % 10) as nat), ':',
        digit_char((f.minute / 10) as nat), digit_char((f.minute % 10) as nat), ':',
        digit_char((f.second / 10) as nat), digit_char((f.second % 10) as nat), ' ', 'U', 'T', 'C',
    ]
}

proof fn lemma_two_digits_equal(n: nat, m: nat)
    requires
        n < 100,
        m < 100,
        digit_char(n / 10) == digit_char(m / 10),
        digit_char(n % 10) == digit_char(m % 10),
    ensures
        n == m,
{
    lemma_digit_char_injective(n / 10, m / 10);
    lemma_digit_char_injective(n % 10, m % 10);
}

proof fn lemma_render_split(f: UtcFields)
    requires
        f.month < 100, f.day < 100, f.hour < 100, f.minute < 100, f.second < 100,
    ensures
        render_utc(f) == dec(f.year as nat) + seq!['-'] + text_after_year(f),
{
    reveal_strlit(" UTC");
    lemma_pad2_digits(f.month as nat);
    lemma_pad2_digits(f.day as nat);
    lemma_pad2_digits(f.hour as nat);
    lemma_pad2_digits(f.minute as nat);
    lemma_pad2_digits(f.second as nat);
    assert(render_utc(f) =~= dec(f.year as nat) + seq!['-'] + text_after_year(f));
}

proof fn lemma_text_after_year_injective(f: UtcFields, g: UtcFields)
    requires
        f.month < 100, f.day < 100, f.hour < 100, f.minute < 100, f.second < 100,
        g.month < 100, g.day < 100, g.hour < 100, g.minute < 100, g.second < 100,
        text_after_year(f) == text_after_year(g),
    ensures
        f.month == g.month && f.day == g.day && f.hour == g.hour && f.minute == g.minute
            && f.second == g.second,
{
    let x = text_after_year(f);
    let y = text_after_year(g);
    assert(x[0] == y[0] && x[1] == y[1] && x[3] == y[3] && x[4] == y[4] && x[6] == y[6] && x[7] == y[7]
        && x[9] == y[9] && x[10] == y[10] && x[12] == y[12] && x[13] == y[13]);
    lemma_two_digits_equal(f.month as nat, g.month as nat);
    lemma_two_digits_equal(f.day as nat, g.day as nat);
    lemma_two_digits_equal(f.hour as nat, g.hour as nat);
    lemma_two_digits_equal(f.minute as nat, g.minute as nat);
    lemma_two_digits_equal(f.second as nat, g.second as nat);
}

/// Different readings are written differently.
proof fn lemma_render_injective(f: UtcFields, g: UtcFields)
    requires
        f.month < 100, f.day < 100, f.hour < 100, f.minute < 100, f.second < 100,
        g.month < 100, g.day < 100, g.hour < 100, g.minute < 100, g.second < 100,
        render_utc(f) == render_utc(g),
    ensures
        f == g,
{
    lemma_render_split(f);
    lemma_render_split(g);
    lemma_dec_digits(f.year as nat);
    lemma_dec_digits(g.year as nat);
    lemma_split_at_separator(dec(f.year as nat), '-', text_after_year(f), dec(g.year as nat), text_after_year(g));
    lemma_dec_injective(f.year as nat, g.year as nat);
    lemma_text_after_year_injective(f, g);
}

/// The text reads back as its moment: two moments whose readings are
/// written alike are the same moment.
pub proof fn readable_time_reads_back(a: nat, fa: UtcFields, b: nat, fb: UtcFields)
    requires
        reads_as(a, fa),
        reads_as(b, fb),
        render_utc(fa) == render_utc(fb),
    ensures
        a == b,
        fa == fb,
{
    lemma_render_injective(fa, fb);
}

fn leap(y: u64) -> (r: bool)
    ensures
        r == is_leap(y as nat),
{
    (y % 4 == 0 && y % 100 != 0) || y % 400 == 0
}

fn days_in_month(y: u64, m: u64) -> (r: u64)
    ensures
        r == month_len(y as nat, m as nat),
{
    if m == 2 {
        if leap(y) { 29 } else { 28 }
    } else if m == 4 || m == 6 || m == 9 || m == 11 {
        30
    } else {
        31
    }
}

/// The UTC reading of a UNIX timestamp.
pub fn utc_fields(secs: u64) -> (f: UtcFields)
    ensures
        reads_as(secs as nat, f),
{
    let s = secs % 60;
    let m = (secs / 60) % 60;
    let h = (secs / 3600) % 24;
    let total_days = secs / 86400;
    let mut days = total_days;
    let mut year: u64 = 1970;
    assert(total_days <= u64::MAX / 86400);
    loop
        invariant_except_break
            total_days <= u64::MAX / 86400,
            1970 <= year <= 1970 + (total_days - days),
            days <= total_days,
            days_before_year(year as nat) + days == total_days,
        ensures
            1970 <= year,
            days < year_len(year as nat),
            days_before_year(year as nat) + days == total_days,
        decreases days,
    {
        let len: u64 = if leap(year) { 366 } else { 365 };
        if days < len {
            break;
        }
        days = days - len;
        year = year + 1;
    }
    let ghost rem0 = days;
    let mut month: u64 = 1;
    proof { lemma_months_fill_year(year as nat); }
    loop
        invariant_except_break
            1 <= month <= 12,
            days_before_month(year as nat, month as nat) + days == rem0,
            rem0 < days_before_month(year as nat, 13),
        ensures
            1 <= month <= 12,
            days < month_len(year as nat, month as nat),
            days_before_month(year as nat, month as nat) + days == rem0,
        decreases 13 - month,
    {
        let md = days_in_month(year, month);
        if days < md {
            break;
        }
        proof {
            lemma_days_before_month_grows(year as nat, month as nat, 13);
        }
        days = days - md;
        month = month + 1;
    }
    let f = UtcFields { year, month, day: days + 1, hour: h, minute: m, second: s };
    proof {
        assert(f.hour * 3600 + f.minute * 60 + f.second == secs % 86400) by (nonlinear_arith)
            requires
                f.second == secs % 60,
                f.minute == (secs / 60) % 60,
                f.hour == (secs / 3600) % 24;
        assert(total_days * 86400 + secs % 86400 == secs) by (nonlinear_arith)
            requires total_days == secs / 86400;
    }
    f
}


/// The UTC reading of a UNIX timestamp (see `utc_reading_unique`).
pub open spec fn utc_of(secs: nat) -> UtcFields {
    choose|f: UtcFields| reads_as(secs, f)
}

/// `YYYY-MM-DD hh:mm:ss UTC`, the year unpadded.
pub open spec fn render_utc(f: UtcFields) -> Seq<char> {
    dec(f.year as nat) + seq!['-'] + pad2(f.month as nat) + seq!['-'] + pad2(f.day as nat) + seq![' ']
        + pad2(f.hour as nat) + seq![':'] + pad2(f.minute as nat) + seq![':'] + pad2(f.second as nat)
        + " UTC"@
}

/// Converts a UNIX timestamp (seconds since epoch) to a human-readable UTC string.
pub fn unix_to_readable(secs: u64) -> (r: String)
    ensures
        reads_as(secs as nat, utc_of(secs as nat)),
        r@ == render_utc(utc_of(secs as nat)),
{
    let f = utc_fields(secs);
    proof {
        utc_reading_unique(secs as nat, f, utc_of(secs as nat));
    }
    let mut r = String::new();
    push_decimal(&mut r, f.year);
    push_char(&mut r, '-');
    push_pad2(&mut r, f.month);
    push_char(&mut r, '-');
    push_pad2(&mut r, f.day);
    push_char(&mut r, ' ');
    push_pad2(&mut r, f.hour);
    push_char(&mut r, ':');
    push_pad2(&mut r, f.minute);
    push_char(&mut r, ':');
    push_pad2(&mut r, f.second);
    push_str(&mut r, " UTC");
    proof {
        assert(r@ =~= render_utc(f));
    }
    r
}

/// A log line: the UTC time in brackets, the message, a newline.
pub fn log_line(now_secs: u64, msg: &str) -> (r: String)
    ensures
        r@ == seq!['['] + render_utc(utc_of(now_secs as nat)) + "] "@ + msg@ + seq!['\n'],
{
    let mut r = String::new();
    push_char(&mut r, '[');
    let t = unix_to_readable(now_secs);
    push_str(&mut r, t.as_str());
    push_str(&mut r, "] ");
    push_str(&mut r, msg);
    push_char(&mut r, '\n');
    proof {
        assert(r@ =~= seq!['['] + render_utc(utc_of(now_secs as nat)) + "] "@ + msg@ + seq!['\n']);
    }
    r
}

} // verus!
