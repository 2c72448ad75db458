//! The game version: where the installer XML lies, reading its
//! `gameVersion` element, and mapping build numbers to release numbers.
use vstd::prelude::*;
use vstd::utf8::{decode_utf8, valid_utf8};
use crate::text::{dec, lemma_dec_digits, lemma_dec_injective, lemma_split_at_separator, push_char, push_decimal, push_str, str_eq};
use quick_xml::events::Event;
use quick_xml::Reader;

verus! {

/// One row of the release table: `(X, Y, A, B, C)` says that build
/// `1.0.X.Y` is release `A.B.C`. Rows are in build order.
pub type VersionRow = (u64, u64, u64, u64, u64);

/// The builds the launcher knows, with their releases.
pub open spec fn version_table() -> Seq<VersionRow> {
    seq![
        (127u64, 4828u64, 1u64, 0u64, 0u64),
        (127u64, 59053u64, 1u64, 0u64, 1u64),
        (128u64, 4697u64, 1u64, 0u64, 2u64),
        (128u64, 17361u64, 1u64, 0u64, 3u64),
        (128u64, 29120u64, 1u64, 0u64, 4u64),
        (128u64, 37607u64, 1u64, 1u64, 0u64),
        (128u64, 60171u64, 1u64, 1u64, 1u64),
        (128u64, 63165u64, 1u64, 1u64, 2u64),
        (129u64, 1902u64, 1u64, 1u64, 3u64),
        (129u64, 4059u64, 1u64, 2u64, 0u64),
        (129u64, 25108u64, 1u64, 2u64, 1u64),
        (129u64, 30822u64, 1u64, 3u64, 0u64),
        (130u64, 16994u64, 1u64, 4u64, 0u64),
        (130u64, 35129u64, 1u64, 4u64, 1u64),
        (131u64, 24706u64, 1u64, 4u64, 2u64),
        (131u64, 50017u64, 1u64, 4u64, 3u64),
        (132u64, 29676u64, 1u64, 5u64, 0u64),
        (133u64, 14157u64, 1u64, 5u64, 1u64),
        (133u64, 58379u64, 1u64, 5u64, 2u64),
        (134u64, 1759u64, 1u64, 5u64, 3u64),
        (134u64, 63314u64, 1u64, 5u64, 4u64),
        (135u64, 39173u64, 1u64, 5u64, 5u64),
        (135u64, 54147u64, 1u64, 5u64, 6u64),
        (136u64, 4893u64, 1u64, 6u64, 0u64),
        (136u64, 44486u64, 1u64, 6u64, 1u64),
        (136u64, 57334u64, 1u64, 6u64, 2u64),
        (137u64, 49763u64, 1u64, 6u64, 3u64),
        (138u64, 16746u64, 1u64, 6u64, 4u64),
    ]
}

/// The build number of a row, as the installer XML writes it: `1.0.X.Y`.
pub open spec fn build_text(e: VersionRow) -> Seq<char> {
    seq!['1', '.', '0', '.'] + dec(e.0 as nat) + seq!['.'] + dec(e.1 as nat)
}

/// The release number of a row: `A.B.C`.
pub open spec fn release_text(e: VersionRow) -> Seq<char> {
    dec(e.2 as nat) + seq!['.'] + dec(e.3 as nat) + seq!['.'] + dec(e.4 as nat)
}

/// The first row, from row `i` on, whose build number is `v1`.
pub open spec fn row_of(v1: Seq<char>, i: nat) -> Option<nat>
    decreases version_table().len() - i,
{
    if i >= version_table().len() {
        None
    } else if build_text(version_table()[i as int]) == v1 {
        Some(i)
    } else {
        row_of(v1, i + 1)
    }
}

/// The builds the launcher knows and their releases, as written.
pub open spec fn release_list() -> Seq<(&'static str, &'static str)> {
    seq![
        ("1.0.127.4828", "1.0.0"),
        ("1.0.127.59053", "1.0.1"),
        ("1.0.128.4697", "1.0.2"),
        ("1.0.128.17361", "1.0.3"),
        ("1.0.128.29120", "1.0.4"),
        ("1.0.128.37607", "1.1.0"),
        ("1.0.128.60171", "1.1.1"),
        ("1.0.128.63165", "1.1.2"),
        ("1.0.129.1902", "1.1.3"),
        ("1.0.129.4059", "1.2.0"),
        ("1.0.129.25108", "1.2.1"),
        ("1.0.129.30822", "1.3.0"),
        ("1.0.130.16994", "1.4.0"),
        ("1.0.130.35129", "1.4.1"),
        ("1.0.131.24706", "1.4.2"),
        ("1.0.131.50017", "1.4.3"),
        ("1.0.132.29676", "1.5.0"),
        ("1.0.133.14157", "1.5.1"),
        ("1.0.133.58379", "1.5.2"),
        ("1.0.134.1759", "1.5.3"),
        ("1.0.134.63314", "1.5.4"),
        ("1.0.135.39173", "1.5.5"),
        ("1.0.135.54147", "1.5.6"),
        ("1.0.136.4893", "1.6.0"),
        ("1.0.136.44486", "1.6.1"),
        ("1.0.136.57334", "1.6.2"),
        ("1.0.137.49763", "1.6.3"),
        ("1.0.138.16746", "1.6.4"),
    ]
}

/// The release number of a game build, `"Unknown"` for builds not listed.
pub open spec fn spec_map_version(v1: Seq<char>) -> Seq<char> {
    match row_of(v1, 0) {
        Some(i) => release_text(version_table()[i as int]),
        None => "Unknown"@,
    }
}

/// Row `e` comes before row `f` in build order.
pub open spec fn build_before(e: VersionRow, f: VersionRow) -> bool {
    e.0 < f.0 || (e.0 == f.0 && e.1 < f.1)
}

/// Row `e` comes before row `f` in release order.
pub open spec fn release_before(e: VersionRow, f: VersionRow) -> bool {
    e.2 < f.2 || (e.2 == f.2 && (e.3 < f.3 || (e.3 == f.3 && e.4 < f.4)))
}

spec fn rows_ordered_at(k: int) -> bool {
    build_before(version_table()[k], version_table()[k + 1])
        && release_before(version_table()[k], version_table()[k + 1])
}

proof fn lemma_rows_adjacent(k: int)
    requires
        0 <= k < version_table().len() - 1,
    ensures
        rows_ordered_at(k),
{
    assert(k == 0 || k == 1 || k == 2 || k == 3 || k == 4 || k == 5 || k == 6 || k == 7 || k == 8 || k == 9 || k == 10 || k == 11 || k == 12 || k == 13 || k == 14 || k == 15 || k == 16 || k == 17 || k == 18 || k == 19 || k == 20 || k == 21 || k == 22 || k == 23 || k == 24 || k == 25 || k == 26);
}

proof fn lemma_rows_sorted(i: int, j: int)
    requires
        0 <= i < j < version_table().len(),
    ensures
        build_before(version_table()[i], version_table()[j]),
        release_before(version_table()[i], version_table()[j]),
    decreases j - i,
{
    lemma_rows_adjacent(j - 1);
    if i < j - 1 {
        lemma_rows_sorted(i, j - 1);
    }
}

proof fn lemma_build_text_injective(e: VersionRow, f: VersionRow)
    requires
        build_text(e) == build_text(f),
    ensures
        e.0 == f.0 && e.1 == f.1,
{
    let p = seq!['1', '.', '0', '.'];
    lemma_dec_digits(e.0 as nat);
    lemma_dec_digits(f.0 as nat);
    assert(build_text(e).subrange(4, build_text(e).len() as int) =~= dec(e.0 as nat) + seq!['.'] + dec(e.1 as nat));
    assert(build_text(f).subrange(4, build_text(f).len() as int) =~= dec(f.0 as nat) + seq!['.'] + dec(f.1 as nat));
    lemma_split_at_separator(dec(e.0 as nat), '.', dec(e.1 as nat), dec(f.0 as nat), dec(f.1 as nat));
    lemma_dec_injective(e.0 as nat, f.0 as nat);
    lemma_dec_injective(e.1 as nat, f.1 as nat);
}

proof fn lemma_release_text_injective(e: VersionRow, f: VersionRow)
    requires
        release_text(e) == release_text(f),
    ensures
        e.2 == f.2 && e.3 == f.3 && e.4 == f.4,
{
    lemma_dec_digits(e.2 as nat);
    lemma_dec_digits(f.2 as nat);
    lemma_dec_digits(e.3 as nat);
    lemma_dec_digits(f.3 as nat);
    let te = dec(e.3 as nat) + seq!['.'] + dec(e.4 as nat);
    let tf = dec(f.3 as nat) + seq!['.'] + dec(f.4 as nat);
    assert(release_text(e) =~= dec(e.2 as nat) + seq!['.'] + te);
    assert(release_text(f) =~= dec(f.2 as nat) + seq!['.'] + tf);
    lemma_split_at_separator(dec(e.2 as nat), '.', te, dec(f.2 as nat), tf);
    lemma_split_at_separator(dec(e.3 as nat), '.', dec(e.4 as nat), dec(f.3 as nat), dec(f.4 as nat));
    lemma_dec_injective(e.2 as nat, f.2 as nat);
    lemma_dec_injective(e.3 as nat, f.3 as nat);
    lemma_dec_injective(e.4 as nat, f.4 as nat);
}

proof fn lemma_row_of_from(v: Seq<char>, k: nat, i: nat)
    requires
        k <= i < version_table().len(),
        build_text(version_table()[i as int]) == v,
        forall|m: int| k <= m < i ==> build_text(#[trigger] version_table()[m]) != v,
    ensures
        row_of(v, k) == Some(i),
    decreases i - k,
{
    if k < i {
        lemma_row_of_from(v, k + 1, i);
    }
}

/// Each listed build is found at its own row.
proof fn lemma_row_of_row(i: int)
    requires
        0 <= i < version_table().len(),
    ensures
        row_of(build_text(version_table()[i]), 0) == Some(i as nat),
{
    let v = build_text(version_table()[i]);
    assert forall|m: int| 0 <= m < i implies build_text(#[trigger] version_table()[m]) != v by {
        lemma_rows_sorted(m, i);
        if build_text(version_table()[m]) == v {
            lemma_build_text_injective(version_table()[m], version_table()[i]);
        }
    }
    lemma_row_of_from(v, 0, i as nat);
}

/// What `row_of` finds is a row with that build number.
proof fn lemma_row_of_found(v: Seq<char>, k: nat)
    ensures
        row_of(v, k) matches Some(i) ==> i < version_table().len() && build_text(version_table()[i as int]) == v,
    decreases version_table().len() - k,
{
    if k < version_table().len() && build_text(version_table()[k as int]) != v {
        lemma_row_of_found(v, k + 1);
    }
}

proof fn lemma_release_not_unknown(e: VersionRow)
    ensures
        release_text(e) != "Unknown"@,
{
    reveal_strlit("Unknown");
    lemma_dec_digits(e.2 as nat);
    assert(release_text(e)[0] == dec(e.2 as nat)[0]);
    assert("Unknown"@[0] == 'U');
}

/// The release table keeps build order: of two listed builds, the earlier
/// one maps to the earlier release, and neither maps to `"Unknown"`.
pub proof fn map_version_keeps_order(i: int, j: int)
    requires
        0 <= i < version_table().len(),
        0 <= j < version_table().len(),
        build_before(version_table()[i], version_table()[j]),
    ensures
        spec_map_version(build_text(version_table()[i])) == release_text(version_table()[i]),
        spec_map_version(build_text(version_table()[j])) == release_text(version_table()[j]),
        release_text(version_table()[i]) != "Unknown"@,
        release_text(version_table()[j]) != "Unknown"@,
        release_before(version_table()[i], version_table()[j]),
{
    lemma_row_of_row(i);
    lemma_row_of_row(j);
    lemma_release_not_unknown(version_table()[i]);
    lemma_release_not_unknown(version_table()[j]);
    if j < i {
        lemma_rows_sorted(j, i);
    } else {
        assert(i != j);
        lemma_rows_sorted(i, j);
    }
}

proof fn lemma_row_texts_0(i: int)
    requires
        0 <= i < 7,
    ensures
        build_text(version_table()[i]) == release_list()[i].0@,
        release_text(version_table()[i]) == release_list()[i].1@,
{
    reveal_with_fuel(dec, 6);
    if i == 0 {
        reveal_strlit("1.0.127.4828");
        reveal_strlit("1.0.0");
        assert(build_text(version_table()[0]) =~= "1.0.127.4828"@);
        assert(release_text(version_table()[0]) =~= "1.0.0"@);
    }
    if i == 1 {
        reveal_strlit("1.0.127.59053");
        reveal_strlit("1.0.1");
        assert(build_text(version_table()[1]) =~= "1.0.127.59053"@);
        assert(release_text(version_table()[1]) =~= "1.0.1"@);
    }
    if i == 2 {
        reveal_strlit("1.0.128.4697");
        reveal_strlit("1.0.2");
        assert(build_text(version_table()[2]) =~= "1.0.128.4697"@);
        assert(release_text(version_table()[2]) =~= "1.0.2"@);
    }
    if i == 3 {
        reveal_strlit("1.0.128.17361");
        reveal_strlit("1.0.3");
        assert(build_text(version_table()[3]) =~= "1.0.128.17361"@);
        assert(release_text(version_table()[3]) =~= "1.0.3"@);
    }
    if i == 4 {
        reveal_strlit("1.0.128.29120");
        reveal_strlit("1.0.4");
        assert(build_text(version_table()[4]) =~= "1.0.128.29120"@);
        assert(release_text(version_table()[4]) =~= "1.0.4"@);
    }
    if i == 5 {
        reveal_strlit("1.0.128.37607");
        reveal_strlit("1.1.0");
        assert(build_text(version_table()[5]) =~= "1.0.128.37607"@);
        assert(release_text(version_table()[5]) =~= "1.1.0"@);
    }
    if i == 6 {
        reveal_strlit("1.0.128.60171");
        reveal_strlit("1.1.1");
        assert(build_text(version_table()[6]) =~= "1.0.128.60171"@);
        assert(release_text(version_table()[6]) =~= "1.1.1"@);
    }
}

proof fn lemma_row_texts_1(i: int)
    requires
        7 <= i < 14,
    ensures
        build_text(version_table()[i]) == release_list()[i].0@,
        release_text(version_table()[i]) == release_list()[i].1@,
{
    reveal_with_fuel(dec, 6);
    if i == 7 {
        reveal_strlit("1.0.128.63165");
        reveal_strlit("1.1.2");
        assert(build_text(version_table()[7]) =~= "1.0.128.63165"@);
        assert(release_text(version_table()[7]) =~= "1.1.2"@);
    }
    if i == 8 {
        reveal_strlit("1.0.129.1902");
        reveal_strlit("1.1.3");
        assert(build_text(version_table()[8]) =~= "1.0.129.1902"@);
        assert(release_text(version_table()[8]) =~= "1.1.3"@);
    }
    if i == 9 {
        reveal_strlit("1.0.129.4059");
        reveal_strlit("1.2.0");
        assert(build_text(version_table()[9]) =~= "1.0.129.4059"@);
        assert(release_text(version_table()[9]) =~= "1.2.0"@);
    }
    if i == 10 {
        reveal_strlit("1.0.129.25108");
        reveal_strlit("1.2.1");
        assert(build_text(version_table()[10]) =~= "1.0.129.25108"@);
        assert(release_text(version_table()[10]) =~= "1.2.1"@);
    }
    if i == 11 {
        reveal_strlit("1.0.129.30822");
        reveal_strlit("1.3.0");
        assert(build_text(version_table()[11]) =~= "1.0.129.30822"@);
        assert(release_text(version_table()[11]) =~= "1.3.0"@);
    }
    if i == 12 {
        reveal_strlit("1.0.130.16994");
        reveal_strlit("1.4.0");
        assert(build_text(version_table()[12]) =~= "1.0.130.16994"@);
        assert(release_text(version_table()[12]) =~= "1.4.0"@);
    }
    if i == 13 {
        reveal_strlit("1.0.130.35129");
        reveal_strlit("1.4.1");
        assert(build_text(version_table()[13]) =~= "1.0.130.35129"@);
        assert(release_text(version_table()[13]) =~= "1.4.1"@);
    }
}

proof fn lemma_row_texts_2(i: int)
    requires
        14 <= i < 21,
    ensures
        build_text(version_table()[i]) == release_list()[i].0@,
        release_text(version_table()[i]) == release_list()[i].1@,
{
    reveal_with_fuel(dec, 6);
    if i == 14 {
        reveal_strlit("1.0.131.24706");
        reveal_strlit("1.4.2");
        assert(build_text(version_table()[14]) =~= "1.0.131.24706"@);
        assert(release_text(version_table()[14]) =~= "1.4.2"@);
    }
    if i == 15 {
        reveal_strlit("1.0.131.50017");
        reveal_strlit("1.4.3");
        assert(build_text(version_table()[15]) =~= "1.0.131.50017"@);
        assert(release_text(version_table()[15]) =~= "1.4.3"@);
    }
    if i == 16 {
        reveal_strlit("1.0.132.29676");
        reveal_strlit("1.5.0");
        assert(build_text(version_table()[16]) =~= "1.0.132.29676"@);
        assert(release_text(version_table()[16]) =~= "1.5.0"@);
    }
    if i == 17 {
        reveal_strlit("1.0.133.14157");
        reveal_strlit("1.5.1");
        assert(build_text(version_table()[17]) =~= "1.0.133.14157"@);
        assert(release_text(version_table()[17]) =~= "1.5.1"@);
    }
    if i == 18 {
        reveal_strlit("1.0.133.58379");
        reveal_strlit("1.5.2");
        assert(build_text(version_table()[18]) =~= "1.0.133.58379"@);
        assert(release_text(version_table()[18]) =~= "1.5.2"@);
    }
    if i == 19 {
        reveal_strlit("1.0.134.1759");
        reveal_strlit("1.5.3");
        assert(build_text(version_table()[19]) =~= "1.0.134.1759"@);
        assert(release_text(version_table()[19]) =~= "1.5.3"@);
    }
    if i == 20 {
        reveal_strlit("1.0.134.63314");
        reveal_strlit("1.5.4");
        assert(build_text(version_table()[20]) =~= "1.0.134.63314"@);
        assert(release_text(version_table()[20]) =~= "1.5.4"@);
    }
}

proof fn lemma_row_texts_3(i: int)
    requires
        21 <= i < 28,
    ensures
        build_text(version_table()[i]) == release_list()[i].0@,
        release_text(version_table()[i]) == release_list()[i].1@,
{
    reveal_with_fuel(dec, 6);
    if i == 21 {
        reveal_strlit("1.0.135.39173");
        reveal_strlit("1.5.5");
        assert(build_text(version_table()[21]) =~= "1.0.135.39173"@);
        assert(release_text(version_table()[21]) =~= "1.5.5"@);
    }
    if i == 22 {
        reveal_strlit("1.0.135.54147");
        reveal_strlit("1.5.6");
        assert(build_text(version_table()[22]) =~= "1.0.135.54147"@);
        assert(release_text(version_table()[22]) =~= "1.5.6"@);
    }
    if i == 23 {
        reveal_strlit("1.0.136.4893");
        reveal_strlit("1.6.0");
        assert(build_text(version_table()[23]) =~= "1.0.136.4893"@);
        assert(release_text(version_table()[23]) =~= "1.6.0"@);
    }
    if i == 24 {
        reveal_strlit("1.0.136.44486");
        reveal_strlit("1.6.1");
        assert(build_text(version_table()[24]) =~= "1.0.136.44486"@);
        assert(release_text(version_table()[24]) =~= "1.6.1"@);
    }
    if i == 25 {
        reveal_strlit("1.0.136.57334");
        reveal_strlit("1.6.2");
        assert(build_text(version_table()[25]) =~= "1.0.136.57334"@);
        assert(release_text(version_table()[25]) =~= "1.6.2"@);
    }
    if i == 26 {
        reveal_strlit("1.0.137.49763");
        reveal_strlit("1.6.3");
        assert(build_text(version_table()[26]) =~= "1.0.137.49763"@);
        assert(release_text(version_table()[26]) =~= "1.6.3"@);
    }
    if i == 27 {
        reveal_strlit("1.0.138.16746");
        reveal_strlit("1.6.4");
        assert(build_text(version_table()[27]) =~= "1.0.138.16746"@);
        assert(release_text(version_table()[27]) =~= "1.6.4"@);
    }
}

/// Every listed build maps to its release: for each pair `(build, release)`
/// of the list, `map_version(build)` is `release`.
pub proof fn map_version_knows_every_release()
    ensures
        forall|i: int| 0 <= i < release_list().len()
            ==> spec_map_version((#[trigger] release_list()[i]).0@) == release_list()[i].1@,
{
    assert forall|i: int| 0 <= i < release_list().len()
        implies spec_map_version((#[trigger] release_list()[i]).0@) == release_list()[i].1@ by {
        if i < 7 {
            lemma_row_texts_0(i);
        } else if i < 14 {
            lemma_row_texts_1(i);
        } else if i < 21 {
            lemma_row_texts_2(i);
        } else {
            lemma_row_texts_3(i);
        }
        lemma_row_of_row(i);
    }
}

/// The mapping is one to one: two build numbers that map to the same known
/// release are the same build number.
pub proof fn map_version_injective(v: Seq<char>, w: Seq<char>)
    requires
        spec_map_version(v) == spec_map_version(w),
        spec_map_version(v) != "Unknown"@,
    ensures
        v == w,
{
    lemma_row_of_found(v, 0);
    lemma_row_of_found(w, 0);
    let i = row_of(v, 0)->0 as int;
    let j = row_of(w, 0)->0 as int;
    lemma_release_text_injective(version_table()[i], version_table()[j]);
    if i < j {
        lemma_rows_sorted(i, j);
    } else if j < i {
        lemma_rows_sorted(j, i);
    }
}

/// The release table as a vector.
fn version_rows() -> (r: Vec<VersionRow>)
    ensures
        r@ == version_table(),
{
    let mut r: Vec<VersionRow> = Vec::new();
    r.push((127, 4828, 1, 0, 0));
    r.push((127, 59053, 1, 0, 1));
    r.push((128, 4697, 1, 0, 2));
    r.push((128, 17361, 1, 0, 3));
    r.push((128, 29120, 1, 0, 4));
    r.push((128, 37607, 1, 1, 0));
    r.push((128, 60171, 1, 1, 1));
    r.push((128, 63165, 1, 1, 2));
    r.push((129, 1902, 1, 1, 3));
    r.push((129, 4059, 1, 2, 0));
    r.push((129, 25108, 1, 2, 1));
    r.push((129, 30822, 1, 3, 0));
    r.push((130, 16994, 1, 4, 0));
    r.push((130, 35129, 1, 4, 1));
    r.push((131, 24706, 1, 4, 2));
    r.push((131, 50017, 1, 4, 3));
    r.push((132, 29676, 1, 5, 0));
    r.push((133, 14157, 1, 5, 1));
    r.push((133, 58379, 1, 5, 2));
    r.push((134, 1759, 1, 5, 3));
    r.push((134, 63314, 1, 5, 4));
    r.push((135, 39173, 1, 5, 5));
    r.push((135, 54147, 1, 5, 6));
    r.push((136, 4893, 1, 6, 0));
    r.push((136, 44486, 1, 6, 1));
    r.push((136, 57334, 1, 6, 2));
    r.push((137, 49763, 1, 6, 3));
    r.push((138, 16746, 1, 6, 4));
    assert(r@ =~= version_table());
    r
}

/// Maps a game build number (from the installer XML) to its release number.
pub fn map_version(v1: &str) -> (r: String)
    ensures
        r@ == spec_map_version(v1@),
{
    let rows = version_rows();
    let mut i: usize = 0;
    while i < rows.len()
        invariant
            rows@ == version_table(),
            i <= rows@.len(),
            row_of(v1@, 0) == row_of(v1@, i as nat),
        decreases rows@.len() - i,
    {
        let (x, y, a, b, c) = rows[i];
        let mut build = String::new();
        push_char(&mut build, '1');
        push_char(&mut build, '.');
        push_char(&mut build, '0');
        push_char(&mut build, '.');
        push_decimal(&mut build, x);
        push_char(&mut build, '.');
        push_decimal(&mut build, y);
        assert(build@ =~= build_text(version_table()[i as int]));
        if str_eq(build.as_str(), v1) {
            let mut release = String::new();
            push_decimal(&mut release, a);
            push_char(&mut release, '.');
            push_decimal(&mut release, b);
            push_char(&mut release, '.');
            push_decimal(&mut release, c);
            assert(release@ =~= release_text(version_table()[i as int]));
            return release;
        }
        i = i + 1;
    }
    String::from_str("Unknown")
}

/// Where EA installers put the installer XML, in the order they are tried.
pub open spec fn installer_candidates() -> Seq<&'static str> {
    seq![
        "__Installer/installerdata.xml",
        "_installer/installerdata.xml",
        "_Installer/installerdata.xml",
        "__installer/installerdata.xml",
    ]
}

/// The places of the installer XML relative to the game folder, in the
/// order `find_installer_xml` tries them.
pub fn installer_xml_candidates() -> (r: Vec<&'static str>)
    ensures
        r@ == installer_candidates(),
{
    let mut r = Vec::new();
    r.push("__Installer/installerdata.xml");
    r.push("_installer/installerdata.xml");
    r.push("_Installer/installerdata.xml");
    r.push("__installer/installerdata.xml");
    assert(r@ =~= installer_candidates());
    r
}

/// The first candidate that exists; `present[i]` tells whether candidate
/// `i` exists in the game folder.
pub open spec fn spec_find_installer_xml(present: Seq<bool>) -> Option<&'static str>
    recommends
        present.len() == 4,
{
    if present[0] {
        Some(installer_candidates()[0])
    } else if present[1] {
        Some(installer_candidates()[1])
    } else if present[2] {
        Some(installer_candidates()[2])
    } else if present[3] {
        Some(installer_candidates()[3])
    } else {
        None
    }
}

/// Finds the installer XML across the common EA folder naming conventions:
/// the first of `installer_xml_candidates()` that exists, by `present`.
pub fn find_installer_xml(present: &Vec<bool>) -> (r: Option<&'static str>)
    requires
        present@.len() == 4,
    ensures
        r == spec_find_installer_xml(present@),
{
    let cands = installer_xml_candidates();
    let mut i: usize = 0;
    while i < 4
        invariant
            i <= 4,
            present@.len() == 4,
            cands@ == installer_candidates(),
            forall|k: int| 0 <= k < i ==> !present@[k],
        decreases 4 - i,
    {
        if present[i] {
            return Some(cands[i]);
        }
        i = i + 1;
    }
    None
}

/// What the XML reader reports, as far as the version lookup needs it.
#[derive(Debug)]
pub enum XmlEvent {
    /// An empty element `<name .../>` with its attributes in order, each
    /// `None` when it could not be read, else its raw key and raw value.
    Empty { name: Vec<u8>, attributes: Vec<Option<(Vec<u8>, Vec<u8>)>> },
    Eof,
    Error,
    /// Any other event.
    Other,
}

/// The model of an `XmlEvent`.
pub enum XmlEventView {
    Empty { name: Seq<u8>, attributes: Seq<Option<(Seq<u8>, Seq<u8>)>> },
    Eof,
    Error,
    Other,
}

/// The model of one attribute.
pub open spec fn attribute_view(a: Option<(Vec<u8>, Vec<u8>)>) -> Option<(Seq<u8>, Seq<u8>)> {
    match a {
        Some((k, v)) => Some((k@, v@)),
        None => None,
    }
}

impl View for XmlEvent {
    type V = XmlEventView;

    open spec fn view(&self) -> XmlEventView {
        match self {
            XmlEvent::Empty { name, attributes } => XmlEventView::Empty {
                name: name@,
                attributes: attributes@.map_values(|a: Option<(Vec<u8>, Vec<u8>)>| attribute_view(a)),
            },
            XmlEvent::Eof => XmlEventView::Eof,
            XmlEvent::Error => XmlEventView::Error,
            XmlEvent::Other => XmlEventView::Other,
        }
    }
}

/// The event number `index` that `quick_xml` reports for the document
/// `source`, read from the start with the default configuration.
pub uninterp spec fn xml_event(source: Seq<char>, index: nat) -> XmlEventView;

/// `String::from_utf8_lossy` of `bytes`.
pub uninterp spec fn utf8_lossy(bytes: Seq<u8>) -> Seq<char>;

#[verifier::external_type_specification]
#[verifier::external_body]
#[verifier::reject_recursive_types(R)]
pub struct ExXmlReader<R>(Reader<R>);

/// A `quick_xml` reader over a document, with the document and the number
/// of events read so far as its model.
struct XmlCursor<'a> {
    reader: Reader<&'a [u8]>,
    source: Ghost<Seq<char>>,
    read: Ghost<nat>,
}

/// Trusted: `Reader::from_str` starts reading `xml` from its beginning.
#[verifier::external_body]
fn open_cursor<'a>(xml: &'a str) -> (c: XmlCursor<'a>)
    ensures
        c.source@ == xml@,
        c.read@ == 0,
{
    XmlCursor { reader: Reader::from_str(xml), source: Ghost(xml@), read: Ghost(0) }
}

/// Trusted: `Reader::read_event_into` returns the next event of the
/// document; which event that is depends only on the document and on how
/// many events were read before. Empty elements are handed over with their
/// raw name and their attributes, each converted one for one.
#[verifier::external_body]
fn next_event(c: &mut XmlCursor) -> (ev: XmlEvent)
    ensures
        ev@ == xml_event(old(c).source@, old(c).read@),
        final(c).source == old(c).source,
        final(c).read@ == old(c).read@ + 1,
{
    let mut buf = Vec::new();
    match c.reader.read_event_into(&mut buf) {
        Ok(Event::Empty(e)) => XmlEvent::Empty {
            name: e.name().as_ref().to_vec(),
            attributes: e.attributes().map(|a| a.ok().map(|a| (a.key.as_ref().to_vec(), a.value.to_vec()))).collect(),
        },
        Ok(Event::Eof) => XmlEvent::Eof,
        Err(_) => XmlEvent::Error,
        Ok(_) => XmlEvent::Other,
    }
}

/// Trusted: `String::from_utf8_lossy` decodes `bytes`, replacing invalid
/// sequences; valid UTF-8 comes back as the text it encodes.
#[verifier::external_body]
fn lossy_string(bytes: &[u8]) -> (s: String)
    ensures
        s@ == utf8_lossy(bytes@),
        valid_utf8(bytes@) ==> s@ == decode_utf8(bytes@),
{
    String::from_utf8_lossy(bytes).to_string()
}

/// The raw name of the element that holds the version.
pub open spec fn game_version_tag() -> Seq<u8> {
    seq![103u8, 97u8, 109u8, 101u8, 86u8, 101u8, 114u8, 115u8, 105u8, 111u8, 110u8]
}

/// The raw name of the attribute that holds the version.
pub open spec fn version_key() -> Seq<u8> {
    seq![118u8, 101u8, 114u8, 115u8, 105u8, 111u8, 110u8]
}

fn is_game_version_tag(name: &Vec<u8>) -> (r: bool)
    ensures
        r == (name@ == game_version_tag()),
{
    let r = name.len() == 11 && name[0] == 103u8 && name[1] == 97u8 && name[2] == 109u8 && name[3] == 101u8 && name[4] == 86u8 && name[5] == 101u8 && name[6] == 114u8 && name[7] == 115u8 && name[8] == 105u8 && name[9] == 111u8 && name[10] == 110u8;
    proof {
        if r {
            assert(name@ =~= game_version_tag());
        }
    }
    r
}

fn is_version_key(key: &Vec<u8>) -> (r: bool)
    ensures
        r == (key@ == version_key()),
{
    let r = key.len() == 7 && key[0] == 118u8 && key[1] == 101u8 && key[2] == 114u8 && key[3] == 115u8 && key[4] == 105u8 && key[5] == 111u8 && key[6] == 110u8;
    proof {
        if r {
            assert(key@ =~= version_key());
        }
    }
    r
}

/// The first readable `version` attribute among `attrs`, raw.
pub open spec fn first_version_value(attrs: Seq<Option<(Seq<u8>, Seq<u8>)>>) -> Option<Seq<u8>>
    decreases attrs.len(),
{
    if attrs.len() == 0 {
        None
    } else {
        match attrs[0] {
            Some((k, v)) => if k == version_key() {
                Some(v)
            } else {
                first_version_value(attrs.subrange(1, attrs.len() as int))
            },
            None => first_version_value(attrs.subrange(1, attrs.len() as int)),
        }
    }
}

/// The version an event gives: for an empty `gameVersion` element, its
/// first readable `version` attribute.
pub open spec fn spec_version_in_event(ev: XmlEventView) -> Option<Seq<u8>> {
    match ev {
        XmlEventView::Empty { name, attributes } => if name == game_version_tag() {
            first_version_value(attributes)
        } else {
            None
        },
        _ => None,
    }
}

proof fn lemma_first_version_skip(attrs: Seq<Option<(Seq<u8>, Seq<u8>)>>, i: int)
    requires
        0 <= i < attrs.len(),
        !(attrs[i] matches Some((k, v)) && k == version_key()),
    ensures
        first_version_value(attrs.subrange(i, attrs.len() as int))
            == first_version_value(attrs.subrange(i + 1, attrs.len() as int)),
{
    let t = attrs.subrange(i, attrs.len() as int);
    assert(t.subrange(1, t.len() as int) =~= attrs.subrange(i + 1, attrs.len() as int));
}

/// The version an XML event gives, decoded as text (invalid UTF-8 replaced).
pub fn version_in_event(ev: &XmlEvent) -> (r: Option<String>)
    ensures
        match r {
            Some(s) => spec_version_in_event(ev@) matches Some(b) && s@ == utf8_lossy(b)
                && (valid_utf8(b) ==> s@ == decode_utf8(b)),
            None => spec_version_in_event(ev@) is None,
        },
{
    match ev {
        XmlEvent::Empty { name, attributes } => {
            if !is_game_version_tag(name) {
                return None;
            }
            let ghost attrs = attributes@.map_values(|a: Option<(Vec<u8>, Vec<u8>)>| attribute_view(a));
            let mut i: usize = 0;
            assert(attrs.subrange(0, attrs.len() as int) =~= attrs);
            assert(ev@ == (XmlEventView::Empty { name: name@, attributes: attrs }));
            while i < attributes.len()
                invariant
                    attrs == attributes@.map_values(|a: Option<(Vec<u8>, Vec<u8>)>| attribute_view(a)),
                    ev@ == (XmlEventView::Empty { name: name@, attributes: attrs }),
                    name@ == game_version_tag(),
                    i <= attributes@.len(),
                    first_version_value(attrs) == first_version_value(attrs.subrange(i as int, attrs.len() as int)),
                decreases attributes@.len() - i,
            {
                match &attributes[i] {
                    Some((k, v)) => {
                        if is_version_key(k) {
                            let ghost t = attrs.subrange(i as int, attrs.len() as int);
                            assert(t[0] == attribute_view(attributes@[i as int]));
                            assert(attributes@[i as int] == Some((*k, *v)));
                            assert(t[0] == Some((k@, v@)));
                            assert(first_version_value(t) == Some(v@));
                            assert(spec_version_in_event(ev@) == Some(v@));
                            return Some(lossy_string(v.as_slice()));
                        }
                    },
                    None => {},
                }
                proof { lemma_first_version_skip(attrs, i as int); }
                i = i + 1;
            }
            assert(attrs.subrange(i as int, attrs.len() as int) =~= Seq::<Option<(Seq<u8>, Seq<u8>)>>::empty());
            None
        },
        _ => None,
    }
}

/// Scanning the events of `source` from number `i` on, for at most `fuel`
/// events: the version of the first event that gives one, stopping at the
/// end of the document or at an error.
pub open spec fn scan_events(source: Seq<char>, i: nat, fuel: nat) -> Option<Seq<u8>>
    decreases fuel,
{
    if fuel == 0 {
        None
    } else {
        let ev = xml_event(source, i);
        if ev is Eof || ev is Error {
            None
        } else {
            match spec_version_in_event(ev) {
                Some(v) => Some(v),
                None => scan_events(source, i + 1, (fuel - 1) as nat),
            }
        }
    }
}

/// The raw game version in the installer XML: the `version` attribute of
/// the first empty `gameVersion` element that has one, looking at no more
/// events than the document has bytes, plus one.
pub open spec fn spec_game_version(source: Seq<char>, byte_len: nat) -> Option<Seq<u8>> {
    scan_events(source, 0, byte_len + 1)
}

/// Reads the game version from the installer XML. Every event but the end
/// of the document consumes input, so the bound on the number of events
/// read never cuts the scan short.
pub fn parse_game_version(xml: &str) -> (r: Option<String>)
    ensures
        match r {
            Some(s) => spec_game_version(xml@, xml.len() as nat) matches Some(b) && s@ == utf8_lossy(b)
                && (valid_utf8(b) ==> s@ == decode_utf8(b)),
            None => spec_game_version(xml@, xml.len() as nat) is None,
        },
{
    let mut cursor = open_cursor(xml);
    let limit = xml.len();
    let mut fuel: usize = limit;
    loop
        invariant
            cursor.source@ == xml@,
            fuel <= limit,
            limit == xml.len() as nat,
            cursor.read@ == limit - fuel,
            scan_events(xml@, 0, (limit + 1) as nat) == scan_events(xml@, cursor.read@, (fuel + 1) as nat),
        decreases fuel,
    {
        let ghost at = cursor.read@;
        let ev = next_event(&mut cursor);
        match ev {
            XmlEvent::Eof => return None,
            XmlEvent::Error => return None,
            _ => {},
        }
        match version_in_event(&ev) {
            Some(v) => return Some(v),
            None => {},
        }
        assert(scan_events(xml@, at, (fuel + 1) as nat) == scan_events(xml@, at + 1, fuel as nat));
        if fuel == 0 {
            return None;
        }
        fuel = fuel - 1;
    }
}

/// Both version numbers of the game: the build from the installer XML and
/// the release it maps to; the error when the XML has none.
pub fn game_versions(xml: &str) -> (r: Result<(String, String), String>)
    ensures
        match r {
            Ok((v1, v2)) => spec_game_version(xml@, xml.len() as nat) matches Some(b)
                && v1@ == utf8_lossy(b) && (valid_utf8(b) ==> v1@ == decode_utf8(b))
                && v2@ == spec_map_version(v1@),
            Err(m) => spec_game_version(xml@, xml.len() as nat) is None
                && m@ == "Version not found in XML"@,
        },
{
    match parse_game_version(xml) {
        Some(v1) => {
            let v2 = map_version(v1.as_str());
            Ok((v1, v2))
        },
        None => Err(String::from_str("Version not found in XML")),
    }
}


/// Message when a folder has no installer XML.
pub fn missing_installer_message(dir: &str) -> (r: String)
    ensures
        r@ == "Cannot find installer XML in "@ + dir@,
{
    let mut r = String::new();
    push_str(&mut r, "Cannot find installer XML in ");
    push_str(&mut r, dir);
    r
}

/// Message when the installer XML cannot be read.
pub fn unreadable_installer_message(err: &str) -> (r: String)
    ensures
        r@ == "Cannot read XML: "@ + err@,
{
    let mut r = String::new();
    push_str(&mut r, "Cannot read XML: ");
    push_str(&mut r, err);
    r
}

/// The version written into anadius.cfg: the raw build number from the
/// installer XML, or `Unknown` when there is none.
pub fn cfg_version(xml: &str) -> (r: String)
    ensures
        match spec_game_version(xml@, xml.len() as nat) {
            Some(b) => r@ == utf8_lossy(b) && (valid_utf8(b) ==> r@ == decode_utf8(b)),
            None => r@ == "Unknown"@,
        },
{
    match parse_game_version(xml) {
        Some(v) => v,
        None => String::from_str("Unknown"),
    }
}
} // verus!
