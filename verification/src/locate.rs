//! Finding the game folder on the drives (breadth first, skipping system
//! folders) and listing a folder for diagnostics.
use vstd::prelude::*;
use vstd::relations::{sorted_by, total_ordering};
use std::collections::VecDeque;
use crate::text::{chars_of, push_char, push_str, str_eq};

verus! {

/// `str::to_lowercase` of `s` (full Unicode lowercase mapping).
pub uninterp spec fn unicode_lowercase(s: Seq<char>) -> Seq<char>;

/// Trusted: `str::to_lowercase` maps `s` by Unicode lowercasing, a function
/// of `s` alone.
#[verifier::external_body]
fn lowercase(s: &str) -> (r: String)
    ensures
        r@ == unicode_lowercase(s@),
{
    s.to_lowercase()
}

/// Folder names, in lowercase, that the search never enters.
pub open spec fn is_skipped_lower(n: Seq<char>) -> bool {
    n == "windows"@ || n == "programdata"@ || n == "appdata"@ || n == "system volume information"@
        || n == "$recycle.bin"@ || n == "temp"@ || n == "tmp"@ || n == "perflogs"@
}

/// The search enters a subfolder unless its lowercased name is one of the
/// system or temporary folders.
pub open spec fn spec_should_descend(name: Seq<char>) -> bool {
    !is_skipped_lower(unicode_lowercase(name))
}

/// Whether the search enters a subfolder of this name.
pub fn should_descend(name: &str) -> (r: bool)
    ensures
        r == spec_should_descend(name@),
{
    let l = lowercase(name);
    let s = l.as_str();
    !(str_eq(s, "windows") || str_eq(s, "programdata") || str_eq(s, "appdata")
        || str_eq(s, "system volume information") || str_eq(s, "$recycle.bin")
        || str_eq(s, "temp") || str_eq(s, "tmp") || str_eq(s, "perflogs"))
}

/// Root folders of the drives C to Z, in order (`C:\` and so on).
pub fn drive_roots() -> (r: Vec<String>)
    ensures
        r@.len() == 24,
        forall|i: int| 0 <= i < 24 ==> (#[trigger] r@[i])@ == seq![(('C' as u32) + i) as char, ':', '\\'],
{
    let letters = "CDEFGHIJKLMNOPQRSTUVWXYZ";
    proof { reveal_strlit("CDEFGHIJKLMNOPQRSTUVWXYZ"); }
    let cs = chars_of(letters);
    let mut r: Vec<String> = Vec::new();
    let mut i: usize = 0;
    while i < 24
        invariant
            cs@ == letters@,
            letters@ == "CDEFGHIJKLMNOPQRSTUVWXYZ"@,
            cs@.len() == 24,
            forall|k: int| 0 <= k < 24 ==> #[trigger] cs@[k] == (('C' as u32) + k) as char,
            i <= 24,
            r@.len() == i,
            forall|k: int| 0 <= k < i ==> (#[trigger] r@[k])@ == seq![(('C' as u32) + k) as char, ':', '\\'],
        decreases 24 - i,
    {
        let mut d = String::new();
        push_char(&mut d, cs[i]);
        push_char(&mut d, ':');
        push_char(&mut d, '\\');
        r.push(d);
        i = i + 1;
    }
    r
}

/// Folders still to be searched, first in first out.
pub struct SearchQueue {
    queue: VecDeque<String>,
}

/// The subfolders `(name, path)` that the search enters, in order.
pub open spec fn entered(dirs: Seq<(Seq<char>, Seq<char>)>) -> Seq<Seq<char>>
    decreases dirs.len(),
{
    if dirs.len() == 0 {
        Seq::empty()
    } else {
        let last = dirs.last();
        if spec_should_descend(last.0) {
            entered(dirs.drop_last()).push(last.1)
        } else {
            entered(dirs.drop_last())
        }
    }
}

impl SearchQueue {
    /// The paths waiting to be searched, next first.
    pub closed spec fn pending(&self) -> Seq<Seq<char>> {
        self.queue@.map_values(|s: String| s@)
    }

    /// A search that starts at `root`.
    pub fn new(root: String) -> (q: SearchQueue)
        ensures
            q.pending() == seq![root@],
    {
        let mut queue = VecDeque::new();
        queue.push_back(root);
        let q = SearchQueue { queue };
        assert(q.pending() =~= seq![root@]);
        q
    }

    /// The next folder to search, if any.
    pub fn next(&mut self) -> (r: Option<String>)
        ensures
            old(self).pending().len() == 0 ==> r is None && final(self).pending() == old(self).pending(),
            old(self).pending().len() > 0 ==> (r matches Some(p) && p@ == old(self).pending()[0])
                && final(self).pending() == old(self).pending().drop_first(),
    {
        let r = self.queue.pop_front();
        proof {
            assert(self.pending() =~= (if old(self).pending().len() > 0 { old(self).pending().drop_first() } else { old(self).pending() }));
        }
        r
    }

    /// Queues the subfolders `(name, path)` of the folder just searched,
    /// in order, except those the search skips.
    pub fn enqueue_subfolders(&mut self, dirs: Vec<(String, String)>)
        ensures
            final(self).pending() == old(self).pending()
                + entered(dirs@.map_values(|d: (String, String)| (d.0@, d.1@))),
    {
        let ghost dv = dirs@.map_values(|d: (String, String)| (d.0@, d.1@));
        let mut i: usize = 0;
        let n = dirs.len();
        assert(dv.subrange(0, 0) =~= Seq::<(Seq<char>, Seq<char>)>::empty());
        while i < n
            invariant
                n == dirs@.len(),
                dv == dirs@.map_values(|d: (String, String)| (d.0@, d.1@)),
                i <= n,
                self.pending() == old(self).pending() + entered(dv.subrange(0, i as int)),
            decreases n - i,
        {
            let name = &dirs[i].0;
            assert(dv.subrange(0, i + 1).drop_last() =~= dv.subrange(0, i as int));
            if should_descend(name.as_str()) {
                let path = dirs[i].1.clone();
                let ghost before = self.pending();
                self.queue.push_back(path);
                assert(self.pending() =~= before.push(dv[i as int].1));
            }
            i = i + 1;
            assert(self.pending() =~= old(self).pending() + entered(dv.subrange(0, i as int)));
        }
        assert(dv.subrange(0, n as int) =~= dv);
    }
}

/// Lexicographic order on texts, by code point: the order of `String`
/// comparison (UTF-8 preserves code point order).
pub open spec fn lex_le(a: Seq<char>, b: Seq<char>) -> bool
    decreases a.len(),
{
    if a.len() == 0 {
        true
    } else if b.len() == 0 {
        false
    } else if a[0] != b[0] {
        a[0] < b[0]
    } else {
        lex_le(a.drop_first(), b.drop_first())
    }
}

/// Text order as a relation.
pub open spec fn text_order() -> spec_fn(Seq<char>, Seq<char>) -> bool {
    |a: Seq<char>, b: Seq<char>| lex_le(a, b)
}

proof fn lemma_lex_antisymmetric(a: Seq<char>, b: Seq<char>)
    requires
        lex_le(a, b),
        lex_le(b, a),
    ensures
        a == b,
    decreases a.len(),
{
    if a.len() > 0 && b.len() > 0 {
        lemma_lex_antisymmetric(a.drop_first(), b.drop_first());
        assert(a =~= seq![a[0]] + a.drop_first());
        assert(b =~= seq![b[0]] + b.drop_first());
    }
}

proof fn lemma_lex_transitive(a: Seq<char>, b: Seq<char>, c: Seq<char>)
    requires
        lex_le(a, b),
        lex_le(b, c),
    ensures
        lex_le(a, c),
    decreases a.len(),
{
    if a.len() > 0 && b.len() > 0 && c.len() > 0 && a[0] == b[0] && b[0] == c[0] {
        lemma_lex_transitive(a.drop_first(), b.drop_first(), c.drop_first());
    }
}

proof fn lemma_lex_total(a: Seq<char>, b: Seq<char>)
    ensures
        lex_le(a, b) || lex_le(b, a),
    decreases a.len(),
{
    if a.len() > 0 && b.len() > 0 && a[0] == b[0] {
        lemma_lex_total(a.drop_first(), b.drop_first());
    }
}

proof fn lemma_lex_reflexive(a: Seq<char>)
    ensures
        lex_le(a, a),
    decreases a.len(),
{
    if a.len() > 0 {
        lemma_lex_reflexive(a.drop_first());
    }
}

/// Text order is a total order.
pub proof fn lex_total_ordering()
    ensures
        total_ordering(text_order()),
{
    assert forall|a: Seq<char>| #[trigger] lex_le(a, a) by { lemma_lex_reflexive(a); }
    assert forall|a: Seq<char>, b: Seq<char>| #[trigger] lex_le(a, b) && #[trigger] lex_le(b, a) implies a == b by {
        lemma_lex_antisymmetric(a, b);
    }
    assert forall|a: Seq<char>, b: Seq<char>, c: Seq<char>| #[trigger] lex_le(a, b) && #[trigger] lex_le(b, c) implies lex_le(a, c) by {
        lemma_lex_transitive(a, b, c);
    }
    assert forall|a: Seq<char>, b: Seq<char>| #[trigger] lex_le(a, b) || #[trigger] lex_le(b, a) by {
        lemma_lex_total(a, b);
    }
}

/// Whether `a` comes before or equals `b` in text order.
pub fn text_le(a: &str, b: &str) -> (r: bool)
    ensures
        r == lex_le(a@, b@),
{
    let x = chars_of(a);
    let y = chars_of(b);
    let mut i: usize = 0;
    assert(a@.subrange(0, a@.len() as int) =~= a@);
    assert(b@.subrange(0, b@.len() as int) =~= b@);
    while i < x.len() && i < y.len() && x[i] == y[i]
        invariant
            x@ == a@,
            y@ == b@,
            i <= x@.len(),
            i <= y@.len(),
            lex_le(a@, b@) == lex_le(a@.subrange(i as int, a@.len() as int), b@.subrange(i as int, b@.len() as int)),
        decreases x@.len() - i,
    {
        proof {
            let s = a@.subrange(i as int, a@.len() as int);
            let t = b@.subrange(i as int, b@.len() as int);
            assert(s.drop_first() =~= a@.subrange(i + 1, a@.len() as int));
            assert(t.drop_first() =~= b@.subrange(i + 1, b@.len() as int));
        }
        i = i + 1;
    }
    proof {
        assert(a@.subrange(0, a@.len() as int) =~= a@);
        assert(b@.subrange(0, b@.len() as int) =~= b@);
    }
    if i == x.len() {
        true
    } else if i == y.len() {
        false
    } else {
        x[i] < y[i]
    }
}

/// The texts of a list of strings.
pub open spec fn texts(v: Seq<String>) -> Seq<Seq<char>> {
    v.map_values(|s: String| s@)
}

/// Sorts names in text order (as `Vec::<String>::sort` does).
pub fn sort_names(names: &Vec<String>) -> (r: Vec<String>)
    ensures
        sorted_by(texts(r@), text_order()),
        texts(r@).to_multiset() == texts(names@).to_multiset(),
{
    proof { lex_total_ordering(); }
    let ghost leq = text_order();
    let mut r: Vec<String> = Vec::new();
    let mut i: usize = 0;
    assert(texts(names@).subrange(0, 0) =~= Seq::<Seq<char>>::empty());
    assert(texts(r@) =~= Seq::<Seq<char>>::empty());
    while i < names.len()
        invariant
            i <= names@.len(),
            total_ordering(leq),
            leq == text_order(),
            sorted_by(texts(r@), leq),
            texts(r@).to_multiset() == texts(names@).subrange(0, i as int).to_multiset(),
        decreases names@.len() - i,
    {
        let s = names[i].clone();
        let mut j: usize = 0;
        while j < r.len() && text_le(r[j].as_str(), s.as_str())
            invariant
                j <= r@.len(),
                forall|k: int| 0 <= k < j ==> lex_le(#[trigger] r@[k]@, s@),
            decreases r@.len() - j,
        {
            j = j + 1;
        }
        let ghost before = texts(r@);
        proof {
            assert forall|k: int| j <= k < before.len() implies lex_le(s@, #[trigger] before[k]) by {
                assert(!lex_le(before[j as int], s@));
                lemma_lex_total(before[j as int], s@);
                if k > j {
                    assert(leq(before[j as int], before[k]));
                    lemma_lex_transitive(s@, before[j as int], before[k]);
                }
            }
        }
        r.insert(j, s);
        proof {
            let after = texts(r@);
            assert(after =~= before.insert(j as int, names@[i as int]@));
            assert forall|a: int, b: int| 0 <= a < b < after.len() implies #[trigger] leq(after[a], after[b]) by {
                if a < j && b < j {
                } else if a < j && b == j {
                } else if a < j {
                    assert(leq(before[a], before[b - 1]));
                } else if a == j {
                } else {
                    assert(leq(before[a - 1], before[b - 1]));
                }
            }
            vstd::seq_lib::to_multiset_insert(before, j as int, names@[i as int]@);
            assert(texts(names@).subrange(0, i + 1) =~= texts(names@).subrange(0, i as int).push(names@[i as int]@));
            vstd::seq_lib::to_multiset_build(texts(names@).subrange(0, i as int), names@[i as int]@);
        }
        i = i + 1;
    }
    assert(texts(names@).subrange(0, names@.len() as int) =~= texts(names@));
    r
}

/// The entries shown in the folder diagnostics: the names sorted in text
/// order, at most the first 50.
pub fn diagnostic_entries(names: &Vec<String>) -> (r: Vec<String>)
    ensures
        texts(r@).len() == (if names@.len() < 50 { names@.len() } else { 50 }),
        exists|q: Seq<Seq<char>>| #![trigger q.to_multiset()]
            sorted_by(q, text_order())
            && q.to_multiset() == texts(names@).to_multiset()
            && texts(r@) == q.take(texts(r@).len() as int),
{
    let mut r = sort_names(names);
    let ghost full = texts(r@);
    proof {
        full.to_multiset_ensures();
        texts(names@).to_multiset_ensures();
        assert(full.len() == names@.len());
    }
    r.truncate(50);
    assert(texts(r@) =~= full.take(texts(r@).len() as int));
    r
}

/// Any two sorted arrangements of the same names are the same: the
/// diagnostics list is determined by the folder's names.
pub proof fn sorted_names_unique(x: Seq<Seq<char>>, y: Seq<Seq<char>>)
    requires
        sorted_by(x, text_order()),
        sorted_by(y, text_order()),
        x.to_multiset() == y.to_multiset(),
    ensures
        x == y,
{
    lex_total_ordering();
    vstd::seq_lib::lemma_sorted_unique(x, y, text_order());
}

/// Whether any of the names is a temporary part file of a download, which
/// makes closing the window ask first.
pub fn has_part_files(names: &Vec<String>) -> (r: bool)
    ensures
        r == exists|i: int| 0 <= i < names@.len() && crate::text::is_prefix((#[trigger] names@[i])@, ".dl_part_"@),
{
    let mut i: usize = 0;
    while i < names.len()
        invariant
            i <= names@.len(),
            forall|k: int| 0 <= k < i ==> !crate::text::is_prefix((#[trigger] names@[k])@, ".dl_part_"@),
        decreases names@.len() - i,
    {
        if crate::files::is_part_file(names[i].as_str()) {
            return true;
        }
        i = i + 1;
    }
    false
}

} // verus!
