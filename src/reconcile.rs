use vstd::prelude::*;
use vstd::string::*;

use crate::layout::{crate_path, crate_rel_path, texts};

verus! {

/// One record of the package index: this version must exist in the mirror.
#[derive(Debug, Clone)]
pub struct IndexRecord {
    pub name: String,
    pub version: String,
    pub checksum: String,
    pub yanked: bool,
}

/// A package version that the index lists and the local tree lacks.
#[derive(Debug, Clone)]
pub struct MissingEntry {
    pub name: String,
    pub version: String,
}

impl MissingEntry {
    pub fn get_name(&self) -> (r: &str)
        ensures
            r@ == self.name@,
    {
        self.name.as_str()
    }

    /// A copy with the same name and version.
    pub fn copy_entry(&self) -> (r: MissingEntry)
        ensures
            r == *self,
    {
        MissingEntry { name: self.name.clone(), version: self.version.clone() }
    }

    pub fn get_vers(&self) -> (r: &str)
        ensures
            r@ == self.version@,
    {
        self.version.as_str()
    }
}

/// Name and version of a package.
pub type Key = (Seq<char>, Seq<char>);

pub open spec fn record_key(r: IndexRecord) -> Key {
    (r.name@, r.version@)
}

pub open spec fn entry_key(e: MissingEntry) -> Key {
    (e.name@, e.version@)
}

pub open spec fn entry_keys(s: Seq<MissingEntry>) -> Seq<Key> {
    s.map_values(|e: MissingEntry| entry_key(e))
}

/// `a` is a proper prefix of `b`, or they first differ at `k` where `a` holds
/// the smaller character.
pub open spec fn text_lt_at(a: Seq<char>, b: Seq<char>, k: int) -> bool {
    &&& 0 <= k <= a.len()
    &&& k <= b.len()
    &&& forall|j: int| 0 <= j < k ==> a[j] == b[j]
    &&& ((k == a.len() && k < b.len()) || (k < a.len() && k < b.len() && (a[k] as u32) < (
    b[k] as u32)))
}

/// Lexicographic order on characters.
pub open spec fn text_lt(a: Seq<char>, b: Seq<char>) -> bool {
    exists|k: int| text_lt_at(a, b, k)
}

/// Order by name, then by version.
pub open spec fn key_lt(a: Key, b: Key) -> bool {
    text_lt(a.0, b.0) || (a.0 == b.0 && text_lt(a.1, b.1))
}

pub open spec fn sorted_strict(s: Seq<Key>) -> bool {
    forall|i: int, j: int| 0 <= i < j < s.len() ==> key_lt(s[i], s[j])
}

/// Some record carries key `k`, has a place in the tree, and its archive is
/// not among the present paths.
pub open spec fn is_missing(recs: Seq<IndexRecord>, present: Seq<Seq<char>>, k: Key) -> bool {
    exists|i: int|
        0 <= i < recs.len() && record_key(#[trigger] recs[i]) == k && k.0.len() > 0
            && !present.contains(crate_rel_path(k.0, k.1))
}

/// `out` lists each missing key once, ordered by name, then version.
pub open spec fn is_diff_of(recs: Seq<IndexRecord>, present: Seq<Seq<char>>, out: Seq<Key>) -> bool {
    &&& sorted_strict(out)
    &&& forall|k: Key| out.contains(k) <==> is_missing(recs, present, k)
}

/// The archive paths of a list of keys.
pub open spec fn key_paths(s: Seq<Key>) -> Seq<Seq<char>> {
    s.map_values(|k: Key| crate_rel_path(k.0, k.1))
}

pub proof fn lemma_text_lt_irreflexive(a: Seq<char>)
    ensures
        !text_lt(a, a),
{
}

pub proof fn lemma_text_lt_transitive(a: Seq<char>, b: Seq<char>, c: Seq<char>)
    requires
        text_lt(a, b),
        text_lt(b, c),
    ensures
        text_lt(a, c),
{
    let k1 = choose|k: int| text_lt_at(a, b, k);
    let k2 = choose|k: int| text_lt_at(b, c, k);
    let k = if k1 < k2 { k1 } else { k2 };
    assert(text_lt_at(a, c, k));
}

pub proof fn lemma_key_lt_irreflexive(a: Key)
    ensures
        !key_lt(a, a),
{
    lemma_text_lt_irreflexive(a.0);
    lemma_text_lt_irreflexive(a.1);
}

pub proof fn lemma_key_lt_transitive(a: Key, b: Key, c: Key)
    requires
        key_lt(a, b),
        key_lt(b, c),
    ensures
        key_lt(a, c),
{
    if text_lt(a.0, b.0) && text_lt(b.0, c.0) {
        lemma_text_lt_transitive(a.0, b.0, c.0);
    } else if a.0 == b.0 && b.0 == c.0 {
        lemma_text_lt_transitive(a.1, b.1, c.1);
    }
}

/// Two strictly ordered lists that hold the same keys are the same list.
pub proof fn lemma_sorted_unique(a: Seq<Key>, b: Seq<Key>)
    requires
        sorted_strict(a),
        sorted_strict(b),
        forall|k: Key| a.contains(k) <==> b.contains(k),
    ensures
        a == b,
    decreases a.len(),
{
    if a.len() == 0 {
        if b.len() > 0 {
            assert(b.contains(b[0]));
        }
        assert(a =~= b);
    } else {
        assert(a.contains(a[0]));
        assert(b.len() > 0);
        assert(b.contains(b[0]));
        let i = choose|i: int| 0 <= i < a.len() && a[i] == b[0];
        let j = choose|j: int| 0 <= j < b.len() && b[j] == a[0];
        if i > 0 && j > 0 {
            lemma_key_lt_transitive(a[0], b[0], a[0]);
            lemma_key_lt_irreflexive(a[0]);
        } else if i > 0 {
            lemma_key_lt_irreflexive(a[0]);
        } else if j > 0 {
            lemma_key_lt_irreflexive(b[0]);
        }
        assert(a[0] == b[0]);
        let ta = a.drop_first();
        let tb = b.drop_first();
        assert forall|k: Key| ta.contains(k) <==> tb.contains(k) by {
            if ta.contains(k) {
                let p = choose|p: int| 0 <= p < ta.len() && ta[p] == k;
                assert(a[p + 1] == k);
                assert(key_lt(a[0], a[p + 1]));
                lemma_key_lt_irreflexive(k);
                assert(b.contains(k));
                let q = choose|q: int| 0 <= q < b.len() && b[q] == k;
                assert(q != 0);
                assert(tb[q - 1] == k);
            }
            if tb.contains(k) {
                let p = choose|p: int| 0 <= p < tb.len() && tb[p] == k;
                assert(b[p + 1] == k);
                assert(key_lt(b[0], b[p + 1]));
                lemma_key_lt_irreflexive(k);
                assert(a.contains(k));
                let q = choose|q: int| 0 <= q < a.len() && a[q] == k;
                assert(q != 0);
                assert(ta[q - 1] == k);
            }
        }
        lemma_sorted_unique(ta, tb);
        assert(a =~= seq![a[0]] + ta);
        assert(b =~= seq![b[0]] + tb);
    }
}

/// Deterministic diff: index records that form the same set, against the same
/// local tree, give the same ordered list of missing entries, whatever order
/// the records came in.
pub proof fn lemma_diff_deterministic(
    recs1: Seq<IndexRecord>,
    recs2: Seq<IndexRecord>,
    present: Seq<Seq<char>>,
    out1: Seq<Key>,
    out2: Seq<Key>,
)
    requires
        recs1.to_set() == recs2.to_set(),
        is_diff_of(recs1, present, out1),
        is_diff_of(recs2, present, out2),
    ensures
        out1 == out2,
{
    assert forall|k: Key| out1.contains(k) <==> out2.contains(k) by {
        if is_missing(recs1, present, k) {
            let i = choose|i: int|
                0 <= i < recs1.len() && record_key(#[trigger] recs1[i]) == k && k.0.len() > 0
                    && !present.contains(crate_rel_path(k.0, k.1));
            assert(recs1.to_set().contains(recs1[i]));
            assert(recs2.to_set().contains(recs1[i]));
            let j = choose|j: int| 0 <= j < recs2.len() && recs2[j] == recs1[i];
            assert(record_key(recs2[j]) == k);
        }
        if is_missing(recs2, present, k) {
            let i = choose|i: int|
                0 <= i < recs2.len() && record_key(#[trigger] recs2[i]) == k && k.0.len() > 0
                    && !present.contains(crate_rel_path(k.0, k.1));
            assert(recs2.to_set().contains(recs2[i]));
            assert(recs1.to_set().contains(recs2[i]));
            let j = choose|j: int| 0 <= j < recs1.len() && recs1[j] == recs2[i];
            assert(record_key(recs1[j]) == k);
        }
    }
    lemma_sorted_unique(out1, out2);
}

/// Resumability: once the archives of the entries in `fetched` are present,
/// the next diff over the same records holds only entries of the first diff
/// that were not fetched. With every entry fetched it is empty (idempotence).
pub proof fn lemma_rerun_only_unfetched(
    recs: Seq<IndexRecord>,
    present: Seq<Seq<char>>,
    out: Seq<Key>,
    fetched: Seq<Key>,
    next: Seq<Key>,
)
    requires
        is_diff_of(recs, present, out),
        is_diff_of(recs, present + key_paths(fetched), next),
    ensures
        forall|k: Key| next.contains(k) ==> out.contains(k) && !fetched.contains(k),
{
    let present2 = present + key_paths(fetched);
    assert forall|k: Key| next.contains(k) implies out.contains(k) && !fetched.contains(k) by {
        let i = choose|i: int|
            0 <= i < recs.len() && record_key(#[trigger] recs[i]) == k && k.0.len() > 0
                && !present2.contains(crate_rel_path(k.0, k.1));
        let p = crate_rel_path(k.0, k.1);
        if present.contains(p) {
            let q = choose|q: int| 0 <= q < present.len() && present[q] == p;
            assert(present2[q] == p);
        }
        assert(is_missing(recs, present, k));
        if fetched.contains(k) {
            let q = choose|q: int| 0 <= q < fetched.len() && fetched[q] == k;
            assert(present2[present.len() + q] == p);
        }
    }
}

/// Idempotence: after every missing archive of a diff has been fetched, a
/// second diff over the same records is empty.
pub proof fn lemma_sync_idempotent(
    recs: Seq<IndexRecord>,
    present: Seq<Seq<char>>,
    out: Seq<Key>,
    next: Seq<Key>,
)
    requires
        is_diff_of(recs, present, out),
        is_diff_of(recs, present + key_paths(out), next),
    ensures
        next.len() == 0,
{
    lemma_rerun_only_unfetched(recs, present, out, out, next);
    if next.len() > 0 {
        assert(next.contains(next[0]));
    }
}

/// Compares two strings character by character: -1 when `a` comes first,
/// 0 when they are equal, 1 when `b` comes first.
pub fn compare_text(a: &str, b: &str) -> (r: i8)
    ensures
        r == -1 || r == 0 || r == 1,
        r == -1 ==> text_lt(a@, b@),
        r == 0 ==> a@ == b@,
        r == 1 ==> text_lt(b@, a@),
{
    let la = a.unicode_len();
    let lb = b.unicode_len();
    let mut i: usize = 0;
    while i < la && i < lb && a.get_char(i) == b.get_char(i)
        invariant
            la == a@.len(),
            lb == b@.len(),
            i <= la,
            i <= lb,
            forall|j: int| 0 <= j < i ==> a@[j] == b@[j],
        decreases la - i,
    {
        i = i + 1;
    }
    if i == la && i == lb {
        assert(a@ =~= b@);
        0
    } else if i == la {
        assert(text_lt_at(a@, b@, i as int));
        -1
    } else if i == lb {
        assert(text_lt_at(b@, a@, i as int));
        1
    } else {
        let ca = a.get_char(i);
        let cb = b.get_char(i);
        if (ca as u32) < (cb as u32) {
            assert(text_lt_at(a@, b@, i as int));
            -1
        } else {
            assert(ca != cb);
            assert((cb as u32) != (ca as u32));
            assert(text_lt_at(b@, a@, i as int));
            1
        }
    }
}

/// Compares two entries by name, then by version.
pub fn compare_entries(a: &MissingEntry, b: &MissingEntry) -> (r: i8)
    ensures
        r == -1 || r == 0 || r == 1,
        r == -1 ==> key_lt(entry_key(*a), entry_key(*b)),
        r == 0 ==> entry_key(*a) == entry_key(*b),
        r == 1 ==> key_lt(entry_key(*b), entry_key(*a)),
{
    let c = compare_text(a.name.as_str(), b.name.as_str());
    if c != 0 {
        c
    } else {
        compare_text(a.version.as_str(), b.version.as_str())
    }
}

/// Puts `e` into its place in a strictly ordered list, unless its key is
/// there already.
pub fn insert_sorted(out: &mut Vec<MissingEntry>, e: MissingEntry)
    requires
        sorted_strict(entry_keys(old(out)@)),
    ensures
        sorted_strict(entry_keys(final(out)@)),
        forall|k: Key|
            entry_keys(final(out)@).contains(k) <==> (entry_keys(old(out)@).contains(k) || k
                == entry_key(e)),
{
    let ghost ks = entry_keys(out@);
    let mut p: usize = 0;
    let mut c: i8 = 1;
    while p < out.len()
        invariant
            out@ == old(out)@,
            ks == entry_keys(out@),
            p <= out.len(),
            forall|j: int| 0 <= j < p ==> key_lt(#[trigger] ks[j], entry_key(e)),
        ensures
            out@ == old(out)@,
            p <= out.len(),
            forall|j: int| 0 <= j < p ==> key_lt(#[trigger] ks[j], entry_key(e)),
            p < out.len() ==> (c == 0 && ks[p as int] == entry_key(e)) || (c == 1 && key_lt(
                entry_key(e),
                ks[p as int],
            )),
        decreases out.len() - p,
    {
        c = compare_entries(&out[p], &e);
        if c != -1 {
            break;
        }
        p = p + 1;
    }
    if p < out.len() && c == 0 {
        assert forall|k: Key| ks.contains(k) <==> (ks.contains(k) || k == entry_key(e)) by {
            if k == entry_key(e) {
                assert(ks[p as int] == k);
            }
        }
        return;
    }
    let ghost kp = ks.insert(p as int, entry_key(e));
    proof {
        if p < out.len() {
            assert(c == 1);
            assert(key_lt(entry_key(e), ks[p as int]));
        }
        assert forall|m: int| p <= m < ks.len() implies key_lt(entry_key(e), #[trigger] ks[m]) by {
            if m > p {
                lemma_key_lt_transitive(entry_key(e), ks[p as int], ks[m]);
            }
        }
        assert forall|i: int, j: int| 0 <= i < j < kp.len() implies key_lt(kp[i], kp[j]) by {
            if j < p {
            } else if i < p && j == p {
            } else if i < p {
                assert(kp[j] == ks[j - 1]);
                assert(key_lt(entry_key(e), ks[j - 1]));
                lemma_key_lt_transitive(ks[i], entry_key(e), ks[j - 1]);
            } else if i == p {
                assert(key_lt(entry_key(e), ks[j - 1]));
            } else {
                assert(kp[i] == ks[i - 1]);
                assert(kp[j] == ks[j - 1]);
            }
        }
    }
    out.insert(p, e);
    proof {
        assert(entry_keys(out@) =~= kp);
        assert forall|k: Key| kp.contains(k) <==> (ks.contains(k) || k == entry_key(e)) by {
            if kp.contains(k) {
                let q = choose|q: int| 0 <= q < kp.len() && kp[q] == k;
                if q < p {
                    assert(ks[q] == k);
                } else if q > p {
                    assert(ks[q - 1] == k);
                }
            }
            if ks.contains(k) {
                let q = choose|q: int| 0 <= q < ks.len() && ks[q] == k;
                if q < p {
                    assert(kp[q] == k);
                } else {
                    assert(kp[q + 1] == k);
                }
            }
            if k == entry_key(e) {
                assert(kp[p as int] == k);
            }
        }
    }
}

/// Whether `v` holds a string equal to `t`.
pub fn contains_text(v: &Vec<String>, t: &String) -> (r: bool)
    ensures
        r == texts(v@).contains(t@),
{
    let mut i: usize = 0;
    while i < v.len()
        invariant
            i <= v.len(),
            forall|j: int| 0 <= j < i ==> texts(v@)[j] != t@,
        decreases v.len() - i,
    {
        if v[i] == *t {
            assert(texts(v@)[i as int] == t@);
            return true;
        }
        i = i + 1;
    }
    false
}

/// The index records whose archive is absent from the local tree, each
/// name and version once, ordered by name, then version. `present` holds the
/// paths below `crates/` of the archives that exist.
pub fn missing_entries(records: &Vec<IndexRecord>, present: &Vec<String>) -> (r: Vec<MissingEntry>)
    ensures
        is_diff_of(records@, texts(present@), entry_keys(r@)),
{
    let ghost pv = texts(present@);
    let mut out: Vec<MissingEntry> = Vec::new();
    let mut i: usize = 0;
    while i < records.len()
        invariant
            i <= records.len(),
            pv == texts(present@),
            sorted_strict(entry_keys(out@)),
            forall|k: Key|
                entry_keys(out@).contains(k) <==> is_missing(records@.subrange(0, i as int), pv, k),
        decreases records.len() - i,
    {
        let rec = &records[i];
        let ghost before = records@.subrange(0, i as int);
        let ghost after = records@.subrange(0, i + 1);
        let ghost rk = record_key(*rec);
        let mut added = false;
        match crate_path(rec.name.as_str(), rec.version.as_str()) {
            Some(path) => {
                if !contains_text(present, &path) {
                    let e = MissingEntry { name: rec.name.clone(), version: rec.version.clone() };
                    insert_sorted(&mut out, e);
                    added = true;
                }
            },
            None => {},
        }
        proof {
            assert forall|k: Key|
                is_missing(after, pv, k) <==> (is_missing(before, pv, k) || (added && k == rk)) by {
                if is_missing(after, pv, k) {
                    let j = choose|j: int|
                        0 <= j < after.len() && record_key(#[trigger] after[j]) == k && k.0.len() > 0
                            && !pv.contains(crate_rel_path(k.0, k.1));
                    if j < i {
                        assert(before[j] == after[j]);
                    }
                }
                if is_missing(before, pv, k) {
                    let j = choose|j: int|
                        0 <= j < before.len() && record_key(#[trigger] before[j]) == k && k.0.len()
                            > 0 && !pv.contains(crate_rel_path(k.0, k.1));
                    assert(after[j] == before[j]);
                }
                if added && k == rk {
                    assert(after[i as int] == *rec);
                }
            }
        }
        i = i + 1;
    }
    assert(records@.subrange(0, records.len() as int) =~= records@);
    out
}

} // verus!
