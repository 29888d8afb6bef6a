//! Stable ordering of store and lock records by package name, then version.

use vstd::prelude::*;
use crate::text::{seq_lt, text_eq, text_lt};

verus! {

broadcast use vstd::seq_lib::group_seq_properties;

/// `seq_lt` never relates a sequence to itself.
pub proof fn lemma_seq_lt_irreflexive(a: Seq<char>)
    ensures
        !seq_lt(a, a),
    decreases a.len(),
{
    if a.len() > 0 {
        lemma_seq_lt_irreflexive(a.drop_first());
    }
}

/// `seq_lt` is transitive.
pub proof fn lemma_seq_lt_transitive(a: Seq<char>, b: Seq<char>, c: Seq<char>)
    requires
        seq_lt(a, b),
        seq_lt(b, c),
    ensures
        seq_lt(a, c),
    decreases a.len(),
{
    if a.len() > 0 && b.len() > 0 && c.len() > 0 && a[0] == b[0] && b[0] == c[0] {
        lemma_seq_lt_transitive(a.drop_first(), b.drop_first(), c.drop_first());
    }
}

/// Two different sequences are ordered one way or the other.
pub proof fn lemma_seq_lt_total(a: Seq<char>, b: Seq<char>)
    requires
        a != b,
    ensures
        seq_lt(a, b) || seq_lt(b, a),
    decreases a.len(),
{
    if a.len() == 0 {
        assert(b.len() != 0);
    } else if b.len() == 0 {
    } else if a[0] == b[0] {
        if a.drop_first() == b.drop_first() {
            assert(a =~= seq![a[0]] + a.drop_first());
            assert(b =~= seq![b[0]] + b.drop_first());
        }
        lemma_seq_lt_total(a.drop_first(), b.drop_first());
    } else {
        assert(a[0] != b[0]);
    }
}

/// `seq_lt` is asymmetric.
pub proof fn lemma_seq_lt_asymmetric(a: Seq<char>, b: Seq<char>)
    requires
        seq_lt(a, b),
    ensures
        !seq_lt(b, a),
{
    if seq_lt(b, a) {
        lemma_seq_lt_transitive(a, b, a);
        lemma_seq_lt_irreflexive(a);
    }
}

/// A record that is ordered by package name, then version.
pub trait VersionedRecord: Sized {
    spec fn record_name(&self) -> Seq<char>;

    spec fn record_version(&self) -> Seq<char>;

    fn name_text(&self) -> (r: &str)
        ensures
            r@ == self.record_name(),
    ;

    fn version_text(&self) -> (r: &str)
        ensures
            r@ == self.record_version(),
    ;

    fn clone_record(&self) -> (r: Self)
        ensures
            r == *self,
    ;
}

/// `a` sorts strictly before `b`: by name, then by version.
pub open spec fn record_lt<T: VersionedRecord>(a: T, b: T) -> bool {
    seq_lt(a.record_name(), b.record_name()) || (a.record_name() == b.record_name() && seq_lt(
        a.record_version(),
        b.record_version(),
    ))
}

/// The records are in ascending (name, version) order.
pub open spec fn is_sorted<T: VersionedRecord>(s: Seq<T>) -> bool {
    forall|i: int, j: int| 0 <= i < j < s.len() ==> !record_lt(#[trigger] s[j], #[trigger] s[i])
}

proof fn lemma_record_lt_asymmetric<T: VersionedRecord>(a: T, b: T)
    requires
        record_lt(a, b),
    ensures
        !record_lt(b, a),
{
    if seq_lt(a.record_name(), b.record_name()) {
        lemma_seq_lt_asymmetric(a.record_name(), b.record_name());
        if b.record_name() == a.record_name() {
            lemma_seq_lt_irreflexive(a.record_name());
        }
    } else {
        lemma_seq_lt_asymmetric(a.record_version(), b.record_version());
        lemma_seq_lt_irreflexive(a.record_name());
    }
}

proof fn lemma_record_not_lt_transitive<T: VersionedRecord>(a: T, b: T, c: T)
    requires
        !record_lt(b, a),
        !record_lt(c, b),
    ensures
        !record_lt(c, a),
{
    let (an, bn, cn) = (a.record_name(), b.record_name(), c.record_name());
    let (av, bv, cv) = (a.record_version(), b.record_version(), c.record_version());
    if an != bn {
        lemma_seq_lt_total(an, bn);
    }
    if bn != cn {
        lemma_seq_lt_total(bn, cn);
    }
    if an == bn && av != bv {
        lemma_seq_lt_total(av, bv);
    }
    if bn == cn && bv != cv {
        lemma_seq_lt_total(bv, cv);
    }
    if record_lt(c, a) {
        if seq_lt(cn, an) {
            if seq_lt(an, bn) {
                lemma_seq_lt_transitive(cn, an, bn);
                if seq_lt(bn, cn) {
                    lemma_seq_lt_transitive(bn, cn, bn);
                    lemma_seq_lt_irreflexive(bn);
                } else {
                    lemma_seq_lt_irreflexive(bn);
                }
            } else if seq_lt(bn, cn) {
                lemma_seq_lt_transitive(bn, cn, an);
                lemma_seq_lt_asymmetric(bn, an);
            } else {
                lemma_seq_lt_irreflexive(an);
            }
        } else {
            if seq_lt(an, bn) {
                if seq_lt(bn, cn) {
                    lemma_seq_lt_transitive(an, bn, cn);
                    lemma_seq_lt_irreflexive(an);
                } else {
                    lemma_seq_lt_irreflexive(an);
                }
            } else if seq_lt(bn, cn) {
                lemma_seq_lt_irreflexive(an);
            } else {
                if seq_lt(av, bv) && seq_lt(bv, cv) {
                    lemma_seq_lt_transitive(av, bv, cv);
                    lemma_seq_lt_asymmetric(av, cv);
                } else if seq_lt(av, bv) {
                    lemma_seq_lt_transitive(cv, av, bv);
                    lemma_seq_lt_irreflexive(bv);
                } else if seq_lt(bv, cv) {
                    lemma_seq_lt_transitive(bv, cv, av);
                    lemma_seq_lt_irreflexive(av);
                } else {
                    lemma_seq_lt_irreflexive(av);
                }
            }
        }
    }
}

/// Whether `a` sorts strictly before `b`.
pub fn record_before<T: VersionedRecord>(a: &T, b: &T) -> (r: bool)
    ensures
        r == record_lt(*a, *b),
{
    let an = a.name_text();
    let bn = b.name_text();
    if text_lt(an, bn) {
        return true;
    }
    text_eq(an, bn) && text_lt(a.version_text(), b.version_text())
}

/// Two records have the same (name, version) key.
pub open spec fn same_key<T: VersionedRecord>(a: T, b: T) -> bool {
    a.record_name() == b.record_name() && a.record_version() == b.record_version()
}

/// `r` is `given` reordered, with records of equal keys kept in their given
/// order: `pos[k]` is the index in `given` of `r[k]`.
pub open spec fn stable_arrangement<T: VersionedRecord>(
    given: Seq<T>,
    r: Seq<T>,
    pos: Seq<int>,
) -> bool {
    &&& pos.len() == r.len()
    &&& forall|k: int| 0 <= k < r.len() ==> 0 <= #[trigger] pos[k] < given.len() && r[k] == given[pos[k]]
    &&& forall|a: int, b: int|
        0 <= a < b < r.len() && same_key(#[trigger] r[a], #[trigger] r[b]) ==> pos[a] < pos[b]
}

proof fn lemma_lt_not_same_key<T: VersionedRecord>(a: T, b: T)
    requires
        record_lt(a, b),
    ensures
        !same_key(a, b),
{
    if same_key(a, b) {
        lemma_seq_lt_irreflexive(a.record_name());
        lemma_seq_lt_irreflexive(a.record_version());
    }
}

/// Sort records by (name, version), keeping records with equal keys in the
/// order they were given.
pub fn sort_records<T: VersionedRecord>(v: Vec<T>) -> (r: Vec<T>)
    ensures
        is_sorted(r@),
        r@.to_multiset() == v@.to_multiset(),
        exists|pos: Seq<int>| stable_arrangement(v@, r@, pos),
{
    let mut r: Vec<T> = Vec::new();
    let mut rest = v;
    let ghost given = rest@;
    let ghost mut pos: Seq<int> = Seq::empty();
    proof {
        assert(given.subrange(0, 0) =~= Seq::<T>::empty());
    }
    let n = rest.len();
    let mut i: usize = 0;
    while i < n
        invariant
            n == given.len(),
            rest@ == given,
            i <= n,
            is_sorted(r@),
            r@.to_multiset() == given.subrange(0, i as int).to_multiset(),
            pos.len() == r@.len(),
            forall|k: int| 0 <= k < r@.len() ==> 0 <= #[trigger] pos[k] < i && r@[k] == given[pos[k]],
            forall|a: int, b: int|
                0 <= a < b < r@.len() && same_key(#[trigger] r@[a], #[trigger] r@[b]) ==> pos[a]
                    < pos[b],
        decreases n - i,
    {
        let x = &rest[i];
        let mut p: usize = r.len();
        while p > 0 && record_before(x, &r[p - 1])
            invariant
                p <= r.len(),
                is_sorted(r@),
                forall|k: int| p <= k < r@.len() ==> record_lt(*x, #[trigger] r@[k]),
            decreases p,
        {
            p = p - 1;
        }
        proof {
            assert forall|k: int| 0 <= k < p implies !record_lt(*x, #[trigger] r@[k]) by {
                if p > 0 {
                    let y = r@[p - 1];
                    assert(!record_lt(*x, y));
                    if k < p - 1 {
                        assert(!record_lt(y, r@[k]));
                        lemma_record_not_lt_transitive(r@[k], y, *x);
                        if record_lt(*x, r@[k]) {
                            lemma_record_lt_asymmetric(*x, r@[k]);
                        }
                    }
                }
            }
        }
        let ghost before = r@;
        let ghost before_pos = pos;
        let item = x.clone_record();
        r.insert(p, item);
        proof {
            pos = before_pos.insert(p as int, i as int);
            assert(r@ == before.insert(p as int, *x));
            assert forall|a: int, b: int| 0 <= a < b < r@.len() implies !record_lt(
                #[trigger] r@[b],
                #[trigger] r@[a],
            ) by {
                if a < p && b < p {
                    assert(r@[a] == before[a] && r@[b] == before[b]);
                } else if a < p && b == p {
                    assert(r@[a] == before[a]);
                    if record_lt(*x, before[a]) {
                    }
                } else if a < p && b > p {
                    assert(r@[a] == before[a] && r@[b] == before[b - 1]);
                } else if a == p {
                    assert(r@[b] == before[b - 1]);
                    lemma_record_lt_asymmetric(*x, before[b - 1]);
                } else {
                    assert(r@[a] == before[a - 1] && r@[b] == before[b - 1]);
                }
            }
            assert forall|k: int| 0 <= k < r@.len() implies 0 <= #[trigger] pos[k] < i + 1
                && r@[k] == given[pos[k]] by {
                if k < p {
                    assert(pos[k] == before_pos[k] && r@[k] == before[k]);
                } else if k == p {
                    assert(pos[k] == i && r@[k] == *x);
                } else {
                    assert(pos[k] == before_pos[k - 1] && r@[k] == before[k - 1]);
                }
            }
            assert forall|a: int, b: int|
                0 <= a < b < r@.len() && same_key(#[trigger] r@[a], #[trigger] r@[b]) implies pos[a]
                < pos[b] by {
                if a < p && b < p {
                    assert(r@[a] == before[a] && r@[b] == before[b]);
                    assert(pos[a] == before_pos[a] && pos[b] == before_pos[b]);
                } else if a < p && b == p {
                    assert(pos[a] == before_pos[a] && pos[b] == i);
                } else if a < p && b > p {
                    assert(r@[a] == before[a] && r@[b] == before[b - 1]);
                    assert(pos[a] == before_pos[a] && pos[b] == before_pos[b - 1]);
                } else if a == p {
                    assert(r@[b] == before[b - 1]);
                    assert(record_lt(*x, before[b - 1]));
                    lemma_lt_not_same_key(*x, before[b - 1]);
                } else {
                    assert(r@[a] == before[a - 1] && r@[b] == before[b - 1]);
                    assert(pos[a] == before_pos[a - 1] && pos[b] == before_pos[b - 1]);
                }
            }
            assert(r@.remove(p as int) =~= before);
            assert(r@[p as int] == *x);
            assert(given.subrange(0, i + 1) =~= given.subrange(0, i as int).push(*x));
            assert(r@.to_multiset() =~= before.to_multiset().insert(*x));
        }
        i = i + 1;
    }
    assert(given.subrange(0, n as int) =~= given);
    assert(stable_arrangement(given, r@, pos));
    r
}

} // verus!
