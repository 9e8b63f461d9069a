//! A canonical order on chain commitments: lexicographic on the chain
//! identifier, then on the commitment. Sorting by it makes a result depend
//! only on which entries are given, not on the order they come in.
use vstd::prelude::*;
use vstd::relations::{antisymmetric, reflexive, sorted_by, strongly_connected, total_ordering, transitive};

use crate::groups::{commitments_long_enough, ChainCommitment};

verus! {

/// Lexicographic order on byte strings: a proper prefix comes first.
pub open spec fn bytes_leq(a: Seq<u8>, b: Seq<u8>) -> bool
    decreases a.len(),
{
    if a.len() == 0 {
        true
    } else if b.len() == 0 {
        false
    } else if a[0] < b[0] {
        true
    } else if a[0] > b[0] {
        false
    } else {
        bytes_leq(a.drop_first(), b.drop_first())
    }
}

/// `bytes_leq` is reflexive and total.
proof fn lemma_bytes_leq_refl_total(a: Seq<u8>, b: Seq<u8>)
    ensures
        bytes_leq(a, a),
        bytes_leq(a, b) || bytes_leq(b, a),
    decreases a.len(),
{
    if a.len() > 0 {
        lemma_bytes_leq_refl_total(a.drop_first(), a.drop_first());
        if b.len() > 0 {
            lemma_bytes_leq_refl_total(a.drop_first(), b.drop_first());
        }
    }
}

/// `bytes_leq` is antisymmetric.
proof fn lemma_bytes_leq_antisym(a: Seq<u8>, b: Seq<u8>)
    requires
        bytes_leq(a, b),
        bytes_leq(b, a),
    ensures
        a == b,
    decreases a.len(),
{
    if a.len() == 0 {
        assert(b.len() == 0);
        assert(a =~= b);
    } else {
        assert(b.len() > 0);
        assert(a[0] == b[0]);
        lemma_bytes_leq_antisym(a.drop_first(), b.drop_first());
        assert(a =~= seq![a[0]] + a.drop_first());
        assert(b =~= seq![b[0]] + b.drop_first());
    }
}

/// `bytes_leq` is transitive.
proof fn lemma_bytes_leq_trans(a: Seq<u8>, b: Seq<u8>, c: Seq<u8>)
    requires
        bytes_leq(a, b),
        bytes_leq(b, c),
    ensures
        bytes_leq(a, c),
    decreases a.len(),
{
    if a.len() > 0 {
        assert(b.len() > 0);
        assert(c.len() > 0);
        if a[0] == b[0] && b[0] == c[0] {
            lemma_bytes_leq_trans(a.drop_first(), b.drop_first(), c.drop_first());
        }
    }
}

/// The view of a commitment entry: its chain identifier and commitment.
pub open spec fn entry_view(e: ChainCommitment) -> (Seq<u8>, Seq<u8>) {
    (e.chain_id@, e.commitment@)
}

/// The views of a list of entries.
pub open spec fn entry_views(s: Seq<ChainCommitment>) -> Seq<(Seq<u8>, Seq<u8>)> {
    s.map_values(|e: ChainCommitment| entry_view(e))
}

/// The canonical order on entries: by chain identifier, then by commitment.
pub open spec fn entry_leq() -> spec_fn((Seq<u8>, Seq<u8>), (Seq<u8>, Seq<u8>)) -> bool {
    |x: (Seq<u8>, Seq<u8>), y: (Seq<u8>, Seq<u8>)|
        if x.0 == y.0 {
            bytes_leq(x.1, y.1)
        } else {
            bytes_leq(x.0, y.0)
        }
}

/// The entries in canonical order.
pub open spec fn canonical_entries(entries: Seq<(Seq<u8>, Seq<u8>)>) -> Seq<(Seq<u8>, Seq<u8>)> {
    entries.sort_by(entry_leq())
}

/// `entry_leq` is a total order.
pub proof fn lemma_entry_leq_total()
    ensures
        total_ordering(entry_leq()),
{
    let ghost leq = entry_leq();
    assert forall|x: (Seq<u8>, Seq<u8>)| #[trigger] leq(x, x) by {
        lemma_bytes_leq_refl_total(x.1, x.1);
    }
    assert(reflexive(leq));
    assert forall|x: (Seq<u8>, Seq<u8>), y: (Seq<u8>, Seq<u8>)| #[trigger] leq(x, y) && #[trigger] leq(y, x) implies x
        == y by {
        if x.0 == y.0 {
            lemma_bytes_leq_antisym(x.1, y.1);
        } else {
            lemma_bytes_leq_antisym(x.0, y.0);
        }
    }
    assert(antisymmetric(leq));
    assert forall|x: (Seq<u8>, Seq<u8>), y: (Seq<u8>, Seq<u8>), z: (Seq<u8>, Seq<u8>)|
        #[trigger] leq(x, y) && #[trigger] leq(y, z) implies #[trigger] leq(x, z) by {
        if x.0 == y.0 && y.0 == z.0 {
            lemma_bytes_leq_trans(x.1, y.1, z.1);
        } else if x.0 == y.0 {
            assert(bytes_leq(x.0, z.0));
        } else if y.0 == z.0 {
            assert(bytes_leq(x.0, z.0));
        } else {
            lemma_bytes_leq_trans(x.0, y.0, z.0);
            if x.0 == z.0 {
                lemma_bytes_leq_antisym(x.0, y.0);
            }
        }
    }
    assert(transitive(leq));
    assert forall|x: (Seq<u8>, Seq<u8>), y: (Seq<u8>, Seq<u8>)| #[trigger] leq(x, y) || #[trigger] leq(y, x) by {
        lemma_bytes_leq_refl_total(x.0, y.0);
        lemma_bytes_leq_refl_total(x.1, y.1);
    }
    assert(strongly_connected(leq));
}

/// Two lists with the same entries, in any order, have the same canonical
/// order.
pub proof fn lemma_canonical_order_independent(a: Seq<(Seq<u8>, Seq<u8>)>, b: Seq<(Seq<u8>, Seq<u8>)>)
    requires
        a.to_multiset() == b.to_multiset(),
    ensures
        canonical_entries(a) == canonical_entries(b),
{
    lemma_entry_leq_total();
    a.lemma_sort_by_ensures(entry_leq());
    b.lemma_sort_by_ensures(entry_leq());
    vstd::seq_lib::lemma_sorted_unique(canonical_entries(a), canonical_entries(b), entry_leq());
}


/// Compares two byte strings lexicographically (`bytes_leq`).
fn bytes_le(a: &[u8], b: &[u8]) -> (r: bool)
    ensures
        r == bytes_leq(a@, b@),
{
    let mut i: usize = 0;
    assert(a@.subrange(0, a@.len() as int) =~= a@);
    assert(b@.subrange(0, b@.len() as int) =~= b@);
    while i < a.len() && i < b.len() && a[i] == b[i]
        invariant
            i <= a@.len(),
            i <= b@.len(),
            bytes_leq(a@, b@) == bytes_leq(a@.subrange(i as int, a@.len() as int), b@.subrange(i as int, b@.len() as int)),
        decreases a@.len() - i,
    {
        let ghost sa = a@.subrange(i as int, a@.len() as int);
        let ghost sb = b@.subrange(i as int, b@.len() as int);
        assert(sa.drop_first() =~= a@.subrange(i + 1, a@.len() as int));
        assert(sb.drop_first() =~= b@.subrange(i + 1, b@.len() as int));
        i = i + 1;
    }
    let ghost sa = a@.subrange(i as int, a@.len() as int);
    let ghost sb = b@.subrange(i as int, b@.len() as int);
    if i == a.len() {
        true
    } else if i == b.len() {
        false
    } else {
        assert(sa[0] == a@[i as int] && sb[0] == b@[i as int]);
        a[i] < b[i]
    }
}

/// Compares two entries in the canonical order (`entry_leq`).
fn entry_le(x: &ChainCommitment, y: &ChainCommitment) -> (r: bool)
    ensures
        r == (entry_leq())(entry_view(*x), entry_view(*y)),
{
    if crate::seqs::bytes_equal(x.chain_id.as_slice(), y.chain_id.as_slice()) {
        bytes_le(x.commitment.as_slice(), y.commitment.as_slice())
    } else {
        bytes_le(x.chain_id.as_slice(), y.chain_id.as_slice())
    }
}

/// A copy of an entry.
fn copy_entry_of(e: &ChainCommitment) -> (r: ChainCommitment)
    ensures
        entry_view(r) == entry_view(*e),
{
    ChainCommitment {
        chain_id: crate::seqs::copy_bytes(e.chain_id.as_slice()),
        commitment: crate::seqs::copy_bytes(e.commitment.as_slice()),
    }
}

/// The entries in canonical order (insertion sort).
pub fn sort_entries(v: &Vec<ChainCommitment>) -> (r: Vec<ChainCommitment>)
    ensures
        entry_views(r@) == canonical_entries(entry_views(v@)),
        r@.len() == v@.len(),
        commitments_long_enough(v@) ==> commitments_long_enough(r@),
{
    proof {
        lemma_entry_leq_total();
    }
    let ghost leq = entry_leq();
    let mut r: Vec<ChainCommitment> = Vec::new();
    let mut i: usize = 0;
    assert(entry_views(r@) =~= Seq::<(Seq<u8>, Seq<u8>)>::empty());
    assert(entry_views(v@.subrange(0, 0)) =~= Seq::<(Seq<u8>, Seq<u8>)>::empty());
    while i < v.len()
        invariant
            i <= v@.len(),
            leq == entry_leq(),
            total_ordering(leq),
            sorted_by(entry_views(r@), leq),
            entry_views(r@).to_multiset() == entry_views(v@.subrange(0, i as int)).to_multiset(),
            commitments_long_enough(v@) ==> commitments_long_enough(r@),
        decreases v@.len() - i,
    {
        let x = copy_entry_of(&v[i]);
        let ghost xv = entry_view(x);
        let mut pos: usize = 0;
        while pos < r.len() && entry_le(&r[pos], &x)
            invariant
                pos <= r@.len(),
                leq == entry_leq(),
                xv == entry_view(x),
                forall|j: int| 0 <= j < pos ==> leq(#[trigger] entry_views(r@)[j], xv),
            decreases r@.len() - pos,
        {
            assert(entry_views(r@)[pos as int] == entry_view(r@[pos as int]));
            pos = pos + 1;
        }
        let ghost old_r = r@;
        let ghost ov = entry_views(old_r);
        r.insert(pos, x);
        assert(r@ =~= old_r.subrange(0, pos as int) + seq![x] + old_r.subrange(pos as int, old_r.len() as int));
        assert(entry_views(r@) =~= ov.subrange(0, pos as int) + seq![xv] + ov.subrange(pos as int, ov.len() as int));
        assert(sorted_by(entry_views(r@), leq)) by {
            let nv = entry_views(r@);
            assert forall|a: int, b: int| 0 <= a < b < nv.len() implies #[trigger] leq(nv[a], nv[b]) by {
                if b < pos {
                    assert(leq(ov[a], ov[b]));
                } else if b == pos {
                    assert(nv[a] == ov[a]);
                    assert(leq(ov[a], xv));
                } else if a == pos {
                    assert(!leq(ov[pos as int], xv));
                    assert(leq(xv, ov[pos as int]));
                    if pos as int != b - 1 {
                        assert(leq(ov[pos as int], ov[b - 1]));
                    }
                } else if a < pos {
                    assert(leq(ov[a], ov[b - 1]));
                } else {
                    assert(leq(ov[a - 1], ov[b - 1]));
                }
            }
        }
        assert(v@.subrange(0, i + 1) =~= v@.subrange(0, i as int).push(v@[i as int]));
        assert(entry_views(v@.subrange(0, i + 1)) =~= entry_views(v@.subrange(0, i as int)).push(xv));
        proof {
            vstd::seq_lib::lemma_multiset_commutative(ov.subrange(0, pos as int), seq![xv] + ov.subrange(pos as int, ov.len() as int));
            vstd::seq_lib::lemma_multiset_commutative(seq![xv], ov.subrange(pos as int, ov.len() as int));
            vstd::seq_lib::lemma_multiset_commutative(ov.subrange(0, pos as int), ov.subrange(pos as int, ov.len() as int));
            assert(ov.subrange(0, pos as int) + ov.subrange(pos as int, ov.len() as int) =~= ov);
            assert(ov.subrange(0, pos as int) + (seq![xv] + ov.subrange(pos as int, ov.len() as int)) =~= entry_views(r@));
            entry_views(v@.subrange(0, i as int)).to_multiset_ensures();
            seq![xv].to_multiset_ensures();
            Seq::<(Seq<u8>, Seq<u8>)>::empty().to_multiset_ensures();
            assert(seq![xv] =~= Seq::<(Seq<u8>, Seq<u8>)>::empty().push(xv));
            if commitments_long_enough(v@) {
                assert forall|j: int| 0 <= j < r@.len() implies #[trigger] r@[j].commitment@.len() >= 32 by {
                    if j < pos {
                        assert(r@[j] == old_r[j]);
                    } else if j > pos {
                        assert(r@[j] == old_r[j - 1]);
                    } else {
                        assert(r@[j].commitment@ == v@[i as int].commitment@);
                    }
                }
            }
        }
        i = i + 1;
    }
    assert(v@.subrange(0, v@.len() as int) =~= v@);
    proof {
        entry_views(v@).lemma_sort_by_ensures(leq);
        vstd::seq_lib::lemma_sorted_unique(entry_views(r@), canonical_entries(entry_views(v@)), leq);
        entry_views(r@).to_multiset_ensures();
        entry_views(v@).to_multiset_ensures();
    }
    r
}

} // verus!
