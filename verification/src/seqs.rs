//! Small verified helpers on byte vectors and index sequences: appending,
//! membership, sorting, and the counting fact that a short sequence leaves a
//! value of a range unused.
use vstd::prelude::*;
use vstd::relations::*;
use vstd::seq_lib::*;
use vstd::set_lib::*;

verus! {

broadcast use vstd::seq_lib::group_to_multiset_ensures;

/// Appends the bytes of `b` to `v` (`Vec::extend_from_slice`).
pub fn append_bytes(v: &mut Vec<u8>, b: &[u8])
    ensures
        final(v)@ == old(v)@ + b@,
{
    let ghost start = v@;
    let mut i: usize = 0;
    while i < b.len()
        invariant
            i <= b@.len(),
            v@ == start + b@.subrange(0, i as int),
        decreases b@.len() - i,
    {
        v.push(b[i]);
        i = i + 1;
        assert(v@ =~= start + b@.subrange(0, i as int));
    }
    assert(b@.subrange(0, b@.len() as int) =~= b@);
}

/// The bytes of `a` followed by those of `b`.
pub fn concat_bytes(a: &[u8], b: &[u8]) -> (r: Vec<u8>)
    ensures
        r@ == a@ + b@,
{
    let mut r: Vec<u8> = Vec::new();
    append_bytes(&mut r, a);
    append_bytes(&mut r, b);
    assert(r@ =~= a@ + b@);
    r
}

/// Copies a byte slice into a new vector.
pub fn copy_bytes(a: &[u8]) -> (r: Vec<u8>)
    ensures
        r@ == a@,
{
    let mut r: Vec<u8> = Vec::new();
    append_bytes(&mut r, a);
    assert(r@ =~= a@);
    r
}

/// Whether `v` holds `x`.
pub fn contains_u32(v: &Vec<u32>, x: u32) -> (found: bool)
    ensures
        found == v@.contains(x),
{
    let mut i: usize = 0;
    while i < v.len()
        invariant
            i <= v@.len(),
            forall|j: int| 0 <= j < i ==> v@[j] != x,
        decreases v@.len() - i,
    {
        if v[i] == x {
            assert(v@[i as int] == x);
            return true;
        }
        i = i + 1;
    }
    false
}

/// Whether two byte slices are equal.
pub fn bytes_equal(a: &[u8], b: &[u8]) -> (eq: bool)
    ensures
        eq == (a@ == b@),
{
    if a.len() != b.len() {
        return false;
    }
    let mut i: usize = 0;
    while i < a.len()
        invariant
            i <= a@.len(),
            a@.len() == b@.len(),
            forall|j: int| 0 <= j < i ==> a@[j] == b@[j],
        decreases a@.len() - i,
    {
        if a[i] != b[i] {
            return false;
        }
        i = i + 1;
    }
    assert(a@ =~= b@);
    true
}

/// Whether two index sequences are equal.
pub fn u32s_equal(a: &[u32], b: &[u32]) -> (eq: bool)
    ensures
        eq == (a@ == b@),
{
    if a.len() != b.len() {
        return false;
    }
    let mut i: usize = 0;
    while i < a.len()
        invariant
            i <= a@.len(),
            a@.len() == b@.len(),
            forall|j: int| 0 <= j < i ==> a@[j] == b@[j],
        decreases a@.len() - i,
    {
        if a[i] != b[i] {
            return false;
        }
        i = i + 1;
    }
    assert(a@ =~= b@);
    true
}

/// The ascending order on `u32`.
pub open spec fn u32_leq() -> spec_fn(u32, u32) -> bool {
    |a: u32, b: u32| a <= b
}

/// `u32_leq` is a total order.
pub proof fn lemma_u32_leq_total()
    ensures
        total_ordering(u32_leq()),
{
    let leq = u32_leq();
    assert(reflexive(leq));
    assert(antisymmetric(leq));
    assert(transitive(leq));
    assert(strongly_connected(leq));
}

/// Ascending sort of a sequence of indices, as `slice::sort` leaves it.
pub open spec fn sorted_u32(s: Seq<u32>) -> Seq<u32> {
    s.sort_by(u32_leq())
}

/// Sorts `v` in ascending order (insertion sort).
pub fn sort_u32(v: &Vec<u32>) -> (r: Vec<u32>)
    ensures
        r@ == sorted_u32(v@),
{
    let mut r: Vec<u32> = Vec::new();
    let mut i: usize = 0;
    while i < v.len()
        invariant
            i <= v@.len(),
            sorted_by(r@, u32_leq()),
            r@.to_multiset() == v@.subrange(0, i as int).to_multiset(),
        decreases v@.len() - i,
    {
        let x = v[i];
        let mut pos: usize = 0;
        while pos < r.len() && r[pos] <= x
            invariant
                pos <= r@.len(),
                forall|j: int| 0 <= j < pos ==> r@[j] <= x,
            decreases r@.len() - pos,
        {
            pos = pos + 1;
        }
        let ghost old_r = r@;
        r.insert(pos, x);
        assert(r@ =~= old_r.subrange(0, pos as int) + seq![x] + old_r.subrange(pos as int, old_r.len() as int));
        assert(sorted_by(r@, u32_leq())) by {
            assert forall|a: int, b: int| 0 <= a < b < r@.len() implies #[trigger] (u32_leq())(r@[a], r@[b]) by {
                if b < pos {
                    assert((u32_leq())(old_r[a], old_r[b]));
                } else if b == pos {
                    assert(r@[a] == old_r[a]);
                } else if a == pos {
                    if pos < old_r.len() {
                        assert(old_r[pos as int] > x);
                        assert((u32_leq())(old_r[pos as int], old_r[b - 1]));
                    }
                } else if a < pos {
                    assert((u32_leq())(old_r[a], old_r[b - 1]));
                } else {
                    assert((u32_leq())(old_r[a - 1], old_r[b - 1]));
                }
            }
        }
        assert(v@.subrange(0, i + 1) =~= v@.subrange(0, i as int).push(x));
        i = i + 1;
    }
    assert(v@.subrange(0, v@.len() as int) =~= v@);
    proof {
        lemma_u32_leq_total();
        v@.lemma_sort_by_ensures(u32_leq());
        lemma_sorted_unique(r@, sorted_u32(v@), u32_leq());
    }
    r
}

/// Whether `c` is a `u32` value that `used` does not hold.
pub open spec fn unused_value(used: Seq<u32>, c: int) -> bool {
    !used.contains(c as u32)
}

/// A sequence shorter than `n` leaves some value below `n` out.
pub proof fn lemma_exists_unused(used: Seq<u32>, n: int)
    requires
        used.len() < n,
        n <= u32::MAX + 1,
    ensures
        exists|c: int| 0 <= c < n && #[trigger] unused_value(used, c),
{
    if forall|c: int| 0 <= c < n ==> !#[trigger] unused_value(used, c) {
        let ints = used.map_values(|x: u32| x as int);
        let s = ints.to_set();
        lemma_int_range(0, n);
        assert forall|c: int| set_int_range(0, n).contains(c) implies s.contains(c) by {
            assert(!unused_value(used, c));
            let k = choose|k: int| 0 <= k < used.len() && used[k] == c as u32;
            assert(ints[k] == c);
        }
        ints.lemma_cardinality_of_set();
        lemma_len_subset(set_int_range(0, n), s);
        assert(false);
    }
}

/// Sequences with no repeated element.
pub open spec fn distinct_u32(s: Seq<u32>) -> bool {
    forall|i: int, j: int| 0 <= i < j < s.len() ==> s[i] != s[j]
}

/// The byte sequences held by a list of byte vectors.
pub open spec fn byte_views(v: Seq<Vec<u8>>) -> Seq<Seq<u8>> {
    v.map_values(|b: Vec<u8>| b@)
}

/// The concatenation of a list of byte sequences.
pub open spec fn flatten_bytes(s: Seq<Seq<u8>>) -> Seq<u8>
    decreases s.len(),
{
    if s.len() == 0 {
        Seq::empty()
    } else {
        flatten_bytes(s.drop_last()) + s.last()
    }
}

/// Whether every byte sequence of a list has length `n`.
pub open spec fn all_of_len(s: Seq<Seq<u8>>, n: nat) -> bool {
    forall|i: int| 0 <= i < s.len() ==> #[trigger] s[i].len() == n
}

/// Appends every byte vector of `parts` to `out`, in order.
pub fn append_all_bytes(out: &mut Vec<u8>, parts: &Vec<Vec<u8>>)
    ensures
        final(out)@ == old(out)@ + flatten_bytes(byte_views(parts@)),
{
    let ghost start = out@;
    let mut i: usize = 0;
    while i < parts.len()
        invariant
            i <= parts@.len(),
            out@ == start + flatten_bytes(byte_views(parts@.subrange(0, i as int))),
        decreases parts@.len() - i,
    {
        append_bytes(out, parts[i].as_slice());
        assert(byte_views(parts@.subrange(0, i + 1)).drop_last() =~= byte_views(parts@.subrange(0, i as int)));
        assert(out@ =~= start + flatten_bytes(byte_views(parts@.subrange(0, i + 1))));
        i = i + 1;
    }
    assert(parts@.subrange(0, parts@.len() as int) =~= parts@);
}

/// Whether every byte vector of `parts` has `n` bytes.
pub fn all_have_len(parts: &Vec<Vec<u8>>, n: usize) -> (ok: bool)
    ensures
        ok == all_of_len(byte_views(parts@), n as nat),
{
    let mut i: usize = 0;
    while i < parts.len()
        invariant
            i <= parts@.len(),
            forall|j: int| 0 <= j < i ==> #[trigger] parts@[j]@.len() == n,
        decreases parts@.len() - i,
    {
        if parts[i].len() != n {
            assert(byte_views(parts@)[i as int].len() != n);
            return false;
        }
        i = i + 1;
    }
    assert forall|j: int| 0 <= j < byte_views(parts@).len() implies #[trigger] byte_views(parts@)[j].len() == n by {
        assert(parts@[j]@.len() == n);
    }
    true
}

/// Copies a list of byte vectors.
pub fn copy_byte_vecs(v: &Vec<Vec<u8>>) -> (r: Vec<Vec<u8>>)
    ensures
        byte_views(r@) == byte_views(v@),
{
    let mut r: Vec<Vec<u8>> = Vec::new();
    let mut i: usize = 0;
    while i < v.len()
        invariant
            i <= v@.len(),
            r@.len() == i,
            byte_views(r@) =~= byte_views(v@.subrange(0, i as int)),
        decreases v@.len() - i,
    {
        let ghost before = r@;
        let c = copy_bytes(v[i].as_slice());
        r.push(c);
        assert forall|j: int| 0 <= j < i + 1 implies #[trigger] byte_views(r@)[j] == byte_views(
            v@.subrange(0, i + 1),
        )[j] by {
            if j < i {
                assert(r@[j] == before[j]);
                assert(byte_views(before)[j] == byte_views(v@.subrange(0, i as int))[j]);
            }
        }
        assert(byte_views(r@) =~= byte_views(v@.subrange(0, i + 1)));
        i = i + 1;
    }
    assert(v@.subrange(0, v@.len() as int) =~= v@);
    r
}

/// Copies a list of indices.
pub fn copy_u32s(v: &Vec<u32>) -> (r: Vec<u32>)
    ensures
        r@ == v@,
{
    let mut r: Vec<u32> = Vec::new();
    let mut i: usize = 0;
    while i < v.len()
        invariant
            i <= v@.len(),
            r@ == v@.subrange(0, i as int),
        decreases v@.len() - i,
    {
        r.push(v[i]);
        i = i + 1;
    }
    assert(v@.subrange(0, v@.len() as int) =~= v@);
    r
}

} // verus!
