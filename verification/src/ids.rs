//! Identifiers of chains, groups and regions, and the position hash that
//! places a chain in the hierarchy.
use vstd::prelude::*;

use crate::consts::{CHAINS_PER_GROUP, GROUPS_PER_REGION};
use crate::crypto::{sha256, sha256_spec};
use crate::seqs::append_bytes;

verus! {

/// The decimal digits of `n`, most significant first, without leading zeros
/// ("0" for zero).
pub open spec fn decimal(n: nat) -> Seq<char>
    decreases n,
{
    if n < 10 {
        seq![(n + 48) as char]
    } else {
        decimal(n / 10).push(((n % 10) + 48) as char)
    }
}

/// `s` preceded by as many '0' as it takes to reach `width` characters.
pub open spec fn zero_padded(s: Seq<char>, width: nat) -> Seq<char> {
    if s.len() >= width {
        s
    } else {
        Seq::new((width - s.len()) as nat, |i: int| '0') + s
    }
}

/// `decimal` has at least one digit, and at least two from 10 on; each is
/// an ASCII digit, and the first is not '0' unless `n` is zero.
pub proof fn lemma_decimal_shape(n: nat)
    ensures
        decimal(n).len() >= 1,
        n >= 10 ==> decimal(n).len() >= 2,
        forall|i: int| 0 <= i < decimal(n).len() ==> '0' <= #[trigger] decimal(n)[i] <= '9',
        n > 0 ==> decimal(n)[0] != '0',
    decreases n,
{
    if n >= 10 {
        lemma_decimal_shape(n / 10);
        let prev = decimal(n / 10);
        assert(decimal(n) == prev.push(((n % 10) + 48) as char));
        assert forall|i: int| 0 <= i < decimal(n).len() implies '0' <= #[trigger] decimal(n)[i] <= '9' by {
            if i < prev.len() {
                assert(decimal(n)[i] == prev[i]);
            }
        }
        assert(decimal(n)[0] == prev[0]);
    }
}

/// Different numbers have different decimal digits.
pub proof fn lemma_decimal_injective(n: nat, m: nat)
    requires
        decimal(n) == decimal(m),
    ensures
        n == m,
    decreases n,
{
    lemma_decimal_shape(n);
    lemma_decimal_shape(m);
    if n < 10 && m < 10 {
        assert(decimal(n)[0] == decimal(m)[0]);
        assert(((n + 48) as char) as int == n + 48);
        assert(((m + 48) as char) as int == m + 48);
        assert(n == m);
    } else if n >= 10 && m >= 10 {
        assert(decimal(n).drop_last() =~= decimal(n / 10));
        assert(decimal(m).drop_last() =~= decimal(m / 10));
        lemma_decimal_injective(n / 10, m / 10);
        assert(decimal(n) == decimal(n / 10).push(((n % 10) + 48) as char));
        assert(decimal(m) == decimal(m / 10).push(((m % 10) + 48) as char));
        assert(decimal(n).last() == ((n % 10) + 48) as char);
        assert(decimal(m).last() == ((m % 10) + 48) as char);
        assert(((n % 10) + 48) as char == ((m % 10) + 48) as char);
        assert(((n % 10 + 48) as char) as int == n % 10 + 48);
        assert(((m % 10 + 48) as char) as int == m % 10 + 48);
        vstd::arithmetic::div_mod::lemma_fundamental_div_mod(n as int, 10);
        vstd::arithmetic::div_mod::lemma_fundamental_div_mod(m as int, 10);
        assert(n % 10 == m % 10);
        assert(n / 10 == m / 10);
        assert(n == m);
    } else {
        assert(decimal(n).len() != decimal(m).len());
    }
}

/// Zero-padding keeps different numbers apart.
pub proof fn lemma_zero_padded_decimal_injective(n: nat, m: nat, width: nat)
    requires
        zero_padded(decimal(n), width) == zero_padded(decimal(m), width),
    ensures
        n == m,
{
    lemma_decimal_shape(n);
    lemma_decimal_shape(m);
    let dn = decimal(n);
    let dm = decimal(m);
    let pn = zero_padded(dn, width);
    let pm = zero_padded(dm, width);
    if dn.len() == dm.len() {
        if dn.len() < width {
            assert(dn =~= pn.subrange(width - dn.len(), width as int));
            assert(dm =~= pm.subrange(width - dm.len(), width as int));
        }
        lemma_decimal_injective(n, m);
    } else if dn.len() < dm.len() {
        // pm starts with the first digit of m, which is not '0' (m > 0 as it
        // has more than one digit); pn holds a '0' there.
        assert(m > 0) by {
            if m == 0 {
                assert(decimal(0) == seq![48 as char]);
            }
        }
        let at = pm.len() - dm.len();
        assert(pm[at] == dm[0]);
        assert(pn[at] == '0');
    } else {
        assert(n > 0) by {
            if n == 0 {
                assert(decimal(0) == seq![48 as char]);
            }
        }
        let at = pn.len() - dn.len();
        assert(pn[at] == dn[0]);
        assert(pm[at] == '0');
    }
}

/// The string of one decimal digit.
fn digit_str(d: u32) -> (s: &'static str)
    requires
        d < 10,
    ensures
        s@ == seq![(d + 48) as char],
{
    proof {
        reveal_strlit("0");
        reveal_strlit("1");
        reveal_strlit("2");
        reveal_strlit("3");
        reveal_strlit("4");
        reveal_strlit("5");
        reveal_strlit("6");
        reveal_strlit("7");
        reveal_strlit("8");
        reveal_strlit("9");
    }
    match d {
        0 => "0",
        1 => "1",
        2 => "2",
        3 => "3",
        4 => "4",
        5 => "5",
        6 => "6",
        7 => "7",
        8 => "8",
        _ => "9",
    }
}

/// The decimal digits of `n`, zero-padded to at least `width` characters
/// (what `format!("{:0width$}", n)` writes).
pub fn format_zero_padded(n: u64, width: usize) -> (s: String)
    ensures
        s@ == zero_padded(decimal(n as nat), width as nat),
{
    let mut digits: Vec<u32> = Vec::new();
    let mut m: u64 = n;
    loop
        invariant
            forall|k: int| 0 <= k < digits@.len() ==> #[trigger] digits@[k] < 10,
            decimal(n as nat) == decimal(m as nat) + Seq::new(
                digits@.len(),
                |k: int| (digits@[digits@.len() - 1 - k] + 48) as char,
            ),
        ensures
            m < 10,
            forall|k: int| 0 <= k < digits@.len() ==> #[trigger] digits@[k] < 10,
            decimal(n as nat) == decimal(m as nat) + Seq::new(
                digits@.len(),
                |k: int| (digits@[digits@.len() - 1 - k] + 48) as char,
            ),
        decreases m,
    {
        if m < 10 {
            break;
        }
        let ghost old_digits = digits@;
        let ghost old_m = m;
        digits.push((m % 10) as u32);
        m = m / 10;
        proof {
            assert(decimal(old_m as nat) == decimal(m as nat).push(((old_m % 10) + 48) as char));
            assert(decimal(m as nat).push(((old_m % 10) + 48) as char) + Seq::new(
                old_digits.len(),
                |k: int| (old_digits[old_digits.len() - 1 - k] + 48) as char,
            ) =~= decimal(m as nat) + Seq::new(digits@.len(), |k: int| (digits@[digits@.len() - 1 - k] + 48) as char));
        }
    }
    let ghost core = decimal(n as nat);
    assert(decimal(m as nat) == seq![(m + 48) as char]);
    let pad_count: usize = if width > digits.len() && width - digits.len() > 1 {
        width - digits.len() - 1
    } else {
        0
    };
    let mut s = String::new();
    let mut pad: usize = 0;
    while pad < pad_count
        invariant
            pad <= pad_count,
            s@ =~= Seq::new(pad as nat, |i: int| '0'),
        decreases pad_count - pad,
    {
        proof {
            reveal_strlit("0");
        }
        s.append("0");
        pad = pad + 1;
    }
    s.append(digit_str(m as u32));
    let mut k: usize = digits.len();
    while k > 0
        invariant
            k <= digits@.len(),
            forall|j: int| 0 <= j < digits@.len() ==> #[trigger] digits@[j] < 10,
            s@ =~= Seq::new(pad_count as nat, |i: int| '0') + seq![(m + 48) as char] + Seq::new(
                (digits@.len() - k) as nat,
                |j: int| (digits@[digits@.len() - 1 - j] + 48) as char,
            ),
        decreases k,
    {
        k = k - 1;
        s.append(digit_str(digits[k]));
    }
    assert(core.len() == digits@.len() + 1);
    assert(s@ =~= zero_padded(core, width as nat));
    s
}

/// The identifier of the group that chain number `chain_count` falls in:
/// `group_` and the group number zero-padded to six digits.
pub open spec fn group_id_spec(chain_count: u32) -> Seq<char> {
    "group_"@ + zero_padded(decimal((chain_count / CHAINS_PER_GROUP) as nat), 6)
}

/// The identifier of the region that group number `group_count` falls in:
/// `region_` and the region number zero-padded to three digits.
pub open spec fn region_id_spec(group_count: u32) -> Seq<char> {
    "region_"@ + zero_padded(decimal((group_count / GROUPS_PER_REGION) as nat), 3)
}

/// The group identifier for a chain count (`group_id_spec`).
pub fn generate_group_id(chain_count: u32) -> (id: String)
    ensures
        id@ == group_id_spec(chain_count),
{
    let mut id = String::from_str("group_");
    let number = format_zero_padded((chain_count / CHAINS_PER_GROUP) as u64, 6);
    id.append(number.as_str());
    id
}

/// The region identifier for a group count (`region_id_spec`).
pub fn generate_region_id(group_count: u32) -> (id: String)
    ensures
        id@ == region_id_spec(group_count),
{
    let mut id = String::from_str("region_");
    let number = format_zero_padded((group_count / GROUPS_PER_REGION) as u64, 3);
    id.append(number.as_str());
    id
}

/// The identifier of a chain: SHA-256 of the data file hash followed by
/// the owner's key.
pub open spec fn chain_id_spec(public_key: Seq<u8>, data_file_hash: Seq<u8>) -> Seq<u8> {
    sha256_spec(data_file_hash + public_key)
}

/// Computes a chain identifier (`chain_id_spec`).
pub fn generate_chain_id(public_key: &[u8], data_file_hash: &[u8]) -> (id: Vec<u8>)
    ensures
        id@ == chain_id_spec(public_key@, data_file_hash@),
        id@.len() == 32,
{
    let mut data: Vec<u8> = Vec::new();
    append_bytes(&mut data, data_file_hash);
    append_bytes(&mut data, public_key);
    sha256(data.as_slice())
}

/// SHA-256 of two byte strings one after the other.
pub fn compute_sha256_from_slices(left: &[u8], right: &[u8]) -> (h: Vec<u8>)
    ensures
        h@ == sha256_spec(left@ + right@),
        h@.len() == 32,
{
    let mut data: Vec<u8> = Vec::new();
    append_bytes(&mut data, left);
    append_bytes(&mut data, right);
    sha256(data.as_slice())
}

/// The position hash of a chain: SHA-256 of its identifier and the UTF-8
/// bytes of its group and region identifiers.
pub open spec fn hierarchical_position_spec(chain_id: Seq<u8>, group_id: Seq<char>, region_id: Seq<char>) -> Seq<u8> {
    sha256_spec(chain_id + vstd::utf8::encode_utf8(group_id) + vstd::utf8::encode_utf8(region_id))
}

/// Computes the position hash of a chain (`hierarchical_position_spec`).
pub fn compute_hierarchical_position(chain_id: &Vec<u8>, group_id: &String, region_id: &String) -> (h: Vec<u8>)
    ensures
        h@ == hierarchical_position_spec(chain_id@, group_id@, region_id@),
        h@.len() == 32,
{
    let mut data: Vec<u8> = Vec::new();
    append_bytes(&mut data, chain_id.as_slice());
    append_bytes(&mut data, group_id.as_str().as_bytes());
    append_bytes(&mut data, region_id.as_str().as_bytes());
    sha256(data.as_slice())
}

} // verus!
