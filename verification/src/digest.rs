//! Content digests: a hash of the bytes, written in lower-case hexadecimal
//! without leading zeros.

use vstd::prelude::*;
use vstd::string::StringExecFns;
use vstd::utf8::is_ascii_chars;

verus! {

/// The sixteen digits in order of their value.
pub open spec fn digits() -> Seq<char> {
    "0123456789abcdef"@
}

/// The digits of `n` in base sixteen, the most significant first.
pub open spec fn hex_text(n: nat) -> Seq<char>
    decreases n,
{
    if n < 16 {
        seq![digits()[n as int]]
    } else {
        hex_text(n / 16).push(digits()[(n % 16) as int])
    }
}

/// The text of the digits whose values `ds` lists, the last value first.
pub open spec fn digits_reversed(ds: Seq<u8>) -> Seq<char>
    decreases ds.len(),
{
    if ds.len() == 0 {
        Seq::empty()
    } else {
        seq![digits()[ds.last() as int]] + digits_reversed(ds.drop_last())
    }
}

/// There are sixteen digits, all of them ASCII.
proof fn lemma_digits()
    ensures
        digits().len() == 16,
        is_ascii_chars(digits()),
{
    reveal_strlit("0123456789abcdef");
    assert(forall|i: int| 0 <= i < 16 ==> (digits()[i] as nat) < 128);
}

/// The hash of the bytes under the default hasher of `std` in its default
/// state, which no process seeds.
pub uninterp spec fn bytes_hash(bytes: Seq<u8>) -> u64;

/// Hashes the bytes with the default hasher of `std` in its default state,
/// through `std::hash::BuildHasher::hash_one`. The contract claims that the
/// number is fixed by the bytes: the hasher starts from a state that is the
/// same in every process.
#[verifier::external_body]
fn hash_bytes(bytes: &[u8]) -> (h: u64)
    ensures
        h == bytes_hash(bytes@),
{
    std::hash::BuildHasher::hash_one(
        &std::hash::BuildHasherDefault::<std::collections::hash_map::DefaultHasher>::default(),
        bytes,
    )
}

/// Writes `n` in lower-case hexadecimal.
pub fn to_hex(n: u64) -> (s: String)
    ensures
        s@ == hex_text(n as nat),
{
    let table = "0123456789abcdef";
    proof {
        lemma_digits();
    }
    // The values of the digits, the least significant first.
    let mut ds: Vec<u8> = Vec::new();
    let mut rest: u64 = n;
    while rest >= 16
        invariant
            digits().len() == 16,
            forall|i: int| 0 <= i < ds@.len() ==> ds@[i] < 16,
            hex_text(n as nat) == hex_text(rest as nat) + digits_reversed(ds@),
        decreases rest,
    {
        let d: u8 = (rest % 16) as u8;
        let ghost before = ds@;
        ds.push(d);
        proof {
            assert(ds@.drop_last() =~= before);
            assert(hex_text(rest as nat) == hex_text((rest / 16) as nat).push(digits()[d as int]));
            assert(hex_text((rest / 16) as nat).push(digits()[d as int]) + digits_reversed(before)
                =~= hex_text((rest / 16) as nat) + (seq![digits()[d as int]] + digits_reversed(before)));
        }
        rest = rest / 16;
    }
    let mut s = String::new();
    let first: usize = rest as usize;
    s.append(table.substring_ascii(first, first + 1));
    assert(s@ =~= hex_text(rest as nat));
    assert(ds@.take(ds@.len() as int) =~= ds@);
    let mut i: usize = ds.len();
    while i > 0
        invariant
            i <= ds@.len(),
            table@ == digits(),
            digits().len() == 16,
            table.is_ascii(),
            forall|j: int| 0 <= j < ds@.len() ==> ds@[j] < 16,
            s@ + digits_reversed(ds@.take(i as int)) == hex_text(n as nat),
        decreases i,
    {
        i -= 1;
        let d: usize = ds[i] as usize;
        let ghost before = s@;
        s.append(table.substring_ascii(d, d + 1));
        proof {
            let t = ds@.take(i + 1);
            assert(t.drop_last() =~= ds@.take(i as int));
            assert(t.last() == ds@[i as int]);
            assert(table@.subrange(d as int, d + 1) =~= seq![digits()[d as int]]);
            assert(s@ + digits_reversed(ds@.take(i as int)) =~= before + digits_reversed(t));
        }
    }
    assert(digits_reversed(ds@.take(0)) =~= Seq::<char>::empty());
    assert(s@ + Seq::<char>::empty() =~= s@);
    s
}

/// The digest of `bytes`: their hash in lower-case hexadecimal.
pub open spec fn digest_text(bytes: Seq<u8>) -> Seq<char> {
    hex_text(bytes_hash(bytes) as nat)
}

/// The digest of `bytes`: their hash in lower-case hexadecimal.
pub fn digest_bytes(bytes: &[u8]) -> (d: String)
    ensures
        d@ == digest_text(bytes@),
{
    to_hex(hash_bytes(bytes))
}

} // verus!
