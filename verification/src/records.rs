//! Best-time record files, named after the contents of the track source so
//! that an edited track starts a separate record history.
use vstd::prelude::*;
use crate::text::{digit_char, extend_chars, extend_str, hex_fixed, hex_fixed_chars, string_of};

verus! {

pub const FNV_OFFSET: u64 = 0xcbf29ce484222325;

pub const FNV_PRIME: u64 = 0x100000001b3;

/// The 64-bit FNV-1a hash of `bytes`.
pub open spec fn fnv1a(bytes: Seq<u8>) -> u64
    decreases bytes.len(),
{
    if bytes.len() == 0 {
        FNV_OFFSET
    } else {
        (fnv1a(bytes.drop_last()) ^ (bytes.last() as u64)).wrapping_mul(FNV_PRIME)
    }
}

/// Identifies the exact bytes of a track source.
pub fn source_hash(bytes: &[u8]) -> (r: u64)
    ensures
        r == fnv1a(bytes@),
{
    let mut h: u64 = FNV_OFFSET;
    let mut i: usize = 0;
    assert(bytes@.take(0) =~= Seq::<u8>::empty());
    while i < bytes.len()
        invariant
            i <= bytes.len(),
            h == fnv1a(bytes@.take(i as int)),
        decreases bytes.len() - i,
    {
        assert(bytes@.take(i + 1).drop_last() =~= bytes@.take(i as int));
        h = (h ^ (bytes[i] as u64)).wrapping_mul(FNV_PRIME);
        i += 1;
    }
    assert(bytes@.take(bytes.len() as int) =~= bytes@);
    h
}

/// The record file of a track source: `data/`, the hash of its bytes as
/// sixteen lowercase hexadecimal digits, then `.best`.
pub open spec fn record_path_spec(bytes: Seq<u8>) -> Seq<char> {
    "data/"@ + hex_fixed(fnv1a(bytes) as nat, 16) + ".best"@
}

/// The record file for a track whose source holds `bytes`.
pub fn record_path(bytes: &[u8]) -> (r: String)
    ensures
        r@ == record_path_spec(bytes@),
{
    let h = source_hash(bytes);
    let digits = hex_fixed_chars(h, 16);
    let mut m: Vec<char> = Vec::new();
    extend_str(&mut m, "data/");
    extend_chars(&mut m, &digits);
    extend_str(&mut m, ".best");
    assert(m@ =~= record_path_spec(bytes@));
    string_of(&m)
}


pub open spec fn pow16(k: nat) -> nat
    decreases k,
{
    if k == 0 {
        1
    } else {
        16 * pow16((k - 1) as nat)
    }
}

proof fn lemma_hex_fixed_injective(n: nat, m: nat, k: nat)
    requires
        n < pow16(k),
        m < pow16(k),
        hex_fixed(n, k) == hex_fixed(m, k),
    ensures
        n == m,
    decreases k,
{
    if k > 0 {
        let a = hex_fixed(n, k);
        let b = hex_fixed(m, k);
        assert(a.last() == digit_char((n % 16) as int));
        assert(b.last() == digit_char((m % 16) as int));
        assert(a.drop_last() == hex_fixed(n / 16, (k - 1) as nat));
        assert(b.drop_last() == hex_fixed(m / 16, (k - 1) as nat));
        assert(n % 16 == m % 16);
        assert(n / 16 < pow16((k - 1) as nat)) by (nonlinear_arith)
            requires
                n < 16 * pow16((k - 1) as nat),
        ;
        assert(m / 16 < pow16((k - 1) as nat)) by (nonlinear_arith)
            requires
                m < 16 * pow16((k - 1) as nat),
        ;
        lemma_hex_fixed_injective(n / 16, m / 16, (k - 1) as nat);
    } else {
        assert(pow16(0) == 1);
    }
}

/// Sources with different hashes never share a record file.
pub proof fn lemma_record_paths_distinguish_hashes(a: Seq<u8>, b: Seq<u8>)
    requires
        fnv1a(a) != fnv1a(b),
    ensures
        record_path_spec(a) != record_path_spec(b),
{
    assert(pow16(16) == 0x1_0000_0000_0000_0000nat) by {
        reveal_with_fuel(pow16, 17);
    }
    let ha = hex_fixed(fnv1a(a) as nat, 16);
    let hb = hex_fixed(fnv1a(b) as nat, 16);
    if record_path_spec(a) == record_path_spec(b) {
        let pa = record_path_spec(a);
        let pb = record_path_spec(b);
        assert("data/"@.len() == 5) by {
            reveal_strlit("data/");
        }
        assert(ha.len() == 16) by {
            lemma_hex_fixed_len(fnv1a(a) as nat, 16);
        }
        assert(hb.len() == 16) by {
            lemma_hex_fixed_len(fnv1a(b) as nat, 16);
        }
        assert(ha =~= pa.subrange(5, 21));
        assert(hb =~= pb.subrange(5, 21));
        lemma_hex_fixed_injective(fnv1a(a) as nat, fnv1a(b) as nat, 16);
    }
}

proof fn lemma_hex_fixed_len(n: nat, k: nat)
    ensures
        hex_fixed(n, k).len() == k,
    decreases k,
{
    if k > 0 {
        lemma_hex_fixed_len(n / 16, (k - 1) as nat);
    }
}

/// The hash covers every byte, in order: the empty source hashes to the
/// offset basis, and one more byte `b` takes the hash `h` of what came
/// before to `(h ^ b) * 0x100000001b3`, wrapping at 64 bits.
pub proof fn lemma_hash_takes_every_byte(s: Seq<u8>, b: u8)
    ensures
        fnv1a(Seq::<u8>::empty()) == 0xcbf29ce484222325u64,
        fnv1a(s.push(b)) == (fnv1a(s) ^ (b as u64)).wrapping_mul(0x100000001b3u64),
{
    assert(s.push(b).drop_last() =~= s);
}

/// Sources that differ only in their last byte have different hashes, so
/// an edit of the final byte starts a separate record history.
pub proof fn lemma_last_byte_edit_changes_hash(s: Seq<u8>, b: u8, c: u8)
    requires
        b != c,
    ensures
        fnv1a(s.push(b)) != fnv1a(s.push(c)),
{
    lemma_hash_takes_every_byte(s, b);
    lemma_hash_takes_every_byte(s, c);
    let h = fnv1a(s);
    let x = h ^ (b as u64);
    let y = h ^ (c as u64);
    assert(x != y) by (bit_vector)
        requires
            x == h ^ (b as u64),
            y == h ^ (c as u64),
            b != c,
    ;
    // The prime is odd, so multiplying by it is a bijection on 64-bit words.
    assert(x.wrapping_mul(0x100000001b3u64) != y.wrapping_mul(0x100000001b3u64)) by (bit_vector)
        requires
            x != y,
    ;
}

} // verus!
