//! Change-identity digests.

use crate::hex::{hex_string, put_be};
#[allow(unused_imports)]
use crate::hex::{be_bytes, hex_text, lemma_be_bytes_injective, lemma_be_bytes_len, lemma_hex_text};
use vstd::prelude::*;

verus! {

/// The hash of no bytes.
pub const FNV_OFFSET: u64 = 0xcbf2_9ce4_8422_2325;

/// The factor of one step.
pub const FNV_PRIME: u64 = 0x0000_0100_0000_01b3;

/// One step of 64-bit FNV-1a: mix a byte in, then multiply modulo two to the
/// power of sixty-four.
pub open spec fn fnv_step(hash: u64, byte: u8) -> u64 {
    (((hash ^ (byte as u64)) * FNV_PRIME) % 0x1_0000_0000_0000_0000) as u64
}

/// 64-bit FNV-1a.
pub open spec fn fnv1a(bytes: Seq<u8>) -> u64
    decreases bytes.len(),
{
    if bytes.len() == 0 {
        FNV_OFFSET
    } else {
        fnv_step(fnv1a(bytes.drop_last()), bytes.last())
    }
}

/// The digest of a payload: its FNV-1a hash as sixteen hexadecimal digits.
pub open spec fn digest_text(bytes: Seq<u8>) -> Seq<char> {
    hex_text(be_bytes(fnv1a(bytes) as nat, 8))
}

/// Change-identity digest over a raw payload: stable FNV-1a, hex-encoded. The
/// idempotency registry compares digests, never full payloads; this is not a
/// cryptographic integrity primitive.
pub fn payload_digest(bytes: &[u8]) -> (digest: String)
    ensures
        digest@ == digest_text(bytes@),
{
    let mut hash: u64 = FNV_OFFSET;
    let mut i: usize = 0;
    while i < bytes.len()
        invariant
            i <= bytes@.len(),
            hash == fnv1a(bytes@.take(i as int)),
        decreases bytes@.len() - i,
    {
        let byte: u8 = bytes[i];
        proof {
            assert(bytes@.take(i + 1).drop_last() =~= bytes@.take(i as int));
        }
        hash = (hash ^ (byte as u64)).wrapping_mul(FNV_PRIME);
        i = i + 1;
    }
    proof {
        assert(bytes@.take(i as int) =~= bytes@);
    }
    let mut text: [u8; 8] = [0u8; 8];
    put_be(&mut text, 0, 8, hash);
    proof {
        lemma_be_bytes_len(hash as nat, 8);
        assert(text@ =~= be_bytes(hash as nat, 8));
    }
    hex_string(text.as_slice())
}

/// Two digests are equal only where the hashes are.
pub proof fn lemma_digest_text_injective(a: Seq<u8>, b: Seq<u8>)
    ensures
        digest_text(a).len() == 16,
        digest_text(a) == digest_text(b) ==> fnv1a(a) == fnv1a(b),
{
    let x = be_bytes(fnv1a(a) as nat, 8);
    let y = be_bytes(fnv1a(b) as nat, 8);
    lemma_be_bytes_len(fnv1a(a) as nat, 8);
    lemma_hex_text(x, y);
    if digest_text(a) == digest_text(b) {
        assert(vstd::arithmetic::power::pow(256, 8) == 0x1_0000_0000_0000_0000) by {
            reveal_with_fuel(vstd::arithmetic::power::pow, 9);
        }
        lemma_be_bytes_injective(fnv1a(a) as nat, fnv1a(b) as nat, 8);
    }
}

/// The multiplication of a step loses nothing: the prime is odd.
proof fn lemma_prime_cancels(x: u64, y: u64)
    requires
        (x * FNV_PRIME) % 0x1_0000_0000_0000_0000 == (y * FNV_PRIME) % 0x1_0000_0000_0000_0000,
    ensures
        x == y,
{
    let m: int = 0x1_0000_0000_0000_0000;
    let p = FNV_PRIME as int;
    let inverse: int = 0xce96_5057_aff6_957b;
    assert((p * inverse) % m == 1);
    vstd::arithmetic::div_mod::lemma_mul_mod_noop(x * p, inverse, m);
    vstd::arithmetic::div_mod::lemma_mul_mod_noop(y * p, inverse, m);
    vstd::arithmetic::div_mod::lemma_mul_mod_noop(x as int, p * inverse, m);
    vstd::arithmetic::div_mod::lemma_mul_mod_noop(y as int, p * inverse, m);
    vstd::arithmetic::mul::lemma_mul_is_associative(x as int, p, inverse);
    vstd::arithmetic::mul::lemma_mul_is_associative(y as int, p, inverse);
}

/// A step keeps different hashes apart, and, on one hash, different bytes.
proof fn lemma_step_injective(g: u64, h: u64, a: u8, b: u8)
    ensures
        fnv_step(g, a) == fnv_step(h, a) ==> g == h,
        fnv_step(h, a) == fnv_step(h, b) ==> a == b,
{
    let (ga, ha, hb) = (g ^ (a as u64), h ^ (a as u64), h ^ (b as u64));
    if fnv_step(g, a) == fnv_step(h, a) {
        lemma_prime_cancels(ga, ha);
        assert(g == h) by (bit_vector)
            requires
                g ^ (a as u64) == h ^ (a as u64),
        ;
    }
    if fnv_step(h, a) == fnv_step(h, b) {
        lemma_prime_cancels(ha, hb);
        assert(a == b) by (bit_vector)
            requires
                h ^ (a as u64) == h ^ (b as u64),
        ;
    }
}

proof fn lemma_common_tail(a: Seq<u8>, b: Seq<u8>, tail: Seq<u8>)
    ensures
        fnv1a(a + tail) == fnv1a(b + tail) <==> fnv1a(a) == fnv1a(b),
    decreases tail.len(),
{
    if tail.len() == 0 {
        assert(a + tail =~= a);
        assert(b + tail =~= b);
    } else {
        lemma_common_tail(a, b, tail.drop_last());
        assert((a + tail).drop_last() =~= a + tail.drop_last());
        assert((b + tail).drop_last() =~= b + tail.drop_last());
        lemma_step_injective(
            fnv1a(a + tail.drop_last()),
            fnv1a(b + tail.drop_last()),
            tail.last(),
            tail.last(),
        );
    }
}

/// What follows two payloads alike neither joins their digests nor parts them.
pub proof fn law_common_tail_keeps_digests_apart(a: Seq<u8>, b: Seq<u8>, tail: Seq<u8>)
    ensures
        digest_text(a + tail) == digest_text(b + tail) <==> digest_text(a) == digest_text(b),
{
    lemma_digest_text_injective(a, b);
    lemma_digest_text_injective(a + tail, b + tail);
    lemma_common_tail(a, b, tail);
}

/// The digest is sensitive to content: to change one byte of a payload is to
/// change its digest.
pub proof fn law_one_byte_changes_the_digest(bytes: Seq<u8>, i: int, byte: u8)
    requires
        0 <= i < bytes.len(),
        byte != bytes[i],
    ensures
        digest_text(bytes.update(i, byte)) != digest_text(bytes),
{
    let changed = bytes.update(i, byte);
    let head = bytes.take(i);
    let tail = bytes.skip(i + 1);
    assert(bytes =~= head.push(bytes[i]) + tail);
    assert(changed =~= head.push(byte) + tail);
    assert(head.push(bytes[i]).drop_last() =~= head);
    assert(head.push(byte).drop_last() =~= head);
    lemma_step_injective(fnv1a(head), fnv1a(head), bytes[i], byte);
    lemma_common_tail(head.push(bytes[i]), head.push(byte), tail);
    lemma_digest_text_injective(changed, bytes);
}

} // verus!
