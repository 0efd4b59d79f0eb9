use crate::backend::digest::{hex_chars, sha256_accepts, sha256_digest, sha256_hex};
use vstd::arithmetic::div_mod::{lemma_div_denominator, lemma_mod_breakdown, lemma_small_mod};
use vstd::prelude::*;
use vstd::utf8::{encode_utf8, is_ascii_chars_encode_utf8};

verus! {

/// 256 raised to the power `n`.
pub open spec fn pow256(n: nat) -> nat
    decreases n,
{
    if n == 0 {
        1
    } else {
        256 * pow256((n - 1) as nat)
    }
}

/// The little-endian encoding of `x` in `n` bytes: byte `i` is digit `i` of `x` in base 256.
pub open spec fn le_bytes(x: nat, n: nat) -> Seq<u8> {
    Seq::new(n, |i: int| ((x / pow256(i as nat)) % 256) as u8)
}

/// The number that a little-endian byte sequence denotes.
pub open spec fn le_value(s: Seq<u8>) -> nat
    decreases s.len(),
{
    if s.len() == 0 {
        0
    } else {
        s[0] as nat + 256 * le_value(s.drop_first())
    }
}

/// The number that decides proof of work: bytes 16 to 31 of a digest, read little-endian.
pub open spec fn difficulty_value(digest: Seq<u8>) -> nat
    recommends
        digest.len() >= 32,
{
    le_value(digest.subrange(16, 32))
}

/// A digest meets a target when its difficulty value lies strictly below the target.
pub open spec fn meets_difficulty(digest: Seq<u8>, difficulty: u128) -> bool
    recommends
        digest.len() == 32,
{
    difficulty_value(digest) < difficulty
}

/// Every power of 256 is positive.
pub proof fn lemma_pow256_positive(n: nat)
    ensures
        pow256(n) > 0,
    decreases n,
{
    if n > 0 {
        lemma_pow256_positive((n - 1) as nat);
    }
}

/// A little-endian sequence of `n` bytes denotes a number below `256^n`.
pub proof fn lemma_le_value_bound(s: Seq<u8>)
    ensures
        le_value(s) < pow256(s.len()),
    decreases s.len(),
{
    if s.len() > 0 {
        lemma_le_value_bound(s.drop_first());
        let rest = le_value(s.drop_first());
        let p = pow256((s.len() - 1) as nat);
        assert(256 * rest + 256 <= 256 * p) by (nonlinear_arith)
            requires
                rest < p,
        ;
    }
}

/// Reading back a little-endian encoding in `n` bytes gives the number modulo `256^n`.
pub proof fn lemma_le_value_of_le_bytes(x: nat, n: nat)
    ensures
        le_value(le_bytes(x, n)) == x % pow256(n),
    decreases n,
{
    if n == 0 {
        assert(le_bytes(x, 0).len() == 0);
    } else {
        let rest = (n - 1) as nat;
        let encoded = le_bytes(x, n);
        lemma_pow256_positive(rest);
        assert(pow256(0) == 1);
        assert(x / 1 == x);
        assert(encoded[0] == ((x / pow256(0int as nat)) % 256) as u8);
        assert forall|i: int| 0 <= i < rest implies encoded.drop_first()[i] == le_bytes(
            x / 256,
            rest,
        )[i] by {
            lemma_pow256_positive(i as nat);
            lemma_div_denominator(x as int, 256, pow256(i as nat) as int);
            assert(pow256((i + 1) as nat) == 256 * pow256(i as nat));
        }
        assert(encoded.drop_first() =~= le_bytes(x / 256, rest));
        lemma_le_value_of_le_bytes(x / 256, rest);
        lemma_mod_breakdown(x as int, 256, pow256(rest) as int);
    }
}

/// A number that fits `n` bytes is read back unchanged from its little-endian encoding.
pub proof fn law_le_round_trip(x: nat, n: nat)
    requires
        x < pow256(n),
    ensures
        le_value(le_bytes(x, n)) == x,
{
    lemma_le_value_of_le_bytes(x, n);
    lemma_small_mod(x, pow256(n));
}

proof fn lemma_pow256_16()
    ensures
        pow256(16) == 0x1_0000_0000_0000_0000_0000_0000_0000_0000,
{
    reveal_with_fuel(pow256, 17);
}

fn le_array<const N: usize>(x: u128) -> (out: [u8; N])
    ensures
        out@ == le_bytes(x as nat, N as nat),
{
    let mut out: [u8; N] = [0u8; N];
    let mut rest: u128 = x;
    let mut i: usize = 0;
    assert(pow256(0) == 1);
    while i < N
        invariant
            i <= N,
            rest as nat == (x as nat) / pow256(i as nat),
            forall|j: int| 0 <= j < i ==> out@[j] == le_bytes(x as nat, N as nat)[j],
        decreases N - i,
    {
        let low: u8 = (rest % 256) as u8;
        out[i] = low;
        proof {
            lemma_pow256_positive(i as nat);
            lemma_div_denominator(x as int, pow256(i as nat) as int, 256);
            assert(pow256((i + 1) as nat) == 256 * pow256(i as nat));
            assert(pow256(i as nat) * 256 == 256 * pow256(i as nat)) by (nonlinear_arith);
        }
        rest = rest / 256;
        i += 1;
    }
    assert(out@ =~= le_bytes(x as nat, N as nat));
    out
}

/// The four bytes of `item`, least significant first.
pub fn u32_bytes(item: &u32) -> (out: [u8; 4])
    ensures
        out@ == le_bytes(*item as nat, 4),
{
    le_array::<4>(*item as u128)
}

/// The eight bytes of `item`, least significant first.
pub fn u64_bytes(item: &u64) -> (out: [u8; 8])
    ensures
        out@ == le_bytes(*item as nat, 8),
{
    le_array::<8>(*item as u128)
}

/// The sixteen bytes of `item`, least significant first.
pub fn u128_bytes(item: &u128) -> (out: [u8; 16])
    ensures
        out@ == le_bytes(*item as nat, 16),
{
    le_array::<16>(*item)
}

/// The number below `2^64` that stands for `x` in two's complement.
pub open spec fn twos_complement(x: i64) -> nat {
    if x >= 0 {
        x as nat
    } else {
        (x + 0x1_0000_0000_0000_0000) as nat
    }
}

/// The eight bytes of `item` in two's complement, least significant first.
pub fn _i64_bytes(item: &i64) -> (out: [u8; 8])
    ensures
        out@ == le_bytes(twos_complement(*item), 8),
{
    let unsigned: u64 = if *item >= 0 {
        *item as u64
    } else {
        ((*item + 1) + i64::MAX) as u64 + 0x8000_0000_0000_0000
    };
    le_array::<8>(unsigned as u128)
}

/// A digest-sized buffer of zero bytes.
pub fn hash_array() -> (out: [u8; 32])
    ensures
        out@ == Seq::new(32, |i: int| 0u8),
{
    let out: [u8; 32] = [0u8; 32];
    assert(out@ =~= Seq::new(32, |i: int| 0u8));
    out
}

/// Reads bytes 16 to 31 of `v` as a little-endian number.
pub fn difficulty_bytes_as_u128(v: &[u8]) -> (out: u128)
    requires
        v@.len() >= 32,
    ensures
        out == difficulty_value(v@),
{
    let ghost window = v@.subrange(16, 32);
    let mut acc: u128 = 0;
    let mut i: usize = 32;
    while i > 16
        invariant
            16 <= i <= 32,
            v@.len() >= 32,
            window == v@.subrange(16, 32),
            acc as nat == le_value(window.subrange(i - 16, 16)),
        decreases i,
    {
        i -= 1;
        proof {
            let tail = window.subrange(i - 16, 16);
            assert(tail.drop_first() =~= window.subrange(i + 1 - 16, 16));
            assert(tail[0] == v@[i as int]);
            lemma_le_value_bound(tail.drop_first());
            lemma_le_value_bound(tail);
            lemma_pow256_16();
            lemma_pow256_monotonic(tail.len(), 16);
        }
        acc = acc * 256 + v[i] as u128;
    }
    assert(window.subrange(0, 16) =~= window);
    acc
}

/// A larger exponent gives no smaller a power of 256.
pub proof fn lemma_pow256_monotonic(a: nat, b: nat)
    requires
        a <= b,
    ensures
        pow256(a) <= pow256(b),
    decreases b,
{
    if a < b {
        lemma_pow256_monotonic(a, (b - 1) as nat);
        lemma_pow256_positive((b - 1) as nat);
    }
}

/// Whether a 32-byte digest meets the target `difficulty`.
pub fn check_difficulty(hash_bytes: &[u8], difficulty: &u128) -> (pass: bool)
    requires
        hash_bytes@.len() == 32,
    ensures
        pass == meets_difficulty(hash_bytes@, *difficulty),
{
    *difficulty > difficulty_bytes_as_u128(hash_bytes)
}

/// The address that a word stands for: the hexadecimal SHA-256 digest of its UTF-8 bytes.
pub open spec fn address_of(word: Seq<char>) -> Seq<char> {
    hex_chars(sha256_digest(encode_utf8(word)))
}

/// The address that the first block mints to.
pub open spec fn genesis_address() -> Seq<char> {
    address_of("Genesis Block"@)
}

/// The address of the first block's mint.
pub fn get_genesis_hasher() -> (address: String)
    ensures
        address@ == genesis_address(),
        address@.len() == 64,
{
    let label = "Genesis Block";
    proof {
        reveal_strlit("Genesis Block");
        is_ascii_chars_encode_utf8(label@);
    }
    sha256_hex(label.as_bytes())
}

/// The address that `word` stands for.
pub fn get_hash(word: String) -> (address: String)
    requires
        sha256_accepts(encode_utf8(word@).len()),
    ensures
        address@ == address_of(word@),
        address@.len() == 64,
{
    sha256_hex(word.as_str().as_bytes())
}

} // verus!
