use crypto::digest::Digest;
use crypto::sha2::Sha256;
use vstd::prelude::*;
use vstd::string::StringExecFns;

verus! {

/// The SHA-256 digest of a byte sequence.
pub uninterp spec fn sha256_digest(data: Seq<u8>) -> Seq<u8>;

/// Inputs of this many bytes or more overflow the SHA-256 engine's 64-bit count of bits.
pub open spec fn sha256_accepts(len: nat) -> bool {
    len < 0x2000_0000_0000_0000
}

/// The ASCII code of the lowercase hexadecimal digit for `n`.
pub open spec fn hex_digit(n: u8) -> u8
    recommends
        n < 16,
{
    if n < 10 {
        (48 + n) as u8
    } else {
        (87 + n) as u8
    }
}

/// Lowercase hexadecimal text of `bytes` as ASCII codes, two digits per byte, high digit first.
pub open spec fn hex_bytes(bytes: Seq<u8>) -> Seq<u8> {
    Seq::new(
        2 * bytes.len(),
        |i: int|
            if i % 2 == 0 {
                hex_digit(bytes[i / 2] / 16)
            } else {
                hex_digit(bytes[i / 2] % 16)
            },
    )
}

/// Lowercase hexadecimal text of `bytes` as characters.
pub open spec fn hex_chars(bytes: Seq<u8>) -> Seq<char> {
    Seq::new(hex_bytes(bytes).len(), |i: int| hex_bytes(bytes)[i] as char)
}

/// Trusted: feeds `data` to a fresh `crypto::sha2::Sha256` with `Digest::input` and reads
/// the 32 bytes that `Digest::result` writes. The contract claims only that this is a
/// function of the input bytes; `input` panics on inputs that `sha256_accepts` leaves out.
#[verifier::external_body]
pub(crate) fn sha256(data: &[u8]) -> (out: [u8; 32])
    requires
        sha256_accepts(data@.len()),
    ensures
        out@ == sha256_digest(data@),
{
    let mut hasher = Sha256::new();
    hasher.input(data);
    let mut out: [u8; 32] = [0u8; 32];
    hasher.result(&mut out);
    out
}

/// Trusted: feeds `data` to a fresh `crypto::sha2::Sha256` and reads `Digest::result_str`,
/// which writes the 32 result bytes as lowercase hexadecimal text, 64 characters in all.
#[verifier::external_body]
pub(crate) fn sha256_hex(data: &[u8]) -> (out: String)
    requires
        sha256_accepts(data@.len()),
    ensures
        out@ == hex_chars(sha256_digest(data@)),
        out@.len() == 64,
{
    let mut hasher = Sha256::new();
    hasher.input(data);
    hasher.result_str()
}

fn hex_digit_byte(n: u8) -> (c: u8)
    requires
        n < 16,
    ensures
        c == hex_digit(n),
{
    if n < 10 {
        48 + n
    } else {
        87 + n
    }
}

/// The lowercase hexadecimal text of `bytes`, as ASCII codes.
pub fn hex_encode(bytes: &[u8]) -> (out: Vec<u8>)
    ensures
        out@ == hex_bytes(bytes@),
{
    let mut out: Vec<u8> = Vec::new();
    let mut i: usize = 0;
    while i < bytes.len()
        invariant
            i <= bytes@.len(),
            out@.len() == 2 * i,
            forall|j: int| 0 <= j < 2 * i ==> out@[j] == hex_bytes(bytes@)[j],
        decreases bytes@.len() - i,
    {
        let b: u8 = bytes[i];
        out.push(hex_digit_byte(b / 16));
        out.push(hex_digit_byte(b % 16));
        i += 1;
    }
    assert(out@ =~= hex_bytes(bytes@));
    out
}

fn hex_digit_str(n: u8) -> (s: &'static str)
    requires
        n < 16,
    ensures
        s@ == seq![hex_digit(n) as char],
{
    proof {
        reveal_strlit("0");
        reveal_strlit("1");
        reveal_strlit("2");
        reveal_strlit("3");
        reveal_strlit("4");
        reveal_strlit("5");
        reveal_strlit("6");
        reveal_strlit("7");
        reveal_strlit("8");
        reveal_strlit("9");
        reveal_strlit("a");
        reveal_strlit("b");
        reveal_strlit("c");
        reveal_strlit("d");
        reveal_strlit("e");
        reveal_strlit("f");
    }
    let s: &'static str = match n {
        0 => "0",
        1 => "1",
        2 => "2",
        3 => "3",
        4 => "4",
        5 => "5",
        6 => "6",
        7 => "7",
        8 => "8",
        9 => "9",
        10 => "a",
        11 => "b",
        12 => "c",
        13 => "d",
        14 => "e",
        _ => "f",
    };
    assert(s@ =~= seq![hex_digit(n) as char]);
    s
}

/// The lowercase hexadecimal text of `bytes`.
pub fn hex_string(bytes: &[u8]) -> (out: String)
    ensures
        out@ == hex_chars(bytes@),
{
    let mut out: String = String::new();
    let mut i: usize = 0;
    while i < bytes.len()
        invariant
            i <= bytes@.len(),
            out@.len() == 2 * i,
            forall|j: int| 0 <= j < 2 * i ==> out@[j] == hex_chars(bytes@)[j],
        decreases bytes@.len() - i,
    {
        let b: u8 = bytes[i];
        out.append(hex_digit_str(b / 16));
        out.append(hex_digit_str(b % 16));
        i += 1;
    }
    assert(out@ =~= hex_chars(bytes@));
    out
}

} // verus!
