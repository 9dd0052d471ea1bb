//! Digests and hexadecimal text.

use crate::text::{digit, digit_value};
use sha2::{Digest, Sha256};
use vstd::prelude::*;

verus! {

/// The SHA-256 digest of `data`, as `sha2` computes it.
pub uninterp spec fn sha256_of(data: Seq<u8>) -> Seq<u8>;

/// Feeds `data` to a fresh `sha2::Sha256` and takes what `finalize` returns:
/// the digest depends on the bytes alone and has 32 bytes.
#[verifier::external_body]
pub(crate) fn sha256(data: &[u8]) -> (r: [u8; 32])
    ensures
        r@ == sha256_of(data@),
{
    let mut hasher = Sha256::new();
    hasher.update(data);
    hasher.finalize().into()
}

/// `b` in lower-case hexadecimal, two digits for each byte.
pub open spec fn hex_text(b: Seq<u8>) -> Seq<char>
    decreases b.len(),
{
    if b.len() == 0 {
        Seq::empty()
    } else {
        hex_text(b.drop_last()) + seq![
            digit((b.last() / 16) as nat, false),
            digit((b.last() % 16) as nat, false),
        ]
    }
}

/// The bytes that `s` spells in hexadecimal, two digits of either case for each.
pub open spec fn hex_bytes(s: Seq<char>) -> Option<Seq<u8>>
    decreases s.len(),
{
    if s.len() == 0 {
        Some(Seq::empty())
    } else if s.len() == 1 {
        None
    } else {
        let n = s.len();
        match (
            hex_bytes(s.take(n - 2)),
            digit_value(s[n - 2], 16),
            digit_value(s[n - 1], 16),
        ) {
            (Some(b), Some(h), Some(l)) => Some(b.push((h * 16 + l) as u8)),
            _ => None,
        }
    }
}

/// Calls `hex::encode`: every byte becomes two lower-case digits, the high half
/// first.
#[verifier::external_body]
pub(crate) fn hex_encode(b: &[u8]) -> (r: String)
    ensures
        r@ == hex_text(b@),
{
    hex::encode(b)
}

/// Calls `hex::decode`: it succeeds exactly on an even number of hexadecimal
/// digits of either case, and then gives one byte for each two of them.
#[verifier::external_body]
pub(crate) fn hex_decode(s: &str) -> (r: Option<Vec<u8>>)
    ensures
        match hex_bytes(s@) {
            Some(b) => r matches Some(v) && v@ == b,
            None => r is None,
        },
{
    hex::decode(s).ok()
}

/// The SHA-256 digest of `data` in hexadecimal.
pub open spec fn sha256_text(data: Seq<u8>) -> Seq<char> {
    hex_text(sha256_of(data))
}

/// The SHA-256 digest of `data` in hexadecimal.
pub fn sha256_hex(data: &[u8]) -> (r: String)
    ensures
        r@ == sha256_text(data@),
        r@.len() == 64,
{
    let digest = sha256(data);
    proof {
        hex_text_len(digest@);
    }
    hex_encode(digest.as_slice())
}

/// Hexadecimal text has two characters for each byte.
pub proof fn hex_text_len(b: Seq<u8>)
    ensures
        hex_text(b).len() == 2 * b.len(),
    decreases b.len(),
{
    if b.len() > 0 {
        hex_text_len(b.drop_last());
    }
}

/// Reading hexadecimal text gives back the bytes it was written from.
pub proof fn hex_round_trip(b: Seq<u8>)
    ensures
        hex_bytes(hex_text(b)) == Some(b),
    decreases b.len(),
{
    if b.len() > 0 {
        let t = hex_text(b);
        let r = hex_text(b.drop_last());
        hex_round_trip(b.drop_last());
        hex_text_len(b.drop_last());
        assert(t.take(t.len() - 2) =~= r);
        let x = b.last();
        assert(t[t.len() - 2] == digit((x / 16) as nat, false));
        assert(t[t.len() - 1] == digit((x % 16) as nat, false));
        assert(x / 16 < 16 && x % 16 < 16 && (x / 16) * 16 + x % 16 == x);
        assert(digit_value(digit((x / 16) as nat, false), 16) == Some((x / 16) as nat));
        assert(digit_value(digit((x % 16) as nat, false), 16) == Some((x % 16) as nat));
        assert(b.drop_last().push(x) =~= b);
    }
}

/// In hexadecimal text each byte has two characters at twice its place, the high half first,
/// each a digit or a small letter.
pub proof fn digits_are_in_place(b: Seq<u8>, i: int)
    requires
        0 <= i < b.len(),
    ensures
        hex_text(b).len() == 2 * b.len(),
        b[i] / 16 < 10 ==> hex_text(b)[2 * i] as int == '0' as int + b[i] / 16,
        b[i] / 16 >= 10 ==> hex_text(b)[2 * i] as int == 'a' as int + b[i] / 16 - 10,
        b[i] % 16 < 10 ==> hex_text(b)[2 * i + 1] as int == '0' as int + b[i] % 16,
        b[i] % 16 >= 10 ==> hex_text(b)[2 * i + 1] as int == 'a' as int + b[i] % 16 - 10,
    decreases b.len(),
{
    hex_text_len(b);
    let r = b.drop_last();
    hex_text_len(r);
    let t = hex_text(b);
    if i < b.len() - 1 {
        digits_are_in_place(r, i);
        assert(r[i] == b[i]);
        assert(t[2 * i] == hex_text(r)[2 * i]);
        assert(t[2 * i + 1] == hex_text(r)[2 * i + 1]);
    } else {
        assert(t[2 * i] == digit((b[i] / 16) as nat, false));
        assert(t[2 * i + 1] == digit((b[i] % 16) as nat, false));
    }
}

} // verus!
