//! The checksum of an archive: its SHA-256 digest, written in lower-case
//! hexadecimal digits.

use sha2::Digest;
use vstd::prelude::*;

verus! {

/// The SHA-256 digest of `data`.
pub uninterp spec fn sha256(data: Seq<u8>) -> Seq<u8>;

/// `sha2::Sha256::digest` computes the SHA-256 digest of the bytes it is
/// given. The contract only names the digest.
#[verifier::external_body]
fn sha256_digest(data: &[u8]) -> (r: Vec<u8>)
    ensures
        r@ == sha256(data@),
{
    sha2::Sha256::digest(data).to_vec()
}

/// The hexadecimal digit of a number below sixteen.
pub open spec fn hex_digit(n: int) -> char {
    "0123456789abcdef"@[n]
}

/// The bytes in hexadecimal: two lower-case digits for each, the high one
/// first.
pub open spec fn hex(bytes: Seq<u8>) -> Seq<char> {
    Seq::new(
        2 * bytes.len(),
        |i: int|
            if i % 2 == 0 {
                hex_digit(bytes[i / 2] as int / 16)
            } else {
                hex_digit(bytes[i / 2] as int % 16)
            },
    )
}

fn digit(n: u8) -> (c: char)
    requires
        n < 16,
    ensures
        c == hex_digit(n as int),
{
    proof {
        reveal_strlit("0123456789abcdef");
    }
    "0123456789abcdef".get_char(n as usize)
}

/// The bytes in hexadecimal.
pub fn to_hex(bytes: &[u8]) -> (r: String)
    ensures
        r@ == hex(bytes@),
{
    let mut r = String::new();
    let mut i: usize = 0;
    while i < bytes.len()
        invariant
            i <= bytes@.len(),
            r@ == hex(bytes@.take(i as int)),
        decreases bytes@.len() - i,
    {
        let b = bytes[i];
        let ghost before = r@;
        r.push(digit(b / 16));
        r.push(digit(b % 16));
        assert(r@ =~= hex(bytes@.take(i + 1))) by {
            let old_s = bytes@.take(i as int);
            let new_s = bytes@.take(i + 1);
            assert(before == hex(old_s));
            assert forall|k: int| 0 <= k < 2 * (i + 1) implies r@[k] == hex(new_s)[k] by {
                if k < 2 * i {
                    assert(r@[k] == before[k]);
                    assert(old_s[k / 2] == new_s[k / 2]);
                } else {
                    assert(new_s[k / 2] == b);
                }
            }
        }
        i += 1;
    }
    assert(bytes@.take(bytes@.len() as int) =~= bytes@);
    r
}

/// The checksum of an archive with the contents `data`.
pub fn checksum(data: &[u8]) -> (r: String)
    ensures
        r@ == hex(sha256(data@)),
{
    let digest = sha256_digest(data);
    to_hex(digest.as_slice())
}

} // verus!
