use sha2::Digest;
use vstd::prelude::*;

verus! {

/// One lowercase hexadecimal digit for a value below 16.
pub open spec fn hex_digit(n: u8) -> char {
    if n == 0 { '0' } else if n == 1 { '1' } else if n == 2 { '2' } else if n == 3 { '3' }
    else if n == 4 { '4' } else if n == 5 { '5' } else if n == 6 { '6' } else if n == 7 { '7' }
    else if n == 8 { '8' } else if n == 9 { '9' } else if n == 10 { 'a' } else if n == 11 { 'b' }
    else if n == 12 { 'c' } else if n == 13 { 'd' } else if n == 14 { 'e' } else { 'f' }
}

/// Lowercase hexadecimal rendering of a byte string: two digits per byte,
/// high nibble first.
pub open spec fn hex_of(bytes: Seq<u8>) -> Seq<char> {
    Seq::new(2 * bytes.len(), |i: int| {
        if i % 2 == 0 { hex_digit(bytes[i / 2] / 16) } else { hex_digit(bytes[i / 2] % 16) }
    })
}

/// The SHA-512 digest of a byte string, named but not written out here: the
/// digest is computed by the `sha2` crate and depends on its input alone.
pub uninterp spec fn sha512_of(bytes: Seq<u8>) -> Seq<u8>;

/// Relies on `sha2::Sha512::digest`: the SHA-512 digest is a function of the
/// input bytes alone and is always 64 bytes long.
#[verifier::external_body]
fn sha512(data: &Vec<u8>) -> (r: Vec<u8>)
    ensures
        r@ == sha512_of(data@),
        r@.len() == 64,
{
    sha2::Sha512::digest(data.as_slice()).to_vec()
}

/// Relies on `hex::encode`: the result is the lowercase hexadecimal rendering
/// of the input, two digits per byte, high nibble first.
#[verifier::external_body]
fn hex_encode(data: &Vec<u8>) -> (r: String)
    ensures
        r@ == hex_of(data@),
{
    hex::encode(data.as_slice())
}

/// Lowercase hexadecimal SHA-512 digest of a byte string, as used for ident
/// and locator hashes.
pub open spec fn digest_hex_of(bytes: Seq<u8>) -> Seq<char> {
    hex_of(sha512_of(bytes))
}

/// Hash a byte string into the 128-character hexadecimal form that keys
/// idents and locators.
pub fn digest_hex(data: &Vec<u8>) -> (r: String)
    ensures
        r@ == digest_hex_of(data@),
        r@.len() == 128,
{
    let digest = sha512(data);
    hex_encode(&digest)
}

} // verus!
