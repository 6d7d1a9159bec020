use vstd::prelude::*;

verus! {

/// The SHA-512 digest of a byte sequence. The digest is a pure function of
/// the input bytes; nothing further is assumed of its value.
pub uninterp spec fn sha512_of(data: Seq<u8>) -> Seq<u8>;

/// The SHA-1 digest of a byte sequence. The digest is a pure function of
/// the input bytes; nothing further is assumed of its value.
pub uninterp spec fn sha1_of(data: Seq<u8>) -> Seq<u8>;

/// Relies on sha2::Sha512 through the Digest trait: the digest depends on
/// the input bytes alone and is always 64 bytes long.
#[verifier::external_body]
pub(crate) fn sha512(data: &Vec<u8>) -> (r: Vec<u8>)
    ensures
        r@ == sha512_of(data@),
        r@.len() == 64,
{
    let mut hasher = <sha2::Sha512 as sha2::Digest>::new();
    sha2::Digest::update(&mut hasher, data.as_slice());
    <sha2::Sha512 as sha2::Digest>::finalize(hasher).to_vec()
}

/// Relies on sha1::Sha1 through the Digest trait: the digest depends on
/// the input bytes alone and is always 20 bytes long.
#[verifier::external_body]
pub(crate) fn sha1(data: &Vec<u8>) -> (r: Vec<u8>)
    ensures
        r@ == sha1_of(data@),
        r@.len() == 20,
{
    let mut hasher = <sha1::Sha1 as sha1::Digest>::new();
    sha1::Digest::update(&mut hasher, data.as_slice());
    <sha1::Sha1 as sha1::Digest>::finalize(hasher).to_vec()
}

/// A byte that is an ASCII hexadecimal digit.
pub open spec fn is_hex_digit(b: u8) -> bool {
    (48 <= b && b <= 57) || (97 <= b && b <= 102) || (65 <= b && b <= 70)
}

/// The numeric value of an ASCII hexadecimal digit.
pub open spec fn hex_val(b: u8) -> u8 {
    if 48 <= b && b <= 57 {
        (b - 48) as u8
    } else if 97 <= b && b <= 102 {
        (b - 97 + 10) as u8
    } else {
        (b - 65 + 10) as u8
    }
}

/// Hex decoding succeeds exactly on even-length input made of hex digits.
pub open spec fn hex_decode_ok(s: Seq<u8>) -> bool {
    s.len() % 2 == 0 && (forall|i: int| 0 <= i < s.len() ==> is_hex_digit(#[trigger] s[i]))
}

/// The bytes denoted by a well-formed hex string, high nibble first.
pub open spec fn hex_decode_bytes(s: Seq<u8>) -> Seq<u8> {
    Seq::new(s.len() / 2, |i: int| (hex_val(s[2 * i]) * 16 + hex_val(s[2 * i + 1])) as u8)
}

/// Relies on hex::decode: it succeeds exactly on even-length input whose
/// bytes are all ASCII hex digits (either case), and then returns one byte
/// per digit pair, high nibble first.
#[verifier::external_body]
pub(crate) fn hexDecode(s: &Vec<u8>) -> (r: Option<Vec<u8>>)
    ensures
        r is Some <==> hex_decode_ok(s@),
        r matches Some(v) ==> v@ == hex_decode_bytes(s@),
{
    hex::decode(s.as_slice()).ok()
}

} // verus!
