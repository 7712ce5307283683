use vstd::prelude::*;

verus! {

/// Why a public key was refused.
#[derive(Debug, Clone, Copy, PartialEq, Eq, Structural)]
pub enum KeyError {
    /// The text is not an even number of hexadecimal digits.
    InvalidHex,
    /// The bytes are not 32 bytes that encode a curve point.
    InvalidKey,
}

pub open spec fn is_hex_digit(c: char) -> bool {
    ('0' <= c && c <= '9') || ('a' <= c && c <= 'f') || ('A' <= c && c <= 'F')
}

pub open spec fn hex_value(c: char) -> int {
    if '0' <= c && c <= '9' {
        c as int - '0' as int
    } else if 'a' <= c && c <= 'f' {
        c as int - 'a' as int + 10
    } else {
        c as int - 'A' as int + 10
    }
}

/// Whether `s` is hexadecimal text: an even number of hex digits.
pub open spec fn is_hex_text(s: Seq<char>) -> bool {
    s.len() % 2 == 0 && forall|i: int| 0 <= i < s.len() ==> is_hex_digit(#[trigger] s[i])
}

/// The bytes that hexadecimal text writes, two digits each, high first.
pub open spec fn hex_bytes(s: Seq<char>) -> Seq<u8> {
    Seq::new(s.len() / 2, |i: int| (hex_value(s[2 * i]) * 16 + hex_value(s[2 * i + 1])) as u8)
}

/// Whether 32 bytes are the compressed form of a point on the curve.
pub uninterp spec fn is_curve_point(b: Seq<u8>) -> bool;

/// Relies on `hex::decode`: it accepts an even number of hex digits of
/// either case and returns one byte for each pair.
#[verifier::external_body]
fn hex_decode(s: &str) -> (r: Option<Vec<u8>>)
    ensures
        r is Some <==> is_hex_text(s@),
        r is Some ==> r->Some_0@ == hex_bytes(s@),
{
    hex::decode(s).ok()
}

/// Relies on `ed25519_dalek::PublicKey::from_bytes`: it accepts exactly 32
/// bytes that decompress to a curve point.
#[verifier::external_body]
fn accepts_public_key(b: &[u8]) -> (r: bool)
    ensures
        r == (b@.len() == 32 && is_curve_point(b@)),
{
    ed25519_dalek::PublicKey::from_bytes(b).is_ok()
}

/// Checks a public key written in hexadecimal and returns its bytes.
pub fn check_public_key(public_key: &str) -> (r: Result<Vec<u8>, KeyError>)
    ensures
        !is_hex_text(public_key@) ==> r == Err::<Vec<u8>, KeyError>(KeyError::InvalidHex),
        is_hex_text(public_key@) ==> match r {
            Ok(b) => b@ == hex_bytes(public_key@) && b@.len() == 32 && is_curve_point(b@),
            Err(e) => e == KeyError::InvalidKey && !(hex_bytes(public_key@).len() == 32
                && is_curve_point(hex_bytes(public_key@))),
        },
{
    let bytes = match hex_decode(public_key) {
        Some(b) => b,
        None => return Err(KeyError::InvalidHex),
    };
    if accepts_public_key(bytes.as_slice()) {
        Ok(bytes)
    } else {
        Err(KeyError::InvalidKey)
    }
}

} // verus!
