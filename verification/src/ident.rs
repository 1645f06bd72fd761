//! Content-derived identifiers for application bundles: a canonical,
//! length-prefixed encoding of the bundle followed by a cryptographic hash,
//! rendered as fixed-length lowercase hex. The identifier is a pure function
//! of the bundle's content, so byte-identical bundles always get the same
//! identifier, across processes and machines.

use crate::bundle::Bundle;
use crate::bundle::canonical_bytes;
use crate::bundle::canonical_encoding;
use sha2::Digest;
use vstd::prelude::*;

verus! {

/// What the digest names: the SHA-256 of a byte sequence. The digest is a
/// function of the input bytes alone.
pub uninterp spec fn sha256_of(bytes: Seq<u8>) -> Seq<u8>;

/// Relies on sha2::Sha256 through digest's `Digest::digest`: the one-shot
/// SHA-256 of the input, a function of the input bytes alone, 32 bytes long.
#[verifier::external_body]
fn sha256(bytes: &Vec<u8>) -> (digest: Vec<u8>)
    ensures
        digest@ == sha256_of(bytes@),
        digest@.len() == 32,
{
    sha2::Sha256::digest(bytes).to_vec()
}

/// The lowercase hex digit for a value below sixteen.
pub open spec fn hex_digit(n: u8) -> char {
    if n == 0 {
        '0'
    } else if n == 1 {
        '1'
    } else if n == 2 {
        '2'
    } else if n == 3 {
        '3'
    } else if n == 4 {
        '4'
    } else if n == 5 {
        '5'
    } else if n == 6 {
        '6'
    } else if n == 7 {
        '7'
    } else if n == 8 {
        '8'
    } else if n == 9 {
        '9'
    } else if n == 10 {
        'a'
    } else if n == 11 {
        'b'
    } else if n == 12 {
        'c'
    } else if n == 13 {
        'd'
    } else if n == 14 {
        'e'
    } else {
        'f'
    }
}

/// The lowercase hex rendering of a byte sequence: two digits per byte, high
/// nibble first.
pub open spec fn hex_of(bytes: Seq<u8>) -> Seq<char> {
    Seq::new(
        bytes.len() * 2,
        |i: int|
            if i % 2 == 0 {
                hex_digit(bytes[i / 2] >> 4)
            } else {
                hex_digit(bytes[i / 2] & 0xf)
            },
    )
}

/// The one-character string holding the hex digit for `n`.
fn hex_digit_str(n: u8) -> (digit: &'static str)
    requires
        n < 16,
    ensures
        digit@ == seq![hex_digit(n)],
{
    proof {
        reveal_strlit("0");
        reveal_strlit("1");
        reveal_strlit("2");
        reveal_strlit("3");
        reveal_strlit("4");
        reveal_strlit("5");
        reveal_strlit("6");
        reveal_strlit("7");
        reveal_strlit("8");
        reveal_strlit("9");
        reveal_strlit("a");
        reveal_strlit("b");
        reveal_strlit("c");
        reveal_strlit("d");
        reveal_strlit("e");
        reveal_strlit("f");
    }
    let digit: &'static str = match n {
        0 => "0",
        1 => "1",
        2 => "2",
        3 => "3",
        4 => "4",
        5 => "5",
        6 => "6",
        7 => "7",
        8 => "8",
        9 => "9",
        10 => "a",
        11 => "b",
        12 => "c",
        13 => "d",
        14 => "e",
        _ => "f",
    };
    proof {
        assert(digit@ =~= seq![hex_digit(n)]);
    }
    digit
}

/// Render a byte sequence as lowercase hex, two digits per byte.
pub fn hex_encode(bytes: &Vec<u8>) -> (hex: String)
    ensures
        hex@ == hex_of(bytes@),
{
    let mut hex = String::new();
    let mut i: usize = 0;
    while i < bytes.len()
        invariant
            i <= bytes.len(),
            hex@ =~= hex_of(bytes@).subrange(0, 2 * i as int),
        decreases bytes.len() - i,
    {
        let byte = bytes[i];
        proof {
            assert(byte >> 4 < 16) by (bit_vector);
            assert(byte & 0xf < 16) by (bit_vector);
        }
        hex.append(hex_digit_str(byte >> 4));
        hex.append(hex_digit_str(byte & 0xf));
        proof {
            assert(hex@ =~= hex_of(bytes@).subrange(0, 2 * (i + 1) as int));
        }
        i = i + 1;
    }
    proof {
        assert(hex@ =~= hex_of(bytes@));
    }
    hex
}

/// The bundle could not be canonically encoded: its manifest is malformed.
#[derive(Clone, Copy, Debug, PartialEq, Eq, Structural)]
pub struct EncodingError;

/// The identifier a bundle's content determines: the hex rendering of the
/// digest of the canonical encoding.
pub open spec fn identifier_of(app_name: Seq<u8>, resources: Seq<(Seq<u8>, Seq<u8>)>) -> Seq<
    char,
> {
    hex_of(sha256_of(canonical_bytes(app_name, resources)))
}

/// Derive the stable, content-derived identifier of a bundle: canonically
/// encode it, hash the encoding, and render the digest as lowercase hex.
/// A bundle whose manifest is malformed cannot be encoded and is refused
/// with `EncodingError`; that is fatal for this one bundle, never for a
/// whole reconciliation run.
pub fn derive(bundle: &Bundle) -> (identifier: Result<String, EncodingError>)
    ensures
        bundle.spec_well_formed() ==> identifier is Ok && identifier->Ok_0@ == identifier_of(
            bundle.app_name@,
            bundle.spec_resources(),
        ),
        !bundle.spec_well_formed() ==> identifier is Err,
{
    if !bundle.well_formed() {
        return Err(EncodingError);
    }
    let encoded = canonical_encoding(bundle);
    let digest = sha256(&encoded);
    Ok(hex_encode(&digest))
}

/// Law: the derived identifier is a function of the bundle's canonical bytes
/// alone, so byte-identical bundle content always yields the identical
/// identifier — across calls, processes, and machines.
pub proof fn lemma_identifier_deterministic(
    app_name1: Seq<u8>,
    resources1: Seq<(Seq<u8>, Seq<u8>)>,
    app_name2: Seq<u8>,
    resources2: Seq<(Seq<u8>, Seq<u8>)>,
)
    requires
        canonical_bytes(app_name1, resources1) == canonical_bytes(app_name2, resources2),
    ensures
        identifier_of(app_name1, resources1) == identifier_of(app_name2, resources2),
{
}

} // verus!
