//! JSON Web Key records and their tagged on-chain record form. A key is
//! either a known RSA key or an unsupported key kept as raw bytes; the
//! record form carries a type-name tag and the key's fields as one
//! length-prefixed byte string per field, in declaration order. The
//! conversion each way is verified against the codec, and decoding a
//! freshly encoded record recovers exactly the original fields.

use vstd::prelude::*;
use vstd::string::StrSliceExecFns;
use vstd::string::StringExecFns;
use vstd::string::StringSliceAdditionalSpecFns;
use crate::codec::decode_bytes;
use crate::codec::encode_bytes;
use crate::codec::lemma_bytes_round_trip;
use crate::codec::spec_decode_bytes;
use crate::codec::spec_enc_bytes;

verus! {

/// A tagged record: a type name and the serialized fields of the value.
#[derive(Clone, Debug, PartialEq, Eq)]
pub struct MoveAny {
    pub type_tag: String,
    pub data: Vec<u8>,
}

/// The tag of an RSA key record.
pub open spec fn spec_rsa_type_name() -> Seq<char> {
    "0x1::jwks::RSA_JWK"@
}

/// The tag of an unsupported key record.
pub open spec fn spec_unsupported_type_name() -> Seq<char> {
    "0x1::jwks::UnsupportedJWK"@
}

/// A key of a kind this library does not interpret: an identifier and the
/// raw payload, both kept as bytes.
#[derive(Clone, Debug, PartialEq, Eq)]
pub struct UnsupportedJWK {
    pub id: Vec<u8>,
    pub payload: Vec<u8>,
}

impl UnsupportedJWK {
    /// The record payload: both fields, length-prefixed, in order.
    pub open spec fn spec_bcs(&self) -> Seq<u8> {
        spec_enc_bytes(self.id@) + spec_enc_bytes(self.payload@)
    }

    /// A key with the given identifier and payload text.
    pub fn new_for_testing(id: &str, payload: &str) -> (r: Self)
        ensures
            r.id@ == id.spec_bytes(),
            r.payload@ == payload.spec_bytes(),
    {
        UnsupportedJWK { id: id.as_bytes_vec(), payload: payload.as_bytes_vec() }
    }

    /// The tagged record form of this key.
    pub fn as_move_any(&self) -> (r: MoveAny)
        ensures
            r.type_tag@ == spec_unsupported_type_name(),
            r.data@ == self.spec_bcs(),
    {
        let mut data: Vec<u8> = Vec::new();
        encode_bytes(&self.id, &mut data);
        encode_bytes(&self.payload, &mut data);
        MoveAny { type_tag: String::from_str("0x1::jwks::UnsupportedJWK"), data }
    }
}

/// An RSA key: key id, key type, algorithm, public exponent and modulus,
/// each kept as the bytes of its textual form.
#[allow(non_camel_case_types)]
#[derive(Clone, Debug, PartialEq, Eq)]
pub struct RSA_JWK {
    pub kid: Vec<u8>,
    pub kty: Vec<u8>,
    pub alg: Vec<u8>,
    pub e: Vec<u8>,
    pub n: Vec<u8>,
}

impl RSA_JWK {
    /// The record payload: all five fields, length-prefixed, in order.
    pub open spec fn spec_bcs(&self) -> Seq<u8> {
        spec_enc_bytes(self.kid@) + spec_enc_bytes(self.kty@) + spec_enc_bytes(self.alg@)
            + spec_enc_bytes(self.e@) + spec_enc_bytes(self.n@)
    }

    /// A key with the given textual fields.
    pub fn new_for_testing(kid: &str, kty: &str, alg: &str, e: &str, n: &str) -> (r: Self)
        ensures
            r.kid@ == kid.spec_bytes(),
            r.kty@ == kty.spec_bytes(),
            r.alg@ == alg.spec_bytes(),
            r.e@ == e.spec_bytes(),
            r.n@ == n.spec_bytes(),
    {
        RSA_JWK {
            kid: kid.as_bytes_vec(),
            kty: kty.as_bytes_vec(),
            alg: alg.as_bytes_vec(),
            e: e.as_bytes_vec(),
            n: n.as_bytes_vec(),
        }
    }

    /// The tagged record form of this key.
    pub fn as_move_any(&self) -> (r: MoveAny)
        ensures
            r.type_tag@ == spec_rsa_type_name(),
            r.data@ == self.spec_bcs(),
    {
        let mut data: Vec<u8> = Vec::new();
        encode_bytes(&self.kid, &mut data);
        encode_bytes(&self.kty, &mut data);
        encode_bytes(&self.alg, &mut data);
        encode_bytes(&self.e, &mut data);
        encode_bytes(&self.n, &mut data);
        MoveAny { type_tag: String::from_str("0x1::jwks::RSA_JWK"), data }
    }
}

/// A JSON Web Key as this library holds it.
#[derive(Clone, Debug, PartialEq, Eq)]
pub enum JWK {
    RSA(RSA_JWK),
    Unsupported(UnsupportedJWK),
}

/// The tagged record form of a key.
#[derive(Clone, Debug, PartialEq, Eq)]
pub struct JWKMoveStruct {
    pub variant: MoveAny,
}

/// Why a record failed to convert back into a key.
#[derive(Clone, Copy, Debug, PartialEq, Eq, Structural)]
pub enum JwkConversionError {
    /// The record's type name tags no known key kind.
    UnknownVariant,
    /// The record's payload is not a well-formed field encoding.
    MalformedData,
}

/// The two fields read from an unsupported-key payload, when it consists of
/// exactly two length-prefixed byte strings.
pub open spec fn spec_two_fields(d: Seq<u8>) -> Option<(Seq<u8>, Seq<u8>)> {
    match spec_decode_bytes(d, 0) {
        None => None,
        Some((f1, p1)) => match spec_decode_bytes(d, p1) {
            None => None,
            Some((f2, p2)) => if p2 == d.len() {
                Some((f1, f2))
            } else {
                None
            },
        },
    }
}

/// The five fields read from an RSA-key payload, when it consists of
/// exactly five length-prefixed byte strings.
pub open spec fn spec_five_fields(d: Seq<u8>) -> Option<
    (Seq<u8>, Seq<u8>, Seq<u8>, Seq<u8>, Seq<u8>),
> {
    match spec_decode_bytes(d, 0) {
        None => None,
        Some((f1, p1)) => match spec_decode_bytes(d, p1) {
            None => None,
            Some((f2, p2)) => match spec_decode_bytes(d, p2) {
                None => None,
                Some((f3, p3)) => match spec_decode_bytes(d, p3) {
                    None => None,
                    Some((f4, p4)) => match spec_decode_bytes(d, p4) {
                        None => None,
                        Some((f5, p5)) => if p5 == d.len() {
                            Some((f1, f2, f3, f4, f5))
                        } else {
                            None
                        },
                    },
                },
            },
        },
    }
}

/// Round trip of an unsupported key's payload: decoding a fresh encoding
/// recovers exactly the two fields.
pub proof fn lemma_two_fields_round_trip(a: Seq<u8>, b: Seq<u8>)
    ensures
        spec_two_fields(spec_enc_bytes(a) + spec_enc_bytes(b)) == Some((a, b)),
{
    let s = spec_enc_bytes(a) + spec_enc_bytes(b);
    lemma_bytes_round_trip(Seq::empty(), a, spec_enc_bytes(b));
    assert(Seq::<u8>::empty() + spec_enc_bytes(a) + spec_enc_bytes(b) =~= s);
    lemma_bytes_round_trip(spec_enc_bytes(a), b, Seq::empty());
    assert(spec_enc_bytes(a) + spec_enc_bytes(b) + Seq::<u8>::empty() =~= s);
}

/// Round trip of an RSA key's payload: decoding a fresh encoding recovers
/// exactly the five fields.
pub proof fn lemma_five_fields_round_trip(a: Seq<u8>, b: Seq<u8>, c: Seq<u8>, d: Seq<u8>, e: Seq<u8>)
    ensures
        spec_five_fields(
            spec_enc_bytes(a) + spec_enc_bytes(b) + spec_enc_bytes(c) + spec_enc_bytes(d)
                + spec_enc_bytes(e),
        ) == Some((a, b, c, d, e)),
{
    let s = spec_enc_bytes(a) + spec_enc_bytes(b) + spec_enc_bytes(c) + spec_enc_bytes(d)
        + spec_enc_bytes(e);
    lemma_bytes_round_trip(
        Seq::empty(),
        a,
        spec_enc_bytes(b) + spec_enc_bytes(c) + spec_enc_bytes(d) + spec_enc_bytes(e),
    );
    assert(Seq::<u8>::empty() + spec_enc_bytes(a) + (spec_enc_bytes(b) + spec_enc_bytes(c)
        + spec_enc_bytes(d) + spec_enc_bytes(e)) =~= s);
    lemma_bytes_round_trip(
        spec_enc_bytes(a),
        b,
        spec_enc_bytes(c) + spec_enc_bytes(d) + spec_enc_bytes(e),
    );
    assert(spec_enc_bytes(a) + spec_enc_bytes(b) + (spec_enc_bytes(c) + spec_enc_bytes(d)
        + spec_enc_bytes(e)) =~= s);
    lemma_bytes_round_trip(
        spec_enc_bytes(a) + spec_enc_bytes(b),
        c,
        spec_enc_bytes(d) + spec_enc_bytes(e),
    );
    assert(spec_enc_bytes(a) + spec_enc_bytes(b) + spec_enc_bytes(c) + (spec_enc_bytes(d)
        + spec_enc_bytes(e)) =~= s);
    lemma_bytes_round_trip(
        spec_enc_bytes(a) + spec_enc_bytes(b) + spec_enc_bytes(c),
        d,
        spec_enc_bytes(e),
    );
    assert(spec_enc_bytes(a) + spec_enc_bytes(b) + spec_enc_bytes(c) + spec_enc_bytes(d)
        + spec_enc_bytes(e) =~= s);
    lemma_bytes_round_trip(
        spec_enc_bytes(a) + spec_enc_bytes(b) + spec_enc_bytes(c) + spec_enc_bytes(d),
        e,
        Seq::empty(),
    );
    assert(spec_enc_bytes(a) + spec_enc_bytes(b) + spec_enc_bytes(c) + spec_enc_bytes(d)
        + spec_enc_bytes(e) + Seq::<u8>::empty() =~= s);
}

impl JWKMoveStruct {
    /// The tagged record form of a key: the type name of its kind, and its
    /// fields encoded in order.
    pub fn from(jwk: JWK) -> (r: JWKMoveStruct)
        ensures
            match jwk {
                JWK::RSA(x) => r.variant.type_tag@ == spec_rsa_type_name() && r.variant.data@
                    == x.spec_bcs(),
                JWK::Unsupported(x) => r.variant.type_tag@ == spec_unsupported_type_name()
                    && r.variant.data@ == x.spec_bcs(),
            },
    {
        let variant = match &jwk {
            JWK::RSA(rsa) => rsa.as_move_any(),
            JWK::Unsupported(unsupported) => unsupported.as_move_any(),
        };
        JWKMoveStruct { variant }
    }
}

impl JWK {
    /// Convert a tagged record back into a key. The record's type name
    /// picks the kind; its payload must decode as exactly that kind's
    /// fields. Decoding a record produced by the conversion above recovers
    /// the original key's fields (see the round-trip proofs).
    pub fn try_from(value: &JWKMoveStruct) -> (r: Result<JWK, JwkConversionError>)
        ensures
            ({
                let tn = value.variant.type_tag@;
                let d = value.variant.data@;
                if tn == spec_rsa_type_name() {
                    match spec_five_fields(d) {
                        Some(f) => r matches Ok(JWK::RSA(x)) && x.kid@ == f.0 && x.kty@ == f.1
                            && x.alg@ == f.2 && x.e@ == f.3 && x.n@ == f.4,
                        None => r == Err::<JWK, JwkConversionError>(
                            JwkConversionError::MalformedData,
                        ),
                    }
                } else if tn == spec_unsupported_type_name() {
                    match spec_two_fields(d) {
                        Some(f) => r matches Ok(JWK::Unsupported(x)) && x.id@ == f.0 && x.payload@
                            == f.1,
                        None => r == Err::<JWK, JwkConversionError>(
                            JwkConversionError::MalformedData,
                        ),
                    }
                } else {
                    r == Err::<JWK, JwkConversionError>(JwkConversionError::UnknownVariant)
                }
            }),
    {
        if value.variant.type_tag == String::from_str("0x1::jwks::RSA_JWK") {
            match decode_five_fields(&value.variant.data) {
                Some((kid, kty, alg, e, n)) => Ok(JWK::RSA(RSA_JWK { kid, kty, alg, e, n })),
                None => Err(JwkConversionError::MalformedData),
            }
        } else if value.variant.type_tag == String::from_str("0x1::jwks::UnsupportedJWK") {
            match decode_two_fields(&value.variant.data) {
                Some((id, payload)) => Ok(JWK::Unsupported(UnsupportedJWK { id, payload })),
                None => Err(JwkConversionError::MalformedData),
            }
        } else {
            Err(JwkConversionError::UnknownVariant)
        }
    }
}

/// Read exactly two length-prefixed fields covering the whole payload.
fn decode_two_fields(data: &Vec<u8>) -> (r: Option<(Vec<u8>, Vec<u8>)>)
    ensures
        match r {
            Some((x, y)) => spec_two_fields(data@) == Some((x@, y@)),
            None => spec_two_fields(data@) is None,
        },
{
    match decode_bytes(data, 0) {
        None => None,
        Some((f1, p1)) => match decode_bytes(data, p1) {
            None => None,
            Some((f2, p2)) => if p2 == data.len() {
                Some((f1, f2))
            } else {
                None
            },
        },
    }
}

/// Read exactly five length-prefixed fields covering the whole payload.
fn decode_five_fields(data: &Vec<u8>) -> (r: Option<(Vec<u8>, Vec<u8>, Vec<u8>, Vec<u8>, Vec<u8>)>)
    ensures
        match r {
            Some((a, b, c, d, e)) => spec_five_fields(data@) == Some((a@, b@, c@, d@, e@)),
            None => spec_five_fields(data@) is None,
        },
{
    let (f1, p1) = match decode_bytes(data, 0) {
        None => {
            return None;
        },
        Some(x) => x,
    };
    let (f2, p2) = match decode_bytes(data, p1) {
        None => {
            return None;
        },
        Some(x) => x,
    };
    let (f3, p3) = match decode_bytes(data, p2) {
        None => {
            return None;
        },
        Some(x) => x,
    };
    let (f4, p4) = match decode_bytes(data, p3) {
        None => {
            return None;
        },
        Some(x) => x,
    };
    let (f5, p5) = match decode_bytes(data, p4) {
        None => {
            return None;
        },
        Some(x) => x,
    };
    if p5 == data.len() {
        Some((f1, f2, f3, f4, f5))
    } else {
        None
    }
}

} // verus!
