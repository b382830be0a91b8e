use netmux::jwk::JWK;
use netmux::jwk::JWKMoveStruct;
use netmux::jwk::JwkConversionError;
use netmux::jwk::MoveAny;
use netmux::jwk::RSA_JWK;
use netmux::jwk::UnsupportedJWK;
use netmux::codec::decode_bytes;
use netmux::codec::decode_uleb128;
use netmux::codec::encode_bytes;
use netmux::codec::encode_uleb128;

#[test]
fn convert_jwk_move_struct_to_jwk() {
    let unsupported_jwk = UnsupportedJWK::new_for_testing("id1", "payload1");
    let jwk_move_struct = JWKMoveStruct {
        variant: unsupported_jwk.as_move_any(),
    };
    assert_eq!(
        JWK::Unsupported(unsupported_jwk),
        JWK::try_from(&jwk_move_struct).unwrap()
    );

    let rsa_jwk = RSA_JWK::new_for_testing("kid1", "kty1", "alg1", "e1", "n1");
    let jwk_move_struct = JWKMoveStruct {
        variant: rsa_jwk.as_move_any(),
    };
    assert_eq!(JWK::RSA(rsa_jwk), JWK::try_from(&jwk_move_struct).unwrap());

    let unknown_jwk_variant = MoveAny {
        type_tag: "type1".to_string(),
        data: vec![],
    };
    assert!(JWK::try_from(&JWKMoveStruct {
        variant: unknown_jwk_variant
    })
    .is_err());
}

#[test]
fn convert_jwk_to_jwk_move_struct() {
    let unsupported_jwk = UnsupportedJWK::new_for_testing("id1", "payload1");
    let jwk = JWK::Unsupported(unsupported_jwk.clone());
    let jwk_move_struct = JWKMoveStruct {
        variant: unsupported_jwk.as_move_any(),
    };
    assert_eq!(jwk_move_struct, JWKMoveStruct::from(jwk));

    let rsa_jwk = RSA_JWK::new_for_testing("kid1", "kty1", "alg1", "e1", "n1");
    let jwk = JWK::RSA(rsa_jwk.clone());
    let jwk_move_struct = JWKMoveStruct {
        variant: rsa_jwk.as_move_any(),
    };
    assert_eq!(jwk_move_struct, JWKMoveStruct::from(jwk));
}

#[test]
fn unknown_variant_error_kind() {
    let record = JWKMoveStruct {
        variant: MoveAny {
            type_tag: "0x1::jwks::Other".to_string(),
            data: vec![],
        },
    };
    assert_eq!(
        JWK::try_from(&record),
        Err(JwkConversionError::UnknownVariant)
    );
}

#[test]
fn malformed_payload_error_kind() {
    // The right tag, but a payload that is not two length-prefixed fields.
    let record = JWKMoveStruct {
        variant: MoveAny {
            type_tag: "0x1::jwks::UnsupportedJWK".to_string(),
            data: vec![5, 1, 2],
        },
    };
    assert_eq!(
        JWK::try_from(&record),
        Err(JwkConversionError::MalformedData)
    );

    // Trailing bytes after the two fields are refused too.
    let unsupported = UnsupportedJWK::new_for_testing("a", "b");
    let mut record = JWKMoveStruct {
        variant: unsupported.as_move_any(),
    };
    record.variant.data.push(0);
    assert_eq!(
        JWK::try_from(&record),
        Err(JwkConversionError::MalformedData)
    );
}

#[test]
fn varint_exact_bytes() {
    let mut out: Vec<u8> = Vec::new();
    encode_uleb128(0, &mut out);
    assert_eq!(out, vec![0]);

    let mut out: Vec<u8> = Vec::new();
    encode_uleb128(127, &mut out);
    assert_eq!(out, vec![127]);

    let mut out: Vec<u8> = Vec::new();
    encode_uleb128(300, &mut out);
    assert_eq!(out, vec![0xac, 0x02]);
    assert_eq!(decode_uleb128(&out, 0), Some((300, 2)));
}

#[test]
fn byte_field_round_trip() {
    let field: Vec<u8> = vec![9, 8, 7];
    let mut out: Vec<u8> = Vec::new();
    encode_bytes(&field, &mut out);
    assert_eq!(out, vec![3, 9, 8, 7]);
    let (read, end) = decode_bytes(&out, 0).unwrap();
    assert_eq!(read, field);
    assert_eq!(end, out.len());

    // A length prefix pointing past the end reads as nothing.
    assert_eq!(decode_bytes(&vec![4, 1, 2], 0), None);
}
