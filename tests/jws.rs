use jwt_jws::algorithm::ALGORITHM;
use jwt_jws::claims::Claims;
use jwt_jws::error::Error;
use jwt_jws::json::FieldValue;
use jwt_jws::jws::{base64_url_encode, base64_url_encode_bytes, split_compact, JWSBody, JWS};
use jwt_jws::jws_header::Header;

fn scenario_token() -> JWS {
    let mut claims = Claims::new();
    claims.iss = Some("svc-a".to_owned());
    claims.exp = Some(2000000000);
    let mut header = Header::new();
    header.alg = ALGORITHM::HS256;
    JWS::from_claims(header, claims)
}

fn claims_of(t: &JWS) -> &Claims {
    match &t.body {
        JWSBody::JWT { claims } => claims,
        JWSBody::Custom { .. } => panic!("expected a claims body"),
    }
}

#[test]
fn test_serialize() {
    let mut claims = Claims::new();
    claims.iss = Some("DISPOSITION".to_owned());
    claims.jti = Some("vpmli2IC9NRZ1EVkLEgJpg".to_owned());
    claims.set("orgid", 1701);
    claims.set("stasub", "darkwingduck");
    claims.set("crmuid", "C680AFBC-B8E4-E511-80DC-FC15B4284AE0");
    claims.set("crmtype", "Dynamics");
    claims.set("idmid", 1);
    claims.exp = Some(1473164280);
    claims.iat = Some(1457396280);
    let mut header = Header::new();
    header.set("iss", "DISPOSITION");
    header.alg = ALGORITHM::HS256;
    let t = JWS::from_claims(header, claims);

    let key = "secret";
    let encoded = t.encode(key.as_bytes(), ALGORITHM::HS256).unwrap();
    println!("{}", encoded);
    let decoded = JWS::decode_jwt(encoded, key.as_bytes(), ALGORITHM::HS256).unwrap();
    println!("{}", decoded.header.get::<String>("iss").unwrap());
}

#[test]
fn scenario_hs256_encode_and_decode() {
    let t = scenario_token();
    let encoded = t.encode(b"secret", ALGORITHM::HS256).unwrap();
    assert_eq!(encoded.matches('.').count(), 2);
    let decoded = JWS::decode(encoded.clone(), b"secret", ALGORITHM::HS256, true).unwrap();
    let c = claims_of(&decoded);
    assert_eq!(c.iss, Some("svc-a".to_owned()));
    assert_eq!(c.exp, Some(2000000000));
    assert_eq!(decoded.header.typ, Some("JWT".to_owned()));
    assert_eq!(JWS::decode(encoded, b"wrong", ALGORITHM::HS256, true).unwrap_err(), Error::InvalidSignature);
}

#[test]
fn scenario_token_has_expected_segments() {
    let encoded = scenario_token().encode(b"secret", ALGORITHM::HS256).unwrap();
    let (h, b, _) = split_compact(&encoded).unwrap();
    assert_eq!(h, base64_url_encode("{\"alg\":\"HS256\",\"typ\":\"JWT\"}".to_owned()));
    assert_eq!(b, base64_url_encode("{\"iss\":\"svc-a\",\"exp\":2000000000}".to_owned()));
}

#[test]
fn round_trip_under_each_hmac_algorithm() {
    let keys: [&[u8]; 3] = [b"k", b"\x00\xff binary key \x01", b"a much longer shared secret used for hmac"];
    for alg in [ALGORITHM::HS256, ALGORITHM::HS384, ALGORITHM::HS512].iter() {
        for key in keys.iter() {
            let mut claims = Claims::new();
            claims.sub = Some("user".to_owned());
            claims.aud = Some("api".to_owned());
            claims.nbf = Some(10);
            claims.iat = Some(5);
            claims.jti = Some("id-1".to_owned());
            claims.set("role", "admin");
            let mut header = Header::new();
            header.alg = *alg;
            header.kid = Some("key-7".to_owned());
            let t = JWS::from_claims(header, claims);
            let encoded = t.encode(key, *alg).unwrap();
            let decoded = JWS::decode(encoded, key, *alg, true).unwrap();
            assert_eq!(decoded.header.alg, *alg);
            assert_eq!(decoded.header.kid, Some("key-7".to_owned()));
            let c = claims_of(&decoded);
            assert_eq!(c.sub, Some("user".to_owned()));
            assert_eq!(c.aud, Some("api".to_owned()));
            assert_eq!(c.nbf, Some(10));
            assert_eq!(c.iat, Some(5));
            assert_eq!(c.jti, Some("id-1".to_owned()));
            assert_eq!(c.iss, None);
            assert_eq!(c.exp, None);
            assert_eq!(c.get::<String>("role"), Some("admin".to_owned()));
        }
    }
}

#[test]
fn round_trip_under_rsa_with_a_key_pair() {
    let rsa = openssl::rsa::Rsa::generate(2048).unwrap();
    let private_pem = rsa.private_key_to_pem().unwrap();
    let public_pem = rsa.public_key_to_pem().unwrap();
    for alg in [ALGORITHM::RS256, ALGORITHM::RS384, ALGORITHM::RS512].iter() {
        let mut header = Header::new();
        header.alg = *alg;
        let mut claims = Claims::new();
        claims.iss = Some("rsa-issuer".to_owned());
        let t = JWS::from_claims(header, claims);
        let encoded = t.encode(&private_pem, *alg).unwrap();
        let decoded = JWS::decode(encoded.clone(), &public_pem, *alg, true).unwrap();
        assert_eq!(claims_of(&decoded).iss, Some("rsa-issuer".to_owned()));
        let again = JWS::decode(encoded.clone(), &private_pem, *alg, true).unwrap();
        assert_eq!(claims_of(&again).iss, Some("rsa-issuer".to_owned()));
        assert_eq!(t.encode(&private_pem, *alg).unwrap(), encoded);
        let other = openssl::rsa::Rsa::generate(2048).unwrap().public_key_to_pem().unwrap();
        assert_eq!(JWS::decode(encoded, &other, *alg, true).unwrap_err(), Error::InvalidSignature);
    }
}

#[test]
fn flipping_any_signature_character_is_rejected() {
    let encoded = scenario_token().encode(b"secret", ALGORITHM::HS256).unwrap();
    let sig_start = encoded.rfind('.').unwrap() + 1;
    let bytes = encoded.as_bytes().to_vec();
    for i in sig_start..bytes.len() {
        for replacement in [b'A', b'B', b'_', b'-', b'z'].iter() {
            if bytes[i] == *replacement {
                continue;
            }
            let mut altered = bytes.clone();
            altered[i] = *replacement;
            let altered = String::from_utf8(altered).unwrap();
            assert_eq!(
                JWS::decode(altered, b"secret", ALGORITHM::HS256, true).unwrap_err(),
                Error::InvalidSignature
            );
        }
    }
}

#[test]
fn token_signed_with_hs384_is_rejected_as_hs256() {
    let mut t = scenario_token();
    t.header.alg = ALGORITHM::HS384;
    let encoded = t.encode(b"secret", ALGORITHM::HS384).unwrap();
    assert!(JWS::decode(encoded.clone(), b"secret", ALGORITHM::HS384, true).is_ok());
    assert_eq!(JWS::decode(encoded, b"secret", ALGORITHM::HS256, true).unwrap_err(), Error::InvalidSignature);
}

#[test]
fn header_algorithm_must_match_the_expected_one() {
    // header declares HS256 but the signature is made under HS384
    let t = scenario_token();
    let encoded = t.encode(b"secret", ALGORITHM::HS384).unwrap();
    assert_eq!(JWS::decode(encoded.clone(), b"secret", ALGORITHM::HS384, true).unwrap_err(), Error::InvalidSignature);
    assert_eq!(JWS::decode(encoded, b"secret", ALGORITHM::HS256, true).unwrap_err(), Error::InvalidSignature);
}

#[test]
fn ten_extension_fields_keep_value_and_type() {
    let mut claims = Claims::new();
    claims.set("s1", "one");
    claims.set("s2", "two \"quoted\" \u{e9}");
    claims.set("i1", 0);
    claims.set("i2", 42u64);
    claims.set("i3", -42i64);
    claims.set("i4", u64::MAX);
    claims.set("o1", FieldValue::from_json_text("{\"nested\":{\"x\":1}}").unwrap());
    claims.set("o2", FieldValue::from_json_text("[1, \"two\", null]").unwrap());
    claims.set("b1", FieldValue::from_json_text("true").unwrap());
    claims.set("s3", String::from(""));
    let mut header = Header::new();
    header.alg = ALGORITHM::HS512;
    let t = JWS::from_claims(header, claims);
    let encoded = t.encode(b"key", ALGORITHM::HS512).unwrap();
    let decoded = JWS::decode(encoded, b"key", ALGORITHM::HS512, true).unwrap();
    let c = claims_of(&decoded);
    assert_eq!(c.get::<String>("s1"), Some("one".to_owned()));
    assert_eq!(c.get::<String>("s2"), Some("two \"quoted\" \u{e9}".to_owned()));
    assert_eq!(c.get::<u64>("i1"), Some(0));
    assert_eq!(c.get::<u64>("i2"), Some(42));
    assert_eq!(c.get::<i64>("i3"), Some(-42));
    assert_eq!(c.get::<u64>("i4"), Some(u64::MAX));
    assert!(matches!(c.get::<FieldValue>("o1"), Some(FieldValue::Json(ref t)) if t == "{\"nested\":{\"x\":1}}"));
    assert!(matches!(c.get::<FieldValue>("o2"), Some(FieldValue::Json(ref t)) if t == "[1,\"two\",null]"));
    assert!(matches!(c.get::<FieldValue>("b1"), Some(FieldValue::Json(ref t)) if t == "true"));
    assert_eq!(c.get::<String>("s3"), Some(String::new()));
    assert_eq!(c.get::<String>("i2"), None);
}

#[test]
fn encoding_twice_gives_identical_strings() {
    let t = scenario_token();
    assert_eq!(t.encode(b"secret", ALGORITHM::HS256).unwrap(), t.encode(b"secret", ALGORITHM::HS256).unwrap());
    let mut c1 = Claims::new();
    c1.set("a", 1);
    c1.set("b", "x");
    c1.set("c", 3);
    let mut c2 = Claims::new();
    c2.set("c", 3);
    c2.set("a", 1);
    c2.set("b", "x");
    let e1 = JWS::from_claims(Header::new(), c1).encode(b"k", ALGORITHM::HS256).unwrap();
    let e2 = JWS::from_claims(Header::new(), c2).encode(b"k", ALGORITHM::HS256).unwrap();
    assert_eq!(e1, e2);
}

#[test]
fn opaque_body_keeps_bytes_and_type() {
    let mut header = Header::new();
    header.typ = Some("octets".to_owned());
    let t = JWS::from_custom(header, vec![0u8, 255, 10, 46]);
    let encoded = t.encode(b"k", ALGORITHM::HS256).unwrap();
    let decoded = JWS::decode(encoded, b"k", ALGORITHM::HS256, false).unwrap();
    match decoded.body {
        JWSBody::Custom { value, typ } => {
            assert_eq!(value, vec![0u8, 255, 10, 46]);
            assert_eq!(typ, Some("octets".to_owned()));
        }
        JWSBody::JWT { .. } => panic!("expected opaque body"),
    }
}

#[test]
fn malformed_compact_strings_are_rejected() {
    assert_eq!(JWS::decode("abc.def".to_owned(), b"k", ALGORITHM::HS256, true).unwrap_err(), Error::MalformedCompactString);
    assert_eq!(JWS::decode("a.b.c.d".to_owned(), b"k", ALGORITHM::HS256, true).unwrap_err(), Error::MalformedCompactString);
    assert_eq!(JWS::decode("".to_owned(), b"k", ALGORITHM::HS256, true).unwrap_err(), Error::MalformedCompactString);
}

#[test]
fn bad_header_segments_are_rejected() {
    assert_eq!(JWS::decode("!!.e30.sig".to_owned(), b"k", ALGORITHM::HS256, true).unwrap_err(), Error::Base64DecodeError);
    let bad_utf8 = base64_url_encode_bytes(&[0xff, 0xfe]);
    assert_eq!(JWS::decode(format!("{}.e30.sig", bad_utf8), b"k", ALGORITHM::HS256, true).unwrap_err(), Error::Utf8DecodeError);
    let not_json = base64_url_encode("not json".to_owned());
    assert_eq!(JWS::decode(format!("{}.e30.sig", not_json), b"k", ALGORITHM::HS256, true).unwrap_err(), Error::JsonParseError);
    let no_alg = base64_url_encode("{\"typ\":\"JWT\"}".to_owned());
    assert_eq!(JWS::decode(format!("{}.e30.sig", no_alg), b"k", ALGORITHM::HS256, true).unwrap_err(), Error::MissingRequiredField);
}

#[test]
fn bad_body_after_good_signature_is_rejected() {
    let mut header = Header::new();
    header.typ = None;
    let t = JWS::from_custom(header, b"not json".to_vec());
    let encoded = t.encode(b"k", ALGORITHM::HS256).unwrap();
    assert_eq!(JWS::decode(encoded.clone(), b"k", ALGORITHM::HS256, true).unwrap_err(), Error::JsonParseError);
    let t = JWS::from_custom(Header::new(), vec![0xff]);
    let encoded = t.encode(b"k", ALGORITHM::HS256).unwrap();
    assert_eq!(JWS::decode(encoded, b"k", ALGORITHM::HS256, true).unwrap_err(), Error::Utf8DecodeError);
}

#[test]
fn elliptic_curve_algorithms_fail_closed() {
    let t = scenario_token();
    assert_eq!(t.encode(b"secret", ALGORITHM::ES256).unwrap_err(), Error::UnsupportedAlgorithm);
    assert_eq!(t.encode(b"secret", ALGORITHM::ES512).unwrap_err(), Error::UnsupportedAlgorithm);
    let mut es = scenario_token();
    es.header.alg = ALGORITHM::ES256;
    let encoded = es.encode(b"secret", ALGORITHM::HS256).unwrap();
    assert_eq!(JWS::decode(encoded, b"secret", ALGORITHM::ES256, true).unwrap_err(), Error::InvalidSignature);
}

#[test]
fn malformed_rsa_key_is_a_key_error() {
    let mut header = Header::new();
    header.alg = ALGORITHM::RS256;
    let t = JWS::from_claims(header, Claims::new());
    assert_eq!(t.encode(b"not a pem key", ALGORITHM::RS256).unwrap_err(), Error::KeyParseError);
}

#[test]
fn base64url_has_no_padding_and_url_safe_alphabet() {
    assert_eq!(base64_url_encode_bytes(b"hello"), "aGVsbG8");
    assert_eq!(base64_url_encode_bytes(&[0xfb, 0xff]), "-_8");
    assert_eq!(base64_url_encode("{}".to_owned()), "e30");
    assert_eq!(base64_url_encode_bytes(&[]), "");
}

#[test]
fn split_compact_finds_three_segments() {
    assert_eq!(split_compact("a.bc.d"), Some(("a", "bc", "d")));
    assert_eq!(split_compact(".."), Some(("", "", "")));
    assert_eq!(split_compact("a.b"), None);
    assert_eq!(split_compact("a.b.c."), None);
}
