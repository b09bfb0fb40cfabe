use jwt_jws::algorithm::ALGORITHM;
use jwt_jws::error::Error;
use jwt_jws::jws_header::Header;

#[test]
fn setting_reserved_headers_as_custom_does_nothing() {
    let mut h = Header::new();
    h.typ = Some("JWT".to_owned());
    h.set("typ", 245);
    let result: Option<u64> = h.get("typ");
    assert!(result.is_none());
    assert_eq!(h.typ.unwrap(), "JWT");
}

#[test]
fn you_can_set_and_retrieve_custom_headers() {
    let mut h = Header::new();
    h.set("DOG", 245);
    let result: Option<u64> = h.get("DOG");
    assert_eq!(result.unwrap(), 245);
}

#[test]
fn retrieving_a_custom_header_that_is_not_set_returns_none() {
    let h = Header::new();
    let result: Option<u64> = h.get("DOG");
    assert!(result.is_none());
}

#[test]
fn headers_can_be_serialized_to_and_from_json_preserving_all_fields() {
    let mut h = Header::new();
    h.typ = Some("JWT".to_owned());
    h.jku = Some("WHERE".to_owned());
    h.kid = Some("KEY".to_owned());
    h.x5u = Some("X5U".to_owned());
    h.x5t = Some("X5T".to_owned());
    h.set("ISS", "Something");
    h.set("RAT", 98);
    let json = h.to_json();
    let new_h: Header = Header::from_json(&json).unwrap();

    let new_iss: String = new_h.get("ISS").unwrap();
    let old_iss: String = h.get("ISS").unwrap();
    assert_eq!(new_iss, old_iss);

    let new_rat: u64 = new_h.get("RAT").unwrap();
    let old_rat: u64 = h.get("RAT").unwrap();
    assert_eq!(new_rat, old_rat);

    assert_eq!(new_h.typ.unwrap(), h.typ.unwrap());
    assert_eq!(new_h.alg, h.alg);
    assert_eq!(new_h.jku.unwrap(), h.jku.unwrap());
    assert_eq!(new_h.kid.unwrap(), h.kid.unwrap());
    assert_eq!(new_h.x5u.unwrap(), h.x5u.unwrap());
    assert_eq!(new_h.x5t.unwrap(), h.x5t.unwrap());
}

#[test]
fn header_json_has_canonical_order() {
    let mut h = Header::new();
    h.alg = ALGORITHM::RS384;
    h.kid = Some("k1".to_owned());
    h.typ = Some("JWT".to_owned());
    h.set("b", 2);
    h.set("a", "x");
    assert_eq!(h.to_json(), "{\"alg\":\"RS384\",\"typ\":\"JWT\",\"kid\":\"k1\",\"a\":\"x\",\"b\":2}");
}

#[test]
fn header_without_alg_is_missing_a_field() {
    assert_eq!(Header::from_json("{\"typ\":\"JWT\"}").unwrap_err(), Error::MissingRequiredField);
}

#[test]
fn header_with_unknown_alg_is_rejected() {
    assert_eq!(Header::from_json("{\"alg\":\"none\"}").unwrap_err(), Error::JsonParseError);
    assert_eq!(Header::from_json("not json").unwrap_err(), Error::JsonParseError);
}

#[test]
fn unknown_header_members_become_extension_fields() {
    let h = Header::from_json("{\"alg\":\"HS512\",\"cty\":\"x\",\"n\":3,\"obj\":{\"a\":[1,true]}}").unwrap();
    assert_eq!(h.alg, ALGORITHM::HS512);
    assert_eq!(h.get::<String>("cty"), Some("x".to_owned()));
    assert_eq!(h.get::<u32>("n"), Some(3));
    let obj = h.get::<jwt_jws::json::FieldValue>("obj").unwrap();
    assert!(matches!(obj, jwt_jws::json::FieldValue::Json(ref t) if t == "{\"a\":[1,true]}"));
}

#[test]
fn algorithm_names_round_trip() {
    let all = [
        ALGORITHM::HS256, ALGORITHM::HS384, ALGORITHM::HS512,
        ALGORITHM::RS256, ALGORITHM::RS384, ALGORITHM::RS512,
        ALGORITHM::ES256, ALGORITHM::ES384, ALGORITHM::ES512,
    ];
    for a in all.iter() {
        assert_eq!(ALGORITHM::from_name(a.name()), Some(*a));
    }
    assert_eq!(ALGORITHM::HS384.name(), "HS384");
    assert_eq!(ALGORITHM::from_name("hs256"), None);
}

#[test]
fn reserved_headers_have_setters_and_getters() {
    let mut h = Header::new();
    h.set_alg(ALGORITHM::RS512);
    h.set_jku(Some("u".to_owned()));
    h.set_kid(Some("k".to_owned()));
    h.set_x5u(Some("x".to_owned()));
    h.set_x5t(Some("t".to_owned()));
    assert_eq!(h.algorithm(), ALGORITHM::RS512);
    assert_eq!(h.jku(), Some("u".to_owned()));
    assert_eq!(h.kid(), Some("k".to_owned()));
    assert_eq!(h.x5u(), Some("x".to_owned()));
    assert_eq!(h.x5t(), Some("t".to_owned()));
    assert_eq!(h.to_json(), "{\"alg\":\"RS512\",\"jku\":\"u\",\"kid\":\"k\",\"x5u\":\"x\",\"x5t\":\"t\"}");
}
