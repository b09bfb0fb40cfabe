use jwt_jws::claims::Claims;

#[test]
fn setting_reserved_claims_as_custom_does_nothing() {
    let mut c = Claims::new();
    c.iss = Some("Dyn".to_owned());
    c.set("iss", 245);
    let result: Option<u64> = c.get("iss");
    assert!(result.is_none());
    assert_eq!(c.iss, Some("Dyn".to_owned()));
}

#[test]
fn you_can_set_and_retrieve_custom_claims() {
    let mut c = Claims::new();
    c.set("DOG", 245);
    let result: Option<u64> = c.get("DOG");
    assert_eq!(result.unwrap(), 245);
}

#[test]
fn retrieving_a_custom_claim_that_is_not_set_returns_none() {
    let c = Claims::new();
    let result: Option<u64> = c.get("DOG");
    assert!(result.is_none());
}

#[test]
fn claims_can_be_serialized_to_and_from_json_preserving_all_fields() {
    let mut h = Claims::new();
    h.iss = Some("WHERE".to_owned());
    h.sub = Some("KEY".to_owned());
    h.aud = Some("X5U".to_owned());
    h.exp = Some(2000);
    h.nbf = Some(3000);
    h.iat = Some(45000);
    h.jti = Some("DKDK".to_owned());
    h.set("ISS", "Something");
    h.set("RAT", 98);
    let json = h.to_json();
    let new_h: Claims = Claims::from_json(&json).unwrap();

    let new_iss: String = new_h.get("ISS").unwrap();
    let old_iss: String = h.get("ISS").unwrap();
    assert_eq!(new_iss, old_iss);

    let new_rat: u64 = new_h.get("RAT").unwrap();
    let old_rat: u64 = h.get("RAT").unwrap();
    assert_eq!(new_rat, old_rat);

    assert_eq!(new_h.iss.unwrap(), h.iss.unwrap());
    assert_eq!(new_h.sub.unwrap(), h.sub.unwrap());
    assert_eq!(new_h.aud.unwrap(), h.aud.unwrap());
    assert_eq!(new_h.exp.unwrap(), h.exp.unwrap());
    assert_eq!(new_h.nbf.unwrap(), h.nbf.unwrap());
    assert_eq!(new_h.iat.unwrap(), h.iat.unwrap());
    assert_eq!(new_h.jti.unwrap(), h.jti.unwrap());
}

#[test]
fn claims_json_puts_registered_claims_first_then_sorted_extensions() {
    let mut c = Claims::new();
    c.set("zeta", 1);
    c.set("alpha", "a");
    c.exp = Some(2000000000);
    c.iss = Some("svc-a".to_owned());
    assert_eq!(c.to_json(), "{\"iss\":\"svc-a\",\"exp\":2000000000,\"alpha\":\"a\",\"zeta\":1}");
}

#[test]
fn claims_with_wrong_registered_type_are_rejected() {
    assert_eq!(Claims::from_json("{\"exp\":\"soon\"}").unwrap_err(), jwt_jws::error::Error::JsonParseError);
    assert_eq!(Claims::from_json("{\"iss\":5}").unwrap_err(), jwt_jws::error::Error::JsonParseError);
    assert_eq!(Claims::from_json("[1,2]").unwrap_err(), jwt_jws::error::Error::JsonParseError);
}

#[test]
fn negative_and_large_integers_are_typed() {
    let mut c = Claims::new();
    c.set("neg", -7i64);
    c.set("big", u64::MAX);
    let back = Claims::from_json(&c.to_json()).unwrap();
    assert_eq!(back.get::<i64>("neg"), Some(-7));
    assert_eq!(back.get::<u64>("neg"), None);
    assert_eq!(back.get::<u64>("big"), Some(u64::MAX));
    assert_eq!(back.get::<i64>("big"), None);
    assert_eq!(back.get::<String>("big"), None);
}

#[test]
fn registered_claims_have_setters_and_getters() {
    let mut c = Claims::new();
    c.set_iss(Some("svc-a".to_owned()));
    c.set_sub(Some("s".to_owned()));
    c.set_aud(Some("a".to_owned()));
    c.set_exp(Some(2000000000));
    c.set_nbf(Some(1));
    c.set_iat(Some(2));
    c.set_jti(Some("j".to_owned()));
    assert_eq!(c.iss(), Some("svc-a".to_owned()));
    assert_eq!(c.sub(), Some("s".to_owned()));
    assert_eq!(c.aud(), Some("a".to_owned()));
    assert_eq!(c.exp(), Some(2000000000));
    assert_eq!(c.nbf(), Some(1));
    assert_eq!(c.iat(), Some(2));
    assert_eq!(c.jti(), Some("j".to_owned()));
    c.set_iss(None);
    assert_eq!(c.iss(), None);
    assert_eq!(c.to_json(), "{\"sub\":\"s\",\"aud\":\"a\",\"exp\":2000000000,\"nbf\":1,\"iat\":2,\"jti\":\"j\"}");
}

#[test]
fn integers_are_written_in_decimal() {
    let mut c = Claims::new();
    c.set("a", 0);
    c.set("b", -42i64);
    c.set("c", u64::MAX);
    c.set("d", i64::MIN);
    c.set("e", 1234567890u64);
    assert_eq!(
        c.to_json(),
        "{\"a\":0,\"b\":-42,\"c\":18446744073709551615,\"d\":-9223372036854775808,\"e\":1234567890}"
    );
}
