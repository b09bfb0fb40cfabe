use jwt_jws::algorithm::ALGORITHM;
use jwt_jws::error::Error;
use jwt_jws::signing::{constant_time_eq, contains_bytes, hmac_256, hmac_384, hmac_512, sign, sign_pk256, sign_pk384,
    sign_pk512, verify, verify_pk256, verify_pk384, verify_pk512};

fn hex(b: &[u8]) -> String {
    b.iter().map(|x| format!("{:02x}", x)).collect()
}

#[test]
fn hmac_matches_published_vectors() {
    let key = b"Jefe";
    let data = b"what do ya want for nothing?";
    assert_eq!(hex(&hmac_256(key, data).unwrap()), "5bdcc146bf60754e6a042426089575c75a003f089d2739839dec58b964ec3843");
    assert_eq!(
        hex(&hmac_384(key, data).unwrap()),
        "af45d2e376484031617f78d2b58a6b1b9c7ef464f5a01b47e42ec3736322445e8e2240ca5e69e2c78b3239ecfab21649"
    );
    assert_eq!(
        hex(&hmac_512(key, data).unwrap()),
        "164b7a7bfcf819e2e395fbe73b56e0a387bd64222e831fd610270cd7ea2505549758bf75c05a994a6d034f65f8f0e6fdcaeab1a34d4a6b4b636e070a38bce737"
    );
}

#[test]
fn sign_dispatches_by_algorithm() {
    let msg = b"payload";
    assert_eq!(sign(ALGORITHM::HS256, b"k", msg).unwrap(), hmac_256(b"k", msg).unwrap());
    assert_eq!(sign(ALGORITHM::HS384, b"k", msg).unwrap(), hmac_384(b"k", msg).unwrap());
    assert_eq!(sign(ALGORITHM::HS512, b"k", msg).unwrap(), hmac_512(b"k", msg).unwrap());
    assert_eq!(sign(ALGORITHM::ES384, b"k", msg).unwrap_err(), Error::UnsupportedAlgorithm);
    assert!(verify(ALGORITHM::HS256, b"k", &hmac_256(b"k", msg).unwrap(), msg));
    assert!(!verify(ALGORITHM::HS256, b"k", &hmac_384(b"k", msg).unwrap(), msg));
    assert!(!verify(ALGORITHM::ES256, b"k", b"anything", msg));
}

#[test]
fn rsa_sign_and_verify_at_each_width() {
    let rsa = openssl::rsa::Rsa::generate(2048).unwrap();
    let private_pem = rsa.private_key_to_pem().unwrap();
    let public_pem = rsa.public_key_to_pem().unwrap();
    let msg = b"message";
    let s256 = sign_pk256(&private_pem, msg).unwrap();
    let s384 = sign_pk384(&private_pem, msg).unwrap();
    let s512 = sign_pk512(&private_pem, msg).unwrap();
    assert!(verify_pk256(&public_pem, &s256, msg));
    assert!(verify_pk384(&public_pem, &s384, msg));
    assert!(verify_pk512(&public_pem, &s512, msg));
    assert!(!verify_pk256(&public_pem, &s384, msg));
    assert!(!verify_pk512(&public_pem, &s256, msg));
    assert!(!verify_pk256(&public_pem, &s256, b"other"));
    assert!(verify_pk256(&private_pem, &s256, msg));
    assert_eq!(sign_pk256(b"garbage", msg).unwrap_err(), Error::KeyParseError);
    assert!(!verify_pk256(b"garbage", &s256, msg));
}

#[test]
fn constant_time_eq_compares_bytes() {
    assert!(constant_time_eq(b"abc", b"abc"));
    assert!(!constant_time_eq(b"abc", b"abd"));
    assert!(!constant_time_eq(b"abc", b"ab"));
    assert!(constant_time_eq(b"", b""));
}

#[test]
fn encrypted_pem_keys_are_refused_without_prompting() {
    let rsa = openssl::rsa::Rsa::generate(2048).unwrap();
    let msg = b"message";
    let plain_private = rsa.private_key_to_pem().unwrap();
    let sig = sign_pk256(&plain_private, msg).unwrap();
    let encrypted = rsa
        .private_key_to_pem_passphrase(openssl::symm::Cipher::aes_128_cbc(), b"pw")
        .unwrap();
    assert_eq!(sign_pk256(&encrypted, msg).unwrap_err(), Error::KeyParseError);
    assert!(!verify_pk256(&encrypted, &sig, msg));
    let public = String::from_utf8(rsa.public_key_to_pem().unwrap()).unwrap();
    let tagged = public.replacen(
        "-----BEGIN PUBLIC KEY-----\n",
        "-----BEGIN PUBLIC KEY-----\nProc-Type: 4,ENCRYPTED\nDEK-Info: AES-128-CBC,00000000000000000000000000000000\n\n",
        1,
    );
    assert!(verify_pk256(public.as_bytes(), &sig, msg));
    assert!(!verify_pk256(tagged.as_bytes(), &sig, msg));
}

#[test]
fn contains_bytes_finds_runs() {
    assert!(contains_bytes(b"abcProc-Typexyz", b"Proc-Type"));
    assert!(contains_bytes(b"abc", b""));
    assert!(contains_bytes(b"abc", b"abc"));
    assert!(!contains_bytes(b"abProc-Typ", b"Proc-Type"));
    assert!(!contains_bytes(b"ab", b"abc"));
}
