use vstd::prelude::*;
use crate::algorithm::{family_of, ALGORITHM, Family, HashWidth};
use crate::error::Error;
use openssl::hash::MessageDigest;
use openssl::pkey::PKey;
use openssl::rsa::Rsa;
use openssl::sign::{Signer, Verifier};

verus! {

/// The HMAC tag that OpenSSL computes with the digest of width `w`, or
/// `None` where OpenSSL refuses the key.
pub uninterp spec fn hmac_of(w: HashWidth, key: Seq<u8>, msg: Seq<u8>) -> Option<Seq<u8>>;

/// The RSA PKCS#1 v1.5 signature that OpenSSL computes over the digest of
/// width `w` with the private key in `pem` (an encrypted key is read with the
/// empty passphrase), or `None` where it fails.
pub uninterp spec fn rsa_signature_of(w: HashWidth, pem: Seq<u8>, msg: Seq<u8>) -> Option<Seq<u8>>;

/// Whether OpenSSL accepts `sig` for `msg` under the RSA public key in `pem`;
/// `None` where the key cannot be read or the check fails.
pub uninterp spec fn rsa_public_accepts(w: HashWidth, pem: Seq<u8>, sig: Seq<u8>, msg: Seq<u8>) -> Option<bool>;

/// Whether OpenSSL accepts `sig` for `msg` under the public half of the RSA
/// private key in `pem` (an encrypted key is read with the empty passphrase);
/// `None` where the key cannot be read or the check fails.
pub uninterp spec fn rsa_private_accepts(w: HashWidth, pem: Seq<u8>, sig: Seq<u8>, msg: Seq<u8>) -> Option<bool>;

/// The longest buffer that OpenSSL's key readers take: its length is passed
/// as a C `int`, and `PKey::hmac` and `MemBioSlice::new` assert this bound.
pub const C_INT_MAX: usize = 2147483647;

/// Relies on openssl's `PKey::hmac` and `Signer` (update, then `sign_to_vec`).
#[verifier::external_body]
fn openssl_hmac(w: HashWidth, key: &[u8], msg: &[u8]) -> (r: Option<Vec<u8>>)
    requires
        key@.len() <= C_INT_MAX,
    ensures
        r is Some <==> hmac_of(w, key@, msg@) is Some,
        r is Some ==> r->0@ == hmac_of(w, key@, msg@)->0,
{
    let md = match w {
        HashWidth::Sha256 => MessageDigest::sha256(),
        HashWidth::Sha384 => MessageDigest::sha384(),
        HashWidth::Sha512 => MessageDigest::sha512(),
    };
    let pkey = PKey::hmac(key).ok()?;
    let mut signer = Signer::new(md, &pkey).ok()?;
    signer.update(msg).ok()?;
    signer.sign_to_vec().ok()
}

/// Relies on openssl's `Rsa::private_key_from_pem_passphrase`, `PKey::from_rsa`
/// and `Signer` (PKCS#1 v1.5 padding, its default for RSA keys). The key is
/// read with an empty passphrase handed to OpenSSL, so no prompt is made.
/// `MemBioSlice::new` asserts the PEM length bound.
#[verifier::external_body]
fn openssl_rsa_sign(w: HashWidth, pem: &[u8], msg: &[u8]) -> (r: Option<Vec<u8>>)
    requires
        pem@.len() <= C_INT_MAX,
    ensures
        r is Some <==> rsa_signature_of(w, pem@, msg@) is Some,
        r is Some ==> r->0@ == rsa_signature_of(w, pem@, msg@)->0,
{
    let md = match w {
        HashWidth::Sha256 => MessageDigest::sha256(),
        HashWidth::Sha384 => MessageDigest::sha384(),
        HashWidth::Sha512 => MessageDigest::sha512(),
    };
    let pkey = PKey::from_rsa(Rsa::private_key_from_pem_passphrase(pem, b"").ok()?).ok()?;
    let mut signer = Signer::new(md, &pkey).ok()?;
    signer.update(msg).ok()?;
    signer.sign_to_vec().ok()
}

/// Relies on openssl's `Rsa::public_key_from_pem`, `PKey::from_rsa` and `Verifier`.
/// That reader hands OpenSSL no passphrase; PEM text without a `Proc-Type`
/// header declares no encryption, so OpenSSL asks for none.
/// `MemBioSlice::new` asserts the PEM length bound.
#[verifier::external_body]
fn openssl_rsa_verify_public(w: HashWidth, pem: &[u8], sig: &[u8], msg: &[u8]) -> (r: Option<bool>)
    requires
        pem@.len() <= C_INT_MAX,
        !has_infix(pem@, proc_type_tag()),
    ensures
        r == rsa_public_accepts(w, pem@, sig@, msg@),
{
    let md = match w {
        HashWidth::Sha256 => MessageDigest::sha256(),
        HashWidth::Sha384 => MessageDigest::sha384(),
        HashWidth::Sha512 => MessageDigest::sha512(),
    };
    let pkey = PKey::from_rsa(Rsa::public_key_from_pem(pem).ok()?).ok()?;
    let mut verifier = Verifier::new(md, &pkey).ok()?;
    verifier.update(msg).ok()?;
    verifier.verify(sig).ok()
}

/// Relies on openssl's `Rsa::private_key_from_pem_passphrase`, `PKey::from_rsa`
/// and `Verifier`; the empty passphrase is handed to OpenSSL, so no prompt is made.
/// `MemBioSlice::new` asserts the PEM length bound.
#[verifier::external_body]
fn openssl_rsa_verify_private(w: HashWidth, pem: &[u8], sig: &[u8], msg: &[u8]) -> (r: Option<bool>)
    requires
        pem@.len() <= C_INT_MAX,
    ensures
        r == rsa_private_accepts(w, pem@, sig@, msg@),
{
    let md = match w {
        HashWidth::Sha256 => MessageDigest::sha256(),
        HashWidth::Sha384 => MessageDigest::sha384(),
        HashWidth::Sha512 => MessageDigest::sha512(),
    };
    let pkey = PKey::from_rsa(Rsa::private_key_from_pem_passphrase(pem, b"").ok()?).ok()?;
    let mut verifier = Verifier::new(md, &pkey).ok()?;
    verifier.update(msg).ok()?;
    verifier.verify(sig).ok()
}

/// The HMAC tag of `msg` under `key`, or why there is none: a key longer than
/// OpenSSL takes, or one it refuses, is a key error.
pub open spec fn hmac_result(w: HashWidth, key: Seq<u8>, msg: Seq<u8>) -> Result<Seq<u8>, Error> {
    if key.len() > C_INT_MAX {
        Err(Error::KeyParseError)
    } else {
        match hmac_of(w, key, msg) {
            Some(t) => Ok(t),
            None => Err(Error::KeyParseError),
        }
    }
}

/// The RSA signature of `msg` under the private key `pem`, or a key error;
/// a PEM longer than OpenSSL reads is a key error.
pub open spec fn rsa_result(w: HashWidth, pem: Seq<u8>, msg: Seq<u8>) -> Result<Seq<u8>, Error> {
    if pem.len() > C_INT_MAX {
        Err(Error::KeyParseError)
    } else {
        match rsa_signature_of(w, pem, msg) {
            Some(s) => Ok(s),
            None => Err(Error::KeyParseError),
        }
    }
}

/// The bytes of `Proc-Type`, the PEM header that declares an encrypted body.
pub open spec fn proc_type_tag() -> Seq<u8> {
    seq![80u8, 114u8, 111u8, 99u8, 45u8, 84u8, 121u8, 112u8, 101u8]
}

/// Whether `needle` occurs in `hay` as a contiguous run.
pub open spec fn has_infix(hay: Seq<u8>, needle: Seq<u8>) -> bool {
    exists|i: int| 0 <= i && i + needle.len() <= hay.len() && #[trigger] hay.subrange(i, i + needle.len()) == needle
}

/// The public-key reading of `pem`: `None` where the text declares encryption,
/// since a public key is read without a passphrase.
pub open spec fn rsa_public_result(w: HashWidth, pem: Seq<u8>, sig: Seq<u8>, msg: Seq<u8>) -> Option<bool> {
    if has_infix(pem, proc_type_tag()) {
        None
    } else {
        rsa_public_accepts(w, pem, sig, msg)
    }
}

/// Whether an RSA signature checks out under `pem`, read as a public key or,
/// failing that, as a private key.
/// A PEM longer than OpenSSL reads accepts nothing.
pub open spec fn rsa_verifies(w: HashWidth, pem: Seq<u8>, sig: Seq<u8>, msg: Seq<u8>) -> bool {
    if pem.len() > C_INT_MAX {
        false
    } else {
        match rsa_public_result(w, pem, sig, msg) {
            Some(b) => b,
            None => match rsa_private_accepts(w, pem, sig, msg) {
                Some(b) => b,
                None => false,
            },
        }
    }
}

/// Whether `needle` occurs in `hay` as a contiguous run.
pub fn contains_bytes(hay: &[u8], needle: &[u8]) -> (r: bool)
    ensures
        r == has_infix(hay@, needle@),
{
    let n = hay.len();
    let m = needle.len();
    if m > n {
        return false;
    }
    if m == 0 {
        assert(hay@.subrange(0int, 0int + needle@.len()) =~= needle@);
        return true;
    }
    let mut i: usize = 0;
    while i <= n - m
        invariant
            n == hay@.len(),
            m == needle@.len(),
            1 <= m <= n,
            i <= n - m + 1,
            forall|k: int| 0 <= k < i ==> #[trigger] hay@.subrange(k, k + m) != needle@,
        decreases n - m + 1 - i,
    {
        let mut j: usize = 0;
        let mut same = true;
        while j < m && same
            invariant
                n == hay@.len(),
                m == needle@.len(),
                i + m <= n,
                j <= m,
                same ==> hay@.subrange(i as int, i + j) == needle@.subrange(0, j as int),
                !same ==> hay@.subrange(i as int, i + m) != needle@,
            decreases m - j + (if same { 1int } else { 0int }),
        {
            if hay[i + j] != needle[j] {
                assert(hay@.subrange(i as int, i + m)[j as int] == hay@[i + j]);
                same = false;
            } else {
                assert(hay@.subrange(i as int, i + j + 1) == hay@.subrange(i as int, i + j).push(hay@[i + j]));
                assert(needle@.subrange(0, j + 1) == needle@.subrange(0, j as int).push(needle@[j as int]));
                j = j + 1;
            }
        }
        if same {
            assert(needle@.subrange(0, m as int) == needle@);
            return true;
        }
        i = i + 1;
    }
    proof {
        if has_infix(hay@, needle@) {
            let k = choose|k: int| 0 <= k && k + needle@.len() <= hay@.len() && #[trigger] hay@.subrange(k, k + needle@.len()) == needle@;
            assert(hay@.subrange(k, k + m) != needle@);
        }
    }
    false
}

/// The signature that `sign` produces under an algorithm.
pub open spec fn signature_of(alg: ALGORITHM, key: Seq<u8>, msg: Seq<u8>) -> Result<Seq<u8>, Error> {
    match family_of(alg) {
        Family::Hmac(w) => hmac_result(w, key, msg),
        Family::Rsa(w) => rsa_result(w, key, msg),
        Family::Unsupported => Err(Error::UnsupportedAlgorithm),
    }
}

/// Whether `verify` accepts a signature under an algorithm: an HMAC tag must
/// equal the recomputed one; an unsupported algorithm accepts nothing.
pub open spec fn verifies(alg: ALGORITHM, key: Seq<u8>, sig: Seq<u8>, msg: Seq<u8>) -> bool {
    match family_of(alg) {
        Family::Hmac(w) => match hmac_result(w, key, msg) {
            Ok(t) => t == sig,
            Err(_) => false,
        },
        Family::Rsa(w) => rsa_verifies(w, key, sig, msg),
        Family::Unsupported => false,
    }
}

/// Byte-for-byte equality whose running time depends on the lengths alone.
pub fn constant_time_eq(a: &[u8], b: &[u8]) -> (r: bool)
    ensures
        r == (a@ == b@),
{
    if a.len() != b.len() {
        return false;
    }
    let n = a.len();
    let mut acc: u8 = 0;
    let mut i: usize = 0;
    assert(a@.take(0) == b@.take(0));
    while i < n
        invariant
            n == a@.len(),
            n == b@.len(),
            i <= n,
            (acc == 0) == (a@.take(i as int) == b@.take(i as int)),
        decreases n - i,
    {
        let x = a[i];
        let y = b[i];
        let d = x ^ y;
        assert((d == 0) == (x == y)) by (bit_vector)
            requires
                d == x ^ y,
        ;
        let acc2 = acc | d;
        assert((acc2 == 0) == (acc == 0 && d == 0)) by (bit_vector)
            requires
                acc2 == acc | d,
        ;
        proof {
            assert(a@.take(i + 1) == a@.take(i as int).push(x));
            assert(b@.take(i + 1) == b@.take(i as int).push(y));
            if a@.take(i + 1) == b@.take(i + 1) {
                assert(a@.take(i + 1)[i as int] == b@.take(i + 1)[i as int]);
                assert(a@.take(i as int) == a@.take(i + 1).drop_last());
                assert(b@.take(i as int) == b@.take(i + 1).drop_last());
            }
        }
        acc = acc2;
        i = i + 1;
    }
    assert(a@.take(n as int) == a@);
    assert(b@.take(n as int) == b@);
    acc == 0
}

fn hmac_with(w: HashWidth, key: &[u8], payload: &[u8]) -> (r: Result<Vec<u8>, Error>)
    ensures
        r is Ok <==> hmac_result(w, key@, payload@) is Ok,
        r is Ok ==> r->Ok_0@ == hmac_result(w, key@, payload@)->Ok_0,
        r is Err ==> hmac_result(w, key@, payload@) == Err::<Seq<u8>, Error>(r->Err_0),
{
    if key.len() > C_INT_MAX {
        return Err(Error::KeyParseError);
    }
    match openssl_hmac(w, key, payload) {
        Some(t) => Ok(t),
        None => Err(Error::KeyParseError),
    }
}

/// HMAC-SHA256 of `payload` under `key`.
pub fn hmac_256(key: &[u8], payload: &[u8]) -> (r: Result<Vec<u8>, Error>)
    ensures
        r is Ok <==> hmac_result(HashWidth::Sha256, key@, payload@) is Ok,
        r is Ok ==> r->Ok_0@ == hmac_result(HashWidth::Sha256, key@, payload@)->Ok_0,
        r is Err ==> r->Err_0 == Error::KeyParseError,
{
    hmac_with(HashWidth::Sha256, key, payload)
}

/// HMAC-SHA384 of `payload` under `key`.
pub fn hmac_384(key: &[u8], payload: &[u8]) -> (r: Result<Vec<u8>, Error>)
    ensures
        r is Ok <==> hmac_result(HashWidth::Sha384, key@, payload@) is Ok,
        r is Ok ==> r->Ok_0@ == hmac_result(HashWidth::Sha384, key@, payload@)->Ok_0,
        r is Err ==> r->Err_0 == Error::KeyParseError,
{
    hmac_with(HashWidth::Sha384, key, payload)
}

/// HMAC-SHA512 of `payload` under `key`.
pub fn hmac_512(key: &[u8], payload: &[u8]) -> (r: Result<Vec<u8>, Error>)
    ensures
        r is Ok <==> hmac_result(HashWidth::Sha512, key@, payload@) is Ok,
        r is Ok ==> r->Ok_0@ == hmac_result(HashWidth::Sha512, key@, payload@)->Ok_0,
        r is Err ==> r->Err_0 == Error::KeyParseError,
{
    hmac_with(HashWidth::Sha512, key, payload)
}

fn rsa_sign_with(w: HashWidth, pem: &[u8], payload: &[u8]) -> (r: Result<Vec<u8>, Error>)
    ensures
        r is Ok <==> rsa_result(w, pem@, payload@) is Ok,
        r is Ok ==> r->Ok_0@ == rsa_result(w, pem@, payload@)->Ok_0,
        r is Err ==> rsa_result(w, pem@, payload@) == Err::<Seq<u8>, Error>(r->Err_0),
{
    if pem.len() > C_INT_MAX {
        return Err(Error::KeyParseError);
    }
    match openssl_rsa_sign(w, pem, payload) {
        Some(s) => Ok(s),
        None => Err(Error::KeyParseError),
    }
}

/// RSA signature over the SHA-256 digest of `payload`, with the PEM private key `key`.
pub fn sign_pk256(key: &[u8], payload: &[u8]) -> (r: Result<Vec<u8>, Error>)
    ensures
        r is Ok <==> rsa_result(HashWidth::Sha256, key@, payload@) is Ok,
        r is Ok ==> r->Ok_0@ == rsa_result(HashWidth::Sha256, key@, payload@)->Ok_0,
        r is Err ==> r->Err_0 == Error::KeyParseError,
{
    rsa_sign_with(HashWidth::Sha256, key, payload)
}

/// RSA signature over the SHA-384 digest of `payload`, with the PEM private key `key`.
pub fn sign_pk384(key: &[u8], payload: &[u8]) -> (r: Result<Vec<u8>, Error>)
    ensures
        r is Ok <==> rsa_result(HashWidth::Sha384, key@, payload@) is Ok,
        r is Ok ==> r->Ok_0@ == rsa_result(HashWidth::Sha384, key@, payload@)->Ok_0,
        r is Err ==> r->Err_0 == Error::KeyParseError,
{
    rsa_sign_with(HashWidth::Sha384, key, payload)
}

/// RSA signature over the SHA-512 digest of `payload`, with the PEM private key `key`.
pub fn sign_pk512(key: &[u8], payload: &[u8]) -> (r: Result<Vec<u8>, Error>)
    ensures
        r is Ok <==> rsa_result(HashWidth::Sha512, key@, payload@) is Ok,
        r is Ok ==> r->Ok_0@ == rsa_result(HashWidth::Sha512, key@, payload@)->Ok_0,
        r is Err ==> r->Err_0 == Error::KeyParseError,
{
    rsa_sign_with(HashWidth::Sha512, key, payload)
}

fn rsa_verify_with(w: HashWidth, pem: &[u8], signature: &[u8], payload: &[u8]) -> (r: bool)
    ensures
        r == rsa_verifies(w, pem@, signature@, payload@),
{
    if pem.len() > C_INT_MAX {
        return false;
    }
    let tag: Vec<u8> = vec![80u8, 114u8, 111u8, 99u8, 45u8, 84u8, 121u8, 112u8, 101u8];
    assert(tag@ == proc_type_tag());
    let public = if contains_bytes(pem, tag.as_slice()) {
        None
    } else {
        openssl_rsa_verify_public(w, pem, signature, payload)
    };
    match public {
        Some(b) => b,
        None => match openssl_rsa_verify_private(w, pem, signature, payload) {
            Some(b) => b,
            None => false,
        },
    }
}

/// Checks an RSA signature over the SHA-256 digest of `payload`; `key` is a PEM public or private key.
pub fn verify_pk256(key: &[u8], signature: &[u8], payload: &[u8]) -> (r: bool)
    ensures
        r == rsa_verifies(HashWidth::Sha256, key@, signature@, payload@),
{
    rsa_verify_with(HashWidth::Sha256, key, signature, payload)
}

/// Checks an RSA signature over the SHA-384 digest of `payload`; `key` is a PEM public or private key.
pub fn verify_pk384(key: &[u8], signature: &[u8], payload: &[u8]) -> (r: bool)
    ensures
        r == rsa_verifies(HashWidth::Sha384, key@, signature@, payload@),
{
    rsa_verify_with(HashWidth::Sha384, key, signature, payload)
}

/// Checks an RSA signature over the SHA-512 digest of `payload`; `key` is a PEM public or private key.
pub fn verify_pk512(key: &[u8], signature: &[u8], payload: &[u8]) -> (r: bool)
    ensures
        r == rsa_verifies(HashWidth::Sha512, key@, signature@, payload@),
{
    rsa_verify_with(HashWidth::Sha512, key, signature, payload)
}

/// Signs `message` under `algorithm`: HMAC with `key` as the secret, or RSA
/// with `key` as a PEM private key. The elliptic-curve algorithms fail.
pub fn sign(algorithm: ALGORITHM, key: &[u8], message: &[u8]) -> (r: Result<Vec<u8>, Error>)
    ensures
        r is Ok <==> signature_of(algorithm, key@, message@) is Ok,
        r is Ok ==> r->Ok_0@ == signature_of(algorithm, key@, message@)->Ok_0,
        r is Err ==> signature_of(algorithm, key@, message@) == Err::<Seq<u8>, Error>(r->Err_0),
{
    match algorithm.family() {
        Family::Hmac(w) => hmac_with(w, key, message),
        Family::Rsa(w) => rsa_sign_with(w, key, message),
        Family::Unsupported => Err(Error::UnsupportedAlgorithm),
    }
}

/// Checks `signature` over `message` under `algorithm`. HMAC tags are
/// compared in constant time; unsupported algorithms accept nothing.
pub fn verify(algorithm: ALGORITHM, key: &[u8], signature: &[u8], message: &[u8]) -> (r: bool)
    ensures
        r == verifies(algorithm, key@, signature@, message@),
{
    match algorithm.family() {
        Family::Hmac(w) => match hmac_with(w, key, message) {
            Ok(t) => constant_time_eq(t.as_slice(), signature),
            Err(_) => false,
        },
        Family::Rsa(w) => rsa_verify_with(w, key, signature, message),
        Family::Unsupported => false,
    }
}

} // verus!
