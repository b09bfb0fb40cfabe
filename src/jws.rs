use vstd::prelude::*;
use crate::algorithm::{family_of, ALGORITHM};
use crate::claims::{claims_from_json, claims_json, Claims, ClaimsView};
use crate::error::Error;
use vstd::string::StringExecFns;
use crate::field_bag::{bag_get, lemma_sorted_canonical, Entries};
use crate::jws_header::{header_from_json, header_json, opt_view, Header, HeaderView};
use crate::signing::{sign, signature_of, verifies, verify};
use crate::text::str_eq;
use rustc_serialize::base64::{FromBase64, ToBase64, URL_SAFE};
use vstd::utf8::{decode_utf8, encode_utf8, valid_utf8};

verus! {

/// The base64url text (URL-safe alphabet, no padding, no line breaks) that
/// rustc_serialize writes for some bytes.
pub uninterp spec fn b64url_of(b: Seq<u8>) -> Seq<char>;

/// The bytes that rustc_serialize reads from base64 text, or `None` where it
/// rejects the text.
pub uninterp spec fn b64_decoded(t: Seq<char>) -> Option<Seq<u8>>;

/// A character of the URL-safe base64 alphabet.
pub open spec fn is_b64url_char(c: char) -> bool {
    (65 <= c as u32 <= 90) || (97 <= c as u32 <= 122) || (48 <= c as u32 <= 57) || c == '-' || c == '_'
}

/// Relies on rustc_serialize's `ToBase64` for byte slices under `URL_SAFE`:
/// URL-safe character set, no padding, no line length, so only alphabet
/// characters, four for each three bytes and two or three for a remainder.
/// Its `FromBase64` maps each of these characters back and reads a final group
/// of two or three characters as one or two bytes, so it reads the bytes back.
#[verifier::external_body]
fn to_base64url(b: &[u8]) -> (r: String)
    ensures
        r@ == b64url_of(b@),
        forall|i: int| 0 <= i < r@.len() ==> is_b64url_char(#[trigger] r@[i]),
        r@.len() == (4 * b@.len() + 2) / 3,
        b64_decoded(r@) == Some(b@),
{
    b.to_base64(URL_SAFE)
}

/// Relies on rustc_serialize's `FromBase64` for `str`.
#[verifier::external_body]
fn from_base64url(t: &str) -> (r: Option<Vec<u8>>)
    ensures
        r is Some <==> b64_decoded(t@) is Some,
        r is Some ==> r->0@ == b64_decoded(t@)->0,
{
    t.from_base64().ok()
}

/// Relies on `std::str::from_utf8`: accepts exactly the well-formed UTF-8 byte strings.
#[verifier::external_body]
fn utf8_str(b: &[u8]) -> (r: Option<&str>)
    ensures
        r is Some <==> valid_utf8(b@),
        r is Some ==> r->0@ == decode_utf8(b@),
{
    std::str::from_utf8(b).ok()
}

/// The base64url text of a string's UTF-8 bytes.
pub fn base64_url_encode(value: String) -> (r: String)
    ensures
        r@ == b64url_of(encode_utf8(value@)),
        forall|i: int| 0 <= i < r@.len() ==> is_b64url_char(#[trigger] r@[i]),
        b64_decoded(r@) == Some(encode_utf8(value@)),
{
    base64_url_encode_bytes(value.as_str().as_bytes())
}

/// The base64url text of some bytes.
pub fn base64_url_encode_bytes(bytes: &[u8]) -> (r: String)
    ensures
        r@ == b64url_of(bytes@),
        forall|i: int| 0 <= i < r@.len() ==> is_b64url_char(#[trigger] r@[i]),
        r@.len() == (4 * bytes@.len() + 2) / 3,
        b64_decoded(r@) == Some(bytes@),
{
    to_base64url(bytes)
}


/// `i` and `j` are the positions of the only two dots of `s`.
pub open spec fn dots_at(s: Seq<char>, i: int, j: int) -> bool {
    &&& 0 <= i < j < s.len()
    &&& s[i] == '.'
    &&& s[j] == '.'
    &&& forall|k: int| 0 <= k < s.len() && k != i && k != j ==> #[trigger] s[k] != '.'
}

/// The three segments of a compact string, or `None` unless it has exactly two dots.
pub open spec fn compact_parts(s: Seq<char>) -> Option<(Seq<char>, Seq<char>, Seq<char>)> {
    if exists|i: int, j: int| dots_at(s, i, j) {
        let (i, j) = choose|i: int, j: int| dots_at(s, i, j);
        Some((s.take(i), s.subrange(i + 1, j), s.skip(j + 1)))
    } else {
        None
    }
}

/// Three segments joined by dots.
pub open spec fn compact_join(a: Seq<char>, b: Seq<char>, c: Seq<char>) -> Seq<char> {
    a + seq!['.'] + b + seq!['.'] + c
}

pub open spec fn dot_free(s: Seq<char>) -> bool {
    forall|k: int| 0 <= k < s.len() ==> #[trigger] s[k] != '.'
}

proof fn lemma_dots_unique(s: Seq<char>, i: int, j: int)
    requires
        dots_at(s, i, j),
    ensures
        compact_parts(s) == Some((s.take(i), s.subrange(i + 1, j), s.skip(j + 1))),
{
    let (a, b) = choose|a: int, b: int| dots_at(s, a, b);
    assert(s[i] == '.' && s[j] == '.');
    if a != i {
        assert(i == b);
        assert(j != a && j != b);
    }
    if b != j {
        assert(j == a);
    }
}

/// Splitting what was joined gives back the segments, when they hold no dot.
pub proof fn lemma_split_join(a: Seq<char>, b: Seq<char>, c: Seq<char>)
    requires
        dot_free(a),
        dot_free(b),
        dot_free(c),
    ensures
        compact_parts(compact_join(a, b, c)) == Some((a, b, c)),
{
    let s = compact_join(a, b, c);
    let i = a.len() as int;
    let j = (a.len() + 1 + b.len()) as int;
    assert forall|k: int| 0 <= k < s.len() && k != i && k != j implies #[trigger] s[k] != '.' by {
        if k < i {
            assert(s[k] == a[k]);
        } else if k < j {
            assert(s[k] == b[k - i - 1]);
        } else {
            assert(s[k] == c[k - j - 1]);
        }
    }
    assert(dots_at(s, i, j));
    lemma_dots_unique(s, i, j);
    assert(s.take(i) == a);
    assert(s.subrange(i + 1, j) == b);
    assert(s.skip(j + 1) == c);
}

/// Splits a compact string into its three segments; `None` unless it has
/// exactly two dots.
pub fn split_compact(token: &str) -> (r: Option<(&str, &str, &str)>)
    ensures
        r is None <==> compact_parts(token@) is None,
        (r matches Some((a, b, c)) ==> compact_parts(token@) == Some((a@, b@, c@))),
{
    let ghost s = token@;
    let n = token.unicode_len();
    let mut first: usize = 0;
    let mut second: usize = 0;
    let mut count: usize = 0;
    let mut i: usize = 0;
    while i < n
        invariant
            n == s.len(),
            s == token@,
            i <= n,
            count <= 2,
            count == 0 ==> forall|k: int| 0 <= k < i ==> #[trigger] s[k] != '.',
            count >= 1 ==> first < i && s[first as int] == '.',
            count == 1 ==> forall|k: int| 0 <= k < i && k != first ==> #[trigger] s[k] != '.',
            count == 2 ==> first < second < i && s[second as int] == '.',
            count == 2 ==> forall|k: int| 0 <= k < i && k != first && k != second ==> #[trigger] s[k] != '.',
        decreases n - i,
    {
        if token.get_char(i) == '.' {
            if count == 0 {
                first = i;
            } else if count == 1 {
                second = i;
            } else {
                proof {
                    if exists|a: int, b: int| dots_at(s, a, b) {
                        let (a, b) = choose|a: int, b: int| dots_at(s, a, b);
                        assert(s[first as int] == '.');
                        assert(s[second as int] == '.');
                        assert(s[i as int] == '.');
                    }
                }
                return None;
            }
            count = count + 1;
        }
        i = i + 1;
    }
    if count < 2 {
        proof {
            if exists|a: int, b: int| dots_at(s, a, b) {
                let (a, b) = choose|a: int, b: int| dots_at(s, a, b);
                assert(s[a] == '.');
                assert(s[b] == '.');
            }
        }
        return None;
    }
    proof {
        assert(dots_at(s, first as int, second as int));
        lemma_dots_unique(s, first as int, second as int);
    }
    let a = token.substring_char(0, first);
    let b = token.substring_char(first + 1, second);
    let c = token.substring_char(second + 1, n);
    proof {
        assert(a@ == s.take(first as int));
        assert(c@ == s.skip(second + 1));
    }
    Some((a, b, c))
}

/// A token's body: structured claims, or opaque bytes with their declared type.
#[derive(Debug, Clone)]
pub enum JWSBody {
    Custom { value: Vec<u8>, typ: Option<String> },
    JWT { claims: Claims },
}

/// A signed token: a header and a body.
#[derive(Debug, Clone)]
pub struct JWS {
    pub header: Header,
    pub body: JWSBody,
}

pub enum BodyView {
    Custom { value: Seq<u8>, typ: Option<Seq<char>> },
    JWT { claims: ClaimsView },
}

pub struct JWSView {
    pub header: HeaderView,
    pub body: BodyView,
}

impl View for JWSBody {
    type V = BodyView;

    open spec fn view(&self) -> BodyView {
        match self {
            JWSBody::Custom { value, typ } => BodyView::Custom { value: value@, typ: opt_view(*typ) },
            JWSBody::JWT { claims } => BodyView::JWT { claims: claims@ },
        }
    }
}

impl View for JWS {
    type V = JWSView;

    open spec fn view(&self) -> JWSView {
        JWSView { header: self.header@, body: self.body@ }
    }
}

pub open spec fn name_jwt() -> Seq<char> {
    seq!['J', 'W', 'T']
}

/// The type a body declares: `JWT` for claims, the caller's for opaque bytes.
pub open spec fn body_typ(b: BodyView) -> Option<Seq<char>> {
    match b {
        BodyView::Custom { typ, .. } => typ,
        BodyView::JWT { .. } => Some(name_jwt()),
    }
}

/// The bytes a body is sent as: the claims' JSON text, or the opaque bytes.
pub open spec fn body_bytes(b: BodyView) -> Seq<u8> {
    match b {
        BodyView::Custom { value, .. } => value,
        BodyView::JWT { claims } => encode_utf8(claims_json(claims)),
    }
}

/// The header as sent: its `typ` replaced by the body's.
pub open spec fn sent_header(t: JWSView) -> HeaderView {
    HeaderView { typ: body_typ(t.body), ..t.header }
}

/// The signed part of a token: base64url header JSON, a dot, base64url body.
pub open spec fn payload_text(t: JWSView) -> Seq<char> {
    b64url_of(encode_utf8(header_json(sent_header(t)))) + seq!['.'] + b64url_of(body_bytes(t.body))
}

/// The compact string for a token, or why signing failed.
pub open spec fn encoded(t: JWSView, key: Seq<u8>, alg: ALGORITHM) -> Result<Seq<char>, Error> {
    match signature_of(alg, key, encode_utf8(payload_text(t))) {
        Ok(sig) => Ok(payload_text(t) + seq!['.'] + b64url_of(sig)),
        Err(e) => Err(e),
    }
}

/// Whether a signature segment checks out: it must be the canonical base64url
/// text of bytes that `verify` accepts.
pub open spec fn signature_ok(alg: ALGORITHM, key: Seq<u8>, sig_text: Seq<char>, msg: Seq<u8>) -> bool {
    match b64_decoded(sig_text) {
        None => false,
        Some(sig) => b64url_of(sig) == sig_text && verifies(alg, key, sig, msg),
    }
}

/// What decoding a body segment gives, once the signature is checked.
pub open spec fn decoded_body(h: HeaderView, seg: Seq<char>, decode_claims: bool) -> Result<JWSView, Error> {
    match b64_decoded(seg) {
        None => Err(Error::Base64DecodeError),
        Some(bytes) => if !decode_claims {
            Ok(JWSView { header: h, body: BodyView::Custom { value: bytes, typ: h.typ } })
        } else if !valid_utf8(bytes) {
            Err(Error::Utf8DecodeError)
        } else {
            match claims_from_json(decode_utf8(bytes)) {
                Ok(c) => Ok(JWSView { header: h, body: BodyView::JWT { claims: c } }),
                Err(e) => Err(e),
            }
        },
    }
}

/// What decoding a compact string gives: the token, or the first check that failed.
pub open spec fn decoded(token: Seq<char>, key: Seq<u8>, alg: ALGORITHM, decode_claims: bool) -> Result<JWSView, Error> {
    match compact_parts(token) {
        None => Err(Error::MalformedCompactString),
        Some((h64, b64, s64)) => match b64_decoded(h64) {
            None => Err(Error::Base64DecodeError),
            Some(hb) => if !valid_utf8(hb) {
                Err(Error::Utf8DecodeError)
            } else {
                match header_from_json(decode_utf8(hb)) {
                    Err(e) => Err(e),
                    Ok(h) => if h.alg != alg || !signature_ok(alg, key, s64, encode_utf8(h64 + seq!['.'] + b64)) {
                        Err(Error::InvalidSignature)
                    } else {
                        decoded_body(h, b64, decode_claims)
                    },
                }
            },
        },
    }
}

/// The header a compact string declares, or why it has none.
pub open spec fn token_header(token: Seq<char>) -> Result<HeaderView, Error> {
    match compact_parts(token) {
        None => Err(Error::MalformedCompactString),
        Some((h64, b64, s64)) => match b64_decoded(h64) {
            None => Err(Error::Base64DecodeError),
            Some(hb) => if !valid_utf8(hb) {
                Err(Error::Utf8DecodeError)
            } else {
                header_from_json(decode_utf8(hb))
            },
        },
    }
}

/// A token whose header declares another algorithm than the one expected is
/// rejected as an invalid signature, whatever the key and the signature.
pub proof fn lemma_algorithm_mismatch_rejected(token: Seq<char>, key: Seq<u8>, expected: ALGORITHM, decode_claims: bool)
    requires
        token_header(token) is Ok,
        token_header(token)->Ok_0.alg != expected,
    ensures
        decoded(token, key, expected, decode_claims) == Err::<JWSView, Error>(Error::InvalidSignature),
{
}

/// Under an HMAC algorithm, the signature that `sign` makes is one that `verify` accepts.
pub proof fn lemma_hmac_signature_verifies(alg: ALGORITHM, key: Seq<u8>, msg: Seq<u8>)
    requires
        family_of(alg) is Hmac,
        signature_of(alg, key, msg) is Ok,
    ensures
        verifies(alg, key, signature_of(alg, key, msg)->Ok_0, msg),
{
}

/// Under an HMAC algorithm, a signature segment other than the base64url text
/// of the tag over the signed text fails the check, and decoding a token with
/// that segment fails; once its header reads, it fails as an invalid signature.
pub proof fn lemma_altered_signature_rejected(
    alg: ALGORITHM,
    key: Seq<u8>,
    token: Seq<char>,
    h64: Seq<char>,
    b64: Seq<char>,
    s64: Seq<char>,
    decode_claims: bool,
)
    requires
        family_of(alg) is Hmac,
        compact_parts(token) == Some((h64, b64, s64)),
        signature_of(alg, key, encode_utf8(h64 + seq!['.'] + b64)) is Ok,
        s64 != b64url_of(signature_of(alg, key, encode_utf8(h64 + seq!['.'] + b64))->Ok_0),
    ensures
        !signature_ok(alg, key, s64, encode_utf8(h64 + seq!['.'] + b64)),
        decoded(token, key, alg, decode_claims) is Err,
        token_header(token) is Ok ==> decoded(token, key, alg, decode_claims) == Err::<JWSView, Error>(
            Error::InvalidSignature,
        ),
{
}

/// Base64url text that decodes back to the bytes it was written from and holds no dot.
pub open spec fn b64_inverts(b: Seq<u8>) -> bool {
    b64_decoded(b64url_of(b)) == Some(b) && dot_free(b64url_of(b))
}

/// The protocol's own steps compose to a round trip under an HMAC algorithm:
/// if base64url and the JSON reading invert what was written for this token
/// (conditions on the outside codecs, stated here as hypotheses), decoding
/// what `encode` wrote gives back the sent header and the claims.
pub proof fn lemma_round_trip_given_codecs(t: JWSView, key: Seq<u8>, alg: ALGORITHM, c: ClaimsView)
    requires
        family_of(alg) is Hmac,
        t.header.alg == alg,
        t.body == (BodyView::JWT { claims: c }),
        signature_of(alg, key, encode_utf8(payload_text(t))) is Ok,
        b64_inverts(encode_utf8(header_json(sent_header(t)))),
        b64_inverts(body_bytes(t.body)),
        b64_inverts(signature_of(alg, key, encode_utf8(payload_text(t)))->Ok_0),
        header_from_json(header_json(sent_header(t))) == Ok::<HeaderView, Error>(sent_header(t)),
        claims_from_json(claims_json(c)) == Ok::<ClaimsView, Error>(c),
    ensures
        encoded(t, key, alg) is Ok,
        decoded(encoded(t, key, alg)->Ok_0, key, alg, true) == Ok::<JWSView, Error>(
            JWSView { header: sent_header(t), body: t.body },
        ),
{
    let hj = encode_utf8(header_json(sent_header(t)));
    let bb = body_bytes(t.body);
    let sig = signature_of(alg, key, encode_utf8(payload_text(t)))->Ok_0;
    let tok = encoded(t, key, alg)->Ok_0;
    assert(tok == compact_join(b64url_of(hj), b64url_of(bb), b64url_of(sig)));
    lemma_split_join(b64url_of(hj), b64url_of(bb), b64url_of(sig));
    vstd::utf8::encode_utf8_valid_utf8(header_json(sent_header(t)));
    vstd::utf8::encode_utf8_decode_utf8(header_json(sent_header(t)));
    vstd::utf8::encode_utf8_valid_utf8(claims_json(c));
    vstd::utf8::encode_utf8_decode_utf8(claims_json(c));
    assert(payload_text(t) == b64url_of(hj) + seq!['.'] + b64url_of(bb));
    assert(signature_ok(alg, key, b64url_of(sig), encode_utf8(payload_text(t))));
}

/// Two extension field lists that hold the same value under every name.
pub open spec fn same_fields(e1: Entries, e2: Entries) -> bool {
    forall|k: Seq<char>| bag_get(e1, k) == bag_get(e2, k)
}

/// Two tokens with the same content: equal reserved fields, the same extension
/// fields whatever order they were set in, and the same body.
pub open spec fn same_content(a: JWSView, b: JWSView) -> bool {
    &&& (HeaderView { ext: b.header.ext, ..a.header }) == b.header
    &&& same_fields(a.header.ext, b.header.ext)
    &&& match (a.body, b.body) {
        (BodyView::JWT { claims: c1 }, BodyView::JWT { claims: c2 }) => {
            &&& (ClaimsView { ext: c2.ext, ..c1 }) == c2
            &&& same_fields(c1.ext, c2.ext)
        },
        (BodyView::Custom { .. }, BodyView::Custom { .. }) => a.body == b.body,
        _ => false,
    }
}

/// Encoding depends on a token's content alone: tokens with the same content
/// encode to the same string under the same key and algorithm.
pub proof fn lemma_encode_deterministic(t1: JWS, t2: JWS, key: Seq<u8>, alg: ALGORITHM)
    requires
        t1.wf(),
        t2.wf(),
        same_content(t1@, t2@),
    ensures
        encoded(t1@, key, alg) == encoded(t2@, key, alg),
{
    t1.header.lemma_wf();
    t2.header.lemma_wf();
    lemma_sorted_canonical(t1@.header.ext, t2@.header.ext);
    match (&t1.body, &t2.body) {
        (JWSBody::JWT { claims: c1 }, JWSBody::JWT { claims: c2 }) => {
            c1.lemma_wf();
            c2.lemma_wf();
            lemma_sorted_canonical(c1@.ext, c2@.ext);
        },
        _ => {},
    }
    assert(t1@ == t2@);
}

impl JWS {
    pub open spec fn wf(&self) -> bool {
        &&& self.header.wf()
        &&& (match &self.body {
            JWSBody::JWT { claims } => claims.wf(),
            _ => true,
        })
    }

    /// A token whose body is a claims set.
    pub fn from_claims(header: Header, claims: Claims) -> (r: JWS)
        ensures
            r@ == (JWSView { header: header@, body: BodyView::JWT { claims: claims@ } }),
            header.wf() && claims.wf() ==> r.wf(),
    {
        JWS { header, body: JWSBody::JWT { claims } }
    }

    /// A token whose body is opaque bytes, declaring the header's type.
    pub fn from_custom(header: Header, value: Vec<u8>) -> (r: JWS)
        ensures
            r@ == (JWSView { header: header@, body: BodyView::Custom { value: value@, typ: header@.typ } }),
            header.wf() ==> r.wf(),
    {
        let typ = header.typ_copy();
        JWS { header, body: JWSBody::Custom { value, typ } }
    }

    /// The bytes the body is sent as.
    pub fn get_body_bytes(&self) -> (r: Vec<u8>)
        ensures
            r@ == body_bytes(self@.body),
    {
        match &self.body {
            JWSBody::Custom { value, .. } => value.clone(),
            JWSBody::JWT { claims } => claims.to_json().as_str().as_bytes_vec(),
        }
    }

    /// The type the body declares.
    pub fn get_body_typ(&self) -> (r: Option<String>)
        ensures
            opt_view(r) == body_typ(self@.body),
    {
        match &self.body {
            JWSBody::Custom { typ, .. } => crate::jws_header::copy_opt(typ),
            JWSBody::JWT { .. } => {
                proof {
                    reveal_strlit("JWT");
                    assert("JWT"@ == name_jwt());
                }
                Some("JWT".to_owned())
            },
        }
    }

    /// The signed part: base64url of the sent header's JSON, a dot, base64url of the body.
    pub fn serialize_payload(&self) -> (r: String)
        requires
            self.wf(),
        ensures
            r@ == payload_text(self@),
            forall|i: int| 0 <= i < r@.len() && r@[i] == '.' ==> i == b64url_of(encode_utf8(header_json(sent_header(self@)))).len(),
    {
        let mut final_header = self.header.duplicate();
        final_header.set_typ(self.get_body_typ());
        let header_json = final_header.to_json();
        let body = self.get_body_bytes();
        let mut out = base64_url_encode(header_json);
        let ghost h64 = out@;
        out.append(".");
        let b64 = base64_url_encode_bytes(body.as_slice());
        out.append(b64.as_str());
        proof {
            reveal_strlit(".");
            assert forall|i: int| 0 <= i < out@.len() && out@[i] == '.' implies i == h64.len() by {
                if i < h64.len() {
                    assert(out@[i] == h64[i]);
                    assert(is_b64url_char(h64[i]));
                } else if i > h64.len() {
                    assert(out@[i] == b64@[i - h64.len() - 1]);
                    assert(is_b64url_char(b64@[i - h64.len() - 1]));
                }
            }
        }
        out
    }

    /// Encodes the token as a compact string signed under `alg` with `secret`.
    /// A claims body makes the header declare `typ` "JWT".
    pub fn encode(&self, secret: &[u8], alg: ALGORITHM) -> (r: Result<String, Error>)
        requires
            self.wf(),
        ensures
            r is Ok <==> encoded(self@, secret@, alg) is Ok,
            r is Ok ==> r->Ok_0@ == encoded(self@, secret@, alg)->Ok_0,
            r is Err ==> encoded(self@, secret@, alg) == Err::<Seq<char>, Error>(r->Err_0),
    {
        let mut payload = self.serialize_payload();
        let signature = match sign(alg, secret, payload.as_str().as_bytes()) {
            Ok(s) => s,
            Err(e) => {
                return Err(e);
            },
        };
        let b64_sig = base64_url_encode_bytes(signature.as_slice());
        payload.append(".");
        payload.append(b64_sig.as_str());
        proof {
            reveal_strlit(".");
        }
        Ok(payload)
    }

    /// Checks a signature segment against the signed text under `algorithm`.
    /// Malformed or non-canonical base64url, a bad key and a bad signature all
    /// give `false`.
    pub fn verify_signature(payload: &str, signature: &str, secret: &[u8], algorithm: ALGORITHM) -> (r: bool)
        ensures
            r == signature_ok(algorithm, secret@, signature@, encode_utf8(payload@)),
    {
        match from_base64url(signature) {
            None => false,
            Some(sig) => {
                let again = base64_url_encode_bytes(sig.as_slice());
                str_eq(again.as_str(), signature) && verify(algorithm, secret, sig.as_slice(), payload.as_bytes())
            },
        }
    }

    /// Decodes a compact string, verifying its signature under the algorithm
    /// the caller expects and `secret`. The body is read as claims when
    /// `decode_claims` holds, else kept as bytes.
    pub fn decode(value: String, secret: &[u8], algorithm: ALGORITHM, decode_claims: bool) -> (r: Result<JWS, Error>)
        ensures
            r is Ok <==> decoded(value@, secret@, algorithm, decode_claims) is Ok,
            r is Ok ==> r->Ok_0.wf() && r->Ok_0@ == decoded(value@, secret@, algorithm, decode_claims)->Ok_0,
            r is Err ==> decoded(value@, secret@, algorithm, decode_claims) == Err::<JWSView, Error>(r->Err_0),
    {
        let (h64, b64, s64) = match split_compact(value.as_str()) {
            Some(parts) => parts,
            None => {
                return Err(Error::MalformedCompactString);
            },
        };
        let header_bytes = match from_base64url(h64) {
            Some(b) => b,
            None => {
                return Err(Error::Base64DecodeError);
            },
        };
        let header_text = match utf8_str(header_bytes.as_slice()) {
            Some(t) => t,
            None => {
                return Err(Error::Utf8DecodeError);
            },
        };
        let header = match Header::from_json(header_text) {
            Ok(h) => h,
            Err(e) => {
                return Err(e);
            },
        };
        let mut payload = h64.to_owned();
        payload.append(".");
        payload.append(b64);
        proof {
            reveal_strlit(".");
        }
        let same_alg = header.algorithm() == algorithm;
        if !same_alg || !JWS::verify_signature(payload.as_str(), s64, secret, algorithm) {
            proof {
                assert(payload@ == h64@ + seq!['.'] + b64@);
                assert(compact_parts(value@) == Some((h64@, b64@, s64@)));
                assert(header_from_json(decode_utf8(header_bytes@)) == Ok::<HeaderView, Error>(header@));
            }
            return Err(Error::InvalidSignature);
        }
        proof {
            assert(payload@ == h64@ + seq!['.'] + b64@);
            assert(compact_parts(value@) == Some((h64@, b64@, s64@)));
            assert(header_from_json(decode_utf8(header_bytes@)) == Ok::<HeaderView, Error>(header@));
            assert(decoded(value@, secret@, algorithm, decode_claims) == decoded_body(header@, b64@, decode_claims));
        }
        let body = match from_base64url(b64) {
            Some(b) => b,
            None => {
                return Err(Error::Base64DecodeError);
            },
        };
        if decode_claims {
            let body_text = match utf8_str(body.as_slice()) {
                Some(t) => t,
                None => {
                    return Err(Error::Utf8DecodeError);
                },
            };
            match Claims::from_json(body_text) {
                Ok(claims) => Ok(JWS::from_claims(header, claims)),
                Err(e) => Err(e),
            }
        } else {
            Ok(JWS::from_custom(header, body))
        }
    }

    /// Decodes a compact string whose body is a claims set.
    pub fn decode_jwt(value: String, secret: &[u8], algorithm: ALGORITHM) -> (r: Result<JWS, Error>)
        ensures
            r is Ok <==> decoded(value@, secret@, algorithm, true) is Ok,
            r is Ok ==> r->Ok_0.wf() && r->Ok_0@ == decoded(value@, secret@, algorithm, true)->Ok_0,
            r is Err ==> decoded(value@, secret@, algorithm, true) == Err::<JWSView, Error>(r->Err_0),
    {
        JWS::decode(value, secret, algorithm, true)
    }
}

} // verus!
