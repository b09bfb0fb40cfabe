use vstd::prelude::*;
use crate::error::Error;
use crate::field_bag::{bag_get, bag_insert, lemma_bag_get_absent, lemma_bag_insert_sorted, Entries, FieldBag};
use crate::json::{classify, classify_text, json_object_members, json_string_of, json_u64_of,
    members_view, object_of_members, object_text, pairs_view, parse_object, parse_string, parse_u64,
    FieldValue, FromField, JsonValue, ToField};
use crate::jws_header::{copy_opt, opt_member, opt_view, push_opt_member};
use crate::text::str_eq;

verus! {

/// Token payload: registered claims and extension claims.
#[derive(Debug, Clone)]
pub struct Claims {
    pub iss: Option<String>,
    pub sub: Option<String>,
    pub aud: Option<String>,
    pub exp: Option<u64>,
    pub nbf: Option<u64>,
    pub iat: Option<u64>,
    pub jti: Option<String>,
    claims: FieldBag,
}

/// What a claims set denotes.
pub struct ClaimsView {
    pub iss: Option<Seq<char>>,
    pub sub: Option<Seq<char>>,
    pub aud: Option<Seq<char>>,
    pub exp: Option<u64>,
    pub nbf: Option<u64>,
    pub iat: Option<u64>,
    pub jti: Option<Seq<char>>,
    pub ext: Entries,
}

pub open spec fn name_iss() -> Seq<char> { seq!['i', 's', 's'] }
pub open spec fn name_sub() -> Seq<char> { seq!['s', 'u', 'b'] }
pub open spec fn name_aud() -> Seq<char> { seq!['a', 'u', 'd'] }
pub open spec fn name_exp() -> Seq<char> { seq!['e', 'x', 'p'] }
pub open spec fn name_nbf() -> Seq<char> { seq!['n', 'b', 'f'] }
pub open spec fn name_iat() -> Seq<char> { seq!['i', 'a', 't'] }
pub open spec fn name_jti() -> Seq<char> { seq!['j', 't', 'i'] }

/// The reserved claims whose values are strings.
pub open spec fn is_string_claim(k: Seq<char>) -> bool {
    k == name_iss() || k == name_sub() || k == name_aud() || k == name_jti()
}

/// The reserved claims whose values are unsigned integers.
pub open spec fn is_number_claim(k: Seq<char>) -> bool {
    k == name_exp() || k == name_nbf() || k == name_iat()
}

pub open spec fn is_reserved_claim(k: Seq<char>) -> bool {
    is_string_claim(k) || is_number_claim(k)
}

pub open spec fn num_member(name: Seq<char>, o: Option<u64>) -> Entries {
    match o {
        Some(n) => seq![(name, JsonValue::UInt(n))],
        None => Seq::empty(),
    }
}

/// The members of a claims object, in canonical order: the registered claims
/// that are set, then the extension claims.
pub open spec fn claims_members(c: ClaimsView) -> Entries {
    opt_member(name_iss(), c.iss) + opt_member(name_sub(), c.sub) + opt_member(name_aud(), c.aud)
        + num_member(name_exp(), c.exp) + num_member(name_nbf(), c.nbf) + num_member(name_iat(), c.iat)
        + opt_member(name_jti(), c.jti) + c.ext
}

/// A claims set's JSON text.
pub open spec fn claims_json(c: ClaimsView) -> Seq<char> {
    object_text(claims_members(c))
}

pub open spec fn empty_claims() -> ClaimsView {
    ClaimsView { iss: None, sub: None, aud: None, exp: None, nbf: None, iat: None, jti: None, ext: Seq::empty() }
}

/// Reading one member into a claims set: a registered claim must have its
/// type; any other member becomes an extension claim.
pub open spec fn claims_step(c: ClaimsView, m: (Seq<char>, Seq<char>)) -> Result<ClaimsView, Error> {
    if is_string_claim(m.0) {
        match json_string_of(m.1) {
            None => Err(Error::JsonParseError),
            Some(s) => if m.0 == name_iss() {
                Ok(ClaimsView { iss: Some(s), ..c })
            } else if m.0 == name_sub() {
                Ok(ClaimsView { sub: Some(s), ..c })
            } else if m.0 == name_aud() {
                Ok(ClaimsView { aud: Some(s), ..c })
            } else {
                Ok(ClaimsView { jti: Some(s), ..c })
            },
        }
    } else if is_number_claim(m.0) {
        match json_u64_of(m.1) {
            None => Err(Error::JsonParseError),
            Some(n) => if m.0 == name_exp() {
                Ok(ClaimsView { exp: Some(n), ..c })
            } else if m.0 == name_nbf() {
                Ok(ClaimsView { nbf: Some(n), ..c })
            } else {
                Ok(ClaimsView { iat: Some(n), ..c })
            },
        }
    } else {
        Ok(ClaimsView { ext: bag_insert(c.ext, m.0, classify(m.1)), ..c })
    }
}

/// The claims set that a list of members gives, or why it gives none.
pub open spec fn claims_from_members(ms: Seq<(Seq<char>, Seq<char>)>) -> Result<ClaimsView, Error>
    decreases ms.len(),
{
    if ms.len() == 0 {
        Ok(empty_claims())
    } else {
        match claims_from_members(ms.drop_last()) {
            Err(e) => Err(e),
            Ok(c) => claims_step(c, ms.last()),
        }
    }
}

/// The claims set that a JSON text gives, or why it gives none.
pub open spec fn claims_from_json(text: Seq<char>) -> Result<ClaimsView, Error> {
    match json_object_members(text) {
        None => Err(Error::JsonParseError),
        Some(ms) => claims_from_members(ms),
    }
}

proof fn lemma_claims_prefix_err(ms: Seq<(Seq<char>, Seq<char>)>, i: int)
    requires
        0 <= i <= ms.len(),
        claims_from_members(ms.take(i)) is Err,
    ensures
        claims_from_members(ms) == claims_from_members(ms.take(i)),
    decreases ms.len() - i,
{
    if i < ms.len() {
        assert(ms.take(i + 1).drop_last() == ms.take(i));
        lemma_claims_prefix_err(ms, i + 1);
    } else {
        assert(ms.take(i) == ms);
    }
}

proof fn lemma_claim_names()
    ensures
        "iss"@ == name_iss(),
        "sub"@ == name_sub(),
        "aud"@ == name_aud(),
        "exp"@ == name_exp(),
        "nbf"@ == name_nbf(),
        "iat"@ == name_iat(),
        "jti"@ == name_jti(),
{
    reveal_strlit("iss");
    reveal_strlit("sub");
    reveal_strlit("aud");
    reveal_strlit("exp");
    reveal_strlit("nbf");
    reveal_strlit("iat");
    reveal_strlit("jti");
}

/// Whether a name is a registered claim with a string value.
pub fn is_string_claim_name(key: &str) -> (r: bool)
    ensures
        r == is_string_claim(key@),
{
    proof {
        lemma_claim_names();
    }
    str_eq(key, "iss") || str_eq(key, "sub") || str_eq(key, "aud") || str_eq(key, "jti")
}

/// Whether a name is a registered claim with an integer value.
pub fn is_number_claim_name(key: &str) -> (r: bool)
    ensures
        r == is_number_claim(key@),
{
    proof {
        lemma_claim_names();
    }
    str_eq(key, "exp") || str_eq(key, "nbf") || str_eq(key, "iat")
}

/// Appends an integer member when it is set.
pub(crate) fn push_num_member(ms: &mut Vec<(String, FieldValue)>, name: &str, o: Option<u64>)
    ensures
        members_view(final(ms)@) == members_view(old(ms)@) + num_member(name@, o),
{
    let ghost before = members_view(ms@);
    match o {
        Some(n) => {
            ms.push((name.to_owned(), FieldValue::UInt(n)));
            assert(members_view(ms@) == before + num_member(name@, o));
        },
        None => {
            assert(members_view(ms@) == before + num_member(name@, o));
        },
    }
}

impl View for Claims {
    type V = ClaimsView;

    closed spec fn view(&self) -> ClaimsView {
        ClaimsView {
            iss: opt_view(self.iss),
            sub: opt_view(self.sub),
            aud: opt_view(self.aud),
            exp: self.exp,
            nbf: self.nbf,
            iat: self.iat,
            jti: opt_view(self.jti),
            ext: self.claims@,
        }
    }
}

impl Claims {
    /// Sets the issuer (`iss`).
    pub fn set_iss(&mut self, v: Option<String>)
        ensures
            final(self).wf() == old(self).wf(),
            final(self)@ == (ClaimsView { iss: opt_view(v), ..old(self)@ }),
    {
        self.iss = v;
    }

    /// A copy of the issuer (`iss`).
    pub fn iss(&self) -> (r: Option<String>)
        ensures
            opt_view(r) == self@.iss,
    {
        copy_opt(&self.iss)
    }

    /// Sets the subject (`sub`).
    pub fn set_sub(&mut self, v: Option<String>)
        ensures
            final(self).wf() == old(self).wf(),
            final(self)@ == (ClaimsView { sub: opt_view(v), ..old(self)@ }),
    {
        self.sub = v;
    }

    /// A copy of the subject (`sub`).
    pub fn sub(&self) -> (r: Option<String>)
        ensures
            opt_view(r) == self@.sub,
    {
        copy_opt(&self.sub)
    }

    /// Sets the audience (`aud`).
    pub fn set_aud(&mut self, v: Option<String>)
        ensures
            final(self).wf() == old(self).wf(),
            final(self)@ == (ClaimsView { aud: opt_view(v), ..old(self)@ }),
    {
        self.aud = v;
    }

    /// A copy of the audience (`aud`).
    pub fn aud(&self) -> (r: Option<String>)
        ensures
            opt_view(r) == self@.aud,
    {
        copy_opt(&self.aud)
    }

    /// Sets the expiry time (`exp`).
    pub fn set_exp(&mut self, v: Option<u64>)
        ensures
            final(self).wf() == old(self).wf(),
            final(self)@ == (ClaimsView { exp: v, ..old(self)@ }),
    {
        self.exp = v;
    }

    /// The expiry time (`exp`).
    pub fn exp(&self) -> (r: Option<u64>)
        ensures
            r == self@.exp,
    {
        self.exp
    }

    /// Sets the not-before time (`nbf`).
    pub fn set_nbf(&mut self, v: Option<u64>)
        ensures
            final(self).wf() == old(self).wf(),
            final(self)@ == (ClaimsView { nbf: v, ..old(self)@ }),
    {
        self.nbf = v;
    }

    /// The not-before time (`nbf`).
    pub fn nbf(&self) -> (r: Option<u64>)
        ensures
            r == self@.nbf,
    {
        self.nbf
    }

    /// Sets the issue time (`iat`).
    pub fn set_iat(&mut self, v: Option<u64>)
        ensures
            final(self).wf() == old(self).wf(),
            final(self)@ == (ClaimsView { iat: v, ..old(self)@ }),
    {
        self.iat = v;
    }

    /// The issue time (`iat`).
    pub fn iat(&self) -> (r: Option<u64>)
        ensures
            r == self@.iat,
    {
        self.iat
    }

    /// Sets the token id (`jti`).
    pub fn set_jti(&mut self, v: Option<String>)
        ensures
            final(self).wf() == old(self).wf(),
            final(self)@ == (ClaimsView { jti: opt_view(v), ..old(self)@ }),
    {
        self.jti = v;
    }

    /// A copy of the token id (`jti`).
    pub fn jti(&self) -> (r: Option<String>)
        ensures
            opt_view(r) == self@.jti,
    {
        copy_opt(&self.jti)
    }

    pub closed spec fn wf(&self) -> bool {
        self.claims.wf() && forall|i: int| 0 <= i < self.claims@.len() ==> !is_reserved_claim((#[trigger] self.claims@[i]).0)
    }

    /// The well-formedness of a claims set, in terms of its view.
    pub proof fn lemma_wf(&self)
        requires
            self.wf(),
        ensures
            crate::field_bag::sorted(self@.ext),
            forall|i: int| 0 <= i < self@.ext.len() ==> !is_reserved_claim((#[trigger] self@.ext[i]).0),
    {
    }

    /// An empty claims set.
    pub fn new() -> (r: Claims)
        ensures
            r@ == empty_claims(),
            r.wf(),
    {
        Claims {
            iss: None,
            sub: None,
            aud: None,
            exp: None,
            nbf: None,
            iat: None,
            jti: None,
            claims: FieldBag::new(),
        }
    }

    /// Sets an extension claim; under a registered name this does nothing.
    pub fn set<T: ToField>(&mut self, key: &str, value: T)
        requires
            old(self).wf(),
        ensures
            final(self).wf(),
            is_reserved_claim(key@) ==> final(self)@ == old(self)@,
            !is_reserved_claim(key@) ==> final(self)@ == (ClaimsView {
                ext: bag_insert(old(self)@.ext, key@, value.field_model()),
                ..old(self)@
            }),
    {
        if !is_string_claim_name(key) && !is_number_claim_name(key) {
            let v = value.to_field();
            proof {
                lemma_bag_insert_sorted(self.claims@, key@, v@);
            }
            self.claims.insert(key, v);
            proof {
                let r = self.claims@;
                assert forall|i: int| 0 <= i < r.len() implies !is_reserved_claim((#[trigger] r[i]).0) by {
                    if r[i].0 != key@ {
                        let es = old(self).claims@;
                        let j = choose|j: int| 0 <= j < es.len() && es[j].0 == r[i].0;
                        assert(!is_reserved_claim(es[j].0));
                    }
                }
            }
        }
    }

    /// Reads an extension claim as a `T`: `None` when it is absent or is not a `T`.
    pub fn get<T: FromField>(&self, key: &str) -> (r: Option<T>)
        requires
            self.wf(),
        ensures
            bag_get(self@.ext, key@) is None ==> r is None,
            bag_get(self@.ext, key@) is Some ==> T::read_model(bag_get(self@.ext, key@)->0, r),
            is_reserved_claim(key@) ==> r is None,
    {
        proof {
            if is_reserved_claim(key@) {
                lemma_bag_get_absent(self.claims@, key@);
            }
        }
        match self.claims.get(key) {
            Some(v) => T::from_field(v),
            None => None,
        }
    }

    /// The members of this claims set's JSON object, in canonical order.
    pub fn members(&self) -> (r: Vec<(String, FieldValue)>)
        ensures
            members_view(r@) == claims_members(self@),
    {
        proof {
            lemma_claim_names();
        }
        let mut ms: Vec<(String, FieldValue)> = Vec::new();
        push_opt_member(&mut ms, "iss", &self.iss);
        push_opt_member(&mut ms, "sub", &self.sub);
        push_opt_member(&mut ms, "aud", &self.aud);
        push_num_member(&mut ms, "exp", self.exp);
        push_num_member(&mut ms, "nbf", self.nbf);
        push_num_member(&mut ms, "iat", self.iat);
        push_opt_member(&mut ms, "jti", &self.jti);
        assert(members_view(Seq::<(String, FieldValue)>::empty()) == Seq::<(Seq<char>, JsonValue)>::empty());
        let ghost pre = members_view(ms@);
        let n = self.claims.len();
        let mut i: usize = 0;
        while i < n
            invariant
                n == self@.ext.len(),
                i <= n,
                members_view(ms@) == pre + self@.ext.take(i as int),
            decreases n - i,
        {
            let (k, v) = self.claims.entry(i);
            let ghost before = ms@;
            ms.push((k.to_owned(), v.duplicate()));
            assert(members_view(ms@) == members_view(before).push(self@.ext[i as int]));
            assert(self@.ext.take(i + 1) == self@.ext.take(i as int).push(self@.ext[i as int]));
            i = i + 1;
        }
        assert(self@.ext.take(n as int) == self@.ext);
        ms
    }

    /// This claims set's JSON text: registered claims first in canonical
    /// order, then extension claims in ascending order of name.
    pub fn to_json(&self) -> (r: String)
        ensures
            r@ == claims_json(self@),
    {
        let ms = self.members();
        object_of_members(&ms)
    }

    /// Reads a claims set from JSON text. Unknown members become extension claims.
    pub fn from_json(text: &str) -> (r: Result<Claims, Error>)
        ensures
            r is Ok <==> claims_from_json(text@) is Ok,
            r is Ok ==> r->Ok_0.wf() && r->Ok_0@ == claims_from_json(text@)->Ok_0,
            r is Err ==> claims_from_json(text@) == Err::<ClaimsView, Error>(r->Err_0),
    {
        let ms = match parse_object(text) {
            Some(ms) => ms,
            None => {
                return Err(Error::JsonParseError);
            },
        };
        let ghost mv = pairs_view(ms@);
        let mut c = Claims::new();
        let n = ms.len();
        let mut i: usize = 0;
        while i < n
            invariant
                n == ms@.len(),
                mv == pairs_view(ms@),
                json_object_members(text@) == Some(mv),
                i <= n,
                c.wf(),
                claims_from_members(mv.take(i as int)) == Ok::<ClaimsView, Error>(c@),
            decreases n - i,
        {
            let key = ms[i].0.as_str();
            let raw = ms[i].1.as_str();
            proof {
                lemma_claim_names();
                assert(mv.take(i + 1).drop_last() == mv.take(i as int));
                assert(mv.take(i + 1).last() == (key@, raw@));
            }
            if is_string_claim_name(key) {
                let s = match parse_string(raw) {
                    Some(s) => s,
                    None => {
                        proof {
                            assert(claims_from_members(mv.take(i + 1)) == Err::<ClaimsView, Error>(Error::JsonParseError));
                            lemma_claims_prefix_err(mv, i + 1);
                        }
                        return Err(Error::JsonParseError);
                    },
                };
                if str_eq(key, "iss") {
                    c.iss = Some(s);
                } else if str_eq(key, "sub") {
                    c.sub = Some(s);
                } else if str_eq(key, "aud") {
                    c.aud = Some(s);
                } else {
                    c.jti = Some(s);
                }
            } else if is_number_claim_name(key) {
                let v = match parse_u64(raw) {
                    Some(v) => v,
                    None => {
                        proof {
                            assert(claims_from_members(mv.take(i + 1)) == Err::<ClaimsView, Error>(Error::JsonParseError));
                            lemma_claims_prefix_err(mv, i + 1);
                        }
                        return Err(Error::JsonParseError);
                    },
                };
                if str_eq(key, "exp") {
                    c.exp = Some(v);
                } else if str_eq(key, "nbf") {
                    c.nbf = Some(v);
                } else {
                    c.iat = Some(v);
                }
            } else {
                let v = classify_text(raw);
                c.set(key, v);
            }
            i = i + 1;
        }
        assert(mv.take(n as int) == mv);
        Ok(c)
    }
}

} // verus!
