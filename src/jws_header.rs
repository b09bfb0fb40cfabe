use vstd::prelude::*;
use crate::algorithm::{alg_from_name, alg_name, lemma_alg_from_name, ALGORITHM};
use crate::error::Error;
use crate::field_bag::{bag_get, bag_insert, lemma_bag_get_absent, lemma_bag_insert_append, lemma_bag_insert_sorted, Entries, FieldBag};
use crate::json::{classify, classify_text, json_object_members, json_string_of, members_view,
    object_of_members, object_text, pairs_view, parse_object, parse_string, FieldValue,
    FromField, JsonValue, ToField};
use crate::text::str_eq;

verus! {

/// Token metadata: the declared algorithm, optional key hints, and extension fields.
#[derive(Debug, Clone)]
pub struct Header {
    pub alg: ALGORITHM,
    pub jku: Option<String>,
    pub kid: Option<String>,
    pub x5u: Option<String>,
    pub x5t: Option<String>,
    pub typ: Option<String>,
    values: FieldBag,
}

/// What a header denotes.
pub struct HeaderView {
    pub alg: ALGORITHM,
    pub typ: Option<Seq<char>>,
    pub jku: Option<Seq<char>>,
    pub kid: Option<Seq<char>>,
    pub x5u: Option<Seq<char>>,
    pub x5t: Option<Seq<char>>,
    pub ext: Entries,
}

pub open spec fn opt_view(o: Option<String>) -> Option<Seq<char>> {
    match o {
        Some(s) => Some(s@),
        None => None,
    }
}

pub open spec fn name_alg() -> Seq<char> { seq!['a', 'l', 'g'] }
pub open spec fn name_typ() -> Seq<char> { seq!['t', 'y', 'p'] }
pub open spec fn name_jku() -> Seq<char> { seq!['j', 'k', 'u'] }
pub open spec fn name_kid() -> Seq<char> { seq!['k', 'i', 'd'] }
pub open spec fn name_x5u() -> Seq<char> { seq!['x', '5', 'u'] }
pub open spec fn name_x5t() -> Seq<char> { seq!['x', '5', 't'] }

/// The names of the header's reserved fields.
pub open spec fn is_reserved_header(k: Seq<char>) -> bool {
    k == name_alg() || k == name_typ() || k == name_jku() || k == name_kid() || k == name_x5u()
        || k == name_x5t()
}

/// An optional string member, present only when set.
pub open spec fn opt_member(name: Seq<char>, o: Option<Seq<char>>) -> Entries {
    match o {
        Some(s) => seq![(name, JsonValue::Str(s))],
        None => Seq::empty(),
    }
}

/// The members of a header's JSON object, in canonical order: `alg`, then
/// the other reserved fields that are set, then the extension fields.
pub open spec fn header_members(h: HeaderView) -> Entries {
    seq![(name_alg(), JsonValue::Str(alg_name(h.alg)))] + opt_member(name_typ(), h.typ)
        + opt_member(name_jku(), h.jku) + opt_member(name_kid(), h.kid) + opt_member(name_x5u(), h.x5u)
        + opt_member(name_x5t(), h.x5t) + h.ext
}

/// A header's JSON text.
pub open spec fn header_json(h: HeaderView) -> Seq<char> {
    object_text(header_members(h))
}

/// A header read so far, whose `alg` may not have come yet.
pub struct HeaderAcc {
    pub alg: Option<ALGORITHM>,
    pub typ: Option<Seq<char>>,
    pub jku: Option<Seq<char>>,
    pub kid: Option<Seq<char>>,
    pub x5u: Option<Seq<char>>,
    pub x5t: Option<Seq<char>>,
    pub ext: Entries,
}

pub open spec fn empty_acc() -> HeaderAcc {
    HeaderAcc { alg: None, typ: None, jku: None, kid: None, x5u: None, x5t: None, ext: Seq::empty() }
}

/// Reading one member into a header: a reserved member must be a JSON string
/// (for `alg`, an algorithm's name); any other member becomes an extension field.
pub open spec fn header_step(acc: HeaderAcc, m: (Seq<char>, Seq<char>)) -> Result<HeaderAcc, Error> {
    if is_reserved_header(m.0) {
        match json_string_of(m.1) {
            None => Err(Error::JsonParseError),
            Some(s) => if m.0 == name_alg() {
                match alg_from_name(s) {
                    Some(a) => Ok(HeaderAcc { alg: Some(a), ..acc }),
                    None => Err(Error::JsonParseError),
                }
            } else if m.0 == name_typ() {
                Ok(HeaderAcc { typ: Some(s), ..acc })
            } else if m.0 == name_jku() {
                Ok(HeaderAcc { jku: Some(s), ..acc })
            } else if m.0 == name_kid() {
                Ok(HeaderAcc { kid: Some(s), ..acc })
            } else if m.0 == name_x5u() {
                Ok(HeaderAcc { x5u: Some(s), ..acc })
            } else {
                Ok(HeaderAcc { x5t: Some(s), ..acc })
            },
        }
    } else {
        Ok(HeaderAcc { ext: bag_insert(acc.ext, m.0, classify(m.1)), ..acc })
    }
}

pub open spec fn header_fold(ms: Seq<(Seq<char>, Seq<char>)>) -> Result<HeaderAcc, Error>
    decreases ms.len(),
{
    if ms.len() == 0 {
        Ok(empty_acc())
    } else {
        match header_fold(ms.drop_last()) {
            Err(e) => Err(e),
            Ok(acc) => header_step(acc, ms.last()),
        }
    }
}

proof fn lemma_fold_prefix_err(ms: Seq<(Seq<char>, Seq<char>)>, i: int)
    requires
        0 <= i <= ms.len(),
        header_fold(ms.take(i)) is Err,
    ensures
        header_fold(ms) == header_fold(ms.take(i)),
    decreases ms.len() - i,
{
    if i < ms.len() {
        assert(ms.take(i + 1).drop_last() == ms.take(i));
        lemma_fold_prefix_err(ms, i + 1);
    } else {
        assert(ms.take(i) == ms);
    }
}

/// The header that a list of members gives, or why it gives none.
pub open spec fn header_from_members(ms: Seq<(Seq<char>, Seq<char>)>) -> Result<HeaderView, Error> {
    match header_fold(ms) {
        Err(e) => Err(e),
        Ok(acc) => match acc.alg {
            None => Err(Error::MissingRequiredField),
            Some(a) => Ok(
                HeaderView {
                    alg: a,
                    typ: acc.typ,
                    jku: acc.jku,
                    kid: acc.kid,
                    x5u: acc.x5u,
                    x5t: acc.x5t,
                    ext: acc.ext,
                },
            ),
        },
    }
}

/// The header that a JSON text gives, or why it gives none.
pub open spec fn header_from_json(text: Seq<char>) -> Result<HeaderView, Error> {
    match json_object_members(text) {
        None => Err(Error::JsonParseError),
        Some(ms) => header_from_members(ms),
    }
}

/// Whether a name is one of the header's reserved names.
pub fn is_reserved_header_name(key: &str) -> (r: bool)
    ensures
        r == is_reserved_header(key@),
{
    proof {
        reveal_strlit("alg");
        reveal_strlit("typ");
        reveal_strlit("jku");
        reveal_strlit("kid");
        reveal_strlit("x5u");
        reveal_strlit("x5t");
        assert("alg"@ == name_alg());
        assert("typ"@ == name_typ());
        assert("jku"@ == name_jku());
        assert("kid"@ == name_kid());
        assert("x5u"@ == name_x5u());
        assert("x5t"@ == name_x5t());
    }
    str_eq(key, "alg") || str_eq(key, "typ") || str_eq(key, "jku") || str_eq(key, "kid")
        || str_eq(key, "x5u") || str_eq(key, "x5t")
}

/// A copy of an optional string.
pub(crate) fn copy_opt(o: &Option<String>) -> (r: Option<String>)
    ensures
        opt_view(r) == opt_view(*o),
{
    match o {
        Some(s) => Some(s.clone()),
        None => None,
    }
}

/// Appends an optional string member when it is set.
pub(crate) fn push_opt_member(ms: &mut Vec<(String, FieldValue)>, name: &str, o: &Option<String>)
    ensures
        members_view(final(ms)@) == members_view(old(ms)@) + opt_member(name@, opt_view(*o)),
{
    let ghost before = members_view(ms@);
    match o {
        Some(s) => {
            ms.push((name.to_owned(), FieldValue::Str(s.clone())));
            assert(members_view(ms@) == before + opt_member(name@, opt_view(*o)));
        },
        None => {
            assert(members_view(ms@) == before + opt_member(name@, opt_view(*o)));
        },
    }
}

impl View for Header {
    type V = HeaderView;

    closed spec fn view(&self) -> HeaderView {
        HeaderView {
            alg: self.alg,
            typ: opt_view(self.typ),
            jku: opt_view(self.jku),
            kid: opt_view(self.kid),
            x5u: opt_view(self.x5u),
            x5t: opt_view(self.x5t),
            ext: self.ext(),
        }
    }
}

/// Extension fields that keep the bag's order and avoid reserved names.
pub open spec fn ext_wf(ext: Entries, reserved: spec_fn(Seq<char>) -> bool) -> bool {
    crate::field_bag::sorted(ext) && forall|i: int| 0 <= i < ext.len() ==> !reserved((#[trigger] ext[i]).0)
}

impl Header {
    /// Sets the declared algorithm.
    pub fn set_alg(&mut self, alg: ALGORITHM)
        ensures
            final(self).wf() == old(self).wf(),
            final(self)@ == (HeaderView { alg: alg, ..old(self)@ }),
    {
        self.alg = alg;
    }

    /// Sets the key set URL (`jku`).
    pub fn set_jku(&mut self, v: Option<String>)
        ensures
            final(self).wf() == old(self).wf(),
            final(self)@ == (HeaderView { jku: opt_view(v), ..old(self)@ }),
    {
        self.jku = v;
    }

    /// A copy of the key set URL (`jku`).
    pub fn jku(&self) -> (r: Option<String>)
        ensures
            opt_view(r) == self@.jku,
    {
        copy_opt(&self.jku)
    }

    /// Sets the key id (`kid`).
    pub fn set_kid(&mut self, v: Option<String>)
        ensures
            final(self).wf() == old(self).wf(),
            final(self)@ == (HeaderView { kid: opt_view(v), ..old(self)@ }),
    {
        self.kid = v;
    }

    /// A copy of the key id (`kid`).
    pub fn kid(&self) -> (r: Option<String>)
        ensures
            opt_view(r) == self@.kid,
    {
        copy_opt(&self.kid)
    }

    /// Sets the certificate URL (`x5u`).
    pub fn set_x5u(&mut self, v: Option<String>)
        ensures
            final(self).wf() == old(self).wf(),
            final(self)@ == (HeaderView { x5u: opt_view(v), ..old(self)@ }),
    {
        self.x5u = v;
    }

    /// A copy of the certificate URL (`x5u`).
    pub fn x5u(&self) -> (r: Option<String>)
        ensures
            opt_view(r) == self@.x5u,
    {
        copy_opt(&self.x5u)
    }

    /// Sets the certificate thumbprint (`x5t`).
    pub fn set_x5t(&mut self, v: Option<String>)
        ensures
            final(self).wf() == old(self).wf(),
            final(self)@ == (HeaderView { x5t: opt_view(v), ..old(self)@ }),
    {
        self.x5t = v;
    }

    /// A copy of the certificate thumbprint (`x5t`).
    pub fn x5t(&self) -> (r: Option<String>)
        ensures
            opt_view(r) == self@.x5t,
    {
        copy_opt(&self.x5t)
    }

    /// The declared algorithm.
    pub fn algorithm(&self) -> (r: ALGORITHM)
        ensures
            r == self@.alg,
    {
        self.alg
    }

    /// A copy of the declared type.
    pub fn typ_copy(&self) -> (r: Option<String>)
        ensures
            opt_view(r) == self@.typ,
    {
        copy_opt(&self.typ)
    }

    /// Replaces the declared type.
    pub fn set_typ(&mut self, typ: Option<String>)
        requires
            old(self).wf(),
        ensures
            final(self).wf(),
            final(self)@ == (HeaderView { typ: opt_view(typ), ..old(self)@ }),
    {
        self.typ = typ;
    }

    /// A copy of this header.
    pub fn duplicate(&self) -> (r: Header)
        requires
            self.wf(),
        ensures
            r.wf(),
            r@ == self@,
    {
        let mut values = FieldBag::new();
        let n = self.values.len();
        let mut i: usize = 0;
        while i < n
            invariant
                n == self.values@.len(),
                i <= n,
                values.wf(),
                values@ == self.values@.take(i as int),
                self.wf(),
            decreases n - i,
        {
            let (k, v) = self.values.entry(i);
            proof {
                lemma_bag_insert_append(self.values@, i as int);
            }
            values.insert(k, v.duplicate());
            i = i + 1;
        }
        assert(self.values@.take(n as int) == self.values@);
        Header {
            alg: self.alg,
            jku: copy_opt(&self.jku),
            kid: copy_opt(&self.kid),
            x5u: copy_opt(&self.x5u),
            x5t: copy_opt(&self.x5t),
            typ: copy_opt(&self.typ),
            values,
        }
    }

    /// The extension fields, in ascending order of name.
    pub closed spec fn ext(&self) -> Entries {
        self.values@
    }

    pub closed spec fn wf(&self) -> bool {
        self.values.wf() && ext_wf(self.values@, |k: Seq<char>| is_reserved_header(k))
    }

    pub proof fn lemma_wf(&self)
        requires
            self.wf(),
        ensures
            ext_wf(self@.ext, |k: Seq<char>| is_reserved_header(k)),
    {
    }

    /// A header declaring HS256, with nothing else set.
    pub fn new() -> (r: Header)
        ensures
            r@ == (HeaderView {
                alg: ALGORITHM::HS256,
                typ: None,
                jku: None,
                kid: None,
                x5u: None,
                x5t: None,
                ext: Seq::empty(),
            }),
            r.wf(),
    {
        Header {
            alg: ALGORITHM::HS256,
            typ: None,
            jku: None,
            kid: None,
            x5u: None,
            x5t: None,
            values: FieldBag::new(),
        }
    }

    /// Sets an extension field; under a reserved name this does nothing.
    pub fn set<T: ToField>(&mut self, key: &str, value: T)
        requires
            old(self).wf(),
        ensures
            final(self).wf(),
            is_reserved_header(key@) ==> final(self)@ == old(self)@,
            !is_reserved_header(key@) ==> final(self)@ == (HeaderView {
                ext: bag_insert(old(self)@.ext, key@, value.field_model()),
                ..old(self)@
            }),
    {
        if !is_reserved_header_name(key) {
            let v = value.to_field();
            proof {
                lemma_bag_insert_sorted(self.values@, key@, v@);
            }
            self.values.insert(key, v);
            proof {
                let r = self.values@;
                assert forall|i: int| 0 <= i < r.len() implies !is_reserved_header((#[trigger] r[i]).0) by {
                    if r[i].0 != key@ {
                        let es = old(self).values@;
                        let j = choose|j: int| 0 <= j < es.len() && es[j].0 == r[i].0;
                        assert(!is_reserved_header(es[j].0));
                    }
                }
            }
        }
    }

    /// Reads an extension field as a `T`: `None` when it is absent or is not a `T`.
    pub fn get<T: FromField>(&self, key: &str) -> (r: Option<T>)
        requires
            self.wf(),
        ensures
            bag_get(self@.ext, key@) is None ==> r is None,
            bag_get(self@.ext, key@) is Some ==> T::read_model(bag_get(self@.ext, key@)->0, r),
            is_reserved_header(key@) ==> r is None,
    {
        proof {
            if is_reserved_header(key@) {
                lemma_bag_get_absent(self.values@, key@);
            }
        }
        match self.values.get(key) {
            Some(v) => T::from_field(v),
            None => None,
        }
    }

    /// The members of this header's JSON object, in canonical order.
    pub fn members(&self) -> (r: Vec<(String, FieldValue)>)
        ensures
            members_view(r@) == header_members(self@),
    {
        let mut ms: Vec<(String, FieldValue)> = Vec::new();
        ms.push(("alg".to_owned(), FieldValue::Str(self.alg.name().to_owned())));
        proof {
            reveal_strlit("alg");
            reveal_strlit("typ");
            reveal_strlit("jku");
            reveal_strlit("kid");
            reveal_strlit("x5u");
            reveal_strlit("x5t");
            assert("alg"@ == name_alg());
            assert("typ"@ == name_typ());
            assert("jku"@ == name_jku());
            assert("kid"@ == name_kid());
            assert("x5u"@ == name_x5u());
            assert("x5t"@ == name_x5t());
            assert(members_view(ms@) == seq![(name_alg(), JsonValue::Str(alg_name(self.alg)))]);
        }
        push_opt_member(&mut ms, "typ", &self.typ);
        push_opt_member(&mut ms, "jku", &self.jku);
        push_opt_member(&mut ms, "kid", &self.kid);
        push_opt_member(&mut ms, "x5u", &self.x5u);
        push_opt_member(&mut ms, "x5t", &self.x5t);
        let ghost pre = members_view(ms@);
        let n = self.values.len();
        let mut i: usize = 0;
        while i < n
            invariant
                n == self@.ext.len(),
                i <= n,
                members_view(ms@) == pre + self@.ext.take(i as int),
            decreases n - i,
        {
            let (k, v) = self.values.entry(i);
            let ghost before = ms@;
            ms.push((k.to_owned(), v.duplicate()));
            assert(members_view(ms@) == members_view(before).push(self@.ext[i as int]));
            assert(self@.ext.take(i + 1) == self@.ext.take(i as int).push(self@.ext[i as int]));
            i = i + 1;
        }
        assert(self@.ext.take(n as int) == self@.ext);
        ms
    }

    /// This header's JSON text: reserved fields first in canonical order,
    /// then extension fields in ascending order of name.
    pub fn to_json(&self) -> (r: String)
        ensures
            r@ == header_json(self@),
    {
        let ms = self.members();
        object_of_members(&ms)
    }

    /// Reads a header from JSON text. Unknown members become extension fields;
    /// a missing `alg` is an error.
    pub fn from_json(text: &str) -> (r: Result<Header, Error>)
        ensures
            r is Ok <==> header_from_json(text@) is Ok,
            r is Ok ==> r->Ok_0.wf() && r->Ok_0@ == header_from_json(text@)->Ok_0,
            r is Err ==> header_from_json(text@) == Err::<HeaderView, Error>(r->Err_0),
    {
        let ms = match parse_object(text) {
            Some(ms) => ms,
            None => {
                return Err(Error::JsonParseError);
            },
        };
        let ghost mv = pairs_view(ms@);
        let mut alg: Option<ALGORITHM> = None;
        let mut h = Header::new();
        let n = ms.len();
        let mut i: usize = 0;
        while i < n
            invariant
                n == ms@.len(),
                mv == pairs_view(ms@),
                json_object_members(text@) == Some(mv),
                i <= n,
                h.wf(),
                header_fold(mv.take(i as int)) == Ok::<HeaderAcc, Error>(
                    HeaderAcc { alg: alg, typ: h@.typ, jku: h@.jku, kid: h@.kid, x5u: h@.x5u, x5t: h@.x5t, ext: h@.ext },
                ),
            decreases n - i,
        {
            let key = ms[i].0.as_str();
            let raw = ms[i].1.as_str();
            proof {
                assert(mv.take(i + 1).drop_last() == mv.take(i as int));
                assert(mv.take(i + 1).last() == (key@, raw@));
            }
            if is_reserved_header_name(key) {
                let s = match parse_string(raw) {
                    Some(s) => s,
                    None => {
                        proof {
                            assert(json_string_of(raw@) is None);
                            assert(header_fold(mv.take(i + 1)) == Err::<HeaderAcc, Error>(Error::JsonParseError));
                            lemma_fold_prefix_err(mv, i + 1);
                            assert(header_fold(mv) == Err::<HeaderAcc, Error>(Error::JsonParseError));
                            assert(json_object_members(text@) == Some(mv));
                            assert(header_from_json(text@) == Err::<HeaderView, Error>(Error::JsonParseError));
                        }
                        return Err(Error::JsonParseError);
                    },
                };
                proof {
                    reveal_strlit("alg");
                    reveal_strlit("typ");
                    reveal_strlit("jku");
                    reveal_strlit("kid");
                    reveal_strlit("x5u");
                    assert("alg"@ == name_alg());
                    assert("typ"@ == name_typ());
                    assert("jku"@ == name_jku());
                    assert("kid"@ == name_kid());
                    assert("x5u"@ == name_x5u());
                }
                if str_eq(key, "alg") {
                    match ALGORITHM::from_name(s.as_str()) {
                        Some(a) => {
                            alg = Some(a);
                        },
                        None => {
                            proof {
                                assert(header_fold(mv.take(i + 1)) == Err::<HeaderAcc, Error>(Error::JsonParseError));
                                lemma_fold_prefix_err(mv, i + 1);
                            }
                            return Err(Error::JsonParseError);
                        },
                    }
                } else if str_eq(key, "typ") {
                    h.typ = Some(s);
                } else if str_eq(key, "jku") {
                    h.jku = Some(s);
                } else if str_eq(key, "kid") {
                    h.kid = Some(s);
                } else if str_eq(key, "x5u") {
                    h.x5u = Some(s);
                } else {
                    h.x5t = Some(s);
                }
            } else {
                let v = classify_text(raw);
                h.set(key, v);
            }
            i = i + 1;
        }
        assert(mv.take(n as int) == mv);
        match alg {
            Some(a) => {
                h.alg = a;
                Ok(h)
            },
            None => Err(Error::MissingRequiredField),
        }
    }
}

impl ALGORITHM {
    /// The algorithm that a header's `alg` name denotes.
    pub fn from_name(s: &str) -> (r: Option<ALGORITHM>)
        ensures
            r == alg_from_name(s@),
    {
        let all = [
            ALGORITHM::HS256,
            ALGORITHM::HS384,
            ALGORITHM::HS512,
            ALGORITHM::RS256,
            ALGORITHM::RS384,
            ALGORITHM::RS512,
            ALGORITHM::ES256,
            ALGORITHM::ES384,
            ALGORITHM::ES512,
        ];
        let mut i: usize = 0;
        while i < 9
            invariant
                i <= 9,
                all@ == seq![
                    ALGORITHM::HS256,
                    ALGORITHM::HS384,
                    ALGORITHM::HS512,
                    ALGORITHM::RS256,
                    ALGORITHM::RS384,
                    ALGORITHM::RS512,
                    ALGORITHM::ES256,
                    ALGORITHM::ES384,
                    ALGORITHM::ES512,
                ],
                forall|j: int| 0 <= j < i ==> alg_name(#[trigger] all@[j]) != s@,
            decreases 9 - i,
        {
            let a = all[i];
            if str_eq(a.name(), s) {
                proof {
                    lemma_alg_from_name(a);
                }
                return Some(a);
            }
            i = i + 1;
        }
        proof {
            if exists|a: ALGORITHM| alg_name(a) == s@ {
                let a = choose|a: ALGORITHM| alg_name(a) == s@;
                match a {
                    ALGORITHM::HS256 => assert(all@[0] == a),
                    ALGORITHM::HS384 => assert(all@[1] == a),
                    ALGORITHM::HS512 => assert(all@[2] == a),
                    ALGORITHM::RS256 => assert(all@[3] == a),
                    ALGORITHM::RS384 => assert(all@[4] == a),
                    ALGORITHM::RS512 => assert(all@[5] == a),
                    ALGORITHM::ES256 => assert(all@[6] == a),
                    ALGORITHM::ES384 => assert(all@[7] == a),
                    ALGORITHM::ES512 => assert(all@[8] == a),
                }
            }
        }
        None
    }
}

} // verus!
