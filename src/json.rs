use vstd::prelude::*;
use vstd::string::StringExecFns;

verus! {

/// The value of a member of a header or claims object.
///
/// JSON strings and integers are held as such; any other JSON value
/// (boolean, null, fraction, array, object) is held as its compact JSON text.
#[derive(Debug, Clone)]
pub enum FieldValue {
    Str(String),
    UInt(u64),
    Int(i64),
    Json(String),
}

/// What a `FieldValue` denotes.
pub enum JsonValue {
    Str(Seq<char>),
    UInt(u64),
    Int(i64),
    Json(Seq<char>),
}

impl View for FieldValue {
    type V = JsonValue;

    open spec fn view(&self) -> JsonValue {
        match self {
            FieldValue::Str(s) => JsonValue::Str(s@),
            FieldValue::UInt(n) => JsonValue::UInt(*n),
            FieldValue::Int(n) => JsonValue::Int(*n),
            FieldValue::Json(t) => JsonValue::Json(t@),
        }
    }
}

impl FieldValue {
    /// A copy of this value.
    pub fn duplicate(&self) -> (r: FieldValue)
        ensures
            r@ == self@,
    {
        match self {
            FieldValue::Str(s) => FieldValue::Str(s.clone()),
            FieldValue::UInt(n) => FieldValue::UInt(*n),
            FieldValue::Int(n) => FieldValue::Int(*n),
            FieldValue::Json(t) => FieldValue::Json(t.clone()),
        }
    }

    /// A value given as JSON text: `None` unless the text is one JSON value.
    /// The text is held in serde_json's compact form.
    pub fn from_json_text(text: &str) -> (r: Option<FieldValue>)
        ensures
            r is Some <==> json_canonical_of(text@) is Some,
            r is Some ==> r->0@ == JsonValue::Json(json_canonical_of(text@)->0),
    {
        match canonical_json(text) {
            Some(t) => Some(FieldValue::Json(t)),
            None => None,
        }
    }
}

/// The JSON string literal that serde_json writes for a string.
pub uninterp spec fn json_quoted(s: Seq<char>) -> Seq<char>;

/// The members that serde_json reads from an object's text, with the compact
/// text of each value; `None` where the text is not one JSON object.
pub uninterp spec fn json_object_members(text: Seq<char>) -> Option<Seq<(Seq<char>, Seq<char>)>>;

/// The string that serde_json reads from JSON text, if the text is a JSON string.
pub uninterp spec fn json_string_of(text: Seq<char>) -> Option<Seq<char>>;

/// The `u64` that serde_json reads from JSON text, if it is one.
pub uninterp spec fn json_u64_of(text: Seq<char>) -> Option<u64>;

/// The `i64` that serde_json reads from JSON text, if it is one.
pub uninterp spec fn json_i64_of(text: Seq<char>) -> Option<i64>;

/// serde_json's compact rendering of a JSON text, if it is one JSON value.
pub uninterp spec fn json_canonical_of(text: Seq<char>) -> Option<Seq<char>>;

/// Relies on serde_json::to_string on a `str`: a quoted, escaped literal.
/// Writing a string into a byte vector cannot fail.
#[verifier::external_body]
fn quote(s: &str) -> (r: Option<String>)
    ensures
        r is Some,
        r->0@ == json_quoted(s@),
{
    serde_json::to_string(s).ok()
}

/// Relies on serde_json::from_str into a `Map` of `Value`s, each value then
/// written back by its `Display` as compact JSON text.
#[verifier::external_body]
pub(crate) fn parse_object(text: &str) -> (r: Option<Vec<(String, String)>>)
    ensures
        r is Some <==> json_object_members(text@) is Some,
        r is Some ==> pairs_view(r->0@) == json_object_members(text@)->0,
{
    let map = serde_json::from_str::<serde_json::Map<String, serde_json::Value>>(text).ok()?;
    Some(map.into_iter().map(|(k, v)| (k, v.to_string())).collect())
}

/// Relies on serde_json::from_str for a `String`.
#[verifier::external_body]
pub(crate) fn parse_string(text: &str) -> (r: Option<String>)
    ensures
        r is Some <==> json_string_of(text@) is Some,
        r is Some ==> r->0@ == json_string_of(text@)->0,
{
    serde_json::from_str::<String>(text).ok()
}

/// Relies on serde_json::from_str for a `u64`.
#[verifier::external_body]
pub(crate) fn parse_u64(text: &str) -> (r: Option<u64>)
    ensures
        r == json_u64_of(text@),
{
    serde_json::from_str::<u64>(text).ok()
}

/// Relies on serde_json::from_str for an `i64`.
#[verifier::external_body]
fn parse_i64(text: &str) -> (r: Option<i64>)
    ensures
        r == json_i64_of(text@),
{
    serde_json::from_str::<i64>(text).ok()
}

/// Relies on serde_json::from_str for a `Value`, written back by its `Display`.
#[verifier::external_body]
fn canonical_json(text: &str) -> (r: Option<String>)
    ensures
        r is Some <==> json_canonical_of(text@) is Some,
        r is Some ==> r->0@ == json_canonical_of(text@)->0,
{
    serde_json::from_str::<serde_json::Value>(text).ok().map(|v| v.to_string())
}

pub open spec fn pairs_view(ps: Seq<(String, String)>) -> Seq<(Seq<char>, Seq<char>)> {
    ps.map_values(|p: (String, String)| (p.0@, p.1@))
}

/// Decimal digits of a natural number.
pub open spec fn decimal(n: nat) -> Seq<char>
    decreases n,
{
    if n < 10 {
        seq![digit_char(n)]
    } else {
        decimal(n / 10).push(digit_char(n % 10))
    }
}

pub open spec fn digit_char(d: nat) -> char {
    if d == 0 { '0' } else if d == 1 { '1' } else if d == 2 { '2' } else if d == 3 { '3' }
    else if d == 4 { '4' } else if d == 5 { '5' } else if d == 6 { '6' } else if d == 7 { '7' }
    else if d == 8 { '8' } else { '9' }
}

/// Decimal text of a signed integer.
pub open spec fn signed_decimal(n: i64) -> Seq<char> {
    if n < 0 {
        seq!['-'] + decimal((-(n as int)) as nat)
    } else {
        decimal(n as nat)
    }
}

/// The one-character text of a decimal digit.
fn digit_text(d: u64) -> (r: &'static str)
    requires
        d < 10,
    ensures
        r@ == seq![digit_char(d as nat)],
{
    proof {
        reveal_strlit("0");
        reveal_strlit("1");
        reveal_strlit("2");
        reveal_strlit("3");
        reveal_strlit("4");
        reveal_strlit("5");
        reveal_strlit("6");
        reveal_strlit("7");
        reveal_strlit("8");
        reveal_strlit("9");
    }
    match d {
        0 => "0",
        1 => "1",
        2 => "2",
        3 => "3",
        4 => "4",
        5 => "5",
        6 => "6",
        7 => "7",
        8 => "8",
        _ => "9",
    }
}

/// Writes the decimal digits of `n`.
pub fn write_decimal(out: &mut String, n: u64)
    ensures
        final(out)@ == old(out)@ + decimal(n as nat),
    decreases n,
{
    if n >= 10 {
        write_decimal(out, n / 10);
    }
    out.append(digit_text(n % 10));
    proof {
        if n >= 10 {
            assert(decimal(n as nat) == decimal((n / 10) as nat).push(digit_char((n % 10) as nat)));
        }
    }
}

/// Writes a signed integer: a minus sign if negative, then its digits.
pub fn write_signed_decimal(out: &mut String, n: i64)
    ensures
        final(out)@ == old(out)@ + signed_decimal(n),
{
    if n < 0 {
        out.append("-");
        proof {
            reveal_strlit("-");
        }
        let magnitude: u64 = (-(n as i128)) as u64;
        write_decimal(out, magnitude);
    } else {
        write_decimal(out, n as u64);
    }
}

/// The JSON text of a member value.
pub open spec fn value_text(v: JsonValue) -> Seq<char> {
    match v {
        JsonValue::Str(s) => json_quoted(s),
        JsonValue::UInt(n) => decimal(n as nat),
        JsonValue::Int(n) => signed_decimal(n),
        JsonValue::Json(t) => t,
    }
}

/// The JSON text of one member: quoted name, colon, value.
pub open spec fn member_text(m: (Seq<char>, JsonValue)) -> Seq<char> {
    json_quoted(m.0) + seq![':'] + value_text(m.1)
}

/// The members' texts, separated by commas.
pub open spec fn members_joined(ms: Seq<(Seq<char>, JsonValue)>) -> Seq<char>
    decreases ms.len(),
{
    if ms.len() == 0 {
        Seq::empty()
    } else if ms.len() == 1 {
        member_text(ms[0])
    } else {
        members_joined(ms.drop_last()) + seq![','] + member_text(ms.last())
    }
}

/// The JSON object with these members, in this order.
pub open spec fn object_text(ms: Seq<(Seq<char>, JsonValue)>) -> Seq<char> {
    seq!['{'] + members_joined(ms) + seq!['}']
}

/// What a member's JSON text is read as: a string, an unsigned or a signed
/// integer where it is one, else the text itself.
pub open spec fn classify(raw: Seq<char>) -> JsonValue {
    match json_string_of(raw) {
        Some(s) => JsonValue::Str(s),
        None => match json_u64_of(raw) {
            Some(n) => JsonValue::UInt(n),
            None => match json_i64_of(raw) {
                Some(n) => JsonValue::Int(n),
                None => JsonValue::Json(raw),
            },
        },
    }
}

/// Writes the JSON text of a member value.
pub fn write_value(out: &mut String, v: &FieldValue)
    ensures
        final(out)@ == old(out)@ + value_text(v@),
{
    match v {
        FieldValue::Str(s) => {
            let q = quoted(s.as_str());
            out.append(q.as_str());
        },
        FieldValue::UInt(n) => {
            write_decimal(out, *n);
        },
        FieldValue::Int(n) => {
            write_signed_decimal(out, *n);
        },
        FieldValue::Json(t) => {
            out.append(t.as_str());
        },
    }
}

/// The JSON string literal of a text.
pub fn quoted(s: &str) -> (r: String)
    ensures
        r@ == json_quoted(s@),
{
    match quote(s) {
        Some(q) => q,
        None => String::new(),
    }
}

/// Reads a member's JSON text as `classify` says.
pub fn classify_text(raw: &str) -> (r: FieldValue)
    ensures
        r@ == classify(raw@),
{
    match parse_string(raw) {
        Some(s) => FieldValue::Str(s),
        None => match parse_u64(raw) {
            Some(n) => FieldValue::UInt(n),
            None => match parse_i64(raw) {
                Some(n) => FieldValue::Int(n),
                None => FieldValue::Json(raw.to_owned()),
            },
        },
    }
}


pub open spec fn members_view(ms: Seq<(String, FieldValue)>) -> Seq<(Seq<char>, JsonValue)> {
    ms.map_values(|m: (String, FieldValue)| (m.0@, m.1@))
}

/// The JSON object text of a list of members, in their order.
pub fn object_of_members(ms: &Vec<(String, FieldValue)>) -> (r: String)
    ensures
        r@ == object_text(members_view(ms@)),
{
    let ghost mv = members_view(ms@);
    let mut out = String::new();
    out.append("{");
    proof { reveal_strlit("{"); }
    let n = ms.len();
    let mut i: usize = 0;
    while i < n
        invariant
            n == ms@.len(),
            mv == members_view(ms@),
            i <= n,
            out@ == seq!['{'] + members_joined(mv.take(i as int)),
        decreases n - i,
    {
        let ghost before = out@;
        if i > 0 {
            out.append(",");
            proof { reveal_strlit(","); }
        }
        let q = quoted(ms[i].0.as_str());
        out.append(q.as_str());
        out.append(":");
        proof { reveal_strlit(":"); }
        write_value(&mut out, &ms[i].1);
        proof {
            let t = mv.take(i + 1);
            assert(t.drop_last() == mv.take(i as int));
            assert(t.last() == mv[i as int]);
            assert(mv[i as int] == (ms@[i as int].0@, ms@[i as int].1@));
            if i == 0 {
                assert(members_joined(mv.take(0)) == Seq::<char>::empty());
                assert(out@ == seq!['{'] + member_text(mv[0]));
            } else {
                assert(out@ == before + seq![','] + member_text(mv[i as int]));
            }
        }
        i = i + 1;
    }
    assert(mv.take(n as int) == mv);
    out.append("}");
    proof { reveal_strlit("}"); }
    out
}

/// A value that can be stored as an extension field.
pub trait ToField {
    /// The field value that `to_field` gives.
    spec fn field_model(&self) -> JsonValue;

    fn to_field(&self) -> (r: FieldValue)
        ensures
            r@ == self.field_model(),
    ;
}

/// A type that an extension field can be read as.
pub trait FromField: Sized {
    /// Whether `r` is what reading a field holding `v` gives.
    spec fn read_model(v: JsonValue, r: Option<Self>) -> bool;

    fn from_field(v: &FieldValue) -> (r: Option<Self>)
        ensures
            Self::read_model(v@, r),
    ;
}

impl ToField for FieldValue {
    open spec fn field_model(&self) -> JsonValue {
        self@
    }

    fn to_field(&self) -> (r: FieldValue) {
        self.duplicate()
    }
}

impl<'a> ToField for &'a str {
    open spec fn field_model(&self) -> JsonValue {
        JsonValue::Str((*self)@)
    }

    fn to_field(&self) -> (r: FieldValue) {
        FieldValue::Str((*self).to_owned())
    }
}

impl ToField for String {
    open spec fn field_model(&self) -> JsonValue {
        JsonValue::Str(self@)
    }

    fn to_field(&self) -> (r: FieldValue) {
        FieldValue::Str(self.clone())
    }
}

impl ToField for u64 {
    open spec fn field_model(&self) -> JsonValue {
        JsonValue::UInt(*self)
    }

    fn to_field(&self) -> (r: FieldValue) {
        FieldValue::UInt(*self)
    }
}

impl ToField for u32 {
    open spec fn field_model(&self) -> JsonValue {
        JsonValue::UInt(*self as u64)
    }

    fn to_field(&self) -> (r: FieldValue) {
        FieldValue::UInt(*self as u64)
    }
}

/// A signed integer as a field value: non-negative ones are unsigned.
pub open spec fn signed_model(n: int) -> JsonValue {
    if n >= 0 {
        JsonValue::UInt(n as u64)
    } else {
        JsonValue::Int(n as i64)
    }
}

impl ToField for i64 {
    open spec fn field_model(&self) -> JsonValue {
        signed_model(*self as int)
    }

    fn to_field(&self) -> (r: FieldValue) {
        if *self >= 0 {
            FieldValue::UInt(*self as u64)
        } else {
            FieldValue::Int(*self)
        }
    }
}

impl ToField for i32 {
    open spec fn field_model(&self) -> JsonValue {
        signed_model(*self as int)
    }

    fn to_field(&self) -> (r: FieldValue) {
        if *self >= 0 {
            FieldValue::UInt(*self as u64)
        } else {
            FieldValue::Int(*self as i64)
        }
    }
}

impl FromField for FieldValue {
    open spec fn read_model(v: JsonValue, r: Option<Self>) -> bool {
        r is Some && r->0@ == v
    }

    fn from_field(v: &FieldValue) -> (r: Option<Self>) {
        Some(v.duplicate())
    }
}

impl FromField for String {
    open spec fn read_model(v: JsonValue, r: Option<Self>) -> bool {
        match v {
            JsonValue::Str(s) => r is Some && r->0@ == s,
            _ => r is None,
        }
    }

    fn from_field(v: &FieldValue) -> (r: Option<Self>) {
        match v {
            FieldValue::Str(s) => Some(s.clone()),
            _ => None,
        }
    }
}

/// The integer a field value holds, if it holds one.
pub open spec fn integer_of(v: JsonValue) -> Option<int> {
    match v {
        JsonValue::UInt(n) => Some(n as int),
        JsonValue::Int(n) => Some(n as int),
        _ => None,
    }
}

/// Reading an integer type whose range is `lo..=hi`.
pub open spec fn read_integer(v: JsonValue, lo: int, hi: int, r: Option<int>) -> bool {
    match integer_of(v) {
        Some(n) => if lo <= n <= hi { r == Some(n) } else { r is None },
        None => r is None,
    }
}

pub open spec fn opt_int<T: Integer>(o: Option<T>) -> Option<int> {
    match o {
        Some(x) => Some(x as int),
        None => None,
    }
}

impl FromField for u64 {
    open spec fn read_model(v: JsonValue, r: Option<Self>) -> bool {
        read_integer(v, 0, u64::MAX as int, opt_int(r))
    }

    fn from_field(v: &FieldValue) -> (r: Option<Self>) {
        match v {
            FieldValue::UInt(n) => Some(*n),
            FieldValue::Int(n) => if *n >= 0 { Some(*n as u64) } else { None },
            _ => None,
        }
    }
}

impl FromField for u32 {
    open spec fn read_model(v: JsonValue, r: Option<Self>) -> bool {
        read_integer(v, 0, u32::MAX as int, opt_int(r))
    }

    fn from_field(v: &FieldValue) -> (r: Option<Self>) {
        match v {
            FieldValue::UInt(n) => if *n <= u32::MAX as u64 { Some(*n as u32) } else { None },
            FieldValue::Int(n) => if 0 <= *n && *n <= u32::MAX as i64 { Some(*n as u32) } else { None },
            _ => None,
        }
    }
}

impl FromField for i64 {
    open spec fn read_model(v: JsonValue, r: Option<Self>) -> bool {
        read_integer(v, i64::MIN as int, i64::MAX as int, opt_int(r))
    }

    fn from_field(v: &FieldValue) -> (r: Option<Self>) {
        match v {
            FieldValue::UInt(n) => if *n <= i64::MAX as u64 { Some(*n as i64) } else { None },
            FieldValue::Int(n) => Some(*n),
            _ => None,
        }
    }
}

impl FromField for i32 {
    open spec fn read_model(v: JsonValue, r: Option<Self>) -> bool {
        read_integer(v, i32::MIN as int, i32::MAX as int, opt_int(r))
    }

    fn from_field(v: &FieldValue) -> (r: Option<Self>) {
        match v {
            FieldValue::UInt(n) => if *n <= i32::MAX as u64 { Some(*n as i32) } else { None },
            FieldValue::Int(n) => if i32::MIN as i64 <= *n && *n <= i32::MAX as i64 { Some(*n as i32) } else { None },
            _ => None,
        }
    }
}

} // verus!
