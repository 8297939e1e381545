//! JSON values. Reading and writing their text is `serde_json`'s work; what a
//! document means to this library is decided on the values.

use vstd::prelude::*;

use crate::text::{opt_str_view, opt_view, same, views, CharClass};

verus! {

/// A JSON value. The members of an object stand in the order of the document.
#[derive(Debug)]
pub enum Json {
    Null,
    Bool(bool),
    /// An integer that is not negative.
    Nat(u64),
    /// An integer, as a rule a negative one.
    Neg(i64),
    /// A number that is no integer of 64 bits, as its text.
    Float(String),
    Text(String),
    Array(Vec<Json>),
    Object(Vec<(String, Json)>),
}

/// A JSON value as a mathematical value.
#[verifier::ext_equal]
pub ghost enum JsonView {
    Null,
    Bool(bool),
    Int(int),
    Float(Seq<char>),
    Text(Seq<char>),
    Array(Seq<JsonView>),
    Object(Seq<(Seq<char>, JsonView)>),
}

impl Json {
    /// The value that this one stands for.
    pub open spec fn value(self) -> JsonView
        decreases self,
    {
        match self {
            Json::Null => JsonView::Null,
            Json::Bool(b) => JsonView::Bool(b),
            Json::Nat(n) => JsonView::Int(n as int),
            Json::Neg(n) => JsonView::Int(n as int),
            Json::Float(s) => JsonView::Float(s@),
            Json::Text(s) => JsonView::Text(s@),
            Json::Array(v) => JsonView::Array(
                Seq::new(
                    v@.len(),
                    |i: int|
                        if 0 <= i < v@.len() {
                            v@[i].value()
                        } else {
                            JsonView::Null
                        },
                ),
            ),
            Json::Object(v) => JsonView::Object(
                Seq::new(
                    v@.len(),
                    |i: int|
                        if 0 <= i < v@.len() {
                            (v@[i].0@, v@[i].1.value())
                        } else {
                            (Seq::empty(), JsonView::Null)
                        },
                ),
            ),
        }
    }
}

/// The values of a sequence.
pub open spec fn values(v: Seq<Json>) -> Seq<JsonView> {
    Seq::new(v.len(), |i: int| v[i].value())
}

/// The members of an object.
pub open spec fn member_views(v: Seq<(String, Json)>) -> Seq<(Seq<char>, JsonView)> {
    Seq::new(v.len(), |i: int| (v[i].0@, v[i].1.value()))
}

pub proof fn lemma_array_value(v: Vec<Json>)
    ensures
        Json::Array(v).value() == JsonView::Array(values(v@)),
{
    assert(Json::Array(v).value()->Array_0 =~= values(v@));
}

pub proof fn lemma_object_value(v: Vec<(String, Json)>)
    ensures
        Json::Object(v).value() == JsonView::Object(member_views(v@)),
{
    assert(Json::Object(v).value()->Object_0 =~= member_views(v@));
}

/// The first member of a sequence with the key.
pub open spec fn member(s: Seq<(Seq<char>, JsonView)>, key: Seq<char>) -> Option<JsonView>
    decreases s.len(),
{
    if s.len() == 0 {
        None
    } else if s[0].0 == key {
        Some(s[0].1)
    } else {
        member(s.drop_first(), key)
    }
}

/// What an object holds under a key; nothing for a value of another kind.
pub open spec fn field(v: JsonView, key: Seq<char>) -> Option<JsonView> {
    match v {
        JsonView::Object(s) => member(s, key),
        _ => None,
    }
}

/// What a record holds: under a key where it is written as an object, in a place where it
/// is written as an array of what it holds.
pub open spec fn part(v: JsonView, key: Seq<char>, place: int) -> Option<JsonView> {
    match v {
        JsonView::Array(s) => if 0 <= place < s.len() {
            Some(s[place])
        } else {
            None
        },
        _ => field(v, key),
    }
}

/// A record that is written as an array has no more than `n` values in it.
pub open spec fn at_most_parts(v: JsonView, n: int) -> bool {
    v matches JsonView::Array(s) ==> s.len() <= n
}

/// The text under a key, where text stands there.
pub open spec fn text_field(v: JsonView, key: Seq<char>) -> Option<Seq<char>> {
    match field(v, key) {
        Some(JsonView::Text(s)) => Some(s),
        _ => None,
    }
}

/// A value that its text gives back: nested at most `depth` deep, no key twice
/// in an object, integers of 64 bits, no other numbers.
pub open spec fn plain(v: JsonView, depth: nat) -> bool
    decreases depth,
{
    match v {
        JsonView::Float(_) => false,
        JsonView::Int(n) => i64::MIN <= n <= u64::MAX,
        JsonView::Array(s) => depth > 0 && forall|i: int|
            0 <= i < s.len() ==> plain(#[trigger] s[i], (depth - 1) as nat),
        JsonView::Object(s) => depth > 0 && (forall|i: int|
            0 <= i < s.len() ==> plain((#[trigger] s[i]).1, (depth - 1) as nat)) && (forall|i: int, j: int|
            0 <= i < j < s.len() ==> (#[trigger] s[i]).0 != (#[trigger] s[j]).0),
        _ => true,
    }
}

/// The depth to which a text certainly gives its value back.
pub open spec fn depth_limit() -> nat {
    100
}

// ---------------------------------------------------------------------------
// Text
// ---------------------------------------------------------------------------

/// `serde_json`'s own value, which only passes through.
#[verifier::external_type_specification]
#[verifier::external_body]
pub struct ExValue(serde_json::Value);

pub uninterp spec fn json_parsed(s: Seq<char>) -> Result<JsonView, Seq<char>>;

/// The document `s` holds the value `v`.
pub open spec fn reads_as(s: Seq<char>, v: JsonView) -> bool {
    json_parsed(s) == Ok::<JsonView, Seq<char>>(v)
}

/// The value that was read, or the message of the error.
pub open spec fn parsed_view(r: Result<Json, String>) -> Result<JsonView, Seq<char>> {
    match r {
        Ok(v) => Ok(v.value()),
        Err(e) => Err(e@),
    }
}

pub uninterp spec fn json_compact(v: JsonView) -> Seq<char>;

pub uninterp spec fn json_pretty(v: JsonView) -> Seq<char>;

/// Turns a value of `serde_json` into one of this library, variant by variant.
#[verifier::external_body]
fn from_value(v: serde_json::Value) -> Json {
    match v {
        serde_json::Value::Null => Json::Null,
        serde_json::Value::Bool(b) => Json::Bool(b),
        serde_json::Value::Number(n) => match (n.as_u64(), n.as_i64()) {
            (Some(u), _) => Json::Nat(u),
            (None, Some(i)) => Json::Neg(i),
            (None, None) => Json::Float(n.to_string()),
        },
        serde_json::Value::String(s) => Json::Text(s),
        serde_json::Value::Array(a) => Json::Array(a.into_iter().map(from_value).collect()),
        serde_json::Value::Object(m) => Json::Object(
            m.into_iter().map(|(k, x)| (k, from_value(x))).collect()),
    }
}

/// Turns a value of this library into one of `serde_json`, variant by variant.
#[verifier::external_body]
fn to_value(v: &Json) -> serde_json::Value {
    match v {
        Json::Null => serde_json::Value::Null,
        Json::Bool(b) => serde_json::Value::Bool(*b),
        Json::Nat(n) => serde_json::Value::from(*n),
        Json::Neg(n) => serde_json::Value::from(*n),
        Json::Float(s) => s.parse().map_or(serde_json::Value::Null, serde_json::Value::Number),
        Json::Text(s) => serde_json::Value::String(s.clone()),
        Json::Array(a) => serde_json::Value::Array(a.iter().map(to_value).collect()),
        Json::Object(m) => serde_json::Value::Object(
            m.iter().map(|(k, x)| (k.clone(), to_value(x))).collect()),
    }
}

/// Reads a document: `serde_json::from_str`, into a `Value`. Its result, the
/// value or the text of the error, is a function of the text alone.
#[verifier::external_body]
pub(crate) fn parse(s: &str) -> (r: Result<Json, String>)
    ensures
        parsed_view(r) == json_parsed(s@),
{
    match serde_json::from_str::<serde_json::Value>(s) {
        Ok(v) => Ok(from_value(v)),
        Err(e) => Err(e.to_string()),
    }
}

/// A text that does not start with white space and holds no control character.
pub open spec fn unbroken(s: Seq<char>) -> bool {
    &&& s.len() > 0
    &&& !CharClass::White.holds(s[0])
    &&& forall|i: int| 0 <= i < s.len() ==> #[trigger] s[i] as u32 >= 0x20
}

/// Writes a value without white space: `serde_json::Value`'s `to_string`. The
/// text is a function of the value, and reading the text of a plain value
/// gives the value back. Control characters are written as escapes, so the text
/// stands on one line.
#[verifier::external_body]
pub(crate) fn render(v: &Json) -> (r: String)
    ensures
        r@ == json_compact(v.value()),
        unbroken(r@),
        plain(v.value(), depth_limit()) ==> reads_as(r@, v.value()),
{
    to_value(v).to_string()
}

/// Writes a value over lines with an indent of two spaces:
/// `serde_json::to_string_pretty`, which `{:#}` on a `Value` is. The text is a
/// function of the value, and reading the text of a plain value gives the
/// value back.
#[verifier::external_body]
pub(crate) fn render_pretty(v: &Json) -> (r: String)
    ensures
        r@ == json_pretty(v.value()),
        plain(v.value(), depth_limit()) ==> reads_as(r@, v.value()),
{
    format!("{:#}", to_value(v))
}

// ---------------------------------------------------------------------------
// Access
// ---------------------------------------------------------------------------

/// The value of an optional reference.
pub open spec fn opt_value(o: Option<&Json>) -> Option<JsonView> {
    match o {
        Some(v) => Some(v.value()),
        None => None,
    }
}

impl Json {
    /// What a record holds, under its key or in its place.
    pub fn part(&self, key: &str, place: usize) -> (r: Option<&Json>)
        ensures
            opt_value(r) == part(self.value(), key@, place as int),
    {
        match self {
            Json::Array(a) => {
                proof {
                    lemma_array_value(*a);
                }
                if place < a.len() {
                    assert(values(a@)[place as int] == a@[place as int].value());
                    Some(&a[place])
                } else {
                    None
                }
            },
            _ => self.get(key),
        }
    }

    /// Whether a record that is written as an array has no more than `n` values in it.
    pub fn has_at_most(&self, n: usize) -> (r: bool)
        ensures
            r == at_most_parts(self.value(), n as int),
    {
        match self {
            Json::Array(a) => {
                proof {
                    lemma_array_value(*a);
                }
                a.len() <= n
            },
            _ => true,
        }
    }
}

impl Json {
    /// What an object holds under a key.
    pub fn get(&self, key: &str) -> (r: Option<&Json>)
        ensures
            opt_value(r) == field(self.value(), key@),
    {
        match self {
            Json::Object(m) => {
                proof {
                    lemma_object_value(*m);
                }
                let ghost all = member_views(m@);
                let mut i: usize = 0;
                assert(all.skip(0) =~= all);
                while i < m.len()
                    invariant
                        i <= m.len(),
                        all == member_views(m@),
                        self.value() == JsonView::Object(all),
                        member(all, key@) == member(all.skip(i as int), key@),
                    decreases m.len() - i,
                {
                    assert(all.skip(i as int)[0] == (m@[i as int].0@, m@[i as int].1.value()));
                    if same(m[i].0.as_str(), key) {
                        return Some(&m[i].1);
                    }
                    assert(all.skip(i as int).drop_first() =~= all.skip(i + 1));
                    i += 1;
                }
                assert(all.skip(i as int).len() == 0);
                None
            },
            _ => None,
        }
    }

    /// The text, where the value is text.
    pub fn as_str(&self) -> (r: Option<&str>)
        ensures
            opt_str_view(r) == (match self.value() {
                JsonView::Text(s) => Some(s),
                _ => None,
            }),
    {
        match self {
            Json::Text(s) => Some(s.as_str()),
            _ => None,
        }
    }

    /// The text under a key, where text stands there.
    pub fn get_str(&self, key: &str) -> (r: Option<&str>)
        ensures
            opt_str_view(r) == text_field(self.value(), key@),
    {
        match self.get(key) {
            Some(v) => v.as_str(),
            None => None,
        }
    }

    /// The number, where the value is an integer of 64 bits with a sign.
    pub fn as_i64(&self) -> (r: Option<i64>)
        ensures
            match r {
                Some(n) => self.value() == JsonView::Int(n as int),
                None => !(self.value() matches JsonView::Int(n) && n <= i64::MAX),
            },
    {
        match self {
            Json::Nat(n) => if *n <= 0x7fff_ffff_ffff_ffff {
                Some(*n as i64)
            } else {
                None
            },
            Json::Neg(n) => Some(*n),
            _ => None,
        }
    }

    /// The number, where the value is an integer of 64 bits without a sign.
    pub fn as_u64(&self) -> (r: Option<u64>)
        ensures
            match r {
                Some(n) => self.value() == JsonView::Int(n as int),
                None => !(self.value() matches JsonView::Int(n) && n >= 0),
            },
    {
        match self {
            Json::Nat(n) => Some(*n),
            Json::Neg(n) => if *n >= 0 {
                Some(*n as u64)
            } else {
                None
            },
            _ => None,
        }
    }

    /// A text value.
    pub fn text(s: &str) -> (r: Json)
        ensures
            r.value() == JsonView::Text(s@),
    {
        Json::Text(s.to_owned())
    }

    /// A text value, or null where there is no text.
    pub fn opt_text(s: Option<&str>) -> (r: Json)
        ensures
            r.value() == text_or_null(opt_str_view(s)),
    {
        match s {
            Some(t) => Json::text(t),
            None => Json::Null,
        }
    }

    /// An array of texts.
    pub fn texts(v: &Vec<String>) -> (r: Json)
        ensures
            r.value() == JsonView::Array(text_values(crate::text::views(v@))),
    {
        let mut a: Vec<Json> = Vec::new();
        let mut i: usize = 0;
        while i < v.len()
            invariant
                i <= v.len(),
                a@.len() == i,
                forall|j: int| 0 <= j < i ==> (#[trigger] a@[j]).value() == JsonView::Text(v@[j]@),
            decreases v.len() - i,
        {
            a.push(Json::text(v[i].as_str()));
            i += 1;
        }
        proof {
            lemma_array_value(a);
            assert(values(a@) =~= text_values(crate::text::views(v@)));
        }
        Json::Array(a)
    }

    /// An object of members.
    pub fn object(v: Vec<(String, Json)>) -> (r: Json)
        ensures
            r.value() == JsonView::Object(member_views(v@)),
    {
        proof {
            lemma_object_value(v);
        }
        Json::Object(v)
    }
}

/// A text value, or null where there is no text.
pub open spec fn text_or_null(s: Option<Seq<char>>) -> JsonView {
    match s {
        Some(t) => JsonView::Text(t),
        None => JsonView::Null,
    }
}

/// Texts as values.
pub open spec fn text_values(s: Seq<Seq<char>>) -> Seq<JsonView> {
    Seq::new(s.len(), |i: int| JsonView::Text(s[i]))
}

/// A text that has to be there.
pub open spec fn text_part(o: Option<JsonView>) -> Option<Seq<char>> {
    match o {
        Some(JsonView::Text(s)) => Some(s),
        _ => None,
    }
}

/// A text that may be left out or null. Nothing for a value of another kind.
pub open spec fn opt_text_part(o: Option<JsonView>) -> Option<Option<Seq<char>>> {
    match o {
        None => Some(None),
        Some(JsonView::Null) => Some(None),
        Some(JsonView::Text(s)) => Some(Some(s)),
        Some(_) => None,
    }
}

pub open spec fn all_texts(s: Seq<JsonView>) -> bool {
    forall|i: int| 0 <= i < s.len() ==> (#[trigger] s[i]) is Text
}

/// A list of texts that may be left out. Nothing for a value of another kind.
pub open spec fn list_part(o: Option<JsonView>) -> Option<Seq<Seq<char>>> {
    match o {
        None => Some(seq![]),
        Some(JsonView::Array(s)) => if all_texts(s) {
            Some(Seq::new(s.len(), |i: int| s[i]->Text_0))
        } else {
            None
        },
        Some(_) => None,
    }
}

/// A text that has to be there.
pub fn get_text(o: Option<&Json>) -> (r: Option<String>)
    ensures
        opt_view(r) == text_part(opt_value(o)),
{
    match o {
        Some(Json::Text(s)) => Some(s.clone()),
        _ => None,
    }
}

/// A text that may be left out or null.
pub fn get_opt_text(o: Option<&Json>) -> (r: Option<Option<String>>)
    ensures
        match r {
            Some(t) => opt_text_part(opt_value(o)) == Some(opt_view(t)),
            None => opt_text_part(opt_value(o)) is None,
        },
{
    match o {
        None => Some(None),
        Some(Json::Null) => Some(None),
        Some(Json::Text(s)) => Some(Some(s.clone())),
        Some(_) => None,
    }
}

/// A list of texts that may be left out.
pub fn get_list(o: Option<&Json>) -> (r: Option<Vec<String>>)
    ensures
        match r {
            Some(t) => list_part(opt_value(o)) == Some(views(t@)),
            None => list_part(opt_value(o)) is None,
        },
{
    match o {
        None => {
            let r: Vec<String> = Vec::new();
            assert(views(r@) =~= seq![]);
            Some(r)
        },
        Some(Json::Array(a)) => {
            proof {
                lemma_array_value(*a);
            }
            let ghost s = values(a@);
            let mut r: Vec<String> = Vec::new();
            let mut i: usize = 0;
            while i < a.len()
                invariant
                    i <= a.len(),
                    s == values(a@),
                    opt_value(o) == Some(JsonView::Array(s)),
                    r@.len() == i,
                    forall|j: int|
                        0 <= j < i ==> (#[trigger] s[j]) == JsonView::Text(r@[j]@),
                decreases a.len() - i,
            {
                assert(s[i as int] == a@[i as int].value());
                match &a[i] {
                    Json::Text(t) => r.push(t.clone()),
                    _ => {
                        return None;
                    },
                }
                i += 1;
            }
            assert(all_texts(s));
            assert(views(r@) =~= Seq::new(s.len(), |i: int| s[i]->Text_0));
            Some(r)
        },
        Some(_) => None,
    }
}

// ---------------------------------------------------------------------------
// Records: objects with a fixed list of keys, some of which may be left out
// ---------------------------------------------------------------------------

/// A record: the keys in order, each with its value or with none.
pub open spec fn distinct_keys(fields: Seq<(Seq<char>, Option<JsonView>)>) -> bool {
    forall|i: int, j: int|
        0 <= i < j < fields.len() ==> (#[trigger] fields[i]).0 != (#[trigger] fields[j]).0
}

/// The members of the first `n` fields: those that have a value.
pub open spec fn present(fields: Seq<(Seq<char>, Option<JsonView>)>, n: int) -> Seq<
    (Seq<char>, JsonView),
>
    decreases n,
{
    if n <= 0 {
        seq![]
    } else {
        match fields[n - 1].1 {
            Some(v) => present(fields, n - 1).push((fields[n - 1].0, v)),
            None => present(fields, n - 1),
        }
    }
}

/// The object of a record.
pub open spec fn record(fields: Seq<(Seq<char>, Option<JsonView>)>) -> JsonView {
    JsonView::Object(present(fields, fields.len() as int))
}

proof fn lemma_member_push(s: Seq<(Seq<char>, JsonView)>, x: (Seq<char>, JsonView), key: Seq<char>)
    ensures
        member(s.push(x), key) == (if member(s, key) is Some {
            member(s, key)
        } else if x.0 == key {
            Some(x.1)
        } else {
            None
        }),
    decreases s.len(),
{
    if s.len() == 0 {
        assert(s.push(x).drop_first() =~= s);
    } else {
        assert(s.push(x).drop_first() =~= s.drop_first().push(x));
        lemma_member_push(s.drop_first(), x, key);
    }
}

proof fn lemma_present(fields: Seq<(Seq<char>, Option<JsonView>)>, n: int)
    requires
        distinct_keys(fields),
        0 <= n <= fields.len(),
    ensures
        forall|i: int|
            0 <= i < n ==> member(present(fields, n), (#[trigger] fields[i]).0) == fields[i].1,
        forall|k: Seq<char>|
            (forall|i: int| 0 <= i < n ==> (#[trigger] fields[i]).0 != k) ==> #[trigger] member(
                present(fields, n),
                k,
            ) is None,
        forall|j: int|
            0 <= j < present(fields, n).len() ==> exists|i: int|
                0 <= i < n && (#[trigger] fields[i]).0 == (#[trigger] present(fields, n)[j]).0
                    && fields[i].1 == Some(present(fields, n)[j].1),
        forall|a: int, b: int|
            0 <= a < b < present(fields, n).len() ==> (#[trigger] present(fields, n)[a]).0 != (
            #[trigger] present(fields, n)[b]).0,
    decreases n,
{
    if n > 0 {
        lemma_present(fields, n - 1);
        let was = present(fields, n - 1);
        let now = present(fields, n);
        let key = fields[n - 1].0;
        assert forall|i: int| 0 <= i < n - 1 implies (#[trigger] fields[i]).0 != key by {}
        assert(member(was, key) is None);
        match fields[n - 1].1 {
            Some(v) => {
                assert forall|i: int| 0 <= i < n implies member(now, (#[trigger] fields[i]).0)
                    == fields[i].1 by {
                    lemma_member_push(was, (key, v), fields[i].0);
                }
                assert forall|k: Seq<char>|
                    (forall|i: int| 0 <= i < n ==> (#[trigger] fields[i]).0 != k) implies
                    #[trigger] member(now, k) is None by {
                    lemma_member_push(was, (key, v), k);
                    assert(fields[n - 1].0 != k);
                }
                assert forall|j: int| 0 <= j < now.len() implies exists|i: int|
                    0 <= i < n && (#[trigger] fields[i]).0 == (#[trigger] now[j]).0 && fields[i].1
                        == Some(now[j].1) by {
                    if j < was.len() {
                        assert(now[j] == was[j]);
                    } else {
                        assert(fields[n - 1].0 == now[j].0);
                    }
                }
                assert forall|a: int, b: int| 0 <= a < b < now.len() implies (#[trigger] now[a]).0
                    != (#[trigger] now[b]).0 by {
                    assert(now[a] == was[a]);
                    if b < was.len() {
                        assert(now[b] == was[b]);
                    }
                }
            },
            None => {
                assert forall|k: Seq<char>|
                    (forall|i: int| 0 <= i < n ==> (#[trigger] fields[i]).0 != k) implies
                    #[trigger] member(now, k) is None by {}
            },
        }
    }
}

/// A record holds under each of its keys the value of the field, and nothing for
/// one that has none.
pub proof fn lemma_record_field(fields: Seq<(Seq<char>, Option<JsonView>)>, i: int)
    requires
        distinct_keys(fields),
        0 <= i < fields.len(),
    ensures
        field(record(fields), fields[i].0) == fields[i].1,
{
    lemma_present(fields, fields.len() as int);
}

/// A record holds nothing under a key that it does not have.
pub proof fn lemma_record_other(fields: Seq<(Seq<char>, Option<JsonView>)>, key: Seq<char>)
    requires
        distinct_keys(fields),
        forall|i: int| 0 <= i < fields.len() ==> (#[trigger] fields[i]).0 != key,
    ensures
        field(record(fields), key) is None,
{
    lemma_present(fields, fields.len() as int);
}

/// A record of plain values is plain.
pub proof fn lemma_record_plain(fields: Seq<(Seq<char>, Option<JsonView>)>, depth: nat)
    requires
        distinct_keys(fields),
        depth > 0,
        forall|i: int|
            0 <= i < fields.len() ==> ((#[trigger] fields[i]).1 matches Some(v) ==> plain(
                v,
                (depth - 1) as nat,
            )),
    ensures
        plain(record(fields), depth),
{
    lemma_present(fields, fields.len() as int);
    let s = present(fields, fields.len() as int);
    assert forall|j: int| 0 <= j < s.len() implies plain((#[trigger] s[j]).1, (depth - 1) as nat) by {
        let i = choose|i: int|
            0 <= i < fields.len() && (#[trigger] fields[i]).0 == s[j].0 && fields[i].1 == Some(
                s[j].1,
            );
        assert(fields[i].1 == Some(s[j].1));
    }
}

/// Texts are plain, alone and in an array.
pub proof fn lemma_texts_plain(s: Seq<Seq<char>>, depth: nat)
    requires
        depth > 0,
    ensures
        plain(JsonView::Array(text_values(s)), depth),
{
    let a = text_values(s);
    assert forall|i: int| 0 <= i < a.len() implies plain(#[trigger] a[i], (depth - 1) as nat) by {
        assert(a[i] is Text);
    }
}

/// Adds a member where there is a value for it.
pub fn push_member(members: &mut Vec<(String, Json)>, key: &str, value: Option<Json>)
    ensures
        member_views(final(members)@) == (match value {
            Some(v) => member_views(old(members)@).push((key@, v.value())),
            None => member_views(old(members)@),
        }),
{
    match value {
        Some(v) => {
            let ghost was = member_views(members@);
            let ghost x = v.value();
            members.push((key.to_owned(), v));
            assert(member_views(members@) =~= was.push((key@, x)));
        },
        None => {},
    }
}

/// An object's members, before any is there.
pub fn no_members() -> (r: Vec<(String, Json)>)
    ensures
        member_views(r@) == Seq::<(Seq<char>, JsonView)>::empty(),
{
    let r: Vec<(String, Json)> = Vec::new();
    assert(member_views(r@) =~= Seq::empty());
    r
}

/// An object's members, with one more.
pub fn with_member(members: Vec<(String, Json)>, key: &str, value: Json) -> (r: Vec<(String, Json)>)
    ensures
        member_views(r@) == member_views(members@).push((key@, value.value())),
{
    let mut r = members;
    push_member(&mut r, key, Some(value));
    r
}

/// What has a form in JSON.
pub trait JsonForm {
    spec fn json(&self) -> JsonView;

    fn to_json(&self) -> (r: Json)
        ensures
            r.value() == self.json(),
    ;
}

/// The forms of a sequence.
pub open spec fn forms<T: JsonForm>(s: Seq<T>) -> Seq<JsonView> {
    Seq::new(s.len(), |i: int| s[i].json())
}

/// A list in JSON.
pub fn json_list<T: JsonForm>(v: &Vec<T>) -> (r: Json)
    ensures
        r.value() == JsonView::Array(forms(v@)),
{
    let mut a: Vec<Json> = Vec::new();
    let mut i: usize = 0;
    while i < v.len()
        invariant
            i <= v.len(),
            a@.len() == i,
            forall|j: int| 0 <= j < i ==> (#[trigger] a@[j]).value() == v@[j].json(),
        decreases v.len() - i,
    {
        a.push(v[i].to_json());
        i += 1;
    }
    proof {
        lemma_array_value(a);
        assert(values(a@) =~= forms(v@));
    }
    Json::Array(a)
}

/// A number or nothing.
pub open spec fn nat_or_null(o: Option<u64>) -> JsonView {
    match o {
        Some(n) => JsonView::Int(n as int),
        None => JsonView::Null,
    }
}

/// A number or nothing.
pub fn opt_nat(o: Option<u64>) -> (r: Json)
    ensures
        r.value() == nat_or_null(o),
{
    match o {
        Some(n) => Json::Nat(n),
        None => Json::Null,
    }
}

/// A copy of a value.
pub fn copy(v: &Json) -> (r: Json)
    ensures
        r.value() == v.value(),
    decreases *v,
{
    match v {
        Json::Null => Json::Null,
        Json::Bool(b) => Json::Bool(*b),
        Json::Nat(n) => Json::Nat(*n),
        Json::Neg(n) => Json::Neg(*n),
        Json::Float(s) => Json::Float(s.clone()),
        Json::Text(s) => Json::Text(s.clone()),
        Json::Array(a) => {
            let mut out: Vec<Json> = Vec::new();
            let mut i: usize = 0;
            while i < a.len()
                invariant
                    i <= a.len(),
                    *v == Json::Array(*a),
                    out@.len() == i,
                    forall|j: int| 0 <= j < i ==> (#[trigger] out@[j]).value() == a@[j].value(),
                decreases a.len() - i,
            {
                assert(decreases_to!(*v => v->Array_0));
                assert(decreases_to!(*a => a[i as int]));
                out.push(copy(&a[i]));
                i += 1;
            }
            proof {
                lemma_array_value(*a);
                lemma_array_value(out);
                assert(values(out@) =~= values(a@));
            }
            Json::Array(out)
        },
        Json::Object(m) => {
            let mut out: Vec<(String, Json)> = Vec::new();
            let mut i: usize = 0;
            while i < m.len()
                invariant
                    i <= m.len(),
                    *v == Json::Object(*m),
                    out@.len() == i,
                    forall|j: int|
                        0 <= j < i ==> (#[trigger] out@[j]).0@ == m@[j].0@ && out@[j].1.value()
                            == m@[j].1.value(),
                decreases m.len() - i,
            {
                assert(decreases_to!(*v => v->Object_0));
                assert(decreases_to!(*m => m[i as int]));
                assert(decreases_to!(m[i as int] => m[i as int].1));
                out.push((m[i].0.clone(), copy(&m[i].1)));
                i += 1;
            }
            proof {
                lemma_object_value(*m);
                lemma_object_value(out);
                assert(member_views(out@) =~= member_views(m@));
            }
            Json::Object(out)
        },
    }
}

} // verus!
