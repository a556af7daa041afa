//! JSON documents as plain values, and the reads the library makes of them. `serde_json` turns
//! text or bytes into a document; the library decides from the document.
use vstd::prelude::*;

verus! {

/// A JSON value. An object keeps its members in the order the parser gave them; a number keeps
/// its value when it is an `i64`, and its text.
#[derive(Debug, PartialEq, Eq)]
pub enum Json {
    Null,
    Bool(bool),
    Number { integer: Option<i64>, text: String },
    Str(String),
    Array(Vec<Json>),
    Object(Vec<JsonMember>),
}

/// A member of a JSON object: its key and its value.
#[derive(Debug, PartialEq, Eq)]
pub struct JsonMember {
    pub key: String,
    pub value: Json,
}

/// What a JSON value holds, as mathematical values: two documents with the same view are the
/// same document.
pub enum JsonView {
    Null,
    Bool(bool),
    Number(Option<i64>, Seq<char>),
    Str(Seq<char>),
    Array(Seq<JsonView>),
    Object(Seq<(Seq<char>, JsonView)>),
}

impl Json {
    /// The value's view.
    pub open spec fn jv(self) -> JsonView
        decreases self,
    {
        match self {
            Json::Null => JsonView::Null,
            Json::Bool(b) => JsonView::Bool(b),
            Json::Number { integer, text } => JsonView::Number(integer, text@),
            Json::Str(s) => JsonView::Str(s@),
            Json::Array(items) => JsonView::Array(views_of(items@)),
            Json::Object(members) => JsonView::Object(member_views(members@)),
        }
    }
}

/// The views of a list of values.
pub open spec fn views_of(items: Seq<Json>) -> Seq<JsonView>
    decreases items,
{
    if items.len() == 0 {
        Seq::empty()
    } else {
        proof {
            assert(decreases_to!(items => items[items.len() - 1]));
            assert(decreases_to!(items => items.subrange(0, items.len() - 1)));
        }
        views_of(items.drop_last()).push(items.last().jv())
    }
}

/// The views of the members of an object.
pub open spec fn member_views(members: Seq<JsonMember>) -> Seq<(Seq<char>, JsonView)>
    decreases members,
{
    if members.len() == 0 {
        Seq::empty()
    } else {
        proof {
            assert(decreases_to!(members => members[members.len() - 1]));
            assert(decreases_to!(members => members.subrange(0, members.len() - 1)));
        }
        member_views(members.drop_last()).push((members.last().key@, members.last().value.jv()))
    }
}

/// The view of an optional value.
pub open spec fn opt_jv(v: Option<Json>) -> Option<JsonView> {
    match v {
        Some(j) => Some(j.jv()),
        None => None,
    }
}

proof fn lemma_views_of_same(a: Seq<Json>, b: Seq<Json>)
    requires
        a.len() == b.len(),
        forall|i: int| 0 <= i < a.len() ==> (#[trigger] a[i]).jv() == b[i].jv(),
    ensures
        views_of(a) == views_of(b),
    decreases a.len(),
{
    if a.len() > 0 {
        lemma_views_of_same(a.drop_last(), b.drop_last());
    }
}

proof fn lemma_member_views_same(a: Seq<JsonMember>, b: Seq<JsonMember>)
    requires
        a.len() == b.len(),
        forall|i: int| 0 <= i < a.len() ==> (#[trigger] a[i]).key@ == b[i].key@ && a[i].value.jv() == b[i].value.jv(),
    ensures
        member_views(a) == member_views(b),
    decreases a.len(),
{
    if a.len() > 0 {
        lemma_member_views_same(a.drop_last(), b.drop_last());
    }
}

/// A document as `serde_json` parsed it; Verus sees nothing inside it.
#[verifier::external_type_specification]
#[verifier::external_body]
pub struct ExJsonValue(serde_json::Value);

/// The document `serde_json` reads a text as, by its view; `None` when the text is no JSON.
pub uninterp spec fn json_of_text(text: Seq<char>) -> Option<JsonView>;

/// The document `serde_json` reads a byte string as, by its view; `None` when it is no JSON.
pub uninterp spec fn json_of_bytes(bytes: Seq<u8>) -> Option<JsonView>;

/// A parsed `serde_json::Value` in the library's form: one node for each node, variant for
/// variant, an object's members in the parser's order, a number with `as_i64` and its text.
/// It is the second half of `parse_json_text` and `parse_json_bytes`, kept apart only because
/// the copy is recursive; it claims nothing by itself.
#[verifier::external_body]
fn json_from_value(v: &serde_json::Value) -> Json {
    match v {
        serde_json::Value::Null => Json::Null,
        serde_json::Value::Bool(b) => Json::Bool(*b),
        serde_json::Value::Number(n) => Json::Number { integer: n.as_i64(), text: n.to_string() },
        serde_json::Value::String(s) => Json::Str(s.clone()),
        serde_json::Value::Array(a) => Json::Array(a.iter().map(json_from_value).collect()),
        serde_json::Value::Object(m) => Json::Object(
            m.iter().map(|(k, x)| JsonMember { key: k.clone(), value: json_from_value(x) }).collect(),
        ),
    }
}

/// `serde_json::from_str::<Value>` on a text, the value copied into the library's form. The
/// contract names the document.
#[verifier::external_body]
pub(crate) fn parse_json_text(text: &str) -> (r: Option<Json>)
    ensures
        match r {
            Some(j) => json_of_text(text@) == Some(j.jv()),
            None => json_of_text(text@) is None,
        },
{
    match serde_json::from_str::<serde_json::Value>(text) {
        Ok(v) => Some(json_from_value(&v)),
        Err(_) => None,
    }
}

/// `serde_json::from_slice::<Value>` on a byte string, the value copied into the library's
/// form. The contract names the document.
#[verifier::external_body]
pub(crate) fn parse_json_bytes(bytes: &[u8]) -> (r: Option<Json>)
    ensures
        match r {
            Some(j) => json_of_bytes(bytes@) == Some(j.jv()),
            None => json_of_bytes(bytes@) is None,
        },
{
    match serde_json::from_slice::<serde_json::Value>(bytes) {
        Ok(v) => Some(json_from_value(&v)),
        Err(_) => None,
    }
}

/// The value of the first member named `key` among `members`.
pub open spec fn lookup(members: Seq<JsonMember>, key: Seq<char>) -> Option<Json>
    decreases members.len(),
{
    if members.len() == 0 {
        None
    } else if members[0].key@ == key {
        Some(members[0].value)
    } else {
        lookup(members.drop_first(), key)
    }
}

/// The member `key` of an object; `None` for a missing key or a value that is no object.
pub open spec fn member(v: Json, key: Seq<char>) -> Option<Json> {
    match v {
        Json::Object(members) => lookup(members@, key),
        _ => None,
    }
}

/// The text of a JSON string.
pub open spec fn text_of(v: Option<Json>) -> Option<Seq<char>> {
    match v {
        Some(Json::Str(s)) => Some(s@),
        _ => None,
    }
}

/// A JSON number that is an `i64`.
pub open spec fn int_of(v: Option<Json>) -> Option<i64> {
    match v {
        Some(Json::Number { integer, text }) => integer,
        _ => None,
    }
}

/// The text of the member `key`, when it is a JSON string.
pub open spec fn member_text(v: Json, key: Seq<char>) -> Option<Seq<char>> {
    text_of(member(v, key))
}

/// The member `key`, when it is an `i64` number.
pub open spec fn member_int(v: Json, key: Seq<char>) -> Option<i64> {
    int_of(member(v, key))
}

/// The member under the first of `keys` that is present.
pub open spec fn first_member_spec(v: Json, keys: Seq<Seq<char>>) -> Option<Json>
    decreases keys.len(),
{
    if keys.len() == 0 {
        None
    } else {
        match member(v, keys[0]) {
            Some(m) => Some(m),
            None => first_member_spec(v, keys.drop_first()),
        }
    }
}

impl Json {
    /// A copy of the value.
    pub fn duplicate(&self) -> (r: Json)
        ensures
            r.jv() == self.jv(),
        decreases self,
    {
        match self {
            Json::Null => Json::Null,
            Json::Bool(b) => Json::Bool(*b),
            Json::Number { integer, text } => Json::Number { integer: *integer, text: text.clone() },
            Json::Str(s) => Json::Str(s.clone()),
            Json::Array(items) => {
                let mut out: Vec<Json> = Vec::new();
                let mut i: usize = 0;
                while i < items.len()
                    invariant
                        *self == Json::Array(*items),
                        i <= items@.len(),
                        out@.len() == i,
                        forall|k: int| 0 <= k < i ==> (#[trigger] out@[k]).jv() == items@[k].jv(),
                    decreases items@.len() - i,
                {
                    proof {
                        assert(decreases_to!(*self => self->Array_0));
                        vstd::std_specs::vec::axiom_vec_index_decreases(*items, i as int);
                        assert(decreases_to!(*items => items[i as int]));
                        assert(decreases_to!(self => items@[i as int]));
                    }
                    let item = items[i].duplicate();
                    out.push(item);
                    i = i + 1;
                }
                proof {
                    lemma_views_of_same(out@, items@);
                }
                Json::Array(out)
            },
            Json::Object(members) => {
                let mut out: Vec<JsonMember> = Vec::new();
                let mut i: usize = 0;
                while i < members.len()
                    invariant
                        *self == Json::Object(*members),
                        i <= members@.len(),
                        out@.len() == i,
                        forall|k: int|
                            0 <= k < i ==> (#[trigger] out@[k]).key@ == members@[k].key@ && out@[k].value.jv()
                                == members@[k].value.jv(),
                    decreases members@.len() - i,
                {
                    proof {
                        assert(decreases_to!(*self => self->Object_0));
                        vstd::std_specs::vec::axiom_vec_index_decreases(*members, i as int);
                        assert(decreases_to!(*members => members[i as int]));
                        assert(decreases_to!(members[i as int] => members[i as int].value));
                        assert(decreases_to!(self => members@[i as int].value));
                    }
                    let value = members[i].value.duplicate();
                    out.push(JsonMember { key: members[i].key.clone(), value });
                    i = i + 1;
                }
                proof {
                    lemma_member_views_same(out@, members@);
                }
                Json::Object(out)
            },
        }
    }
}

/// The member `key` of an object.
pub fn get<'a>(v: &'a Json, key: &str) -> (r: Option<&'a Json>)
    ensures
        match r {
            Some(m) => member(*v, key@) == Some(*m),
            None => member(*v, key@) is None,
        },
{
    match v {
        Json::Object(members) => {
            let mut i: usize = 0;
            proof {
                assert(*v == Json::Object(*members));
                assert(member(*v, key@) == lookup(members@, key@));
                assert(members@.skip(0) =~= members@);
            }
            while i < members.len()
                invariant
                    i <= members@.len(),
                    member(*v, key@) == lookup(members@, key@),
                    lookup(members@, key@) == lookup(members@.skip(i as int), key@),
                decreases members@.len() - i,
            {
                proof {
                    assert(members@.skip(i as int).drop_first() =~= members@.skip(i as int + 1));
                }
                assert(members@.skip(i as int)[0] == members@[i as int]);
                if crate::text::str_eq(members[i].key.as_str(), key) {
                    assert(members@[i as int].key@ == key@);
                    assert(lookup(members@.skip(i as int), key@) == Some(members@[i as int].value));
                    return Some(&members[i].value);
                }
                i = i + 1;
            }
            None
        },
        _ => None,
    }
}

/// The text of a JSON string.
pub fn as_text(v: Option<&Json>) -> (r: Option<&str>)
    ensures
        r matches Some(t) ==> text_of(match v { Some(j) => Some(*j), None => None }) == Some(t@),
        r is None ==> text_of(match v { Some(j) => Some(*j), None => None }) is None,
{
    match v {
        Some(Json::Str(s)) => Some(s.as_str()),
        _ => None,
    }
}

/// The member under the first of the keys that is present.
pub fn first_member<'a>(value: &'a Json, keys: &[&str]) -> (r: Option<&'a Json>)
    ensures
        match r {
            Some(m) => first_member_spec(*value, keys@.map_values(|k: &str| k@)) == Some(*m),
            None => first_member_spec(*value, keys@.map_values(|k: &str| k@)) is None,
        },
{
    let ghost ks = keys@.map_values(|k: &str| k@);
    let mut i: usize = 0;
    proof {
        assert(ks.skip(0) =~= ks);
    }
    while i < keys.len()
        invariant
            i <= keys@.len(),
            ks == keys@.map_values(|k: &str| k@),
            first_member_spec(*value, ks) == first_member_spec(*value, ks.skip(i as int)),
        decreases keys@.len() - i,
    {
        proof {
            assert(ks.skip(i as int).drop_first() =~= ks.skip(i as int + 1));
            assert(ks.skip(i as int)[0] == keys@[i as int]@);
        }
        match get(value, keys[i]) {
            Some(v) => {
                return Some(v);
            },
            None => {},
        }
        i = i + 1;
    }
    None
}

/// The text of the member `key`, when it is a JSON string.
pub fn member_str<'a>(value: &'a Json, key: &str) -> (r: Option<&'a str>)
    ensures
        match r {
            Some(t) => member_text(*value, key@) == Some(t@),
            None => member_text(*value, key@) is None,
        },
{
    as_text(get(value, key))
}

/// The member `key`, when it is an `i64` number.
pub fn member_i64(value: &Json, key: &str) -> (r: Option<i64>)
    ensures
        r == member_int(*value, key@),
{
    match get(value, key) {
        Some(Json::Number { integer, text }) => *integer,
        _ => None,
    }
}

} // verus!
