use vstd::prelude::*;

verus! {

/// A JSON document as the dispatcher holds it: an object is an ordered list
/// of members answered by first match, and numbers are restricted to signed
/// 64-bit integers (no numeric field is read by the notification shape). A
/// document read from bytes carries each key once.
#[derive(Debug, PartialEq, Eq)]
pub enum Json {
    Null,
    Bool(bool),
    Int(i64),
    Str(String),
    Arr(Vec<Json>),
    Obj(Vec<(String, Json)>),
}

/// The mathematical value of a document: what the contracts speak of.
#[verifier::ext_equal]
pub enum JsonV {
    Null,
    Bool(bool),
    Int(int),
    Str(Seq<char>),
    Arr(Seq<JsonV>),
    Obj(Seq<(Seq<char>, JsonV)>),
}

/// The value of a document.
pub open spec fn jval(j: Json) -> JsonV
    decreases j,
{
    match j {
        Json::Null => JsonV::Null,
        Json::Bool(b) => JsonV::Bool(b),
        Json::Int(n) => JsonV::Int(n as int),
        Json::Str(s) => JsonV::Str(s@),
        Json::Arr(_) => JsonV::Arr(jvals(j->Arr_0@)),
        Json::Obj(_) => JsonV::Obj(jval_members(j->Obj_0@)),
    }
}

/// The values of the elements of an array.
pub open spec fn jvals(s: Seq<Json>) -> Seq<JsonV>
    decreases s,
{
    if s.len() == 0 {
        Seq::empty()
    } else {
        jvals(s.drop_last()).push(jval(s.last()))
    }
}

/// The values of the members of an object.
pub open spec fn jval_members(ms: Seq<(String, Json)>) -> Seq<(Seq<char>, JsonV)>
    decreases ms,
{
    if ms.len() == 0 {
        Seq::empty()
    } else {
        jval_members(ms.drop_last()).push((ms.last().0@, jval(ms.last().1)))
    }
}

pub proof fn lemma_jvals_index(s: Seq<Json>)
    ensures
        jvals(s).len() == s.len(),
        forall|i: int| 0 <= i < s.len() ==> #[trigger] jvals(s)[i] == jval(s[i]),
    decreases s.len(),
{
    if s.len() > 0 {
        lemma_jvals_index(s.drop_last());
        assert forall|i: int| 0 <= i < s.len() implies #[trigger] jvals(s)[i] == jval(s[i]) by {
            if i < s.len() - 1 {
                assert(s.drop_last()[i] == s[i]);
            }
        }
    }
}

pub proof fn lemma_jval_members_index(ms: Seq<(String, Json)>)
    ensures
        jval_members(ms).len() == ms.len(),
        forall|i: int| 0 <= i < ms.len() ==> #[trigger] jval_members(ms)[i] == (
            ms[i].0@,
            jval(ms[i].1),
        ),
    decreases ms.len(),
{
    if ms.len() > 0 {
        lemma_jval_members_index(ms.drop_last());
        assert forall|i: int| 0 <= i < ms.len() implies #[trigger] jval_members(ms)[i] == (
            ms[i].0@,
            jval(ms[i].1),
        ) by {
            if i < ms.len() - 1 {
                assert(ms.drop_last()[i] == ms[i]);
            }
        }
    }
}

impl View for Json {
    type V = JsonV;

    open spec fn view(&self) -> JsonV {
        jval(*self)
    }
}

/// First-match lookup in an association list keyed by strings; the JSON
/// object model and the route table both use it.
pub open spec fn assoc_get<V>(ms: Seq<(Seq<char>, V)>, key: Seq<char>) -> Option<V>
    decreases ms.len(),
{
    if ms.len() == 0 {
        None
    } else if ms[0].0 == key {
        Some(ms[0].1)
    } else {
        assoc_get(ms.drop_first(), key)
    }
}

pub proof fn lemma_assoc_get_at<V>(ms: Seq<(Seq<char>, V)>, key: Seq<char>, i: int)
    requires
        0 <= i < ms.len(),
        ms[i].0 == key,
        forall|k: int| 0 <= k < i ==> ms[k].0 != key,
    ensures
        assoc_get(ms, key) == Some(ms[i].1),
    decreases i,
{
    if i > 0 {
        lemma_assoc_get_at(ms.drop_first(), key, i - 1);
    }
}

pub proof fn lemma_assoc_get_none<V>(ms: Seq<(Seq<char>, V)>, key: Seq<char>)
    requires
        forall|k: int| 0 <= k < ms.len() ==> ms[k].0 != key,
    ensures
        assoc_get(ms, key) is None,
    decreases ms.len(),
{
    if ms.len() > 0 {
        lemma_assoc_get_none(ms.drop_first(), key);
    }
}

/// Two corresponding association lists (same keys in the same order, values
/// related pointwise) answer every lookup alike.
pub proof fn lemma_assoc_get_corresponds<V, W>(
    a: Seq<(Seq<char>, V)>,
    b: Seq<(Seq<char>, W)>,
    key: Seq<char>,
    rel: spec_fn(V, W) -> bool,
)
    requires
        a.len() == b.len(),
        forall|i: int| 0 <= i < a.len() ==> a[i].0 == b[i].0,
        forall|i: int| 0 <= i < a.len() ==> #[trigger] rel(a[i].1, b[i].1),
    ensures
        match (assoc_get(a, key), assoc_get(b, key)) {
            (Some(v), Some(w)) => rel(v, w),
            (None, None) => true,
            _ => false,
        },
    decreases a.len(),
{
    if a.len() > 0 && a[0].0 != key {
        lemma_assoc_get_corresponds(a.drop_first(), b.drop_first(), key, rel);
    }
}

/// The member of an object under `key`; `None` on any other shape.
pub open spec fn member_of(j: JsonV, key: Seq<char>) -> Option<JsonV> {
    match j {
        JsonV::Obj(ms) => assoc_get(ms, key),
        _ => None,
    }
}

/// The member under `key`, if it is a string.
pub open spec fn str_member_of(j: JsonV, key: Seq<char>) -> Option<Seq<char>> {
    match member_of(j, key) {
        Some(JsonV::Str(s)) => Some(s),
        _ => None,
    }
}

/// Borrowing counterpart of `member_of`.
pub fn get_member<'a>(j: &'a Json, key: &String) -> (r: Option<&'a Json>)
    ensures
        match r {
            Some(v) => member_of(j@, key@) == Some(v@),
            None => member_of(j@, key@) is None,
        },
{
    let ms = match j {
        Json::Obj(ms) => ms,
        _ => { return None },
    };
    let ghost mv: Seq<(Seq<char>, JsonV)> = j@->Obj_0;
    proof {
        lemma_jval_members_index(ms@);
    }
    let mut i: usize = 0;
    while i < ms.len()
        invariant
            0 <= i <= ms@.len(),
            *j matches Json::Obj(m) && m == *ms,
            mv == j@->Obj_0,
            mv.len() == ms@.len(),
            forall|k: int| 0 <= k < ms@.len() ==> mv[k] == (ms@[k].0@, jval(ms@[k].1)),
            forall|k: int| 0 <= k < i ==> mv[k].0 != key@,
        decreases ms@.len() - i,
    {
        if ms[i].0 == *key {
            proof {
                lemma_assoc_get_at(mv, key@, i as int);
            }
            return Some(&ms[i].1);
        }
        i += 1;
    }
    proof {
        lemma_assoc_get_none(mv, key@);
    }
    None
}

/// The string member under `key`, borrowed.
pub fn get_str_member<'a>(j: &'a Json, key: &String) -> (r: Option<&'a String>)
    ensures
        match r {
            Some(s) => str_member_of(j@, key@) == Some(s@),
            None => str_member_of(j@, key@) is None,
        },
{
    match get_member(j, key) {
        Some(Json::Str(s)) => Some(s),
        _ => None,
    }
}

impl Json {
    /// A copy of the document with the same value.
    pub fn duplicate(&self) -> (r: Json)
        ensures
            r@ == self@,
        decreases *self,
    {
        match self {
            Json::Null => Json::Null,
            Json::Bool(b) => Json::Bool(*b),
            Json::Int(n) => Json::Int(*n),
            Json::Str(s) => Json::Str(s.clone()),
            Json::Arr(items) => {
                let mut out: Vec<Json> = Vec::new();
                let mut i: usize = 0;
                while i < items.len()
                    invariant
                        0 <= i <= items@.len(),
                        out@.len() == i,
                        *self matches Json::Arr(v) && v == *items,
                        forall|k: int| 0 <= k < i ==> #[trigger] jval(out@[k]) == jval(items@[k]),
                    decreases items@.len() - i,
                {
                    proof {
                        assert(decreases_to!(*self => self->Arr_0));
                        assert(decreases_to!(self->Arr_0 => self->Arr_0@));
                        assert(decreases_to!(self->Arr_0@ => self->Arr_0@[i as int]));
                    }
                    let d = items[i].duplicate();
                    out.push(d);
                    i += 1;
                }
                let r = Json::Arr(out);
                proof {
                    lemma_jvals_index(out@);
                    lemma_jvals_index(items@);
                    assert(jvals(out@) =~= jvals(items@));
                }
                r
            },
            Json::Obj(members) => {
                let mut out: Vec<(String, Json)> = Vec::new();
                let mut i: usize = 0;
                while i < members.len()
                    invariant
                        0 <= i <= members@.len(),
                        out@.len() == i,
                        *self matches Json::Obj(m) && m == *members,
                        forall|k: int| 0 <= k < i ==> #[trigger] out@[k].0@ == members@[k].0@,
                        forall|k: int| 0 <= k < i ==> #[trigger] jval(out@[k].1) == jval(members@[k].1),
                    decreases members@.len() - i,
                {
                    proof {
                        assert(decreases_to!(*self => self->Obj_0));
                        assert(decreases_to!(self->Obj_0 => self->Obj_0@));
                        assert(decreases_to!(self->Obj_0@ => self->Obj_0@[i as int]));
                        assert(decreases_to!(self->Obj_0@[i as int] => self->Obj_0@[i as int].1));
                    }
                    let k = members[i].0.clone();
                    let v = members[i].1.duplicate();
                    out.push((k, v));
                    i += 1;
                }
                let r = Json::Obj(out);
                proof {
                    lemma_jval_members_index(out@);
                    lemma_jval_members_index(members@);
                    assert(jval_members(out@) =~= jval_members(members@));
                }
                r
            },
        }
    }
}

#[verifier::external_type_specification]
#[verifier::external_body]
pub struct ExSerdeValue(serde_json::Value);

/// The value that reading a JSON text yields, `None` where the bytes are not
/// valid JSON. The reading is serde_json's; its result depends on the bytes
/// alone, so it is only named here, and `parse_json` is the sole oracle.
pub uninterp spec fn json_of(bytes: Seq<u8>) -> Option<JsonV>;

/// Relies on serde_json::Value's variant set: each variant is carried over one
/// for one, except that a number outside i64 becomes Null (no field the
/// library reads holds one).
#[verifier::external_body]
fn value_to_json(v: serde_json::Value) -> (r: Json) {
    match v {
        serde_json::Value::Null => Json::Null,
        serde_json::Value::Bool(b) => Json::Bool(b),
        serde_json::Value::Number(n) => match n.as_i64() {
            Some(i) => Json::Int(i),
            None => Json::Null,
        },
        serde_json::Value::String(s) => Json::Str(s),
        serde_json::Value::Array(a) => Json::Arr(a.into_iter().map(value_to_json).collect()),
        serde_json::Value::Object(m) => Json::Obj(
            m.into_iter().map(|(k, w)| (k, value_to_json(w))).collect(),
        ),
    }
}

/// Reads a JSON text; `None` when the bytes are not valid JSON. Relies on
/// serde_json::from_slice for the byte-level grammar, and on the conversion
/// above; both are functions of the bytes alone, so the outcome is exactly
/// `json_of` of them.
#[verifier::external_body]
pub fn parse_json(bytes: &[u8]) -> (r: Option<Json>)
    ensures
        match r {
            Some(j) => json_of(bytes@) == Some(j@),
            None => json_of(bytes@) is None,
        },
{
    match serde_json::from_slice::<serde_json::Value>(bytes).ok() {
        Some(v) => Some(value_to_json(v)),
        None => None,
    }
}

} // verus!
