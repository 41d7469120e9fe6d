//! A JSON document as a plain tree, with the handful of accessors the gateway
//! needs.  Reading and writing JSON text is left to `serde_json`; everything
//! that inspects or builds a tree is verified here.

use serde_json::Value;
use vstd::prelude::*;

verus! {

/// `serde_json::Value`, taken as an opaque value.  The library copies it
/// into a `Json` as soon as it has one and never looks inside.
#[verifier::external_type_specification]
#[verifier::external_body]
pub struct ExValue(serde_json::Value);

/// The tree that `serde_json::from_slice` reads from `bytes`, or the text of
/// the error that it reports.
pub uninterp spec fn parsed_json(bytes: Seq<u8>) -> Result<JsonValue, Seq<char>>;

/// The compact text that `serde_json` writes for a tree.
pub uninterp spec fn json_text(value: JsonValue) -> Seq<char>;

/// Copies a `serde_json::Value` into a `Json`, variant by variant.  A number
/// that `Number::as_i64` accepts becomes an `Int`; any other number becomes a
/// `Num` holding the text that `Number` displays.
#[verifier::external_body]
fn tree_of(v: &Value) -> Json {
    match v {
        Value::Null => Json::Null,
        Value::Bool(b) => Json::Bool(*b),
        Value::Number(n) => n.as_i64().map_or_else(|| Json::Num(n.to_string()), Json::Int),
        Value::String(s) => Json::Str(s.clone()),
        Value::Array(a) => Json::Arr(a.iter().map(tree_of).collect()),
        Value::Object(o) => Json::Obj(o.iter().map(|(k, x)| (k.clone(), tree_of(x))).collect()),
    }
}

/// Copies a `Json` into a `serde_json::Value`, variant by variant.  A `Num`
/// is read back with `Number::from_str`; text that is no number gives `Null`.
/// Members are inserted in order, so of two equal keys the later one stays.
#[verifier::external_body]
fn value_of(j: &Json) -> Value {
    match j {
        Json::Null => Value::Null,
        Json::Bool(b) => Value::Bool(*b),
        Json::Int(i) => Value::from(*i),
        Json::Num(s) => s.parse().map_or(Value::Null, Value::Number),
        Json::Str(s) => Value::String(s.clone()),
        Json::Arr(a) => Value::Array(a.iter().map(value_of).collect()),
        Json::Obj(o) => Value::Object(o.iter().map(|(k, x)| (k.clone(), value_of(x))).collect()),
    }
}

/// Calls `serde_json::from_slice` for a `Value` and copies the outcome into a
/// `Json`, or hands back the text that the error displays.  The contract names
/// the outcome `parsed_json(bytes)`: the same bytes always read as the same
/// tree, or always fail with the same text.
#[verifier::external_body]
fn parse_json(bytes: &[u8]) -> (r: Result<Json, String>)
    ensures
        match r {
            Ok(j) => parsed_json(bytes@) is Ok && parsed_json(bytes@)->Ok_0 == j@,
            Err(e) => parsed_json(bytes@) is Err && parsed_json(bytes@)->Err_0 == e@,
        },
{
    match serde_json::from_slice::<Value>(bytes) {
        Ok(v) => Ok(tree_of(&v)),
        Err(e) => Err(e.to_string()),
    }
}

/// Copies the tree into a `Value` and formats it with the `Display` of
/// `serde_json::Value`, which writes compact JSON.  The contract names the
/// text `json_text` of the tree's value.
#[verifier::external_body]
fn render_json(j: &Json) -> (r: String)
    ensures
        r@ == json_text(j@),
{
    value_of(j).to_string()
}

/// An executable JSON tree.
///
/// An integer that fits `i64` is an `Int`; any other number is a `Num` holding
/// its JSON text.  An object keeps its members in a vector; the first member
/// with a given key is the one that `get` finds.
#[derive(Debug)]
pub enum Json {
    Null,
    Bool(bool),
    Int(i64),
    Num(String),
    Str(String),
    Arr(Vec<Json>),
    Obj(Vec<(String, Json)>),
}

/// The mathematical value of a `Json` tree.
#[verifier::ext_equal]
pub enum JsonValue {
    Null,
    Bool(bool),
    Int(i64),
    Num(Seq<char>),
    Str(Seq<char>),
    Arr(Seq<JsonValue>),
    Obj(Seq<(Seq<char>, JsonValue)>),
}

/// The value of a tree, node by node.
pub open spec fn json_value(j: Json) -> JsonValue
    decreases j,
{
    match j {
        Json::Null => JsonValue::Null,
        Json::Bool(b) => JsonValue::Bool(b),
        Json::Int(i) => JsonValue::Int(i),
        Json::Num(s) => JsonValue::Num(s@),
        Json::Str(s) => JsonValue::Str(s@),
        Json::Arr(v) => JsonValue::Arr(
            Seq::new(
                v@.len(),
                |i: int|
                    if 0 <= i < v@.len() {
                        json_value(v@[i])
                    } else {
                        JsonValue::Null
                    },
            ),
        ),
        Json::Obj(v) => JsonValue::Obj(
            Seq::new(
                v@.len(),
                |i: int|
                    if 0 <= i < v@.len() {
                        (v@[i].0@, json_value(v@[i].1))
                    } else {
                        (Seq::empty(), JsonValue::Null)
                    },
            ),
        ),
    }
}

impl View for Json {
    type V = JsonValue;

    open spec fn view(&self) -> JsonValue {
        json_value(*self)
    }
}

/// The values of a vector of trees.
pub open spec fn items_view(v: Seq<Json>) -> Seq<JsonValue> {
    Seq::new(v.len(), |i: int| v[i]@)
}

/// The values of a vector of object members.
pub open spec fn members_view(v: Seq<(String, Json)>) -> Seq<(Seq<char>, JsonValue)> {
    Seq::new(v.len(), |i: int| (v[i].0@, v[i].1@))
}

/// First member of `members` whose key is `key`.
pub open spec fn lookup(members: Seq<(Seq<char>, JsonValue)>, key: Seq<char>) -> Option<JsonValue>
    decreases members.len(),
{
    if members.len() == 0 {
        None
    } else if members.first().0 == key {
        Some(members.first().1)
    } else {
        lookup(members.drop_first(), key)
    }
}

/// Position of the first member of `members` whose key is `key`, or
/// `members.len()`.
pub open spec fn position(members: Seq<(Seq<char>, JsonValue)>, key: Seq<char>) -> int
    decreases members.len(),
{
    if members.len() == 0 {
        0
    } else if members.first().0 == key {
        0
    } else {
        1 + position(members.drop_first(), key)
    }
}

/// `members` with `key` bound to `value`: the first member of that key is
/// replaced, or a new member is appended.
pub open spec fn with_member(
    members: Seq<(Seq<char>, JsonValue)>,
    key: Seq<char>,
    value: JsonValue,
) -> Seq<(Seq<char>, JsonValue)> {
    let p = position(members, key);
    if p < members.len() {
        members.update(p, (key, value))
    } else {
        members.push((key, value))
    }
}

impl JsonValue {
    /// Member `key` of an object; `None` for a missing key or another kind.
    pub open spec fn get(self, key: Seq<char>) -> Option<JsonValue> {
        match self {
            JsonValue::Obj(members) => lookup(members, key),
            _ => None,
        }
    }

    /// Element `i` of an array; `None` out of range or for another kind.
    pub open spec fn at(self, i: int) -> Option<JsonValue> {
        match self {
            JsonValue::Arr(items) => if 0 <= i < items.len() {
                Some(items[i])
            } else {
                None
            },
            _ => None,
        }
    }

    /// Member `key` of an object, or `Null`.
    pub open spec fn member(self, key: Seq<char>) -> JsonValue {
        match self.get(key) {
            Some(v) => v,
            None => JsonValue::Null,
        }
    }

    pub open spec fn as_str(self) -> Option<Seq<char>> {
        match self {
            JsonValue::Str(s) => Some(s),
            _ => None,
        }
    }

    pub open spec fn as_i64(self) -> Option<i64> {
        match self {
            JsonValue::Int(i) => Some(i),
            _ => None,
        }
    }

    pub open spec fn as_bool(self) -> Option<bool> {
        match self {
            JsonValue::Bool(b) => Some(b),
            _ => None,
        }
    }

    pub open spec fn is_null(self) -> bool {
        self is Null
    }

    /// The string under `key`, or `default`.
    pub open spec fn str_or(self, key: Seq<char>, default: Seq<char>) -> Seq<char> {
        match self.member(key).as_str() {
            Some(s) => s,
            None => default,
        }
    }

    /// An object with `key` bound to `value`; any other kind is unchanged.
    pub open spec fn with(self, key: Seq<char>, value: JsonValue) -> JsonValue {
        match self {
            JsonValue::Obj(members) => JsonValue::Obj(with_member(members, key, value)),
            _ => self,
        }
    }
}

pub proof fn lemma_position(members: Seq<(Seq<char>, JsonValue)>, key: Seq<char>)
    ensures
        0 <= position(members, key) <= members.len(),
        position(members, key) < members.len() ==> members[position(members, key)].0 == key
            && lookup(members, key) == Some(members[position(members, key)].1),
        position(members, key) == members.len() ==> lookup(members, key) is None,
        forall|i: int| 0 <= i < position(members, key) ==> members[i].0 != key,
    decreases members.len(),
{
    if members.len() > 0 && members.first().0 != key {
        let t = members.drop_first();
        lemma_position(t, key);
        assert forall|i: int| 0 <= i < position(members, key) implies members[i].0 != key by {
            if i > 0 {
                assert(members[i] == t[i - 1]);
            }
        }
    }
}

pub proof fn lemma_position_unique(members: Seq<(Seq<char>, JsonValue)>, key: Seq<char>, k: int)
    requires
        0 <= k <= members.len(),
        k < members.len() ==> members[k].0 == key,
        forall|i: int| 0 <= i < k ==> members[i].0 != key,
    ensures
        position(members, key) == k,
{
    lemma_position(members, key);
    let r = position(members, key);
    if r < k {
        assert(members[r].0 == key);
    } else if k < r {
        assert(members[k].0 == key);
    }
}

/// After `with`, `get` on the same key finds the new value.
pub proof fn lemma_with_get(members: Seq<(Seq<char>, JsonValue)>, key: Seq<char>, value: JsonValue)
    ensures
        lookup(with_member(members, key, value), key) == Some(value),
{
    lemma_position(members, key);
    let p = position(members, key);
    let m2 = with_member(members, key, value);
    assert(m2[p].0 == key);
    assert forall|i: int| 0 <= i < p implies m2[i].0 != key by {
        assert(m2[i] == members[i]);
    }
    lemma_position_unique(m2, key, p);
    lemma_position(m2, key);
}

/// `with` on one key leaves every other key as it was.
pub proof fn lemma_with_get_other(
    members: Seq<(Seq<char>, JsonValue)>,
    key: Seq<char>,
    value: JsonValue,
    other: Seq<char>,
)
    requires
        other != key,
    ensures
        lookup(with_member(members, key, value), other) == lookup(members, other),
{
    lemma_position(members, key);
    lemma_position(members, other);
    let p = position(members, key);
    let q = position(members, other);
    let m2 = with_member(members, key, value);
    assert(p != q || p == members.len());
    if q < members.len() {
        assert(m2[q] == members[q]);
    } else {
        assert(m2.len() > q ==> m2[q].0 == key);
    }
    assert forall|i: int| 0 <= i < q implies m2[i].0 != other by {
        if i != p {
            assert(m2[i] == members[i]);
        }
    }
    if q < members.len() {
        lemma_position_unique(m2, other, q);
    } else {
        assert forall|i: int| 0 <= i < m2.len() implies m2[i].0 != other by {
            if i < members.len() && i != p {
                assert(m2[i] == members[i]);
            }
        }
        lemma_position_unique(m2, other, m2.len() as int);
    }
    lemma_position(m2, other);
}

impl Json {
    /// Reads a JSON document; the error is the parser's message.
    pub fn parse(bytes: &[u8]) -> (r: Result<Json, String>)
        ensures
            match r {
                Ok(j) => parsed_json(bytes@) is Ok && parsed_json(bytes@)->Ok_0 == j@,
                Err(e) => parsed_json(bytes@) is Err && parsed_json(bytes@)->Err_0 == e@,
            },
    {
        parse_json(bytes)
    }

    /// Writes the tree as compact JSON text.
    pub fn to_text(&self) -> (r: String)
        ensures
            r@ == json_text(self@),
    {
        render_json(self)
    }

    /// A JSON string.
    pub fn text(s: &str) -> (r: Json)
        ensures
            r@ == JsonValue::Str(s@),
    {
        Json::Str(s.to_owned())
    }

    /// The value of an array node, element by element.
    pub proof fn lemma_arr_view(v: Vec<Json>)
        ensures
            Json::Arr(v)@ == JsonValue::Arr(items_view(v@)),
    {
        let a = Json::Arr(v);
        assert forall|i: int| 0 <= i < v@.len() implies a@->Arr_0[i] == v@[i]@ by {
            assert(decreases_to!(a => v@[i]));
        }
        assert(a@->Arr_0 =~= items_view(v@));
    }

    /// The value of an object node, member by member.
    pub proof fn lemma_obj_view(v: Vec<(String, Json)>)
        ensures
            Json::Obj(v)@ == JsonValue::Obj(members_view(v@)),
    {
        let o = Json::Obj(v);
        assert forall|i: int| 0 <= i < v@.len() implies o@->Obj_0[i] == (v@[i].0@, v@[i].1@) by {
            assert(decreases_to!(o => v@[i].1));
        }
        assert(o@->Obj_0 =~= members_view(v@));
    }

    pub fn is_null(&self) -> (r: bool)
        ensures
            r == self@.is_null(),
    {
        match self {
            Json::Null => true,
            _ => false,
        }
    }

    pub fn as_str(&self) -> (r: Option<&String>)
        ensures
            match r {
                Some(s) => self@.as_str() == Some(s@),
                None => self@.as_str() is None,
            },
    {
        match self {
            Json::Str(s) => Some(s),
            _ => None,
        }
    }

    pub fn as_i64(&self) -> (r: Option<i64>)
        ensures
            r == self@.as_i64(),
    {
        match self {
            Json::Int(i) => Some(*i),
            _ => None,
        }
    }

    pub fn as_bool(&self) -> (r: Option<bool>)
        ensures
            r == self@.as_bool(),
    {
        match self {
            Json::Bool(b) => Some(*b),
            _ => None,
        }
    }

    /// Member `key` of an object.
    pub fn get(&self, key: &str) -> (r: Option<&Json>)
        ensures
            match r {
                Some(j) => self@.get(key@) == Some(j@),
                None => self@.get(key@) is None,
            },
    {
        match self {
            Json::Obj(v) => {
                let i: usize = find_member(v, key);
                proof {
                    Json::lemma_obj_view(*v);
                    lemma_position(members_view(v@), key@);
                }
                if i < v.len() {
                    Some(&v[i].1)
                } else {
                    None
                }
            },
            _ => None,
        }
    }

    /// Element `i` of an array.
    pub fn at(&self, i: usize) -> (r: Option<&Json>)
        ensures
            match r {
                Some(j) => self@.at(i as int) == Some(j@),
                None => self@.at(i as int) is None,
            },
    {
        match self {
            Json::Arr(v) => {
                proof {
                    Json::lemma_arr_view(*v);
                }
                if i < v.len() {
                    Some(&v[i])
                } else {
                    None
                }
            },
            _ => None,
        }
    }

    /// The string under `key`, if there is one.
    pub fn get_str(&self, key: &str) -> (r: Option<&String>)
        ensures
            match r {
                Some(s) => self@.member(key@).as_str() == Some(s@),
                None => self@.member(key@).as_str() is None,
            },
    {
        match self.get(key) {
            Some(j) => j.as_str(),
            None => None,
        }
    }

    /// The `i64` under `key`, if there is one.
    pub fn get_i64(&self, key: &str) -> (r: Option<i64>)
        ensures
            r == self@.member(key@).as_i64(),
    {
        match self.get(key) {
            Some(j) => j.as_i64(),
            None => None,
        }
    }

    /// A copy of the string under `key`, or of `default`.
    pub fn str_or(&self, key: &str, default: &str) -> (r: String)
        ensures
            r@ == self@.str_or(key@, default@),
    {
        match self.get_str(key) {
            Some(s) => s.clone(),
            None => default.to_owned(),
        }
    }

    /// Binds `key` to `value` in an object; any other kind is left alone.
    pub fn set(&mut self, key: &str, value: Json)
        ensures
            final(self)@ == old(self)@.with(key@, value@),
    {
        match self {
            Json::Obj(v) => {
                let ghost before = members_view(v@);
                let i: usize = find_member(v, key);
                proof {
                    Json::lemma_obj_view(*v);
                }
                if i < v.len() {
                    v[i] = (key.to_owned(), value);
                } else {
                    v.push((key.to_owned(), value));
                }
                proof {
                    Json::lemma_obj_view(*v);
                    assert(members_view(v@) =~= with_member(before, key@, value@));
                }
            },
            _ => {},
        }
    }
}

/// `position` on a vector of members.
fn find_member(v: &Vec<(String, Json)>, key: &str) -> (r: usize)
    ensures
        r == position(members_view(v@), key@),
        r <= v.len(),
{
    let wanted: String = key.to_owned();
    let mut i: usize = 0;
    while i < v.len()
        invariant
            i <= v.len(),
            wanted@ == key@,
            forall|k: int| 0 <= k < i ==> members_view(v@)[k].0 != key@,
        decreases v.len() - i,
    {
        if v[i].0 == wanted {
            proof {
                assert(members_view(v@)[i as int].0 == key@);
                lemma_position_unique(members_view(v@), key@, i as int);
            }
            return i;
        }
        i += 1;
    }
    proof {
        lemma_position_unique(members_view(v@), key@, v@.len() as int);
    }
    i
}

proof fn lemma_item_smaller(v: Vec<Json>, i: int)
    requires
        0 <= i < v@.len(),
    ensures
        decreases_to!(Json::Arr(v) => v@[i]),
{
    let a = Json::Arr(v);
    assert(a->Arr_0 == v);
    assert(decreases_to!(a => a->Arr_0));
    assert(decreases_to!(v => v@));
    assert(decreases_to!(v@ => v@[i]));
    assert(decreases_to!(a => v@[i]));
}

proof fn lemma_member_smaller(v: Vec<(String, Json)>, i: int)
    requires
        0 <= i < v@.len(),
    ensures
        decreases_to!(Json::Obj(v) => v@[i].1),
{
    let o = Json::Obj(v);
    assert(o->Obj_0 == v);
    assert(decreases_to!(o => o->Obj_0));
    assert(decreases_to!(v => v@));
    assert(decreases_to!(v@ => v@[i]));
    assert(decreases_to!(v@[i] => v@[i].1));
    assert(decreases_to!(o => v@[i].1));
}

impl Clone for Json {
    fn clone(&self) -> (r: Json)
        ensures
            r@ == self@,
        decreases self,
    {
        match self {
            Json::Null => Json::Null,
            Json::Bool(b) => Json::Bool(*b),
            Json::Int(i) => Json::Int(*i),
            Json::Num(s) => Json::Num(s.clone()),
            Json::Str(s) => Json::Str(s.clone()),
            Json::Arr(v) => {
                let mut out: Vec<Json> = Vec::new();
                let mut i: usize = 0;
                while i < v.len()
                    invariant
                        i <= v.len(),
                        *self == Json::Arr(*v),
                        items_view(out@) == items_view(v@).take(i as int),
                    decreases v.len() - i,
                {
                    let ghost before = items_view(out@);
                    proof {
                        lemma_item_smaller(*v, i as int);
                    }
                    out.push(v[i].clone());
                    assert(items_view(out@) =~= before.push(v@[i as int]@));
                    assert(items_view(v@).take(i + 1) =~= items_view(v@).take(i as int).push(
                        v@[i as int]@,
                    ));
                    i += 1;
                }
                proof {
                    assert(items_view(v@).take(v.len() as int) =~= items_view(v@));
                    Json::lemma_arr_view(*v);
                    Json::lemma_arr_view(out);
                }
                Json::Arr(out)
            },
            Json::Obj(v) => {
                let mut out: Vec<(String, Json)> = Vec::new();
                let mut i: usize = 0;
                while i < v.len()
                    invariant
                        i <= v.len(),
                        *self == Json::Obj(*v),
                        members_view(out@) == members_view(v@).take(i as int),
                    decreases v.len() - i,
                {
                    let ghost before = members_view(out@);
                    proof {
                        lemma_member_smaller(*v, i as int);
                    }
                    out.push((v[i].0.clone(), v[i].1.clone()));
                    assert(members_view(out@) =~= before.push((v@[i as int].0@, v@[i as int].1@)));
                    assert(members_view(v@).take(i + 1) =~= members_view(v@).take(i as int).push(
                        (v@[i as int].0@, v@[i as int].1@),
                    ));
                    i += 1;
                }
                proof {
                    assert(members_view(v@).take(v.len() as int) =~= members_view(v@));
                    Json::lemma_obj_view(*v);
                    Json::lemma_obj_view(out);
                }
                Json::Obj(out)
            },
        }
    }
}

/// Collects the members of a JSON object in order.
pub struct ObjectBuilder {
    members: Vec<(String, Json)>,
}

impl ObjectBuilder {
    /// The members put so far.
    pub closed spec fn view(&self) -> Seq<(Seq<char>, JsonValue)> {
        members_view(self.members@)
    }

    pub fn new() -> (r: ObjectBuilder)
        ensures
            r.view() == Seq::<(Seq<char>, JsonValue)>::empty(),
    {
        let r = ObjectBuilder { members: Vec::new() };
        assert(r.view() =~= Seq::empty());
        r
    }

    /// Appends a member.
    pub fn put(&mut self, key: &str, value: Json)
        ensures
            final(self).view() == old(self).view().push((key@, value@)),
    {
        self.members.push((key.to_owned(), value));
        assert(self.view() =~= old(self).view().push((key@, value@)));
    }

    /// The object with the members put so far.
    pub fn build(self) -> (r: Json)
        ensures
            r@ == JsonValue::Obj(self.view()),
    {
        proof {
            Json::lemma_obj_view(self.members);
        }
        Json::Obj(self.members)
    }
}

/// Collects the elements of a JSON array in order.
pub struct ArrayBuilder {
    items: Vec<Json>,
}

impl ArrayBuilder {
    /// The elements put so far.
    pub closed spec fn view(&self) -> Seq<JsonValue> {
        items_view(self.items@)
    }

    pub fn new() -> (r: ArrayBuilder)
        ensures
            r.view() == Seq::<JsonValue>::empty(),
    {
        let r = ArrayBuilder { items: Vec::new() };
        assert(r.view() =~= Seq::empty());
        r
    }

    /// Appends an element.
    pub fn put(&mut self, value: Json)
        ensures
            final(self).view() == old(self).view().push(value@),
    {
        self.items.push(value);
        assert(self.view() =~= old(self).view().push(value@));
    }

    /// The array with the elements put so far.
    pub fn build(self) -> (r: Json)
        ensures
            r@ == JsonValue::Arr(self.view()),
    {
        proof {
            Json::lemma_arr_view(self.items);
        }
        Json::Arr(self.items)
    }
}

} // verus!
