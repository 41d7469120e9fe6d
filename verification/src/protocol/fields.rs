//! Reading members of a JSON object.  Each reader tells a member
//! that is absent or `null` (no value) from one of the wrong kind (`None`).

use crate::json::{members_view, Json, JsonValue, ObjectBuilder};
use crate::text::same_text;
use vstd::prelude::*;

verus! {

/// The value of an optional tree.
pub open spec fn opt_json_view(o: Option<Json>) -> Option<JsonValue> {
    match o {
        Some(j) => Some(j@),
        None => None,
    }
}

/// The value of an optional string.
pub open spec fn opt_text_view(o: Option<String>) -> Option<Seq<char>> {
    match o {
        Some(s) => Some(s@),
        None => None,
    }
}

/// The low 32 bits of `t`, read as a signed number: what a token count
/// becomes where it is kept in 32 bits.
pub open spec fn low_i32(t: i64) -> i32 {
    t as i32
}

/// `low_i32` at run time.
pub fn low_i32_of(t: i64) -> (r: i32)
    ensures
        r == low_i32(t),
{
    #[verifier::truncate]
    (t as i32)
}

/// Whether a number fits `i32`.
pub open spec fn fits_i32(n: i64) -> bool {
    -2147483648 <= n <= 2147483647
}

/// An optional 32-bit integer under `key`.
pub open spec fn optional_i32(j: JsonValue, key: Seq<char>) -> Option<Option<i32>> {
    match j.member(key) {
        JsonValue::Null => Some(None),
        JsonValue::Int(n) => if fits_i32(n) {
            Some(Some(n as i32))
        } else {
            None
        },
        _ => None,
    }
}

/// A required 32-bit integer under `key`.
pub open spec fn required_i32(j: JsonValue, key: Seq<char>) -> Option<i32> {
    match j.member(key) {
        JsonValue::Int(n) => if fits_i32(n) {
            Some(n as i32)
        } else {
            None
        },
        _ => None,
    }
}

/// An optional number under `key`, kept as JSON.
pub open spec fn optional_number(j: JsonValue, key: Seq<char>) -> Option<Option<JsonValue>> {
    match j.member(key) {
        JsonValue::Null => Some(None),
        JsonValue::Int(n) => Some(Some(JsonValue::Int(n))),
        JsonValue::Num(s) => Some(Some(JsonValue::Num(s))),
        _ => None,
    }
}

/// An optional boolean under `key`.
pub open spec fn optional_bool(j: JsonValue, key: Seq<char>) -> Option<Option<bool>> {
    match j.member(key) {
        JsonValue::Null => Some(None),
        JsonValue::Bool(b) => Some(Some(b)),
        _ => None,
    }
}

/// An optional string under `key`.
pub open spec fn optional_text(j: JsonValue, key: Seq<char>) -> Option<Option<Seq<char>>> {
    match j.member(key) {
        JsonValue::Null => Some(None),
        JsonValue::Str(s) => Some(Some(s)),
        _ => None,
    }
}

/// A string under `key`, or `default` where the member is absent or
/// `null`.
pub open spec fn text_or(j: JsonValue, key: Seq<char>, default: Seq<char>) -> Option<Seq<char>> {
    match optional_text(j, key) {
        Some(Some(s)) => Some(s),
        Some(None) => Some(default),
        None => None,
    }
}

pub fn read_optional_i32(j: &Json, key: &str) -> (r: Option<Option<i32>>)
    ensures
        r == optional_i32(j@, key@),
{
    match j.get(key) {
        None => Some(None),
        Some(Json::Null) => Some(None),
        Some(Json::Int(n)) => if -2147483648 <= *n && *n <= 2147483647 {
            Some(Some(*n as i32))
        } else {
            None
        },
        Some(_) => None,
    }
}

pub fn read_required_i32(j: &Json, key: &str) -> (r: Option<i32>)
    ensures
        r == required_i32(j@, key@),
{
    match j.get(key) {
        Some(Json::Int(n)) => if -2147483648 <= *n && *n <= 2147483647 {
            Some(*n as i32)
        } else {
            None
        },
        _ => None,
    }
}

pub fn read_optional_number(j: &Json, key: &str) -> (r: Option<Option<Json>>)
    ensures
        match r {
            Some(inner) => optional_number(j@, key@) == Some(opt_json_view(inner)),
            None => optional_number(j@, key@) is None,
        },
{
    match j.get(key) {
        None => Some(None),
        Some(Json::Null) => Some(None),
        Some(Json::Int(n)) => Some(Some(Json::Int(*n))),
        Some(Json::Num(s)) => Some(Some(Json::Num(s.clone()))),
        Some(_) => None,
    }
}

pub fn read_optional_bool(j: &Json, key: &str) -> (r: Option<Option<bool>>)
    ensures
        r == optional_bool(j@, key@),
{
    match j.get(key) {
        None => Some(None),
        Some(Json::Null) => Some(None),
        Some(Json::Bool(b)) => Some(Some(*b)),
        Some(_) => None,
    }
}

pub fn read_optional_text(j: &Json, key: &str) -> (r: Option<Option<String>>)
    ensures
        match r {
            Some(inner) => optional_text(j@, key@) == Some(opt_text_view(inner)),
            None => optional_text(j@, key@) is None,
        },
{
    match j.get(key) {
        None => Some(None),
        Some(Json::Null) => Some(None),
        Some(Json::Str(s)) => Some(Some(s.clone())),
        Some(_) => None,
    }
}

pub fn read_text_or(j: &Json, key: &str, default: &str) -> (r: Option<String>)
    ensures
        opt_text_view(r) == text_or(j@, key@, default@),
{
    match read_optional_text(j, key) {
        Some(Some(s)) => Some(s),
        Some(None) => Some(default.to_owned()),
        None => None,
    }
}

/// The two request shapes.
#[derive(Debug, Clone, Copy, PartialEq, Eq, Structural)]
pub enum RequestShape {
    OpenAi,
    Anthropic,
}

/// Whether a request of the shape names the member `key` itself.
pub open spec fn is_named(shape: RequestShape, key: Seq<char>) -> bool {
    key == "model"@ || key == "messages"@ || key == "max_tokens"@ || key == "temperature"@ || key
        == "top_p"@ || key == "stream"@ || match shape {
        RequestShape::OpenAi => key == "frequency_penalty"@ || key == "presence_penalty"@,
        RequestShape::Anthropic => key == "top_k"@ || key == "system"@,
    }
}

/// The members that a request of the shape does not name, in order.
pub open spec fn unnamed_members(shape: RequestShape, members: Seq<(Seq<char>, JsonValue)>) -> Seq<
    (Seq<char>, JsonValue),
>
    decreases members.len(),
{
    if members.len() == 0 {
        Seq::empty()
    } else {
        let rest = unnamed_members(shape, members.drop_last());
        if is_named(shape, members.last().0) {
            rest
        } else {
            rest.push(members.last())
        }
    }
}

/// The further members of a request document: an object of the members
/// that the shape does not name.
pub open spec fn further_members(shape: RequestShape, j: JsonValue) -> JsonValue {
    match j {
        JsonValue::Obj(members) => JsonValue::Obj(unnamed_members(shape, members)),
        _ => JsonValue::Obj(Seq::empty()),
    }
}

fn named(shape: RequestShape, key: &str) -> (r: bool)
    ensures
        r == is_named(shape, key@),
{
    same_text(key, "model") || same_text(key, "messages") || same_text(key, "max_tokens")
        || same_text(key, "temperature") || same_text(key, "top_p") || same_text(key, "stream")
        || match shape {
        RequestShape::OpenAi => same_text(key, "frequency_penalty") || same_text(
            key,
            "presence_penalty",
        ),
        RequestShape::Anthropic => same_text(key, "top_k") || same_text(key, "system"),
    }
}

/// The further members of a request document.
pub fn read_further_members(shape: RequestShape, j: &Json) -> (r: Json)
    ensures
        r@ == further_members(shape, j@),
{
    let mut o = ObjectBuilder::new();
    match j {
        Json::Obj(members) => {
            proof {
                Json::lemma_obj_view(*members);
            }
            let ghost all = members_view(members@);
            let mut i: usize = 0;
            assert(all.take(0) =~= Seq::empty());
            while i < members.len()
                invariant
                    i <= members.len(),
                    all == members_view(members@),
                    o.view() == unnamed_members(shape, all.take(i as int)),
                decreases members.len() - i,
            {
                proof {
                    assert(all.take(i + 1).drop_last() =~= all.take(i as int));
                    assert(all.take(i + 1).last() == all[i as int]);
                }
                if !named(shape, members[i].0.as_str()) {
                    o.put(members[i].0.as_str(), members[i].1.clone());
                }
                i += 1;
            }
            assert(all.take(members.len() as int) =~= all);
        },
        _ => {},
    }
    o.build()
}

} // verus!
