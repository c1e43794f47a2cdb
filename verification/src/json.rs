//! The library's own model of a JSON document, as the notification and
//! connect-API logic reads it, with path lookup and scalar conversions.

use vstd::prelude::*;
use crate::text::{
    push_char, str_eq, parse_usize_text,
    decimal, i64_to_decimal, parse_i64, parse_i64_text, parse_u64_text, parse_unsigned, signed_decimal,
    u64_to_decimal,
};

verus! {

/// A JSON number as the parser classified it.
#[derive(Clone, Debug)]
pub enum JsonNumber {
    /// A non-negative integer.
    PosInt(u64),
    /// A negative integer.
    NegInt(i64),
    /// Any other number, kept as the text that the JSON writer prints for it.
    Float(String),
}

/// One member of a JSON object.
#[derive(Debug)]
pub struct JsonMember {
    pub key: String,
    pub value: JsonValue,
}

/// A JSON value. Arrays and objects also carry their compact JSON text, which
/// is what the logic reports for a value that is neither a string, a number
/// nor a boolean.
#[derive(Debug)]
pub enum JsonValue {
    Null,
    Bool(bool),
    Number(JsonNumber),
    String(String),
    Array { items: Vec<JsonValue>, text: String },
    Object { members: Vec<JsonMember>, text: String },
}

/// The text that `Number::to_string` gives.
pub open spec fn number_text(n: JsonNumber) -> Seq<char> {
    match n {
        JsonNumber::PosInt(v) => decimal(v as nat),
        JsonNumber::NegInt(v) => signed_decimal(v as int),
        JsonNumber::Float(t) => t@,
    }
}

/// `Number::as_u64`.
pub open spec fn number_as_u64(n: JsonNumber) -> Option<u64> {
    match n {
        JsonNumber::PosInt(v) => Some(v),
        _ => None,
    }
}

/// `Number::as_i64`.
pub open spec fn number_as_i64(n: JsonNumber) -> Option<i64> {
    match n {
        JsonNumber::PosInt(v) => if v <= i64::MAX {
            Some(v as i64)
        } else {
            None
        },
        JsonNumber::NegInt(v) => Some(v),
        JsonNumber::Float(_) => None,
    }
}

/// The text of a string, number or boolean; nothing for other values.
pub open spec fn spec_value_to_string(v: JsonValue) -> Option<Seq<char>> {
    match v {
        JsonValue::String(s) => Some(s@),
        JsonValue::Number(n) => Some(number_text(n)),
        JsonValue::Bool(b) => Some(if b { "true"@ } else { "false"@ }),
        _ => None,
    }
}

/// An unsigned integer read from a number (a negative one is refused) or from
/// a string of digits.
pub open spec fn spec_value_to_u64(v: JsonValue) -> Option<u64> {
    match v {
        JsonValue::Number(n) => match number_as_u64(n) {
            Some(x) => Some(x),
            None => match number_as_i64(n) {
                Some(x) => if x >= 0 {
                    Some(x as u64)
                } else {
                    None
                },
                None => None,
            },
        },
        JsonValue::String(s) => match parse_unsigned(s@, u64::MAX as nat) {
            Some(x) => Some(x as u64),
            None => None,
        },
        _ => None,
    }
}

/// A signed integer read from a number (an unsigned one above `i64::MAX`
/// wraps, as `as i64` does) or from a string.
pub open spec fn spec_value_to_i64(v: JsonValue) -> Option<i64> {
    match v {
        JsonValue::Number(n) => match number_as_i64(n) {
            Some(x) => Some(x),
            None => match number_as_u64(n) {
                Some(x) => Some(x as i64),
                None => None,
            },
        },
        JsonValue::String(s) => match parse_i64(s@) {
            Some(x) => Some(x as i64),
            None => None,
        },
        _ => None,
    }
}

/// What a report shows of a value: its text for scalars, its JSON text otherwise.
pub open spec fn spec_format_value(v: JsonValue) -> Seq<char> {
    match spec_value_to_string(v) {
        Some(s) => s,
        None => match v {
            JsonValue::Array { items, text } => text@,
            JsonValue::Object { members, text } => text@,
            _ => "null"@,
        },
    }
}

impl JsonNumber {
    /// A copy that is equal to this number.
    pub fn duplicate(&self) -> (r: JsonNumber)
        ensures
            r == *self,
    {
        match self {
            JsonNumber::PosInt(v) => JsonNumber::PosInt(*v),
            JsonNumber::NegInt(v) => JsonNumber::NegInt(*v),
            JsonNumber::Float(t) => JsonNumber::Float(t.clone()),
        }
    }

    pub fn to_text(&self) -> (r: String)
        ensures
            r@ == number_text(*self),
    {
        match self {
            JsonNumber::PosInt(v) => u64_to_decimal(*v),
            JsonNumber::NegInt(v) => i64_to_decimal(*v),
            JsonNumber::Float(t) => t.clone(),
        }
    }

    pub fn as_u64(&self) -> (r: Option<u64>)
        ensures
            r == number_as_u64(*self),
    {
        match self {
            JsonNumber::PosInt(v) => Some(*v),
            _ => None,
        }
    }

    pub fn as_i64(&self) -> (r: Option<i64>)
        ensures
            r == number_as_i64(*self),
    {
        match self {
            JsonNumber::PosInt(v) => if *v <= 0x7fff_ffff_ffff_ffffu64 {
                Some(*v as i64)
            } else {
                None
            },
            JsonNumber::NegInt(v) => Some(*v),
            JsonNumber::Float(_) => None,
        }
    }
}

pub fn value_to_string(value: &JsonValue) -> (r: Option<String>)
    ensures
        r matches Some(s) ==> spec_value_to_string(*value) == Some(s@),
        r is None ==> spec_value_to_string(*value) is None,
{
    match value {
        JsonValue::String(s) => Some(s.clone()),
        JsonValue::Number(n) => Some(n.to_text()),
        JsonValue::Bool(b) => {
            if *b {
                Some(String::from_str("true"))
            } else {
                Some(String::from_str("false"))
            }
        },
        _ => None,
    }
}

pub fn value_to_u64(value: &JsonValue) -> (r: Option<u64>)
    ensures
        r == spec_value_to_u64(*value),
{
    match value {
        JsonValue::Number(n) => match n.as_u64() {
            Some(x) => Some(x),
            None => match n.as_i64() {
                Some(x) => if x >= 0 {
                    Some(x as u64)
                } else {
                    None
                },
                None => None,
            },
        },
        JsonValue::String(s) => parse_u64_text(s.as_str()),
        _ => None,
    }
}

pub fn value_to_i64(value: &JsonValue) -> (r: Option<i64>)
    ensures
        r == spec_value_to_i64(*value),
{
    match value {
        JsonValue::Number(n) => match n.as_i64() {
            Some(x) => Some(x),
            None => match n.as_u64() {
                Some(x) => Some(x as i64),
                None => None,
            },
        },
        JsonValue::String(s) => parse_i64_text(s.as_str()),
        _ => None,
    }
}

pub fn format_value(value: &JsonValue) -> (r: String)
    ensures
        r@ == spec_format_value(*value),
{
    match value_to_string(value) {
        Some(s) => s,
        None => match value {
            JsonValue::Array { items, text } => text.clone(),
            JsonValue::Object { members, text } => text.clone(),
            _ => String::from_str("null"),
        },
    }
}


/// The pieces of `s` between the '.' characters, as `str::split('.')` yields them.
pub open spec fn split_dots(s: Seq<char>) -> Seq<Seq<char>>
    decreases s.len(),
{
    if s.len() == 0 {
        seq![Seq::<char>::empty()]
    } else {
        let rest = split_dots(s.drop_last());
        if s.last() == '.' {
            rest.push(Seq::<char>::empty())
        } else {
            rest.update(rest.len() - 1, rest.last().push(s.last()))
        }
    }
}

proof fn lemma_split_dots_len(s: Seq<char>)
    ensures
        split_dots(s).len() >= 1,
    decreases s.len(),
{
    if s.len() > 0 {
        lemma_split_dots_len(s.drop_last());
    }
}

/// The value of the first member named `key`.
pub open spec fn member_lookup(members: Seq<JsonMember>, key: Seq<char>) -> Option<JsonValue>
    decreases members.len(),
{
    if members.len() == 0 {
        None
    } else if members[0].key@ == key {
        Some(members[0].value)
    } else {
        member_lookup(members.drop_first(), key)
    }
}

/// The member `key` of an object; nothing for other values.
pub open spec fn spec_object_get(v: JsonValue, key: Seq<char>) -> Option<JsonValue> {
    match v {
        JsonValue::Object { members, text } => member_lookup(members@, key),
        _ => None,
    }
}

/// `Value::get` with a key.
pub fn object_get<'a>(v: &'a JsonValue, key: &str) -> (r: Option<&'a JsonValue>)
    ensures
        r matches Some(x) ==> spec_object_get(*v, key@) == Some(*x),
        r is None ==> spec_object_get(*v, key@) is None,
{
    match v {
        JsonValue::Object { members, text } => member_value(members, key),
        _ => None,
    }
}

/// One step down a path: a segment that reads as an index selects an array
/// element, any other segment selects an object member.
pub open spec fn json_step(v: JsonValue, segment: Seq<char>) -> Option<JsonValue> {
    match parse_unsigned(segment, usize::MAX as nat) {
        Some(index) => match v {
            JsonValue::Array { items, text } => if index < items@.len() {
                Some(items@[index as int])
            } else {
                None
            },
            _ => None,
        },
        None => match v {
            JsonValue::Object { members, text } => member_lookup(members@, segment),
            _ => None,
        },
    }
}

pub open spec fn value_at_segments(v: JsonValue, segments: Seq<Seq<char>>) -> Option<JsonValue>
    decreases segments.len(),
{
    if segments.len() == 0 {
        Some(v)
    } else {
        match json_step(v, segments[0]) {
            Some(next) => value_at_segments(next, segments.drop_first()),
            None => None,
        }
    }
}

/// The value found by following a dotted path such as `info.2.0` from `root`.
pub open spec fn spec_value_at_path(root: JsonValue, path: Seq<char>) -> Option<JsonValue> {
    value_at_segments(root, split_dots(path))
}

fn split_path(path: &str) -> (r: Vec<String>)
    ensures
        r@.len() == split_dots(path@).len(),
        forall|i: int| 0 <= i < r@.len() ==> #[trigger] r@[i]@ == split_dots(path@)[i],
{
    let chars = crate::text::chars_of(path);
    let mut out: Vec<String> = Vec::new();
    out.push(String::new());
    let mut i: usize = 0;
    while i < chars.len()
        invariant
            chars@ == path@,
            i <= chars@.len(),
            out@.len() == split_dots(path@.take(i as int)).len(),
            forall|k: int| 0 <= k < out@.len() ==> #[trigger] out@[k]@ == split_dots(
                path@.take(i as int),
            )[k],
        decreases chars@.len() - i,
    {
        let ghost before = path@.take(i as int);
        proof {
            lemma_split_dots_len(before);
            assert(path@.take(i + 1).drop_last() =~= before);
        }
        let c = chars[i];
        if c == '.' {
            out.push(String::new());
        } else {
            let last = out.len() - 1;
            let mut piece = out.remove(last);
            push_char(&mut piece, c);
            out.push(piece);
        }
        i += 1;
        proof {
            let now = split_dots(path@.take(i as int));
            assert forall|k: int| 0 <= k < out@.len() implies #[trigger] out@[k]@ == now[k] by {
            }
        }
    }
    assert(path@.take(chars@.len() as int) =~= path@);
    out
}

fn member_value<'a>(members: &'a Vec<JsonMember>, key: &str) -> (r: Option<&'a JsonValue>)
    ensures
        r matches Some(v) ==> member_lookup(members@, key@) == Some(*v),
        r is None ==> member_lookup(members@, key@) is None,
{
    let mut i: usize = 0;
    assert(members@.skip(0) =~= members@);
    while i < members.len()
        invariant
            i <= members@.len(),
            member_lookup(members@, key@) == member_lookup(members@.skip(i as int), key@),
        decreases members@.len() - i,
    {
        assert(members@.skip(i as int).drop_first() =~= members@.skip(i + 1));
        if str_eq(members[i].key.as_str(), key) {
            return Some(&members[i].value);
        }
        i += 1;
    }
    None
}

fn step<'a>(v: &'a JsonValue, segment: &str) -> (r: Option<&'a JsonValue>)
    ensures
        r matches Some(n) ==> json_step(*v, segment@) == Some(*n),
        r is None ==> json_step(*v, segment@) is None,
{
    match parse_usize_text(segment) {
        Some(index) => match v {
            JsonValue::Array { items, text } => {
                if index < items.len() {
                    Some(&items[index])
                } else {
                    None
                }
            },
            _ => None,
        },
        None => match v {
            JsonValue::Object { members, text } => member_value(members, segment),
            _ => None,
        },
    }
}

/// Follows a dotted path such as `data.user_info.uname` from `root`.
pub fn value_at_path<'a>(root: &'a JsonValue, path: &str) -> (r: Option<&'a JsonValue>)
    ensures
        r matches Some(v) ==> spec_value_at_path(*root, path@) == Some(*v),
        r is None ==> spec_value_at_path(*root, path@) is None,
{
    let segments = split_path(path);
    let ghost segs = split_dots(path@);
    let mut current: &'a JsonValue = root;
    let mut i: usize = 0;
    assert(segs.skip(0) =~= segs);
    while i < segments.len()
        invariant
            segments@.len() == segs.len(),
            forall|k: int| 0 <= k < segments@.len() ==> #[trigger] segments@[k]@ == segs[k],
            segs == split_dots(path@),
            i <= segs.len(),
            spec_value_at_path(*root, path@) == value_at_segments(*current, segs.skip(i as int)),
        decreases segs.len() - i,
    {
        let ghost rest = segs.skip(i as int);
        assert(rest[0] == segs[i as int]);
        assert(rest.drop_first() =~= segs.skip(i + 1));
        match step(current, segments[i].as_str()) {
            Some(next) => {
                current = next;
            },
            None => {
                return None;
            },
        }
        i += 1;
    }
    assert(segs.skip(i as int) =~= Seq::<Seq<char>>::empty());
    Some(current)
}

} // verus!
