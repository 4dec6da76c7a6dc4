//! The JSON documents that the contracts read and write, and their canonical
//! compact text: object members in stored order (kept sorted by key, as a
//! `BTreeMap` orders them), no insignificant whitespace, and the string
//! escapes of the compact JSON formatter.
use vstd::prelude::*;
use crate::text::{chars_of, push_char, string_from_chars, text_eq};

verus! {

/// One JSON value. Integers are exact: `UInt` holds every non-negative
/// integer, `NegInt` a negative one.
#[derive(Debug, PartialEq, Eq)]
pub enum Json {
    Null,
    Bool(bool),
    UInt(u64),
    NegInt(i64),
    Str(String),
    Array(Vec<Json>),
    Object(Vec<(String, Json)>),
}

/// The value stored under `key`: the first member with that name.
pub open spec fn field_lookup(fields: Seq<(String, Json)>, key: Seq<char>) -> Option<Json>
    decreases fields.len(),
{
    if fields.len() == 0 {
        None
    } else if fields[0].0@ == key {
        Some(fields[0].1)
    } else {
        field_lookup(fields.drop_first(), key)
    }
}

/// `value.get(key)`: a member of an object, `None` for every other value.
pub open spec fn member(j: Json, key: Seq<char>) -> Option<Json> {
    match j {
        Json::Object(fields) => field_lookup(fields@, key),
        _ => None,
    }
}

/// `value.as_str()`.
pub open spec fn as_text(j: Json) -> Option<Seq<char>> {
    match j {
        Json::Str(s) => Some(s@),
        _ => None,
    }
}

/// `value.as_u64()`.
pub open spec fn as_u64(j: Json) -> Option<u64> {
    match j {
        Json::UInt(n) => Some(n),
        _ => None,
    }
}

/// `value.as_bool()`.
pub open spec fn as_bool(j: Json) -> Option<bool> {
    match j {
        Json::Bool(b) => Some(b),
        _ => None,
    }
}

/// `value.as_array()`.
pub open spec fn as_items(j: Json) -> Option<Seq<Json>> {
    match j {
        Json::Array(items) => Some(items@),
        _ => None,
    }
}

/// The text stored under `key`, when the value is an object holding a string there.
pub open spec fn member_text(j: Json, key: Seq<char>) -> Option<Seq<char>> {
    match member(j, key) {
        Some(v) => as_text(v),
        None => None,
    }
}

/// The unsigned integer stored under `key`.
pub open spec fn member_u64(j: Json, key: Seq<char>) -> Option<u64> {
    match member(j, key) {
        Some(v) => as_u64(v),
        None => None,
    }
}

/// The array stored under `key`.
pub open spec fn member_items(j: Json, key: Seq<char>) -> Option<Seq<Json>> {
    match member(j, key) {
        Some(v) => as_items(v),
        None => None,
    }
}

/// The names of the members of an object, in stored order.
pub open spec fn member_names(fields: Seq<(String, Json)>) -> Seq<Seq<char>> {
    fields.map_values(|f: (String, Json)| f.0@)
}


/// The boolean stored under `key`.
pub open spec fn member_bool(j: Json, key: Seq<char>) -> Option<bool> {
    match member(j, key) {
        Some(v) => as_bool(v),
        None => None,
    }
}

impl Json {
    /// A string value.
    pub fn text(s: &str) -> (r: Json)
        ensures
            r matches Json::Str(t) && t@ == s@,
    {
        Json::Str(s.to_owned())
    }

    /// `value.get(key)`.
    pub fn get(&self, key: &str) -> (r: Option<&Json>)
        ensures
            match r {
                Some(v) => member(*self, key@) == Some(*v),
                None => member(*self, key@) is None,
            },
    {
        match self {
            Json::Object(fields) => {
                let mut i: usize = 0;
                assert(fields@.skip(0) =~= fields@);
                while i < fields.len()
                    invariant
                        i <= fields.len(),
                        *self == Json::Object(*fields),
                        field_lookup(fields@, key@) == field_lookup(fields@.skip(i as int), key@),
                    decreases fields.len() - i,
                {
                    assert(fields@.skip(i as int)[0] == fields@[i as int]);
                    assert(fields@.skip(i as int).drop_first() =~= fields@.skip(i + 1));
                    if text_eq(fields[i].0.as_str(), key) {
                        return Some(&fields[i].1);
                    }
                    i += 1;
                }
                None
            },
            _ => None,
        }
    }

    /// `value.as_str()`.
    pub fn as_str(&self) -> (r: Option<&str>)
        ensures
            match r {
                Some(t) => as_text(*self) == Some(t@),
                None => as_text(*self) is None,
            },
    {
        match self {
            Json::Str(s) => Some(s.as_str()),
            _ => None,
        }
    }

    /// `value.as_u64()`.
    pub fn as_u64(&self) -> (r: Option<u64>)
        ensures
            r == as_u64(*self),
    {
        match self {
            Json::UInt(n) => Some(*n),
            _ => None,
        }
    }

    /// `value.as_bool()`.
    pub fn as_bool(&self) -> (r: Option<bool>)
        ensures
            r == as_bool(*self),
    {
        match self {
            Json::Bool(b) => Some(*b),
            _ => None,
        }
    }

    /// `value.as_array()`.
    pub fn as_array(&self) -> (r: Option<&Vec<Json>>)
        ensures
            match r {
                Some(v) => as_items(*self) == Some(v@),
                None => as_items(*self) is None,
            },
    {
        match self {
            Json::Array(items) => Some(items),
            _ => None,
        }
    }

    /// The members of an object (`value.as_object()`).
    pub fn as_object(&self) -> (r: Option<&Vec<(String, Json)>>)
        ensures
            match r {
                Some(v) => *self == Json::Object(*v),
                None => !(*self is Object),
            },
    {
        match self {
            Json::Object(fields) => Some(fields),
            _ => None,
        }
    }

    /// `value.is_null()`.
    pub fn is_null(&self) -> (r: bool)
        ensures
            r == (*self is Null),
    {
        match self {
            Json::Null => true,
            _ => false,
        }
    }

    /// `value.get(key).and_then(Value::as_str)`.
    pub fn get_str(&self, key: &str) -> (r: Option<&str>)
        ensures
            match r {
                Some(t) => member_text(*self, key@) == Some(t@),
                None => member_text(*self, key@) is None,
            },
    {
        match self.get(key) {
            Some(v) => v.as_str(),
            None => None,
        }
    }

    /// `value.get(key).and_then(Value::as_u64)`.
    pub fn get_u64(&self, key: &str) -> (r: Option<u64>)
        ensures
            r == member_u64(*self, key@),
    {
        match self.get(key) {
            Some(v) => v.as_u64(),
            None => None,
        }
    }

    /// `value.get(key).and_then(Value::as_bool)`.
    pub fn get_bool(&self, key: &str) -> (r: Option<bool>)
        ensures
            r == member_bool(*self, key@),
    {
        match self.get(key) {
            Some(v) => v.as_bool(),
            None => None,
        }
    }

    /// `value.get(key).and_then(Value::as_array)`.
    pub fn get_array(&self, key: &str) -> (r: Option<&Vec<Json>>)
        ensures
            match r {
                Some(v) => member_items(*self, key@) == Some(v@),
                None => member_items(*self, key@) is None,
            },
    {
        match self.get(key) {
            Some(v) => v.as_array(),
            None => None,
        }
    }
}

/// One object member.
pub fn entry(name: &str, value: Json) -> (r: (String, Json))
    ensures
        r.0@ == name@,
        r.1 == value,
{
    (name.to_owned(), value)
}

/// An array of strings.
pub fn text_array(values: &[&str]) -> (r: Json)
    ensures
        r matches Json::Array(items) && items@.len() == values@.len() && forall|i: int|
            0 <= i < values@.len() ==> as_text(#[trigger] items@[i]) == Some(values@[i]@),
{
    let mut items: Vec<Json> = Vec::new();
    let mut i: usize = 0;
    while i < values.len()
        invariant
            i <= values.len(),
            items@.len() == i,
            forall|k: int| 0 <= k < i ==> as_text(#[trigger] items@[k]) == Some(values@[k]@),
        decreases values.len() - i,
    {
        items.push(Json::text(values[i]));
        i += 1;
    }
    Json::Array(items)
}

/// The `k`-th member of an object when it is named `name`.
pub open spec fn member_at(j: Json, k: int, name: Seq<char>) -> Option<Json> {
    match j {
        Json::Object(fields) => if 0 <= k < fields@.len() && fields@[k].0@ == name {
            Some(fields@[k].1)
        } else {
            None
        },
        _ => None,
    }
}

/// Follows positional members (`(index, name)` steps) from `j`.
pub open spec fn at_path(j: Json, path: Seq<(int, Seq<char>)>) -> Option<Json>
    decreases path.len(),
{
    if path.len() == 0 {
        Some(j)
    } else {
        match member_at(j, path[0].0, path[0].1) {
            Some(next) => at_path(next, path.drop_first()),
            None => None,
        }
    }
}

/// The text found by following `path` from `j`.
pub open spec fn text_at(j: Json, path: Seq<(int, Seq<char>)>) -> Option<Seq<char>> {
    match at_path(j, path) {
        Some(v) => as_text(v),
        None => None,
    }
}

/// The number of members of an object (0 for other values).
pub open spec fn member_count(j: Json) -> nat {
    match j {
        Json::Object(fields) => fields@.len(),
        _ => 0,
    }
}

// ---------------------------------------------------------------------------
// Canonical text
// ---------------------------------------------------------------------------

/// A lowercase hexadecimal digit for `0 <= d < 16`.
pub open spec fn hex_digit(d: u32) -> char {
    if d < 10 {
        ((d + 48) as u8) as char
    } else {
        ((d + 87) as u8) as char
    }
}

/// A decimal digit for `0 <= d < 10`.
pub open spec fn dec_digit(d: nat) -> char {
    ((d + 48) as u8) as char
}

/// Decimal digits of `n`, without leading zeros.
pub open spec fn decimal(n: nat) -> Seq<char>
    decreases n,
{
    if n < 10 {
        seq![dec_digit(n)]
    } else {
        decimal(n / 10).push(dec_digit(n % 10))
    }
}

/// The escaped form of one scalar inside a JSON string.
pub open spec fn escape_char(c: char) -> Seq<char> {
    if c == '"' {
        seq!['\\', '"']
    } else if c == '\\' {
        seq!['\\', '\\']
    } else if c == '\n' {
        seq!['\\', 'n']
    } else if c == '\r' {
        seq!['\\', 'r']
    } else if c == '\t' {
        seq!['\\', 't']
    } else if (c as u32) == 8 {
        seq!['\\', 'b']
    } else if (c as u32) == 12 {
        seq!['\\', 'f']
    } else if (c as u32) < 0x20 {
        seq!['\\', 'u', '0', '0', hex_digit((c as u32) / 16), hex_digit((c as u32) % 16)]
    } else {
        seq![c]
    }
}

/// The escaped body of a JSON string.
pub open spec fn escape_text(s: Seq<char>) -> Seq<char>
    decreases s.len(),
{
    if s.len() == 0 {
        Seq::empty()
    } else {
        escape_text(s.drop_last()) + escape_char(s.last())
    }
}

/// A JSON string literal.
pub open spec fn quoted(s: Seq<char>) -> Seq<char> {
    seq!['"'] + escape_text(s) + seq!['"']
}

/// Canonical compact text of a value.
pub open spec fn json_text(j: Json) -> Seq<char>
    decreases j, 0nat,
{
    match j {
        Json::Null => seq!['n', 'u', 'l', 'l'],
        Json::Bool(b) => if b {
            seq!['t', 'r', 'u', 'e']
        } else {
            seq!['f', 'a', 'l', 's', 'e']
        },
        Json::UInt(n) => decimal(n as nat),
        Json::NegInt(n) => if n < 0 {
            seq!['-'] + decimal((-n) as nat)
        } else {
            decimal(n as nat)
        },
        Json::Str(s) => quoted(s@),
        Json::Array(items) => seq!['['] + items_text(items@) + seq![']'],
        Json::Object(fields) => seq!['{'] + members_text(fields@) + seq!['}'],
    }
}

/// Comma-separated texts of array items.
pub open spec fn items_text(items: Seq<Json>) -> Seq<char>
    decreases items, 1nat,
{
    if items.len() == 0 {
        Seq::empty()
    } else if items.len() == 1 {
        json_text(items[0])
    } else {
        items_text(items.drop_last()) + seq![','] + json_text(items.last())
    }
}

/// Comma-separated `"name":value` texts of object members.
pub open spec fn members_text(fields: Seq<(String, Json)>) -> Seq<char>
    decreases fields, 1nat,
{
    if fields.len() == 0 {
        Seq::empty()
    } else if fields.len() == 1 {
        quoted(fields[0].0@) + seq![':'] + json_text(fields[0].1)
    } else {
        members_text(fields.drop_last()) + seq![','] + quoted(fields.last().0@) + seq![':']
            + json_text(fields.last().1)
    }
}

/// The canonical UTF-8 bytes of a value.
pub open spec fn json_bytes(j: Json) -> Seq<u8> {
    vstd::utf8::encode_utf8(json_text(j))
}

fn append_text(s: &mut String, piece: &String)
    ensures
        final(s)@ == old(s)@ + piece@,
{
    s.append(piece.as_str());
}

fn push_all(s: &mut String, piece: &[char])
    ensures
        final(s)@ == old(s)@ + piece@,
{
    let t = string_from_chars(piece);
    append_text(s, &t);
}

fn write_decimal(n: u64, out: &mut String)
    ensures
        final(out)@ == old(out)@ + decimal(n as nat),
    decreases n,
{
    if n < 10 {
        let c = digit_char(n);
        push_char(out, c);
    } else {
        write_decimal(n / 10, out);
        let c = digit_char(n % 10);
        push_char(out, c);
    }
}

fn digit_char(d: u64) -> (c: char)
    requires
        d < 10,
    ensures
        c == dec_digit(d as nat),
{
    ((d as u8) + 48) as char
}

fn hex_char(d: u32) -> (c: char)
    requires
        d < 16,
    ensures
        c == hex_digit(d),
{
    if d < 10 {
        ((d as u8) + 48) as char
    } else {
        ((d as u8) + 87) as char
    }
}

fn write_escaped_char(c: char, out: &mut String)
    ensures
        final(out)@ == old(out)@ + escape_char(c),
{
    let v = c as u32;
    if c == '"' {
        push_all(out, &['\\', '"']);
    } else if c == '\\' {
        push_all(out, &['\\', '\\']);
    } else if c == '\n' {
        push_all(out, &['\\', 'n']);
    } else if c == '\r' {
        push_all(out, &['\\', 'r']);
    } else if c == '\t' {
        push_all(out, &['\\', 't']);
    } else if v == 8 {
        push_all(out, &['\\', 'b']);
    } else if v == 12 {
        push_all(out, &['\\', 'f']);
    } else if v < 0x20 {
        let hi = hex_char(v / 16);
        let lo = hex_char(v % 16);
        push_all(out, &['\\', 'u', '0', '0', hi, lo]);
    } else {
        push_char(out, c);
    }
}

fn write_quoted(s: &str, out: &mut String)
    ensures
        final(out)@ == old(out)@ + quoted(s@),
{
    let ghost start = out@;
    push_char(out, '"');
    let cs = chars_of(s);
    let mut i: usize = 0;
    while i < cs.len()
        invariant
            i <= cs.len(),
            cs@ == s@,
            out@ == start + seq!['"'] + escape_text(cs@.take(i as int)),
        decreases cs.len() - i,
    {
        assert(cs@.take(i + 1).drop_last() =~= cs@.take(i as int));
        write_escaped_char(cs[i], out);
        i += 1;
        assert(out@ =~= start + seq!['"'] + escape_text(cs@.take(i as int)));
    }
    assert(cs@.take(cs.len() as int) =~= cs@);
    push_char(out, '"');
    assert(out@ =~= start + quoted(s@));
}

/// Appends the canonical text of `j` to `out`.
pub fn write_json(j: &Json, out: &mut String)
    ensures
        final(out)@ == old(out)@ + json_text(*j),
    decreases j,
{
    let ghost start = out@;
    match j {
        Json::Null => push_all(out, &['n', 'u', 'l', 'l']),
        Json::Bool(b) => {
            if *b {
                push_all(out, &['t', 'r', 'u', 'e']);
            } else {
                push_all(out, &['f', 'a', 'l', 's', 'e']);
            }
        },
        Json::UInt(n) => write_decimal(*n, out),
        Json::NegInt(n) => {
            if *n < 0 {
                push_char(out, '-');
                let magnitude: u64 = if *n == i64::MIN {
                    9223372036854775808u64
                } else {
                    (-*n) as u64
                };
                write_decimal(magnitude, out);
            } else {
                write_decimal(*n as u64, out);
            }
            assert(out@ =~= start + json_text(*j));
        },
        Json::Str(s) => write_quoted(s.as_str(), out),
        Json::Array(items) => {
            push_char(out, '[');
            let mut i: usize = 0;
            while i < items.len()
                invariant
                    i <= items.len(),
                    *j == Json::Array(*items),
                    out@ == start + seq!['['] + items_text(items@.take(i as int)),
                decreases items.len() - i,
            {
                assert(items@.take(i + 1).drop_last() =~= items@.take(i as int));
                if i > 0 {
                    push_char(out, ',');
                }
                proof {
                    assert(*items == j->Array_0);
                    assert(decreases_to!(*j => j->Array_0));
                    assert(decreases_to!(*items => items@));
                    assert(decreases_to!(items@ => items@[i as int]));
                }
                write_json(&items[i], out);
                i += 1;
                assert(out@ =~= start + seq!['['] + items_text(items@.take(i as int)));
            }
            assert(items@.take(items.len() as int) =~= items@);
            push_char(out, ']');
            assert(out@ =~= start + json_text(*j));
        },
        Json::Object(fields) => {
            push_char(out, '{');
            let mut i: usize = 0;
            while i < fields.len()
                invariant
                    i <= fields.len(),
                    *j == Json::Object(*fields),
                    out@ == start + seq!['{'] + members_text(fields@.take(i as int)),
                decreases fields.len() - i,
            {
                assert(fields@.take(i + 1).drop_last() =~= fields@.take(i as int));
                if i > 0 {
                    push_char(out, ',');
                }
                write_quoted(fields[i].0.as_str(), out);
                push_char(out, ':');
                proof {
                    assert(*fields == j->Object_0);
                    assert(decreases_to!(*j => j->Object_0));
                    assert(decreases_to!(*fields => fields@));
                    assert(decreases_to!(fields@ => fields@[i as int]));
                    assert(decreases_to!(fields@[i as int] => fields@[i as int].1));
                }
                write_json(&fields[i].1, out);
                i += 1;
                assert(out@ =~= start + seq!['{'] + members_text(fields@.take(i as int)));
            }
            assert(fields@.take(fields.len() as int) =~= fields@);
            push_char(out, '}');
            assert(out@ =~= start + json_text(*j));
        },
    }
}

/// The canonical compact text of `j` (`serde_json::to_string`).
pub fn to_text(j: &Json) -> (r: String)
    ensures
        r@ == json_text(*j),
{
    let mut out = String::new();
    write_json(j, &mut out);
    assert(out@ =~= json_text(*j));
    out
}

/// The canonical compact bytes of `j` (`serde_json::to_vec`).
pub fn to_bytes(j: &Json) -> (r: Vec<u8>)
    ensures
        r@ == json_bytes(*j),
{
    let t = to_text(j);
    let b = t.as_str().as_bytes();
    vstd::slice::slice_to_vec(b)
}

// ---------------------------------------------------------------------------
// Nesting depth
// ---------------------------------------------------------------------------

/// Height of a value: 0 for scalars and empty containers, otherwise one more
/// than the highest member.
pub open spec fn height(j: Json) -> nat
    decreases j, 0nat,
{
    match j {
        Json::Array(items) => if items@.len() == 0 {
            0
        } else {
            1 + items_height(items@)
        },
        Json::Object(fields) => if fields@.len() == 0 {
            0
        } else {
            1 + members_height(fields@)
        },
        _ => 0,
    }
}

/// The greatest height among array items (0 when there are none).
pub open spec fn items_height(items: Seq<Json>) -> nat
    decreases items, 1nat,
{
    if items.len() == 0 {
        0
    } else {
        let a = items_height(items.drop_last());
        let b = height(items.last());
        if a >= b {
            a
        } else {
            b
        }
    }
}

/// The greatest height among member values (0 when there are none).
pub open spec fn members_height(fields: Seq<(String, Json)>) -> nat
    decreases fields, 1nat,
{
    if fields.len() == 0 {
        0
    } else {
        let a = members_height(fields.drop_last());
        let b = height(fields.last().1);
        if a >= b {
            a
        } else {
            b
        }
    }
}

/// Walks `j` entered at `depth` and reports the first depth above `maximum`:
/// `Ok` exactly when `depth + height(j) <= maximum`; otherwise the observed
/// depth is `depth` itself when it already exceeds `maximum`, and
/// `maximum + 1` when a nested member does.
pub fn nesting_within(j: &Json, depth: u64, maximum: u64) -> (r: Result<(), u64>)
    requires
        maximum < u64::MAX,
    ensures
        r is Ok <==> depth + height(*j) <= maximum,
        r matches Err(observed) ==> observed == if depth > maximum {
            depth
        } else {
            (maximum + 1) as u64
        },
    decreases j,
{
    if depth > maximum {
        return Err(depth);
    }
    match j {
        Json::Array(items) => {
            let mut i: usize = 0;
            while i < items.len()
                invariant
                    i <= items.len(),
                    *j == Json::Array(*items),
                    depth <= maximum < u64::MAX,
                    i > 0 ==> depth + 1 + items_height(items@.take(i as int)) <= maximum,
                decreases items.len() - i,
            {
                assert(items@.take(i + 1).drop_last() =~= items@.take(i as int));
                proof {
                    assert(*items == j->Array_0);
                    assert(decreases_to!(*j => j->Array_0));
                    assert(decreases_to!(*items => items@));
                    assert(decreases_to!(items@ => items@[i as int]));
                }
                match nesting_within(&items[i], depth + 1, maximum) {
                    Ok(()) => {},
                    Err(observed) => {
                        proof {
                            lemma_items_height_ge(items@, i as int);
                        }
                        return Err(observed);
                    },
                }
                assert(items@.take(i + 1).last() == items@[i as int]);
                assert(items_height(items@.take(i + 1)) == {
                    let a = items_height(items@.take(i as int));
                    let b = height(items@[i as int]);
                    if a >= b { a } else { b }
                });
                i += 1;
            }
            assert(items@.take(items.len() as int) =~= items@);
            Ok(())
        },
        Json::Object(fields) => {
            let mut i: usize = 0;
            while i < fields.len()
                invariant
                    i <= fields.len(),
                    *j == Json::Object(*fields),
                    depth <= maximum < u64::MAX,
                    i > 0 ==> depth + 1 + members_height(fields@.take(i as int)) <= maximum,
                decreases fields.len() - i,
            {
                assert(fields@.take(i + 1).drop_last() =~= fields@.take(i as int));
                proof {
                    assert(*fields == j->Object_0);
                    assert(decreases_to!(*j => j->Object_0));
                    assert(decreases_to!(*fields => fields@));
                    assert(decreases_to!(fields@ => fields@[i as int]));
                    assert(decreases_to!(fields@[i as int] => fields@[i as int].1));
                }
                match nesting_within(&fields[i].1, depth + 1, maximum) {
                    Ok(()) => {},
                    Err(observed) => {
                        proof {
                            lemma_members_height_ge(fields@, i as int);
                        }
                        return Err(observed);
                    },
                }
                assert(fields@.take(i + 1).last() == fields@[i as int]);
                assert(members_height(fields@.take(i + 1)) == {
                    let a = members_height(fields@.take(i as int));
                    let b = height(fields@[i as int].1);
                    if a >= b { a } else { b }
                });
                i += 1;
            }
            assert(fields@.take(fields.len() as int) =~= fields@);
            Ok(())
        },
        _ => Ok(()),
    }
}

/// No item is higher than the items' height.
pub proof fn lemma_items_height_ge(items: Seq<Json>, i: int)
    requires
        0 <= i < items.len(),
    ensures
        height(items[i]) <= items_height(items),
    decreases items.len(),
{
    if i < items.len() - 1 {
        lemma_items_height_ge(items.drop_last(), i);
    }
}

/// No member value is higher than the members' height.
pub proof fn lemma_members_height_ge(fields: Seq<(String, Json)>, i: int)
    requires
        0 <= i < fields.len(),
    ensures
        height(fields[i].1) <= members_height(fields),
    decreases fields.len(),
{
    if i < fields.len() - 1 {
        lemma_members_height_ge(fields.drop_last(), i);
    }
}

// ---------------------------------------------------------------------------
// Unsafe payload findings
// ---------------------------------------------------------------------------

/// The scalars `://`, which mark a URL.
pub open spec fn url_marker() -> Seq<char> {
    seq![':', '/', '/']
}

/// What makes a payload unsafe, as seen by the contracts.
pub enum FindingView {
    DeniedField(Seq<char>),
    Url,
}

/// What makes a payload unsafe: a denied member name, or a string holding `://`.
#[derive(Debug, PartialEq, Eq)]
pub enum Finding {
    DeniedField(String),
    Url,
}

impl Finding {
    pub open spec fn view(self) -> FindingView {
        match self {
            Finding::DeniedField(name) => FindingView::DeniedField(name@),
            Finding::Url => FindingView::Url,
        }
    }
}

/// `name` is one of `denied`.
pub open spec fn is_denied(denied: Seq<Seq<char>>, name: Seq<char>) -> bool {
    exists|k: int| 0 <= k < denied.len() && denied[k] == name
}

/// The first finding of a depth-first, in-order walk of `j`: a member whose
/// name is denied (checked before its value is walked) or, when `urls`
/// holds, a string value that contains `://`.
pub open spec fn first_finding(j: Json, denied: Seq<Seq<char>>, urls: bool) -> Option<FindingView>
    decreases j, 0nat,
{
    match j {
        Json::Object(fields) => members_finding(fields@, denied, urls),
        Json::Array(items) => items_finding(items@, denied, urls),
        Json::Str(s) => if urls && crate::text::contains(s@, url_marker()) {
            Some(FindingView::Url)
        } else {
            None
        },
        _ => None,
    }
}

/// The first finding among array items, left to right.
pub open spec fn items_finding(items: Seq<Json>, denied: Seq<Seq<char>>, urls: bool) -> Option<FindingView>
    decreases items, 1nat,
{
    if items.len() == 0 {
        None
    } else {
        match first_finding(items[0], denied, urls) {
            Some(f) => Some(f),
            None => items_finding(items.drop_first(), denied, urls),
        }
    }
}

/// The first finding among object members, left to right.
pub open spec fn members_finding(fields: Seq<(String, Json)>, denied: Seq<Seq<char>>, urls: bool) -> Option<FindingView>
    decreases fields, 1nat,
{
    if fields.len() == 0 {
        None
    } else if is_denied(denied, fields[0].0@) {
        Some(FindingView::DeniedField(fields[0].0@))
    } else {
        match first_finding(fields[0].1, denied, urls) {
            Some(f) => Some(f),
            None => members_finding(fields.drop_first(), denied, urls),
        }
    }
}

/// The views of a list of names.
pub open spec fn names_view(names: Seq<&str>) -> Seq<Seq<char>> {
    names.map_values(|n: &str| n@)
}

fn name_denied(denied: &[&str], name: &str) -> (r: bool)
    ensures
        r == is_denied(names_view(denied@), name@),
{
    let mut k: usize = 0;
    while k < denied.len()
        invariant
            k <= denied.len(),
            forall|m: int| 0 <= m < k ==> names_view(denied@)[m] != name@,
        decreases denied.len() - k,
    {
        if text_eq(denied[k], name) {
            assert(names_view(denied@)[k as int] == name@);
            return true;
        }
        k += 1;
    }
    false
}

/// Finds the first unsafe member name or URL in `j` ([`first_finding`]).
pub fn find_unsafe(j: &Json, denied: &[&str], urls: bool) -> (r: Option<Finding>)
    ensures
        match r {
            Some(f) => first_finding(*j, names_view(denied@), urls) == Some(f.view()),
            None => first_finding(*j, names_view(denied@), urls) is None,
        },
    decreases j,
{
    let ghost names = names_view(denied@);
    match j {
        Json::Object(fields) => {
            let mut i: usize = 0;
            assert(fields@.skip(0) =~= fields@);
            while i < fields.len()
                invariant
                    i <= fields.len(),
                    *j == Json::Object(*fields),
                    names == names_view(denied@),
                    members_finding(fields@, names, urls) == members_finding(fields@.skip(i as int), names, urls),
                decreases fields.len() - i,
            {
                assert(fields@.skip(i as int)[0] == fields@[i as int]);
                assert(fields@.skip(i as int).drop_first() =~= fields@.skip(i + 1));
                if name_denied(denied, fields[i].0.as_str()) {
                    return Some(Finding::DeniedField(fields[i].0.clone()));
                }
                proof {
                    assert(*fields == j->Object_0);
                    assert(decreases_to!(*j => j->Object_0));
                    assert(decreases_to!(*fields => fields@));
                    assert(decreases_to!(fields@ => fields@[i as int]));
                    assert(decreases_to!(fields@[i as int] => fields@[i as int].1));
                }
                match find_unsafe(&fields[i].1, denied, urls) {
                    Some(f) => return Some(f),
                    None => {},
                }
                i += 1;
            }
            None
        },
        Json::Array(items) => {
            let mut i: usize = 0;
            assert(items@.skip(0) =~= items@);
            while i < items.len()
                invariant
                    i <= items.len(),
                    *j == Json::Array(*items),
                    names == names_view(denied@),
                    items_finding(items@, names, urls) == items_finding(items@.skip(i as int), names, urls),
                decreases items.len() - i,
            {
                assert(items@.skip(i as int)[0] == items@[i as int]);
                assert(items@.skip(i as int).drop_first() =~= items@.skip(i + 1));
                proof {
                    assert(*items == j->Array_0);
                    assert(decreases_to!(*j => j->Array_0));
                    assert(decreases_to!(*items => items@));
                    assert(decreases_to!(items@ => items@[i as int]));
                }
                match find_unsafe(&items[i], denied, urls) {
                    Some(f) => return Some(f),
                    None => {},
                }
                i += 1;
            }
            None
        },
        Json::Str(s) => {
            proof {
                reveal_strlit("://");
                assert("://"@ =~= url_marker());
            }
            if urls && crate::text::text_contains(s.as_str(), "://") {
                proof {
                    reveal_strlit("://");
                }
                Some(Finding::Url)
            } else {
                proof {
                    reveal_strlit("://");
                }
                None
            }
        },
        _ => None,
    }
}

/// Two JSON values are the same value: same variant and same contents,
/// members compared in stored order.
pub open spec fn same_json(a: Json, b: Json) -> bool
    decreases a, 0nat,
{
    match (a, b) {
        (Json::Null, Json::Null) => true,
        (Json::Bool(x), Json::Bool(y)) => x == y,
        (Json::UInt(x), Json::UInt(y)) => x == y,
        (Json::NegInt(x), Json::NegInt(y)) => x == y,
        (Json::Str(x), Json::Str(y)) => x@ == y@,
        (Json::Array(xs), Json::Array(ys)) => same_items(xs@, ys@),
        (Json::Object(xs), Json::Object(ys)) => same_members(xs@, ys@),
        _ => false,
    }
}

/// Item-wise [`same_json`].
pub open spec fn same_items(xs: Seq<Json>, ys: Seq<Json>) -> bool
    decreases xs, 1nat,
{
    if xs.len() == 0 {
        ys.len() == 0
    } else {
        ys.len() > 0 && same_json(xs[0], ys[0]) && same_items(xs.drop_first(), ys.drop_first())
    }
}

/// Member-wise [`same_json`], names included.
pub open spec fn same_members(xs: Seq<(String, Json)>, ys: Seq<(String, Json)>) -> bool
    decreases xs, 1nat,
{
    if xs.len() == 0 {
        ys.len() == 0
    } else {
        ys.len() > 0 && xs[0].0@ == ys[0].0@ && same_json(xs[0].1, ys[0].1) && same_members(
            xs.drop_first(),
            ys.drop_first(),
        )
    }
}

/// Whether two JSON values are the same value ([`same_json`]).
pub fn json_equal(a: &Json, b: &Json) -> (r: bool)
    ensures
        r == same_json(*a, *b),
    decreases a,
{
    match (a, b) {
        (Json::Null, Json::Null) => true,
        (Json::Bool(x), Json::Bool(y)) => *x == *y,
        (Json::UInt(x), Json::UInt(y)) => *x == *y,
        (Json::NegInt(x), Json::NegInt(y)) => *x == *y,
        (Json::Str(x), Json::Str(y)) => text_eq(x.as_str(), y.as_str()),
        (Json::Array(xs), Json::Array(ys)) => {
            let mut i: usize = 0;
            assert(xs@.skip(0) =~= xs@);
            assert(ys@.skip(0) =~= ys@);
            while i < xs.len()
                invariant
                    i <= xs.len(),
                    i <= ys.len(),
                    *a == Json::Array(*xs),
                    *b == Json::Array(*ys),
                    same_items(xs@, ys@) == same_items(xs@.skip(i as int), ys@.skip(i as int)),
                decreases xs.len() - i,
            {
                assert(xs@.skip(i as int)[0] == xs@[i as int]);
                assert(xs@.skip(i as int).drop_first() =~= xs@.skip(i + 1));
                if i == ys.len() {
                    assert(ys@.skip(i as int).len() == 0);
                    return false;
                }
                assert(ys@.skip(i as int)[0] == ys@[i as int]);
                assert(ys@.skip(i as int).drop_first() =~= ys@.skip(i + 1));
                proof {
                    assert(decreases_to!(*a => a->Array_0));
                    assert(decreases_to!(*xs => xs@));
                    assert(decreases_to!(xs@ => xs@[i as int]));
                }
                if !json_equal(&xs[i], &ys[i]) {
                    return false;
                }
                i += 1;
            }
            proof {
                assert(xs@.skip(i as int).len() == 0);
            }
            i == ys.len()
        },
        (Json::Object(xs), Json::Object(ys)) => {
            let mut i: usize = 0;
            assert(xs@.skip(0) =~= xs@);
            assert(ys@.skip(0) =~= ys@);
            while i < xs.len()
                invariant
                    i <= xs.len(),
                    i <= ys.len(),
                    *a == Json::Object(*xs),
                    *b == Json::Object(*ys),
                    same_members(xs@, ys@) == same_members(xs@.skip(i as int), ys@.skip(i as int)),
                decreases xs.len() - i,
            {
                assert(xs@.skip(i as int)[0] == xs@[i as int]);
                assert(xs@.skip(i as int).drop_first() =~= xs@.skip(i + 1));
                if i == ys.len() {
                    assert(ys@.skip(i as int).len() == 0);
                    return false;
                }
                assert(ys@.skip(i as int)[0] == ys@[i as int]);
                assert(ys@.skip(i as int).drop_first() =~= ys@.skip(i + 1));
                proof {
                    assert(decreases_to!(*a => a->Object_0));
                    assert(decreases_to!(*xs => xs@));
                    assert(decreases_to!(xs@ => xs@[i as int]));
                    assert(decreases_to!(xs@[i as int] => xs@[i as int].1));
                }
                if !text_eq(xs[i].0.as_str(), ys[i].0.as_str()) || !json_equal(&xs[i].1, &ys[i].1) {
                    return false;
                }
                i += 1;
            }
            proof {
                assert(xs@.skip(i as int).len() == 0);
            }
            i == ys.len()
        },
        _ => false,
    }
}


/// [`same_items`] compares item by item.
pub proof fn lemma_same_items_pointwise(xs: Seq<Json>, ys: Seq<Json>)
    ensures
        same_items(xs, ys) <==> (xs.len() == ys.len() && forall|k: int|
            0 <= k < xs.len() ==> same_json(#[trigger] xs[k], ys[k])),
    decreases xs.len(),
{
    if xs.len() > 0 && ys.len() > 0 {
        lemma_same_items_pointwise(xs.drop_first(), ys.drop_first());
        if xs.len() == ys.len() && forall|k: int| 0 <= k < xs.len() ==> same_json(#[trigger] xs[k], ys[k]) {
            assert forall|k: int| 0 <= k < xs.drop_first().len() implies same_json(
                #[trigger] xs.drop_first()[k],
                ys.drop_first()[k],
            ) by {
                assert(same_json(xs[k + 1], ys[k + 1]));
            }
        }
        if same_items(xs, ys) {
            assert forall|k: int| 0 <= k < xs.len() implies same_json(#[trigger] xs[k], ys[k]) by {
                if k > 0 {
                    assert(xs.drop_first()[k - 1] == xs[k]);
                }
            }
        }
    }
}

/// [`same_members`] compares member by member.
pub proof fn lemma_same_members_pointwise(xs: Seq<(String, Json)>, ys: Seq<(String, Json)>)
    ensures
        same_members(xs, ys) <==> (xs.len() == ys.len() && forall|k: int|
            0 <= k < xs.len() ==> (#[trigger] xs[k]).0@ == ys[k].0@ && same_json(xs[k].1, ys[k].1)),
    decreases xs.len(),
{
    if xs.len() > 0 && ys.len() > 0 {
        lemma_same_members_pointwise(xs.drop_first(), ys.drop_first());
        if xs.len() == ys.len() && forall|k: int|
            0 <= k < xs.len() ==> (#[trigger] xs[k]).0@ == ys[k].0@ && same_json(xs[k].1, ys[k].1) {
            assert forall|k: int| 0 <= k < xs.drop_first().len() implies (
            #[trigger] xs.drop_first()[k]).0@ == ys.drop_first()[k].0@ && same_json(
                xs.drop_first()[k].1,
                ys.drop_first()[k].1,
            ) by {
                assert(xs[k + 1].0@ == ys[k + 1].0@);
            }
        }
        if same_members(xs, ys) {
            assert forall|k: int| 0 <= k < xs.len() implies (#[trigger] xs[k]).0@ == ys[k].0@ && same_json(
                xs[k].1,
                ys[k].1,
            ) by {
                if k > 0 {
                    assert(xs.drop_first()[k - 1] == xs[k]);
                }
            }
        }
    }
}

/// A copy of a JSON value ([`same_json`]).
pub fn json_copy(j: &Json) -> (r: Json)
    ensures
        same_json(r, *j),
    decreases j,
{
    match j {
        Json::Null => Json::Null,
        Json::Bool(b) => Json::Bool(*b),
        Json::UInt(n) => Json::UInt(*n),
        Json::NegInt(n) => Json::NegInt(*n),
        Json::Str(s) => Json::Str(s.clone()),
        Json::Array(items) => {
            let mut out: Vec<Json> = Vec::new();
            let mut i: usize = 0;
            while i < items.len()
                invariant
                    i <= items.len(),
                    *j == Json::Array(*items),
                    out@.len() == i,
                    forall|k: int| 0 <= k < i ==> same_json(#[trigger] out@[k], items@[k]),
                decreases items.len() - i,
            {
                proof {
                    assert(decreases_to!(*j => j->Array_0));
                    assert(decreases_to!(*items => items@));
                    assert(decreases_to!(items@ => items@[i as int]));
                }
                let c = json_copy(&items[i]);
                out.push(c);
                i += 1;
            }
            proof {
                lemma_same_items_pointwise(out@, items@);
            }
            Json::Array(out)
        },
        Json::Object(fields) => {
            let mut out: Vec<(String, Json)> = Vec::new();
            let mut i: usize = 0;
            while i < fields.len()
                invariant
                    i <= fields.len(),
                    *j == Json::Object(*fields),
                    out@.len() == i,
                    forall|k: int|
                        0 <= k < i ==> (#[trigger] out@[k]).0@ == fields@[k].0@ && same_json(out@[k].1, fields@[k].1),
                decreases fields.len() - i,
            {
                proof {
                    assert(decreases_to!(*j => j->Object_0));
                    assert(decreases_to!(*fields => fields@));
                    assert(decreases_to!(fields@ => fields@[i as int]));
                    assert(decreases_to!(fields@[i as int] => fields@[i as int].1));
                }
                let c = json_copy(&fields[i].1);
                out.push((fields[i].0.clone(), c));
                i += 1;
            }
            proof {
                lemma_same_members_pointwise(out@, fields@);
            }
            Json::Object(out)
        },
    }
}


/// Lookups in members that are the same give the same value.
pub proof fn lemma_field_lookup_same(xs: Seq<(String, Json)>, ys: Seq<(String, Json)>, key: Seq<char>)
    requires
        same_members(xs, ys),
    ensures
        match (field_lookup(xs, key), field_lookup(ys, key)) {
            (None, None) => true,
            (Some(x), Some(y)) => same_json(x, y),
            _ => false,
        },
    decreases xs.len(),
{
    if xs.len() > 0 {
        lemma_field_lookup_same(xs.drop_first(), ys.drop_first(), key);
    }
}

/// The same JSON values hold the same texts and integers under every name.
pub proof fn lemma_same_json_members(a: Json, b: Json)
    requires
        same_json(a, b),
    ensures
        forall|k: Seq<char>| #[trigger] member_text(a, k) == member_text(b, k),
        forall|k: Seq<char>| #[trigger] member_u64(a, k) == member_u64(b, k),
{
    if let (Json::Object(xs), Json::Object(ys)) = (a, b) {
        assert forall|k: Seq<char>| #[trigger] member_text(a, k) == member_text(b, k) by {
            lemma_field_lookup_same(xs@, ys@, k);
        }
        assert forall|k: Seq<char>| #[trigger] member_u64(a, k) == member_u64(b, k) by {
            lemma_field_lookup_same(xs@, ys@, k);
        }
    }
}

/// Values that are the same value have the same canonical text.
pub proof fn lemma_same_json_text(a: Json, b: Json)
    requires
        same_json(a, b),
    ensures
        json_text(a) == json_text(b),
    decreases a, 0nat,
{
    match (a, b) {
        (Json::Array(xs), Json::Array(ys)) => {
            lemma_same_items_pointwise(xs@, ys@);
            assert(decreases_to!(a => xs));
            assert(decreases_to!(xs => xs@));
            lemma_same_items_text(xs@, ys@);
        },
        (Json::Object(xs), Json::Object(ys)) => {
            lemma_same_members_pointwise(xs@, ys@);
            assert(decreases_to!(a => xs));
            assert(decreases_to!(xs => xs@));
            lemma_same_members_text(xs@, ys@);
        },
        _ => {},
    }
}

/// Item-wise same values have the same comma-separated text.
pub proof fn lemma_same_items_text(xs: Seq<Json>, ys: Seq<Json>)
    requires
        xs.len() == ys.len(),
        forall|k: int| 0 <= k < xs.len() ==> same_json(#[trigger] xs[k], ys[k]),
    ensures
        items_text(xs) == items_text(ys),
    decreases xs, 1nat,
{
    if xs.len() == 1 {
        assert(decreases_to!(xs => xs[0]));
        lemma_same_json_text(xs[0], ys[0]);
    } else if xs.len() > 1 {
        let n = xs.len() - 1;
        assert(same_json(xs[n], ys[n]));
        assert(decreases_to!(xs => xs[n]));
        lemma_same_json_text(xs[n], ys[n]);
        assert forall|k: int| 0 <= k < xs.drop_last().len() implies same_json(
            #[trigger] xs.drop_last()[k],
            ys.drop_last()[k],
        ) by {
            assert(same_json(xs[k], ys[k]));
        }
        assert(decreases_to!(xs => xs.drop_last()));
        lemma_same_items_text(xs.drop_last(), ys.drop_last());
    }
}

/// Member-wise same members have the same comma-separated text.
pub proof fn lemma_same_members_text(xs: Seq<(String, Json)>, ys: Seq<(String, Json)>)
    requires
        xs.len() == ys.len(),
        forall|k: int| 0 <= k < xs.len() ==> (#[trigger] xs[k]).0@ == ys[k].0@ && same_json(xs[k].1, ys[k].1),
    ensures
        members_text(xs) == members_text(ys),
    decreases xs, 1nat,
{
    if xs.len() == 1 {
        assert(xs[0].0@ == ys[0].0@ && same_json(xs[0].1, ys[0].1));
        assert(decreases_to!(xs => xs[0]));
        assert(decreases_to!(xs[0] => xs[0].1));
        lemma_same_json_text(xs[0].1, ys[0].1);
    } else if xs.len() > 1 {
        let n = xs.len() - 1;
        assert(xs[n].0@ == ys[n].0@ && same_json(xs[n].1, ys[n].1));
        assert(decreases_to!(xs => xs[n]));
        assert(decreases_to!(xs[n] => xs[n].1));
        lemma_same_json_text(xs[n].1, ys[n].1);
        assert forall|k: int| 0 <= k < xs.drop_last().len() implies (#[trigger] xs.drop_last()[k]).0@
            == ys.drop_last()[k].0@ && same_json(xs.drop_last()[k].1, ys.drop_last()[k].1) by {
            assert(xs[k].0@ == ys[k].0@ && same_json(xs[k].1, ys[k].1));
        }
        assert(decreases_to!(xs => xs.drop_last()));
        lemma_same_members_text(xs.drop_last(), ys.drop_last());
    }
}

/// Values that are the same value have the same number of members and the
/// same text at each one-step path.
pub proof fn lemma_same_json_text_at(a: Json, b: Json, i: int, name: Seq<char>)
    requires
        same_json(a, b),
    ensures
        member_count(a) == member_count(b),
        text_at(a, seq![(i, name)]) == text_at(b, seq![(i, name)]),
{
    let p = seq![(i, name)];
    assert(p.drop_first() =~= Seq::<(int, Seq<char>)>::empty());
    if let (Json::Object(xs), Json::Object(ys)) = (a, b) {
        lemma_same_members_pointwise(xs@, ys@);
        if 0 <= i < xs@.len() {
            assert(xs@[i].0@ == ys@[i].0@ && same_json(xs@[i].1, ys@[i].1));
            assert(at_path(xs@[i].1, p.drop_first()) == Some(xs@[i].1));
            assert(at_path(ys@[i].1, p.drop_first()) == Some(ys@[i].1));
            if let (Json::Str(x), Json::Str(y)) = (xs@[i].1, ys@[i].1) {
                assert(x@ == y@);
            }
        }
    }
}

} // verus!
