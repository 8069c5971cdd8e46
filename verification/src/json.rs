//! JSON documents, as the JSON crate holds them.
use crate::collections::{ascending, entries_map, TextMap};
use crate::text::same;
use vstd::prelude::*;
use vstd::slice::slice_subrange;

verus! {

/// A value of the JSON crate.
#[verifier::external_type_specification]
#[verifier::external_body]
pub struct ExValue(serde_json::Value);

/// The members of an object of the JSON crate.
#[verifier::external_type_specification]
#[verifier::external_body]
#[verifier::reject_recursive_types(K)]
#[verifier::reject_recursive_types(V)]
pub struct ExMembers<K, V>(serde_json::Map<K, V>);

/// What a JSON value is. A number keeps the text that it is written with, and
/// its value where that is an unsigned or a signed 64-bit integer.
pub ghost enum Json {
    Null,
    Bool(bool),
    Number { unsigned: Option<u64>, signed: Option<i64>, text: Seq<char> },
    Text(Seq<char>),
    Array(Seq<Json>),
    Object(Map<Seq<char>, Json>),
}

/// What a value of the JSON crate holds.
pub uninterp spec fn json_of(value: serde_json::Value) -> Json;

/// What the members of an object hold, by their names.
pub uninterp spec fn members_of(members: serde_json::Map<String, serde_json::Value>) -> Map<
    Seq<char>,
    Json,
>;

/// The document that some bytes stand for, if they are one.
pub uninterp spec fn document(bytes: Seq<u8>) -> Option<Json>;

/// The bytes that a document is written with, if it can be.
pub uninterp spec fn document_bytes(json: Json) -> Option<Seq<u8>>;

/// The text that a document is written with, if it can be.
pub uninterp spec fn document_text(json: Json) -> Option<Seq<char>>;

/// The members of an object that some bytes stand for, if they do: each as the
/// bytes that it is written with, which are not looked into. Of a name that is
/// given twice, the last.
pub uninterp spec fn raw_members(bytes: Seq<u8>) -> Option<Map<Seq<char>, Seq<u8>>>;

/// The elements of an array that some bytes stand for, if they do: each as the
/// bytes that it is written with, which are not looked into.
pub uninterp spec fn raw_elements(bytes: Seq<u8>) -> Option<Seq<Seq<u8>>>;

/// The value that the bytes of a member or an element stand for, if they do.
pub open spec fn part_value(bytes: Seq<u8>) -> Option<Json> {
    match document(seq![0x5bu8] + bytes + seq![0x5du8]) {
        Some(Json::Array(values)) if values.len() == 1 => Some(values[0]),
        _ => None,
    }
}

/// The member of an object, if the value is one and has it.
pub open spec fn member(json: Json, name: Seq<char>) -> Option<Json> {
    match json {
        Json::Object(members) => if members.dom().contains(name) {
            Some(members[name])
        } else {
            None
        },
        _ => None,
    }
}

/// A field of a record: a member of an object, or the element of an array at the
/// field's position.
pub open spec fn part_of(json: Json, position: int, name: Seq<char>) -> Option<Json> {
    match json {
        Json::Array(values) => if position < values.len() {
            Some(values[position])
        } else {
            None
        },
        _ => member(json, name),
    }
}

/// The unsigned integer that a value is, if it is one.
pub open spec fn unsigned(json: Json) -> Option<u64> {
    match json {
        Json::Number { unsigned, .. } => unsigned,
        _ => None,
    }
}

/// The signed integer that a value is, if it is one.
pub open spec fn signed(json: Json) -> Option<i64> {
    match json {
        Json::Number { signed, .. } => signed,
        _ => None,
    }
}

/// A member that is a text.
pub open spec fn says(json: Option<Json>, text: Seq<char>) -> bool {
    json == Some(Json::Text(text))
}

/// The member of a member.
pub open spec fn inner(json: Option<Json>, name: Seq<char>) -> Option<Json> {
    match json {
        Some(value) => member(value, name),
        None => None,
    }
}

/// `serde_json::from_slice` into a value: the document, where the bytes are
/// one.
#[verifier::external_body]
pub(crate) fn parse(bytes: &[u8]) -> (r: Option<serde_json::Value>)
    ensures
        match r {
            Some(value) => document(bytes@) == Some(json_of(value)),
            None => document(bytes@) is None,
        },
{
    serde_json::from_slice(bytes).ok()
}

/// What the members hold, by their names.
pub open spec fn raw_map(entries: Seq<(String, Vec<u8>)>) -> Map<Seq<char>, Seq<u8>> {
    entries_map(entries).map_values(|bytes: Vec<u8>| bytes@)
}

/// `serde_json::from_slice` into a map of `serde_json::value::RawValue`s: the
/// members of an object, where the bytes are one, in the order of their names.
/// Bytes that are not UTF-8 are none.
#[verifier::external_body]
fn parse_members(bytes: &[u8]) -> (r: Option<Vec<(String, Vec<u8>)>>)
    ensures
        match r {
            Some(entries) => ascending(entries@) && raw_members(bytes@) == Some(raw_map(entries@)),
            None => raw_members(bytes@) is None,
        },
{
    let members: std::collections::BTreeMap<String, &serde_json::value::RawValue> =
        serde_json::from_slice(bytes).ok()?;
    Some(members.into_iter().map(|(name, raw)| (name, raw.get().as_bytes().to_vec())).collect())
}

/// The members of an object, as the bytes that they are written with.
pub(crate) fn split_members(bytes: &[u8]) -> (r: Option<TextMap<Vec<u8>>>)
    ensures
        match r {
            Some(members) => members.wf() && raw_members(bytes@) == Some(raw_map(members.entries@)),
            None => raw_members(bytes@) is None,
        },
{
    match parse_members(bytes) {
        Some(entries) => Some(TextMap { entries }),
        None => None,
    }
}

/// Where the first value of some bytes ends, if they start with one.
pub uninterp spec fn value_end(bytes: Seq<u8>) -> Option<nat>;

/// `serde_json::StreamDeserializer` over `serde::de::IgnoredAny`s: how many bytes its
/// first value takes, with the whitespace before it. The value is not looked into. It
/// takes at least one byte.
#[verifier::external_body]
fn end_of_value(bytes: &[u8]) -> (r: Option<usize>)
    ensures
        match r {
            Some(n) => 0 < n <= bytes@.len() && value_end(bytes@) == Some(n as nat),
            None => value_end(bytes@) is None,
        },
{
    let values = serde_json::Deserializer::from_slice(bytes);
    let mut values = values.into_iter::<serde::de::IgnoredAny>();
    values.next()?.ok()?;
    Some(values.byte_offset())
}

/// The bytes that may stand between the parts of a document.
pub open spec fn space(byte: u8) -> bool {
    byte == 0x20 || byte == 0x0a || byte == 0x09 || byte == 0x0d
}

/// The bytes from the first on that is no space.
pub open spec fn unspaced(bytes: Seq<u8>) -> Seq<u8>
    decreases bytes.len(),
{
    if bytes.len() > 0 && space(bytes[0]) {
        unspaced(bytes.skip(1))
    } else {
        bytes
    }
}

/// Leaving spaces out makes nothing longer.
proof fn lemma_unspaced(bytes: Seq<u8>)
    ensures
        unspaced(bytes).len() <= bytes.len(),
    decreases bytes.len(),
{
    if bytes.len() > 0 && space(bytes[0]) {
        lemma_unspaced(bytes.skip(1));
    }
}

/// The first member in the bytes behind the brace or a comma of an object: its name, and
/// the bytes that follow its value.
pub open spec fn first_member(bytes: Seq<u8>) -> Option<(Seq<char>, Seq<u8>)> {
    match value_end(bytes) {
        Some(n) => {
            let colon = unspaced(bytes.skip(n as int));
            match (part_value(bytes.take(n as int)), value_end(colon.skip(1))) {
                (Some(Json::Text(name)), Some(m)) => if colon.len() > 0 && colon[0] == 0x3a && 0 < n
                    <= bytes.len() && 0 < m <= colon.skip(1).len() {
                    Some((name, unspaced(colon.skip(1).skip(m as int))))
                } else {
                    None
                },
                _ => None,
            }
        },
        None => None,
    }
}

/// A member takes bytes.
pub proof fn lemma_first_member(bytes: Seq<u8>)
    ensures
        first_member(bytes) matches Some((_, rest)) ==> rest.len() < bytes.len(),
{
    if let Some(n) = value_end(bytes) {
        let colon = unspaced(bytes.skip(n as int));
        lemma_unspaced(bytes.skip(n as int));
        if let Some(m) = value_end(colon.skip(1)) {
            lemma_unspaced(colon.skip(1).skip(m as int));
        }
    }
}

/// The names of the members behind the brace or a comma of an object.
pub open spec fn names_behind(bytes: Seq<u8>) -> Seq<Seq<char>>
    decreases bytes.len(),
{
    proof {
        lemma_first_member(bytes);
    }
    match first_member(bytes) {
        Some((name, rest)) => seq![name] + if rest.len() > 0 && rest[0] == 0x2c {
            names_behind(rest.skip(1))
        } else {
            Seq::empty()
        },
        None => Seq::empty(),
    }
}

/// The names of the members of an object, each as often as it is given.
pub open spec fn given_names(bytes: Seq<u8>) -> Seq<Seq<char>> {
    let object = unspaced(bytes);
    if object.len() > 0 && object[0] == 0x7b {
        names_behind(object.skip(1))
    } else {
        Seq::empty()
    }
}

/// An object gives a member twice.
pub open spec fn given_twice(bytes: Seq<u8>, name: Seq<char>) -> bool {
    exists|i: int, j: int|
        0 <= i < j < given_names(bytes).len() && #[trigger] given_names(bytes)[i] == name
            && #[trigger] given_names(bytes)[j] == name
}

fn skip_space(bytes: &[u8], from: usize) -> (r: usize)
    requires
        from <= bytes@.len(),
    ensures
        from <= r <= bytes@.len(),
        bytes@.skip(r as int) == unspaced(bytes@.skip(from as int)),
{
    let mut at: usize = from;
    while at < bytes.len() && (bytes[at] == 0x20 || bytes[at] == 0x0a || bytes[at] == 0x09
        || bytes[at] == 0x0d)
        invariant
            from <= at <= bytes@.len(),
            unspaced(bytes@.skip(at as int)) == unspaced(bytes@.skip(from as int)),
        decreases bytes@.len() - at,
    {
        assert(bytes@.skip(at as int)[0] == bytes@[at as int]);
        assert(bytes@.skip(at as int).skip(1) =~= bytes@.skip(at as int + 1));
        at += 1;
    }
    assert(at < bytes@.len() ==> bytes@.skip(at as int)[0] == bytes@[at as int]);
    at
}

/// Reads the first member behind a place: its name, and the place behind its value.
fn read_member(bytes: &[u8], from: usize) -> (r: Option<(String, usize)>)
    requires
        from <= bytes@.len(),
    ensures
        match r {
            Some((name, at)) => from < at <= bytes@.len() && first_member(
                bytes@.skip(from as int),
            ) == Some((name@, bytes@.skip(at as int))),
            None => first_member(bytes@.skip(from as int)) is None,
        },
{
    let start = slice_subrange(bytes, from, bytes.len());
    assert(start@ =~= bytes@.skip(from as int));
    let end: usize = match end_of_value(start) {
        Some(end) => end,
        None => return None,
    };
    let key = slice_subrange(start, 0, end);
    assert(key@ =~= start@.take(end as int));
    let name = match read_part(key) {
        Some(value) => match as_str(&value) {
            Some(name) => name.to_owned(),
            None => return None,
        },
        None => return None,
    };
    assert(bytes@.skip(from as int).skip(end as int) =~= bytes@.skip(from + end));
    let colon: usize = skip_space(bytes, from + end);
    let ghost behind = bytes@.skip(colon as int);
    if colon >= bytes.len() || bytes[colon] != 0x3a {
        assert(colon < bytes@.len() ==> behind[0] == bytes@[colon as int]);
        return None;
    }
    assert(behind[0] == 0x3a);
    let value = slice_subrange(bytes, colon + 1, bytes.len());
    assert(value@ =~= behind.skip(1));
    let length: usize = match end_of_value(value) {
        Some(length) => length,
        None => return None,
    };
    assert(behind.skip(1).skip(length as int) =~= bytes@.skip(colon + 1 + length));
    let at: usize = skip_space(bytes, colon + 1 + length);
    Some((name, at))
}

/// Lists the names of the members of an object, each as often as it is given.
pub(crate) fn list_names(bytes: &[u8]) -> (r: Vec<String>)
    ensures
        r@.map_values(|name: String| name@) == given_names(bytes@),
{
    let mut names: Vec<String> = Vec::new();
    assert(bytes@.skip(0) =~= bytes@);
    let brace: usize = skip_space(bytes, 0);
    let ghost view = |name: String| name@;
    if brace >= bytes.len() || bytes[brace] != 0x7b {
        assert(brace < bytes@.len() ==> bytes@.skip(brace as int)[0] == bytes@[brace as int]);
        assert(names@.map_values(view) =~= Seq::empty());
        return names;
    }
    assert(bytes@.skip(brace as int)[0] == 0x7b);
    assert(bytes@.skip(brace as int).skip(1) =~= bytes@.skip(brace as int + 1));
    let mut from: usize = brace + 1;
    assert(names@.map_values(view) + names_behind(bytes@.skip(from as int)) =~= given_names(
        bytes@,
    ));
    loop
        invariant
            from <= bytes@.len(),
            view == (|name: String| name@),
            names@.map_values(view) + names_behind(bytes@.skip(from as int)) == given_names(
                bytes@,
            ),
        decreases bytes@.len() - from,
    {
        let ghost before = names@.map_values(view);
        match read_member(bytes, from) {
            Some((name, at)) => {
                let ghost given = name@;
                names.push(name);
                assert(names@.map_values(view) =~= before.push(given));
                if at >= bytes.len() || bytes[at] != 0x2c {
                    assert(at < bytes@.len() ==> bytes@.skip(at as int)[0] == bytes@[at as int]);
                    assert(names_behind(bytes@.skip(from as int)) =~= seq![given]);
                    assert(names@.map_values(view) =~= given_names(bytes@));
                    return names;
                }
                assert(bytes@.skip(at as int)[0] == 0x2c);
                assert(bytes@.skip(at as int).skip(1) =~= bytes@.skip(at as int + 1));
                assert(names_behind(bytes@.skip(from as int)) =~= seq![given] + names_behind(
                    bytes@.skip(at as int + 1),
                ));
                from = at + 1;
                assert(names@.map_values(view) + names_behind(bytes@.skip(from as int))
                    =~= given_names(bytes@));
            },
            None => {
                assert(names_behind(bytes@.skip(from as int)) =~= Seq::empty());
                assert(names@.map_values(view) =~= given_names(bytes@));
                return names;
            },
        }
    }
}

/// Whether an object gives a member twice. `names` are those of its members.
pub(crate) fn is_given_twice(names: &Vec<String>, name: &str, Ghost(bytes): Ghost<Seq<u8>>) -> (r:
    bool)
    requires
        names@.map_values(|name: String| name@) == given_names(bytes),
    ensures
        r == given_twice(bytes, name@),
{
    let ghost given = given_names(bytes);
    let mut found: bool = false;
    let ghost mut first: int = 0;
    let mut i: usize = 0;
    assert(given.len() == names@.len());
    while i < names.len()
        invariant
            i <= names@.len(),
            given == given_names(bytes),
            given == names@.map_values(|name: String| name@),
            found ==> 0 <= first < i && given[first] == name@,
            forall|j: int|
                0 <= j < i && #[trigger] given[j] == name@ ==> found && j == first,
        decreases names@.len() - i,
    {
        assert(given[i as int] == names@[i as int]@);
        if same(names[i].as_str(), name) {
            if found {
                return true;
            }
            found = true;
            proof {
                first = i as int;
            }
        }
        i += 1;
    }
    false
}

/// `serde_json::from_slice` into a list of `serde_json::value::RawValue`s: the
/// elements of an array, where the bytes are one. Bytes that are not UTF-8 are
/// none.
#[verifier::external_body]
pub(crate) fn split_elements(bytes: &[u8]) -> (r: Option<Vec<Vec<u8>>>)
    ensures
        match r {
            Some(elements) => raw_elements(bytes@) == Some(
                elements@.map_values(|element: Vec<u8>| element@),
            ),
            None => raw_elements(bytes@) is None,
        },
{
    let elements: Vec<&serde_json::value::RawValue> = serde_json::from_slice(bytes).ok()?;
    Some(elements.into_iter().map(|raw| raw.get().as_bytes().to_vec()).collect())
}

/// Reads a member or an element.
pub(crate) fn read_part(bytes: &[u8]) -> (r: Option<serde_json::Value>)
    ensures
        match r {
            Some(value) => part_value(bytes@) == Some(json_of(value)),
            None => part_value(bytes@) is None,
        },
{
    let mut written: Vec<u8> = Vec::new();
    written.push(0x5b);
    written.extend_from_slice(bytes);
    written.push(0x5d);
    assert(written@ =~= seq![0x5bu8] + bytes@ + seq![0x5du8]);
    let value = match parse(written.as_slice()) {
        Some(value) => value,
        None => return None,
    };
    match as_array(&value) {
        Some(values) => {
            assert(elements(values@).len() == values@.len());
            if values.len() == 1 {
                assert(elements(values@)[0] == json_of(values@[0]));
                Some(values[0].clone())
            } else {
                None
            }
        },
        None => None,
    }
}

/// `serde_json::to_vec` of a value, which can always be written: its names are
/// texts, and a buffer takes every byte.
#[verifier::external_body]
pub(crate) fn encode(value: &serde_json::Value) -> (r: Option<Vec<u8>>)
    ensures
        r is Some,
        document_bytes(json_of(*value)) == Some(r->0@),
{
    serde_json::to_vec(value).ok()
}

/// `serde_json::to_string` of a value.
#[verifier::external_body]
pub(crate) fn write_text(value: &serde_json::Value) -> (r: Option<String>)
    ensures
        match r {
            Some(text) => document_text(json_of(*value)) == Some(text@),
            None => document_text(json_of(*value)) is None,
        },
{
    serde_json::to_string(value).ok()
}

/// `serde_json::Value::get` with a name: the member of an object; nothing of
/// any other value.
#[verifier::external_body]
pub(crate) fn get<'a>(value: &'a serde_json::Value, name: &str) -> (r: Option<
    &'a serde_json::Value,
>)
    ensures
        match r {
            Some(found) => member(json_of(*value), name@) == Some(json_of(*found)),
            None => member(json_of(*value), name@) is None,
        },
{
    value.get(name)
}

/// `serde_json::Value::is_null`.
#[verifier::external_body]
pub(crate) fn is_null(value: &serde_json::Value) -> (r: bool)
    ensures
        r == (json_of(*value) is Null),
{
    value.is_null()
}

/// `serde_json::Value::is_object`.
#[verifier::external_body]
pub(crate) fn is_object(value: &serde_json::Value) -> (r: bool)
    ensures
        r == (json_of(*value) is Object),
{
    value.is_object()
}

/// What a zero that is no integer is written with.
pub open spec fn zero_text(text: Seq<char>) -> bool {
    text == "0.0"@ || text == "-0.0"@
}

/// Two values are equal: numbers by their value, where only the two zeros that
/// are no integers are written differently; arrays by their elements, objects
/// by their members.
pub open spec fn same_json(a: Json, b: Json) -> bool
    decreases a,
{
    match a {
        Json::Number { text, .. } => a == b || (zero_text(text) && b is Number && zero_text(
            b->text,
        )),
        Json::Array(values) => {
            &&& b is Array
            &&& values.len() == b->Array_0.len()
            &&& forall|i: int|
                0 <= i < values.len() ==> same_json(#[trigger] values[i], b->Array_0[i])
        },
        Json::Object(members) => {
            &&& b is Object
            &&& members.dom() == b->Object_0.dom()
            &&& forall|name: Seq<char>| #[trigger]
                members.dom().contains(name) ==> same_json(members[name], b->Object_0[name])
        },
        _ => a == b,
    }
}

/// `==` of two values of the JSON crate: their kinds are the same, and so is
/// what they hold; two numbers that are no integers are compared as floating
/// point, for which both zeros are equal.
#[verifier::external_body]
pub(crate) fn same_value(a: &serde_json::Value, b: &serde_json::Value) -> (r: bool)
    ensures
        r == same_json(json_of(*a), json_of(*b)),
{
    a == b
}

/// `serde_json::Value::as_str`: the characters of a string.
#[verifier::external_body]
pub(crate) fn as_str(value: &serde_json::Value) -> (r: Option<&str>)
    ensures
        match r {
            Some(text) => json_of(*value) == Json::Text(text@),
            None => !(json_of(*value) is Text),
        },
{
    value.as_str()
}

/// `serde_json::Value::as_u64`: the number, where it is an unsigned integer.
#[verifier::external_body]
pub(crate) fn as_u64(value: &serde_json::Value) -> (r: Option<u64>)
    ensures
        r == unsigned(json_of(*value)),
{
    value.as_u64()
}

/// `serde_json::Value::as_i64`: the number, where it is a signed integer.
#[verifier::external_body]
pub(crate) fn as_i64(value: &serde_json::Value) -> (r: Option<i64>)
    ensures
        r == signed(json_of(*value)),
{
    value.as_i64()
}

/// `serde_json::Value::as_bool`.
#[verifier::external_body]
pub(crate) fn as_bool(value: &serde_json::Value) -> (r: Option<bool>)
    ensures
        match r {
            Some(b) => json_of(*value) == Json::Bool(b),
            None => !(json_of(*value) is Bool),
        },
{
    value.as_bool()
}

/// What the elements of an array hold.
pub open spec fn elements(values: Seq<serde_json::Value>) -> Seq<Json> {
    values.map_values(|value: serde_json::Value| json_of(value))
}

/// `serde_json::Value::as_array`: the elements of an array.
#[verifier::external_body]
pub(crate) fn as_array(value: &serde_json::Value) -> (r: Option<&Vec<serde_json::Value>>)
    ensures
        match r {
            Some(values) => json_of(*value) == Json::Array(elements(values@)),
            None => !(json_of(*value) is Array),
        },
{
    value.as_array()
}

/// A field of a record.
pub(crate) fn part<'a>(value: &'a serde_json::Value, position: usize, name: &str) -> (r: Option<
    &'a serde_json::Value,
>)
    ensures
        match r {
            Some(part) => part_of(json_of(*value), position as int, name@) == Some(json_of(*part)),
            None => part_of(json_of(*value), position as int, name@) is None,
        },
{
    match as_array(value) {
        Some(values) => {
            assert(elements(values@).len() == values@.len());
            if position < values.len() {
                Some(&values[position])
            } else {
                None
            }
        },
        None => get(value, name),
    }
}

/// The members of a `serde_json::Value::Object`; nothing of any other value.
#[verifier::external_body]
pub(crate) fn into_object(value: serde_json::Value) -> (r: Option<
    serde_json::Map<String, serde_json::Value>,
>)
    ensures
        match r {
            Some(members) => json_of(value) == Json::Object(members_of(members)),
            None => !(json_of(value) is Object),
        },
{
    match value {
        serde_json::Value::Object(members) => Some(members),
        _ => None,
    }
}

/// `serde_json::Value::Object` of some members.
#[verifier::external_body]
pub(crate) fn object(members: serde_json::Map<String, serde_json::Value>) -> (r: serde_json::Value)
    ensures
        json_of(r) == Json::Object(members_of(members)),
{
    serde_json::Value::Object(members)
}

/// `serde_json::Map::new`: no members.
#[verifier::external_body]
pub(crate) fn no_members() -> (r: serde_json::Map<String, serde_json::Value>)
    ensures
        members_of(r).dom() == Set::<Seq<char>>::empty(),
{
    serde_json::Map::new()
}

/// `serde_json::Map::insert`: the value stands under the name, in place of what
/// was there.
#[verifier::external_body]
pub(crate) fn insert(
    members: &mut serde_json::Map<String, serde_json::Value>,
    name: &str,
    value: serde_json::Value,
)
    ensures
        members_of(*final(members)) == members_of(*old(members)).insert(name@, json_of(value)),
{
    members.insert(name.to_owned(), value);
}

/// `serde_json::Map::remove`: takes the value from under the name.
#[verifier::external_body]
pub(crate) fn remove(
    members: &mut serde_json::Map<String, serde_json::Value>,
    name: &str,
) -> (r: Option<serde_json::Value>)
    ensures
        members_of(*final(members)) == members_of(*old(members)).remove(name@),
        match r {
            Some(value) => members_of(*old(members)).dom().contains(name@) && members_of(
                *old(members),
            )[name@] == json_of(value),
            None => !members_of(*old(members)).dom().contains(name@),
        },
{
    members.remove(name)
}

/// `serde_json::Map::is_empty`.
#[verifier::external_body]
pub(crate) fn is_without_members(members: &serde_json::Map<String, serde_json::Value>) -> (r: bool)
    ensures
        r == (members_of(*members).dom() == Set::<Seq<char>>::empty()),
{
    members.is_empty()
}

/// `serde_json::Value::from` an integer: a number that is written as the
/// decimal text of the integer, and is unsigned too where the integer is not
/// negative.
#[verifier::external_body]
pub(crate) fn integer(n: i64) -> (r: serde_json::Value)
    ensures
        json_of(r) == integer_json(n as int),
{
    serde_json::Value::from(n)
}

pub open spec fn integer_json(n: int) -> Json {
    Json::Number {
        unsigned: if n >= 0 {
            Some(n as u64)
        } else {
            None
        },
        signed: Some(n as i64),
        text: crate::text::int_text(n),
    }
}

/// `serde_json::Value::from` an unsigned integer: a number that is written as the
/// decimal text of the integer, and is signed too where it is small enough.
#[verifier::external_body]
pub(crate) fn natural(n: u64) -> (r: serde_json::Value)
    ensures
        json_of(r) == natural_json(n),
{
    serde_json::Value::from(n)
}

pub open spec fn natural_json(n: u64) -> Json {
    Json::Number {
        unsigned: Some(n),
        signed: if n <= i64::MAX {
            Some(n as i64)
        } else {
            None
        },
        text: crate::text::int_text(n as int),
    }
}

/// `serde_json::Value::Null`.
#[verifier::external_body]
pub(crate) fn null() -> (r: serde_json::Value)
    ensures
        json_of(r) == Json::Null,
{
    serde_json::Value::Null
}

/// `serde_json::Value::from` a text.
#[verifier::external_body]
pub(crate) fn text(t: &str) -> (r: serde_json::Value)
    ensures
        json_of(r) == Json::Text(t@),
{
    serde_json::Value::from(t)
}

/// `serde_json::Value::clone`: the same value again.
pub assume_specification[ <serde_json::Value as Clone>::clone ](
    value: &serde_json::Value,
) -> (r: serde_json::Value)
    ensures
        r == *value,
;

/// `serde_json::Value::from` a boolean.
#[verifier::external_body]
pub(crate) fn boolean(b: bool) -> (r: serde_json::Value)
    ensures
        json_of(r) == Json::Bool(b),
{
    serde_json::Value::from(b)
}

/// `serde_json::Value::Array` of some elements.
#[verifier::external_body]
pub(crate) fn array(values: Vec<serde_json::Value>) -> (r: serde_json::Value)
    ensures
        json_of(r) == Json::Array(elements(values@)),
{
    serde_json::Value::Array(values)
}

/// An object that is put together member by member.
pub(crate) struct Record {
    members: serde_json::Map<String, serde_json::Value>,
}

impl Record {
    pub(crate) closed spec fn view(&self) -> Map<Seq<char>, Json> {
        members_of(self.members)
    }

    pub(crate) fn new() -> (r: Self)
        ensures
            r@ == Map::<Seq<char>, Json>::empty(),
    {
        Record { members: no_members() }
    }

    pub(crate) fn with(self, name: &str, value: serde_json::Value) -> (r: Self)
        ensures
            r@ == self@.insert(name@, json_of(value)),
    {
        let mut members = self.members;
        insert(&mut members, name, value);
        Record { members }
    }

    pub(crate) fn done(self) -> (r: serde_json::Value)
        ensures
            json_of(r) == Json::Object(self@),
    {
        object(self.members)
    }
}

/// How an error is told to a client.
pub open spec fn told_error(code: Seq<char>, message: Option<Seq<char>>) -> Json {
    Json::Object(
        map![
            "error"@ => Json::Object(
                match message {
                    Some(message) => map![
                        "code"@ => Json::Text(code),
                        "message"@ => Json::Text(message),
                    ],
                    None => map!["code"@ => Json::Text(code)],
                },
            ),
        ],
    )
}

/// Writes an error for a client.
pub fn error_body(code: &str, message: Option<&str>) -> (r: serde_json::Value)
    ensures
        json_of(r) == told_error(
            code@,
            match message {
                Some(message) => Some(message@),
                None => None,
            },
        ),
{
    let error = Record::new().with("code", text(code));
    let error = match message {
        Some(message) => error.with("message", text(message)),
        None => error,
    };
    Record::new().with("error", error.done()).done()
}

/// A text that may be missing: null where it is.
pub open spec fn text_or_null(t: Option<String>) -> Json {
    match t {
        Some(t) => Json::Text(t@),
        None => Json::Null,
    }
}

pub(crate) fn optional_text(t: &Option<String>) -> (r: serde_json::Value)
    ensures
        json_of(r) == text_or_null(*t),
{
    match t {
        Some(t) => text(t.as_str()),
        None => null(),
    }
}

/// A count that may be missing: null where it is.
pub open spec fn count_or_null(n: Option<u64>) -> Json {
    match n {
        Some(n) => natural_json(n),
        None => Json::Null,
    }
}

pub(crate) fn optional_count(n: Option<u64>) -> (r: serde_json::Value)
    ensures
        json_of(r) == count_or_null(n),
{
    match n {
        Some(n) => natural(n),
        None => null(),
    }
}

/// Whether a value is this text.
pub(crate) fn does_say(value: Option<&serde_json::Value>, text: &str) -> (r: bool)
    ensures
        r == (value is Some && json_of(*value->0) == Json::Text(text@)),
{
    match value {
        Some(value) => match as_str(value) {
            Some(found) => same(found, text),
            None => false,
        },
        None => false,
    }
}

} // verus!
