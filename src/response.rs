//! Reading the store's answer from a JSON value: an object tagged by
//! `"type"`, whose `Error` payload is tagged by `"error"` instead.

use vstd::prelude::*;
use crate::query::{
    decode_key_text, hex_bytes, is_key_text, lemma_key_text_round_trip, upper_hex, Error,
    GetItemOutput, Item, PutItemOutput, Response, ScanItemOutput,
};

verus! {

/// A JSON value; a number keeps its text, an object its fields in order.
#[derive(Debug)]
pub enum JsonValue {
    Null,
    Bool(bool),
    Number(String),
    Str(String),
    Array(Vec<JsonValue>),
    Object(Vec<JsonField>),
}

/// A field of a JSON object.
#[derive(Debug)]
pub struct JsonField {
    pub name: String,
    pub value: JsonValue,
}

/// The value of the first field named `name`.
pub open spec fn lookup(fields: Seq<JsonField>, name: Seq<char>) -> Option<JsonValue>
    decreases fields.len(),
{
    if fields.len() == 0 {
        None
    } else if fields[0].name@ == name {
        Some(fields[0].value)
    } else {
        lookup(fields.drop_first(), name)
    }
}

/// Key bytes written by a JSON string of sixteen hex digits.
pub open spec fn key_of(v: JsonValue) -> Option<Seq<u8>> {
    match v {
        JsonValue::Str(s) => if is_key_text(s@) {
            Some(hex_bytes(s@))
        } else {
            None
        },
        _ => None,
    }
}

/// Whether `v` reads as the item `it`.
pub open spec fn item_reads(v: JsonValue, it: Item) -> bool {
    match v {
        JsonValue::Object(f) => (match lookup(f@, "key"@) {
            Some(k) => key_of(k) == Some(it.key@),
            None => false,
        }) && lookup(f@, "value"@) == Some(JsonValue::Str(it.value)),
        _ => false,
    }
}

/// Whether the elements of an `items` array read as `items`, one for one.
pub open spec fn items_read(vs: Seq<JsonValue>, items: Seq<Item>) -> bool {
    vs.len() == items.len() && forall|i: int| 0 <= i < vs.len() ==> item_reads(vs[i], items[i])
}

/// Whether `v` reads as the answer `r`. The `"type"` field names the
/// variant; a `GetItem` answer's `item` may be null or absent; an `Error`
/// answer's `"error"` field is `"deadlock"`, or `"other"` with a string
/// `message`. Fields that the variant does not use are ignored.
pub open spec fn response_reads(v: JsonValue, r: Response) -> bool {
    match v {
        JsonValue::Object(f) => match lookup(f@, "type"@) {
            Some(JsonValue::Str(t)) => if t@ == "GetItem"@ {
                match lookup(f@, "item"@) {
                    None => r == Response::GetItem(GetItemOutput { item: None }),
                    Some(JsonValue::Null) => r == Response::GetItem(GetItemOutput { item: None }),
                    Some(x) => r matches Response::GetItem(GetItemOutput { item: Some(it) })
                        && item_reads(x, it),
                }
            } else if t@ == "PutItem"@ {
                r == Response::PutItem(PutItemOutput)
            } else if t@ == "ScanItem"@ {
                match lookup(f@, "items"@) {
                    Some(JsonValue::Array(a)) => r matches Response::ScanItem(o) && items_read(
                        a@,
                        o.items@,
                    ),
                    _ => false,
                }
            } else if t@ == "Error"@ {
                match lookup(f@, "error"@) {
                    Some(JsonValue::Str(e)) => if e@ == "deadlock"@ {
                        r == Response::Error(Error::Deadlock)
                    } else if e@ == "other"@ {
                        match lookup(f@, "message"@) {
                            Some(JsonValue::Str(m)) => r == Response::Error(
                                Error::Other { message: m },
                            ),
                            _ => false,
                        }
                    } else {
                        false
                    },
                    _ => false,
                }
            } else {
                false
            },
            _ => false,
        },
        _ => false,
    }
}

/// The answer's JSON value has no shape of any answer.
#[derive(Clone, Copy, Debug, PartialEq, Eq, Structural)]
pub struct ResponseShapeError;

/// Whether `s` is the text `lit`.
fn text_is(s: &String, lit: &str) -> (r: bool)
    ensures
        r == (s@ == lit@),
{
    *s == lit.to_owned()
}

/// The value of the first field named `name`.
pub fn find_field<'a>(fields: &'a Vec<JsonField>, name: &str) -> (r: Option<
    &'a JsonValue,
>)
    ensures
        match r {
            Some(v) => lookup(fields@, name@) == Some(*v),
            None => lookup(fields@, name@) is None,
        },
{
    let mut i: usize = 0;
    assert(fields@.subrange(0, fields@.len() as int) =~= fields@);
    while i < fields.len()
        invariant
            0 <= i <= fields@.len(),
            lookup(fields@, name@) == lookup(fields@.subrange(i as int, fields@.len() as int), name@),
        decreases fields@.len() - i,
    {
        let ghost rest = fields@.subrange(i as int, fields@.len() as int);
        assert(rest.drop_first() =~= fields@.subrange(i + 1, fields@.len() as int));
        if text_is(&fields[i].name, name) {
            return Some(&fields[i].value);
        }
        i = i + 1;
    }
    assert(fields@.subrange(i as int, fields@.len() as int).len() == 0);
    None
}

/// Reads an item: an object with a `key` field of sixteen hex digits and a
/// string `value` field.
pub fn read_item(v: &JsonValue) -> (r: Option<Item>)
    ensures
        r matches Some(it) ==> item_reads(*v, it),
        r is None ==> forall|it: Item| !item_reads(*v, it),
{
    match v {
        JsonValue::Object(f) => {
            let key = match find_field(f, "key") {
                Some(JsonValue::Str(s)) => match decode_key_text(s.as_str()) {
                    Ok(k) => k,
                    Err(_) => {
                        return None;
                    },
                },
                _ => {
                    return None;
                },
            };
            match find_field(f, "value") {
                Some(JsonValue::Str(s)) => Some(Item { key, value: s.clone() }),
                _ => None,
            }
        },
        _ => None,
    }
}

/// Reads each element of an `items` array as an item, in order.
pub fn read_items(a: &Vec<JsonValue>) -> (r: Option<Vec<Item>>)
    ensures
        r matches Some(items) ==> items_read(a@, items@),
        r is None ==> forall|items: Seq<Item>| !items_read(a@, items),
{
    let mut items: Vec<Item> = Vec::new();
    let mut i: usize = 0;
    while i < a.len()
        invariant
            0 <= i <= a@.len(),
            items@.len() == i,
            forall|j: int| 0 <= j < i ==> item_reads(a@[j], items@[j]),
        decreases a@.len() - i,
    {
        match read_item(&a[i]) {
            Some(it) => items.push(it),
            None => {
                assert forall|other: Seq<Item>| !items_read(a@, other) by {
                    if items_read(a@, other) {
                        assert(item_reads(a@[i as int], other[i as int]));
                    }
                }
                return None;
            },
        }
        i = i + 1;
    }
    Some(items)
}

/// Reads the store's answer from its JSON value; an error where the value
/// has the shape of no answer.
pub fn decode_response(v: &JsonValue) -> (r: Result<Response, ResponseShapeError>)
    ensures
        r matches Ok(x) ==> response_reads(*v, x),
        r is Err ==> forall|x: Response| !response_reads(*v, x),
{
    let f = match v {
        JsonValue::Object(f) => f,
        _ => {
            return Err(ResponseShapeError);
        },
    };
    let t = match find_field(f, "type") {
        Some(JsonValue::Str(t)) => t,
        _ => {
            return Err(ResponseShapeError);
        },
    };
    if text_is(t, "GetItem") {
        match find_field(f, "item") {
            None => Ok(Response::GetItem(GetItemOutput { item: None })),
            Some(JsonValue::Null) => Ok(Response::GetItem(GetItemOutput { item: None })),
            Some(x) => match read_item(x) {
                Some(it) => Ok(Response::GetItem(GetItemOutput { item: Some(it) })),
                None => Err(ResponseShapeError),
            },
        }
    } else if text_is(t, "PutItem") {
        Ok(Response::PutItem(PutItemOutput))
    } else if text_is(t, "ScanItem") {
        match find_field(f, "items") {
            Some(JsonValue::Array(a)) => match read_items(a) {
                Some(items) => Ok(Response::ScanItem(ScanItemOutput { items })),
                None => Err(ResponseShapeError),
            },
            _ => Err(ResponseShapeError),
        }
    } else if text_is(t, "Error") {
        match find_field(f, "error") {
            Some(JsonValue::Str(e)) => {
                if text_is(e, "deadlock") {
                    Ok(Response::Error(Error::Deadlock))
                } else if text_is(e, "other") {
                    match find_field(f, "message") {
                        Some(JsonValue::Str(m)) => Ok(
                            Response::Error(Error::Other { message: m.clone() }),
                        ),
                        _ => Err(ResponseShapeError),
                    }
                } else {
                    Err(ResponseShapeError)
                }
            },
            _ => Err(ResponseShapeError),
        }
    } else {
        Err(ResponseShapeError)
    }
}

/// Whether field `f` is named `name` and holds `v`.
pub open spec fn field_is(f: JsonField, name: Seq<char>, v: JsonValue) -> bool {
    f.name@ == name && f.value == v
}

/// Whether `v` is `it` as a writer of answers writes an item: an object
/// with `key`, the key's sixteen uppercase hex digits, then `value`.
pub open spec fn item_written(v: JsonValue, it: Item) -> bool {
    match v {
        JsonValue::Object(g) => g@.len() == 2 && (match g@[0].value {
            JsonValue::Str(k) => g@[0].name@ == "key"@ && k@ == upper_hex(it.key@),
            _ => false,
        }) && field_is(g@[1], "value"@, JsonValue::Str(it.value)),
        _ => false,
    }
}

/// Whether `v` is `r` as a writer of answers writes it: `"type"` first,
/// naming the variant, then the variant's fields in declaration order; an
/// error's `"error"` tag beside them.
pub open spec fn response_written(v: JsonValue, r: Response) -> bool {
    match v {
        JsonValue::Object(f) => f@.len() >= 1 && (match f@[0].value {
            JsonValue::Str(t) => f@[0].name@ == "type"@ && match r {
                Response::GetItem(o) => t@ == "GetItem"@ && f@.len() == 2 && f@[1].name@
                    == "item"@ && match o.item {
                    None => f@[1].value == JsonValue::Null,
                    Some(it) => item_written(f@[1].value, it),
                },
                Response::PutItem(_) => t@ == "PutItem"@ && f@.len() == 1,
                Response::ScanItem(o) => t@ == "ScanItem"@ && f@.len() == 2 && f@[1].name@
                    == "items"@ && match f@[1].value {
                    JsonValue::Array(a) => a@.len() == o.items@.len() && forall|i: int|
                        0 <= i < a@.len() ==> item_written(a@[i], o.items@[i]),
                    _ => false,
                },
                Response::Error(Error::Deadlock) => t@ == "Error"@ && f@.len() == 2 && f@[1].name@
                    == "error"@ && (f@[1].value matches JsonValue::Str(e) && e@ == "deadlock"@),
                Response::Error(Error::Other { message }) => t@ == "Error"@ && f@.len() == 3
                    && f@[1].name@ == "error"@ && (f@[1].value matches JsonValue::Str(e) && e@
                    == "other"@) && field_is(f@[2], "message"@, JsonValue::Str(message)),
            },
            _ => false,
        }),
        _ => false,
    }
}

/// Reading an answer back from the value that a writer of answers makes of
/// it gives the same answer, for every variant and both error forms.
pub proof fn lemma_response_write_then_read(v: JsonValue, r: Response)
    requires
        response_written(v, r),
    ensures
        response_reads(v, r),
{
    reveal_strlit("type");
    reveal_strlit("item");
    reveal_strlit("items");
    reveal_strlit("key");
    reveal_strlit("value");
    reveal_strlit("error");
    reveal_strlit("message");
    reveal_strlit("GetItem");
    reveal_strlit("PutItem");
    reveal_strlit("ScanItem");
    reveal_strlit("Error");
    reveal_strlit("deadlock");
    reveal_strlit("other");
    reveal_with_fuel(lookup, 4);
    let f = v->Object_0@;
    if f.len() >= 2 {
        assert(f.drop_first()[0] == f[1]);
    }
    if f.len() == 3 {
        assert(f.drop_first().drop_first()[0] == f[2]);
    }
    assert("type"@.len() == 4 && "items"@.len() == 5 && "error"@.len() == 5);
    assert("message"@.len() == 7 && "GetItem"@.len() == 7 && "PutItem"@.len() == 7);
    assert("ScanItem"@.len() == 8 && "Error"@.len() == 5);
    assert("deadlock"@.len() == 8 && "other"@.len() == 5);
    assert("type"@[0] != "item"@[0] && "PutItem"@[0] != "GetItem"@[0]);
    match r {
        Response::GetItem(o) => {
            assert(lookup(f.drop_first(), "item"@) == Some(f[1].value));
            if let Some(it) = o.item {
                lemma_item_write_then_read(f[1].value, it);
            }
        },
        Response::ScanItem(o) => {
            assert(lookup(f.drop_first(), "items"@) == Some(f[1].value));
            let a = f[1].value->Array_0@;
            assert forall|i: int| 0 <= i < a.len() implies item_reads(a[i], o.items@[i]) by {
                lemma_item_write_then_read(a[i], o.items@[i]);
            }
        },
        Response::PutItem(_) => {},
        Response::Error(Error::Deadlock) => {
            assert(lookup(f.drop_first(), "error"@) == Some(f[1].value));
        },
        Response::Error(Error::Other { .. }) => {
            assert(lookup(f.drop_first(), "error"@) == Some(f[1].value));
            assert(lookup(f.drop_first().drop_first(), "message"@) == Some(f[2].value));
            assert(lookup(f.drop_first(), "message"@) == Some(f[2].value));
        },
    }
}

/// An item written as a writer of answers writes it reads back as itself.
proof fn lemma_item_write_then_read(v: JsonValue, it: Item)
    requires
        item_written(v, it),
    ensures
        item_reads(v, it),
{
    reveal_strlit("key");
    reveal_strlit("value");
    reveal_with_fuel(lookup, 3);
    lemma_key_text_round_trip(it.key);
    let g = v->Object_0@;
    assert(g.drop_first()[0] == g[1]);
    assert("key"@.len() == 3 && "value"@.len() == 5);
}

} // verus!
