//! A JSON document as plain values, and field lookup in its objects.

use vstd::prelude::*;

verus! {

/// A JSON value. Numbers that are integers within `i64` are held as such; any
/// other number keeps its text.
pub enum JsonValue {
    Null,
    Bool(bool),
    Int(i64),
    OtherNumber(String),
    Str(String),
    Array(Vec<JsonValue>),
    Object(Vec<(String, JsonValue)>),
}

/// The value of the first field of `fs` named `key`.
pub open spec fn field_of(fs: Seq<(String, JsonValue)>, key: Seq<char>) -> Option<JsonValue>
    decreases fs.len(),
{
    if fs.len() == 0 {
        None
    } else if fs[0].0@ == key {
        Some(fs[0].1)
    } else {
        field_of(fs.drop_first(), key)
    }
}

/// The value of the first field of `fs` named `key`.
pub fn get_field<'a>(fs: &'a Vec<(String, JsonValue)>, key: &str) -> (r: Option<&'a JsonValue>)
    ensures
        match r {
            Some(v) => field_of(fs@, key@) == Some(*v),
            None => field_of(fs@, key@) is None,
        },
{
    let k = String::from_str(key);
    let mut i: usize = 0;
    assert(fs@.subrange(0, fs.len() as int) =~= fs@);
    while i < fs.len()
        invariant
            i <= fs.len(),
            k@ == key@,
            field_of(fs@, key@) == field_of(fs@.subrange(i as int, fs.len() as int), key@),
        decreases fs.len() - i,
    {
        assert(fs@.subrange(i as int, fs.len() as int).drop_first() =~= fs@.subrange(
            i + 1,
            fs.len() as int,
        ));
        if fs[i].0 == k {
            return Some(&fs[i].1);
        }
        i = i + 1;
    }
    None
}

} // verus!
