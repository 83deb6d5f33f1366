//! A lurker keeps keys in a colony of holes: each character of a key leads
//! from one hole to the next, until the key is unique.  A gallery is one
//! hole: an object whose members, named by one character, are the next holes.
use vstd::prelude::*;
use crate::json::{Json, JsonObject, JsonV, lookup};
use crate::json_text::chars_to_string;

verus! {

/// The hole that the character `val` leads to from `gallery`, if there is
/// one and it is an object.
pub fn find_hole(gallery: &JsonObject, val: char) -> (r: Option<JsonObject>)
    ensures
        match lookup(gallery@, seq![val]) {
            Some(JsonV::Object(o)) => r matches Some(h) && h@ == o,
            _ => r is None,
        },
{
    let mut chars: Vec<char> = Vec::new();
    chars.push(val);
    let key = chars_to_string(&chars);
    assert(chars@ =~= seq![val]);
    match gallery.get(&key) {
        Some(jsn) => match jsn {
            Json::Object(obj) => Some(obj.deep_copy()),
            _ => None,
        },
        None => None,
    }
}

} // verus!
