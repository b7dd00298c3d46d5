use vstd::prelude::*;

use crate::json::{json_str, JsonValue};
use crate::query::opt_chars;
use crate::text::{copy_str, trim, trim_str};

verus! {

/// The characters of the string that `o` holds, if it holds a string.
pub open spec fn str_of(o: Option<JsonValue>) -> Option<Seq<char>> {
    match o {
        Some(v) => match json_str(v) {
            Some(s) => Some(s@),
            None => None,
        },
        None => None,
    }
}

/// The trimmed string that `o` holds, if it holds a string.
pub open spec fn trimmed_of(o: Option<JsonValue>) -> Option<Seq<char>> {
    match str_of(o) {
        Some(s) => Some(trim(s)),
        None => None,
    }
}

/// The trimmed string that `o` holds, if it holds a string that is not blank.
pub open spec fn nonblank_of(o: Option<JsonValue>) -> Option<Seq<char>> {
    match trimmed_of(o) {
        Some(t) => if t.len() > 0 {
            Some(t)
        } else {
            None
        },
        None => None,
    }
}

/// `deref_opt` of an optional reference to a document.
pub open spec fn opt_doc(o: Option<&JsonValue>) -> Option<JsonValue> {
    match o {
        Some(v) => Some(*v),
        None => None,
    }
}

/// The string that `o` holds, copied.
pub fn str_field(o: Option<&JsonValue>) -> (r: Option<String>)
    ensures
        opt_chars(r) == str_of(opt_doc(o)),
{
    match o {
        Some(v) => match v.as_str() {
            Some(s) => Some(copy_str(s.as_str())),
            None => None,
        },
        None => None,
    }
}

/// The trimmed string that `o` holds.
pub fn trimmed_field(o: Option<&JsonValue>) -> (r: Option<String>)
    ensures
        opt_chars(r) == trimmed_of(opt_doc(o)),
{
    match o {
        Some(v) => match v.as_str() {
            Some(s) => Some(trim_str(s.as_str())),
            None => None,
        },
        None => None,
    }
}

/// The trimmed string that `o` holds, when it is not blank.
pub fn nonblank_field(o: Option<&JsonValue>) -> (r: Option<String>)
    ensures
        opt_chars(r) == nonblank_of(opt_doc(o)),
{
    match trimmed_field(o) {
        Some(t) => if t.as_str().is_empty() {
            None
        } else {
            Some(t)
        },
        None => None,
    }
}

/// The boolean that `o` holds, or `false`.
pub open spec fn bool_or_false(o: Option<JsonValue>) -> bool {
    match o {
        Some(JsonValue::Bool(b)) => b,
        _ => false,
    }
}

/// The boolean that `o` holds, or `false`.
pub fn bool_field(o: Option<&JsonValue>) -> (r: bool)
    ensures
        r == bool_or_false(opt_doc(o)),
{
    match o {
        Some(v) => match v.as_bool() {
            Some(b) => b,
            None => false,
        },
        None => false,
    }
}

} // verus!
