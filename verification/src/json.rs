use vstd::prelude::*;

use crate::num::{parse_usize, parse_usize_spec};
use crate::text::{
    chars_eq, chars_of, pieces, split_char, split_ranges,
};

verus! {

/// A JSON number as it was read: a non-negative integer, a negative integer,
/// or a floating-point number held as the bit pattern of its IEEE-754
/// binary64 value.
#[derive(Clone, Copy, Debug, PartialEq, Eq, Structural)]
pub enum JsonNumber {
    PosInt(u64),
    NegInt(i64),
    Float(u64),
}

/// A JSON document: the data that the game files hold and that responses echo.
pub enum JsonValue {
    Null,
    Bool(bool),
    Number(JsonNumber),
    String(String),
    Array(Vec<JsonValue>),
    /// The members of an object in order; where a key occurs twice, the
    /// later member is the one that counts.
    Object(Vec<(String, JsonValue)>),
}

/// `Some(*x)` for `Some(x)`.
pub open spec fn deref_opt<T>(o: Option<&T>) -> Option<T> {
    match o {
        Some(x) => Some(*x),
        None => None,
    }
}

/// The value of the last member of `entries` whose key is `key`.
pub open spec fn obj_get(entries: Seq<(String, JsonValue)>, key: Seq<char>) -> Option<JsonValue>
    decreases entries.len(),
{
    if entries.len() == 0 {
        None
    } else if entries.last().0@ == key {
        Some(entries.last().1)
    } else {
        obj_get(entries.drop_last(), key)
    }
}

/// `v[key]` where `v` is an object, as `Value::get` with a string index.
pub open spec fn json_get(v: JsonValue, key: Seq<char>) -> Option<JsonValue> {
    match v {
        JsonValue::Object(m) => obj_get(m@, key),
        _ => None,
    }
}

/// The string that `v` holds, if it is a string (`Value::as_str`).
pub open spec fn json_str(v: JsonValue) -> Option<String> {
    match v {
        JsonValue::String(s) => Some(s),
        _ => None,
    }
}

/// The boolean that `v` holds, if it is one (`Value::as_bool`).
pub open spec fn json_bool(v: JsonValue) -> Option<bool> {
    match v {
        JsonValue::Bool(b) => Some(b),
        _ => None,
    }
}

/// `Number::as_i64`: integers that fit in an `i64`.
pub open spec fn number_as_i64(n: JsonNumber) -> Option<i64> {
    match n {
        JsonNumber::PosInt(u) => if u <= i64::MAX {
            Some(u as i64)
        } else {
            None
        },
        JsonNumber::NegInt(i) => Some(i),
        JsonNumber::Float(_) => None,
    }
}

/// `Value::as_i64`.
pub open spec fn json_i64(v: JsonValue) -> Option<i64> {
    match v {
        JsonValue::Number(n) => number_as_i64(n),
        _ => None,
    }
}

/// The number that `v` holds, if it is a number: every JSON number has a
/// value as `f64` (`Value::as_f64`).
pub open spec fn json_number(v: JsonValue) -> Option<JsonNumber> {
    match v {
        JsonValue::Number(n) => Some(n),
        _ => None,
    }
}

/// The elements of `v`, if it is an array (`Value::as_array`).
pub open spec fn json_array(v: JsonValue) -> Option<Seq<JsonValue>> {
    match v {
        JsonValue::Array(a) => Some(a@),
        _ => None,
    }
}

/// `s` with each occurrence of the two characters `a b` (scanning from the
/// left, without overlap) replaced by `r`, as `str::replace` does.
pub open spec fn replace_pair(s: Seq<char>, a: char, b: char, r: char) -> Seq<char>
    decreases s.len(),
{
    if s.len() == 0 {
        Seq::empty()
    } else if s.len() >= 2 && s[0] == a && s[1] == b {
        seq![r] + replace_pair(s.skip(2), a, b, r)
    } else {
        seq![s[0]] + replace_pair(s.drop_first(), a, b, r)
    }
}

/// A JSON-pointer reference token with its escapes undone: `~1` becomes `/`,
/// then `~0` becomes `~`.
pub open spec fn unescape_token(t: Seq<char>) -> Seq<char> {
    replace_pair(replace_pair(t, '~', '1', '/'), '~', '0', '~')
}

/// serde_json's array index syntax: no leading `+`, no leading zero unless
/// the token is `0`, then `usize::from_str`.
pub open spec fn parse_index_spec(t: Seq<char>) -> Option<usize> {
    if (t.len() > 0 && t[0] == '+') || (t.len() > 0 && t[0] == '0' && t.len() != 1) {
        None
    } else {
        parse_usize_spec(t)
    }
}

/// One step of a JSON pointer: a member of an object or an element of an array.
pub open spec fn pointer_step(v: JsonValue, token: Seq<char>) -> Option<JsonValue> {
    match v {
        JsonValue::Object(m) => obj_get(m@, token),
        JsonValue::Array(a) => match parse_index_spec(token) {
            Some(i) => if i < a@.len() {
                Some(a@[i as int])
            } else {
                None
            },
            None => None,
        },
        _ => None,
    }
}

/// Follows the (escaped) reference tokens `tokens` from `v`.
pub open spec fn pointer_walk(v: JsonValue, tokens: Seq<Seq<char>>) -> Option<JsonValue>
    decreases tokens.len(),
{
    if tokens.len() == 0 {
        Some(v)
    } else {
        match pointer_step(v, unescape_token(tokens[0])) {
            Some(w) => pointer_walk(w, tokens.drop_first()),
            None => None,
        }
    }
}

/// `Value::pointer`: the value at the JSON pointer `p` (RFC 6901).
pub open spec fn json_pointer(v: JsonValue, p: Seq<char>) -> Option<JsonValue> {
    if p.len() == 0 {
        Some(v)
    } else if p[0] != '/' {
        None
    } else {
        pointer_walk(v, split_char(p.drop_first(), '/'))
    }
}

/// The value of the last member of `m` whose key is `key`.
pub fn obj_lookup<'a>(m: &'a Vec<(String, JsonValue)>, key: &Vec<char>) -> (r: Option<&'a JsonValue>)
    ensures
        deref_opt(r) == obj_get(m@, key@),
{
    let mut i = m.len();
    assert(m@.take(i as int) =~= m@);
    while i > 0
        invariant
            i <= m.len(),
            obj_get(m@, key@) == obj_get(m@.take(i as int), key@),
        decreases i,
    {
        let k = chars_of(m[i - 1].0.as_str());
        assert(m@.take(i as int).drop_last() =~= m@.take(i - 1));
        if chars_eq(&k, key) {
            return Some(&m[i - 1].1);
        }
        i -= 1;
    }
    None
}

impl JsonValue {
    /// `self[key]` where `self` is an object.
    pub fn get(&self, key: &str) -> (r: Option<&JsonValue>)
        ensures
            deref_opt(r) == json_get(*self, key@),
    {
        match self {
            JsonValue::Object(m) => {
                let k = chars_of(key);
                obj_lookup(m, &k)
            },
            _ => None,
        }
    }

    /// The string this value holds, if it is a string.
    pub fn as_str(&self) -> (r: Option<&String>)
        ensures
            deref_opt(r) == json_str(*self),
    {
        match self {
            JsonValue::String(s) => Some(s),
            _ => None,
        }
    }

    /// The boolean this value holds, if it is one.
    pub fn as_bool(&self) -> (r: Option<bool>)
        ensures
            r == json_bool(*self),
    {
        match self {
            JsonValue::Bool(b) => Some(*b),
            _ => None,
        }
    }

    /// The integer this value holds, if it is a number that fits in an `i64`.
    pub fn as_i64(&self) -> (r: Option<i64>)
        ensures
            r == json_i64(*self),
    {
        match self {
            JsonValue::Number(JsonNumber::PosInt(u)) => if *u <= 9223372036854775807u64 {
                Some(*u as i64)
            } else {
                None
            },
            JsonValue::Number(JsonNumber::NegInt(i)) => Some(*i),
            _ => None,
        }
    }

    /// The number this value holds, if it is a number.
    pub fn as_number(&self) -> (r: Option<JsonNumber>)
        ensures
            r == json_number(*self),
    {
        match self {
            JsonValue::Number(n) => Some(*n),
            _ => None,
        }
    }

    /// The elements of this value, if it is an array.
    pub fn as_array(&self) -> (r: Option<&Vec<JsonValue>>)
        ensures
            match r {
                Some(a) => json_array(*self) == Some(a@),
                None => json_array(*self) is None,
            },
    {
        match self {
            JsonValue::Array(a) => Some(a),
            _ => None,
        }
    }

    /// The value at the JSON pointer `p`, as `Value::pointer` finds it.
    pub fn pointer(&self, p: &str) -> (r: Option<&JsonValue>)
        ensures
            deref_opt(r) == json_pointer(*self, p@),
    {
        let v = chars_of(p);
        if v.len() == 0 {
            return Some(self);
        }
        if v[0] != '/' {
            return None;
        }
        let rest = tail_chars(&v);
        let ranges = split_ranges(&rest, '/');
        let ghost toks = split_char(rest@, '/');
        let mut cur: &JsonValue = self;
        let mut i: usize = 0;
        assert(toks.skip(0) =~= toks);
        assert(v@ == p@);
        assert(json_pointer(*self, p@) == pointer_walk(*self, toks));
        while i < ranges.len()
            invariant
                i <= ranges.len(),
                rest@ == p@.drop_first(),
                v@ == p@,
                v@.len() > 0 && v@[0] == '/',
                toks == split_char(rest@, '/'),
                forall|k: int| 0 <= k < ranges.len() ==> (#[trigger] ranges@[k]).0 <= ranges@[k].1 <= rest.len(),
                pieces(rest@, ranges@) == toks,
                json_pointer(*self, p@) == pointer_walk(*cur, toks.skip(i as int)),
            decreases ranges.len() - i,
        {
            let (a, b) = ranges[i];
            let tok = unescape(&rest, a, b);
            proof {
                assert(toks[i as int] == rest@.subrange(a as int, b as int));
                assert(toks.skip(i as int)[0] == toks[i as int]);
                assert(toks.skip(i as int).drop_first() =~= toks.skip(i + 1));
            }
            match step(cur, &tok) {
                Some(w) => {
                    cur = w;
                },
                None => {
                    return None;
                },
            }
            i += 1;
        }
        assert(toks.skip(i as int) =~= Seq::<Seq<char>>::empty());
        Some(cur)
    }
}

/// `v` without its first character.
fn tail_chars(v: &Vec<char>) -> (r: Vec<char>)
    requires
        v.len() > 0,
    ensures
        r@ == v@.drop_first(),
{
    let mut r: Vec<char> = Vec::new();
    let mut i: usize = 1;
    while i < v.len()
        invariant
            1 <= i <= v.len(),
            r@ == v@.subrange(1, i as int),
        decreases v.len() - i,
    {
        r.push(v[i]);
        i += 1;
    }
    assert(r@ =~= v@.drop_first());
    r
}

/// `v[lo..hi]` with each `a b` replaced by `r`.
fn replace_pair_chars(v: &Vec<char>, a: char, b: char, r: char) -> (out: Vec<char>)
    ensures
        out@ == replace_pair(v@, a, b, r),
{
    let n = v.len();
    let mut out: Vec<char> = Vec::new();
    let mut i: usize = 0;
    assert(v@.skip(0) =~= v@);
    while i < n
        invariant
            n == v.len(),
            i <= n,
            replace_pair(v@, a, b, r) == out@ + replace_pair(v@.skip(i as int), a, b, r),
        decreases n - i,
    {
        let ghost s = v@.skip(i as int);
        if i + 1 < n && v[i] == a && v[i + 1] == b {
            assert(s[0] == a && s[1] == b);
            assert(s.skip(2) =~= v@.skip(i + 2));
            out.push(r);
            assert(out@ + replace_pair(v@.skip(i + 2), a, b, r) =~= out@.drop_last() + (seq![r] + replace_pair(s.skip(2), a, b, r)));
            i += 2;
        } else {
            proof {
                assert(s[0] == v@[i as int]);
                assert(s.drop_first() =~= v@.skip(i + 1));
                if s.len() >= 2 {
                    assert(s[1] == v@[i + 1]);
                }
            }
            out.push(v[i]);
            assert(out@ + replace_pair(v@.skip(i + 1), a, b, r) =~= out@.drop_last() + (seq![s[0]] + replace_pair(s.drop_first(), a, b, r)));
            i += 1;
        }
    }
    assert(v@.skip(i as int) =~= Seq::<char>::empty());
    assert(out@ + Seq::<char>::empty() =~= out@);
    out
}

/// The reference token `v[lo..hi]` with its escapes undone.
fn unescape(v: &Vec<char>, lo: usize, hi: usize) -> (r: Vec<char>)
    requires
        lo <= hi <= v.len(),
    ensures
        r@ == unescape_token(v@.subrange(lo as int, hi as int)),
{
    let mut t: Vec<char> = Vec::new();
    let mut i = lo;
    while i < hi
        invariant
            lo <= i <= hi <= v.len(),
            t@ == v@.subrange(lo as int, i as int),
        decreases hi - i,
    {
        t.push(v[i]);
        i += 1;
    }
    let t1 = replace_pair_chars(&t, '~', '1', '/');
    replace_pair_chars(&t1, '~', '0', '~')
}

/// Parses an array index as serde_json's pointer lookup does.
fn parse_index(t: &Vec<char>) -> (r: Option<usize>)
    ensures
        r == parse_index_spec(t@),
{
    if t.len() > 0 && (t[0] == '+' || (t[0] == '0' && t.len() != 1)) {
        return None;
    }
    let s = crate::text::string_from_chars(t);
    parse_usize(s.as_str())
}

/// One step of a JSON pointer.
fn step<'a>(v: &'a JsonValue, token: &Vec<char>) -> (r: Option<&'a JsonValue>)
    ensures
        deref_opt(r) == pointer_step(*v, token@),
{
    match v {
        JsonValue::Object(m) => obj_lookup(m, token),
        JsonValue::Array(a) => match parse_index(token) {
            Some(i) => if i < a.len() {
                Some(&a[i])
            } else {
                None
            },
            None => None,
        },
        _ => None,
    }
}


/// Whether `a` and `b` are the same JSON document: same shape, same
/// scalars, same characters in every string and key.
pub open spec fn json_same(a: JsonValue, b: JsonValue) -> bool
    decreases a,
{
    match a {
        JsonValue::Null => b is Null,
        JsonValue::Bool(x) => b == JsonValue::Bool(x),
        JsonValue::Number(x) => b == JsonValue::Number(x),
        JsonValue::String(x) => match b {
            JsonValue::String(y) => x@ == y@,
            _ => false,
        },
        JsonValue::Array(x) => match b {
            JsonValue::Array(y) => x@.len() == y@.len() && forall|i: int|
                0 <= i < x@.len() ==> json_same(#[trigger] x@[i], y@[i]),
            _ => false,
        },
        JsonValue::Object(x) => match b {
            JsonValue::Object(y) => x@.len() == y@.len() && forall|i: int|
                0 <= i < x@.len() ==> (#[trigger] x@[i]).0@ == y@[i].0@ && json_same(
                    x@[i].1,
                    y@[i].1,
                ),
            _ => false,
        },
    }
}

/// Whether the optional documents `a` and `b` are the same.
pub open spec fn opt_json_same(a: Option<JsonValue>, b: Option<JsonValue>) -> bool {
    match (a, b) {
        (None, None) => true,
        (Some(x), Some(y)) => json_same(x, y),
        _ => false,
    }
}

impl JsonValue {
    /// A copy of this document.
    pub fn deep_copy(&self) -> (r: JsonValue)
        ensures
            json_same(*self, r),
        decreases self,
    {
        match self {
            JsonValue::Null => JsonValue::Null,
            JsonValue::Bool(b) => JsonValue::Bool(*b),
            JsonValue::Number(n) => JsonValue::Number(*n),
            JsonValue::String(s) => JsonValue::String(s.clone()),
            JsonValue::Array(a) => {
                let mut out: Vec<JsonValue> = Vec::new();
                let mut i: usize = 0;
                while i < a.len()
                    invariant
                        *self == JsonValue::Array(*a),
                        i <= a.len(),
                        out@.len() == i,
                        forall|k: int| 0 <= k < i ==> json_same(#[trigger] a@[k], out@[k]),
                    decreases a.len() - i,
                {
                    proof {
                        broadcast use vstd::std_specs::vec::axiom_vec_index_decreases;

                        assert(decreases_to!(*self => (*self)->Array_0));
                        assert(decreases_to!(*a => a[i as int]));
                        assert(decreases_to!(*self => a@[i as int]));
                    }
                    out.push(a[i].deep_copy());
                    i += 1;
                }
                JsonValue::Array(out)
            },
            JsonValue::Object(m) => {
                let mut out: Vec<(String, JsonValue)> = Vec::new();
                let mut i: usize = 0;
                while i < m.len()
                    invariant
                        *self == JsonValue::Object(*m),
                        i <= m.len(),
                        out@.len() == i,
                        forall|k: int|
                            0 <= k < i ==> (#[trigger] m@[k]).0@ == out@[k].0@ && json_same(
                                m@[k].1,
                                out@[k].1,
                            ),
                    decreases m.len() - i,
                {
                    proof {
                        broadcast use vstd::std_specs::vec::axiom_vec_index_decreases;

                        assert(decreases_to!(*self => (*self)->Object_0));
                        assert(decreases_to!(*m => m[i as int]));
                        assert(decreases_to!(m[i as int] => m[i as int].1));
                        assert(decreases_to!(*self => m@[i as int].1));
                    }
                    let v = m[i].1.deep_copy();
                    out.push((m[i].0.clone(), v));
                    i += 1;
                }
                JsonValue::Object(out)
            },
        }
    }
}

/// A copy of an optional document.
pub fn opt_deep_copy(o: &Option<JsonValue>) -> (r: Option<JsonValue>)
    ensures
        opt_json_same(*o, r),
{
    match o {
        Some(v) => Some(v.deep_copy()),
        None => None,
    }
}

} // verus!
