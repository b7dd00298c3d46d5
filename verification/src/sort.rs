use vstd::prelude::*;

use crate::json::{deref_opt, json_pointer, JsonNumber, JsonValue};
use crate::text::{chars_of, lowercase, string_from_chars, to_lowercase};
use vstd::set_lib::{lemma_int_range, lemma_len_subset, set_int_range};
use vstd::arithmetic::power2::{
    lemma2_to64, lemma2_to64_rest, lemma_pow2_adds, lemma_pow2_pos, lemma_pow2_strictly_increases,
    lemma_pow2_unfold, pow2,
};

verus! {

/// How two values compare.
#[derive(Clone, Copy, PartialEq, Eq, Structural, Debug)]
pub enum Order {
    Less,
    Equal,
    Greater,
}

impl Order {
    /// The opposite order, as for a descending sort.
    pub open spec fn reversed(self) -> Order {
        match self {
            Order::Less => Order::Greater,
            Order::Equal => Order::Equal,
            Order::Greater => Order::Less,
        }
    }
}

/// The order of two integers.
pub open spec fn int_order(a: int, b: int) -> Order {
    if a < b {
        Order::Less
    } else if a == b {
        Order::Equal
    } else {
        Order::Greater
    }
}

/// The number of binary digits of `u`.
pub open spec fn bit_len(u: nat) -> nat
    decreases u,
{
    if u == 0 {
        0
    } else {
        1 + bit_len(u / 2)
    }
}

/// The significand, in `[2^52, 2^53]`, of the `f64` nearest to `u`
/// (ties to even), where `2^e <= u < 2^(e + 1)`.
pub open spec fn rounded_significand(u: nat, e: nat) -> nat {
    if e <= 52 {
        u * pow2((52 - e) as nat)
    } else {
        let s = (e - 52) as nat;
        let q = u / pow2(s);
        let r = u % pow2(s);
        let half = pow2((s - 1) as nat);
        if r > half || (r == half && q % 2 == 1) {
            q + 1
        } else {
            q
        }
    }
}

/// The bit pattern of the `f64` nearest to `u` (ties to even), read as an
/// integer: the biased exponent times `2^52` plus the fraction bits. A
/// significand rounded up to `2^53` carries into the exponent.
pub open spec fn u64_float_key(u: nat) -> int {
    if u == 0 {
        0
    } else {
        let e = (bit_len(u) - 1) as nat;
        ((e + 1022) * pow2(52) + rounded_significand(u, e)) as int
    }
}

/// The key by which the `f64` value of a number is ordered: the bit pattern
/// of its magnitude, negated for negative numbers. Finite `f64` values order
/// as their keys do, and both zeros have the key 0.
pub open spec fn number_key(n: JsonNumber) -> int {
    match n {
        JsonNumber::PosInt(u) => u64_float_key(u as nat),
        JsonNumber::NegInt(i) => if i < 0 {
            -u64_float_key((-i) as nat)
        } else {
            u64_float_key(i as nat)
        },
        JsonNumber::Float(b) => if b >= pow2(63) {
            -(b - pow2(63))
        } else {
            b as int
        },
    }
}

pub proof fn lemma_bit_len_bounds(u: nat)
    ensures
        u < pow2(bit_len(u)),
        u > 0 ==> pow2((bit_len(u) - 1) as nat) <= u,
    decreases u,
{
    if u > 0 {
        lemma_bit_len_bounds(u / 2);
        lemma_pow2_unfold(bit_len(u));
        if u / 2 > 0 {
            lemma_pow2_unfold(bit_len(u / 2));
        } else {
            assert(bit_len(0) == 0);
            assert(pow2(0) == 1) by {
                lemma2_to64();
            }
        }
    } else {
        lemma2_to64();
    }
}

pub proof fn lemma_bit_len_at_most(u: nat, k: nat)
    requires
        u < pow2(k),
    ensures
        bit_len(u) <= k,
{
    lemma_bit_len_bounds(u);
    if bit_len(u) > k {
        if (bit_len(u) - 1) as nat > k {
            lemma_pow2_strictly_increases(k, (bit_len(u) - 1) as nat);
        }
    }
}

/// The number of binary digits of `u`.
fn bit_length(u: u64) -> (n: u64)
    ensures
        n == bit_len(u as nat),
        n <= 64,
{
    proof {
        lemma2_to64();
        lemma_bit_len_at_most(u as nat, 64);
    }
    let mut x = u;
    let mut n: u64 = 0;
    while x > 0
        invariant
            bit_len(u as nat) == n + bit_len(x as nat),
            bit_len(u as nat) <= 64,
        decreases x,
    {
        x = x / 2;
        n = n + 1;
    }
    n
}

/// `2^k`.
fn power_of_two(k: u64) -> (p: u64)
    requires
        k < 64,
    ensures
        p == pow2(k as nat),
{
    let mut p: u64 = 1;
    let mut i: u64 = 0;
    proof {
        lemma2_to64();
        lemma2_to64_rest();
    }
    while i < k
        invariant
            i <= k < 64,
            p == pow2(i as nat),
            pow2(63) == 0x8000000000000000,
        decreases k - i,
    {
        proof {
            lemma_pow2_unfold((i + 1) as nat);
            if i + 1 < 63 {
                lemma_pow2_strictly_increases((i + 1) as nat, 63);
            }
        }
        p = p * 2;
        i = i + 1;
    }
    p
}

/// The ordering key of the `f64` nearest to `u`.
fn u64_key(u: u64) -> (k: i128)
    ensures
        k == u64_float_key(u as nat),
        0 <= k < 0x8000000000000000,
{
    proof {
        lemma2_to64();
        lemma2_to64_rest();
    }
    if u == 0 {
        return 0;
    }
    let n = bit_length(u);
    let e = n - 1;
    proof {
        lemma_bit_len_bounds(u as nat);
    }
    let sig: u64 = if e <= 52 {
        let p = power_of_two(52 - e);
        proof {
            lemma_pow2_adds((e + 1) as nat, (52 - e) as nat);
            assert(u * p < pow2((e + 1) as nat) * p) by (nonlinear_arith)
                requires
                    u < pow2((e + 1) as nat),
                    p > 0,
            ;
        }
        u * p
    } else {
        let s = e - 52;
        let p = power_of_two(s);
        let q = u / p;
        let r = u % p;
        let half = power_of_two(s - 1);
        proof {
            lemma_pow2_adds(53, s as nat);
            assert(q < pow2(53)) by (nonlinear_arith)
                requires
                    u < pow2(53) * p,
                    q == u / p,
                    p > 0,
            ;
        }
        if r > half || (r == half && q % 2 == 1) {
            q + 1
        } else {
            q
        }
    };
    assert(sig <= pow2(53));
    let k = (e as i128 + 1022) * 0x10000000000000i128 + sig as i128;
    k
}

/// The bit pattern of the `f64` value of a number (as `as_f64` gives it):
/// integers are rounded to the nearest `f64`, ties to even.
pub open spec fn f64_bits(n: JsonNumber) -> int {
    match n {
        JsonNumber::PosInt(u) => u64_float_key(u as nat),
        JsonNumber::NegInt(i) => if i < 0 {
            pow2(63) + u64_float_key((-i) as nat)
        } else {
            u64_float_key(i as nat)
        },
        JsonNumber::Float(b) => b as int,
    }
}

/// A number as the `f64` that `as_f64` gives, held as its bit pattern.
pub fn number_as_f64(n: JsonNumber) -> (r: JsonNumber)
    ensures
        r == JsonNumber::Float(f64_bits(n) as u64),
        0 <= f64_bits(n) < pow2(64),
{
    proof {
        lemma2_to64();
        lemma2_to64_rest();
    }
    match n {
        JsonNumber::PosInt(u) => JsonNumber::Float(u64_key(u) as u64),
        JsonNumber::NegInt(i) => {
            if i < 0 {
                let m: u64 = if i == i64::MIN {
                    0x8000000000000000u64
                } else {
                    (-i) as u64
                };
                let k = u64_key(m);
                JsonNumber::Float(0x8000000000000000u64 + k as u64)
            } else {
                JsonNumber::Float(u64_key(i as u64) as u64)
            }
        },
        JsonNumber::Float(b) => JsonNumber::Float(b),
    }
}

/// The ordering key of a number.
pub fn number_order_key(n: JsonNumber) -> (k: i128)
    ensures
        k == number_key(n),
{
    proof {
        lemma2_to64();
        lemma2_to64_rest();
    }
    match n {
        JsonNumber::PosInt(u) => u64_key(u),
        JsonNumber::NegInt(i) => {
            if i < 0 {
                let m: u64 = if i == i64::MIN {
                    0x8000000000000000u64
                } else {
                    (-i) as u64
                };
                -u64_key(m)
            } else {
                u64_key(i as u64)
            }
        },
        JsonNumber::Float(b) => {
            if b >= 0x8000000000000000u64 {
                -((b - 0x8000000000000000u64) as i128)
            } else {
                b as i128
            }
        },
    }
}

/// What a sort compares of a value, as values of the library.
pub enum SortKey {
    /// No value at the path.
    Missing,
    /// A number, by `number_key`.
    Number(i128),
    /// A string, lowercased.
    Text(Vec<char>),
    Flag(bool),
    /// Null, an array or an object.
    Other,
}

/// What a sort compares of a value.
pub enum KeySpec {
    Missing,
    Number(int),
    Text(Seq<char>),
    Flag(bool),
    Other,
}

impl SortKey {
    pub open spec fn view(&self) -> KeySpec {
        match self {
            SortKey::Missing => KeySpec::Missing,
            SortKey::Number(k) => KeySpec::Number(*k as int),
            SortKey::Text(t) => KeySpec::Text(t@),
            SortKey::Flag(b) => KeySpec::Flag(*b),
            SortKey::Other => KeySpec::Other,
        }
    }
}

/// The key of the value found (or not) at a sort path.
pub open spec fn key_of(v: Option<JsonValue>) -> KeySpec {
    match v {
        None => KeySpec::Missing,
        Some(JsonValue::Number(n)) => KeySpec::Number(number_key(n)),
        Some(JsonValue::String(s)) => KeySpec::Text(lowercase(s@)),
        Some(JsonValue::Bool(b)) => KeySpec::Flag(b),
        Some(_) => KeySpec::Other,
    }
}

/// Lexicographic order of character sequences by code point: the order of
/// `String`s, whose bytes are UTF-8.
pub open spec fn lex_order(a: Seq<char>, b: Seq<char>) -> Order
    decreases a.len(),
{
    if a.len() == 0 {
        if b.len() == 0 {
            Order::Equal
        } else {
            Order::Less
        }
    } else if b.len() == 0 {
        Order::Greater
    } else if (a[0] as int) < (b[0] as int) {
        Order::Less
    } else if (a[0] as int) > (b[0] as int) {
        Order::Greater
    } else {
        lex_order(a.drop_first(), b.drop_first())
    }
}

/// How two sort keys compare: a missing value goes after any value; numbers
/// compare by value, strings by their lowercase forms, `false` before `true`;
/// values of different kinds, and nulls, arrays and objects, compare equal.
pub open spec fn key_order(a: KeySpec, b: KeySpec) -> Order {
    match (a, b) {
        (KeySpec::Missing, KeySpec::Missing) => Order::Equal,
        (KeySpec::Missing, _) => Order::Greater,
        (_, KeySpec::Missing) => Order::Less,
        (KeySpec::Number(x), KeySpec::Number(y)) => int_order(x, y),
        (KeySpec::Text(x), KeySpec::Text(y)) => lex_order(x, y),
        (KeySpec::Flag(x), KeySpec::Flag(y)) => int_order(
            if x {
                1
            } else {
                0
            },
            if y {
                1
            } else {
                0
            },
        ),
        _ => Order::Equal,
    }
}

/// `o`, reversed for a descending sort.
pub open spec fn directed(o: Order, desc: bool) -> Order {
    if desc {
        o.reversed()
    } else {
        o
    }
}

/// Two keys are of kinds that the order relates: one is missing, or both are
/// numbers, strings, booleans, or other values.
pub open spec fn same_kind(a: KeySpec, b: KeySpec) -> bool {
    match (a, b) {
        (KeySpec::Missing, _) => true,
        (_, KeySpec::Missing) => true,
        (KeySpec::Number(_), KeySpec::Number(_)) => true,
        (KeySpec::Text(_), KeySpec::Text(_)) => true,
        (KeySpec::Flag(_), KeySpec::Flag(_)) => true,
        (KeySpec::Other, KeySpec::Other) => true,
        _ => false,
    }
}

/// Every key that is present is of one kind: the order of keys is then a
/// total preorder, and a stable sort by it has one outcome.
pub open spec fn uniform(keys: Seq<KeySpec>) -> bool {
    forall|i: int, j: int|
        0 <= i < keys.len() && 0 <= j < keys.len() ==> #[trigger] same_kind(keys[i], keys[j])
}

/// Index `a` goes before index `b` in a stable sort: its key comes first, or
/// the keys tie and `a` is the smaller index.
pub open spec fn goes_before(keys: Seq<KeySpec>, desc: bool, a: int, b: int) -> bool {
    let o = directed(key_order(keys[a], keys[b]), desc);
    o == Order::Less || (o == Order::Equal && a < b)
}

/// `out` holds each index below `n` once.
pub open spec fn is_permutation(out: Seq<usize>, n: nat) -> bool {
    &&& out.len() == n
    &&& forall|k: int| 0 <= k < out.len() ==> #[trigger] out[k] < n
    &&& out.no_duplicates()
}

/// `out` is in stable sorted order.
pub open spec fn sorted_by(keys: Seq<KeySpec>, desc: bool, out: Seq<usize>) -> bool {
    forall|i: int, j: int|
        0 <= i < j < out.len() ==> #[trigger] goes_before(keys, desc, out[i] as int, out[j] as int)
}

pub proof fn lemma_lex_reversed(a: Seq<char>, b: Seq<char>)
    ensures
        lex_order(b, a) == lex_order(a, b).reversed(),
    decreases a.len(),
{
    if a.len() > 0 && b.len() > 0 && a[0] == b[0] {
        lemma_lex_reversed(a.drop_first(), b.drop_first());
    }
}

pub proof fn lemma_lex_equal(a: Seq<char>, b: Seq<char>)
    ensures
        lex_order(a, b) == Order::Equal <==> a == b,
    decreases a.len(),
{
    if a.len() > 0 && b.len() > 0 && a[0] == b[0] {
        lemma_lex_equal(a.drop_first(), b.drop_first());
        if lex_order(a, b) == Order::Equal {
            assert forall|i: int| 0 <= i < a.len() implies a[i] == b[i] by {
                if i > 0 {
                    assert(a[i] == a.drop_first()[i - 1]);
                    assert(b[i] == b.drop_first()[i - 1]);
                }
            }
            assert(a =~= b);
        }
    }
    if a.len() == 0 && b.len() == 0 {
        assert(a =~= b);
    }
    if a == b && a.len() > 0 {
        assert(a.drop_first() == b.drop_first());
        lemma_lex_equal(a.drop_first(), b.drop_first());
    }
}

pub proof fn lemma_lex_less_trans(a: Seq<char>, b: Seq<char>, c: Seq<char>)
    requires
        lex_order(a, b) == Order::Less,
        lex_order(b, c) == Order::Less,
    ensures
        lex_order(a, c) == Order::Less,
    decreases a.len(),
{
    if a.len() > 0 && a[0] == b[0] && b[0] == c[0] {
        lemma_lex_less_trans(a.drop_first(), b.drop_first(), c.drop_first());
    }
}

pub proof fn lemma_key_reversed(a: KeySpec, b: KeySpec)
    ensures
        key_order(b, a) == key_order(a, b).reversed(),
{
    match (a, b) {
        (KeySpec::Text(x), KeySpec::Text(y)) => lemma_lex_reversed(x, y),
        _ => {},
    }
}

/// On keys of related kinds the order is transitive, also through ties.
pub proof fn lemma_key_trans(a: KeySpec, b: KeySpec, c: KeySpec)
    requires
        same_kind(a, b),
        same_kind(b, c),
        same_kind(a, c),
    ensures
        key_order(a, b) != Order::Greater && key_order(b, c) != Order::Greater ==> key_order(a, c)
            != Order::Greater,
        key_order(a, b) == Order::Less && key_order(b, c) != Order::Greater ==> key_order(a, c)
            == Order::Less,
        key_order(a, b) != Order::Greater && key_order(b, c) == Order::Less ==> key_order(a, c)
            == Order::Less,
{
    match (a, b, c) {
        (KeySpec::Text(x), KeySpec::Text(y), KeySpec::Text(z)) => {
            lemma_lex_equal(x, y);
            lemma_lex_equal(y, z);
            lemma_lex_equal(x, z);
            if lex_order(x, y) == Order::Less && lex_order(y, z) == Order::Less {
                lemma_lex_less_trans(x, y, z);
            }
        },
        _ => {},
    }
}

pub proof fn lemma_before_trans(keys: Seq<KeySpec>, desc: bool, a: int, b: int, c: int)
    requires
        uniform(keys),
        0 <= a < keys.len(),
        0 <= b < keys.len(),
        0 <= c < keys.len(),
        goes_before(keys, desc, a, b),
        goes_before(keys, desc, b, c),
    ensures
        goes_before(keys, desc, a, c),
{
    assert(same_kind(keys[a], keys[b]));
    assert(same_kind(keys[b], keys[c]));
    assert(same_kind(keys[a], keys[c]));
    assert(same_kind(keys[c], keys[b]));
    assert(same_kind(keys[b], keys[a]));
    assert(same_kind(keys[c], keys[a]));
    lemma_key_reversed(keys[a], keys[b]);
    lemma_key_reversed(keys[b], keys[c]);
    lemma_key_reversed(keys[a], keys[c]);
    lemma_key_trans(keys[a], keys[b], keys[c]);
    lemma_key_trans(keys[c], keys[b], keys[a]);
}

pub proof fn lemma_before_total(keys: Seq<KeySpec>, desc: bool, a: int, b: int)
    requires
        0 <= a < keys.len(),
        0 <= b < keys.len(),
        a != b,
    ensures
        goes_before(keys, desc, a, b) <==> !goes_before(keys, desc, b, a),
{
    lemma_key_reversed(keys[a], keys[b]);
}

/// Lowercases a string into its characters.
fn lowercase_chars(s: &String) -> (r: Vec<char>)
    ensures
        r@ == lowercase(s@),
{
    let l = to_lowercase(s.as_str());
    chars_of(l.as_str())
}

/// The sort key of a value at a sort path.
pub fn key_from(v: Option<&JsonValue>) -> (r: SortKey)
    ensures
        r@ == key_of(deref_opt(v)),
{
    match v {
        None => SortKey::Missing,
        Some(JsonValue::Number(n)) => SortKey::Number(number_order_key(*n)),
        Some(JsonValue::String(s)) => SortKey::Text(lowercase_chars(s)),
        Some(JsonValue::Bool(b)) => SortKey::Flag(*b),
        Some(_) => SortKey::Other,
    }
}

/// Compares character sequences by code point.
fn lex_compare(a: &Vec<char>, b: &Vec<char>) -> (r: Order)
    ensures
        r == lex_order(a@, b@),
{
    let mut i: usize = 0;
    assert(a@.skip(0) =~= a@);
    assert(b@.skip(0) =~= b@);
    while i < a.len() && i < b.len()
        invariant
            i <= a.len(),
            i <= b.len(),
            lex_order(a@, b@) == lex_order(a@.skip(i as int), b@.skip(i as int)),
        decreases a.len() - i,
    {
        let x = a[i];
        let y = b[i];
        assert(a@.skip(i as int)[0] == a@[i as int]);
        assert(b@.skip(i as int)[0] == b@[i as int]);
        if x < y {
            return Order::Less;
        }
        if x > y {
            return Order::Greater;
        }
        assert(a@.skip(i as int).drop_first() =~= a@.skip(i + 1));
        assert(b@.skip(i as int).drop_first() =~= b@.skip(i + 1));
        i = i + 1;
    }
    if i < b.len() {
        Order::Less
    } else if i < a.len() {
        Order::Greater
    } else {
        Order::Equal
    }
}

/// Compares two sort keys.
pub fn compare_keys(a: &SortKey, b: &SortKey) -> (r: Order)
    ensures
        r == key_order(a@, b@),
{
    match (a, b) {
        (SortKey::Missing, SortKey::Missing) => Order::Equal,
        (SortKey::Missing, _) => Order::Greater,
        (_, SortKey::Missing) => Order::Less,
        (SortKey::Number(x), SortKey::Number(y)) => {
            if *x < *y {
                Order::Less
            } else if *x == *y {
                Order::Equal
            } else {
                Order::Greater
            }
        },
        (SortKey::Text(x), SortKey::Text(y)) => lex_compare(x, y),
        (SortKey::Flag(x), SortKey::Flag(y)) => {
            if *x == *y {
                Order::Equal
            } else if *y {
                Order::Less
            } else {
                Order::Greater
            }
        },
        (SortKey::Other, SortKey::Other) => Order::Equal,
        _ => Order::Equal,
    }
}

/// Compares the values at a sort path of two records.
pub fn compare_json_values(a: Option<&JsonValue>, b: Option<&JsonValue>) -> (r: Order)
    ensures
        r == key_order(key_of(deref_opt(a)), key_of(deref_opt(b))),
{
    let ka = key_from(a);
    let kb = key_from(b);
    compare_keys(&ka, &kb)
}

/// The models of the keys.
pub open spec fn keys_view(keys: Seq<SortKey>) -> Seq<KeySpec> {
    keys.map_values(|k: SortKey| k@)
}

/// `v` holds each index of `lo..hi` once.
pub open spec fn covers(v: Seq<usize>, lo: int, hi: int) -> bool {
    &&& v.len() == hi - lo
    &&& forall|k: int| 0 <= k < v.len() ==> lo <= #[trigger] v[k] < hi
    &&& v.no_duplicates()
}

/// Merges two sorted runs, of the indices `lo..mid` and `mid..hi`; on a tie
/// the run of smaller indices goes first.
fn merge(
    keys: &Vec<SortKey>,
    desc: bool,
    left: Vec<usize>,
    right: Vec<usize>,
    lo: usize,
    mid: usize,
    hi: usize,
) -> (r: Vec<usize>)
    requires
        lo <= mid <= hi <= keys.len(),
        covers(left@, lo as int, mid as int),
        covers(right@, mid as int, hi as int),
        uniform(keys_view(keys@)) ==> sorted_by(keys_view(keys@), desc, left@),
        uniform(keys_view(keys@)) ==> sorted_by(keys_view(keys@), desc, right@),
    ensures
        covers(r@, lo as int, hi as int),
        uniform(keys_view(keys@)) ==> sorted_by(keys_view(keys@), desc, r@),
{
    let ghost kv = keys_view(keys@);
    let mut out: Vec<usize> = Vec::new();
    let mut i: usize = 0;
    let mut j: usize = 0;
    let ghost mut src: Seq<(bool, int)> = Seq::empty();
    while i < left.len() || j < right.len()
        invariant
            lo <= mid <= hi <= keys.len(),
            kv == keys_view(keys@),
            covers(left@, lo as int, mid as int),
            covers(right@, mid as int, hi as int),
            uniform(kv) ==> sorted_by(kv, desc, left@),
            uniform(kv) ==> sorted_by(kv, desc, right@),
            i <= left.len(),
            j <= right.len(),
            out.len() == i + j,
            src.len() == out.len(),
            forall|k: int|
                0 <= k < out.len() ==> {
                    &&& (#[trigger] src[k]).0 ==> 0 <= src[k].1 < i && out[k] == left[src[k].1]
                    &&& !src[k].0 ==> 0 <= src[k].1 < j && out[k] == right[src[k].1]
                },
            out@.no_duplicates(),
            forall|k: int| 0 <= k < out.len() ==> lo <= #[trigger] out@[k] < hi,
            uniform(kv) ==> sorted_by(kv, desc, out@),
            uniform(kv) && out.len() > 0 ==> forall|p: int|
                i <= p < left.len() ==> #[trigger] goes_before(
                    kv,
                    desc,
                    out@.last() as int,
                    left[p] as int,
                ),
            uniform(kv) && out.len() > 0 ==> forall|q: int|
                j <= q < right.len() ==> #[trigger] goes_before(
                    kv,
                    desc,
                    out@.last() as int,
                    right[q] as int,
                ),
        decreases left.len() + right.len() - i - j,
    {
        let take_left = if i < left.len() && j < right.len() {
            let o = compare_keys(&keys[left[i]], &keys[right[j]]);
            match o {
                Order::Less => !desc,
                Order::Equal => true,
                Order::Greater => desc,
            }
        } else {
            i < left.len()
        };
        let ghost old_out = out@;
        if take_left {
            let x = left[i];
            proof {
                assert(lo <= x < mid);
                assert forall|k: int| 0 <= k < old_out.len() implies old_out[k] != x by {
                    if src[k].0 {
                        assert(left@[src[k].1] != left@[i as int]);
                    } else {
                        assert(mid <= right@[src[k].1]);
                    }
                }
                if uniform(kv) {
                    if j < right.len() {
                        assert(mid <= right@[j as int]);
                        assert(goes_before(kv, desc, x as int, right@[j as int] as int));
                    }
                    assert forall|q: int| j <= q < right.len() implies #[trigger] goes_before(
                        kv,
                        desc,
                        x as int,
                        right@[q] as int,
                    ) by {
                        if q > j {
                            assert(goes_before(kv, desc, right@[j as int] as int, right@[q] as int));
                            lemma_before_trans(
                                kv,
                                desc,
                                x as int,
                                right@[j as int] as int,
                                right@[q] as int,
                            );
                        }
                    }
                    assert forall|p: int| i + 1 <= p < left.len() implies #[trigger] goes_before(
                        kv,
                        desc,
                        x as int,
                        left@[p] as int,
                    ) by {
                        assert(goes_before(kv, desc, left@[i as int] as int, left@[p] as int));
                    }
                    if old_out.len() > 0 {
                        assert forall|a: int, b: int|
                            0 <= a < b < old_out.len() + 1 implies #[trigger] goes_before(
                            kv,
                            desc,
                            old_out.push(x)[a] as int,
                            old_out.push(x)[b] as int,
                        ) by {
                            if b == old_out.len() {
                                assert(goes_before(kv, desc, old_out.last() as int, x as int));
                                if a < old_out.len() - 1 {
                                    assert(goes_before(
                                        kv,
                                        desc,
                                        old_out[a] as int,
                                        old_out.last() as int,
                                    ));
                                    lemma_before_trans(
                                        kv,
                                        desc,
                                        old_out[a] as int,
                                        old_out.last() as int,
                                        x as int,
                                    );
                                }
                            } else {
                                assert(goes_before(kv, desc, old_out[a] as int, old_out[b] as int));
                            }
                        }
                    }
                }
            }
            out.push(x);
            proof {
                src = src.push((true, i as int));
            }
            i = i + 1;
        } else {
            let y = right[j];
            proof {
                assert(mid <= y < hi);
                assert forall|k: int| 0 <= k < old_out.len() implies old_out[k] != y by {
                    if src[k].0 {
                        assert(left@[src[k].1] < mid);
                    } else {
                        assert(right@[src[k].1] != right@[j as int]);
                    }
                }
                if uniform(kv) {
                    if i < left.len() {
                        lemma_key_reversed(kv[left@[i as int] as int], kv[y as int]);
                        assert(goes_before(kv, desc, y as int, left@[i as int] as int));
                    }
                    assert forall|p: int| i <= p < left.len() implies #[trigger] goes_before(
                        kv,
                        desc,
                        y as int,
                        left@[p] as int,
                    ) by {
                        if p > i {
                            assert(goes_before(kv, desc, left@[i as int] as int, left@[p] as int));
                            lemma_before_trans(
                                kv,
                                desc,
                                y as int,
                                left@[i as int] as int,
                                left@[p] as int,
                            );
                        }
                    }
                    assert forall|q: int| j + 1 <= q < right.len() implies #[trigger] goes_before(
                        kv,
                        desc,
                        y as int,
                        right@[q] as int,
                    ) by {
                        assert(goes_before(kv, desc, right@[j as int] as int, right@[q] as int));
                    }
                    if old_out.len() > 0 {
                        assert forall|a: int, b: int|
                            0 <= a < b < old_out.len() + 1 implies #[trigger] goes_before(
                            kv,
                            desc,
                            old_out.push(y)[a] as int,
                            old_out.push(y)[b] as int,
                        ) by {
                            if b == old_out.len() {
                                assert(goes_before(kv, desc, old_out.last() as int, y as int));
                                if a < old_out.len() - 1 {
                                    assert(goes_before(
                                        kv,
                                        desc,
                                        old_out[a] as int,
                                        old_out.last() as int,
                                    ));
                                    lemma_before_trans(
                                        kv,
                                        desc,
                                        old_out[a] as int,
                                        old_out.last() as int,
                                        y as int,
                                    );
                                }
                            } else {
                                assert(goes_before(kv, desc, old_out[a] as int, old_out[b] as int));
                            }
                        }
                    }
                }
            }
            out.push(y);
            proof {
                src = src.push((false, j as int));
            }
            j = j + 1;
        }
    }
    out
}

/// Sorts the indices `lo..hi` by their keys, stably.
fn merge_sort(keys: &Vec<SortKey>, desc: bool, lo: usize, hi: usize) -> (r: Vec<usize>)
    requires
        lo <= hi <= keys.len(),
    ensures
        covers(r@, lo as int, hi as int),
        uniform(keys_view(keys@)) ==> sorted_by(keys_view(keys@), desc, r@),
    decreases hi - lo,
{
    if hi - lo == 0 {
        return Vec::new();
    }
    if hi - lo == 1 {
        let mut v: Vec<usize> = Vec::new();
        v.push(lo);
        return v;
    }
    let mid = lo + (hi - lo) / 2;
    let left = merge_sort(keys, desc, lo, mid);
    let right = merge_sort(keys, desc, mid, hi);
    merge(keys, desc, left, right, lo, mid, hi)
}

/// The indices of `keys` in stable sorted order, ascending or descending.
pub fn sort_indices(keys: &Vec<SortKey>, desc: bool) -> (r: Vec<usize>)
    ensures
        is_permutation(r@, keys.len() as nat),
        uniform(keys_view(keys@)) ==> sorted_by(keys_view(keys@), desc, r@),
{
    merge_sort(keys, desc, 0, keys.len())
}

/// A sort specification names a field path, in dot notation, and sorts in
/// descending order where it starts with `-`.
pub open spec fn sort_descending(spec: Seq<char>) -> bool {
    spec.len() > 0 && spec[0] == '-'
}

/// The JSON pointer of a sort specification: `/` and the field path with
/// each `.` replaced by `/`.
pub open spec fn sort_pointer(spec: Seq<char>) -> Seq<char> {
    let path = if sort_descending(spec) {
        spec.drop_first()
    } else {
        spec
    };
    seq!['/'] + path.map_values(|c: char| if c == '.' { '/' } else { c })
}

/// The sort keys of the documents `docs` at the pointer `ptr`.
pub open spec fn doc_keys(docs: Seq<JsonValue>, ptr: Seq<char>) -> Seq<KeySpec> {
    docs.map_values(|d: JsonValue| key_of(json_pointer(d, ptr)))
}

/// The documents that `datas` refer to.
pub open spec fn docs_of(datas: Seq<&JsonValue>) -> Seq<JsonValue> {
    datas.map_values(|d: &JsonValue| *d)
}

/// The order in which to list records whose documents are `datas`, sorted by
/// the value at a field path: the indices of `datas`, each once; where the
/// values present are all numbers, all strings, all booleans or all of other
/// kinds, in stable sorted order, records without the value last (first when
/// descending).
pub fn sort_by_json_path(datas: &Vec<&JsonValue>, sort_spec: &str) -> (r: Vec<usize>)
    ensures
        is_permutation(r@, datas.len() as nat),
        uniform(doc_keys(docs_of(datas@), sort_pointer(sort_spec@))) ==> sorted_by(
            doc_keys(docs_of(datas@), sort_pointer(sort_spec@)),
            sort_descending(sort_spec@),
            r@,
        ),
{
    let chars = chars_of(sort_spec);
    let desc = chars.len() > 0 && chars[0] == '-';
    let start: usize = if desc {
        1
    } else {
        0
    };
    let ghost path = if desc {
        sort_spec@.drop_first()
    } else {
        sort_spec@
    };
    let ghost mapped = path.map_values(|c: char| if c == '.' { '/' } else { c });
    let mut p: Vec<char> = Vec::new();
    p.push('/');
    let mut k: usize = start;
    while k < chars.len()
        invariant
            chars@ == sort_spec@,
            start <= k <= chars.len(),
            start == (if desc { 1int } else { 0int }),
            desc == sort_descending(sort_spec@),
            path == (if desc { sort_spec@.drop_first() } else { sort_spec@ }),
            mapped == path.map_values(|c: char| if c == '.' { '/' } else { c }),
            p@ == seq!['/'] + mapped.take(k - start),
        decreases chars.len() - k,
    {
        let c = chars[k];
        let d = if c == '.' {
            '/'
        } else {
            c
        };
        proof {
            assert(path[k - start] == c);
            assert(mapped.take(k - start + 1) =~= mapped.take(k - start).push(d));
        }
        p.push(d);
        k = k + 1;
    }
    proof {
        assert(mapped.take(k - start) =~= mapped);
    }
    let ptr = string_from_chars(&p);
    let ghost want = doc_keys(docs_of(datas@), sort_pointer(sort_spec@));
    let mut keys: Vec<SortKey> = Vec::new();
    let mut i: usize = 0;
    while i < datas.len()
        invariant
            i <= datas.len(),
            ptr@ == sort_pointer(sort_spec@),
            want == doc_keys(docs_of(datas@), sort_pointer(sort_spec@)),
            keys.len() == i,
            forall|m: int| 0 <= m < i ==> (#[trigger] keys@[m])@ == want[m],
        decreases datas.len() - i,
    {
        let v = datas[i].pointer(ptr.as_str());
        keys.push(key_from(v));
        i = i + 1;
    }
    proof {
        assert(keys_view(keys@) =~= want);
    }
    sort_indices(&keys, desc)
}

/// A permutation of the indices below `n` holds every one of them.
pub proof fn lemma_permutation_holds_all(s: Seq<usize>, n: nat)
    requires
        is_permutation(s, n),
    ensures
        forall|k: usize| k < n ==> #[trigger] s.contains(k),
{
    let t = s.map_values(|x: usize| x as int);
    assert(t.no_duplicates()) by {
        assert forall|i: int, j: int| 0 <= i < j < t.len() implies t[i] != t[j] by {
            assert(s[i] != s[j]);
        }
    }
    t.unique_seq_to_set();
    lemma_int_range(0, n as int);
    assert(t.to_set().subset_of(set_int_range(0, n as int))) by {
        assert forall|x: int| t.to_set().contains(x) implies set_int_range(0, n as int).contains(x) by {
            let i = choose|i: int| 0 <= i < t.len() && t[i] == x;
            assert(s[i] < n);
        }
    }
    assert forall|k: usize| k < n implies #[trigger] s.contains(k) by {
        if !s.contains(k) {
            let r = set_int_range(0, n as int).remove(k as int);
            assert(t.to_set().subset_of(r)) by {
                assert forall|x: int| t.to_set().contains(x) implies r.contains(x) by {
                    let i = choose|i: int| 0 <= i < t.len() && t[i] == x;
                    assert(s[i] as int == x);
                    if x == k {
                        assert(s[i] == k);
                    }
                }
            }
            lemma_len_subset(t.to_set(), r);
        }
    }
}

proof fn lemma_sorted_same(keys: Seq<KeySpec>, desc: bool, a: Seq<usize>, b: Seq<usize>)
    requires
        uniform(keys),
        a.len() == b.len(),
        a.no_duplicates(),
        b.no_duplicates(),
        forall|k: int| 0 <= k < a.len() ==> #[trigger] a[k] < keys.len(),
        forall|k: int| 0 <= k < b.len() ==> #[trigger] b[k] < keys.len(),
        forall|x: usize| a.contains(x) <==> b.contains(x),
        sorted_by(keys, desc, a),
        sorted_by(keys, desc, b),
    ensures
        a == b,
    decreases a.len(),
{
    if a.len() > 0 {
        assert(b.contains(a[0]));
        let j = choose|j: int| 0 <= j < b.len() && b[j] == a[0];
        if j > 0 {
            assert(goes_before(keys, desc, b[0] as int, b[j] as int));
            assert(a.contains(b[0]));
            let i = choose|i: int| 0 <= i < a.len() && a[i] == b[0];
            assert(i != 0);
            assert(goes_before(keys, desc, a[0] as int, a[i] as int));
            lemma_before_total(keys, desc, a[0] as int, b[0] as int);
        }
        assert(a[0] == b[0]);
        let a2 = a.drop_first();
        let b2 = b.drop_first();
        assert forall|x: usize| a2.contains(x) <==> b2.contains(x) by {
            if a2.contains(x) {
                let i = choose|i: int| 0 <= i < a2.len() && a2[i] == x;
                assert(a[i + 1] == x);
                assert(b.contains(x));
                let k = choose|k: int| 0 <= k < b.len() && b[k] == x;
                assert(k != 0);
                assert(b2[k - 1] == x);
            }
            if b2.contains(x) {
                let i = choose|i: int| 0 <= i < b2.len() && b2[i] == x;
                assert(b[i + 1] == x);
                assert(a.contains(x));
                let k = choose|k: int| 0 <= k < a.len() && a[k] == x;
                assert(k != 0);
                assert(a2[k - 1] == x);
            }
        }
        assert(sorted_by(keys, desc, a2)) by {
            assert forall|i: int, j: int| 0 <= i < j < a2.len() implies #[trigger] goes_before(
                keys,
                desc,
                a2[i] as int,
                a2[j] as int,
            ) by {
                assert(goes_before(keys, desc, a[i + 1] as int, a[j + 1] as int));
            }
        }
        assert(sorted_by(keys, desc, b2)) by {
            assert forall|i: int, j: int| 0 <= i < j < b2.len() implies #[trigger] goes_before(
                keys,
                desc,
                b2[i] as int,
                b2[j] as int,
            ) by {
                assert(goes_before(keys, desc, b[i + 1] as int, b[j + 1] as int));
            }
        }
        lemma_sorted_same(keys, desc, a2, b2);
        assert(a =~= b) by {
            assert forall|i: int| 0 <= i < a.len() implies a[i] == b[i] by {
                if i > 0 {
                    assert(a[i] == a2[i - 1]);
                    assert(b[i] == b2[i - 1]);
                }
            }
        }
    } else {
        assert(a =~= b);
    }
}

/// Where the keys present are of one kind, a stable sort has one outcome:
/// two orders of all the indices that are both sorted are the same.
pub proof fn law_sort_unique(keys: Seq<KeySpec>, desc: bool, a: Seq<usize>, b: Seq<usize>)
    requires
        uniform(keys),
        is_permutation(a, keys.len()),
        is_permutation(b, keys.len()),
        sorted_by(keys, desc, a),
        sorted_by(keys, desc, b),
    ensures
        a == b,
{
    lemma_permutation_holds_all(a, keys.len());
    lemma_permutation_holds_all(b, keys.len());
    assert forall|x: usize| a.contains(x) <==> b.contains(x) by {
        if a.contains(x) {
            let i = choose|i: int| 0 <= i < a.len() && a[i] == x;
            assert(a[i] < keys.len());
            assert(b.contains(x));
        }
        if b.contains(x) {
            let i = choose|i: int| 0 <= i < b.len() && b[i] == x;
            assert(b[i] < keys.len());
            assert(a.contains(x));
        }
    }
    lemma_sorted_same(keys, desc, a, b);
}

/// A record without the value goes after every record with one.
pub proof fn law_missing_last(k: KeySpec)
    requires
        !(k is Missing),
    ensures
        key_order(k, KeySpec::Missing) == Order::Less,
        key_order(KeySpec::Missing, k) == Order::Greater,
{
}

proof fn lemma_bit_len_mono(a: nat, b: nat)
    requires
        a <= b,
    ensures
        bit_len(a) <= bit_len(b),
    decreases b,
{
    if a > 0 {
        lemma_bit_len_mono(a / 2, b / 2);
    }
}

proof fn lemma_significand_range(u: nat, e: nat)
    requires
        pow2(e) <= u < pow2(e + 1),
    ensures
        pow2(52) <= rounded_significand(u, e) <= pow2(53),
        e <= 52 ==> rounded_significand(u, e) < pow2(53),
{
    if e <= 52 {
        let p = pow2((52 - e) as nat);
        lemma_pow2_pos((52 - e) as nat);
        lemma_pow2_adds(e, (52 - e) as nat);
        lemma_pow2_adds(e + 1, (52 - e) as nat);
        assert(pow2(e) * p <= u * p < pow2(e + 1) * p) by (nonlinear_arith)
            requires
                pow2(e) <= u < pow2(e + 1),
                p > 0,
        ;
    } else {
        let s = (e - 52) as nat;
        let p = pow2(s);
        lemma_pow2_adds(52, s);
        lemma_pow2_adds(53, s);
        lemma_pow2_pos(s);
        let q = u / p;
        assert(pow2(52) <= q < pow2(53)) by (nonlinear_arith)
            requires
                pow2(52) * p <= u < pow2(53) * p,
                q == u / p,
                p > 0,
        ;
    }
}

proof fn lemma_significand_mono(u: nat, v: nat, e: nat)
    requires
        pow2(e) <= u <= v < pow2(e + 1),
    ensures
        rounded_significand(u, e) <= rounded_significand(v, e),
        e <= 52 && u < v ==> rounded_significand(u, e) < rounded_significand(v, e),
{
    if e <= 52 {
        let p = pow2((52 - e) as nat);
        lemma_pow2_pos((52 - e) as nat);
        assert(u * p <= v * p) by (nonlinear_arith)
            requires
                u <= v,
                p > 0,
        ;
        if u < v {
            assert(u * p < v * p) by (nonlinear_arith)
                requires
                    u < v,
                    p > 0,
            ;
        }
    } else {
        let s = (e - 52) as nat;
        let p = pow2(s);
        lemma_pow2_pos(s);
        let qu = u / p;
        let qv = v / p;
        let ru = u % p;
        let rv = v % p;
        assert(qu <= qv && u == qu * p + ru && v == qv * p + rv && 0 <= ru < p && 0 <= rv < p)
            by (nonlinear_arith)
            requires
                u <= v,
                p > 0,
                qu == u / p,
                qv == v / p,
                ru == u % p,
                rv == v % p,
        ;
        if qu == qv {
            assert(ru <= rv) by (nonlinear_arith)
                requires
                    u == qu * p + ru,
                    v == qv * p + rv,
                    qu == qv,
                    u <= v,
            ;
        }
    }
}

/// Non-negative integers keep their order through the rounding to `f64`.
pub proof fn law_int_keys_monotone(a: nat, b: nat)
    requires
        a <= b < pow2(64),
    ensures
        u64_float_key(a) <= u64_float_key(b),
{
    lemma2_to64();
    lemma2_to64_rest();
    if a > 0 {
        lemma_bit_len_mono(a, b);
        lemma_bit_len_bounds(a);
        lemma_bit_len_bounds(b);
        let ea = (bit_len(a) - 1) as nat;
        let eb = (bit_len(b) - 1) as nat;
        lemma_significand_range(a, ea);
        lemma_significand_range(b, eb);
        if ea == eb {
            lemma_significand_mono(a, b, ea);
        }
    } else {
        if b > 0 {
            lemma_bit_len_bounds(b);
            lemma_significand_range(b, (bit_len(b) - 1) as nat);
        }
    }
}

/// Non-negative integers up to `2^53` have distinct `f64` values, in the
/// same order.
pub proof fn law_int_keys_exact(a: nat, b: nat)
    requires
        a < b <= pow2(53),
    ensures
        u64_float_key(a) < u64_float_key(b),
{
    lemma2_to64();
    lemma2_to64_rest();
    lemma_bit_len_bounds(b);
    lemma_significand_range(b, (bit_len(b) - 1) as nat);
    if a > 0 {
        lemma_bit_len_mono(a, b);
        lemma_bit_len_bounds(a);
        let ea = (bit_len(a) - 1) as nat;
        let eb = (bit_len(b) - 1) as nat;
        if ea > 52 {
            lemma_pow2_strictly_increases(53, ea);
        }
        lemma_significand_range(a, ea);
        if ea == eb {
            lemma_significand_mono(a, b, ea);
        }
    }
}

} // verus!
