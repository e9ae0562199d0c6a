//! Decimal encoding and parsing of database and event values, event field
//! lookup, currency checks, and the text of the event error reports.
use vstd::prelude::*;
use vstd::string::*;
use vstd::utf8::*;
use crate::config::{ASCII_0, ASCII_9, ASCII_NEG, STR_NULL, Currency, UserData};

verus! {

// ---------------------------------------------------------------------------
// Mathematical model of decimal text
// ---------------------------------------------------------------------------

/// An ASCII decimal digit.
pub open spec fn is_digit(c: u8) -> bool {
    ASCII_0 <= c <= ASCII_9
}

pub open spec fn all_digits(s: Seq<u8>) -> bool {
    forall|i: int| 0 <= i < s.len() ==> is_digit(#[trigger] s[i])
}

pub open spec fn digit_value(c: u8) -> nat {
    (c - ASCII_0) as nat
}

/// The number that a string of decimal digits denotes (leading zeros allowed,
/// the empty string denotes 0).
pub open spec fn decimal_value(s: Seq<u8>) -> nat
    decreases s.len(),
{
    if s.len() == 0 {
        0
    } else {
        decimal_value(s.drop_last()) * 10 + digit_value(s.last())
    }
}

/// The shortest decimal representation of `n`.
pub open spec fn decimal_digits(n: nat) -> Seq<u8>
    decreases n,
{
    if n < 10 {
        seq![(n + ASCII_0) as u8]
    } else {
        decimal_digits(n / 10).push((n % 10 + ASCII_0) as u8)
    }
}

/// `v`, cut down to `max` when larger.
pub open spec fn saturate(v: int, max: int) -> int {
    if v > max {
        max
    } else {
        v
    }
}

/// What `to_u32` gives back for the text `s`.
pub open spec fn spec_to_u32(s: Seq<u8>) -> Option<u32> {
    if all_digits(s) {
        Some(saturate(decimal_value(s) as int, u32::MAX as int) as u32)
    } else {
        None
    }
}

/// What `to_u64` gives back for the text `s`.
pub open spec fn spec_to_u64(s: Seq<u8>) -> Option<u64> {
    if all_digits(s) {
        Some(saturate(decimal_value(s) as int, u64::MAX as int) as u64)
    } else {
        None
    }
}

/// Whether the text starts with a minus sign.
pub open spec fn is_negative_text(s: Seq<u8>) -> bool {
    s.len() > 0 && s[0] == ASCII_NEG
}

/// The digits of a possibly signed number.
pub open spec fn magnitude_text(s: Seq<u8>) -> Seq<u8> {
    if is_negative_text(s) {
        s.drop_first()
    } else {
        s
    }
}

/// The value of a possibly signed decimal text whose magnitude saturates at `max`.
pub open spec fn signed_value(s: Seq<u8>, max: int) -> int {
    let m = saturate(decimal_value(magnitude_text(s)) as int, max);
    if is_negative_text(s) {
        -m
    } else {
        m
    }
}

/// What `to_i32` gives back for the text `s`.
pub open spec fn spec_to_i32(s: Seq<u8>) -> Option<i32> {
    if all_digits(magnitude_text(s)) {
        Some(signed_value(s, i32::MAX as int) as i32)
    } else {
        None
    }
}

/// What `to_i64` gives back for the text `s`.
pub open spec fn spec_to_i64(s: Seq<u8>) -> Option<i64> {
    if all_digits(magnitude_text(s)) {
        Some(signed_value(s, i64::MAX as int) as i64)
    } else {
        None
    }
}

/// What `to_bool` gives back for the text `s`.
pub open spec fn spec_to_bool(s: Seq<u8>) -> Option<bool> {
    if s == "true".spec_bytes() || s == "1".spec_bytes() {
        Some(true)
    } else if s == "false".spec_bytes() || s == "0".spec_bytes() {
        Some(false)
    } else {
        None
    }
}

// ---------------------------------------------------------------------------
// Lemmas about the model
// ---------------------------------------------------------------------------

proof fn lemma_saturated_step(v: int, d: int, max: int)
    requires
        0 <= v,
        0 <= d <= 9,
        9 <= max,
    ensures
        saturate(saturate(saturate(v, max) * 10, max) + d, max) == saturate(v * 10 + d, max),
{
}

proof fn lemma_decimal_value_push(s: Seq<u8>, c: u8)
    ensures
        decimal_value(s.push(c)) == decimal_value(s) * 10 + digit_value(c),
{
    assert(s.push(c).drop_last() =~= s);
}

proof fn lemma_decimal_digits_valid(n: nat)
    ensures
        all_digits(decimal_digits(n)),
        decimal_digits(n).len() >= 1,
        decimal_value(decimal_digits(n)) == n,
    decreases n,
{
    if n < 10 {
        let c = (n + ASCII_0) as u8;
        assert(c == n + 48);
        assert(decimal_digits(n) =~= Seq::<u8>::empty().push(c));
        lemma_decimal_value_push(Seq::<u8>::empty(), c);
        assert(decimal_value(Seq::<u8>::empty()) == 0);
    } else {
        lemma_decimal_digits_valid(n / 10);
        let d = decimal_digits(n / 10);
        let c = (n % 10 + ASCII_0) as u8;
        assert(c == n % 10 + 48);
        lemma_decimal_value_push(d, c);
        assert(decimal_value(d.push(c)) == (n / 10) * 10 + n % 10);
        assert forall|i: int| 0 <= i < d.push(c).len() implies is_digit(#[trigger] d.push(c)[i]) by {
            if i < d.len() {
                assert(d.push(c)[i] == d[i]);
            }
        }
    }
}

/// Law: `to_u64` reads back what `push_u64` writes.
pub proof fn law_u64_text_roundtrip(n: u64)
    ensures
        spec_to_u64(decimal_digits(n as nat)) == Some(n),
{
    lemma_decimal_digits_valid(n as nat);
}

/// Law: `to_u32` reads back the decimal text of every `u32`, and reads the
/// decimal text of any larger number as `u32::MAX`.
pub proof fn law_u32_text_roundtrip(n: nat)
    ensures
        n <= u32::MAX ==> spec_to_u32(decimal_digits(n)) == Some(n as u32),
        n > u32::MAX ==> spec_to_u32(decimal_digits(n)) == Some(u32::MAX),
{
    lemma_decimal_digits_valid(n);
}

/// Law: `to_i64` reads a minus sign followed by the decimal text of `n` as `-n`.
pub proof fn law_i64_negative_text(n: u64)
    requires
        n <= i64::MAX,
    ensures
        spec_to_i64(seq![ASCII_NEG].add(decimal_digits(n as nat))) == Some(-(n as int) as i64),
{
    lemma_decimal_digits_valid(n as nat);
    let s = seq![ASCII_NEG].add(decimal_digits(n as nat));
    assert(s.drop_first() =~= decimal_digits(n as nat));
}

/// The decimal text of an integer, with a minus sign when negative.
pub open spec fn int_text(i: int) -> Seq<u8> {
    if i < 0 {
        seq![ASCII_NEG] + decimal_digits((-i) as nat)
    } else {
        decimal_digits(i as nat)
    }
}

/// Law: `to_i64` reads back the decimal text of every `i64` but the least.
pub proof fn law_i64_text_roundtrip(i: i64)
    requires
        i > i64::MIN,
    ensures
        spec_to_i64(int_text(i as int)) == Some(i),
{
    if i < 0 {
        law_i64_negative_text((-i) as u64);
    } else {
        lemma_decimal_digits_valid(i as nat);
        let d = decimal_digits(i as nat);
        assert(is_digit(d[0]));
        assert(!is_negative_text(d));
    }
}

/// Law: `to_i32` reads back the decimal text of every `i32` but the least.
pub proof fn law_i32_text_roundtrip(i: i32)
    requires
        i > i32::MIN,
    ensures
        spec_to_i32(int_text(i as int)) == Some(i),
{
    if i < 0 {
        let n = (-i) as nat;
        lemma_decimal_digits_valid(n);
        let s = seq![ASCII_NEG] + decimal_digits(n);
        assert(s.drop_first() =~= decimal_digits(n));
    } else {
        lemma_decimal_digits_valid(i as nat);
        let d = decimal_digits(i as nat);
        assert(is_digit(d[0]));
        assert(!is_negative_text(d));
    }
}

// ---------------------------------------------------------------------------
// Decimal encoding
// ---------------------------------------------------------------------------

/// Appends the decimal text of `i` to `mem`.
pub fn push_u64(mem: &mut Vec<u8>, i: u64)
    ensures
        final(mem)@ == old(mem)@ + decimal_digits(i as nat),
    decreases i,
{
    if i >= 10 {
        push_u64(mem, i / 10);
    }
    mem.push(((i % 10) as u8) + ASCII_0);
    proof {
        if i < 10 {
            assert(decimal_digits(i as nat) =~= seq![(i + ASCII_0) as u8]);
        }
    }
}

/// Appends `bytes` to `stack`.
fn extend_bytes(stack: &mut Vec<u8>, bytes: &[u8])
    ensures
        final(stack)@ == old(stack)@ + bytes@,
{
    let mut i: usize = 0;
    while i < bytes.len()
        invariant
            i <= bytes@.len(),
            stack@ == old(stack)@ + bytes@.take(i as int),
        decreases bytes@.len() - i,
    {
        stack.push(bytes[i]);
        assert(bytes@.take(i as int + 1) =~= bytes@.take(i as int).push(bytes@[i as int]));
        i = i + 1;
    }
    assert(bytes@.take(i as int) =~= bytes@);
}

/// Appends `prefix` and the decimal text of `i` to `stack`, and returns the
/// appended bytes.
pub fn push_u64_prefix(stack: &mut Vec<u8>, prefix: &str, i: u64) -> (r: Vec<u8>)
    ensures
        r@ == prefix.spec_bytes() + decimal_digits(i as nat),
        final(stack)@ == old(stack)@ + r@,
{
    let mut out: Vec<u8> = Vec::new();
    extend_bytes(&mut out, prefix.as_bytes());
    push_u64(&mut out, i);
    extend_bytes(stack, out.as_slice());
    out
}

/// Appends `src` to `stack`, and returns the appended bytes.
pub fn push_u8s(stack: &mut Vec<u8>, src: &[u8]) -> (r: Vec<u8>)
    ensures
        r@ == src@,
        final(stack)@ == old(stack)@ + src@,
{
    let mut out: Vec<u8> = Vec::new();
    extend_bytes(&mut out, src);
    extend_bytes(stack, src);
    out
}

// ---------------------------------------------------------------------------
// Decimal parsing
// ---------------------------------------------------------------------------

/// Reads a string of decimal digits; a value too large for `u32` saturates.
/// Any other byte makes it fail.
pub fn to_u32(mem: &[u8]) -> (r: Option<u32>)
    ensures
        r == spec_to_u32(mem@),
{
    let mut i: u32 = 0;
    let mut k: usize = 0;
    while k < mem.len()
        invariant
            k <= mem@.len(),
            all_digits(mem@.take(k as int)),
            i == saturate(decimal_value(mem@.take(k as int)) as int, u32::MAX as int),
        decreases mem@.len() - k,
    {
        let c = mem[k];
        if c >= ASCII_0 && c <= ASCII_9 {
            proof {
                let p = mem@.take(k as int);
                assert(mem@.take(k as int + 1) =~= p.push(c));
                lemma_decimal_value_push(p, c);
                lemma_saturated_step(decimal_value(p) as int, digit_value(c) as int, u32::MAX as int);
                assert forall|j: int| 0 <= j < p.push(c).len() implies is_digit(#[trigger] p.push(c)[j]) by {
                    if j < p.len() {
                        assert(p.push(c)[j] == p[j]);
                    }
                }
            }
            i = match i.checked_mul(10) {
                Some(p) => p,
                None => u32::MAX,
            };
            i = i.saturating_add((c - ASCII_0) as u32);
            k = k + 1;
        } else {
            proof {
                assert(!is_digit(mem@[k as int]));
            }
            return None;
        }
    }
    assert(mem@.take(k as int) =~= mem@);
    Some(i)
}

/// Reads a string of decimal digits; a value too large for `u64` saturates.
/// Any other byte makes it fail.
pub fn to_u64(mem: &[u8]) -> (r: Option<u64>)
    ensures
        r == spec_to_u64(mem@),
{
    let mut i: u64 = 0;
    let mut k: usize = 0;
    while k < mem.len()
        invariant
            k <= mem@.len(),
            all_digits(mem@.take(k as int)),
            i == saturate(decimal_value(mem@.take(k as int)) as int, u64::MAX as int),
        decreases mem@.len() - k,
    {
        let c = mem[k];
        if c >= ASCII_0 && c <= ASCII_9 {
            proof {
                let p = mem@.take(k as int);
                assert(mem@.take(k as int + 1) =~= p.push(c));
                lemma_decimal_value_push(p, c);
                lemma_saturated_step(decimal_value(p) as int, digit_value(c) as int, u64::MAX as int);
                assert forall|j: int| 0 <= j < p.push(c).len() implies is_digit(#[trigger] p.push(c)[j]) by {
                    if j < p.len() {
                        assert(p.push(c)[j] == p[j]);
                    }
                }
            }
            i = match i.checked_mul(10) {
                Some(p) => p,
                None => u64::MAX,
            };
            i = i.saturating_add((c - ASCII_0) as u64);
            k = k + 1;
        } else {
            proof {
                assert(!is_digit(mem@[k as int]));
            }
            return None;
        }
    }
    assert(mem@.take(k as int) =~= mem@);
    Some(i)
}

/// Reads the digits `mem[start..]`, saturating at `max`; `None` at the first
/// byte that is not a digit.
fn read_magnitude(mem: &[u8], start: usize, max: u64) -> (r: Option<u64>)
    requires
        start <= mem@.len(),
        9 <= max,
    ensures
        r == (if all_digits(mem@.skip(start as int)) {
            Some(saturate(decimal_value(mem@.skip(start as int)) as int, max as int) as u64)
        } else {
            None::<u64>
        }),
{
    let ghost t = mem@.skip(start as int);
    let mut i: u64 = 0;
    let mut k: usize = start;
    while k < mem.len()
        invariant
            start <= k <= mem@.len(),
            9 <= max,
            t == mem@.skip(start as int),
            all_digits(t.take(k - start)),
            i == saturate(decimal_value(t.take(k - start)) as int, max as int),
        decreases mem@.len() - k,
    {
        let c = mem[k];
        if c >= ASCII_0 && c <= ASCII_9 {
            proof {
                let p = t.take(k - start);
                assert(t.take(k - start + 1) =~= p.push(c));
                lemma_decimal_value_push(p, c);
                lemma_saturated_step(decimal_value(p) as int, digit_value(c) as int, max as int);
                assert forall|j: int| 0 <= j < p.push(c).len() implies is_digit(#[trigger] p.push(c)[j]) by {
                    if j < p.len() {
                        assert(p.push(c)[j] == p[j]);
                    }
                }
            }
            let d = (c - ASCII_0) as u64;
            let m = if i > max / 10 { max } else { i * 10 };
            i = if m > max - d { max } else { m + d };
            k = k + 1;
        } else {
            proof {
                assert(t[k - start] == mem@[k as int]);
                assert(!is_digit(t[k - start]));
            }
            return None;
        }
    }
    assert(t.take(k - start) =~= t);
    Some(i)
}

/// Reads an optionally negative decimal number; a magnitude too large for
/// `i32` saturates at `i32::MAX`. The text must not be empty.
pub fn to_i32(mem: &[u8]) -> (r: Option<i32>)
    requires
        mem@.len() > 0,
    ensures
        r == spec_to_i32(mem@),
{
    let s: usize = if mem[0] == ASCII_NEG { 1 } else { 0 };
    proof {
        assert(magnitude_text(mem@) =~= mem@.skip(s as int));
    }
    match read_magnitude(mem, s, 2147483647) {
        Some(m) => {
            let v = m as i32;
            if s == 1 {
                Some(-v)
            } else {
                Some(v)
            }
        },
        None => None,
    }
}

/// Reads an optionally negative decimal number; a magnitude too large for
/// `i64` saturates at `i64::MAX`. The text must not be empty.
pub fn to_i64(mem: &[u8]) -> (r: Option<i64>)
    requires
        mem@.len() > 0,
    ensures
        r == spec_to_i64(mem@),
{
    let s: usize = if mem[0] == ASCII_NEG { 1 } else { 0 };
    proof {
        assert(magnitude_text(mem@) =~= mem@.skip(s as int));
    }
    match read_magnitude(mem, s, 9223372036854775807) {
        Some(m) => {
            let v = m as i64;
            if s == 1 {
                Some(-v)
            } else {
                Some(v)
            }
        },
        None => None,
    }
}

/// Byte-wise equality of two byte strings.
pub fn bytes_eq(a: &[u8], b: &[u8]) -> (r: bool)
    ensures
        r == (a@ == b@),
{
    if a.len() != b.len() {
        return false;
    }
    let mut i: usize = 0;
    while i < a.len()
        invariant
            a@.len() == b@.len(),
            i <= a@.len(),
            forall|j: int| 0 <= j < i ==> a@[j] == b@[j],
        decreases a@.len() - i,
    {
        if a[i] != b[i] {
            return false;
        }
        i = i + 1;
    }
    assert(a@ =~= b@);
    true
}

/// Reads `true`/`1` and `false`/`0`.
pub fn to_bool(mem: &[u8]) -> (r: Option<bool>)
    ensures
        r == spec_to_bool(mem@),
{
    if bytes_eq(mem, "true".as_bytes()) || bytes_eq(mem, "1".as_bytes()) {
        Some(true)
    } else if bytes_eq(mem, "false".as_bytes()) || bytes_eq(mem, "0".as_bytes()) {
        Some(false)
    } else {
        None
    }
}

/// Whether a stored text stands for "no value": empty, or `null`.
pub fn is_str_null(mem: &[u8]) -> (r: bool)
    ensures
        r == (mem@.len() == 0 || mem@ == STR_NULL.spec_bytes()),
{
    mem.len() == 0 || bytes_eq(mem, STR_NULL.as_bytes())
}


// ---------------------------------------------------------------------------
// Event fields
// ---------------------------------------------------------------------------

/// The byte strings of a list of borrowed byte strings.
pub open spec fn byte_strs(s: Seq<&[u8]>) -> Seq<Seq<u8>> {
    s.map_values(|b: &[u8]| b@)
}

/// The index of the first entry of `keys` equal to `key`, or -1.
pub open spec fn first_match(keys: Seq<Seq<u8>>, key: Seq<u8>) -> int
    decreases keys.len(),
{
    if keys.len() == 0 {
        -1
    } else {
        let r = first_match(keys.drop_last(), key);
        if r >= 0 {
            r
        } else if keys.last() == key {
            keys.len() - 1
        } else {
            -1
        }
    }
}

/// The value paired with the first occurrence of `key` in an event.
pub open spec fn field_value(keys: Seq<Seq<u8>>, vals: Seq<Seq<u8>>, key: Seq<u8>) -> Option<Seq<u8>> {
    let i = first_match(keys, key);
    if i >= 0 {
        Some(vals[i])
    } else {
        None
    }
}

/// Whether the value of `key`, where present, can be indexed in `vals`.
pub open spec fn field_in_range(keys: Seq<Seq<u8>>, vals: Seq<Seq<u8>>, key: Seq<u8>) -> bool {
    first_match(keys, key) < vals.len()
}

/// Finds the value of the first field named `key`.
pub fn find_field_u8s<'a>(key: &str, keys: &[&[u8]], vals: &[&'a [u8]]) -> (r: Option<&'a [u8]>)
    requires
        field_in_range(byte_strs(keys@), byte_strs(vals@), key.spec_bytes()),
    ensures
        r matches Some(v) ==> field_value(byte_strs(keys@), byte_strs(vals@), key.spec_bytes()) == Some(v@),
        r is None ==> field_value(byte_strs(keys@), byte_strs(vals@), key.spec_bytes()) is None,
{
    let k = key.as_bytes();
    let ghost ks = byte_strs(keys@);
    let mut i: usize = 0;
    while i < keys.len()
        invariant
            i <= keys@.len(),
            ks == byte_strs(keys@),
            k@ == key.spec_bytes(),
            first_match(ks.take(i as int), k@) == -1,
            field_in_range(byte_strs(keys@), byte_strs(vals@), key.spec_bytes()),
        decreases keys@.len() - i,
    {
        proof {
            assert(ks.take(i as int + 1).drop_last() =~= ks.take(i as int));
        }
        if bytes_eq(k, keys[i]) {
            proof {
                assert(ks.take(i as int + 1).last() == keys@[i as int]@);
                assert(first_match(ks.take(i as int + 1), k@) == i);
                lemma_first_match_prefix(ks, k@, i as int + 1);
                assert(byte_strs(vals@).len() == vals@.len());
            }
            return Some(vals[i]);
        }
        i = i + 1;
    }
    proof {
        assert(ks.take(i as int) =~= ks);
    }
    None
}

proof fn lemma_first_match_prefix(keys: Seq<Seq<u8>>, key: Seq<u8>, n: int)
    requires
        0 <= n <= keys.len(),
        first_match(keys.take(n), key) >= 0,
    ensures
        first_match(keys, key) == first_match(keys.take(n), key),
    decreases keys.len() - n,
{
    if n < keys.len() {
        assert(keys.take(n + 1).drop_last() =~= keys.take(n));
        lemma_first_match_prefix(keys, key, n + 1);
    } else {
        assert(keys.take(n) =~= keys);
    }
}

/// Outcome of looking up and parsing an event field.
#[derive(PartialEq, Eq, Structural, Debug)]
pub enum FieldParse<T> {
    /// The event has no such field.
    Missing,
    /// The field is present but its value does not parse.
    Invalid,
    Found(T),
}

impl<T> FieldParse<T> {
    /// The parsed value, if any.
    pub fn value(self) -> (r: Option<T>)
        ensures
            r == (match self {
                FieldParse::Found(v) => Some(v),
                _ => None,
            }),
    {
        match self {
            FieldParse::Found(v) => Some(v),
            _ => None,
        }
    }
}

/// What a field lookup gives when the value is parsed by `parse`.
pub open spec fn field_parse<T>(found: Option<Seq<u8>>, parse: spec_fn(Seq<u8>) -> Option<T>) -> FieldParse<T> {
    match found {
        None => FieldParse::Missing,
        Some(v) => match parse(v) {
            Some(x) => FieldParse::Found(x),
            None => FieldParse::Invalid,
        },
    }
}

/// Looks up a field and reads it as a boolean.
pub fn find_field_bool(key: &str, keys: &[&[u8]], vals: &[&[u8]]) -> (r: FieldParse<bool>)
    requires
        field_in_range(byte_strs(keys@), byte_strs(vals@), key.spec_bytes()),
    ensures
        r == field_parse(field_value(byte_strs(keys@), byte_strs(vals@), key.spec_bytes()), |s| spec_to_bool(s)),
{
    match find_field_u8s(key, keys, vals) {
        Some(raw) => match to_bool(raw) {
            Some(i) => FieldParse::Found(i),
            None => FieldParse::Invalid,
        },
        None => FieldParse::Missing,
    }
}

/// Looks up a field and reads it as a `u32`.
pub fn find_field_u32(key: &str, keys: &[&[u8]], vals: &[&[u8]]) -> (r: FieldParse<u32>)
    requires
        field_in_range(byte_strs(keys@), byte_strs(vals@), key.spec_bytes()),
    ensures
        r == field_parse(field_value(byte_strs(keys@), byte_strs(vals@), key.spec_bytes()), |s| spec_to_u32(s)),
{
    match find_field_u8s(key, keys, vals) {
        Some(raw) => match to_u32(raw) {
            Some(i) => FieldParse::Found(i),
            None => FieldParse::Invalid,
        },
        None => FieldParse::Missing,
    }
}

/// Looks up a field and reads it as a `u64`.
pub fn find_field_u64(key: &str, keys: &[&[u8]], vals: &[&[u8]]) -> (r: FieldParse<u64>)
    requires
        field_in_range(byte_strs(keys@), byte_strs(vals@), key.spec_bytes()),
    ensures
        r == field_parse(field_value(byte_strs(keys@), byte_strs(vals@), key.spec_bytes()), |s| spec_to_u64(s)),
{
    match find_field_u8s(key, keys, vals) {
        Some(raw) => match to_u64(raw) {
            Some(i) => FieldParse::Found(i),
            None => FieldParse::Invalid,
        },
        None => FieldParse::Missing,
    }
}

/// Whether the value of `key`, where present, is not empty (reading an empty
/// value as a signed number is not defined).
pub open spec fn field_nonempty(keys: Seq<Seq<u8>>, vals: Seq<Seq<u8>>, key: Seq<u8>) -> bool {
    field_value(keys, vals, key) matches Some(v) ==> v.len() > 0
}

/// Looks up a field and reads it as an `i32`.
pub fn find_field_i32(key: &str, keys: &[&[u8]], vals: &[&[u8]]) -> (r: FieldParse<i32>)
    requires
        field_in_range(byte_strs(keys@), byte_strs(vals@), key.spec_bytes()),
        field_nonempty(byte_strs(keys@), byte_strs(vals@), key.spec_bytes()),
    ensures
        r == field_parse(field_value(byte_strs(keys@), byte_strs(vals@), key.spec_bytes()), |s| spec_to_i32(s)),
{
    match find_field_u8s(key, keys, vals) {
        Some(raw) => match to_i32(raw) {
            Some(i) => FieldParse::Found(i),
            None => FieldParse::Invalid,
        },
        None => FieldParse::Missing,
    }
}

// ---------------------------------------------------------------------------
// Currency rules
// ---------------------------------------------------------------------------

/// A user's balance in the given currency.
pub open spec fn balance(user: UserData, currency: Currency) -> int {
    match currency {
        Currency::CHEESE => user.cheese as int,
        Currency::GEMS => user.gems as int,
    }
}

/// What `check_user_saturating_currency` returns: when the two changes
/// together do not take anything away, `sat_delta` unchanged; otherwise,
/// provided the balance covers `cancel_delta`, the largest change no smaller
/// than `sat_delta` that keeps the balance non-negative; otherwise `(0, false)`.
pub open spec fn saturating_delta(total: int, sat_delta: int, cancel_delta: int) -> (int, bool) {
    if sat_delta + cancel_delta >= 0 {
        (sat_delta, true)
    } else if total + cancel_delta >= 0 {
        (if sat_delta < -(total + cancel_delta) { -(total + cancel_delta) } else { sat_delta }, true)
    } else {
        (0, false)
    }
}

/// `sat_delta` is the amount being added to the currency. Returns the largest
/// such amount that does not set the user's balance negative once
/// `cancel_delta` is applied too, or `false` when the balance cannot cover
/// `cancel_delta`.
pub fn check_user_saturating_currency(user: &UserData, currency: Currency, sat_delta: i32, cancel_delta: i32) -> (r: (i32, bool))
    ensures
        (r.0 as int, r.1) == saturating_delta(balance(*user, currency), sat_delta as int, cancel_delta as int),
{
    if (sat_delta as i64) + (cancel_delta as i64) >= 0 {
        (sat_delta, true)
    } else {
        let total: i64 = match currency {
            Currency::CHEESE => user.cheese,
            Currency::GEMS => user.gems,
        };
        let unconditional_total: i128 = (total as i128) + (cancel_delta as i128);
        if unconditional_total >= 0 {
            let new_sat_delta: i128 = if (sat_delta as i128) < -unconditional_total {
                -unconditional_total
            } else {
                sat_delta as i128
            };
            (new_sat_delta as i32, true)
        } else {
            (0, false)
        }
    }
}

/// Whether the balance stays non-negative after adding `cancel_delta` (or
/// the change takes nothing away).
pub fn check_user_has_enough_currency(user: &UserData, currency: Currency, cancel_delta: i32) -> (r: bool)
    ensures
        r == (cancel_delta >= 0 || balance(*user, currency) + cancel_delta >= 0),
{
    let total: i64 = match currency {
        Currency::CHEESE => user.cheese,
        Currency::GEMS => user.gems,
    };
    (cancel_delta >= 0) || ((total as i128) + (cancel_delta as i128) >= 0)
}

/// Law: a granted saturated change never makes the balance negative, never
/// takes away more than asked, and is cut short only down to an empty balance.
pub proof fn law_saturation_keeps_balance(total: int, sat_delta: int, cancel_delta: int)
    requires
        sat_delta + cancel_delta < 0,
        saturating_delta(total, sat_delta, cancel_delta).1,
    ensures
        ({
            let d = saturating_delta(total, sat_delta, cancel_delta).0;
            &&& total + cancel_delta + d >= 0
            &&& d >= sat_delta
            &&& d == sat_delta || total + cancel_delta + d == 0
        }),
{
}



// ---------------------------------------------------------------------------
// Error report text
// ---------------------------------------------------------------------------

/// Names the text that std's `String::from_utf8_lossy` makes of a byte string.
pub uninterp spec fn utf8_lossy(bytes: Seq<u8>) -> Seq<char>;

/// Calls std's `String::from_utf8_lossy`. Trusted: the result is the text
/// named `utf8_lossy` of the bytes, and, as std documents, the decoded text
/// itself when the bytes are valid UTF-8.
#[verifier::external_body]
pub(crate) fn lossy(bytes: &[u8]) -> (r: String)
    ensures
        r@ == utf8_lossy(bytes@),
        valid_utf8(bytes@) ==> r@ == decode_utf8(bytes@),
{
    String::from_utf8_lossy(bytes).into_owned()
}

/// Whether the text named `utf8_lossy` of `b` is its decoded text, as it is
/// where `b` is valid UTF-8 (opaque: `reveal` it to use it).
#[verifier::opaque]
pub open spec fn reads_as_decoded(b: Seq<u8>) -> bool {
    valid_utf8(b) ==> utf8_lossy(b) == decode_utf8(b)
}

/// Whether each of the first `keys.len()` keys and values reads as its
/// decoded text where it is valid UTF-8.
pub open spec fn fields_read_as_decoded(keys: Seq<Seq<u8>>, vals: Seq<Seq<u8>>) -> bool {
    forall|i: int| 0 <= i < keys.len() ==> #[trigger] reads_as_decoded(keys[i]) && reads_as_decoded(vals[i])
}

/// The text of the `i`-th key/value pair in an error report.
pub open spec fn kv_entry(keys: Seq<Seq<u8>>, vals: Seq<Seq<u8>>, i: int) -> Seq<char> {
    utf8_lossy(keys[i]) + ":"@ + utf8_lossy(vals[i]) + (if i + 1 == keys.len() {
        "\n}}"@
    } else {
        ",\n"@
    })
}

/// The text of the first `n` key/value pairs in an error report.
pub open spec fn kv_entries(keys: Seq<Seq<u8>>, vals: Seq<Seq<u8>>, n: nat) -> Seq<char>
    decreases n,
{
    if n == 0 {
        Seq::empty()
    } else {
        kv_entries(keys, vals, (n - 1) as nat) + kv_entry(keys, vals, n - 1)
    }
}

/// The listing of an event's fields in an error report.
pub open spec fn kvs_text(keys: Seq<Seq<u8>>, vals: Seq<Seq<u8>>) -> Seq<char> {
    "{{\n"@ + kv_entries(keys, vals, keys.len())
}

/// Appends the listing of an event's fields to `error`.
pub fn push_kvs(error: &mut String, keys: &[&[u8]], vals: &[&[u8]])
    requires
        keys@.len() <= vals@.len(),
    ensures
        final(error)@ == old(error)@ + kvs_text(byte_strs(keys@), byte_strs(vals@)),
        fields_read_as_decoded(byte_strs(keys@), byte_strs(vals@)),
{
    let ghost ks = byte_strs(keys@);
    let ghost vs = byte_strs(vals@);
    let ghost start = error@;
    error.append("{{\n");
    let mut i: usize = 0;
    while i < keys.len()
        invariant
            i <= keys@.len() <= vals@.len(),
            ks == byte_strs(keys@),
            vs == byte_strs(vals@),
            error@ == start + "{{\n"@ + kv_entries(ks, vs, i as nat),
            forall|j: int| 0 <= j < i ==> #[trigger] reads_as_decoded(ks[j]) && reads_as_decoded(vs[j]),
        decreases keys@.len() - i,
    {
        let k = lossy(keys[i]);
        error.append(k.as_str());
        error.append(":");
        let v = lossy(vals[i]);
        error.append(v.as_str());
        if i + 1 == keys.len() {
            error.append("\n}}");
        } else {
            error.append(",\n");
        }
        proof {
            assert(ks[i as int] == keys@[i as int]@);
            assert(vs[i as int] == vals@[i as int]@);
            assert(reads_as_decoded(ks[i as int]) && reads_as_decoded(vs[i as int])) by {
                reveal(reads_as_decoded);
            }
            assert(kv_entries(ks, vs, (i + 1) as nat) == kv_entries(ks, vs, i as nat) + kv_entry(ks, vs, i as int));
            assert(error@ =~= start + "{{\n"@ + kv_entries(ks, vs, (i + 1) as nat));
        }
        proof {
            lemma_read_as_decoded_step(ks, vs, i as int);
        }
        i = i + 1;
    }
    proof {
        lemma_fields_read_as_decoded(ks, vs, i as int);
    }
}

pub proof fn lemma_fields_read_as_decoded(ks: Seq<Seq<u8>>, vs: Seq<Seq<u8>>, n: int)
    requires
        n == ks.len(),
        forall|j: int| 0 <= j < n ==> #[trigger] reads_as_decoded(ks[j]) && reads_as_decoded(vs[j]),
    ensures
        fields_read_as_decoded(ks, vs),
{
}

pub proof fn lemma_read_as_decoded_step(ks: Seq<Seq<u8>>, vs: Seq<Seq<u8>>, i: int)
    requires
        forall|j: int| 0 <= j < i ==> #[trigger] reads_as_decoded(ks[j]) && reads_as_decoded(vs[j]),
        reads_as_decoded(ks[i]),
        reads_as_decoded(vs[i]),
    ensures
        forall|j: int| 0 <= j < i + 1 ==> #[trigger] reads_as_decoded(ks[j]) && reads_as_decoded(vs[j]),
{
}

/// The text of an event error report: `head`, the field name, `tail`, the
/// event's name and id, then the listing of its fields.
pub open spec fn report_text(
    head: Seq<char>,
    field: Seq<char>,
    tail: Seq<char>,
    event_name: Seq<u8>,
    event_uid: Seq<u8>,
    keys: Seq<Seq<u8>>,
    vals: Seq<Seq<u8>>,
) -> Seq<char> {
    head + field + tail + utf8_lossy(event_name) + "' id:'"@ + utf8_lossy(event_uid) + "' contents:"@
        + kvs_text(keys, vals)
}

fn report(
    head: &str,
    field: &str,
    tail: &str,
    event_name: &[u8],
    event_uid: &[u8],
    keys: &[&[u8]],
    vals: &[&[u8]],
) -> (r: String)
    requires
        keys@.len() <= vals@.len(),
    ensures
        r@ == report_text(head@, field@, tail@, event_name@, event_uid@, byte_strs(keys@), byte_strs(vals@)),
        reads_as_decoded(event_name@),
        reads_as_decoded(event_uid@),
        fields_read_as_decoded(byte_strs(keys@), byte_strs(vals@)),
{
    let mut error = String::new();
    error.append(head);
    error.append(field);
    error.append(tail);
    let n = lossy(event_name);
    error.append(n.as_str());
    error.append("' id:'");
    let u = lossy(event_uid);
    error.append(u.as_str());
    proof {
        reveal(reads_as_decoded);
    }
    error.append("' contents:");
    push_kvs(&mut error, keys, vals);
    proof {
        assert(error@ =~= report_text(head@, field@, tail@, event_name@, event_uid@, byte_strs(keys@), byte_strs(vals@)));
    }
    error
}

/// The report sent when an event field had a value that does not parse.
pub fn invalid_value(event_name: &[u8], event_uid: &[u8], keys: &[&[u8]], vals: &[&[u8]], field: &str) -> (r: String)
    requires
        keys@.len() <= vals@.len(),
    ensures
        r@ == report_text(
            "invalid event error: field '"@,
            field@,
            "' had an incorrect value, the event will still be attempted with default values, name:'"@,
            event_name@,
            event_uid@,
            byte_strs(keys@),
            byte_strs(vals@),
        ),
        reads_as_decoded(event_name@),
        reads_as_decoded(event_uid@),
        fields_read_as_decoded(byte_strs(keys@), byte_strs(vals@)),
{
    report(
        "invalid event error: field '",
        field,
        "' had an incorrect value, the event will still be attempted with default values, name:'",
        event_name,
        event_uid,
        keys,
        vals,
    )
}

/// The report sent when an event field names no known user.
pub fn missing_user(event_name: &[u8], event_uid: &[u8], keys: &[&[u8]], vals: &[&[u8]], field: &str) -> (r: String)
    requires
        keys@.len() <= vals@.len(),
    ensures
        r@ == report_text(
            "invalid event error: field '"@,
            field@,
            "' does not identify a known user, event is cancelled, name:'"@,
            event_name@,
            event_uid@,
            byte_strs(keys@),
            byte_strs(vals@),
        ),
        reads_as_decoded(event_name@),
        reads_as_decoded(event_uid@),
        fields_read_as_decoded(byte_strs(keys@), byte_strs(vals@)),
{
    report(
        "invalid event error: field '",
        field,
        "' does not identify a known user, event is cancelled, name:'",
        event_name,
        event_uid,
        keys,
        vals,
    )
}

/// The report sent when an event lacks a field it cannot do without.
pub fn missing_field(event_name: &[u8], event_uid: &[u8], keys: &[&[u8]], vals: &[&[u8]], field: &str) -> (r: String)
    requires
        keys@.len() <= vals@.len(),
    ensures
        r@ == report_text(
            "invalid event error: missing critical field '"@,
            field@,
            "', name:'"@,
            event_name@,
            event_uid@,
            byte_strs(keys@),
            byte_strs(vals@),
        ),
        reads_as_decoded(event_name@),
        reads_as_decoded(event_uid@),
        fields_read_as_decoded(byte_strs(keys@), byte_strs(vals@)),
{
    report(
        "invalid event error: missing critical field '",
        field,
        "', name:'",
        event_name,
        event_uid,
        keys,
        vals,
    )
}

/// The bytes of a text.
pub fn str_to_vec(s: &str) -> (v: Vec<u8>)
    ensures
        v@ == s.spec_bytes(),
{
    let b = s.as_bytes();
    let mut v: Vec<u8> = Vec::new();
    let mut i: usize = 0;
    while i < b.len()
        invariant
            i <= b@.len(),
            v@ == b@.take(i as int),
        decreases b@.len() - i,
    {
        v.push(b[i]);
        assert(b@.take(i as int + 1) =~= b@.take(i as int).push(b@[i as int]));
        i = i + 1;
    }
    assert(b@.take(i as int) =~= b@);
    v
}

/// The bytes of a byte string, copied.
pub fn slice_to_vec(b: &[u8]) -> (v: Vec<u8>)
    ensures
        v@ == b@,
{
    let mut v: Vec<u8> = Vec::new();
    let mut i: usize = 0;
    while i < b.len()
        invariant
            i <= b@.len(),
            v@ == b@.take(i as int),
        decreases b@.len() - i,
    {
        v.push(b[i]);
        assert(b@.take(i as int + 1) =~= b@.take(i as int).push(b@[i as int]));
        i = i + 1;
    }
    assert(b@.take(i as int) =~= b@);
    v
}

} // verus!
