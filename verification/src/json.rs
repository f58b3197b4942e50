//! JSON values.

use vstd::arithmetic::div_mod::lemma_div_denominator;
use vstd::arithmetic::power2::{lemma2_to64, lemma_pow2_adds, lemma_pow2_pos, lemma_pow2_unfold, pow2};
use vstd::prelude::*;
use vstd::string::StringExecFns;

use crate::funding::text_view;
use crate::text::{
    all_digits, chars_of, decimal, decimal_text, decimal_value, hex_digit, lemma_decimal_round_trip,
    same, texts,
};

verus! {

/// JSON number.
#[derive(Clone, Copy, PartialEq, Eq, Structural, Debug)]
pub enum JsonNumber {
    /// A whole number that is not negative.
    Unsigned(u64),
    /// A negative whole number.
    Negative(i64),
    /// Any other number: the bits of the IEEE 754 double that stands for it.
    Double(u64),
}

/// JSON value. An object is the list of its names beside the list of their values.
#[derive(PartialEq, Eq, Debug)]
pub enum JsonValue {
    Null,
    Bool(bool),
    Number(JsonNumber),
    Text(String),
    List(Vec<JsonValue>),
    Object(Vec<String>, Vec<JsonValue>),
}

/// Model of [`JsonValue`].
pub enum Json {
    Null,
    Bool(bool),
    Number(JsonNumber),
    Text(Seq<char>),
    List(Seq<Json>),
    Object(Seq<Seq<char>>, Seq<Json>),
}

/// The model of a value.
pub open spec fn json_view(value: JsonValue) -> Json
    decreases value,
{
    match value {
        JsonValue::Null => Json::Null,
        JsonValue::Bool(b) => Json::Bool(b),
        JsonValue::Number(n) => Json::Number(n),
        JsonValue::Text(s) => Json::Text(s@),
        JsonValue::List(items) => Json::List(
            Seq::new(
                items@.len(),
                |i: int|
                    if 0 <= i < items@.len() {
                        json_view(items@[i])
                    } else {
                        Json::Null
                    },
            ),
        ),
        JsonValue::Object(names, values) => Json::Object(
            texts(names@),
            Seq::new(
                values@.len(),
                |i: int|
                    if 0 <= i < values@.len() {
                        json_view(values@[i])
                    } else {
                        Json::Null
                    },
            ),
        ),
    }
}

/// Outside type: a JSON value as `serde_json` holds it.
#[verifier::external_type_specification]
#[verifier::external_body]
pub struct ExSerdeValue(serde_json::Value);

/// Outside type: a JSON number as `serde_json` holds it.
#[verifier::external_type_specification]
#[verifier::external_body]
pub struct ExSerdeNumber(serde_json::Number);

/// Converts a `serde_json::Number`, whose variants its methods `as_u64`, `as_i64` and `as_f64`
/// tell apart.
#[verifier::external_body]
fn number_of(n: &serde_json::Number) -> JsonNumber {
    match (n.as_u64(), n.as_i64(), n.as_f64()) {
        (Some(u), _, _) => JsonNumber::Unsigned(u),
        (None, Some(i), _) => JsonNumber::Negative(i),
        (None, None, Some(d)) => JsonNumber::Double(d.to_bits()),
        (None, None, None) => JsonNumber::Unsigned(0),
    }
}

/// Converts a `serde_json::Value`, variant by variant.
#[verifier::external_body]
fn value_of(value: serde_json::Value) -> JsonValue {
    match value {
        serde_json::Value::Null => JsonValue::Null,
        serde_json::Value::Bool(b) => JsonValue::Bool(b),
        serde_json::Value::Number(n) => JsonValue::Number(number_of(&n)),
        serde_json::Value::String(s) => JsonValue::Text(s),
        serde_json::Value::Array(items) => JsonValue::List(
            items.into_iter().map(value_of).collect(),
        ),
        serde_json::Value::Object(fields) => {
            let (names, values) = fields.into_iter().map(|(k, v)| (k, value_of(v))).unzip();
            JsonValue::Object(names, values)
        },
    }
}

/// The JSON value that a text writes, or what the parser says of it. Of fields with one name the
/// last counts.
pub uninterp spec fn json_parsed(text: Seq<char>) -> Result<Json, Seq<char>>;

/// Calls `serde_json::from_str` for a `serde_json::Value`. The value, or the error's text, depends
/// on `text` alone.
#[verifier::external_body]
pub fn parse_json(text: &str) -> (r: Result<JsonValue, String>)
    ensures
        json_parsed(text@) == match r {
            Ok(value) => Ok(json_view(value)),
            Err(e) => Err(e@),
        },
{
    match serde_json::from_str::<serde_json::Value>(text) {
        Ok(value) => Ok(value_of(value)),
        Err(e) => Err(e.to_string()),
    }
}

/// The first place of a name in a list from `from` on.
pub open spec fn name_place(names: Seq<Seq<char>>, name: Seq<char>, from: int) -> Option<int>
    decreases names.len() - from,
{
    if from >= names.len() {
        None
    } else if names[from] == name {
        Some(from)
    } else {
        name_place(names, name, from + 1)
    }
}

/// Where a name stands, it stands behind where the search began.
pub proof fn lemma_name_place(names: Seq<Seq<char>>, name: Seq<char>, from: int)
    ensures
        name_place(names, name, from) matches Some(i) ==> from <= i < names.len() && names[i]
            == name,
    decreases names.len() - from,
{
    if from < names.len() && names[from] != name {
        lemma_name_place(names, name, from + 1);
    }
}

/// A value is larger than each of its fields.
pub proof fn lemma_field_smaller(j: Json, name: Seq<char>)
    ensures
        j.field(name) matches Some(v) ==> decreases_to!(j => v),
{
    if let Json::Object(names, values) = j {
        lemma_name_place(names, name, 0);
        if let Some(i) = name_place(names, name, 0) {
            if i < values.len() {
                assert(decreases_to!(j => values));
                assert(decreases_to!(values => values[i]));
            }
        }
    }
}

impl Json {
    /// The value of a field; nothing but an object has fields.
    pub open spec fn field(self, name: Seq<char>) -> Option<Json> {
        match self {
            Json::Object(names, values) => match name_place(names, name, 0) {
                Some(i) => if i < values.len() {
                    Some(values[i])
                } else {
                    None
                },
                None => None,
            },
            _ => None,
        }
    }

    /// The text of a text value.
    pub open spec fn text(self) -> Option<Seq<char>> {
        match self {
            Json::Text(s) => Some(s),
            _ => None,
        }
    }

    /// The items of a list.
    pub open spec fn list(self) -> Option<Seq<Json>> {
        match self {
            Json::List(items) => Some(items),
            _ => None,
        }
    }

    /// The value of a whole number that is not negative.
    pub open spec fn unsigned(self) -> Option<u64> {
        match self {
            Json::Number(JsonNumber::Unsigned(n)) => Some(n),
            _ => None,
        }
    }

    /// The value of a whole number that fits in 64 bits with a sign.
    pub open spec fn signed(self) -> Option<i64> {
        match self {
            Json::Number(JsonNumber::Unsigned(n)) => if n <= i64::MAX {
                Some(n as i64)
            } else {
                None
            },
            Json::Number(JsonNumber::Negative(n)) => Some(n),
            _ => None,
        }
    }
}

/// The model of an optional value.
pub open spec fn opt_json(value: Option<&JsonValue>) -> Option<Json> {
    match value {
        Some(v) => Some(json_view(*v)),
        None => None,
    }
}

/// The model of an optional text.
pub open spec fn opt_text(text: Option<&str>) -> Option<Seq<char>> {
    match text {
        Some(t) => Some(t@),
        None => None,
    }
}

impl JsonValue {
    /// The value of a field.
    pub fn get(&self, name: &str) -> (r: Option<&JsonValue>)
        ensures
            opt_json(r) == json_view(*self).field(name@),
            r matches Some(v) ==> decreases_to!(*self => *v),
    {
        match self {
            JsonValue::Object(names, values) => {
                let mut i: usize = 0;
                while i < names.len()
                    invariant
                        i <= names@.len(),
                        *self == JsonValue::Object(*names, *values),
                        name_place(texts(names@), name@, 0) == name_place(
                            texts(names@),
                            name@,
                            i as int,
                        ),
                    decreases names@.len() - i,
                {
                    assert(texts(names@)[i as int] == names@[i as int]@);
                    if same(names[i].as_str(), name) {
                        if i < values.len() {
                            proof {
                                assert(json_view(*self)->Object_1[i as int] == json_view(
                                    values@[i as int],
                                ));
                                assert(decreases_to!(*self => values@[i as int]));
                            }
                            return Some(&values[i]);
                        }
                        return None;
                    }
                    i += 1;
                }
                None
            },
            _ => None,
        }
    }

    /// The text of a text value.
    pub fn as_str(&self) -> (r: Option<&str>)
        ensures
            opt_text(r) == json_view(*self).text(),
    {
        match self {
            JsonValue::Text(s) => Some(s.as_str()),
            _ => None,
        }
    }

    /// The items of a list.
    pub fn as_list(&self) -> (r: Option<&Vec<JsonValue>>)
        ensures
            match r {
                Some(items) => json_view(*self).list() == Some(
                    Seq::new(items@.len(), |i: int| json_view(items@[i])),
                ),
                None => json_view(*self).list() is None,
            },
    {
        match self {
            JsonValue::List(items) => {
                assert(json_view(*self)->List_0 =~= Seq::new(
                    items@.len(),
                    |i: int| json_view(items@[i]),
                ));
                Some(items)
            },
            _ => None,
        }
    }

    /// The value of a whole number that is not negative.
    pub fn as_u64(&self) -> (r: Option<u64>)
        ensures
            r == json_view(*self).unsigned(),
    {
        match self {
            JsonValue::Number(JsonNumber::Unsigned(n)) => Some(*n),
            _ => None,
        }
    }

    /// The value of a whole number that fits in 64 bits with a sign.
    pub fn as_i64(&self) -> (r: Option<i64>)
        ensures
            r == json_view(*self).signed(),
    {
        match self {
            JsonValue::Number(JsonNumber::Unsigned(n)) => if *n <= i64::MAX as u64 {
                Some(*n as i64)
            } else {
                None
            },
            JsonValue::Number(JsonNumber::Negative(n)) => Some(*n),
            _ => None,
        }
    }
}

/// One character of a JSON string.
pub open spec fn json_char(c: char) -> Seq<char> {
    if c == '"' {
        seq!['\\', '"']
    } else if c == '\\' {
        seq!['\\', '\\']
    } else if c as u32 == 0x08 {
        seq!['\\', 'b']
    } else if c as u32 == 0x09 {
        seq!['\\', 't']
    } else if c as u32 == 0x0a {
        seq!['\\', 'n']
    } else if c as u32 == 0x0c {
        seq!['\\', 'f']
    } else if c as u32 == 0x0d {
        seq!['\\', 'r']
    } else if (c as u32) < 0x20 {
        seq!['\\', 'u', '0', '0', hex_digit(c as int / 16), hex_digit(c as int % 16)]
    } else {
        seq![c]
    }
}

/// The characters of a JSON string between its quotes.
pub open spec fn json_chars(s: Seq<char>) -> Seq<char>
    decreases s.len(),
{
    if s.len() == 0 {
        Seq::empty()
    } else {
        json_chars(s.drop_last()) + json_char(s.last())
    }
}

/// A text as a JSON string.
pub open spec fn json_quoted(s: Seq<char>) -> Seq<char> {
    seq!['"'] + json_chars(s) + seq!['"']
}

/// Calls `serde_json::to_string` for a text: quotes around it, and an escape in place of each
/// quote, backslash and control character. Writing a text cannot fail.
#[verifier::external_body]
pub(crate) fn quote_json(text: &str) -> (r: String)
    ensures
        r@ == json_quoted(text@),
{
    match serde_json::to_string(text) {
        Ok(quoted) => quoted,
        Err(e) => e.to_string(),
    }
}

/// The whole part of the number that the bits of a double write, the largest 64 bit number where
/// it is larger; `None` for negative numbers and for what is no number.
pub open spec fn double_whole(bits: u64) -> Option<u64> {
    let magnitude = bits as int % 0x8000_0000_0000_0000;
    let exponent = magnitude / 0x10_0000_0000_0000;
    let significand = 0x10_0000_0000_0000 + magnitude % 0x10_0000_0000_0000;
    if exponent == 0x7ff || (bits >= 0x8000_0000_0000_0000 && magnitude > 0) {
        None
    } else if exponent < 1023 {
        Some(0)
    } else if exponent <= 1075 {
        Some((significand / pow2((1075 - exponent) as nat) as int) as u64)
    } else if exponent < 1087 {
        Some((significand * pow2((exponent - 1075) as nat)) as u64)
    } else {
        Some(u64::MAX)
    }
}

/// The whole part of the number that the bits of a double write.
pub fn whole_of_double(bits: u64) -> (n: Option<u64>)
    ensures
        n == double_whole(bits),
{
    let magnitude: u64 = bits % 0x8000_0000_0000_0000;
    let exponent: u64 = magnitude / 0x10_0000_0000_0000;
    let significand: u64 = 0x10_0000_0000_0000 + magnitude % 0x10_0000_0000_0000;
    if exponent == 0x7ff || (bits >= 0x8000_0000_0000_0000 && magnitude > 0) {
        None
    } else if exponent < 1023 {
        Some(0)
    } else if exponent <= 1075 {
        let total: u64 = 1075 - exponent;
        let mut left: u64 = total;
        let mut n: u64 = significand;
        assert(pow2(0) == 1) by {
            lemma2_to64();
        }
        assert(significand as int / 1 == significand);
        while left > 0
            invariant
                left <= total,
                n == significand as int / pow2((total - left) as nat) as int,
            decreases left,
        {
            proof {
                let done = (total - left) as nat;
                lemma_pow2_unfold(done + 1);
                lemma_pow2_pos(done);
                lemma_div_denominator(significand as int, pow2(done) as int, 2);
                assert(pow2(done + 1) == pow2(done) * 2);
            }
            n = n / 2;
            left = left - 1;
        }
        Some(n)
    } else if exponent < 1087 {
        let total: u64 = exponent - 1075;
        let mut done: u64 = 0;
        let mut n: u64 = significand;
        proof {
            lemma2_to64();
        }
        while done < total
            invariant
                done <= total <= 11,
                significand < 0x20_0000_0000_0000,
                n == significand * pow2(done as nat),
                pow2(0) == 1,
                pow2(1) == 2,
                pow2(2) == 4,
                pow2(3) == 8,
                pow2(4) == 16,
                pow2(5) == 32,
                pow2(6) == 64,
                pow2(7) == 128,
                pow2(8) == 256,
                pow2(9) == 512,
                pow2(10) == 1024,
            decreases total - done,
        {
            proof {
                let k = done as nat;
                lemma_pow2_unfold(k + 1);
                let p = pow2(k) as int;
                assert(p <= 1024);
                assert(significand * p <= 0x1f_ffff_ffff_ffff * 1024) by (nonlinear_arith)
                    requires
                        0 <= significand < 0x20_0000_0000_0000,
                        0 <= p <= 1024,
                ;
                assert(significand * (2 * p) == 2 * (significand * p)) by (nonlinear_arith);
            }
            n = 2 * n;
            done = done + 1;
        }
        Some(n)
    } else {
        Some(u64::MAX)
    }
}

/// The number that a text writes: decimal digits, a plus sign before them at most.
pub open spec fn text_unsigned(s: Seq<char>) -> Option<u64> {
    let digits = if s.len() > 0 && s[0] == '+' {
        s.skip(1)
    } else {
        s
    };
    if digits.len() > 0 && all_digits(digits) && decimal_value(digits) <= u64::MAX {
        Some(decimal_value(digits) as u64)
    } else {
        None
    }
}

/// Digits behind others never make a number smaller.
proof fn lemma_value_grows(s: Seq<char>, k: int)
    requires
        all_digits(s),
        0 <= k <= s.len(),
    ensures
        0 <= decimal_value(s.take(k)) <= decimal_value(s),
    decreases s.len(),
{
    if k == s.len() {
        assert(s.take(k) =~= s);
        if s.len() > 0 {
            assert forall|i: int| 0 <= i < s.drop_last().len() implies '0'
                <= #[trigger] s.drop_last()[i] <= '9' by {
                assert(s[i] == s.drop_last()[i]);
            }
            lemma_value_grows(s.drop_last(), k - 1);
            assert('0' <= s[s.len() - 1] <= '9');
        }
    } else {
        assert forall|i: int| 0 <= i < s.drop_last().len() implies '0'
            <= #[trigger] s.drop_last()[i] <= '9' by {
            assert(s[i] == s.drop_last()[i]);
        }
        assert('0' <= s[s.len() - 1] <= '9');
        assert(s.drop_last().take(k) =~= s.take(k));
        lemma_value_grows(s.drop_last(), k);
    }
}

/// The number that a text writes.
pub fn parse_unsigned(text: &str) -> (n: Option<u64>)
    ensures
        n == text_unsigned(text@),
{
    let chars = chars_of(text);
    let start: usize = if chars.len() > 0 && chars[0] == '+' {
        1
    } else {
        0
    };
    let ghost digits = text@.skip(start as int);
    assert(text@.skip(0) =~= text@);
    if chars.len() == start {
        return None;
    }
    let mut n: u64 = 0;
    let mut i: usize = start;
    assert(digits.take(0) =~= Seq::empty());
    while i < chars.len()
        invariant
            start <= i <= chars@.len(),
            chars@ == text@,
            digits == text@.skip(start as int),
            digits.len() > 0,
            text_unsigned(text@) == if digits.len() > 0 && all_digits(digits) && decimal_value(
                digits,
            ) <= u64::MAX {
                Some(decimal_value(digits) as u64)
            } else {
                None
            },
            forall|j: int| 0 <= j < i - start ==> '0' <= #[trigger] digits[j] <= '9',
            n == decimal_value(digits.take(i - start)),
        decreases chars@.len() - i,
    {
        let c = chars[i];
        let ghost k = i - start;
        assert(digits[k] == c);
        assert(digits.take(k + 1).drop_last() =~= digits.take(k));
        if c < '0' || c > '9' {
            assert(!all_digits(digits));
            return None;
        }
        let d: u64 = (c as u32 - '0' as u32) as u64;
        assert(decimal_value(digits.take(k + 1)) == 10 * n + d);
        if n > 0x1999_9999_9999_9999 || (n == 0x1999_9999_9999_9999 && d > 5) {
            proof {
                if all_digits(digits) {
                    lemma_value_grows(digits, k + 1);
                }
            }
            return None;
        }
        n = 10 * n + d;
        i += 1;
    }
    assert(digits.take(i - start) =~= digits);
    Some(n)
}

impl Json {
    /// The amount that a value writes: a whole number, the whole part of any other number that is
    /// not negative, or a number in a text.
    pub open spec fn amount(self) -> Option<u64> {
        match self {
            Json::Number(JsonNumber::Unsigned(n)) => Some(n),
            Json::Number(JsonNumber::Double(bits)) => double_whole(bits),
            Json::Text(s) => text_unsigned(s),
            _ => None,
        }
    }
}

/// A field is the value beside the first place of its name; a name that is not there has none.
pub proof fn lemma_field(names: Seq<Seq<char>>, values: Seq<Json>, name: Seq<char>, i: int)
    requires
        names.len() == values.len(),
    ensures
        0 <= i < names.len() && names[i] == name && !names.take(i).contains(name) ==> Json::Object(
            names,
            values,
        ).field(name) == Some(values[i]),
        !names.contains(name) ==> Json::Object(names, values).field(name) is None,
{
    if 0 <= i < names.len() && names[i] == name && !names.take(i).contains(name) {
        lemma_first_place(names, name, 0, i);
    }
    lemma_name_place(names, name, 0);
}

proof fn lemma_first_place(names: Seq<Seq<char>>, name: Seq<char>, from: int, i: int)
    requires
        0 <= from <= i < names.len(),
        names[i] == name,
        !names.take(i).contains(name),
    ensures
        name_place(names, name, from) == Some(i),
    decreases i - from,
{
    if from < i {
        assert(names.take(i)[from] == names[from]);
        lemma_first_place(names, name, from + 1, i);
    }
}

/// The double of a whole number below 2^53 is read as that number: its exponent is `k` where the
/// number has `k + 1` binary digits, and its significand holds the digits behind the first.
pub proof fn lemma_whole_number_as_double(n: u64, k: nat)
    requires
        k <= 52,
        pow2(k) <= n < 2 * pow2(k),
    ensures
        double_whole(
            ((1023 + k) * 0x10_0000_0000_0000 + (n - pow2(k)) * pow2((52 - k) as nat)) as u64,
        ) == Some(n),
        Json::Number(
            JsonNumber::Double(
                ((1023 + k) * 0x10_0000_0000_0000 + (n - pow2(k)) * pow2((52 - k) as nat)) as u64,
            ),
        ).amount() == Some(n),
{
    let low = (52 - k) as nat;
    let unit = pow2(low) as int;
    let top = pow2(k) as int;
    lemma2_to64();
    lemma_pow2_pos(low);
    lemma_pow2_adds(k, low);
    lemma_pow2_adds(32, 20);
    assert(top * unit == 0x10_0000_0000_0000);
    let rest = (n - top) * unit;
    assert(0 <= rest < 0x10_0000_0000_0000) by (nonlinear_arith)
        requires
            rest == (n - top) * unit,
            0 <= n - top < top,
            unit > 0,
            top * unit == 0x10_0000_0000_0000,
    ;
    let magnitude = (1023 + k) * 0x10_0000_0000_0000 + rest;
    assert(magnitude < 0x8000_0000_0000_0000);
    assert(magnitude / 0x10_0000_0000_0000 == 1023 + k);
    assert(magnitude % 0x10_0000_0000_0000 == rest);
    assert(0x10_0000_0000_0000 + rest == n * unit) by (nonlinear_arith)
        requires
            rest == (n - top) * unit,
            top * unit == 0x10_0000_0000_0000,
    ;
    vstd::arithmetic::div_mod::lemma_div_multiples_vanish(n as int, unit);
    assert((n * unit) / unit == n) by {
        vstd::arithmetic::mul::lemma_mul_is_commutative(n as int, unit);
    }
}

/// An amount may also be written in a text, with a plus sign or without. A negative number, a
/// truth value and a list are none.
pub proof fn lemma_amount(n: u64, i: i64, b: bool, items: Seq<Json>)
    ensures
        Json::Number(JsonNumber::Unsigned(n)).amount() == Some(n),
        Json::Text(decimal(n as nat)).amount() == Some(n),
        Json::Text(seq!['+'] + decimal(n as nat)).amount() == Some(n),
        Json::Text(Seq::empty()).amount() is None,
        Json::Text(seq!['-'] + decimal(n as nat)).amount() is None,
        Json::Number(JsonNumber::Negative(i)).amount() is None,
        Json::Bool(b).amount() is None,
        Json::List(items).amount() is None,
        Json::Null.amount() is None,
{
    lemma_decimal_round_trip(n as nat);
    assert('0' <= decimal(n as nat)[0] <= '9');
    assert((seq!['+'] + decimal(n as nat)).skip(1) =~= decimal(n as nat));
    assert((seq!['-'] + decimal(n as nat))[0] == '-');
}

/// Whole numbers are read as they are, with a sign where they fit.
pub proof fn lemma_whole_numbers(n: u64, i: i64)
    ensures
        Json::Number(JsonNumber::Unsigned(n)).unsigned() == Some(n),
        Json::Number(JsonNumber::Negative(i)).unsigned() is None,
        Json::Number(JsonNumber::Negative(i)).signed() == Some(i),
        n <= 0x7fff_ffff_ffff_ffff ==> Json::Number(JsonNumber::Unsigned(n)).signed() == Some(
            n as i64,
        ),
        n > 0x7fff_ffff_ffff_ffff ==> Json::Number(JsonNumber::Unsigned(n)).signed() is None,
        Json::Text(decimal(n as nat)).unsigned() is None,
        Json::Text(decimal(n as nat)).signed() is None,
{
}

impl JsonValue {
    /// The amount that a value writes.
    pub fn as_amount(&self) -> (n: Option<u64>)
        ensures
            n == json_view(*self).amount(),
    {
        match self {
            JsonValue::Number(JsonNumber::Unsigned(n)) => Some(*n),
            JsonValue::Number(JsonNumber::Double(bits)) => whole_of_double(*bits),
            JsonValue::Text(s) => parse_unsigned(s.as_str()),
            _ => None,
        }
    }
}

/// One field of an object in JSON: a name and a value in JSON, behind a comma.
pub open spec fn json_member(name: Seq<char>, value: Seq<char>) -> Seq<char> {
    ",\""@ + name + "\":"@ + value
}

/// What stands around the name of a field.
pub proof fn lemma_member_head()
    ensures
        ",\""@ == seq![',', '"'],
        "\":"@ == seq!['"', ':'],
{
    reveal_strlit(",\"");
    reveal_strlit("\":");
    assert(",\""@ =~= seq![',', '"']);
    assert("\":"@ =~= seq!['"', ':']);
}

/// Appends one field of an object in JSON.
pub fn add_member(text: &mut String, name: &str, value: &str)
    ensures
        final(text)@ == old(text)@ + json_member(name@, value@),
{
    let ghost before = text@;
    text.append(",\"");
    text.append(name);
    text.append("\":");
    text.append(value);
    assert(text@ =~= before + json_member(name@, value@));
}

/// A truth value in JSON.
pub open spec fn bool_text(b: bool) -> Seq<char> {
    if b {
        "true"@
    } else {
        "false"@
    }
}

/// A truth value in JSON.
pub fn bool_str(b: bool) -> (text: &'static str)
    ensures
        text@ == bool_text(b),
{
    if b {
        "true"
    } else {
        "false"
    }
}

/// One field of an object in JSON that holds a text, where it is there.
pub open spec fn text_member(name: Seq<char>, value: Option<Seq<char>>) -> Seq<char> {
    match value {
        Some(text) => json_member(name, json_quoted(text)),
        None => Seq::empty(),
    }
}

/// One field of an object in JSON that holds a number, where it is there.
pub open spec fn number_member(name: Seq<char>, value: Option<u64>) -> Seq<char> {
    match value {
        Some(n) => json_member(name, decimal(n as nat)),
        None => Seq::empty(),
    }
}

/// One field of an object in JSON that holds a truth value, where it is there.
pub open spec fn flag_member(name: Seq<char>, value: Option<bool>) -> Seq<char> {
    match value {
        Some(b) => json_member(name, bool_text(b)),
        None => Seq::empty(),
    }
}

/// Appends one field of an object in JSON that holds a text, where it is there.
pub fn add_text_member(text: &mut String, name: &str, value: &Option<String>)
    ensures
        final(text)@ == old(text)@ + text_member(name@, text_view(*value)),
{
    match value {
        Some(t) => add_member(text, name, quote_json(t.as_str()).as_str()),
        None => {
            assert(text@ =~= text@ + Seq::<char>::empty());
        },
    }
}

/// Appends one field of an object in JSON that holds a number, where it is there.
pub fn add_number_member(text: &mut String, name: &str, value: Option<u64>)
    ensures
        final(text)@ == old(text)@ + number_member(name@, value),
{
    match value {
        Some(n) => add_member(text, name, decimal_text(n).as_str()),
        None => {
            assert(text@ =~= text@ + Seq::<char>::empty());
        },
    }
}

/// Appends one field of an object in JSON that holds a truth value, where it is there.
pub fn add_flag_member(text: &mut String, name: &str, value: Option<bool>)
    ensures
        final(text)@ == old(text)@ + flag_member(name@, value),
{
    match value {
        Some(b) => add_member(text, name, bool_str(b)),
        None => {
            assert(text@ =~= text@ + Seq::<char>::empty());
        },
    }
}

} // verus!
