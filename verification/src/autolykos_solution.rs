//! Text forms of the parts of an Autolykos solution: base16 for bytes, decimal
//! for the distance `d`.
use vstd::prelude::*;
use num_traits::FromPrimitive;
use std::str::FromStr;
use crate::text;

verus! {

/// Lower case digit of a value below sixteen.
pub open spec fn hex_digit(d: int) -> char {
    if d < 10 {
        text::digit(d as nat)
    } else if d == 10 {
        'a'
    } else if d == 11 {
        'b'
    } else if d == 12 {
        'c'
    } else if d == 13 {
        'd'
    } else if d == 14 {
        'e'
    } else {
        'f'
    }
}

/// Two digits per byte, the high half first.
pub open spec fn lower_hex(bytes: Seq<u8>) -> Seq<char> {
    Seq::new(
        2 * bytes.len(),
        |i: int|
            if i % 2 == 0 {
                hex_digit(bytes[i / 2] as int / 16)
            } else {
                hex_digit(bytes[i / 2] as int % 16)
            },
    )
}

/// Value of a digit in either case.
pub open spec fn hex_value(b: u8) -> Option<u8> {
    if 48 <= b <= 57 {
        Some((b - 48) as u8)
    } else if 97 <= b <= 102 {
        Some((b - 87) as u8)
    } else if 65 <= b <= 70 {
        Some((b - 55) as u8)
    } else {
        None
    }
}

/// What is wrong with base16 text.
#[derive(Debug, Clone, Copy, PartialEq, Eq, Structural)]
pub enum Base16Error {
    /// A byte that is no digit.
    InvalidByte { index: usize, byte: u8 },
    /// An odd number of bytes.
    InvalidLength { length: usize },
}

/// Index of the first byte from `i` on that is no digit.
pub open spec fn first_non_digit(text: Seq<u8>, i: int) -> Option<int>
    decreases text.len() - i,
{
    if 0 <= i < text.len() {
        if hex_value(text[i]) is None {
            Some(i)
        } else {
            first_non_digit(text, i + 1)
        }
    } else {
        None
    }
}

/// Bytes that base16 text stands for.
pub open spec fn decode_hex(text: Seq<u8>) -> Result<Seq<u8>, Base16Error> {
    if text.len() % 2 == 1 {
        Err(Base16Error::InvalidLength { length: text.len() as usize })
    } else {
        match first_non_digit(text, 0) {
            Some(i) => Err(Base16Error::InvalidByte { index: i as usize, byte: text[i] }),
            None => Ok(
                Seq::new(
                    text.len() / 2,
                    |i: int|
                        (16 * hex_value(text[2 * i])->Some_0 + hex_value(
                            text[2 * i + 1],
                        )->Some_0) as u8,
                ),
            ),
        }
    }
}

/// `base16::encode_lower`: two lower case digits per byte. The text has to fit
/// in memory.
#[verifier::external_body]
fn encode_lower(value: &[u8]) -> (r: String)
    requires
        2 * value@.len() <= isize::MAX,
    ensures
        r@ == lower_hex(value@),
{
    base16::encode_lower(value)
}

/// `base16::decode`: takes digits in either case. Text of an odd number of
/// bytes is refused first, then the first byte that is no digit.
#[verifier::external_body]
fn decode(input: &[u8]) -> (r: Result<Vec<u8>, Base16Error>)
    ensures
        match r {
            Ok(bytes) => decode_hex(input@) == Ok::<Seq<u8>, Base16Error>(bytes@),
            Err(e) => decode_hex(input@) == Err::<Seq<u8>, Base16Error>(e),
        },
{
    base16::decode(input).map_err(
        |e|
            match e {
                base16::DecodeError::InvalidByte { index, byte } => Base16Error::InvalidByte {
                    index,
                    byte,
                },
                base16::DecodeError::InvalidLength { length } => Base16Error::InvalidLength {
                    length,
                },
            },
    )
}

/// Bytes as base16 text.
pub fn as_base16_string(value: &[u8]) -> (r: String)
    requires
        2 * value@.len() <= isize::MAX,
    ensures
        r@ == lower_hex(value@),
{
    encode_lower(value)
}

/// Bytes from base16 text.
pub fn from_base16_string(text: &str) -> (r: Result<Vec<u8>, Base16Error>)
    ensures
        match r {
            Ok(bytes) => decode_hex(vstd::utf8::encode_utf8(text@)) == Ok::<Seq<u8>, Base16Error>(bytes@),
            Err(e) => decode_hex(vstd::utf8::encode_utf8(text@)) == Err::<Seq<u8>, Base16Error>(e),
        },
{
    decode(text.as_bytes())
}

/// Number with the given digits in base `2^32`, least significant first.
pub open spec fn digits_value(digits: Seq<u32>) -> nat
    decreases digits.len(),
{
    if digits.len() == 0 {
        0
    } else {
        digits[0] as nat + 0x1_0000_0000 * digits_value(digits.drop_first())
    }
}

/// Natural number of any size.
#[derive(Debug, Clone, PartialEq, Eq)]
pub struct BigNat {
    /// Digits in base `2^32`, least significant first.
    pub digits: Vec<u32>,
}

impl View for BigNat {
    type V = nat;

    open spec fn view(&self) -> nat {
        digits_value(self.digits@)
    }
}

/// Text without the sign that may stand before a number.
pub open spec fn unsigned_text(s: Seq<char>) -> Seq<char> {
    if s.len() > 0 && s[0] == '+' && !(s.len() > 1 && s[1] == '+') {
        s.skip(1)
    } else {
        s
    }
}

/// Value of decimal digits; underscores between them do not count.
pub open spec fn decimal_value(s: Seq<char>) -> nat
    decreases s.len(),
{
    if s.len() == 0 {
        0
    } else if s.last() == '_' {
        decimal_value(s.drop_last())
    } else {
        10 * decimal_value(s.drop_last()) + (s.last() as nat - '0' as nat) as nat
    }
}

/// Number that text stands for, or the message that says why it is none: an
/// optional sign, a digit, then digits and underscores.
pub open spec fn parse_decimal(s: Seq<char>) -> Result<nat, Seq<char>> {
    let t = unsigned_text(s);
    if t.len() == 0 {
        Err("cannot parse integer from empty string"@)
    } else if t[0] != '_' && forall|i: int|
        0 <= i < t.len() ==> '0' <= #[trigger] t[i] <= '9' || t[i] == '_' {
        Ok(decimal_value(t))
    } else {
        Err("invalid digit found in string"@)
    }
}

/// `BigUint::from_str`, with the number as digits and the error as its text.
#[verifier::external_body]
fn biguint_from_str(s: &str) -> (r: Result<Vec<u32>, String>)
    ensures
        match r {
            Ok(digits) => parse_decimal(s@) == Ok::<nat, Seq<char>>(digits_value(digits@)),
            Err(why) => parse_decimal(s@) == Err::<nat, Seq<char>>(why@),
        },
{
    match num_bigint::BigUint::from_str(s) {
        Ok(n) => Ok(n.to_u32_digits()),
        Err(e) => Err(e.to_string()),
    }
}

/// `BigUint::to_string` of the number with the given digits: decimal, without
/// leading zeros. The text has to fit in memory; a digit takes ten characters
/// at most.
#[verifier::external_body]
fn biguint_to_string(digits: &[u32]) -> (r: String)
    requires
        10 * digits@.len() <= isize::MAX,
    ensures
        r@ == text::decimal(digits_value(digits@)),
{
    num_bigint::BigUint::from_slice(digits).to_string()
}

/// Whether `serde_json` takes the number with this text for a floating-point
/// number.
pub uninterp spec fn is_float_number(text: Seq<char>) -> bool;

/// Digits of the whole part of the floating-point number that `serde_json`
/// reads the text as. The outer option is empty when there is no such number,
/// the inner one when it is not the value of a natural number.
pub uninterp spec fn float_number_digits(text: Seq<char>) -> Option<Option<Seq<u32>>>;

/// The text has a point or an exponent.
pub open spec fn has_float_mark(text: Seq<char>) -> bool {
    exists|i: int|
        0 <= i < text.len() && ((#[trigger] text[i]) == '.' || text[i] == 'e' || text[i] == 'E')
}

/// `serde_json::Number::is_f64` of the number with this text. The result
/// depends on the text alone, and text without a point and an exponent is not
/// taken for a floating-point number.
#[verifier::external_body]
fn number_is_float(text: &str) -> (r: bool)
    ensures
        r == is_float_number(text@),
        r ==> has_float_mark(text@),
{
    serde_json::Number::from_str(text).is_ok_and(|n| n.is_f64())
}

/// `serde_json::Number::as_f64` of the number with this text, then
/// `BigUint::from_f64`. The two are called together since verified code holds
/// no floating-point number. The result depends on the text alone; which
/// digits belong to a text is not said.
#[verifier::external_body]
fn number_float_digits(text: &str) -> (r: Option<Option<Vec<u32>>>)
    ensures
        match r {
            Some(Some(digits)) => float_number_digits(text@) == Some(Some(digits@)),
            Some(None) => float_number_digits(text@) == Some(None::<Seq<u32>>),
            None => float_number_digits(text@) is None,
        },
{
    let n = serde_json::Number::from_str(text).ok()?.as_f64()?;
    Some(num_bigint::BigUint::from_f64(n).map(|n| n.to_u32_digits()))
}

/// The distance as text; an absent one has none.
pub fn bigint_as_str(value: &Option<BigNat>) -> (r: Option<String>)
    requires
        value matches Some(n) ==> 10 * n.digits@.len() <= isize::MAX,
    ensures
        match (*value, r) {
            (Some(n), Some(s)) => s@ == text::decimal(n@),
            (None, None) => true,
            _ => false,
        },
{
    match value {
        Some(n) => Some(biguint_to_string(n.digits.as_slice())),
        None => None,
    }
}

/// A distance as it stands in JSON: a string, or a number by its text.
pub enum DeserializeBigIntFrom {
    String(String),
    SerdeJsonNumber(String),
}

/// What reading a floating-point number as a natural number gave.
pub enum FloatReading {
    /// The number cannot be read as a floating-point number.
    Unreadable,
    /// The floating-point number has no natural number as its whole part.
    NotNatural,
    Natural(BigNat),
}

/// The distance that `source` holds, or the message of the error. `null` and an
/// absent distance are `None`.
pub open spec fn distance(source: Option<DeserializeBigIntFrom>) -> Result<Option<nat>, Seq<char>> {
    match source {
        None => Ok(None),
        Some(DeserializeBigIntFrom::String(s)) => parsed_distance(s@),
        Some(DeserializeBigIntFrom::SerdeJsonNumber(s)) => if is_float_number(s@) {
            match float_number_digits(s@) {
                None => Err("failed to convert JSON number to f64"@),
                Some(None) => Err("failed to create BigInt from f64"@),
                Some(Some(digits)) => Ok(Some(digits_value(digits))),
            }
        } else {
            parsed_distance(s@)
        },
    }
}

/// The distance that decimal text holds, or the message of the error.
pub open spec fn parsed_distance(s: Seq<char>) -> Result<Option<nat>, Seq<char>> {
    match parse_decimal(s) {
        Ok(n) => Ok(Some(n)),
        Err(why) => Err(why),
    }
}

/// What a result of reading a distance stands for.
pub open spec fn distance_view(r: Result<Option<BigNat>, String>) -> Result<Option<nat>, Seq<char>> {
    match r {
        Ok(Some(n)) => Ok(Some(n@)),
        Ok(None) => Ok(None),
        Err(why) => Err(why@),
    }
}

/// The distance that decimal text holds.
pub fn bigint_from_text(s: &str) -> (r: Result<Option<BigNat>, String>)
    ensures
        distance_view(r) == parsed_distance(s@),
{
    match biguint_from_str(s) {
        Ok(digits) => Ok(Some(BigNat { digits })),
        Err(why) => Err(why),
    }
}

/// The distance that a JSON number holds, given what it was read as if it is
/// written as a floating-point number.
pub fn bigint_from_number(s: &str, float: Option<FloatReading>) -> (r: Result<
    Option<BigNat>,
    String,
>)
    ensures
        distance_view(r) == match float {
            None => parsed_distance(s@),
            Some(FloatReading::Unreadable) => Err::<Option<nat>, Seq<char>>(
                "failed to convert JSON number to f64"@,
            ),
            Some(FloatReading::NotNatural) => Err::<Option<nat>, Seq<char>>(
                "failed to create BigInt from f64"@,
            ),
            Some(FloatReading::Natural(n)) => Ok::<Option<nat>, Seq<char>>(Some(n@)),
        },
{
    match float {
        None => bigint_from_text(s),
        Some(FloatReading::Unreadable) => Err("failed to convert JSON number to f64".to_owned()),
        Some(FloatReading::NotNatural) => Err("failed to create BigInt from f64".to_owned()),
        Some(FloatReading::Natural(n)) => Ok(Some(n)),
    }
}

/// The distance from its JSON form. A number that is written as a
/// floating-point number counts as its whole part, any other number and a
/// string as the decimal number that they spell. A whole number of any size is
/// read without loss.
pub fn bigint_from_serde_json_number(source: &Option<DeserializeBigIntFrom>) -> (r: Result<
    Option<BigNat>,
    String,
>)
    ensures
        distance_view(r) == distance(*source),
        match source {
            Some(DeserializeBigIntFrom::SerdeJsonNumber(s)) => !has_float_mark(s@)
                ==> distance_view(r) == parsed_distance(s@),
            _ => true,
        },
{
    match source {
        None => Ok(None),
        Some(DeserializeBigIntFrom::String(s)) => bigint_from_text(s.as_str()),
        Some(DeserializeBigIntFrom::SerdeJsonNumber(s)) => {
            let float = if number_is_float(s.as_str()) {
                Some(
                    match number_float_digits(s.as_str()) {
                        None => FloatReading::Unreadable,
                        Some(None) => FloatReading::NotNatural,
                        Some(Some(digits)) => FloatReading::Natural(BigNat { digits }),
                    },
                )
            } else {
                None
            };
            bigint_from_number(s.as_str(), float)
        },
    }
}

proof fn lemma_hex_digit_value(d: int)
    requires
        0 <= d < 16,
    ensures
        (hex_digit(d) as u32) < 128,
        hex_value(hex_digit(d) as u8) == Some(d as u8),
{
}

proof fn lemma_all_digits(text: Seq<u8>, i: int)
    requires
        0 <= i <= text.len(),
        forall|j: int| i <= j < text.len() ==> hex_value(#[trigger] text[j]) is Some,
    ensures
        first_non_digit(text, i) is None,
    decreases text.len() - i,
{
    if i < text.len() {
        lemma_all_digits(text, i + 1);
    }
}

/// Bytes read back from their base16 text.
pub proof fn law_base16_roundtrip(bytes: Seq<u8>)
    ensures
        decode_hex(vstd::utf8::encode_utf8(lower_hex(bytes))) == Ok::<Seq<u8>, Base16Error>(bytes),
{
    let chars = lower_hex(bytes);
    let text = vstd::utf8::encode_utf8(chars);
    assert forall|i: int| 0 <= i < chars.len() implies (#[trigger] chars[i] as u32) < 128
        && hex_value(chars[i] as u8) == Some(
        if i % 2 == 0 {
            bytes[i / 2] / 16
        } else {
            bytes[i / 2] % 16
        },
    ) by {
        lemma_hex_digit_value(bytes[i / 2] as int / 16);
        lemma_hex_digit_value(bytes[i / 2] as int % 16);
    }
    assert(vstd::utf8::is_ascii_chars(chars));
    vstd::utf8::is_ascii_chars_encode_utf8(chars);
    assert(text.len() == chars.len());
    assert forall|i: int| 0 <= i < text.len() implies hex_value(#[trigger] text[i]) == Some(
        if i % 2 == 0 {
            bytes[i / 2] / 16
        } else {
            bytes[i / 2] % 16
        },
    ) by {
        assert(text[i] == chars[i] as u8);
    }
    lemma_all_digits(text, 0);
    let decoded = decode_hex(text)->Ok_0;
    assert forall|i: int| 0 <= i < bytes.len() implies decoded[i] == bytes[i] by {
        assert(hex_value(text[2 * i]) == Some(bytes[i] / 16));
        assert(hex_value(text[2 * i + 1]) == Some(bytes[i] % 16));
    }
    assert(decoded =~= bytes);
}

proof fn lemma_decimal_shape(n: nat)
    ensures
        text::decimal(n).len() > 0,
        forall|i: int|
            0 <= i < text::decimal(n).len() ==> '0' <= #[trigger] text::decimal(n)[i] <= '9',
        decimal_value(text::decimal(n)) == n,
    decreases n,
{
    let s = text::decimal(n);
    if n < 10 {
        assert(s.drop_last() =~= Seq::empty());
        assert(decimal_value(s.drop_last()) == 0);
    } else {
        lemma_decimal_shape(n / 10);
        assert(s.drop_last() =~= text::decimal(n / 10));
        assert(s.last() == text::digit(n % 10));
    }
}

/// A distance reads back from its text.
pub proof fn law_distance_roundtrip(n: nat)
    ensures
        parsed_distance(text::decimal(n)) == Ok::<Option<nat>, Seq<char>>(Some(n)),
{
    lemma_decimal_shape(n);
    let s = text::decimal(n);
    assert('0' <= s[0] <= '9');
    assert(unsigned_text(s) == s);
}

/// Base16 text has two characters per byte, the high half first, each the
/// character as many places after `0` or, from ten on, after `a` less ten.
pub proof fn law_base16_digits(bytes: Seq<u8>)
    ensures
        lower_hex(bytes).len() == 2 * bytes.len(),
        forall|i: int|
            #![trigger bytes[i]]
            0 <= i < bytes.len() ==> {
                let high = bytes[i] as int / 16;
                let low = bytes[i] as int % 16;
                &&& lower_hex(bytes)[2 * i] as int == if high < 10 {
                    '0' as int + high
                } else {
                    'a' as int + high - 10
                }
                &&& lower_hex(bytes)[2 * i + 1] as int == if low < 10 {
                    '0' as int + low
                } else {
                    'a' as int + low - 10
                }
            },
{
    assert forall|i: int| #![trigger bytes[i]] 0 <= i < bytes.len() implies {
        let high = bytes[i] as int / 16;
        let low = bytes[i] as int % 16;
        &&& lower_hex(bytes)[2 * i] as int == if high < 10 {
            '0' as int + high
        } else {
            'a' as int + high - 10
        }
        &&& lower_hex(bytes)[2 * i + 1] as int == if low < 10 {
            '0' as int + low
        } else {
            'a' as int + low - 10
        }
    } by {
        assert((2 * i) / 2 == i && (2 * i + 1) / 2 == i);
        assert((2 * i) % 2 == 0 && (2 * i + 1) % 2 == 1);
    }
}

/// A digit counts the same in both cases. No other byte is a digit.
pub proof fn law_values_of_base16_digits(b: u8)
    ensures
        '0' as int <= b <= '9' as int ==> hex_value(b) is Some && hex_value(b)->Some_0 == b
            - '0' as int,
        'a' as int <= b <= 'f' as int ==> hex_value(b) is Some && hex_value(b)->Some_0 == b
            - 'a' as int + 10,
        'A' as int <= b <= 'F' as int ==> hex_value(b) is Some && hex_value(b)->Some_0 == b
            - 'A' as int + 10,
        hex_value(b) is Some ==> ('0' as int <= b <= '9' as int) || ('a' as int <= b <= 'f' as int)
            || ('A' as int <= b <= 'F' as int),
{
}

/// Text of an even number of digits is half as many bytes, each made of two
/// digits in their order.
pub proof fn law_base16_text_is_read_in_pairs(text: Seq<u8>)
    requires
        text.len() % 2 == 0,
        forall|i: int| 0 <= i < text.len() ==> hex_value(#[trigger] text[i]) is Some,
    ensures
        ({
            let r = decode_hex(text);
            &&& r is Ok
            &&& 2 * r->Ok_0.len() == text.len()
            &&& forall|i: int|
                0 <= i < r->Ok_0.len() ==> #[trigger] r->Ok_0[i] == 16 * hex_value(
                    text[2 * i],
                )->Some_0 + hex_value(text[2 * i + 1])->Some_0
        }),
{
    lemma_all_digits(text, 0);
    let r = decode_hex(text)->Ok_0;
    assert forall|i: int| 0 <= i < r.len() implies #[trigger] r[i] == 16 * hex_value(
        text[2 * i],
    )->Some_0 + hex_value(text[2 * i + 1])->Some_0 by {
        assert(hex_value(text[2 * i]) is Some && hex_value(text[2 * i + 1]) is Some);
    }
}

/// Text of an odd number of bytes is refused for that. Other text is refused
/// for the first byte that is no digit.
pub proof fn law_base16_refusals(text: Seq<u8>, k: int)
    requires
        text.len() <= usize::MAX,
    ensures
        text.len() % 2 == 1 ==> decode_hex(text) is Err && decode_hex(text)->Err_0 is InvalidLength
            && decode_hex(text)->Err_0->length == text.len(),
        text.len() % 2 == 0 && 0 <= k < text.len() && hex_value(text[k]) is None && (forall|i: int|
            0 <= i < k ==> hex_value(#[trigger] text[i]) is Some) ==> decode_hex(text) is Err
            && decode_hex(text)->Err_0 is InvalidByte && decode_hex(text)->Err_0->index == k
            && decode_hex(text)->Err_0->byte == text[k],
{
    if 0 <= k < text.len() && hex_value(text[k]) is None && (forall|i: int|
        0 <= i < k ==> hex_value(#[trigger] text[i]) is Some) {
        lemma_first_non_digit(text, 0, k);
    }
}

proof fn lemma_first_non_digit(text: Seq<u8>, i: int, k: int)
    requires
        0 <= i <= k < text.len(),
        hex_value(text[k]) is None,
        forall|j: int| i <= j < k ==> hex_value(#[trigger] text[j]) is Some,
    ensures
        first_non_digit(text, i) == Some(k),
    decreases k - i,
{
    if i < k {
        assert(hex_value(text[i]) is Some);
        lemma_first_non_digit(text, i + 1, k);
    }
}

/// Digits count from the least significant one on, each `2^32` times the one
/// before it.
pub proof fn law_digits_of_a_number(low: u32, high: Seq<u32>)
    ensures
        digits_value(Seq::empty()) == 0,
        digits_value(seq![low] + high) == low + 0x1_0000_0000 * digits_value(high),
{
    assert((seq![low] + high).drop_first() =~= high);
}

/// A number grows by a digit at its end: text that is a number followed by the
/// digit `d` is ten times that number and `d`. An underscore at its end does not
/// count. One digit is a number.
pub proof fn law_decimal_text_grows(s: Seq<char>, d: nat)
    requires
        d < 10,
        !(s.len() == 0),
    ensures
        parse_decimal(seq![('0' as int + d) as char]) == Ok::<nat, Seq<char>>(d),
        parse_decimal(s) is Ok ==> parse_decimal(s.push(('0' as int + d) as char)) == Ok::<
            nat,
            Seq<char>,
        >(10 * parse_decimal(s)->Ok_0 + d),
        parse_decimal(s) is Ok ==> parse_decimal(s.push('_')) == parse_decimal(s),
{
    let digit = ('0' as int + d) as char;
    let one = seq![digit];
    assert(unsigned_text(one) == one);
    assert(one.drop_last() =~= Seq::empty());
    assert(decimal_value(one.drop_last()) == 0);
    assert(decimal_value(one) == d);
    if parse_decimal(s) is Ok {
        lemma_pushed(s, digit);
        lemma_pushed(s, '_');
    }
}

proof fn lemma_pushed(s: Seq<char>, x: char)
    requires
        s.len() > 0,
        parse_decimal(s) is Ok,
        '0' <= x <= '9' || x == '_',
    ensures
        parse_decimal(s.push(x)) == Ok::<nat, Seq<char>>(
            if x == '_' {
                parse_decimal(s)->Ok_0
            } else {
                (10 * parse_decimal(s)->Ok_0 + (x as int - '0' as int)) as nat
            },
        ),
{
    let t = unsigned_text(s);
    let u = unsigned_text(s.push(x));
    assert(u =~= t.push(x));
    assert(u.drop_last() =~= t);
    assert(u[0] == t[0]);
    assert forall|i: int| 0 <= i < u.len() implies '0' <= #[trigger] u[i] <= '9' || u[i] == '_' by {
        if i < t.len() {
            assert(u[i] == t[i]);
        }
    }
}

/// A plus before text that does not begin with one does not count.
pub proof fn law_plus_does_not_count(s: Seq<char>)
    requires
        s.len() > 0 ==> s[0] != '+',
    ensures
        parse_decimal(seq!['+'] + s) == parse_decimal(s),
{
    let t = seq!['+'] + s;
    assert(t.skip(1) =~= s);
    assert(t.len() > 1 ==> t[1] == s[0]);
}

/// Text that is no number is refused in words: empty text, text that begins
/// with an underscore or with two signs, text with any other character.
pub proof fn law_what_is_no_number(s: Seq<char>, k: int)
    ensures
        s.len() == 0 ==> parse_decimal(s) == Err::<nat, Seq<char>>(
            "cannot parse integer from empty string"@,
        ),
        s.len() > 0 && s[0] == '_' ==> parse_decimal(s) == Err::<nat, Seq<char>>(
            "invalid digit found in string"@,
        ),
        s.len() > 1 && s[0] == '+' && s[1] == '+' ==> parse_decimal(s) == Err::<nat, Seq<char>>(
            "invalid digit found in string"@,
        ),
        0 < k < s.len() && !('0' <= s[k] <= '9') && s[k] != '_' ==> parse_decimal(s) == Err::<
            nat,
            Seq<char>,
        >("invalid digit found in string"@),
        s.len() > 0 && !('0' <= s[0] <= '9') && s[0] != '+' ==> parse_decimal(s) == Err::<
            nat,
            Seq<char>,
        >("invalid digit found in string"@),
{
    let t = unsigned_text(s);
    if 0 < k < s.len() && !('0' <= s[k] <= '9') && s[k] != '_' {
        if t == s {
            assert(t[k] == s[k]);
        } else {
            assert(t[k - 1] == s[k]);
        }
    }
    if s.len() > 0 && !('0' <= s[0] <= '9') && s[0] != '+' {
        assert(t == s);
        assert(t[0] == s[0]);
    }
    if s.len() > 1 && s[0] == '+' && s[1] == '+' {
        assert(t == s);
        assert(t[0] == '+');
    }
}

/// A distance is absent where its source is; text is the number that it spells;
/// a number that is taken for a floating-point number is what that one reads
/// as, any other the number that it spells.
pub proof fn law_sources_of_a_distance(s: String)
    ensures
        distance(None) == Ok::<Option<nat>, Seq<char>>(None),
        match parse_decimal(s@) {
            Ok(n) => distance(Some(DeserializeBigIntFrom::String(s))) == Ok::<
                Option<nat>,
                Seq<char>,
            >(Some(n)),
            Err(why) => distance(Some(DeserializeBigIntFrom::String(s))) == Err::<
                Option<nat>,
                Seq<char>,
            >(why),
        },
        !is_float_number(s@) ==> distance(Some(DeserializeBigIntFrom::SerdeJsonNumber(s)))
            == distance(Some(DeserializeBigIntFrom::String(s))),
        is_float_number(s@) ==> match float_number_digits(s@) {
            None => distance(Some(DeserializeBigIntFrom::SerdeJsonNumber(s))) == Err::<
                Option<nat>,
                Seq<char>,
            >("failed to convert JSON number to f64"@),
            Some(None) => distance(Some(DeserializeBigIntFrom::SerdeJsonNumber(s))) == Err::<
                Option<nat>,
                Seq<char>,
            >("failed to create BigInt from f64"@),
            Some(Some(digits)) => distance(Some(DeserializeBigIntFrom::SerdeJsonNumber(s)))
                == Ok::<Option<nat>, Seq<char>>(Some(digits_value(digits))),
        },
{
}

/// A result stands for its number or for its text.
pub proof fn law_results_of_reading(r: Result<Option<BigNat>, String>)
    ensures
        match r {
            Ok(Some(n)) => distance_view(r) == Ok::<Option<nat>, Seq<char>>(
                Some(digits_value(n.digits@)),
            ),
            Ok(None) => distance_view(r) == Ok::<Option<nat>, Seq<char>>(None),
            Err(why) => distance_view(r) == Err::<Option<nat>, Seq<char>>(why@),
        },
{
}

/// A point and an exponent mark a floating-point number, wherever they stand,
/// and nothing else does; decimal text has neither.
pub proof fn law_marks_of_floating_point(s: Seq<char>, k: int, n: nat)
    ensures
        0 <= k < s.len() && (s[k] == '.' || s[k] == 'e' || s[k] == 'E') ==> has_float_mark(s),
        (forall|i: int|
            0 <= i < s.len() ==> (#[trigger] s[i]) != '.' && s[i] != 'e' && s[i] != 'E')
            ==> !has_float_mark(s),
        !has_float_mark(text::decimal(n)),
{
    lemma_decimal_shape(n);
    if has_float_mark(text::decimal(n)) {
        let i = choose|i: int|
            0 <= i < text::decimal(n).len() && ((#[trigger] text::decimal(n)[i]) == '.'
                || text::decimal(n)[i] == 'e' || text::decimal(n)[i] == 'E');
        assert('0' <= text::decimal(n)[i] <= '9');
    }
}

} // verus!
