//! Reading JSON text: the checks made before the parser is called, the call,
//! and the lookups on the parsed document.

use crate::error::DecodeError;
use lite_json::{JsonValue, NumberValue};
use vstd::prelude::*;
use vstd::string::is_ascii_spec_bytes;
use vstd::utf8::{decode_utf8, encode_utf8, encode_utf8_decode_utf8, is_ascii_chars, valid_utf8};

verus! {

/// `lite_json::NumberValue`, a plain record of public integer fields.
#[verifier::external_type_specification]
pub struct ExNumberValue(NumberValue);

/// `lite_json::JsonValue`, the parser's document tree. Every variant and
/// field is public, so Verus reads the definition itself.
#[verifier::external_type_specification]
pub struct ExJsonValue(JsonValue);

/// The document that `lite_json::parse_json` builds from `text`, or `None`
/// where it refuses `text`.
pub uninterp spec fn parsed_json(text: Seq<char>) -> Option<JsonValue>;

/// Longest run of decimal digits that is handed to the parser. The parser
/// accumulates an exponent in an `i32` without a check for overflow, and nine
/// digits always fit.
pub const MAX_DIGIT_RUN: usize = 9;

/// Whether `c` is one of the decimal digits `0` to `9`.
pub open spec fn is_digit(c: char) -> bool {
    '0' <= c <= '9'
}

/// Number of consecutive decimal digits of `text` that end just before `end`.
pub open spec fn digits_before(text: Seq<char>, end: int) -> nat
    decreases end,
{
    if end <= 0 || end > text.len() || !is_digit(text[end - 1]) {
        0
    } else {
        1 + digits_before(text, end - 1)
    }
}

/// Whether no run of decimal digits in `text` is longer than `MAX_DIGIT_RUN`.
pub open spec fn short_digit_runs(text: Seq<char>) -> bool {
    forall|end: int| 0 <= end <= text.len() ==> #[trigger] digits_before(text, end) <= MAX_DIGIT_RUN
}

/// Whether `text` may be handed to the parser: it is ASCII (the parser
/// accepts no other text), its positions fit the parser's 32-bit counters,
/// and its digit runs are short.
pub open spec fn supported_text(text: Seq<char>) -> bool {
    &&& is_ascii_chars(text)
    &&& text.len() < u32::MAX
    &&& short_digit_runs(text)
}

/// Calls `lite_json::parse_json` and drops the parser's error report. The
/// contract names the outcome; it claims nothing else of it. The
/// precondition leaves out the texts on which the parser's unchecked
/// arithmetic can overflow: a number part of more than nine digits, and a
/// position beyond `u32`.
#[verifier::external_body]
fn parse_json_text(text: &str) -> (r: Option<JsonValue>)
    requires
        text@.len() < u32::MAX,
        short_digit_runs(text@),
    ensures
        r == parsed_json(text@),
{
    lite_json::parse_json(text).ok()
}

/// Calls `core::str::from_utf8`: the bytes as text where they are valid
/// UTF-8, `None` where they are not.
#[verifier::external_body]
fn utf8_text(bytes: &[u8]) -> (r: Option<&str>)
    ensures
        r is Some <==> valid_utf8(bytes@),
        r matches Some(text) ==> encode_utf8(text@) == bytes@,
{
    core::str::from_utf8(bytes).ok()
}

/// Whether `text` may be handed to the parser.
pub fn text_is_supported(text: &str) -> (r: bool)
    ensures
        r == supported_text(text@),
{
    if !text.is_ascii() {
        return false;
    }
    let bytes = text.as_bytes();
    proof {
        is_ascii_spec_bytes(text);
    }
    let n = bytes.len();
    if n >= u32::MAX as usize {
        return false;
    }
    let mut run: usize = 0;
    let mut i: usize = 0;
    while i < n
        invariant
            i <= n,
            n == text@.len(),
            bytes@.len() == n,
            is_ascii_chars(text@),
            forall|j: int| 0 <= j < n ==> bytes@[j] == text@[j] as u8,
            run == digits_before(text@, i as int),
            run <= MAX_DIGIT_RUN,
            forall|end: int| 0 <= end <= i ==> #[trigger] digits_before(text@, end) <= MAX_DIGIT_RUN,
        decreases n - i,
    {
        let b = bytes[i];
        proof {
            let c = text@[i as int];
            assert('\0' <= c <= '\u{7f}');
            assert(is_digit(c) <==> 48 <= b <= 57);
        }
        if 48 <= b && b <= 57 {
            run += 1;
        } else {
            run = 0;
        }
        i += 1;
        if run > MAX_DIGIT_RUN {
            assert(digits_before(text@, i as int) > MAX_DIGIT_RUN);
            return false;
        }
    }
    true
}

/// What parsing makes of `text`: text that is not supported is refused
/// before the parser sees it, and text that the parser refuses is no JSON.
pub open spec fn parse_outcome(text: Seq<char>) -> Result<JsonValue, DecodeError> {
    if !supported_text(text) {
        Err(DecodeError::UnsupportedText)
    } else {
        match parsed_json(text) {
            Some(doc) => Ok(doc),
            None => Err(DecodeError::MalformedJson),
        }
    }
}

/// Parses JSON text.
pub fn parse(text: &str) -> (r: Result<JsonValue, DecodeError>)
    ensures
        r == parse_outcome(text@),
{
    if !text_is_supported(text) {
        return Err(DecodeError::UnsupportedText);
    }
    match parse_json_text(text) {
        Some(doc) => Ok(doc),
        None => Err(DecodeError::MalformedJson),
    }
}

/// Parses JSON from bytes, which must be UTF-8.
pub fn parse_bytes(bytes: &[u8]) -> (r: Result<JsonValue, DecodeError>)
    ensures
        !valid_utf8(bytes@) ==> r == Err::<JsonValue, DecodeError>(DecodeError::UnsupportedText),
        valid_utf8(bytes@) ==> r == parse_outcome(decode_utf8(bytes@)),
{
    match utf8_text(bytes) {
        Some(text) => {
            proof {
                encode_utf8_decode_utf8(text@);
            }
            parse(text)
        },
        None => Err(DecodeError::UnsupportedText),
    }
}

/// Whether the characters of `key` are those of `name`.
pub fn key_matches(key: &Vec<char>, name: &str) -> (r: bool)
    ensures
        r == (key@ == name@),
{
    let n = name.unicode_len();
    if key.len() != n {
        return false;
    }
    let mut i: usize = 0;
    while i < n
        invariant
            i <= n,
            n == name@.len(),
            key@.len() == n,
            forall|j: int| 0 <= j < i ==> key@[j] == name@[j],
        decreases n - i,
    {
        if key[i] != name.get_char(i) {
            return false;
        }
        i += 1;
    }
    assert(key@ =~= name@);
    true
}

/// The value of the last member of an object whose key is `name`.
pub open spec fn field(members: Seq<(Vec<char>, JsonValue)>, name: Seq<char>) -> Option<JsonValue>
    decreases members.len(),
{
    if members.len() == 0 {
        None
    } else if members.last().0@ == name {
        Some(members.last().1)
    } else {
        field(members.drop_last(), name)
    }
}

/// Looks a member of an object up by its key; of several members with one
/// key the last counts.
pub fn find_field<'a>(members: &'a Vec<(Vec<char>, JsonValue)>, name: &str) -> (r: Option<&'a JsonValue>)
    ensures
        r matches Some(value) ==> field(members@, name@) == Some(*value),
        r is None ==> field(members@, name@) is None,
{
    let mut found: Option<&JsonValue> = None;
    let mut i: usize = 0;
    while i < members.len()
        invariant
            i <= members@.len(),
            found matches Some(value) ==> field(members@.take(i as int), name@) == Some(*value),
            found is None ==> field(members@.take(i as int), name@) is None,
        decreases members@.len() - i,
    {
        assert(members@.take(i + 1).drop_last() =~= members@.take(i as int));
        if key_matches(&members[i].0, name) {
            found = Some(&members[i].1);
        }
        i += 1;
    }
    assert(members@.take(i as int) =~= members@);
    found
}

/// The index that a JSON value denotes: a number written as a plain unsigned
/// integer that fits a machine word. A sign, a fraction or an exponent makes
/// the value no index.
pub open spec fn index_of(value: JsonValue) -> Option<usize> {
    match value {
        JsonValue::Number(n) => if !n.negative && n.fraction == 0 && n.fraction_length == 0
            && n.exponent == 0 && n.integer <= usize::MAX {
            Some(n.integer as usize)
        } else {
            None
        },
        _ => None,
    }
}

/// The index that a JSON value denotes, if it denotes one.
pub fn read_index(value: &JsonValue) -> (r: Option<usize>)
    ensures
        r == index_of(*value),
{
    match value {
        JsonValue::Number(n) => {
            if !n.negative && n.fraction == 0 && n.fraction_length == 0 && n.exponent == 0
                && n.integer <= usize::MAX as u64 {
                Some(n.integer as usize)
            } else {
                None
            }
        },
        _ => None,
    }
}

/// The indices that the items of a JSON array denote, in order; `None` where
/// an item denotes no index.
pub open spec fn indices_of(items: Seq<JsonValue>) -> Option<Seq<usize>> {
    if forall|i: int| 0 <= i < items.len() ==> (#[trigger] index_of(items[i])) is Some {
        Some(Seq::new(items.len(), |i: int| index_of(items[i])->Some_0))
    } else {
        None
    }
}

/// The indices that the items of a JSON array denote.
pub fn read_indices(items: &Vec<JsonValue>) -> (r: Option<Vec<usize>>)
    ensures
        r matches Some(v) ==> indices_of(items@) == Some(v@),
        r is None ==> indices_of(items@) is None,
{
    let mut out: Vec<usize> = Vec::new();
    let mut i: usize = 0;
    while i < items.len()
        invariant
            i <= items@.len(),
            out@.len() == i,
            forall|j: int| 0 <= j < i ==> index_of(items@[j]) == Some(#[trigger] out@[j]),
        decreases items@.len() - i,
    {
        match read_index(&items[i]) {
            Some(index) => {
                out.push(index);
            },
            None => {
                assert(index_of(items@[i as int]) is None);
                return None;
            },
        }
        i += 1;
    }
    assert forall|j: int| 0 <= j < items@.len() implies (#[trigger] index_of(items@[j])) is Some by {
        assert(index_of(items@[j]) == Some(out@[j]));
    }
    assert(out@ =~= Seq::new(items@.len(), |i: int| index_of(items@[i])->Some_0));
    Some(out)
}

} // verus!
