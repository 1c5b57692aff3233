//! JSON documents.
//!
//! Documents are values of the `json` crate. Their contents are described by
//! four uninterpreted functions, one per shape that the export reads, and every
//! call into the crate is a small function whose contract is stated over them.
//! Those contracts are taken on trust from the crate's source.

use json::JsonValue;
use vstd::prelude::*;
use vstd::utf8::encode_utf8;

verus! {

/// `json::JsonValue`, a JSON document. Nothing is known of a value but what
/// the functions below say of it.
#[verifier::external_type_specification]
#[verifier::external_body]
pub struct ExJsonValue(json::JsonValue);

/// `json::Error`, the error of the parser and of a misused document. It is
/// carried through and never looked into.
#[verifier::external_type_specification]
#[verifier::external_body]
pub struct ExJsonError(json::Error);

/// The elements of a JSON array, in order; `None` for every other value.
pub uninterp spec fn json_elements(doc: JsonValue) -> Option<Seq<JsonValue>>;

/// The entries of a JSON object, by key; `None` for every other value.
pub uninterp spec fn json_fields(doc: JsonValue) -> Option<Map<Seq<char>, JsonValue>>;

/// The characters of a JSON string; `None` for every other value.
pub uninterp spec fn json_text(doc: JsonValue) -> Option<Seq<char>>;

/// The number that `JsonValue::as_u64` reads from a document; `None` where it
/// reads none, as from everything that is no number.
pub uninterp spec fn json_unsigned(doc: JsonValue) -> Option<u64>;

/// What `json::parse` makes of a text.
pub uninterp spec fn json_parsed(text: Seq<char>) -> Result<JsonValue, json::Error>;

/// The document is an object that has an entry under `key`.
pub open spec fn has_field(doc: JsonValue, key: Seq<char>) -> bool {
    json_fields(doc) matches Some(entries) && entries.contains_key(key)
}

/// The entry of an object under a key.
pub open spec fn field_of(doc: JsonValue, key: Seq<char>) -> JsonValue
    recommends
        has_field(doc, key),
{
    json_fields(doc).unwrap()[key]
}

/// The document is an array that has an element at `index`.
pub open spec fn has_element(doc: JsonValue, index: int) -> bool {
    json_elements(doc) matches Some(items) && 0 <= index < items.len()
}

/// The document is neither an array, an object, a string nor an unsigned
/// integer. This is what is known of the null that a failed lookup yields.
pub open spec fn is_blank(doc: JsonValue) -> bool {
    &&& json_elements(doc) is None
    &&& json_fields(doc) is None
    &&& json_text(doc) is None
    &&& json_unsigned(doc) is None
}

/// The document is an object, and so neither an array, a string nor a number.
pub open spec fn is_object_only(doc: JsonValue) -> bool {
    &&& json_fields(doc) is Some
    &&& json_elements(doc) is None
    &&& json_text(doc) is None
    &&& json_unsigned(doc) is None
}

/// An unsigned integer as a `u32`, where it fits.
pub open spec fn narrowed(n: Option<u64>) -> Option<u32> {
    match n {
        Some(v) if v <= u32::MAX => Some(v as u32),
        _ => None,
    }
}

/// The most digits of a fraction that the parser can count.
pub const MAX_COUNTED_DIGITS: usize = 32768;

/// The mantissa from which on the parser counts a further digit of a fraction
/// only where the mantissa still fits 64 bits with it.
pub const MAX_PRECISION: u64 = 576460752303423500;

/// Where a byte stands with respect to the strings of a JSON text.
#[derive(Debug, Clone, Copy)]
pub enum Lexing {
    /// Outside any string.
    Outside,
    /// Inside a string.
    Inside,
    /// Inside a string, directly behind a backslash.
    Escaped,
}

/// The byte is an ASCII decimal digit.
pub open spec fn is_digit(byte: u8) -> bool {
    0x30 <= byte <= 0x39
}

/// The bytes from `start` up to, not including, `end` are decimal digits.
pub open spec fn all_digits(bytes: Seq<u8>, start: int, end: int) -> bool {
    forall|k: int| start <= k < end ==> is_digit(#[trigger] bytes[k])
}

/// Where the byte after `byte` stands, given where `byte` stood: a quote opens
/// and closes a string, and a backslash inside a string takes the next byte
/// with it.
pub open spec fn lex_step(state: Lexing, byte: u8) -> Lexing {
    match state {
        Lexing::Outside => if byte == 0x22 {
            Lexing::Inside
        } else {
            Lexing::Outside
        },
        Lexing::Inside => if byte == 0x5c {
            Lexing::Escaped
        } else if byte == 0x22 {
            Lexing::Outside
        } else {
            Lexing::Inside
        },
        Lexing::Escaped => Lexing::Inside,
    }
}

/// Where the byte at `at` stands.
pub open spec fn lexing(bytes: Seq<u8>, at: int) -> Lexing
    decreases at,
{
    if at <= 0 {
        Lexing::Outside
    } else {
        lex_step(lexing(bytes, at - 1), bytes[at - 1])
    }
}

/// The byte at `dot` is the point of a number whose integer part is the single
/// digit 0, outside any string.
pub open spec fn starts_zero_fraction(bytes: Seq<u8>, dot: int) -> bool {
    &&& 1 <= dot < bytes.len()
    &&& lexing(bytes, dot) is Outside
    &&& bytes[dot] == 0x2e
    &&& bytes[dot - 1] == 0x30
    &&& dot >= 2 ==> !is_digit(bytes[dot - 2])
}

/// What the parser holds while it reads a fraction.
pub struct Fraction {
    /// The digits taken into the mantissa so far, as a number.
    pub mantissa: nat,
    /// How many digits were taken, and so counted.
    pub counted: nat,
}

/// What the parser holds after the digits from `start` up to, not including,
/// `end` of the fraction of a number whose integer part is 0. A digit is taken
/// and counted while the mantissa is below `MAX_PRECISION`, and after that
/// where the mantissa with the digit still fits 64 bits.
pub open spec fn fraction(bytes: Seq<u8>, start: int, end: int) -> Fraction
    decreases end - start,
{
    if end <= start {
        Fraction { mantissa: 0, counted: 0 }
    } else {
        let before = fraction(bytes, start, end - 1);
        let with_digit = before.mantissa * 10 + (bytes[end - 1] - 0x30);
        if before.mantissa < MAX_PRECISION || with_digit <= u64::MAX {
            Fraction { mantissa: with_digit as nat, counted: before.counted + 1 }
        } else {
            before
        }
    }
}

/// The fraction behind the point at `dot` has, by `end`, more counted digits
/// than the parser's counter holds.
pub open spec fn overflows_between(bytes: Seq<u8>, dot: int, end: int) -> bool {
    &&& starts_zero_fraction(bytes, dot)
    &&& dot < end <= bytes.len()
    &&& all_digits(bytes, dot + 1, end)
    &&& fraction(bytes, dot + 1, end).counted > MAX_COUNTED_DIGITS
}

/// Somewhere in the bytes a fraction has more counted digits than the parser's
/// counter holds.
pub open spec fn overflows(bytes: Seq<u8>) -> bool {
    exists|dot: int, end: int| #[trigger] overflows_between(bytes, dot, end)
}

/// The text can be handed to the parser: in its UTF-8 bytes no fraction
/// outgrows the counter.
pub open spec fn parsable(text: Seq<char>) -> bool {
    !overflows(encode_utf8(text))
}

fn lex_next(state: Lexing, byte: u8) -> (r: Lexing)
    ensures
        r == lex_step(state, byte),
{
    match state {
        Lexing::Outside => if byte == 0x22 {
            Lexing::Inside
        } else {
            Lexing::Outside
        },
        Lexing::Inside => if byte == 0x5c {
            Lexing::Escaped
        } else if byte == 0x22 {
            Lexing::Outside
        } else {
            Lexing::Inside
        },
        Lexing::Escaped => Lexing::Inside,
    }
}

fn digit(byte: u8) -> (r: bool)
    ensures
        r == is_digit(byte),
{
    0x30 <= byte && byte <= 0x39
}

/// Whether no fraction in the bytes outgrows the parser's counter.
pub fn counter_holds(bytes: &[u8]) -> (r: bool)
    ensures
        r == !overflows(bytes@),
{
    let n = bytes.len();
    let mut i: usize = 0;
    let mut state = Lexing::Outside;
    while i < n
        invariant
            n == bytes@.len(),
            i <= n,
            state == lexing(bytes@, i as int),
            forall|dot: int, end: int| dot < i ==> !#[trigger] overflows_between(bytes@, dot, end),
        decreases n - i,
    {
        let byte = bytes[i];
        let outside = match state {
            Lexing::Outside => true,
            _ => false,
        };
        let after_zero = outside && byte == 0x2e && i >= 1 && bytes[i - 1] == 0x30 && (i < 2
            || !digit(bytes[i - 2]));
        if after_zero {
            let mut j: usize = i + 1;
            let mut mantissa: u64 = 0;
            let mut counted: usize = 0;
            while j < n && digit(bytes[j])
                invariant
                    n == bytes@.len(),
                    i < j <= n,
                    starts_zero_fraction(bytes@, i as int),
                    all_digits(bytes@, i + 1, j as int),
                    lexing(bytes@, j as int) is Outside,
                    fraction(bytes@, i + 1, j as int) == (Fraction {
                        mantissa: mantissa as nat,
                        counted: counted as nat,
                    }),
                    forall|end: int|
                        i < end <= j ==> (#[trigger] fraction(bytes@, i + 1, end)).counted
                            <= MAX_COUNTED_DIGITS,
                decreases n - j,
            {
                let d = bytes[j] - 0x30;
                if mantissa < MAX_PRECISION {
                    mantissa = mantissa * 10 + d as u64;
                    counted += 1;
                } else if mantissa as u128 * 10 + d as u128 <= u64::MAX as u128 {
                    mantissa = mantissa * 10 + d as u64;
                    counted += 1;
                }
                j += 1;
                if counted > MAX_COUNTED_DIGITS {
                    proof {
                        assert(overflows_between(bytes@, i as int, j as int));
                    }
                    return false;
                }
            }
            proof {
                assert forall|dot: int, end: int| dot < j implies !#[trigger] overflows_between(
                    bytes@,
                    dot,
                    end,
                ) by {
                    if dot == i {
                        if j < end <= n && all_digits(bytes@, i + 1, end) {
                            assert(is_digit(bytes@[j as int]));
                        }
                    } else if dot > i {
                        assert(is_digit(bytes@[dot]));
                    }
                }
            }
            i = j;
        } else {
            state = lex_next(state, byte);
            i += 1;
        }
    }
    true
}

/// `json::parse`: the result depends on the text alone. The parser counts the
/// digits that it takes from a fraction in an `i16`, without a guard, and
/// overflows on the 32 769th, which `requires` excludes. Only a number with
/// the integer part 0 can get there: behind any other the mantissa is past
/// `MAX_PRECISION` within twenty digits, and nothing more is counted.
#[verifier::external_body]
pub(crate) fn parse(text: &str) -> (r: Result<JsonValue, json::Error>)
    requires
        parsable(text@),
    ensures
        r == json_parsed(text@),
{
    json::parse(text)
}

/// `json::Error::ExceededDepthLimit`, the error that the parser itself gives
/// where the digits of an integer outgrow its counter. Nothing is claimed of
/// the value.
#[verifier::external_body]
pub(crate) fn counter_error() -> (r: json::Error) {
    json::Error::ExceededDepthLimit
}

/// `JsonValue::has_key`: true exactly on an object that holds the key.
#[verifier::external_body]
pub(crate) fn has_key(doc: &JsonValue, key: &str) -> (r: bool)
    ensures
        r == (json_fields(*doc) matches Some(entries) && entries.contains_key(key@)),
{
    doc.has_key(key)
}

/// Indexing a `JsonValue` by `&str`: the entry under the key, or a null where
/// the value is no object or has no such entry.
#[verifier::external_body]
pub(crate) fn field<'a>(doc: &'a JsonValue, key: &str) -> (r: &'a JsonValue)
    ensures
        has_field(*doc, key@) ==> *r == field_of(*doc, key@),
        !has_field(*doc, key@) ==> is_blank(*r),
{
    &doc[key]
}

/// `JsonValue::is_array`.
#[verifier::external_body]
pub(crate) fn is_array(doc: &JsonValue) -> (r: bool)
    ensures
        r == (json_elements(*doc) is Some),
{
    doc.is_array()
}

/// `JsonValue::len`: the number of elements of an array, the number of entries
/// of an object, and 0 for every other value.
#[verifier::external_body]
pub(crate) fn len(doc: &JsonValue) -> (r: usize)
    ensures
        json_elements(*doc) matches Some(items) ==> r == items.len(),
        json_fields(*doc) matches Some(entries) ==> r == entries.len(),
        json_elements(*doc) is None && json_fields(*doc) is None ==> r == 0,
{
    doc.len()
}

/// Indexing a `JsonValue` by `usize`: the element at the index, or a null where
/// the value is no array or the index is past its end.
#[verifier::external_body]
pub(crate) fn element<'a>(doc: &'a JsonValue, index: usize) -> (r: &'a JsonValue)
    ensures
        has_element(*doc, index as int) ==> *r == json_elements(*doc).unwrap()[index as int],
        !has_element(*doc, index as int) ==> is_blank(*r),
{
    &doc[index]
}

/// `JsonValue::clone`: a copy, equal to the document in every part.
#[verifier::external_body]
pub(crate) fn duplicate(doc: &JsonValue) -> (r: JsonValue)
    ensures
        r == *doc,
{
    doc.clone()
}

/// `JsonValue::as_str`: the characters of a string, `None` for any other value.
#[verifier::external_body]
pub(crate) fn as_str<'a>(doc: &'a JsonValue) -> (r: Option<&'a str>)
    ensures
        r is Some == json_text(*doc) is Some,
        r matches Some(s) ==> json_text(*doc) == Some(s@),
{
    doc.as_str()
}

/// `JsonValue::as_u64`.
#[verifier::external_body]
pub(crate) fn as_u64(doc: &JsonValue) -> (r: Option<u64>)
    ensures
        r == json_unsigned(*doc),
{
    doc.as_u64()
}

/// `JsonValue::as_u32`: what `as_u64` gives, where it fits in 32 bits.
#[verifier::external_body]
pub(crate) fn as_u32(doc: &JsonValue) -> (r: Option<u32>)
    ensures
        r == narrowed(json_unsigned(*doc)),
{
    doc.as_u32()
}

/// `JsonValue::insert`: on an object, sets the entry under the key, replacing
/// one that is there, and leaves the other entries as they are; on any other
/// value it fails and changes nothing.
#[verifier::external_body]
pub(crate) fn insert(doc: &mut JsonValue, key: &str, value: JsonValue) -> (r: Result<
    (),
    json::Error,
>)
    ensures
        json_fields(*old(doc)) matches Some(entries) ==> (r is Ok && json_fields(*final(doc))
            == Some(entries.insert(key@, value)) && is_object_only(*final(doc))),
        json_fields(*old(doc)) is None ==> (r is Err && *final(doc) == *old(doc)),
{
    doc.insert(key, value)
}

} // verus!
