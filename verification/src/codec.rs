//! Decoding of host-supplied header payloads into validated header fields.
//!
//! A payload is a flat JSON object that maps header names to header values,
//! both strings. The JSON grammar is left to `serde_json`, and the syntax of
//! names and values to the header types that `reqwest` re-exports; what this
//! module decides is which failure is reported and what the decoded list
//! holds.

use vstd::prelude::*;
use crate::error::Error;
use crate::request::{header_views, Header};

verus! {

/// The longest header name, in bytes, that the header types accept.
pub const MAX_HEADER_NAME_LEN: usize = 65535;

/// Whether `c` may stand in a header name: a letter, a digit, or one of
/// ``! # $ % & ' * + - . ^ _ ` | ~``.
pub open spec fn is_name_char(c: char) -> bool {
    ||| 'a' <= c <= 'z'
    ||| 'A' <= c <= 'Z'
    ||| '0' <= c <= '9'
    ||| c == '!'
    ||| c == '#'
    ||| c == '$'
    ||| c == '%'
    ||| c == '&'
    ||| c == '\''
    ||| c == '*'
    ||| c == '+'
    ||| c == '-'
    ||| c == '.'
    ||| c == '^'
    ||| c == '_'
    ||| c == '`'
    ||| c == '|'
    ||| c == '~'
}

/// Whether `name` is a header name: between one and 65535 characters, each
/// of them a name character.
pub open spec fn is_header_name(name: Seq<char>) -> bool {
    &&& 1 <= name.len() <= MAX_HEADER_NAME_LEN
    &&& forall|i: int| 0 <= i < name.len() ==> is_name_char(#[trigger] name[i])
}

/// `c` with an ASCII capital letter replaced by its small letter.
pub open spec fn ascii_lower(c: char) -> char {
    if 'A' <= c <= 'Z' {
        ((c as u8) + 32) as u8 as char
    } else {
        c
    }
}

/// The canonical form of a header name: every letter in lower case.
pub open spec fn canonical_name(name: Seq<char>) -> Seq<char> {
    name.map_values(|c: char| ascii_lower(c))
}

/// Whether `c` may stand in a header value given as text: anything but the
/// ASCII control characters, of which only the tab is let through.
pub open spec fn is_value_char(c: char) -> bool {
    (c >= ' ' && c != '\u{7f}') || c == '\t'
}

/// Whether `value` is a header value: every character a value character.
pub open spec fn is_header_value(value: Seq<char>) -> bool {
    forall|i: int| 0 <= i < value.len() ==> is_value_char(#[trigger] value[i])
}

/// Whether `b` is a printable ASCII byte or a tab.
pub open spec fn is_visible_byte(b: u8) -> bool {
    (32 <= b < 127) || b == 9
}

/// Whether every byte of `bytes` is printable ASCII or a tab.
pub open spec fn is_visible_text(bytes: Seq<u8>) -> bool {
    forall|i: int| 0 <= i < bytes.len() ==> is_visible_byte(#[trigger] bytes[i])
}

/// The characters that the bytes of a visible text stand for.
pub open spec fn bytes_as_chars(bytes: Seq<u8>) -> Seq<char> {
    bytes.map_values(|b: u8| b as char)
}

/// The members of the JSON object that `text` holds, as pairs of key and
/// value, each key once and in ascending order of the keys, or `None` where
/// `text` is not a JSON object whose values are all strings. This is what
/// `serde_json::from_str` yields when asked for a `BTreeMap<String, String>`.
pub uninterp spec fn json_string_object(text: Seq<char>) -> Option<Seq<(Seq<char>, Seq<char>)>>;

/// The pairs of a decoded object as plain values.
pub open spec fn pair_views(pairs: Seq<(String, String)>) -> Seq<(Seq<char>, Seq<char>)> {
    pairs.map_values(|p: (String, String)| (p.0@, p.1@))
}

/// Calls `serde_json::from_str` for a `BTreeMap<String, String>` and hands
/// the map's entries out in the map's own order. Nothing is proved of the
/// parser: the contract only names its result, `json_string_object`, so that
/// callers can say what they do with it.
#[verifier::external_body]
fn parse_string_object(text: &str) -> (parsed: Option<Vec<(String, String)>>)
    ensures
        match parsed {
            Some(pairs) => json_string_object(text@) == Some(pair_views(pairs@)),
            None => json_string_object(text@) is None,
        },
{
    match serde_json::from_str::<std::collections::BTreeMap<String, String>>(text) {
        Ok(object) => Some(object.into_iter().collect()),
        Err(_) => None,
    }
}

/// Calls `HeaderName::from_bytes` on the bytes of `name` and returns the
/// accepted name as `HeaderName::as_str` gives it. The contract states what
/// the parser's character table shows: a name is accepted when it has between
/// one and 65535 bytes, all of them name characters, and the accepted name is
/// the input with its capital letters in lower case.
#[verifier::external_body]
fn parse_header_name(name: &str) -> (canonical: Option<String>)
    ensures
        match canonical {
            Some(accepted) => is_header_name(name@) && accepted@ == canonical_name(name@),
            None => !is_header_name(name@),
        },
{
    match reqwest::header::HeaderName::from_bytes(name.as_bytes()) {
        Ok(accepted) => Some(accepted.as_str().to_owned()),
        Err(_) => None,
    }
}

/// Calls `HeaderValue::from_str` and tells whether it accepted `value`. The
/// contract states the byte test in its source over characters: a character
/// below U+0080 is its own byte, and every byte of a longer encoding is
/// above 127 and passes.
#[verifier::external_body]
fn accepts_header_value(value: &str) -> (accepted: bool)
    ensures
        accepted == is_header_value(value@),
{
    reqwest::header::HeaderValue::from_str(value).is_ok()
}

/// Calls `HeaderValue::from_bytes` and then `HeaderValue::to_str`, and
/// returns the text where both succeed. `to_str` succeeds when every byte is
/// printable ASCII or a tab, and `from_bytes` accepts all of those, so the
/// text is returned exactly for such values and consists of the bytes
/// themselves.
#[verifier::external_body]
pub(crate) fn header_value_text(bytes: &[u8]) -> (text: Option<String>)
    ensures
        match text {
            Some(shown) => is_visible_text(bytes@) && shown@ == bytes_as_chars(bytes@),
            None => !is_visible_text(bytes@),
        },
{
    match reqwest::header::HeaderValue::from_bytes(bytes) {
        Ok(value) => value.to_str().ok().map(|shown| shown.to_owned()),
        Err(_) => None,
    }
}

/// What is wrong with a pair of name and value, if anything. The name is
/// looked at before the value.
pub open spec fn pair_fault(pair: (Seq<char>, Seq<char>)) -> Option<Error> {
    if !is_header_name(pair.0) {
        Some(Error::InvalidHeaderName)
    } else if !is_header_value(pair.1) {
        Some(Error::InvalidHeaderValue)
    } else {
        None
    }
}

/// The header fields that a sequence of pairs decodes to: each name in
/// canonical form with its value unchanged, in the order of the pairs. Where
/// a pair is at fault the result is the fault of the first such pair.
pub open spec fn decode_pairs(pairs: Seq<(Seq<char>, Seq<char>)>) -> Result<
    Seq<(Seq<char>, Seq<char>)>,
    Error,
>
    decreases pairs.len(),
{
    if pairs.len() == 0 {
        Ok(Seq::empty())
    } else {
        match decode_pairs(pairs.drop_last()) {
            Err(fault) => Err(fault),
            Ok(fields) => match pair_fault(pairs.last()) {
                Some(fault) => Err(fault),
                None => Ok(fields.push((canonical_name(pairs.last().0), pairs.last().1))),
            },
        }
    }
}

/// Whether a header field can travel as it is: its name is a header name
/// in canonical form and its value a header value.
pub open spec fn is_valid_field(field: (Seq<char>, Seq<char>)) -> bool {
    &&& is_header_name(field.0)
    &&& canonical_name(field.0) == field.0
    &&& is_header_value(field.1)
}

/// Whether every field of a list can travel as it is.
pub open spec fn all_valid_fields(fields: Seq<(Seq<char>, Seq<char>)>) -> bool {
    forall|i: int| 0 <= i < fields.len() ==> is_valid_field(#[trigger] fields[i])
}

/// The canonical form of a header name is a header name, and is its own
/// canonical form.
pub proof fn lemma_canonical_name_is_canonical(name: Seq<char>)
    requires
        is_header_name(name),
    ensures
        is_header_name(canonical_name(name)),
        canonical_name(canonical_name(name)) == canonical_name(name),
{
    let lowered = canonical_name(name);
    assert forall|i: int| 0 <= i < lowered.len() implies is_name_char(#[trigger] lowered[i])
        && ascii_lower(lowered[i]) == lowered[i] by {
        assert(is_name_char(name[i]));
        assert(lowered[i] == ascii_lower(name[i]));
    }
    assert(canonical_name(lowered) =~= lowered);
}

/// Decoding keeps the number and order of the pairs, and yields only fields
/// that can travel as they are.
pub proof fn lemma_decoded_fields_are_valid(pairs: Seq<(Seq<char>, Seq<char>)>)
    ensures
        match decode_pairs(pairs) {
            Ok(fields) => fields.len() == pairs.len() && all_valid_fields(fields),
            Err(fault) => fault == Error::InvalidHeaderName || fault == Error::InvalidHeaderValue,
        },
    decreases pairs.len(),
{
    if pairs.len() > 0 {
        lemma_decoded_fields_are_valid(pairs.drop_last());
        match decode_pairs(pairs.drop_last()) {
            Ok(front) => {
                if pair_fault(pairs.last()) is None {
                    lemma_canonical_name_is_canonical(pairs.last().0);
                    let fields = decode_pairs(pairs)->Ok_0;
                    assert forall|i: int| 0 <= i < fields.len() implies is_valid_field(
                        #[trigger] fields[i],
                    ) by {
                        if i < front.len() {
                            assert(fields[i] == front[i]);
                        }
                    }
                }
            },
            Err(_) => {},
        }
    }
}

/// The field that a pair becomes: the name in canonical form, the value
/// unchanged.
pub open spec fn field_of_pair(pair: (Seq<char>, Seq<char>)) -> (Seq<char>, Seq<char>) {
    (canonical_name(pair.0), pair.1)
}

/// Decoding succeeds exactly when no pair is at fault, and then turns
/// every pair into its field. It fails exactly when some pair is at fault,
/// and then with the fault of the first such pair.
pub proof fn lemma_decoding_characterised(pairs: Seq<(Seq<char>, Seq<char>)>)
    ensures
        match decode_pairs(pairs) {
            Ok(fields) => {
                &&& forall|i: int| 0 <= i < pairs.len() ==> pair_fault(#[trigger] pairs[i]) is None
                &&& fields == pairs.map_values(|pair: (Seq<char>, Seq<char>)| field_of_pair(pair))
            },
            Err(fault) => exists|i: int|
                {
                    &&& 0 <= i < pairs.len()
                    &&& pair_fault(#[trigger] pairs[i]) == Some(fault)
                    &&& forall|j: int| 0 <= j < i ==> pair_fault(#[trigger] pairs[j]) is None
                },
        },
    decreases pairs.len(),
{
    if pairs.len() > 0 {
        let front = pairs.drop_last();
        lemma_decoding_characterised(front);
        match decode_pairs(front) {
            Ok(fields) => {
                assert forall|j: int| 0 <= j < front.len() implies pair_fault(
                    #[trigger] pairs[j],
                ) is None by {
                    assert(pairs[j] == front[j]);
                }
                match pair_fault(pairs.last()) {
                    None => {
                        assert(decode_pairs(pairs)->Ok_0 =~= pairs.map_values(
                            |pair: (Seq<char>, Seq<char>)| field_of_pair(pair),
                        ));
                    },
                    Some(fault) => {
                        let at = pairs.len() - 1;
                        assert(pair_fault(pairs[at]) == Some(fault));
                    },
                }
            },
            Err(fault) => {
                let at = choose|i: int|
                    {
                        &&& 0 <= i < front.len()
                        &&& pair_fault(#[trigger] front[i]) == Some(fault)
                        &&& forall|j: int| 0 <= j < i ==> pair_fault(#[trigger] front[j]) is None
                    };
                assert(pairs[at] == front[at]);
                assert forall|j: int| 0 <= j < at implies pair_fault(#[trigger] pairs[j]) is None by {
                    assert(pairs[j] == front[j]);
                }
            },
        }
    } else {
        assert(decode_pairs(pairs)->Ok_0 =~= pairs.map_values(
            |pair: (Seq<char>, Seq<char>)| field_of_pair(pair),
        ));
    }
}

/// What a header payload decodes to.
pub open spec fn decode_text(text: Seq<char>) -> Result<Seq<(Seq<char>, Seq<char>)>, Error> {
    match json_string_object(text) {
        None => Err(Error::MalformedInput),
        Some(pairs) => decode_pairs(pairs),
    }
}

/// The outcome of a decoding as plain values.
pub open spec fn decoded_view(decoded: Result<Vec<Header>, Error>) -> Result<
    Seq<(Seq<char>, Seq<char>)>,
    Error,
> {
    match decoded {
        Ok(fields) => Ok(header_views(fields@)),
        Err(fault) => Err(fault),
    }
}

/// Validates pairs of name and value in order and turns them into header
/// fields. Fails with `InvalidHeaderName` or `InvalidHeaderValue` for the
/// first pair that is at fault.
pub fn validate_headers(pairs: &Vec<(String, String)>) -> (decoded: Result<Vec<Header>, Error>)
    ensures
        decoded_view(decoded) == decode_pairs(pair_views(pairs@)),
        match decoded {
            Ok(fields) => fields@.len() == pairs@.len() && all_valid_fields(header_views(fields@)),
            Err(fault) => fault == Error::InvalidHeaderName || fault == Error::InvalidHeaderValue,
        },
{
    proof {
        lemma_decoded_fields_are_valid(pair_views(pairs@));
    }
    let ghost all = pair_views(pairs@);
    let mut fields: Vec<Header> = Vec::new();
    let mut i: usize = 0;
    assert(all.take(0) =~= Seq::empty());
    assert(header_views(fields@) =~= Seq::empty());
    while i < pairs.len()
        invariant
            i <= pairs.len(),
            all == pair_views(pairs@),
            decode_pairs(all.take(i as int)) == Ok::<Seq<(Seq<char>, Seq<char>)>, Error>(
                header_views(fields@),
            ),
        decreases pairs.len() - i,
    {
        let ghost before = all.take(i as int);
        let ghost upto = all.take(i as int + 1);
        assert(upto.drop_last() =~= before);
        assert(upto.last() == (pairs@[i as int].0@, pairs@[i as int].1@));
        let pair = &pairs[i];
        let name = match parse_header_name(pair.0.as_str()) {
            Some(accepted) => accepted,
            None => {
                proof {
                    lemma_fault_stays(all, i as int + 1);
                }
                return Err(Error::InvalidHeaderName);
            },
        };
        if !accepts_header_value(pair.1.as_str()) {
            proof {
                lemma_fault_stays(all, i as int + 1);
            }
            return Err(Error::InvalidHeaderValue);
        }
        let ghost shown = header_views(fields@);
        fields.push(Header { name, value: pair.1.clone() });
        assert(header_views(fields@) =~= shown.push((canonical_name(upto.last().0), upto.last().1)));
        i += 1;
    }
    assert(all.take(i as int) =~= all);
    Ok(fields)
}

/// A fault found in a prefix of the pairs is the fault of the whole.
pub proof fn lemma_fault_stays(pairs: Seq<(Seq<char>, Seq<char>)>, upto: int)
    requires
        0 <= upto <= pairs.len(),
        decode_pairs(pairs.take(upto)) is Err,
    ensures
        decode_pairs(pairs) == decode_pairs(pairs.take(upto)),
    decreases pairs.len() - upto,
{
    if upto < pairs.len() {
        let longer = pairs.take(upto + 1);
        assert(longer.drop_last() =~= pairs.take(upto));
        lemma_fault_stays(pairs, upto + 1);
    } else {
        assert(pairs.take(upto) =~= pairs);
    }
}

/// Decodes a header payload: a flat JSON object of strings becomes a list of
/// validated header fields, in ascending order of the object's keys.
///
/// Fails with `MalformedInput` where the text is not such an object, and
/// with `InvalidHeaderName` or `InvalidHeaderValue` for the first member
/// whose key or value cannot travel in a header.
pub fn decode_headers(text: &str) -> (decoded: Result<Vec<Header>, Error>)
    ensures
        decoded_view(decoded) == decode_text(text@),
        decoded matches Ok(fields) ==> all_valid_fields(header_views(fields@)),
{
    match parse_string_object(text) {
        Some(pairs) => validate_headers(&pairs),
        None => Err(Error::MalformedInput),
    }
}

} // verus!
