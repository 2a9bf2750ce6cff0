//! The JSON texts that `serde_json` writes and reads.

use vstd::prelude::*;

verus! {

/// The string has no characters that JSON escapes: no quote, no backslash, and no
/// control character.
pub open spec fn is_plain(value: Seq<char>) -> bool {
    forall|i: int|
        0 <= i < value.len() ==> #[trigger] value[i] >= ' ' && value[i] != '"' && value[i] != '\\'
}

/// The string between quotes.
pub open spec fn quoted(value: Seq<char>) -> Seq<char> {
    seq!['"'] + value + seq!['"']
}

/// What `serde_json::from_str` reads when it is asked for a string: the string,
/// or nothing when it reports an error.
pub uninterp spec fn json_string(text: Seq<char>) -> Option<Seq<char>>;

/// What `serde_json::from_str` reads when it is asked for a map from strings to
/// nulls: the distinct keys in ascending order, or nothing when it reports an
/// error.
pub uninterp spec fn json_null_keys(text: Seq<char>) -> Option<Seq<Seq<char>>>;

/// Whether `serde_json` reads the whole text as an enum value that carries data,
/// which is how it spells an object with exactly one entry.
pub uninterp spec fn json_single_entry(text: Seq<char>) -> bool;

/// Calls `serde_json::to_string` on a string without characters to escape. Claimed
/// of it: it does not fail, it writes the string between quotes, and
/// `serde_json::from_str` reads the string back from that.
#[verifier::external_body]
pub(crate) fn write_string(value: &str) -> (text: String)
    requires
        is_plain(value@),
    ensures
        text@ == quoted(value@),
        json_string(text@) == Some(value@),
{
    serde_json::to_string(value).unwrap()
}

/// Calls `serde_json::from_str` for a `String`. Claimed of it: what it reads,
/// and whether it reports an error, depends on the text alone, and from a string
/// without escaped characters between quotes it reads that string.
#[verifier::external_body]
pub(crate) fn read_string(text: &str) -> (value: Option<String>)
    ensures
        match value {
            Some(string) => json_string(text@) == Some(string@),
            None => json_string(text@) is None,
        },
        forall|plain: Seq<char>|
            is_plain(plain) && text@ == #[trigger] quoted(plain) ==> value is Some && value->0@
                == plain,
{
    serde_json::from_str::<String>(text).ok()
}

/// Calls `serde_json::from_str` for a `BTreeMap<String, ()>` and hands out the
/// keys in the map's order. Claimed of it: what it reads, and whether it reports
/// an error, depends on the text alone. A key that occurs twice in the text is
/// handed out once.
#[verifier::external_body]
pub(crate) fn read_null_keys(text: &str) -> (keys: Option<Vec<String>>)
    ensures
        match keys {
            Some(list) => json_null_keys(text@) == Some(list.deep_view()),
            None => json_null_keys(text@) is None,
        },
{
    serde_json::from_str::<std::collections::BTreeMap<String, ()>>(text)
        .ok()
        .map(|map| map.into_keys().collect())
}

/// Calls `deserialize_enum` of `serde_json`'s deserializer with a visitor that
/// ignores the variant and its data, then `end`. Claimed of them: whether both
/// succeed depends on the text alone.
#[verifier::external_body]
pub(crate) fn is_single_entry(text: &str) -> (single: bool)
    ensures
        single == json_single_entry(text@),
{
    let mut reader = serde_json::Deserializer::from_str(text);
    serde::Deserializer::deserialize_enum(&mut reader, "", &[], serde::de::IgnoredAny).is_ok()
        && reader.end().is_ok()
}

} // verus!
