//! Reading a model's reply as a mapping from file name to category.

use vstd::prelude::*;
use crate::mapping::{entries_map, CategoryMapping};
use crate::text::{
    lemma_trimmed_is_identity, strip_text_prefix, strip_text_suffix, stripped_prefix,
    stripped_suffix, trim_text, trimmed,
};

verus! {

/// The marker that opens or closes a fenced block.
pub const FENCE: &'static str = "```";

/// The marker that opens a fenced block tagged as JSON.
pub const JSON_FENCE: &'static str = "```json";

/// Why a reply could not be read.
#[derive(Debug, Clone, PartialEq, Eq)]
pub enum ParseError {
    /// The reply, once cleaned, is not a JSON object whose values are all
    /// strings. `raw` is the reply as it came.
    InvalidJson { raw: String },
}

impl ParseError {
    /// The reply that could not be read, as it came.
    pub fn raw(&self) -> (text: &str)
        ensures
            self matches ParseError::InvalidJson { raw } && text@ == raw@,
    {
        match self {
            ParseError::InvalidJson { raw } => raw.as_str(),
        }
    }
}

/// Declares `serde_json::Error`, the error of the JSON reader and writer.
/// Trusted as an opaque type: nothing is said of what it holds.
#[verifier::external_type_specification]
#[verifier::external_body]
pub struct ExJsonError(serde_json::Error);

/// What `serde_json::from_str` makes of `text` when asked for a map from
/// string to string: the pairs of the object ordered by name, or `None`
/// where the text is refused.
pub uninterp spec fn json_object_entries(text: Seq<char>) -> Option<Seq<(Seq<char>, Seq<char>)>>;

/// `s` without `p` in front, or `s` itself where it does not begin with `p`.
pub open spec fn without_prefix(s: Seq<char>, p: Seq<char>) -> Seq<char> {
    match stripped_prefix(s, p) {
        Some(rest) => rest,
        None => s,
    }
}

/// `s` without `p` at its end, or `s` itself where it does not end with `p`.
pub open spec fn without_suffix(s: Seq<char>, p: Seq<char>) -> Seq<char> {
    match stripped_suffix(s, p) {
        Some(rest) => rest,
        None => s,
    }
}

/// `s` without the markers of a fenced block: an opening fence tagged as
/// JSON, then a plain fence, each only where the text begins with it, and
/// last a closing fence where the text ends with one.
pub open spec fn without_fences(s: Seq<char>) -> Seq<char> {
    without_suffix(without_prefix(without_prefix(s, JSON_FENCE@), FENCE@), FENCE@)
}

/// The text of a reply that is handed to the JSON reader: the reply without
/// surrounding whitespace and without fence markers.
pub open spec fn cleaned(raw: Seq<char>) -> Seq<char> {
    without_fences(trimmed(raw))
}

/// What reading the reply `raw` comes to, given what the JSON reader made
/// of its cleaned text.
pub open spec fn parse_outcome(
    raw: Seq<char>,
    reading: Option<Seq<(Seq<char>, Seq<char>)>>,
) -> Result<Map<Seq<char>, Seq<char>>, Seq<char>> {
    match reading {
        Some(entries) => Ok(entries_map(entries)),
        None => Err(raw),
    }
}

/// Whether `r` is the outcome `expected`: the same mapping, or the error
/// that carries the same reply.
pub open spec fn is_outcome(
    r: Result<CategoryMapping, ParseError>,
    expected: Result<Map<Seq<char>, Seq<char>>, Seq<char>>,
) -> bool {
    match (r, expected) {
        (Ok(m), Ok(map)) => m@ == map,
        (Err(ParseError::InvalidJson { raw }), Err(text)) => raw@ == text,
        _ => false,
    }
}

/// Calls `serde_json::from_str` for a map from string to string, ordered by
/// key. Trusted: the reader's answer depends on the text alone; the contract
/// names it and says nothing of which texts are accepted.
#[verifier::external_body]
pub(crate) fn read_json_object(text: &str) -> (r: Result<Vec<(String, String)>, serde_json::Error>)
    ensures
        match r {
            Ok(entries) => json_object_entries(text@) == Some(entries.deep_view()),
            Err(_) => json_object_entries(text@) is None,
        },
{
    serde_json::from_str::<std::collections::BTreeMap<String, String>>(text).map(
        |object| object.into_iter().collect(),
    )
}

/// Takes the whitespace round a reply and the markers of a fenced block off.
pub fn clean_response(raw_response: &str) -> (text: &str)
    ensures
        text@ == cleaned(raw_response@),
{
    let text = trim_text(raw_response);
    let text = match strip_text_prefix(text, JSON_FENCE) {
        Some(rest) => rest,
        None => text,
    };
    let text = match strip_text_prefix(text, FENCE) {
        Some(rest) => rest,
        None => text,
    };
    match strip_text_suffix(text, FENCE) {
        Some(rest) => rest,
        None => text,
    }
}

/// Turns what the JSON reader made of a reply's cleaned text into the
/// result of the parse: the mapping of the pairs read, or the error that
/// carries the reply as it came where the reader refused the text.
pub fn mapping_from_reading(raw_response: &str, reading: Option<Vec<(String, String)>>) -> (r:
    Result<CategoryMapping, ParseError>)
    ensures
        is_outcome(
            r,
            parse_outcome(
                raw_response@,
                match reading {
                    Some(entries) => Some(entries.deep_view()),
                    None => None,
                },
            ),
        ),
{
    match reading {
        Some(entries) => Ok(CategoryMapping::from_entries(entries)),
        None => Err(ParseError::InvalidJson { raw: String::from_str(raw_response) }),
    }
}

/// Reads a model's reply as a mapping from file name to category.
///
/// The reply is cleaned of surrounding whitespace and fence markers and then
/// read as a JSON object whose values are all strings. Where the reader
/// refuses the text the whole parse fails with the reply as it came; no part
/// of a malformed object is recovered.
pub fn parse(raw_response: &str) -> (r: Result<CategoryMapping, ParseError>)
    ensures
        is_outcome(r, parse_outcome(raw_response@, json_object_entries(cleaned(raw_response@)))),
{
    let text = clean_response(raw_response);
    let reading = match read_json_object(text) {
        Ok(entries) => Some(entries),
        Err(_) => None,
    };
    mapping_from_reading(raw_response, reading)
}

/// A reply that consists of an opening fence, tagged as JSON or not, a body
/// and a closing fence is cleaned to the body. After a tagged opener the body
/// must not itself begin with a fence; after a plain opener it must not
/// begin with the tag. A body that needs no cleaning of its own is then read
/// exactly as it would be read without the fences.
pub proof fn lemma_fenced_reply_is_cleaned_to_body(opener: Seq<char>, body: Seq<char>)
    requires
        opener == JSON_FENCE@ || opener == FENCE@,
        opener == JSON_FENCE@ ==> !FENCE@.is_prefix_of(body + FENCE@),
        opener == FENCE@ ==> !JSON_FENCE@.is_prefix_of(opener + body + FENCE@),
    ensures
        cleaned(opener + body + FENCE@) == body,
        cleaned(body) == body ==> json_object_entries(cleaned(opener + body + FENCE@))
            == json_object_entries(cleaned(body)),
{
    reveal_strlit("```");
    reveal_strlit("```json");
    let fenced = opener + body + FENCE@;
    let rest = body + FENCE@;
    assert(fenced.first() == '`' && fenced.last() == '`');
    lemma_trimmed_is_identity(fenced);
    assert(FENCE@.is_prefix_of(fenced));
    if opener == JSON_FENCE@ {
        assert(JSON_FENCE@.is_prefix_of(fenced));
        assert(fenced.skip(JSON_FENCE@.len() as int) =~= rest);
    } else {
        assert(fenced.skip(FENCE@.len() as int) =~= rest);
    }
    assert(FENCE@.is_suffix_of(rest));
    assert(rest.take(rest.len() - FENCE@.len()) =~= body);
}

} // verus!
