//! Reading the metadata JSON files: text decoding, byte order marks, and
//! which directory entries are metadata files.
use vstd::prelude::*;
use vstd::string::StrSliceExecFns;
use vstd::utf8::{decode_utf8, valid_utf8};
use crate::encoding::utf8_str;
use crate::text::{chars_of, ends_with, ends_with_exec, string_of};

verus! {

/// The text of the bytes when they are UTF-8, else the empty text.
pub open spec fn utf8_or_empty(bytes: Seq<u8>) -> Seq<char> {
    if valid_utf8(bytes) {
        decode_utf8(bytes)
    } else {
        Seq::empty()
    }
}

/// `t` without a leading byte order mark (U+FEFF), if it has one.
pub open spec fn without_bom(t: Seq<char>) -> Seq<char> {
    if t.len() > 0 && t[0] == '\u{feff}' {
        t.drop_first()
    } else {
        t
    }
}

/// Reads JSON file bytes as text: invalid UTF-8 reads as the empty text,
/// and one leading byte order mark is dropped.
pub fn strip_bom(bytes: &[u8]) -> (r: &str)
    ensures
        r@ == without_bom(utf8_or_empty(bytes@)),
{
    let s: &str = match utf8_str(bytes) {
        Some(s) => s,
        None => {
            proof {
                reveal_strlit("");
            }
            ""
        },
    };
    let n = s.unicode_len();
    if n > 0 && s.get_char(0) == '\u{feff}' {
        let r = s.substring_char(1, n);
        assert(r@ =~= s@.drop_first());
        r
    } else {
        s
    }
}

/// A parsed JSON document (`serde_json::Value`); the library carries it
/// through without looking inside.
#[verifier::external_type_specification]
#[verifier::external_body]
pub struct ExJsonValue(serde_json::Value);

/// The name of `serde_json::from_str::<serde_json::Value>` on a text: the
/// document it parses, none when the text is not JSON.
pub uninterp spec fn json_parse(text: Seq<char>) -> Option<serde_json::Value>;

/// The name of the `Array` variant of a JSON document: its elements in
/// order, none for any other variant.
pub uninterp spec fn json_array_elements(v: serde_json::Value) -> Option<Seq<serde_json::Value>>;

/// The name of setting one string member of a JSON object
/// (`serde_json::Map::insert` of `key` with `Value::String(value)`); any
/// value other than an object stays as it is.
pub uninterp spec fn json_with_string_member(
    v: serde_json::Value,
    key: Seq<char>,
    value: Seq<char>,
) -> serde_json::Value;

/// `serde_json::from_str::<serde_json::Value>`, with the parse error as its
/// display text. The document is named `json_parse` of the text; what the
/// error text says is left to the crate.
#[verifier::external_body]
fn parse_json_value(text: &str) -> (r: Result<serde_json::Value, String>)
    ensures
        r is Ok <==> json_parse(text@) is Some,
        r matches Ok(v) ==> json_parse(text@) == Some(v),
{
    match serde_json::from_str::<serde_json::Value>(text) {
        Ok(v) => Ok(v),
        Err(e) => Err(e.to_string()),
    }
}

/// The elements of a JSON array (`serde_json::Value::Array`), none for any
/// other variant; named `json_array_elements`.
#[verifier::external_body]
fn array_elements(v: serde_json::Value) -> (r: Option<Vec<serde_json::Value>>)
    ensures
        r is Some <==> json_array_elements(v) is Some,
        r matches Some(items) ==> json_array_elements(v) == Some(items@),
{
    match v {
        serde_json::Value::Array(a) => Some(a),
        _ => None,
    }
}

/// `serde_json::Map::insert` of `key` with the string `value` into a JSON
/// object (the `Object` variant); any other value comes back as it is.
/// The result is named `json_with_string_member`.
#[verifier::external_body]
fn set_string_member(v: serde_json::Value, key: &str, value: &str) -> (r: serde_json::Value)
    ensures
        r == json_with_string_member(v, key@, value@),
{
    let mut v = v;
    if let serde_json::Value::Object(ref mut map) = v {
        map.insert(key.to_string(), serde_json::Value::String(value.to_string()));
    }
    v
}

/// Reads the bytes of a JSON file (`read_json_file` once the file is read):
/// invalid UTF-8 reads as empty text, a leading byte order mark is dropped,
/// and the text is parsed. The error is `parse <path>: <parser's message>`.
pub fn parse_json_text(path_display: &str, bytes: &[u8]) -> (r: Result<serde_json::Value, String>)
    ensures
        r is Ok <==> json_parse(without_bom(utf8_or_empty(bytes@))) is Some,
        r matches Ok(v) ==> json_parse(without_bom(utf8_or_empty(bytes@))) == Some(v),
        r matches Err(m) ==> exists|e: Seq<char>|
            #![trigger "parse "@ + path_display@ + ": "@ + e]
            m@ == "parse "@ + path_display@ + ": "@ + e,
{
    let text = strip_bom(bytes);
    match parse_json_value(text) {
        Ok(v) => Ok(v),
        Err(e) => {
            let mut s = chars_of("parse ");
            let mut p = chars_of(path_display);
            s.append(&mut p);
            let mut c = chars_of(": ");
            s.append(&mut c);
            let mut t = chars_of(e.as_str());
            s.append(&mut t);
            let m = string_of(s.as_slice());
            assert(m@ =~= "parse "@ + path_display@ + ": "@ + e@);
            Err(m)
        },
    }
}

/// The key under which a metadata record names the file it came from.
pub open spec fn source_file_key() -> Seq<char> {
    "_sourceFile"@
}

/// The records of one file of a metadata directory: none unless its name
/// ends in `.json` and its text (read as `strip_bom` does) is a JSON array;
/// otherwise every element of the array, in order, objects with
/// `_sourceFile` set to the file name.
pub open spec fn file_records(name: Seq<char>, bytes: Seq<u8>) -> Seq<serde_json::Value> {
    if !ends_with(name, ".json"@) {
        Seq::empty()
    } else {
        match json_parse(without_bom(utf8_or_empty(bytes))) {
            Some(doc) => match json_array_elements(doc) {
                Some(items) => items.map_values(
                    |v: serde_json::Value| json_with_string_member(v, source_file_key(), name),
                ),
                None => Seq::empty(),
            },
            None => Seq::empty(),
        }
    }
}

/// The records that one file of a metadata directory contributes
/// (`load_metadata_dir`): `file_records` of its name and bytes.
pub fn metadata_file_records(name: &str, bytes: &[u8]) -> (r: Vec<serde_json::Value>)
    ensures
        r@ == file_records(name@, bytes@),
{
    if !is_metadata_file_name(name) {
        return Vec::new();
    }
    let text = strip_bom(bytes);
    let doc = match parse_json_value(text) {
        Ok(d) => d,
        Err(_) => return Vec::new(),
    };
    let mut items = match array_elements(doc) {
        Some(items) => items,
        None => return Vec::new(),
    };
    let ghost orig = items@;
    let ghost tagged = orig.map_values(
        |v: serde_json::Value| json_with_string_member(v, source_file_key(), name@),
    );
    let n = items.len();
    let mut rev: Vec<serde_json::Value> = Vec::new();
    while items.len() > 0
        invariant
            items.len() + rev.len() == n,
            n == orig.len(),
            tagged.len() == orig.len(),
            items@ == orig.subrange(0, items.len() as int),
            forall|j: int| 0 <= j < rev.len() ==> #[trigger] rev@[j] == tagged[n - 1 - j],
            forall|k: int| 0 <= k < orig.len() ==> #[trigger] tagged[k] == json_with_string_member(
                orig[k],
                source_file_key(),
                name@,
            ),
        decreases items.len(),
    {
        match items.pop() {
            Some(v) => {
                assert(v == orig[items.len() as int]);
                let t = set_string_member(v, "_sourceFile", name);
                rev.push(t);
                assert(items@ =~= orig.subrange(0, items.len() as int));
            },
            None => {},
        }
    }
    let mut out: Vec<serde_json::Value> = Vec::new();
    while rev.len() > 0
        invariant
            out.len() + rev.len() == n,
            tagged.len() == n,
            forall|j: int| 0 <= j < rev.len() ==> #[trigger] rev@[j] == tagged[n - 1 - j],
            forall|k: int| 0 <= k < out.len() ==> #[trigger] out@[k] == tagged[k],
        decreases rev.len(),
    {
        match rev.pop() {
            Some(v) => {
                out.push(v);
            },
            None => {},
        }
    }
    assert(out@ =~= tagged);
    out
}

/// A directory entry that `load_metadata_dir` reads: a name ending in
/// `.json`.
pub fn is_metadata_file_name(name: &str) -> (r: bool)
    ensures
        r == ends_with(name@, ".json"@),
{
    let n = chars_of(name);
    let suffix = chars_of(".json");
    ends_with_exec(n.as_slice(), suffix.as_slice())
}

} // verus!
