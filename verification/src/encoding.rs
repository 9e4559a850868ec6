//! Turning the bytes that `p4` writes into text.
use vstd::prelude::*;
use vstd::utf8::{decode_utf8, valid_utf8};

verus! {

/// `std::str::from_utf8`: the text the bytes encode, when they are valid
/// UTF-8. The claim is the documented one: an error exactly for bytes that
/// are not UTF-8, and otherwise the decoded characters.
#[verifier::external_body]
pub(crate) fn utf8_str(bytes: &[u8]) -> (r: Option<&str>)
    ensures
        r is Some <==> valid_utf8(bytes@),
        r matches Some(s) ==> s@ == decode_utf8(bytes@),
{
    match std::str::from_utf8(bytes) {
        Ok(s) => Some(s),
        Err(_) => None,
    }
}

/// The name of `String::from_utf8_lossy`: the bytes decoded with every
/// invalid sequence replaced by U+FFFD.
pub uninterp spec fn utf8_lossy(bytes: Seq<u8>) -> Seq<char>;

/// `String::from_utf8_lossy`. Its result is named `utf8_lossy` of the
/// bytes; the documentation also says that valid UTF-8 comes back decoded
/// unchanged. How invalid sequences are replaced is left to the name.
#[verifier::external_body]
pub(crate) fn utf8_lossy_string(bytes: &[u8]) -> (r: String)
    ensures
        r@ == utf8_lossy(bytes@),
        valid_utf8(bytes@) ==> r@ == decode_utf8(bytes@),
{
    String::from_utf8_lossy(bytes).into_owned()
}

/// The text of `p4` standard output: the UTF-8 decoding when the bytes are
/// UTF-8, else the system code page's reading when there is one, else the
/// lossy UTF-8 decoding.
pub open spec fn p4_text(bytes: Seq<u8>, codepage: Option<Seq<char>>) -> Seq<char> {
    if valid_utf8(bytes) {
        decode_utf8(bytes)
    } else {
        match codepage {
            Some(t) => t,
            None => utf8_lossy(bytes),
        }
    }
}

/// Decodes what `p4` wrote on standard output. UTF-8 comes first, since
/// `-Mj` JSON output may be raw UTF-8 even on a console with another code
/// page; `codepage` is the system code page's reading of the same bytes,
/// which the caller supplies where the platform has one (Windows); the last
/// resort is a lossy UTF-8 decoding, which never fails.
pub fn decode_p4_stdout(bytes: &[u8], codepage: Option<String>) -> (r: String)
    ensures
        r@ == p4_text(bytes@, codepage.deep_view()),
{
    match utf8_str(bytes) {
        Some(s) => s.to_owned(),
        None => match codepage {
            Some(t) => t,
            None => utf8_lossy_string(bytes),
        },
    }
}

/// Text that `p4` wrote as UTF-8 comes back unchanged, whatever the code
/// page would make of the same bytes.
pub proof fn lemma_utf8_output_unchanged(text: Seq<char>, codepage: Option<Seq<char>>)
    ensures
        p4_text(vstd::utf8::encode_utf8(text), codepage) == text,
{
    vstd::utf8::encode_utf8_valid_utf8(text);
    vstd::utf8::encode_utf8_decode_utf8(text);
}

} // verus!
