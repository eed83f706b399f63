use vstd::prelude::*;
use crate::models::cols_view;

verus! {

/// The canonical text encoding of a column list, as produced by
/// `serde_json::to_vec`. The encoding is a function of the column names and
/// values alone.
pub uninterp spec fn json_of(cols: Seq<(Seq<char>, Seq<char>)>) -> Seq<u8>;

/// What `serde_json::from_slice` recovers from a byte sequence: the column
/// list it encodes, or nothing when the bytes are not a valid encoding.
pub uninterp spec fn cols_of(bytes: Seq<u8>) -> Option<Seq<(Seq<char>, Seq<char>)>>;

/// Relies on serde_json::to_vec: encoding a list of string pairs always
/// succeeds, is a function of the pairs alone, and serde_json::from_slice
/// recovers the same pairs from it.
#[verifier::external_body]
pub(crate) fn serialize_columns(cols: &Vec<(String, String)>) -> (r: Option<Vec<u8>>)
    ensures
        r is Some,
        r matches Some(v) ==> v@ == json_of(cols_view(cols@)) && cols_of(v@) == Some(
            cols_view(cols@),
        ),
{
    serde_json::to_vec(cols).ok()
}

/// Relies on serde_json::from_slice: decoding yields the column list that the
/// bytes encode, and fails exactly when they encode none.
#[verifier::external_body]
pub(crate) fn deserialize_columns(bytes: &[u8]) -> (r: Option<Vec<(String, String)>>)
    ensures
        r is Some <==> cols_of(bytes@) is Some,
        r matches Some(v) ==> cols_of(bytes@) == Some(cols_view(v@)),
{
    serde_json::from_slice::<Vec<(String, String)>>(bytes).ok()
}

/// Relies on String::from_utf8: succeeds exactly on valid UTF-8, recovering
/// the decoded characters.
#[verifier::external_body]
pub(crate) fn text_from_bytes(bytes: &[u8]) -> (r: Option<String>)
    ensures
        r is Some <==> vstd::utf8::valid_utf8(bytes@),
        r matches Some(s) ==> s@ == vstd::utf8::decode_utf8(bytes@),
{
    String::from_utf8(bytes.to_vec()).ok()
}

} // verus!
