//! The framing of a response's data: the JSON text of the response is encoded
//! as base64 and decoded back into the binary that the host carries.
use vstd::prelude::*;
use vstd::utf8::encode_utf8;

verus! {

/// The base64 text of `bytes` in the standard alphabet, padded with `=`.
pub uninterp spec fn base64_standard_encoding(bytes: Seq<u8>) -> Seq<char>;

/// The bytes that a base64 text in the standard alphabet stands for, padded or
/// not, or `None` where it is not such a text.
pub uninterp spec fn base64_standard_decoding(text: Seq<char>) -> Option<Seq<u8>>;

/// `base64::encode`: encodes with the `STANDARD` configuration (standard
/// alphabet, with padding). Claims the result is `base64_standard_encoding` of
/// the input.
#[verifier::external_body]
fn base64_encode(input: &[u8]) -> (r: String)
    ensures
        r@ == base64_standard_encoding(input@),
{
    base64::encode(input)
}

/// `cosmwasm_std::Binary::from_base64`: decodes with the standard alphabet,
/// accepting text with or without padding. Claims the result is
/// `base64_standard_decoding` of the text, and that a text produced by
/// `base64::encode` decodes to the bytes it was produced from.
#[verifier::external_body]
fn binary_from_base64(encoded: &str) -> (r: Option<Vec<u8>>)
    ensures
        r matches Some(v) ==> base64_standard_decoding(encoded@) == Some(v@),
        r is None ==> base64_standard_decoding(encoded@) is None,
        r is None ==> forall|b: Seq<u8>| #[trigger] base64_standard_encoding(b) != encoded@,
        r matches Some(v) ==> forall|b: Seq<u8>| #[trigger]
            base64_standard_encoding(b) == encoded@ ==> v@ == b,
{
    match cosmwasm_std::Binary::from_base64(encoded) {
        Ok(binary) => Some(binary.0),
        Err(_) => None,
    }
}

/// The response data that carries the JSON text `json`: its UTF-8 bytes, passed
/// through base64 and back.
pub fn json_response_bytes(json: &str) -> (r: Vec<u8>)
    ensures
        r@ == encode_utf8(json@),
{
    let bytes = json.as_bytes();
    let encoded = base64_encode(bytes);
    match binary_from_base64(encoded.as_str()) {
        Some(data) => data,
        None => {
            assert(base64_standard_encoding(bytes@) == encoded@);
            assert(false);
            Vec::new()
        },
    }
}

} // verus!
