//! What the library has from outside: UTF-8 validation, charset sniffing,
//! and decoding and encoding in the sniffed or named charset.

use vstd::prelude::*;
use vstd::utf8::*;
use chardetng::EncodingDetector;
use encoding_rs::Encoding;

verus! {

/// The longest content, in bytes, that is decoded or encoded in a charset
/// other than UTF-8. The coders compute buffer sizes as small multiples of
/// the input's length, and stop where such a size does not fit the machine's
/// word; up to this bound every one of them fits.
pub const MAX_CONTENT_LEN: usize = usize::MAX / 32;

/// The name of the encoding that the detector guesses for a complete input.
pub uninterp spec fn guessed_charset(bytes: Seq<u8>) -> Seq<char>;

/// The input decoded in the guessed encoding, malformed sequences replaced,
/// and whether any was replaced.
pub uninterp spec fn guessed_text(bytes: Seq<u8>) -> (Seq<char>, bool);

/// Whether an encoding is known under this label.
pub uninterp spec fn label_known(label: Seq<char>) -> bool;

/// The text encoded in the encoding known under the label.
pub uninterp spec fn encoded(label: Seq<char>, text: Seq<char>) -> Seq<u8>;

/// `std::str::from_utf8`: the bytes as text where they are valid UTF-8, and
/// nothing where they are not. The text's UTF-8 encoding is the input.
#[verifier::external_body]
pub(crate) fn utf8_text(bytes: &[u8]) -> (r: Option<String>)
    ensures
        r.is_some() == valid_utf8(bytes@),
        r matches Some(text) ==> encode_utf8(text@) == bytes@,
{
    match std::str::from_utf8(bytes) {
        Ok(text) => Some(text.to_owned()),
        Err(_) => None,
    }
}

/// `chardetng::EncodingDetector`, fed the whole input as its last chunk and
/// asked for a guess with UTF-8 ruled out, then `encoding_rs::Encoding::decode`
/// in the guessed encoding. Returns the encoding's name, the decoded text,
/// and whether the decoder replaced malformed sequences. All three depend on
/// the bytes alone, which is all that is claimed of them.
#[verifier::external_body]
pub(crate) fn guess_and_decode(bytes: &[u8]) -> (r: (String, String, bool))
    requires
        bytes@.len() <= MAX_CONTENT_LEN,
    ensures
        r.0@ == guessed_charset(bytes@),
        (r.1@, r.2) == guessed_text(bytes@),
{
    let mut detector = EncodingDetector::new();
    detector.feed(bytes, true);
    let encoding = detector.guess(None, false);
    let (decoded, _, had_errors) = encoding.decode(bytes);
    (encoding.name().to_owned(), decoded.into_owned(), had_errors)
}

/// `encoding_rs::Encoding::for_label`, then `Encoding::encode` in the
/// encoding found. Returns nothing where no encoding has this label, else
/// the encoded text, with unmappable characters replaced as the encoder does.
#[verifier::external_body]
pub(crate) fn encode_with_label(content: &str, label: &str) -> (r: Option<Vec<u8>>)
    requires
        encode_utf8(content@).len() <= MAX_CONTENT_LEN,
    ensures
        r.is_some() == label_known(label@),
        r matches Some(bytes) ==> bytes@ == encoded(label@, content@),
{
    match Encoding::for_label(label.as_bytes()) {
        Some(encoding) => Some(encoding.encode(content).0.into_owned()),
        None => None,
    }
}

} // verus!
