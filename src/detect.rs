//! Content sniffing, charset guessing and decoding, as done by outside crates.
use vstd::prelude::*;

verus! {

/// How a strict decode of a whole buffer ended.
#[derive(Debug, Clone, Copy, PartialEq, Eq, Structural)]
pub enum DecodeStatus {
    /// All input was decoded.
    Complete,
    /// A byte sequence is not valid in the encoding.
    Malformed,
    /// The decoded text did not fit the space set aside for it.
    OutputFull,
}

/// The charset name that chardet guesses for a byte buffer.
pub uninterp spec fn detected_charset(bytes: Seq<u8>) -> Seq<char>;

/// Whether encoding_rs knows an encoding by this label.
pub uninterp spec fn known_label(label: Seq<char>) -> bool;

/// The text that encoding_rs decodes from the bytes with the encoding that
/// the label names, starting from a fresh decoder.
pub uninterp spec fn decoded_text(label: Seq<char>, bytes: Seq<u8>) -> Seq<char>;

/// Whether the bytes hold no malformed sequence for the encoding that the
/// label names.
pub uninterp spec fn well_formed(label: Seq<char>, bytes: Seq<u8>) -> bool;

/// Bytes on which chardet cannot settle: 7-bit text with an escape byte and
/// no byte above 0x7F but 0xA0. chardet stops such input at
/// `unreachable!` unless one of its escape probers recognises it.
pub open spec fn escape_only(bytes: Seq<u8>) -> bool {
    &&& exists|i: int| 0 <= i < bytes.len() && bytes[i] == 0x1Bu8
    &&& forall|i: int| 0 <= i < bytes.len() ==> (bytes[i] < 0x80u8 || bytes[i] == 0xA0u8)
}

/// The encoding label that chardet gives for one of its charset names.
pub open spec fn encoding_label(charset: Seq<char>) -> Seq<char> {
    if charset == seq!['C', 'P', '9', '3', '2'] {
        seq!['w', 'i', 'n', 'd', 'o', 'w', 's', '-', '3', '1', 'j']
    } else if charset == seq!['C', 'P', '9', '4', '9'] {
        seq!['w', 'i', 'n', 'd', 'o', 'w', 's', '-', '9', '4', '9']
    } else if charset == seq!['M', 'a', 'c', 'C', 'y', 'r', 'i', 'l', 'l', 'i', 'c'] {
        seq!['x', '-', 'm', 'a', 'c', '-', 'c', 'y', 'r', 'i', 'l', 'l', 'i', 'c']
    } else {
        charset
    }
}

/// Relies on tree_magic::from_u8: a MIME type for the content. tree_magic
/// may read the machine's MIME database, so nothing is stated of it.
#[verifier::external_body]
pub(crate) fn sniff_mime(bytes: &[u8]) -> (r: String) {
    tree_magic::from_u8(bytes)
}

/// Relies on chardet::detect: the name of the most likely charset.
#[verifier::external_body]
pub(crate) fn detect_charset(bytes: &[u8]) -> (r: String)
    requires
        !escape_only(bytes@),
    ensures
        r@ == detected_charset(bytes@),
{
    chardet::detect(bytes).0
}

/// Relies on chardet::charset2encoding: three charset names are renamed,
/// every other is handed back as it is.
#[verifier::external_body]
pub(crate) fn charset_to_encoding(charset: &String) -> (r: String)
    ensures
        r@ == encoding_label(charset@),
{
    chardet::charset2encoding(charset).to_owned()
}

/// Relies on encoding_rs::Encoding::for_label, Encoding::new_decoder and
/// Decoder::decode_to_string_without_replacement, called once on the whole
/// input as its last piece: `None` when no encoding has the label; else the
/// decoded text is appended to `dst`, within its capacity, and decoding stops
/// at the first malformed sequence.
#[verifier::external_body]
pub(crate) fn decode_with_label(label: &str, src: &[u8], dst: &mut String) -> (r: Option<
    DecodeStatus,
>)
    ensures
        r is None <==> !known_label(label@),
        r is None ==> final(dst)@ == old(dst)@,
        r == Some(DecodeStatus::Complete) ==> well_formed(label@, src@) && final(dst)@ == old(
            dst,
        )@ + decoded_text(label@, src@),
        r == Some(DecodeStatus::Malformed) ==> !well_formed(label@, src@),
{
    let encoding = encoding_rs::Encoding::for_label(label.as_bytes())?;
    let mut decoder = encoding.new_decoder();
    match decoder.decode_to_string_without_replacement(src, dst, true).0 {
        encoding_rs::DecoderResult::InputEmpty => Some(DecodeStatus::Complete),
        encoding_rs::DecoderResult::Malformed(_, _) => Some(DecodeStatus::Malformed),
        encoding_rs::DecoderResult::OutputFull => Some(DecodeStatus::OutputFull),
    }
}

/// Whether the bytes are 7-bit text with an escape byte, on which no charset
/// is guessed.
pub fn is_escape_only(bytes: &[u8]) -> (r: bool)
    ensures
        r == escape_only(bytes@),
{
    let mut has_escape = false;
    let mut i: usize = 0;
    while i < bytes.len()
        invariant
            i <= bytes.len(),
            has_escape == exists|j: int| 0 <= j < i && bytes@[j] == 0x1Bu8,
            forall|j: int| 0 <= j < i ==> (bytes@[j] < 0x80u8 || bytes@[j] == 0xA0u8),
        decreases bytes.len() - i,
    {
        let b = bytes[i];
        if b >= 0x80 && b != 0xA0 {
            return false;
        }
        if b == 0x1B {
            has_escape = true;
        }
        i = i + 1;
    }
    has_escape
}

} // verus!
