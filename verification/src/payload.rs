//! The tile data of a layer: base64 text that holds one little-endian
//! 32-bit word per tile.
use crate::error::DecodeError;
use crate::value::is_word;
use byteorder::{ByteOrder, LittleEndian};
use vstd::prelude::*;
use vstd::slice::slice_subrange;
use vstd::utf8::encode_utf8_decode_utf8;

verus! {

/// The 32-bit word that four bytes write, least significant byte first.
pub open spec fn le_word(b0: u8, b1: u8, b2: u8, b3: u8) -> u32 {
    (b0 + 256 * b1 + 65536 * b2 + 16777216 * b3) as u32
}

/// The word with index `i` among the words of `bytes`.
pub open spec fn word_at(bytes: Seq<u8>, i: int) -> u32 {
    le_word(bytes[4 * i], bytes[4 * i + 1], bytes[4 * i + 2], bytes[4 * i + 3])
}

/// The whole words that `bytes` hold, in order.
pub open spec fn words_of_bytes(bytes: Seq<u8>) -> Seq<u32> {
    Seq::new(bytes.len() / 4, |i: int| word_at(bytes, i))
}

/// Byte `k` of a word, counted from the least significant one.
pub open spec fn le_byte(word: u32, k: int) -> u8 {
    if k == 0 {
        (word % 256) as u8
    } else if k == 1 {
        (word / 256 % 256) as u8
    } else if k == 2 {
        (word / 65536 % 256) as u8
    } else {
        (word / 16777216 % 256) as u8
    }
}

/// The bytes that write `words`, four to a word, least significant first.
pub open spec fn bytes_of_words(words: Seq<u32>) -> Seq<u8> {
    Seq::new(4 * words.len(), |k: int| le_byte(words[k / 4], k % 4))
}

/// What a decoded payload of `bytes` gives for a grid of `expected` cells:
/// the tiles, if the bytes are whole words and as many as the grid has
/// cells.
pub open spec fn tiles_outcome(bytes: Seq<u8>, expected: u64) -> Result<Seq<u32>, DecodeError> {
    if bytes.len() % 4 != 0 {
        Err(DecodeError::PayloadDecode)
    } else if bytes.len() / 4 != expected {
        Err(DecodeError::SizeMismatch { expected, found: (bytes.len() / 4) as u64 })
    } else {
        Ok(words_of_bytes(bytes))
    }
}

/// The bytes that base64 text stands for in the standard alphabet, or
/// nothing where the text is not base64.
pub uninterp spec fn base64_decoded(text: Seq<char>) -> Option<Seq<u8>>;

/// What the text of a data block gives for a grid of `expected` cells.
pub open spec fn payload_outcome(text: Seq<char>, encoding: Seq<char>, expected: u64) -> Result<
    Seq<u32>,
    DecodeError,
> {
    if encoding != "base64"@ {
        Err(DecodeError::UnsupportedEncoding)
    } else {
        match base64_decoded(text) {
            Some(bytes) => tiles_outcome(bytes, expected),
            None => Err(DecodeError::PayloadDecode),
        }
    }
}

/// A list of tiles, or the error in its place, with the tiles as a sequence.
pub open spec fn tiles_view(tiles: Result<Vec<u32>, DecodeError>) -> Result<
    Seq<u32>,
    DecodeError,
> {
    match tiles {
        Ok(tiles) => Ok(tiles@),
        Err(error) => Err(error),
    }
}

/// The contents of an optional byte vector.
pub open spec fn bytes_view(bytes: Option<Vec<u8>>) -> Option<Seq<u8>> {
    match bytes {
        Some(bytes) => Some(bytes@),
        None => None,
    }
}

/// `base64::decode`: the bytes that the text stands for, or nothing where
/// the call reports an error.  The call reads nothing but its argument.
#[verifier::external_body]
fn base64_decode(text: &str) -> (bytes: Option<Vec<u8>>)
    ensures
        bytes_view(bytes) == base64_decoded(text@),
{
    base64::decode(text).ok()
}

/// `byteorder::LittleEndian::read_u32`: the word that the first four bytes
/// write, least significant byte first.  The call needs four bytes.
#[verifier::external_body]
fn read_word(bytes: &[u8]) -> (word: u32)
    requires
        bytes@.len() >= 4,
    ensures
        word == le_word(bytes@[0], bytes@[1], bytes@[2], bytes@[3]),
{
    LittleEndian::read_u32(bytes)
}

/// Reads the tiles of a grid of `expected` cells out of decoded bytes.
///
/// Bytes that are no whole number of words are a
/// [`DecodeError::PayloadDecode`]; a number of words other than `expected`
/// is a [`DecodeError::SizeMismatch`].
pub fn tiles_from_bytes(bytes: &[u8], expected: u64) -> (tiles: Result<Vec<u32>, DecodeError>)
    ensures
        tiles_view(tiles) == tiles_outcome(bytes@, expected),
{
    let len = bytes.len();
    if len % 4 != 0 {
        return Err(DecodeError::PayloadDecode);
    }
    let count: usize = len / 4;
    if count as u64 != expected {
        return Err(DecodeError::SizeMismatch { expected, found: count as u64 });
    }
    let mut tiles: Vec<u32> = Vec::new();
    let mut i: usize = 0;
    while i < count
        invariant
            i <= count,
            len == bytes@.len(),
            count == len / 4,
            len % 4 == 0,
            tiles@.len() == i,
            forall|k: int| 0 <= k < i ==> tiles@[k] == word_at(bytes@, k),
        decreases count - i,
    {
        let four = slice_subrange(bytes, 4 * i, 4 * i + 4);
        let word = read_word(four);
        tiles.push(word);
        i += 1;
    }
    assert(tiles@ =~= words_of_bytes(bytes@));
    Ok(tiles)
}

/// Decodes the text of a data block into the tiles of a grid of `expected`
/// cells.  The count is 64 bits wide, so that the product of two 32-bit
/// dimensions can be handed in as it is.
pub fn decode_payload(text: &str, encoding: &str, expected: u64) -> (tiles: Result<
    Vec<u32>,
    DecodeError,
>)
    ensures
        tiles_view(tiles) == payload_outcome(text@, encoding@, expected),
{
    proof {
        // Two texts with the same bytes are the same text.
        encode_utf8_decode_utf8(encoding@);
        encode_utf8_decode_utf8("base64"@);
    }
    if !is_word(encoding.as_bytes(), "base64") {
        return Err(DecodeError::UnsupportedEncoding);
    }
    match base64_decode(text) {
        Some(bytes) => tiles_from_bytes(bytes.as_slice(), expected),
        None => Err(DecodeError::PayloadDecode),
    }
}

/// Decodes the text of a data block.
///
/// The text must be declared as `base64`, or the result is
/// [`DecodeError::UnsupportedEncoding`].  It must be base64 and hold whole
/// little-endian 32-bit words, or the result is
/// [`DecodeError::PayloadDecode`]; and exactly `expected_count` of them, or
/// the result is [`DecodeError::SizeMismatch`].
pub fn decode_layer_payload(text: &str, encoding: &str, expected_count: usize) -> (tiles: Result<
    Vec<u32>,
    DecodeError,
>)
    ensures
        tiles_view(tiles) == payload_outcome(text@, encoding@, expected_count as u64),
{
    decode_payload(text, encoding, expected_count as u64)
}

/// Reading the bytes that write a list of words gives the words back.
pub proof fn lemma_words_round_trip(words: Seq<u32>)
    ensures
        bytes_of_words(words).len() == 4 * words.len(),
        words_of_bytes(bytes_of_words(words)) == words,
{
    let bytes = bytes_of_words(words);
    assert forall|i: int| 0 <= i < words.len() implies word_at(bytes, i) == words[i] by {
        let word = words[i];
        assert(bytes[4 * i] == le_byte(word, 0));
        assert(bytes[4 * i + 1] == le_byte(word, 1));
        assert(bytes[4 * i + 2] == le_byte(word, 2));
        assert(bytes[4 * i + 3] == le_byte(word, 3));
    }
    assert(words_of_bytes(bytes) =~= words);
}

/// Encoding the tiles of a layer as little-endian words in base64 and
/// decoding the text again gives the same tiles: whatever text stands for
/// the bytes of `tiles` decodes to `tiles`, for the grid they fill.
pub proof fn lemma_payload_round_trip(tiles: Seq<u32>, text: Seq<char>)
    requires
        tiles.len() <= u64::MAX,
        base64_decoded(text) == Some(bytes_of_words(tiles)),
    ensures
        tiles_outcome(bytes_of_words(tiles), tiles.len() as u64) == Ok::<Seq<u32>, DecodeError>(
            tiles,
        ),
        payload_outcome(text, "base64"@, tiles.len() as u64) == Ok::<Seq<u32>, DecodeError>(tiles),
{
    lemma_words_round_trip(tiles);
}

} // verus!
