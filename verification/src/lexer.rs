use crate::digits::{digit_char, hex_text};
use vstd::prelude::*;

verus! {

/// Why a text could not be turned into bytecode.
#[derive(Debug, Clone, Copy, PartialEq, Eq, Structural)]
pub enum LexError {
    /// The text, once its prefix is gone, has an odd number of characters or
    /// holds a character that is no hexadecimal digit.
    MalformedInput,
    /// The metadata trailer announces more bytes than the bytecode holds.
    TruncatedMetadata,
}

impl LexError {
    /// A short description, for a caller that reports the error.
    pub fn message(&self) -> (text: &'static str)
        ensures
            text@ == match self {
                LexError::MalformedInput => "Malformed input"@,
                LexError::TruncatedMetadata => "Truncated metadata"@,
            },
    {
        match self {
            LexError::MalformedInput => "Malformed input",
            LexError::TruncatedMetadata => "Truncated metadata",
        }
    }
}

/// Value of a hexadecimal digit, in either case; `None` for any other character.
pub open spec fn hex_value(c: char) -> Option<u8> {
    if '0' <= c <= '9' {
        Some((c as u32 - '0' as u32) as u8)
    } else if 'a' <= c <= 'f' {
        Some((c as u32 - 'a' as u32 + 10) as u8)
    } else if 'A' <= c <= 'F' {
        Some((c as u32 - 'A' as u32 + 10) as u8)
    } else {
        None
    }
}

/// True for a text made of pairs of hexadecimal digits.
pub open spec fn is_hex_text(text: Seq<char>) -> bool {
    &&& text.len() % 2 == 0
    &&& forall|i: int| 0 <= i < text.len() ==> (#[trigger] hex_value(text[i])) is Some
}

/// The byte written by the `k`-th pair of digits of `text`.
pub open spec fn hex_byte_at(text: Seq<char>, k: int) -> u8 {
    (16 * hex_value(text[2 * k]).unwrap() + hex_value(text[2 * k + 1]).unwrap()) as u8
}

/// The bytes that a hexadecimal text writes, two digits to a byte.
pub open spec fn hex_bytes(text: Seq<char>) -> Seq<u8> {
    Seq::new(text.len() / 2, |k: int| hex_byte_at(text, k))
}

/// True for a text that begins with the two characters `0x`.
pub open spec fn has_prefix(text: Seq<char>) -> bool {
    text.len() >= 2 && text[0] == '0' && text[1] == 'x'
}

/// The text after its `0x` prefix, or the whole text when it has none.
pub open spec fn without_prefix(text: Seq<char>) -> Seq<char> {
    if has_prefix(text) {
        text.skip(2)
    } else {
        text
    }
}

/// True when the last byte, read as the length of the trailer's payload,
/// together with the two bytes of the length footer, fits in `bytes`.
pub open spec fn metadata_fits(bytes: Seq<u8>) -> bool {
    bytes.len() >= 1 && bytes.last() + 2 <= bytes.len()
}

/// `bytes` without its trailer: the payload and the two-byte footer are gone.
pub open spec fn without_metadata(bytes: Seq<u8>) -> Seq<u8> {
    bytes.take(bytes.len() - bytes.last() - 2)
}

/// What stripping the trailer of `bytes` gives.
pub open spec fn stripped(bytes: Seq<u8>) -> Result<Seq<u8>, LexError> {
    if metadata_fits(bytes) {
        Ok(without_metadata(bytes))
    } else {
        Err(LexError::TruncatedMetadata)
    }
}

/// The bytecode that `text` stands for, or the reason why it stands for none.
pub open spec fn normalized(text: Seq<char>, strip_metadata_trailer: bool) -> Result<
    Seq<u8>,
    LexError,
> {
    let digits = without_prefix(text);
    if !is_hex_text(digits) {
        Err(LexError::MalformedInput)
    } else if strip_metadata_trailer {
        stripped(hex_bytes(digits))
    } else {
        Ok(hex_bytes(digits))
    }
}

/// True when `result` is what the model `expected` says, success or failure.
pub open spec fn agrees(result: Result<Vec<u8>, LexError>, expected: Result<Seq<u8>, LexError>) -> bool {
    match expected {
        Ok(bytes) => result is Ok && result->Ok_0@ == bytes,
        Err(e) => result is Err && result->Err_0 == e,
    }
}

/// Stripping removes the trailer and nothing else: what stays is the start of
/// the bytecode, shorter by the payload that the last byte announces and by
/// the two bytes of the footer.
pub proof fn lemma_stripped_removes_trailer(bytes: Seq<u8>)
    requires
        metadata_fits(bytes),
    ensures
        stripped(bytes) is Ok,
        stripped(bytes)->Ok_0.len() + bytes.last() + 2 == bytes.len(),
        stripped(bytes)->Ok_0 == bytes.take(stripped(bytes)->Ok_0.len() as int),
{
}

/// Reading inverts writing: the hexadecimal text of any bytes is read back
/// as those bytes.
pub proof fn lemma_normalize_inverts_hex_text(bytes: Seq<u8>)
    ensures
        is_hex_text(hex_text(bytes)),
        hex_bytes(hex_text(bytes)) == bytes,
        normalized(hex_text(bytes), false) == Ok::<Seq<u8>, LexError>(bytes),
{
    let text = hex_text(bytes);
    assert forall|d: nat| d < 16 implies #[trigger] hex_value(digit_char(d)) == Some(d as u8) by {}
    assert forall|i: int| 0 <= i < text.len() implies (#[trigger] hex_value(text[i])) is Some by {
        let byte = bytes[i / 2];
        assert(byte / 16 < 16 && byte % 16 < 16);
    }
    assert forall|k: int| 0 <= k < bytes.len() implies hex_byte_at(text, k) == bytes[k] by {
        let byte = bytes[k];
        assert(text[2 * k] == digit_char((byte / 16) as nat));
        assert(text[2 * k + 1] == digit_char((byte % 16) as nat));
        assert(hex_value(digit_char((byte / 16) as nat)) == Some(byte / 16));
        assert(hex_value(digit_char((byte % 16) as nat)) == Some(byte % 16));
    }
    assert(hex_bytes(text) =~= bytes);
    if has_prefix(text) {
        assert(hex_value(text[1]) is Some);
    }
}

/// Collects the characters of `text`, in order.
pub fn text_chars(text: &str) -> (out: Vec<char>)
    ensures
        out@ == text@,
{
    let mut out: Vec<char> = Vec::new();
    for c in it: text.chars()
        invariant
            out@ == it.seq().take(it.index()),
            it.seq() == text@,
    {
        out.push(c);
    }
    out
}

/// Reads one hexadecimal digit.
pub fn hex_digit(c: char) -> (value: Option<u8>)
    ensures
        value == hex_value(c),
        value matches Some(v) ==> v < 16,
{
    if '0' <= c && c <= '9' {
        Some((c as u32 - '0' as u32) as u8)
    } else if 'a' <= c && c <= 'f' {
        Some((c as u32 - 'a' as u32 + 10) as u8)
    } else if 'A' <= c && c <= 'F' {
        Some((c as u32 - 'A' as u32 + 10) as u8)
    } else {
        None
    }
}

/// Removes the metadata trailer: the last byte gives the length of its
/// payload, and the payload goes together with the two-byte length footer.
/// The length byte is checked against what is there before anything is cut.
pub fn strip_metadata(bytecode: &Vec<u8>) -> (result: Result<Vec<u8>, LexError>)
    ensures
        agrees(result, stripped(bytecode@)),
{
    let len = bytecode.len();
    if len == 0 {
        return Err(LexError::TruncatedMetadata);
    }
    let metadata_len: usize = bytecode[len - 1] as usize;
    if len < 2 || metadata_len > len - 2 {
        return Err(LexError::TruncatedMetadata);
    }
    let keep = len - 2 - metadata_len;
    let mut out: Vec<u8> = Vec::new();
    let mut i: usize = 0;
    while i < keep
        invariant
            i <= keep <= bytecode@.len(),
            out@ == bytecode@.take(i as int),
        decreases keep - i,
    {
        out.push(bytecode[i]);
        i += 1;
    }
    Ok(out)
}

/// Turns the text of a bytecode file into bytes: an optional `0x` prefix is
/// dropped, the hexadecimal digits are read in pairs, and the metadata
/// trailer is removed when `strip_metadata_trailer` asks for it.
pub fn normalize(text: &str, strip_metadata_trailer: bool) -> (result: Result<Vec<u8>, LexError>)
    ensures
        agrees(result, normalized(text@, strip_metadata_trailer)),
{
    let chars = text_chars(text);
    let len = chars.len();
    let start: usize = if len >= 2 && chars[0] == '0' && chars[1] == 'x' {
        2
    } else {
        0
    };
    let ghost digits = without_prefix(text@);
    assert(digits == chars@.skip(start as int));
    if (len - start) % 2 != 0 {
        return Err(LexError::MalformedInput);
    }
    let mut bytes: Vec<u8> = Vec::new();
    let mut i: usize = start;
    while i < len
        invariant
            start <= i <= len == chars@.len(),
            (i - start) % 2 == 0,
            (len - start) % 2 == 0,
            digits == chars@.skip(start as int),
            digits == without_prefix(text@),
            bytes@.len() == (i - start) / 2,
            forall|j: int| 0 <= j < i - start ==> (#[trigger] hex_value(digits[j])) is Some,
            forall|k: int| 0 <= k < bytes@.len() ==> bytes@[k] == hex_byte_at(digits, k),
        decreases len - i,
    {
        let ghost k = (i - start) / 2;
        assert(digits[2 * k] == chars@[i as int]);
        assert(digits[2 * k + 1] == chars@[i + 1]);
        match (hex_digit(chars[i]), hex_digit(chars[i + 1])) {
            (Some(high), Some(low)) => {
                bytes.push(high * 16 + low);
            },
            _ => {
                assert(!is_hex_text(digits));
                return Err(LexError::MalformedInput);
            },
        }
        i += 2;
    }
    assert(is_hex_text(digits));
    assert(bytes@ =~= hex_bytes(digits));
    if strip_metadata_trailer {
        strip_metadata(&bytes)
    } else {
        Ok(bytes)
    }
}

/// The bytecode of one input, ready to be read from its first byte.
pub struct Lexer {
    pub bytecode: Vec<u8>,
    index: usize,
}

/// Mathematical model of a [`Lexer`]: the bytes and the offset of the next
/// byte to read.
pub struct LexerView {
    pub bytecode: Seq<u8>,
    pub offset: nat,
}

impl View for Lexer {
    type V = LexerView;

    closed spec fn view(&self) -> LexerView {
        LexerView { bytecode: self.bytecode@, offset: self.index as nat }
    }
}

impl Lexer {
    /// Reads `text` as bytecode. The metadata trailer is removed unless
    /// `with_metadata` keeps it.
    pub fn new(text: &str, with_metadata: bool) -> (result: Result<Lexer, LexError>)
        ensures
            match normalized(text@, !with_metadata) {
                Ok(bytes) => result is Ok && result->Ok_0@ == (LexerView {
                    bytecode: bytes,
                    offset: 0,
                }),
                Err(e) => result is Err && result->Err_0 == e,
            },
    {
        match normalize(text, !with_metadata) {
            Ok(bytecode) => Ok(Lexer { bytecode, index: 0 }),
            Err(e) => Err(e),
        }
    }
}

} // verus!
