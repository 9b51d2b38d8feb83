//! Text helpers for diagnostics: lossy decoding of record bytes, the width
//! of text in UTF-8, and clipping text to a width.

use bstr::ByteSlice;
use vstd::prelude::*;

verus! {

/// The Unicode replacement character, which stands for undecodable bytes.
pub const REPLACEMENT: char = '\u{FFFD}';

/// The characters that `bytes` decode to when every invalid UTF-8 sequence
/// is replaced by U+FFFD.
pub uninterp spec fn decoded_chars(bytes: Seq<u8>) -> Seq<char>;

/// Whether `bytes` can be turned into a path of the platform that the
/// library is built for.
pub uninterp spec fn path_decodes(bytes: Seq<u8>) -> bool;

/// The first element of `text`, if there is one.
pub open spec fn first_of(text: Seq<char>) -> Option<char> {
    if text.len() > 0 {
        Some(text[0])
    } else {
        None
    }
}

/// Whether every byte of `bytes` is ASCII.
pub open spec fn all_ascii(bytes: Seq<u8>) -> bool {
    forall|i: int| 0 <= i < bytes.len() ==> bytes[i] < 0x80
}

/// ASCII bytes as text: each byte is the character with its number.
pub open spec fn ascii_text(bytes: Seq<u8>) -> Seq<char> {
    Seq::new(bytes.len(), |i: int| bytes[i] as char)
}

/// The text that `bytes` stand for, read leniently: ASCII bytes stand for
/// themselves, and anything else is decoded as UTF-8 with U+FFFD in place of
/// every invalid sequence.
pub open spec fn decoded_text(bytes: Seq<u8>) -> Seq<char> {
    if all_ascii(bytes) {
        ascii_text(bytes)
    } else {
        decoded_chars(bytes)
    }
}

/// Whether `bytes` can stand as a path: ASCII bytes always can, and other
/// bytes where the platform can decode them.
pub open spec fn decodable(bytes: Seq<u8>) -> bool {
    all_ascii(bytes) || path_decodes(bytes)
}

/// Calls `bstr::ByteSlice::chars` and collects what it yields. The result
/// is named `decoded_chars`. Besides the name the contract claims what the
/// decoder's source shows of ASCII: a byte below 0x80 at the front is
/// decoded by itself, to the character with its number, so input that is
/// ASCII throughout decodes to its own bytes.
#[verifier::external_body]
pub(crate) fn lossy_chars(bytes: &[u8]) -> (chars: Vec<char>)
    ensures
        chars@ == decoded_chars(bytes@),
        bytes@.len() > 0 && bytes@[0] < 0x80 ==> chars@.len() > 0 && chars@[0] as u32
            == bytes@[0] as u32,
        all_ascii(bytes@) ==> chars@ == ascii_text(bytes@),
{
    bytes.chars().collect()
}

/// Calls `bstr::ByteSlice::to_os_str` and reports whether it succeeded. The
/// answer is named `path_decodes`. Besides the name the contract claims
/// that ASCII bytes are accepted: the call accepts every byte string where
/// paths are byte strings, and every valid UTF-8 string elsewhere.
#[verifier::external_body]
pub(crate) fn is_path(bytes: &[u8]) -> (yes: bool)
    ensures
        yes == path_decodes(bytes@),
        all_ascii(bytes@) ==> yes,
{
    bytes.to_os_str().is_ok()
}

/// Decodes `bytes` leniently into text.
pub fn decode(bytes: &[u8]) -> (text: Vec<char>)
    ensures
        text@ == decoded_text(bytes@),
        bytes@.len() > 0 && bytes@[0] < 0x80 ==> text@.len() > 0 && text@[0] as u32
            == bytes@[0] as u32,
{
    lossy_chars(bytes)
}

/// Says whether `bytes` can stand as a path.
pub fn can_be_path(bytes: &[u8]) -> (yes: bool)
    ensures
        yes == decodable(bytes@),
{
    is_path(bytes)
}

/// `String::push` appends one character.
pub assume_specification[ String::push ](text: &mut String, c: char)
    ensures
        final(text)@ == old(text)@.push(c),
;

/// The number of bytes that `c` takes in UTF-8.
pub open spec fn char_width(c: char) -> nat {
    if (c as u32) < 0x80 {
        1
    } else if (c as u32) < 0x800 {
        2
    } else if (c as u32) < 0x10000 {
        3
    } else {
        4
    }
}

/// The number of bytes that `text` takes in UTF-8.
pub open spec fn text_width(text: Seq<char>) -> nat
    decreases text.len(),
{
    if text.len() == 0 {
        0
    } else {
        char_width(text[0]) + text_width(text.drop_first())
    }
}

/// The width of text is the length of its UTF-8 encoding.
pub proof fn lemma_text_width_is_encoded_length(text: Seq<char>)
    ensures
        text_width(text) == vstd::utf8::encode_utf8(text).len(),
    decreases text.len(),
{
    if text.len() > 0 {
        lemma_text_width_is_encoded_length(text.drop_first());
        vstd::utf8::char_is_scalar(text[0]);
        assert(vstd::utf8::encode_scalar(text[0] as u32).len() == char_width(text[0]));
    } else {
        assert(vstd::utf8::encode_utf8(text).len() == 0);
    }
}

/// How many leading characters of `text` fit into `limit` bytes of UTF-8.
pub open spec fn clip_len(text: Seq<char>, limit: nat) -> nat
    decreases text.len(),
{
    if text.len() == 0 || char_width(text[0]) > limit {
        0
    } else {
        1 + clip_len(text.drop_first(), (limit - char_width(text[0])) as nat)
    }
}

/// The longest prefix of `text` that fits into `limit` bytes of UTF-8.
pub open spec fn clipped(text: Seq<char>, limit: nat) -> Seq<char> {
    text.take(clip_len(text, limit) as int)
}

/// Whether clipping `text` to `limit` bytes leaves characters out.
pub open spec fn is_clipped(text: Seq<char>, limit: nat) -> bool {
    clip_len(text, limit) < text.len()
}

/// The clipped text fits the limit, and it is the longest prefix that does:
/// with one more character it would not fit.
pub proof fn lemma_clip_is_longest_fit(text: Seq<char>, limit: nat)
    ensures
        clip_len(text, limit) <= text.len(),
        text_width(clipped(text, limit)) <= limit,
        is_clipped(text, limit) ==> text_width(text.take(clip_len(text, limit) as int + 1)) > limit,
    decreases text.len(),
{
    if text.len() == 0 || char_width(text[0]) > limit {
        assert(text.take(0) =~= Seq::<char>::empty());
        if text.len() > 0 {
            assert(text.take(1).drop_first() =~= Seq::<char>::empty());
            assert(text.take(1)[0] == text[0]);
        }
    } else {
        let tail = text.drop_first();
        let rest = (limit - char_width(text[0])) as nat;
        let k = clip_len(tail, rest) as int;
        lemma_clip_is_longest_fit(tail, rest);
        assert(text.take(k + 1).drop_first() =~= tail.take(k));
        assert(text.take(k + 1)[0] == text[0]);
        if k < tail.len() {
            assert(text.take(k + 2).drop_first() =~= tail.take(k + 1));
            assert(text.take(k + 2)[0] == text[0]);
        }
    }
}

/// Text that fits the limit is left whole.
pub proof fn lemma_clip_keeps_short_text(text: Seq<char>, limit: nat)
    requires
        text_width(text) <= limit,
    ensures
        clip_len(text, limit) == text.len(),
        clipped(text, limit) == text,
        !is_clipped(text, limit),
    decreases text.len(),
{
    if text.len() == 0 {
        assert(text.take(0) =~= text);
    } else {
        let tail = text.drop_first();
        let rest = (limit - char_width(text[0])) as nat;
        lemma_clip_keeps_short_text(tail, rest);
        assert(text.take(text.len() as int) =~= text);
    }
}

/// The lower-case hexadecimal digit for `n`.
pub open spec fn hex_digit(n: u8) -> char
    recommends
        n < 16,
{
    if n < 10 {
        ((0x30 + n) as u8) as char
    } else {
        ((0x57 + n) as u8) as char
    }
}

/// The printable form of a byte: a graphic ASCII character or a space
/// stands for itself; tab, carriage return, line feed, the two quotes and
/// the backslash are written with a backslash; every other byte is written
/// as `\x` and two hexadecimal digits.
pub open spec fn escaped(byte: u8) -> Seq<char> {
    if byte == 0x09 {
        seq!['\\', 't']
    } else if byte == 0x0d {
        seq!['\\', 'r']
    } else if byte == 0x0a {
        seq!['\\', 'n']
    } else if byte == 0x27 || byte == 0x22 || byte == 0x5c {
        seq!['\\', byte as char]
    } else if 0x20 <= byte <= 0x7e {
        seq![byte as char]
    } else {
        seq!['\\', 'x', hex_digit(byte / 16), hex_digit(byte % 16)]
    }
}

fn hex(n: u8) -> (digit: char)
    requires
        n < 16,
    ensures
        digit == hex_digit(n),
{
    if n < 10 {
        (0x30 + n) as char
    } else {
        (0x57 + n) as char
    }
}

/// Writes a byte in its printable form.
pub fn escape_byte(byte: u8) -> (text: String)
    ensures
        text@ == escaped(byte),
{
    let mut text = String::new();
    if byte == 0x09 {
        text.push('\\');
        text.push('t');
    } else if byte == 0x0d {
        text.push('\\');
        text.push('r');
    } else if byte == 0x0a {
        text.push('\\');
        text.push('n');
    } else if byte == 0x27 || byte == 0x22 || byte == 0x5c {
        text.push('\\');
        text.push(byte as char);
    } else if 0x20 <= byte && byte <= 0x7e {
        text.push(byte as char);
    } else {
        text.push('\\');
        text.push('x');
        text.push(hex(byte / 16));
        text.push(hex(byte % 16));
    }
    assert(text@ =~= escaped(byte));
    text
}

/// The number of bytes that `c` takes in UTF-8.
pub fn utf8_width(c: char) -> (width: usize)
    ensures
        width == char_width(c),
{
    let code = c as u32;
    if code < 0x80 {
        1
    } else if code < 0x800 {
        2
    } else if code < 0x10000 {
        3
    } else {
        4
    }
}

/// Builds the longest prefix of `text` that fits into `limit` bytes of
/// UTF-8, and says whether any character was left out.
pub fn clip(text: &Vec<char>, limit: usize) -> (result: (String, bool))
    ensures
        result.0@ == clipped(text@, limit as nat),
        result.1 == is_clipped(text@, limit as nat),
{
    let mut value = String::new();
    let mut used: usize = 0;
    let mut i: usize = 0;
    let mut shortened = false;
    assert(text@.skip(0) =~= text@);
    while i < text.len() && !shortened
        invariant
            i <= text.len(),
            used <= limit,
            value@ == text@.take(i as int),
            clip_len(text@, limit as nat) == i + (if shortened {
                0
            } else {
                clip_len(text@.skip(i as int), (limit - used) as nat)
            }),
            shortened ==> i < text.len(),
        decreases text.len() - i + (if shortened { 0int } else { 1int }),
    {
        let c = text[i];
        let width = utf8_width(c);
        assert(text@.skip(i as int)[0] == c);
        assert(text@.skip(i as int).drop_first() =~= text@.skip(i + 1));
        if width > limit - used {
            shortened = true;
        } else {
            value.push(c);
            assert(value@ =~= text@.take(i + 1));
            used = used + width;
            i = i + 1;
        }
    }
    (value, shortened)
}

} // verus!
