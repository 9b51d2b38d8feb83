//! The grammar of the instruction stream.
//!
//! ```text
//! line    := ('<' | '>') payload
//! payload := any non-empty byte sequence decodable as a path
//! ```
//!
//! Records are numbered from one in the order in which they are read. A
//! record that starts with anything but one of the two marks is refused,
//! and what it starts with is reported as its [`Prefix`].

use crate::text::{decode, decoded_text, escape_byte, escaped, first_of, REPLACEMENT};
use vstd::prelude::*;

verus! {

/// The byte that opens a source declaration, `<`.
pub const SOURCE_MARK: u8 = 0x3c;

/// The byte that opens a destination declaration, `>`.
pub const DEST_MARK: u8 = 0x3e;

/// The payload of a record: path bytes, of which there is at least one.
#[derive(Debug, PartialEq, Eq)]
pub struct Payload {
    bytes: Vec<u8>,
}

impl View for Payload {
    type V = Seq<u8>;

    closed spec fn view(&self) -> Seq<u8> {
        self.bytes@
    }
}

impl Payload {
    #[verifier::type_invariant]
    spec fn inv(self) -> bool {
        self.bytes@.len() > 0
    }

    /// Takes `bytes` as a payload, unless there are none.
    pub fn new(bytes: Vec<u8>) -> (payload: Option<Payload>)
        ensures
            match payload {
                Some(payload) => payload@ == bytes@ && bytes@.len() > 0,
                None => bytes@.len() == 0,
            },
    {
        if bytes.len() > 0 {
            Some(Payload { bytes })
        } else {
            None
        }
    }

    /// The bytes of the payload.
    pub fn as_slice(&self) -> (bytes: &[u8])
        ensures
            bytes@ == self@,
            bytes@.len() > 0,
    {
        proof {
            use_type_invariant(self);
        }
        self.bytes.as_slice()
    }
}

/// The number of the record after record `line`; the count stops at the
/// largest number that the machine can hold.
pub open spec fn following(line: nat) -> nat {
    if line < usize::MAX {
        line + 1
    } else {
        line
    }
}

/// Counts one more record.
pub fn count(line: usize) -> (next: usize)
    ensures
        next == following(line as nat),
{
    if line < usize::MAX {
        line + 1
    } else {
        line
    }
}

/// What a record starts with: an ASCII or undecodable byte, or a character
/// beyond ASCII.
#[derive(Clone, Copy, Debug, PartialEq, Eq, Structural)]
pub enum Prefix {
    Byte(u8),
    Char(char),
}

/// The prefix of a record whose first byte is `byte`, not ASCII, and whose
/// lenient decoding starts with `first`: the character where the record
/// starts with a whole one, else the byte.
pub open spec fn wide_prefix(byte: u8, first: Option<char>) -> Prefix {
    match first {
        Some(c) => if c == REPLACEMENT {
            Prefix::Byte(byte)
        } else {
            Prefix::Char(c)
        },
        None => Prefix::Byte(byte),
    }
}

/// The prefix of a record; an empty record has none.
pub open spec fn prefix_of(record: Seq<u8>) -> Option<Prefix> {
    if record.len() == 0 {
        None
    } else if record[0] < 0x80 {
        Some(Prefix::Byte(record[0]))
    } else {
        Some(wide_prefix(record[0], first_of(decoded_text(record))))
    }
}

impl Prefix {
    /// The prefix of a record that starts with the byte `byte`, which is
    /// not ASCII, and decodes to text that starts with `first`.
    pub fn wide(byte: u8, first: Option<char>) -> (prefix: Prefix)
        ensures
            prefix == wide_prefix(byte, first),
    {
        match first {
            Some(c) => {
                if c == REPLACEMENT {
                    Prefix::Byte(byte)
                } else {
                    Prefix::Char(c)
                }
            },
            None => Prefix::Byte(byte),
        }
    }

    /// The prefix of `slice`, or `None` where `slice` is empty.
    pub fn from(slice: &[u8]) -> (prefix: Option<Prefix>)
        ensures
            prefix == prefix_of(slice@),
    {
        if slice.len() == 0 {
            None
        } else {
            let byte = slice[0];
            if byte < 0x80 {
                Some(Prefix::Byte(byte))
            } else {
                let text = decode(slice);
                let first = if text.len() > 0 {
                    Some(text[0])
                } else {
                    None
                };
                Some(Prefix::wide(byte, first))
            }
        }
    }

    /// The prefix as it is shown: a byte in its printable form, a
    /// character as it is.
    pub open spec fn text(self) -> Seq<char> {
        match self {
            Prefix::Byte(byte) => escaped(byte),
            Prefix::Char(c) => seq![c],
        }
    }

    /// Writes the prefix as it is shown.
    pub fn to_text(&self) -> (text: String)
        ensures
            text@ == self.text(),
    {
        match self {
            Prefix::Byte(byte) => escape_byte(*byte),
            Prefix::Char(c) => {
                let mut text = String::new();
                text.push(*c);
                assert(text@ =~= seq![*c]);
                text
            },
        }
    }
}

} // verus!
