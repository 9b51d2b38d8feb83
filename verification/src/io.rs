//! Reading records into a buffer of the caller, with the length of each read.

use crate::line::Separator;
use crate::stream::{chunk_len, read_fails, ByteStream, StreamError};
use vstd::prelude::*;

verus! {

/// Reads records from a stream into a buffer that the caller owns.
pub struct Reader {
    inner: ByteStream,
    separator: Separator,
}

impl Reader {
    /// The bytes that no read has consumed yet.
    pub closed spec fn remaining(self) -> Seq<u8> {
        self.inner.remaining()
    }

    /// Whether the underlying stream ends in a failure.
    pub closed spec fn broken(self) -> bool {
        self.inner.broken()
    }

    /// The terminator that this reader splits on.
    pub closed spec fn separator(self) -> Separator {
        self.separator
    }

    /// The bytes that a read of at most `limit` bytes takes from the stream.
    pub open spec fn chunk(self, limit: nat) -> Seq<u8> {
        self.remaining().take(chunk_len(self.remaining(), self.separator().byte(), limit) as int)
    }

    /// Whether a read of at most `limit` bytes runs into the stream's failure.
    pub open spec fn fails(self, limit: nat) -> bool {
        read_fails(self.remaining(), self.broken(), self.separator().byte(), limit)
    }

    pub fn new(inner: ByteStream, separator: Separator) -> (reader: Self)
        ensures
            reader.remaining() == inner.remaining(),
            reader.broken() == inner.broken(),
            reader.separator() == separator,
    {
        Reader { inner, separator }
    }

    /// Appends the next record to `buf` and returns the number of bytes that
    /// were read for it, terminator included and never more than `limit`.
    /// The terminator is then removed from the end of `buf`. A length of
    /// zero means that nothing was read; a length equal to `limit` tells the
    /// caller that the record may have been cut short. When the read fails,
    /// the bytes read so far stay in `buf` untrimmed.
    pub fn read(&mut self, buf: &mut Vec<u8>, limit: usize) -> (result: Result<usize, StreamError>)
        ensures
            final(self).remaining() == old(self).remaining().skip(
                old(self).chunk(limit as nat).len() as int,
            ),
            final(self).broken() == old(self).broken(),
            final(self).separator() == old(self).separator(),
            match result {
                Ok(length) => {
                    &&& !old(self).fails(limit as nat)
                    &&& length == old(self).chunk(limit as nat).len()
                    &&& final(buf)@ == old(self).separator().trimmed(
                        old(buf)@ + old(self).chunk(limit as nat),
                    )
                },
                Err(_) => {
                    &&& old(self).fails(limit as nat)
                    &&& final(buf)@ == old(buf)@ + old(self).chunk(limit as nat)
                },
            },
    {
        proof {
            crate::stream::lemma_chunk_len_bounds(
                self.remaining(),
                self.separator().byte(),
                limit as nat,
            );
        }
        let delim = self.separator.as_byte();
        match self.inner.read_until(delim, buf, limit) {
            Ok(length) => {
                self.separator.remove_trail(buf);
                Ok(length)
            },
            Err(error) => Err(error),
        }
    }
}

} // verus!
