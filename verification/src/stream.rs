//! An input stream that has already been read into memory.
//!
//! A [`ByteStream`] stands for everything a reader could deliver: the bytes
//! that were read, followed either by the end of the input or by a read
//! failure. Records are cut from its front, one call at a time.

use vstd::prelude::*;

verus! {

/// The failure that ends a broken stream.
#[derive(Clone, Copy, Debug, PartialEq, Eq, Structural)]
pub struct StreamError;

/// The number of bytes that one read takes from `rest`: everything up to and
/// including the first `delim`, but never more than `limit` bytes and never
/// more than there are.
pub open spec fn chunk_len(rest: Seq<u8>, delim: u8, limit: nat) -> nat
    decreases rest.len(),
{
    if limit == 0 || rest.len() == 0 {
        0
    } else if rest[0] == delim {
        1
    } else {
        1 + chunk_len(rest.drop_first(), delim, (limit - 1) as nat)
    }
}

/// `n` bytes are a whole read of `rest`: no delimiter lies before the last of
/// them, and the read stopped at a delimiter, at the limit or at the end.
pub open spec fn is_chunk_len(rest: Seq<u8>, delim: u8, limit: nat, n: nat) -> bool {
    &&& n <= limit
    &&& n <= rest.len()
    &&& forall|i: int| 0 <= i < n - 1 ==> rest[i] != delim
    &&& (n == limit || n == rest.len() || (n > 0 && rest[n - 1] == delim))
}

/// A read runs into the failure of a broken stream when it uses up the
/// bytes before it has found a delimiter or reached its limit.
pub open spec fn read_fails(rest: Seq<u8>, broken: bool, delim: u8, limit: nat) -> bool {
    let n = chunk_len(rest, delim, limit);
    &&& broken
    &&& n == rest.len()
    &&& n < limit
    &&& !(n > 0 && rest[n - 1] == delim)
}

/// `chunk_len` is the one length that `is_chunk_len` accepts.
pub proof fn lemma_chunk_len_unique(rest: Seq<u8>, delim: u8, limit: nat, n: nat)
    ensures
        is_chunk_len(rest, delim, limit, n) <==> n == chunk_len(rest, delim, limit),
    decreases rest.len(),
{
    if limit == 0 || rest.len() == 0 {
    } else if rest[0] == delim {
        if is_chunk_len(rest, delim, limit, n) && n > 1 {
            assert(rest[0] != delim);
        }
    } else {
        let tail = rest.drop_first();
        let m = chunk_len(tail, delim, (limit - 1) as nat);
        if n > 0 {
            lemma_chunk_len_unique(tail, delim, (limit - 1) as nat, (n - 1) as nat);
            if is_chunk_len(rest, delim, limit, n) {
                assert forall|i: int| 0 <= i < n - 2 implies tail[i] != delim by {
                    assert(tail[i] == rest[i + 1]);
                }
                assert(n > 1 ==> tail[n - 2] == rest[n - 1]);
                assert(is_chunk_len(tail, delim, (limit - 1) as nat, (n - 1) as nat));
            }
            if n == m + 1 {
                assert(is_chunk_len(tail, delim, (limit - 1) as nat, m));
                assert forall|i: int| 0 <= i < n - 1 implies rest[i] != delim by {
                    if i > 0 {
                        assert(tail[i - 1] == rest[i]);
                    }
                }
                assert(m > 0 ==> tail[m - 1] == rest[n - 1]);
            }
        } else {
            assert(!is_chunk_len(rest, delim, limit, n));
        }
    }
}

/// A read never takes more than its limit nor more than there is.
pub proof fn lemma_chunk_len_bounds(rest: Seq<u8>, delim: u8, limit: nat)
    ensures
        chunk_len(rest, delim, limit) <= limit,
        chunk_len(rest, delim, limit) <= rest.len(),
        chunk_len(rest, delim, limit) == 0 <==> limit == 0 || rest.len() == 0,
{
    lemma_chunk_len_unique(rest, delim, limit, chunk_len(rest, delim, limit));
}

/// Bytes held in memory, consumed from the front.
pub struct ByteStream {
    data: Vec<u8>,
    pos: usize,
    broken: bool,
}

impl ByteStream {
    #[verifier::type_invariant]
    spec fn inv(self) -> bool {
        self.pos <= self.data.len()
    }

    /// The bytes that have not been consumed yet.
    pub closed spec fn remaining(self) -> Seq<u8> {
        self.data@.skip(self.pos as int)
    }

    /// Whether the stream ends in a failure rather than at the end of input.
    pub closed spec fn broken(self) -> bool {
        self.broken
    }

    /// A stream that delivers `data` and then ends.
    pub fn new(data: Vec<u8>) -> (stream: Self)
        ensures
            stream.remaining() == data@,
            !stream.broken(),
    {
        assert(data@.skip(0) =~= data@);
        ByteStream { data, pos: 0, broken: false }
    }

    /// A stream that delivers `data` and then fails.
    pub fn failing(data: Vec<u8>) -> (stream: Self)
        ensures
            stream.remaining() == data@,
            stream.broken(),
    {
        assert(data@.skip(0) =~= data@);
        ByteStream { data, pos: 0, broken: true }
    }

    /// Appends to `buf` the bytes up to and including the next `delim`,
    /// stopping early after `limit` bytes or at the end of the stream, and
    /// returns how many bytes were taken. The bytes are consumed and
    /// appended even when the read runs into the stream's failure.
    pub fn read_until(&mut self, delim: u8, buf: &mut Vec<u8>, limit: usize) -> (result: Result<
        usize,
        StreamError,
    >)
        ensures
            final(self).remaining() == old(self).remaining().skip(
                chunk_len(old(self).remaining(), delim, limit as nat) as int,
            ),
            final(self).broken() == old(self).broken(),
            final(buf)@ == old(buf)@ + old(self).remaining().take(
                chunk_len(old(self).remaining(), delim, limit as nat) as int,
            ),
            match result {
                Ok(taken) => {
                    &&& taken == chunk_len(old(self).remaining(), delim, limit as nat)
                    &&& !read_fails(old(self).remaining(), old(self).broken(), delim, limit as nat)
                },
                Err(_) => read_fails(old(self).remaining(), old(self).broken(), delim, limit as nat),
            },
    {
        proof {
            use_type_invariant(&*self);
        }
        let ghost rest = self.remaining();
        let ghost before = buf@;
        let start = self.pos;
        let mut taken: usize = 0;
        let mut found = false;
        while taken < limit && self.pos < self.data.len() && !found
            invariant
                self.data == old(self).data,
                self.broken == old(self).broken,
                start == old(self).pos,
                start <= self.data.len(),
                self.pos == start + taken,
                self.pos <= self.data.len(),
                taken <= limit,
                rest == old(self).data@.skip(start as int),
                buf@ == before + rest.take(taken as int),
                found ==> taken > 0 && rest[taken - 1] == delim,
                forall|i: int| 0 <= i < taken - 1 ==> rest[i] != delim,
                !found && taken > 0 ==> rest[taken - 1] != delim,
            decreases self.data.len() - self.pos + (if found { 0int } else { 1int }),
        {
            let byte = self.data[self.pos];
            assert(rest[taken as int] == byte);
            buf.push(byte);
            assert(buf@ =~= before + rest.take(taken + 1));
            self.pos = self.pos + 1;
            taken = taken + 1;
            found = byte == delim;
        }
        proof {
            lemma_chunk_len_unique(rest, delim, limit as nat, taken as nat);
            assert(self.data@.skip(self.pos as int) =~= rest.skip(taken as int));
        }
        if self.broken && !found && taken < limit {
            Err(StreamError)
        } else {
            Ok(taken)
        }
    }
}

} // verus!
