//! Cutting a byte stream that arrives in pieces of any size into frames of
//! one fixed length.

use vstd::prelude::*;
use crate::error::CommError;
use crate::message::{wire, Message};

verus! {

/// The bytes of the `k`-th frame of `len` bytes in a stream.
pub open spec fn frame_at(stream: Seq<u8>, len: nat, k: int) -> Seq<u8> {
    stream.subrange(k * len, k * len + len)
}

/// How many whole frames of `len` bytes a stream of `total` bytes holds.
pub open spec fn whole_frames(total: nat, len: nat) -> nat {
    total / len
}

/// How many bytes of a stream of `total` bytes lie behind its last whole
/// frame.
pub open spec fn leftover(total: nat, len: nat) -> nat {
    total % len
}

/// What the end of the transport means where `pending` bytes of a frame
/// have arrived: a clean close at a frame boundary, a short read inside a
/// frame.
pub open spec fn close_outcome(pending: nat) -> Result<(), CommError> {
    if pending == 0 {
        Ok(())
    } else {
        Err(CommError::ShortReadError)
    }
}

/// Collects the bytes of a connection and hands out each frame once it is
/// whole.
#[derive(Debug)]
pub struct FrameReader {
    frame_len: usize,
    pending: Vec<u8>,
}

impl FrameReader {
    #[verifier::type_invariant]
    closed spec fn in_frame(&self) -> bool {
        self.frame_len >= 1 && self.pending@.len() < self.frame_len
    }

    /// The length of every frame, tag included.
    pub closed spec fn frame_len(&self) -> nat {
        self.frame_len as nat
    }

    /// The bytes of the frame in progress that have arrived so far.
    pub closed spec fn pending(&self) -> Seq<u8> {
        self.pending@
    }

    /// A reader at a frame boundary, for frames of `frame_len` bytes.
    pub fn new(frame_len: usize) -> (r: FrameReader)
        requires
            frame_len >= 1,
        ensures
            r.frame_len() == frame_len,
            r.pending() == Seq::<u8>::empty(),
    {
        FrameReader { frame_len, pending: Vec::new() }
    }

    /// How many bytes the frame in progress still lacks.
    pub fn needed(&self) -> (r: usize)
        ensures
            r == self.frame_len() - self.pending().len(),
            r >= 1,
    {
        proof {
            use_type_invariant(self);
        }
        self.frame_len - self.pending.len()
    }

    /// Takes the next piece of the stream, of any length, and returns the
    /// frames that it completes, in stream order. The stream is what was
    /// pending followed by `chunk`; what lies behind its last whole frame
    /// stays pending.
    pub fn feed(&mut self, chunk: &[u8]) -> (r: Vec<Message>)
        ensures
            final(self).frame_len() == old(self).frame_len(),
            r@.len() == whole_frames(
                old(self).pending().len() + chunk@.len(),
                old(self).frame_len(),
            ),
            final(self).pending().len() == leftover(
                old(self).pending().len() + chunk@.len(),
                old(self).frame_len(),
            ),
            forall|k: int|
                0 <= k < r@.len() ==> wire(#[trigger] r@[k]@) == frame_at(
                    old(self).pending() + chunk@,
                    old(self).frame_len(),
                    k,
                ),
            final(self).pending() == (old(self).pending() + chunk@).subrange(
                (r@.len() * old(self).frame_len()) as int,
                (old(self).pending().len() + chunk@.len()) as int,
            ),
    {
        proof {
            use_type_invariant(&*self);
        }
        let len: usize = self.frame_len;
        let mut buf: Vec<u8> = self.pending.clone();
        let mut out: Vec<Message> = Vec::new();
        let ghost stream: Seq<u8> = self.pending@ + chunk@;
        let ghost p: int = self.pending@.len() as int;
        assert(buf@ =~= stream.subrange(0, p));
        assert(out@.len() * len == 0) by (nonlinear_arith)
            requires
                out@.len() == 0,
        ;
        let mut i: usize = 0;
        while i < chunk.len()
            invariant
                i <= chunk@.len(),
                len >= 1,
                buf@.len() < len,
                stream == old(self).pending@ + chunk@,
                p == old(self).pending@.len(),
                out@.len() * len + buf@.len() == p + i,
                buf@ == stream.subrange(out@.len() * len, p + i),
                forall|k: int|
                    0 <= k < out@.len() ==> wire(#[trigger] out@[k]@) == frame_at(
                        stream,
                        len as nat,
                        k,
                    ),
            decreases chunk@.len() - i,
        {
            let ghost n: int = out@.len() as int;
            buf.push(chunk[i]);
            assert(stream[p + i] == chunk@[i as int]);
            assert(buf@ =~= stream.subrange(n * len, p + i + 1));
            i = i + 1;
            if buf.len() == len {
                let mut whole: Vec<u8> = Vec::new();
                std::mem::swap(&mut buf, &mut whole);
                match Message::from_frame(whole) {
                    Some(m) => {
                        assert(wire(m@) == frame_at(stream, len as nat, n));
                        out.push(m);
                    },
                    None => {},
                }
                assert((n + 1) * len == n * len + len) by (nonlinear_arith);
                assert(buf@ =~= stream.subrange((n + 1) * len, p + i));
            }
        }
        proof {
            let n: int = out@.len() as int;
            let g: int = buf@.len() as int;
            vstd::arithmetic::div_mod::lemma_fundamental_div_mod_converse(
                p + chunk@.len(),
                len as int,
                n,
                g,
            );
        }
        self.pending = buf;
        out
    }

    /// Tells what the end of the transport means in this state: `Ok` at a
    /// frame boundary, a short read where part of a frame has arrived.
    pub fn close(&self) -> (r: Result<(), CommError>)
        ensures
            r == close_outcome(self.pending().len()),
    {
        if self.pending.len() == 0 {
            Ok(())
        } else {
            Err(CommError::ShortReadError)
        }
    }
}

/// A stream that ends before its first frame is whole yields no message,
/// and its end is a short read unless nothing was sent at all.
pub proof fn truncated_frame_is_no_message(total: nat, len: nat)
    requires
        len >= 1,
        total < len,
    ensures
        whole_frames(total, len) == 0,
        leftover(total, len) == total,
        total > 0 ==> close_outcome(leftover(total, len)) == Err::<(), CommError>(
            CommError::ShortReadError,
        ),
{
    vstd::arithmetic::div_mod::lemma_fundamental_div_mod_converse(
        total as int,
        len as int,
        0,
        total as int,
    );
}

/// Every byte of a stream lies in one of its whole frames or in what is
/// left over, and the end of the stream is clean exactly where its length is
/// a multiple of the frame length.
pub proof fn frames_account_for_stream(total: nat, len: nat)
    requires
        len >= 1,
    ensures
        whole_frames(total, len) * len + leftover(total, len) == total,
        leftover(total, len) < len,
        close_outcome(leftover(total, len)).is_ok() == (total % len == 0),
{
    vstd::arithmetic::div_mod::lemma_fundamental_div_mod(total as int, len as int);
    vstd::arithmetic::div_mod::lemma_mod_bound(total as int, len as int);
    assert(whole_frames(total, len) * len == len * (total / len)) by (nonlinear_arith);
}

} // verus!
