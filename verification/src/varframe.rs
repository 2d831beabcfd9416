//! The variable-size wire form: the tag byte, the body's length as four
//! bytes in network order, then the body.

use vstd::prelude::*;
use crate::error::CommError;
use crate::message::{Message, MessageView};

verus! {

/// Length in bytes of the length field.
pub const LENGTH_SIZE: usize = 4;

/// Length in bytes of what stands before the body: tag and length field.
pub const HEADER_SIZE: usize = 5;

/// The longest body that the length field can declare.
pub const MAX_BODY: usize = 0xFFFF_FFFF;

/// A length as four bytes, most significant first.
pub open spec fn be32(n: nat) -> Seq<u8> {
    seq![
        (n / 0x100_0000 % 0x100) as u8,
        (n / 0x1_0000 % 0x100) as u8,
        (n / 0x100 % 0x100) as u8,
        (n % 0x100) as u8,
    ]
}

/// The length that four bytes declare, most significant first.
pub open spec fn be32_value(b: Seq<u8>) -> nat
    recommends
        b.len() == 4,
{
    (b[0] as nat) * 0x100_0000 + (b[1] as nat) * 0x1_0000 + (b[2] as nat) * 0x100 + (b[3] as nat)
}

/// The variable-size wire form of a message.
pub open spec fn var_wire(m: MessageView) -> Seq<u8> {
    seq![m.tag] + be32(m.body.len()) + m.body
}

/// The message at the head of a byte stream and the number of bytes that
/// its frame takes; `None` where the stream ends inside the header or
/// before the declared length is reached.
pub open spec fn var_parse(bytes: Seq<u8>) -> Option<(MessageView, nat)> {
    if bytes.len() < 5 {
        None
    } else {
        let declared = be32_value(bytes.subrange(1, 5));
        if bytes.len() < 5 + declared {
            None
        } else {
            Some(
                (
                    MessageView { tag: bytes[0], body: bytes.subrange(5, 5 + declared as int) },
                    5 + declared,
                ),
            )
        }
    }
}

/// The length field holds every length up to `MAX_BODY` without loss.
pub proof fn be32_round_trip(n: nat)
    requires
        n <= MAX_BODY,
    ensures
        be32(n).len() == 4,
        be32_value(be32(n)) == n,
{
}

/// Four bytes declare one length, and that length is written as those
/// four bytes.
pub proof fn be32_value_round_trip(b: Seq<u8>)
    requires
        b.len() == 4,
    ensures
        be32_value(b) <= MAX_BODY,
        be32(be32_value(b)) == b,
{
    assert(be32(be32_value(b)) =~= b);
}

/// A frame is read back as the message that it was written for, whatever
/// follows it in the stream, and its declared length is that of its body.
pub proof fn var_round_trip(m: MessageView, rest: Seq<u8>)
    requires
        m.body.len() <= MAX_BODY,
    ensures
        var_wire(m).len() == 5 + m.body.len(),
        var_parse(var_wire(m) + rest) == Some((m, var_wire(m).len())),
{
    let stream = var_wire(m) + rest;
    be32_round_trip(m.body.len());
    assert(stream.subrange(1, 5) =~= be32(m.body.len()));
    assert(stream.subrange(5, 5 + m.body.len() as int) =~= m.body);
    assert(stream[0] == m.tag);
}

/// A stream that ends inside a frame holds no message: neither one cut in
/// its header nor one whose body is shorter than declared.
pub proof fn var_truncated_is_no_message(m: MessageView, cut: int)
    requires
        m.body.len() <= MAX_BODY,
        0 <= cut < var_wire(m).len(),
    ensures
        var_parse(var_wire(m).subrange(0, cut)) == None::<(MessageView, nat)>,
{
    let head = var_wire(m).subrange(0, cut);
    be32_round_trip(m.body.len());
    if cut >= 5 {
        assert(head.subrange(1, 5) =~= be32(m.body.len()));
    }
}

/// Writes the variable-size frame of `msg`. `None` where the body is
/// longer than the length field can declare.
pub fn encode(msg: &Message) -> (r: Option<Vec<u8>>)
    ensures
        r.is_some() == (msg@.body.len() <= MAX_BODY),
        r matches Some(v) ==> v@ == var_wire(msg@),
{
    let body_len: usize = msg.len() - 1;
    if body_len > MAX_BODY {
        return None;
    }
    let mut out: Vec<u8> = Vec::new();
    out.push(msg.get_type());
    out.push((body_len / 0x100_0000 % 0x100) as u8);
    out.push((body_len / 0x1_0000 % 0x100) as u8);
    out.push((body_len / 0x100 % 0x100) as u8);
    out.push((body_len % 0x100) as u8);
    let mut body = msg.body();
    out.append(&mut body);
    assert(out@ =~= var_wire(msg@));
    Some(out)
}

/// Reads the frame at the head of `bytes`: the message and the number of
/// bytes that the frame took. A stream that ends inside the header or
/// before the declared length is a short read, never a shorter message.
pub fn decode(bytes: &[u8]) -> (r: Result<(Message, usize), CommError>)
    ensures
        match var_parse(bytes@) {
            Some((m, used)) => r matches Ok((msg, n)) && msg@ == m && n == used,
            None => r matches Err(e) && e == CommError::ShortReadError,
        },
{
    if bytes.len() < HEADER_SIZE {
        return Err(CommError::ShortReadError);
    }
    let b0: usize = bytes[1] as usize;
    let b1: usize = bytes[2] as usize;
    let b2: usize = bytes[3] as usize;
    let b3: usize = bytes[4] as usize;
    let declared: usize = b0 * 0x100_0000 + b1 * 0x1_0000 + b2 * 0x100 + b3;
    assert(declared == be32_value(bytes@.subrange(1, 5)));
    if bytes.len() - HEADER_SIZE < declared {
        return Err(CommError::ShortReadError);
    }
    let body = vstd::slice::slice_subrange(bytes, HEADER_SIZE, HEADER_SIZE + declared);
    let msg = Message::with_body(bytes[0], body);
    Ok((msg, HEADER_SIZE + declared))
}

} // verus!
