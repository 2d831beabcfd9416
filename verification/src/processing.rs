//! The three capabilities of an endpoint: what to put on the transport for a
//! message, how to take a message from bytes that were read, and how a
//! worker processes a message.

use vstd::prelude::*;
use crate::error::CommError;
use crate::message::{is_control, is_control_tag, parse, wire, Message, MessageView, TAG_REPLY};

verus! {

/// What a sender hands to a buffered transport for one message.
#[derive(Debug, PartialEq, Eq)]
pub struct SendPlan {
    /// The bytes to write, all of them.
    pub bytes: Vec<u8>,
    /// Whether the transport's buffer is to be flushed after the write.
    pub flush: bool,
}

/// The default processing policy: a sentinel keeps its tag, every other
/// message becomes a reply. The body is never touched.
pub open spec fn processed(m: MessageView) -> MessageView {
    if is_control(m.tag) {
        m
    } else {
        MessageView { tag: TAG_REPLY, body: m.body }
    }
}

/// The message that a receiver holds after it was offered `bytes` for a
/// message with `frame_len` bytes: `None` where the bytes end inside the
/// frame.
pub open spec fn received(bytes: Seq<u8>, frame_len: nat) -> Option<MessageView> {
    if bytes.len() >= frame_len && frame_len >= 1 {
        Some(parse(bytes.subrange(0, frame_len as int)))
    } else {
        None
    }
}

/// The processing that a pool worker applies to a message. An application
/// may bring a rule of its own. A rule is a function of the message alone,
/// and whatever it does to payload, it hands back each of the three
/// sentinels with the tag that it came with.
pub trait Process {
    /// What the rule makes of a message.
    spec fn policy(m: MessageView) -> MessageView;

    /// The rule keeps the tag of every sentinel.
    proof fn policy_keeps_sentinels(m: MessageView)
        ensures
            is_control(m.tag) ==> Self::policy(m).tag == m.tag,
    ;

    /// Applies the rule to `msg` in place.
    fn process_message(msg: &mut Message)
        ensures
            final(msg)@ == Self::policy(old(msg)@),
    ;
}

/// The send, receive and process rules of the fixed-size protocol.
#[derive(Debug, Clone, Copy, Default)]
pub struct CommProcessing {}

impl CommProcessing {
    /// The rules; they hold no state.
    pub fn new() -> (r: CommProcessing)
        ensures
            r == (CommProcessing {}),
    {
        CommProcessing {}
    }

    /// The bytes that an unbuffered transport is to write for `msg`: its
    /// wire form, whole and nothing else.
    pub fn send_message(msg: &Message) -> (r: Vec<u8>)
        ensures
            r@ == wire(msg@),
    {
        msg.get_ref().clone()
    }

    /// The bytes that a buffered transport is to write for `msg`, and
    /// whether it must flush afterwards: it must for the three sentinels
    /// and for no other message.
    pub fn buf_send_message(msg: &Message) -> (r: SendPlan)
        ensures
            r.bytes@ == wire(msg@),
            r.flush == is_control(msg@.tag),
    {
        SendPlan { bytes: msg.get_ref().clone(), flush: is_control_tag(msg.get_type()) }
    }

    /// Takes a message from the bytes that a transport delivered for it.
    /// A frame is as long as `msg` already is. Where fewer bytes came, the
    /// read was short: the error is returned and `msg` stays as it was,
    /// never filled in part. Otherwise `msg` becomes the message that the
    /// first frame's worth of bytes encodes.
    pub fn recv_message(bytes: &[u8], msg: &mut Message) -> (r: Result<(), CommError>)
        ensures
            r.is_ok() == (bytes@.len() >= wire(old(msg)@).len()),
            r is Ok ==> Some(final(msg)@) == received(bytes@, wire(old(msg)@).len()),
            r is Err ==> r == Err::<(), CommError>(CommError::ShortReadError) && final(msg)@ == old(
                msg,
            )@,
    {
        if bytes.len() < msg.len() {
            Err(CommError::ShortReadError)
        } else {
            msg.load(bytes);
            proof {
                crate::message::parse_of_wire(msg@);
            }
            Ok(())
        }
    }

    /// As `recv_message`, for bytes that came from a buffered transport.
    pub fn buf_recv_message(bytes: &[u8], msg: &mut Message) -> (r: Result<(), CommError>)
        ensures
            r.is_ok() == (bytes@.len() >= wire(old(msg)@).len()),
            r is Ok ==> Some(final(msg)@) == received(bytes@, wire(old(msg)@).len()),
            r is Err ==> r == Err::<(), CommError>(CommError::ShortReadError) && final(msg)@ == old(
                msg,
            )@,
    {
        CommProcessing::recv_message(bytes, msg)
    }
}

impl Process for CommProcessing {
    /// The default policy.
    open spec fn policy(m: MessageView) -> MessageView {
        processed(m)
    }

    proof fn policy_keeps_sentinels(m: MessageView) {
    }

    /// Applies the default policy to `msg` in place.
    fn process_message(msg: &mut Message) {
        let msg_type: u8 = msg.get_type();
        if !is_control_tag(msg_type) {
            msg.set_type(TAG_REPLY);
        }
    }
}

/// A message that is no sentinel arrives from its frame as it was sent,
/// and what the default policy makes of it arrives back, from a frame of
/// the same length, as a reply with the body that was sent.
pub proof fn round_trip(m: MessageView)
    requires
        !is_control(m.tag),
    ensures
        received(wire(m), wire(m).len()) == Some(m),
        wire(processed(m)).len() == wire(m).len(),
        received(wire(processed(m)), wire(m).len()) == Some(
            MessageView { tag: TAG_REPLY, body: m.body },
        ),
{
    let reply = processed(m);
    crate::message::parse_of_wire(m);
    crate::message::parse_of_wire(reply);
    assert(wire(m).subrange(0, wire(m).len() as int) =~= wire(m));
    assert(wire(reply).subrange(0, wire(m).len() as int) =~= wire(reply));
}

/// Processing never changes a body, never changes a sentinel, and turns
/// every other message into a reply.
pub proof fn processing_keeps_control(m: MessageView)
    ensures
        processed(m).body == m.body,
        is_control(m.tag) ==> processed(m) == m,
        !is_control(m.tag) ==> processed(m).tag == TAG_REPLY,
        processed(processed(m)) == processed(m),
{
}

} // verus!
