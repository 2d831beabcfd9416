//! The message envelope: one type tag followed by a body, held as the frame
//! that travels on the wire.

use vstd::prelude::*;

verus! {

/// Length in bytes of every frame of the protocol, type tag included.
pub const MSG_SIZE: usize = 4096;

/// Length in bytes of the type tag that opens a frame.
pub const TYPE_SIZE: usize = 1;

/// Tag of an application payload that is to be processed.
pub const TAG_DATA: u8 = 0;

/// Tag of a processed result.
pub const TAG_REPLY: u8 = 1;

/// Tag that asks for the transport buffer to be flushed.
pub const TAG_FLUSH: u8 = 2;

/// Tag that ends the handler of one connection.
pub const TAG_END: u8 = 3;

/// Tag that ends the listener's accept loop.
pub const TAG_QUIT: u8 = 4;

/// The reserved message types. Every other tag value is free for the
/// application.
#[allow(non_camel_case_types)]
#[derive(Clone, Copy, Debug, PartialEq, Eq, Structural)]
pub enum MessageType {
    DATA,
    REPLY,
    FLUSH,
    END,
    QUIT,
}

/// The tag value of a reserved type.
pub open spec fn tag_of(t: MessageType) -> u8 {
    match t {
        MessageType::DATA => TAG_DATA,
        MessageType::REPLY => TAG_REPLY,
        MessageType::FLUSH => TAG_FLUSH,
        MessageType::END => TAG_END,
        MessageType::QUIT => TAG_QUIT,
    }
}

/// The reserved type that a tag value stands for, if any.
pub open spec fn type_of(tag: u8) -> Option<MessageType> {
    if tag == TAG_DATA {
        Some(MessageType::DATA)
    } else if tag == TAG_REPLY {
        Some(MessageType::REPLY)
    } else if tag == TAG_FLUSH {
        Some(MessageType::FLUSH)
    } else if tag == TAG_END {
        Some(MessageType::END)
    } else if tag == TAG_QUIT {
        Some(MessageType::QUIT)
    } else {
        None
    }
}

/// A sentinel tag carries protocol control meaning rather than payload.
pub open spec fn is_control(tag: u8) -> bool {
    tag == TAG_FLUSH || tag == TAG_END || tag == TAG_QUIT
}

impl MessageType {
    /// The byte that stands for this type on the wire.
    pub fn tag(self) -> (r: u8)
        ensures
            r == tag_of(self),
            type_of(r) == Some(self),
    {
        match self {
            MessageType::DATA => TAG_DATA,
            MessageType::REPLY => TAG_REPLY,
            MessageType::FLUSH => TAG_FLUSH,
            MessageType::END => TAG_END,
            MessageType::QUIT => TAG_QUIT,
        }
    }

    /// The reserved type of a tag byte; `None` for an application-defined
    /// tag.
    pub fn from_tag(tag: u8) -> (r: Option<MessageType>)
        ensures
            r == type_of(tag),
            r matches Some(t) ==> tag_of(t) == tag,
    {
        if tag == TAG_DATA {
            Some(MessageType::DATA)
        } else if tag == TAG_REPLY {
            Some(MessageType::REPLY)
        } else if tag == TAG_FLUSH {
            Some(MessageType::FLUSH)
        } else if tag == TAG_END {
            Some(MessageType::END)
        } else if tag == TAG_QUIT {
            Some(MessageType::QUIT)
        } else {
            None
        }
    }
}

/// Whether a tag byte is one of the three sentinels.
pub fn is_control_tag(tag: u8) -> (r: bool)
    ensures
        r == is_control(tag),
{
    tag == TAG_FLUSH || tag == TAG_END || tag == TAG_QUIT
}

/// What a message is: its type tag and its body.
pub struct MessageView {
    pub tag: u8,
    pub body: Seq<u8>,
}

/// The wire form of a message: the tag byte, then the body.
pub open spec fn wire(m: MessageView) -> Seq<u8> {
    seq![m.tag] + m.body
}

/// The message that a frame of at least one byte holds.
pub open spec fn parse(frame: Seq<u8>) -> MessageView
    recommends
        frame.len() >= 1,
{
    MessageView { tag: frame[0], body: frame.subrange(1, frame.len() as int) }
}

/// Parsing undoes encoding.
pub proof fn parse_of_wire(m: MessageView)
    ensures
        wire(m).len() == 1 + m.body.len(),
        parse(wire(m)) == m,
{
    assert(parse(wire(m)).body =~= m.body);
}

/// Encoding undoes parsing, on every frame that holds a tag.
pub proof fn wire_of_parse(frame: Seq<u8>)
    requires
        frame.len() >= 1,
    ensures
        wire(parse(frame)) == frame,
{
    assert(wire(parse(frame)) =~= frame);
}

/// A message, stored as its frame.
#[derive(Debug, PartialEq, Eq)]
pub struct Message {
    frame: Vec<u8>,
}

impl View for Message {
    type V = MessageView;

    closed spec fn view(&self) -> MessageView {
        parse(self.frame@)
    }
}

impl Clone for Message {
    /// A copy with the same tag and body.
    fn clone(&self) -> (r: Message)
        ensures
            r@ == self@,
    {
        proof {
            use_type_invariant(self);
        }
        Message { frame: self.frame.clone() }
    }
}

impl Message {
    #[verifier::type_invariant]
    closed spec fn holds_tag(&self) -> bool {
        self.frame@.len() >= 1
    }

    /// A zeroed message whose frame is `sz` bytes long, tag included.
    pub fn new(sz: usize) -> (r: Message)
        requires
            sz >= TYPE_SIZE,
        ensures
            r@.tag == TAG_DATA,
            r@.body == Seq::new((sz - 1) as nat, |i: int| 0u8),
    {
        let mut frame: Vec<u8> = Vec::new();
        let mut i: usize = 0;
        while i < sz
            invariant
                i <= sz,
                frame@ == Seq::new(i as nat, |j: int| 0u8),
            decreases sz - i,
        {
            frame.push(0u8);
            i = i + 1;
            assert(frame@ =~= Seq::new(i as nat, |j: int| 0u8));
        }
        let r = Message { frame };
        assert(r@.body =~= Seq::new((sz - 1) as nat, |i: int| 0u8));
        r
    }

    /// The message that a frame holds. `None` where the frame is empty and
    /// so holds no tag.
    pub fn from_frame(frame: Vec<u8>) -> (r: Option<Message>)
        ensures
            r.is_some() == (frame@.len() >= 1),
            r matches Some(m) ==> wire(m@) == frame@,
    {
        if frame.len() >= 1 {
            proof {
                wire_of_parse(frame@);
            }
            Some(Message { frame })
        } else {
            None
        }
    }

    /// The message with this tag and this body.
    pub fn with_body(tag: u8, body: &[u8]) -> (r: Message)
        ensures
            r@.tag == tag,
            r@.body == body@,
    {
        let mut frame: Vec<u8> = Vec::new();
        frame.push(tag);
        let mut i: usize = 0;
        while i < body.len()
            invariant
                i <= body@.len(),
                frame@ == seq![tag] + body@.subrange(0, i as int),
            decreases body@.len() - i,
        {
            frame.push(body[i]);
            i = i + 1;
            assert(frame@ =~= seq![tag] + body@.subrange(0, i as int));
        }
        let r = Message { frame };
        assert(r@.body =~= body@);
        r
    }

    /// A copy of the body.
    pub fn body(&self) -> (r: Vec<u8>)
        ensures
            r@ == self@.body,
    {
        proof {
            use_type_invariant(self);
        }
        let mut out: Vec<u8> = Vec::new();
        let mut i: usize = 1;
        while i < self.frame.len()
            invariant
                1 <= i <= self.frame@.len(),
                out@ == self.frame@.subrange(1, i as int),
            decreases self.frame@.len() - i,
        {
            out.push(self.frame[i]);
            i = i + 1;
            assert(out@ =~= self.frame@.subrange(1, i as int));
        }
        out
    }

    /// Length of the frame in bytes, tag included.
    pub fn len(&self) -> (r: usize)
        ensures
            r == 1 + self@.body.len(),
            r == wire(self@).len(),
    {
        proof {
            use_type_invariant(self);
        }
        self.frame.len()
    }

    /// The type tag.
    pub fn get_type(&self) -> (r: u8)
        ensures
            r == self@.tag,
    {
        proof {
            use_type_invariant(self);
        }
        self.frame[0]
    }

    /// Replaces the type tag and leaves the body as it is.
    pub fn set_type(&mut self, tag: u8)
        ensures
            final(self)@.tag == tag,
            final(self)@.body == old(self)@.body,
    {
        proof {
            use_type_invariant(&*self);
        }
        self.frame[0] = tag;
        assert(self@.body =~= old(self)@.body);
    }

    /// Overwrites the whole frame, tag and body, with the first `len()` bytes
    /// of `bytes`.
    pub fn load(&mut self, bytes: &[u8])
        requires
            bytes@.len() >= wire(old(self)@).len(),
        ensures
            wire(final(self)@) == bytes@.subrange(0, wire(old(self)@).len() as int),
    {
        proof {
            use_type_invariant(&*self);
        }
        let n: usize = self.frame.len();
        let mut i: usize = 0;
        while i < n
            invariant
                i <= n,
                n == self.frame@.len(),
                n == old(self).frame@.len(),
                n <= bytes@.len(),
                forall|j: int| 0 <= j < i ==> self.frame@[j] == bytes@[j],
            decreases n - i,
        {
            self.frame[i] = bytes[i];
            i = i + 1;
        }
        proof {
            wire_of_parse(self.frame@);
            assert(self.frame@ =~= bytes@.subrange(0, n as int));
        }
    }

    /// The frame as it goes on the wire.
    pub fn get_ref(&self) -> (r: &Vec<u8>)
        ensures
            r@ == wire(self@),
    {
        proof {
            use_type_invariant(self);
            wire_of_parse(self.frame@);
        }
        &self.frame
    }
}

} // verus!
