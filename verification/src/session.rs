//! The decisions of the two endpoints: what a connection handler does with
//! each message it receives, when a connector's sender stops, and how a
//! listener moves through its life. The caller performs the transport work
//! and reports what happened.

use vstd::prelude::*;
use crate::error::CommError;
use crate::message::{
    is_control, wire, Message, MessageView, TAG_END, TAG_FLUSH, TAG_QUIT, TAG_REPLY,
};
use crate::processing::{CommProcessing, Process, SendPlan};

verus! {

/// A tag that makes a connection handler leave its loop.
pub open spec fn stops(tag: u8) -> bool {
    tag == TAG_END || tag == TAG_QUIT
}

/// What a connection handler does with one message, over message values.
pub enum Dispatch {
    Reply(MessageView),
    EndConnection,
    QuitListener,
}

/// The rule of the connection handler: `QUIT` stops the listener and ends
/// the handler, `END` ends the handler alone, and every other message is
/// processed under the policy `P` and sent back on the same connection.
pub open spec fn dispatch<P: Process>(m: MessageView) -> Dispatch {
    if m.tag == TAG_QUIT {
        Dispatch::QuitListener
    } else if m.tag == TAG_END {
        Dispatch::EndConnection
    } else {
        Dispatch::Reply(P::policy(m))
    }
}

/// What a connection handler does with one message.
#[derive(Debug, PartialEq, Eq)]
pub enum HandlerAction {
    /// Send this message back and go on receiving.
    Reply(Message),
    /// Leave the loop; the listener goes on accepting.
    EndConnection,
    /// Leave the loop and tell the listener to stop accepting.
    QuitListener,
}

impl View for HandlerAction {
    type V = Dispatch;

    open spec fn view(&self) -> Dispatch {
        match self {
            HandlerAction::Reply(m) => Dispatch::Reply(m@),
            HandlerAction::EndConnection => Dispatch::EndConnection,
            HandlerAction::QuitListener => Dispatch::QuitListener,
        }
    }
}

/// Decides what the handler of a connection does with a message that it
/// has just received.
pub fn handle_message<P: Process>(msg: Message) -> (r: HandlerAction)
    ensures
        r@ == dispatch::<P>(msg@),
{
    let tag: u8 = msg.get_type();
    if tag == TAG_QUIT {
        HandlerAction::QuitListener
    } else if tag == TAG_END {
        HandlerAction::EndConnection
    } else {
        let mut reply = msg;
        P::process_message(&mut reply);
        HandlerAction::Reply(reply)
    }
}

/// How the handler of a connection stood when its input was used up.
#[derive(Clone, Copy, Debug, PartialEq, Eq, Structural)]
pub enum HandlerExit {
    /// Every message was answered; the handler is still receiving.
    Open,
    /// An `END` message ended the handler.
    Ended,
    /// A `QUIT` message ended the handler and stops the listener.
    Quit,
}

/// The values of a sequence of messages.
pub open spec fn views(s: Seq<Message>) -> Seq<MessageView> {
    Seq::new(s.len(), |i: int| s[i]@)
}

/// `n` is the number of messages that a handler answers when `msgs` arrive
/// in this order: none of the first `n` stops it, and the one behind them,
/// if there is one, does.
pub open spec fn answers(msgs: Seq<MessageView>, n: nat) -> bool {
    &&& n <= msgs.len()
    &&& forall|j: int| 0 <= j < n ==> !stops(#[trigger] msgs[j].tag)
    &&& n < msgs.len() ==> stops(msgs[n as int].tag)
}

/// The replies to the first `n` messages, each in the place of the message
/// that it answers.
pub open spec fn replies_to<P: Process>(msgs: Seq<MessageView>, n: nat) -> Seq<MessageView> {
    Seq::new(n, |j: int| P::policy(msgs[j]))
}

/// How a handler stands after it answered the first `n` of `msgs`.
pub open spec fn exit_after(msgs: Seq<MessageView>, n: nat) -> HandlerExit {
    if n >= msgs.len() {
        HandlerExit::Open
    } else if msgs[n as int].tag == TAG_QUIT {
        HandlerExit::Quit
    } else {
        HandlerExit::Ended
    }
}

/// What a handler did with the messages of one connection.
#[derive(Debug, PartialEq, Eq)]
pub struct Served {
    /// The replies, in the order in which they were sent.
    pub replies: Vec<Message>,
    /// How the handler stood at the end.
    pub exit: HandlerExit,
}

/// Runs the handler of one connection over the messages that arrived on
/// it, in their order of arrival. Each message before the first `END` or
/// `QUIT` is answered, in that order; nothing behind is looked at.
pub fn serve<P: Process>(msgs: &Vec<Message>) -> (r: Served)
    ensures
        answers(views(msgs@), r.replies@.len()),
        views(r.replies@) == replies_to::<P>(views(msgs@), r.replies@.len()),
        r.exit == exit_after(views(msgs@), r.replies@.len()),
{
    let mut replies: Vec<Message> = Vec::new();
    let mut exit = HandlerExit::Open;
    let mut done = false;
    let mut i: usize = 0;
    while i < msgs.len() && !done
        invariant
            i <= msgs@.len(),
            replies@.len() == i,
            !done ==> exit == HandlerExit::Open,
            done ==> i < msgs@.len() && stops(msgs@[i as int]@.tag) && exit == exit_after(
                views(msgs@),
                i as nat,
            ),
            forall|j: int| 0 <= j < i ==> !stops(#[trigger] views(msgs@)[j].tag),
            forall|j: int| 0 <= j < i ==> (#[trigger] replies@[j])@ == P::policy(msgs@[j]@),
        decreases msgs@.len() - i + (if done { 0int } else { 1int }),
    {
        match handle_message::<P>(msgs[i].clone()) {
            HandlerAction::Reply(m) => {
                replies.push(m);
                i = i + 1;
            },
            HandlerAction::EndConnection => {
                exit = HandlerExit::Ended;
                done = true;
            },
            HandlerAction::QuitListener => {
                exit = HandlerExit::Quit;
                done = true;
            },
        }
    }
    assert(views(replies@) =~= replies_to::<P>(views(msgs@), replies@.len()));
    Served { replies, exit }
}

/// What a connector's sender does with the next message of its queue.
#[derive(Debug, PartialEq, Eq)]
pub struct SenderStep {
    /// What to hand to the transport.
    pub plan: SendPlan,
    /// Whether the sender leaves its loop after this message.
    pub stop: bool,
}

/// Decides what a connector's sender does with the message that it took
/// from its queue: it transmits every message, and stops behind an `END`.
pub fn sender_step(msg: &Message) -> (r: SenderStep)
    ensures
        r.plan.bytes@ == wire(msg@),
        r.plan.flush == is_control(msg@.tag),
        r.stop == (msg@.tag == TAG_END),
{
    let plan = CommProcessing::buf_send_message(msg);
    SenderStep { plan, stop: msg.get_type() == TAG_END }
}

/// `n` is the number of messages that a sender transmits when `msgs` were
/// posted in this order: all of them up to the first `END`, that one
/// included.
pub open spec fn transmits(msgs: Seq<MessageView>, n: nat) -> bool {
    &&& n <= msgs.len()
    &&& forall|j: int| 0 <= j < n - 1 ==> #[trigger] msgs[j].tag != TAG_END
    &&& n < msgs.len() ==> n >= 1 && msgs[n - 1].tag == TAG_END
}

/// The bytes that a sender puts on the transport for the first `n`
/// messages, one frame behind the other.
pub open spec fn wire_of(msgs: Seq<MessageView>, n: nat) -> Seq<u8>
    decreases n,
{
    if n == 0 {
        Seq::empty()
    } else {
        wire_of(msgs, (n - 1) as nat) + wire(msgs[n - 1])
    }
}

/// What a sender did with the messages of its queue.
#[derive(Debug, PartialEq, Eq)]
pub struct Transmitted {
    /// The bytes that went to the transport, in order.
    pub bytes: Vec<u8>,
    /// How many messages went out.
    pub count: usize,
    /// Whether an `END` message stopped the sender.
    pub stopped: bool,
}

/// Runs a connector's sender over the messages that were posted, in post
/// order, and returns the byte stream that it produces.
pub fn transmit(msgs: &Vec<Message>) -> (r: Transmitted)
    ensures
        transmits(views(msgs@), r.count as nat),
        r.bytes@ == wire_of(views(msgs@), r.count as nat),
        r.stopped == (r.count >= 1 && msgs@[r.count - 1]@.tag == TAG_END),
{
    let mut bytes: Vec<u8> = Vec::new();
    let mut stopped = false;
    let mut i: usize = 0;
    while i < msgs.len() && !stopped
        invariant
            i <= msgs@.len(),
            forall|j: int| 0 <= j < i - 1 ==> #[trigger] views(msgs@)[j].tag != TAG_END,
            stopped == (i >= 1 && msgs@[i - 1]@.tag == TAG_END),
            bytes@ == wire_of(views(msgs@), i as nat),
        decreases msgs@.len() - i,
    {
        let step = sender_step(&msgs[i]);
        let mut frame = step.plan.bytes;
        bytes.append(&mut frame);
        stopped = step.stop;
        i = i + 1;
    }
    Transmitted { bytes, count: i, stopped }
}

/// The life of a connector.
#[derive(Clone, Copy, Debug, PartialEq, Eq, Structural)]
pub enum ConnectorState {
    /// The connection stands and the sender goes on.
    Connected,
    /// The sender has left its loop.
    Closing,
}

/// What becomes of a connector once the transport has answered: a
/// connector exists only where its peer was reached.
pub open spec fn connect_result(reached: bool) -> Result<ConnectorState, CommError> {
    if reached {
        Ok(ConnectorState::Connected)
    } else {
        Err(CommError::ConnectError)
    }
}

/// Decides what a connection attempt amounts to.
pub fn connect_outcome(reached: bool) -> (r: Result<ConnectorState, CommError>)
    ensures
        r == connect_result(reached),
{
    if reached {
        Ok(ConnectorState::Connected)
    } else {
        Err(CommError::ConnectError)
    }
}

/// Where a sender stands after one message: a refused write ends it with
/// the write error, an `END` that went out ends it in good order, and
/// after every other message it goes on.
pub open spec fn send_result(m: MessageView, written: bool) -> Result<ConnectorState, CommError> {
    if !written {
        Err(CommError::WriteError)
    } else if m.tag == TAG_END {
        Ok(ConnectorState::Closing)
    } else {
        Ok(ConnectorState::Connected)
    }
}

/// Decides where a sender stands after the transport took, or refused, the
/// frame of `msg`.
pub fn send_outcome(msg: &Message, written: bool) -> (r: Result<ConnectorState, CommError>)
    ensures
        r == send_result(msg@, written),
{
    if !written {
        Err(CommError::WriteError)
    } else if msg.get_type() == TAG_END {
        Ok(ConnectorState::Closing)
    } else {
        Ok(ConnectorState::Connected)
    }
}

/// The life of a listener.
#[derive(Clone, Copy, Debug, PartialEq, Eq, Structural)]
pub enum ListenerState {
    Created,
    Running,
    Stopped,
}

/// What can happen to a listener.
#[derive(Clone, Copy, Debug, PartialEq, Eq, Structural)]
pub enum ListenerEvent {
    /// The address was bound.
    Bound,
    /// The address could not be bound.
    BindFailed,
    /// A peer connected.
    Connection,
    /// A `QUIT` message was delivered, by a peer or by the owner.
    Quit,
}

/// What the listener's owner is to do next.
#[derive(Clone, Copy, Debug, PartialEq, Eq, Structural)]
pub enum ListenerAction {
    /// Start the accept loop.
    StartAccepting,
    /// Hand the error to the caller of `start`.
    Fail(CommError),
    /// Start a handler for the new connection.
    SpawnHandler,
    /// Leave the accept loop.
    StopAccepting,
    /// Nothing.
    Ignore,
}

/// The listener's transitions. A listener starts to accept once its address
/// is bound and stays as created where it is not; while it runs, each
/// connection gets a handler; `QUIT` stops it for good.
pub open spec fn listener_next(s: ListenerState, e: ListenerEvent) -> (
    ListenerState,
    ListenerAction,
) {
    match (s, e) {
        (ListenerState::Created, ListenerEvent::Bound) => (
            ListenerState::Running,
            ListenerAction::StartAccepting,
        ),
        (ListenerState::Created, ListenerEvent::BindFailed) => (
            ListenerState::Created,
            ListenerAction::Fail(CommError::BindError),
        ),
        (ListenerState::Running, ListenerEvent::Connection) => (
            ListenerState::Running,
            ListenerAction::SpawnHandler,
        ),
        (ListenerState::Running, ListenerEvent::Quit) => (
            ListenerState::Stopped,
            ListenerAction::StopAccepting,
        ),
        _ => (s, ListenerAction::Ignore),
    }
}

/// Moves a listener by one event and says what its owner is to do.
pub fn listener_step(s: ListenerState, e: ListenerEvent) -> (r: (ListenerState, ListenerAction))
    ensures
        r == listener_next(s, e),
{
    match s {
        ListenerState::Created => match e {
            ListenerEvent::Bound => (ListenerState::Running, ListenerAction::StartAccepting),
            ListenerEvent::BindFailed => (
                ListenerState::Created,
                ListenerAction::Fail(CommError::BindError),
            ),
            _ => (s, ListenerAction::Ignore),
        },
        ListenerState::Running => match e {
            ListenerEvent::Connection => (ListenerState::Running, ListenerAction::SpawnHandler),
            ListenerEvent::Quit => (ListenerState::Stopped, ListenerAction::StopAccepting),
            _ => (s, ListenerAction::Ignore),
        },
        ListenerState::Stopped => (s, ListenerAction::Ignore),
    }
}

/// The event that a handler's exit is for its listener, if it is one.
pub fn exit_event(exit: HandlerExit) -> (r: Option<ListenerEvent>)
    ensures
        r == (if exit == HandlerExit::Quit {
            Some(ListenerEvent::Quit)
        } else {
            None
        }),
{
    match exit {
        HandlerExit::Quit => Some(ListenerEvent::Quit),
        _ => None,
    }
}

/// The state of a listener after a run of events.
pub open spec fn state_after(s: ListenerState, events: Seq<ListenerEvent>) -> ListenerState
    decreases events.len(),
{
    if events.len() == 0 {
        s
    } else {
        state_after(listener_next(s, events[0]).0, events.drop_first())
    }
}

/// The number of messages that a handler answers is determined by the
/// messages alone.
pub proof fn answers_is_unique(msgs: Seq<MessageView>, a: nat, b: nat)
    requires
        answers(msgs, a),
        answers(msgs, b),
    ensures
        a == b,
{
    if a < b {
        assert(!stops(msgs[a as int].tag));
    } else if b < a {
        assert(!stops(msgs[b as int].tag));
    }
}

/// The number of messages that a sender transmits is determined by the
/// messages alone.
pub proof fn transmits_is_unique(msgs: Seq<MessageView>, a: nat, b: nat)
    requires
        transmits(msgs, a),
        transmits(msgs, b),
    ensures
        a == b,
{
    if a < b {
        assert(msgs[a - 1].tag != TAG_END);
    } else if b < a {
        assert(msgs[b - 1].tag != TAG_END);
    }
}

/// Where none of the messages posted on a connection ends it, every one of
/// them is transmitted and answered, and the replies stand in post order:
/// the reply in each place is what the policy makes of the message that
/// was posted in that place.
pub proof fn replies_keep_post_order<P: Process>(msgs: Seq<MessageView>)
    requires
        forall|j: int| 0 <= j < msgs.len() ==> !stops(#[trigger] msgs[j].tag),
    ensures
        transmits(msgs, msgs.len()),
        answers(msgs, msgs.len()),
        replies_to::<P>(msgs, msgs.len()).len() == msgs.len(),
        forall|j: int|
            0 <= j < msgs.len() ==> (#[trigger] replies_to::<P>(msgs, msgs.len())[j]) == P::policy(
                msgs[j],
            ),
{
}

/// Under the default policy every message that is no sentinel is answered
/// by a reply that carries the body that was posted, in the place in which
/// it was posted.
pub proof fn default_replies_echo_bodies(msgs: Seq<MessageView>)
    requires
        forall|j: int| 0 <= j < msgs.len() ==> !is_control(#[trigger] msgs[j].tag),
    ensures
        answers(msgs, msgs.len()),
        forall|j: int|
            0 <= j < msgs.len() ==> (#[trigger] replies_to::<CommProcessing>(
                msgs,
                msgs.len(),
            )[j]).tag == TAG_REPLY && replies_to::<CommProcessing>(msgs, msgs.len())[j].body
                == msgs[j].body,
{
}

/// Whatever the policy, a `FLUSH` message comes back as a `FLUSH` message.
pub proof fn flush_is_echoed_as_flush<P: Process>(m: MessageView)
    requires
        m.tag == TAG_FLUSH,
    ensures
        dispatch::<P>(m) matches Dispatch::Reply(r) && r.tag == TAG_FLUSH,
{
    P::policy_keeps_sentinels(m);
}

/// The stream that a sender produces for `n` messages of one frame length
/// holds `n` frames of that length.
pub proof fn transmission_length(msgs: Seq<MessageView>, n: nat, len: nat)
    requires
        n <= msgs.len(),
        forall|j: int| 0 <= j < n ==> wire(#[trigger] msgs[j]).len() == len,
    ensures
        wire_of(msgs, n).len() == n * len,
    decreases n,
{
    if n > 0 {
        transmission_length(msgs, (n - 1) as nat, len);
        assert(wire(msgs[n - 1]).len() == len);
        assert((n - 1) * len + len == n * len) by (nonlinear_arith);
    } else {
        assert(n * len == 0) by (nonlinear_arith)
            requires
                n == 0,
        ;
    }
}

/// Cutting the stream that a sender produces into frames gives back the
/// messages that were posted, each in its place.
pub proof fn transmission_keeps_frames(msgs: Seq<MessageView>, n: nat, len: nat, k: int)
    requires
        n <= msgs.len(),
        forall|j: int| 0 <= j < n ==> wire(#[trigger] msgs[j]).len() == len,
        0 <= k < n,
    ensures
        crate::framing::frame_at(wire_of(msgs, n), len, k) == wire(msgs[k]),
    decreases n,
{
    let before = wire_of(msgs, (n - 1) as nat);
    transmission_length(msgs, (n - 1) as nat, len);
    assert(k * len + len <= (n - 1) * len + len) by (nonlinear_arith)
        requires
            0 <= k <= n - 1,
            len >= 0,
    ;
    assert(k * len >= 0) by (nonlinear_arith)
        requires
            0 <= k,
            len >= 0,
    ;
    if k == n - 1 {
        assert(crate::framing::frame_at(wire_of(msgs, n), len, k) =~= wire(msgs[k]));
    } else {
        transmission_keeps_frames(msgs, (n - 1) as nat, len, k);
        assert(k * len + len <= (n - 1) * len) by (nonlinear_arith)
            requires
                0 <= k < n - 1,
                len >= 0,
        ;
        assert(crate::framing::frame_at(wire_of(msgs, n), len, k) =~= crate::framing::frame_at(
            before,
            len,
            k,
        ));
    }
}

/// An `END` message ends its connection: the sender transmits it and
/// stops, and the handler answers what came before it and nothing that
/// comes behind, whatever that is.
pub proof fn nothing_after_end<P: Process>(
    before: Seq<MessageView>,
    end: MessageView,
    after: Seq<MessageView>,
)
    requires
        forall|j: int| 0 <= j < before.len() ==> !stops(#[trigger] before[j].tag),
        end.tag == TAG_END,
    ensures
        transmits(before.push(end) + after, before.len() + 1),
        answers(before.push(end) + after, before.len()),
        exit_after(before.push(end) + after, before.len()) == HandlerExit::Ended,
        replies_to::<P>(before.push(end) + after, before.len()) == replies_to::<P>(
            before,
            before.len(),
        ),
        dispatch::<P>(end) == Dispatch::EndConnection,
{
    let all = before.push(end) + after;
    assert(all[before.len() as int] == end);
    assert forall|j: int| 0 <= j < before.len() implies all[j] == before[j] by {}
    assert forall|j: int| 0 <= j < before.len() implies !stops(#[trigger] all[j].tag) by {
        assert(all[j] == before[j]);
    }
    assert(replies_to::<P>(all, before.len()) =~= replies_to::<P>(before, before.len()));
}

/// A `QUIT` message stops a running listener, and a stopped listener stays
/// stopped and starts no handler, whatever happens to it. A handler's
/// decisions take no account of the listener's state, so the handlers that
/// are open go on as before.
pub proof fn quit_stops_accepting(events: Seq<ListenerEvent>)
    ensures
        listener_next(ListenerState::Running, ListenerEvent::Quit) == (
            ListenerState::Stopped,
            ListenerAction::StopAccepting,
        ),
        forall|e: ListenerEvent|
            (#[trigger] listener_next(ListenerState::Stopped, e)) == (
                ListenerState::Stopped,
                ListenerAction::Ignore,
            ),
        state_after(ListenerState::Stopped, events) == ListenerState::Stopped,
        state_after(ListenerState::Running, seq![ListenerEvent::Quit] + events)
            == ListenerState::Stopped,
    decreases events.len(),
{
    if events.len() > 0 {
        quit_stops_accepting(events.drop_first());
    }
    let run = seq![ListenerEvent::Quit] + events;
    assert(run.drop_first() =~= events);
    assert(run[0] == ListenerEvent::Quit);
}

/// A listener whose address cannot be bound reports the bind error and
/// stays as it was created.
pub proof fn bind_failure_keeps_created()
    ensures
        listener_next(ListenerState::Created, ListenerEvent::BindFailed) == (
            ListenerState::Created,
            ListenerAction::Fail(CommError::BindError),
        ),
{
}

/// The sum of the reply counts of a set of connections.
pub open spec fn total(counts: Seq<nat>) -> nat
    decreases counts.len(),
{
    if counts.len() == 0 {
        0
    } else {
        total(counts.drop_last()) + counts.last()
    }
}

/// Where each of a number of connections is answered `m` times, the
/// replies are that number times `m` in all.
pub proof fn equal_shares_total(counts: Seq<nat>, m: nat)
    requires
        forall|c: int| 0 <= c < counts.len() ==> #[trigger] counts[c] == m,
    ensures
        total(counts) == counts.len() * m,
    decreases counts.len(),
{
    if counts.len() > 0 {
        equal_shares_total(counts.drop_last(), m);
        assert((counts.len() - 1) * m + m == counts.len() * m) by (nonlinear_arith);
    } else {
        assert(counts.len() * m == 0) by (nonlinear_arith)
            requires
                counts.len() == 0,
        ;
    }
}

/// Where each of a number of connections posts `m` messages that do not
/// end it, each before anything that does, the replies of all connections
/// together are that number times `m`: no message is lost and none is
/// answered twice.
pub proof fn every_message_is_answered_once<P: Process>(conns: Seq<Seq<MessageView>>, m: nat)
    requires
        forall|c: int|
            0 <= c < conns.len() ==> m <= (#[trigger] conns[c]).len() && answers(conns[c], m),
    ensures
        total(Seq::new(conns.len(), |c: int| replies_to::<P>(conns[c], m).len())) == conns.len()
            * m,
{
    let counts = Seq::new(conns.len(), |c: int| replies_to::<P>(conns[c], m).len());
    equal_shares_total(counts, m);
}

} // verus!
