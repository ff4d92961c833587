//! The PAD adapter: between a terminal's byte stream and the messages of a
//! virtual circuit.
//!
//! The functions here do the adapter's work on its queues. They perform no
//! I/O and do not wait: what is to be sent on the circuit is handed back,
//! and the caller sends it.

use crate::buf::{bytes_as_slice, bytes_copy_from_slice, bytes_seq};
use crate::pad_params::{
    applied, read_params, set_params, set_read_entry, set_read_params, spec_read_params,
    spec_set_failures, PadParams,
};
use crate::x29::{spec_decode, X29PadMessage, X29PadMessageView};
use crate::x3::{forward_matches, X3ParamError, X3Params, CR, LF};
use bytes::Bytes;
use std::collections::VecDeque;
use vstd::prelude::*;

verus! {

/// How long the idle forwarder waits when no deadline is set, in
/// milliseconds.
pub const IDLE_POLL: u64 = 10_000;

/// How long a remote PAD is given to answer a request, in milliseconds.
pub const REMOTE_TIMEOUT: u64 = 5_000;

/// Bytes from the terminal that wait to be sent, and when the idle timer
/// forwards them, in milliseconds on the caller's clock.
pub struct SendQueue {
    pub bytes: VecDeque<u8>,
    pub deadline: Option<u64>,
}

impl SendQueue {
    pub fn new() -> (queue: SendQueue)
        ensures
            queue.bytes@ == Seq::<u8>::empty(),
            queue.deadline is None,
    {
        SendQueue { bytes: VecDeque::new(), deadline: None }
    }
}

/// What the adapter's queues hold while bytes are written, and the
/// messages sent so far.
pub ghost struct WriteModel {
    pub send_queue: Seq<u8>,
    pub recv_queue: Seq<u8>,
    pub sent: Seq<Seq<u8>>,
}

/// What the rules of writing are taken from.
pub ghost struct WriteRules {
    pub echo: bool,
    /// Parameter 3.
    pub forward: u8,
    /// Parameter 13.
    pub lf_insert: u8,
    pub packet_size: int,
}

/// A byte as it is queued: itself, and a line feed behind a carriage
/// return where the bit `bit` of parameter 13 asks for one.
pub open spec fn with_lf(byte: u8, lf_insert: u8, bit: u8) -> Seq<u8> {
    if byte == CR && lf_insert & bit == bit {
        seq![byte, LF]
    } else {
        seq![byte]
    }
}

/// The bytes as they are queued, each with the line feed it asks for.
pub open spec fn all_with_lf(bytes: Seq<u8>, lf_insert: u8, bit: u8) -> Seq<u8>
    decreases bytes.len(),
{
    if bytes.len() == 0 {
        Seq::empty()
    } else {
        all_with_lf(bytes.drop_last(), lf_insert, bit) + with_lf(bytes.last(), lf_insert, bit)
    }
}

/// The messages joined, in order.
pub open spec fn concat(messages: Seq<Seq<u8>>) -> Seq<u8>
    decreases messages.len(),
{
    if messages.len() == 0 {
        Seq::empty()
    } else {
        concat(messages.drop_last()) + messages.last()
    }
}

impl WriteModel {
    /// One byte written: echoed where echo is on, queued for sending, and
    /// the send queue sent as one message where the byte is a forwarding
    /// character or the queue has reached the packet size.
    pub open spec fn write_byte(self, byte: u8, rules: WriteRules) -> WriteModel {
        let recv_queue = if rules.echo {
            self.recv_queue + with_lf(byte, rules.lf_insert, 4)
        } else {
            self.recv_queue
        };
        let send_queue = self.send_queue + with_lf(byte, rules.lf_insert, 2);
        if forward_matches(rules.forward, byte) || send_queue.len() >= rules.packet_size {
            WriteModel { send_queue: Seq::empty(), recv_queue, sent: self.sent.push(send_queue) }
        } else {
            WriteModel { send_queue, recv_queue, sent: self.sent }
        }
    }

    /// The bytes written one after the other.
    pub open spec fn write(self, bytes: Seq<u8>, rules: WriteRules) -> WriteModel
        decreases bytes.len(),
    {
        if bytes.len() == 0 {
            self
        } else {
            self.write(bytes.drop_last(), rules).write_byte(bytes.last(), rules)
        }
    }
}

/// A byte written is followed by a message exactly when it is a forwarding
/// character or the queue, with the byte and its line feed, has reached the
/// packet size. The message is all that is queued, and leaves the queue
/// empty.
pub proof fn lemma_write_byte_forwards(start: WriteModel, byte: u8, rules: WriteRules)
    ensures
        ({
            let end = start.write_byte(byte, rules);
            let queued = start.send_queue + with_lf(byte, rules.lf_insert, 2);
            if forward_matches(rules.forward, byte) || queued.len() >= rules.packet_size {
                &&& end.sent == start.sent.push(queued)
                &&& end.send_queue.len() == 0
            } else {
                &&& end.sent == start.sent
                &&& end.send_queue == queued
                &&& end.send_queue.len() < rules.packet_size
            }
        }),
{
}

/// Writing loses and reorders nothing. What was sent, followed by what is
/// still queued, is what was queued before followed by the bytes written,
/// each with its line feed; the same holds of the echo. Every message sent
/// ends with a forwarding character, with the line feed behind one, or is
/// as long as a packet. Once a byte was written, fewer bytes than fill a
/// packet stay queued.
pub proof fn lemma_write_keeps_bytes(start: WriteModel, bytes: Seq<u8>, rules: WriteRules)
    ensures
        ({
            let end = start.write(bytes, rules);
            &&& concat(end.sent) + end.send_queue == concat(start.sent) + start.send_queue
                + all_with_lf(bytes, rules.lf_insert, 2)
            &&& end.recv_queue == if rules.echo {
                start.recv_queue + all_with_lf(bytes, rules.lf_insert, 4)
            } else {
                start.recv_queue
            }
            &&& end.sent.len() >= start.sent.len()
            &&& end.sent.take(start.sent.len() as int) == start.sent
            &&& bytes.len() > 0 ==> if rules.packet_size > 0 {
                end.send_queue.len() < rules.packet_size
            } else {
                end.send_queue.len() == 0
            }
            &&& forall|i: int|
                start.sent.len() <= i < end.sent.len() ==> {
                    let message = #[trigger] end.sent[i];
                    &&& message.len() > 0
                    &&& (message.len() >= rules.packet_size || forward_matches(
                        rules.forward,
                        message.last(),
                    ) || (message.len() >= 2 && message.last() == LF
                        && forward_matches(rules.forward, message[message.len() - 2])))
                }
        }),
    decreases bytes.len(),
{
    let end = start.write(bytes, rules);
    if bytes.len() == 0 {
        assert(concat(start.sent) + start.send_queue + all_with_lf(bytes, rules.lf_insert, 2)
            =~= concat(start.sent) + start.send_queue);
        assert(start.recv_queue + all_with_lf(bytes, rules.lf_insert, 4) =~= start.recv_queue);
        assert(end.sent.take(start.sent.len() as int) =~= start.sent);
    } else {
        let before = start.write(bytes.drop_last(), rules);
        lemma_write_keeps_bytes(start, bytes.drop_last(), rules);
        let byte = bytes.last();
        let queued = before.send_queue + with_lf(byte, rules.lf_insert, 2);
        if forward_matches(rules.forward, byte) || queued.len() >= rules.packet_size {
            assert(end.sent.drop_last() =~= before.sent);
            assert(concat(end.sent) + end.send_queue =~= concat(before.sent) + before.send_queue
                + with_lf(byte, rules.lf_insert, 2));
        } else {
            assert(concat(end.sent) + end.send_queue =~= concat(before.sent) + before.send_queue
                + with_lf(byte, rules.lf_insert, 2));
        }
        assert(concat(end.sent) + end.send_queue =~= concat(start.sent) + start.send_queue
            + all_with_lf(bytes, rules.lf_insert, 2));
        if rules.echo {
            assert(end.recv_queue =~= start.recv_queue + all_with_lf(bytes, rules.lf_insert, 4));
        }
        assert(end.sent.take(start.sent.len() as int) =~= before.sent.take(
            start.sent.len() as int,
        ));
    }
}

/// When what is queued is due after a write at time `now`: after the idle
/// delay where bytes stay queued and the idle timer is on; else never,
/// where the write forwarded something, or when it was due before.
pub open spec fn deadline_after_write(
    before: Option<u64>,
    end: WriteModel,
    delay: Option<u64>,
    now: u64,
) -> Option<u64> {
    if end.send_queue.len() > 0 && delay is Some {
        Some((now + delay->0) as u64)
    } else if end.sent.len() > 0 {
        None
    } else {
        before
    }
}

/// Whether the idle forwarder sends what is queued when it looks at time
/// `now`.
pub open spec fn idle_due(deadline: Option<u64>, queued: Seq<u8>, now: u64) -> bool {
    deadline is Some && queued.len() > 0 && now >= deadline->0
}

/// With the idle timer on, what a write leaves queued is sent when the
/// forwarder looks at any time from one idle delay after the write on,
/// and not before, as long as nothing else is written.
pub proof fn lemma_idle_forward(
    before: Option<u64>,
    end: WriteModel,
    delay: u64,
    now: u64,
    later: u64,
)
    requires
        end.send_queue.len() > 0,
        now + delay <= u64::MAX,
    ensures
        idle_due(deadline_after_write(before, end, Some(delay), now), end.send_queue, later)
            <==> later >= now + delay,
{
}

/// The contents of the messages, in order.
pub open spec fn message_seqs(messages: Seq<Bytes>) -> Seq<Seq<u8>> {
    messages.map_values(|m: Bytes| bytes_seq(m))
}

/// What a write did.
pub struct Written {
    /// Number of bytes taken: all of them.
    pub count: usize,
    /// The messages to send on the circuit, unqualified, in order.
    pub messages: Vec<Bytes>,
    /// Whether the idle forwarder has a new deadline to look at.
    pub wake_send: bool,
    /// Whether readers have echoed bytes to look at.
    pub wake_recv: bool,
}

/// Takes all that is queued for sending as one message and stops the idle
/// timer.
pub fn send_queued_data(queue: &mut SendQueue) -> (message: Bytes)
    ensures
        bytes_seq(message) == old(queue).bytes@,
        final(queue).bytes@ == Seq::<u8>::empty(),
        final(queue).deadline is None,
{
    let mut taken: Vec<u8> = Vec::new();
    while queue.bytes.len() > 0
        invariant
            taken@ + queue.bytes@ == old(queue).bytes@,
        decreases queue.bytes.len(),
    {
        let ghost rest = queue.bytes@;
        let byte: u8 = queue.bytes.pop_front().unwrap();
        taken.push(byte);
        proof {
            assert(taken@ + queue.bytes@ =~= taken@.drop_last() + rest);
        }
    }
    proof {
        assert(taken@ =~= taken@ + queue.bytes@);
        assert(queue.bytes@ =~= Seq::empty());
    }
    queue.deadline = None;
    bytes_copy_from_slice(taken.as_slice())
}

/// Queues a byte and the line feed that follows it, if any.
fn push_with_lf(queue: &mut VecDeque<u8>, byte: u8, insert: bool)
    ensures
        final(queue)@ == old(queue)@ + if insert {
            seq![byte, LF]
        } else {
            seq![byte]
        },
{
    queue.push_back(byte);
    if insert {
        queue.push_back(LF);
        proof {
            assert(queue@ =~= old(queue)@ + seq![byte, LF]);
        }
    } else {
        proof {
            assert(queue@ =~= old(queue)@ + seq![byte]);
        }
    }
}

/// Writes the terminal's bytes: each is echoed where echo is on, queued for
/// sending, and forwarded with what is queued where it is a forwarding
/// character or fills a packet. Where bytes stay queued and the idle timer
/// is on, they are due `idle` after `now`.
pub fn write<Q: X3Params>(
    buf: &[u8],
    params: &PadParams<Q>,
    suppress_echo_when_editing: bool,
    packet_size: usize,
    now: u64,
    send_queue: &mut SendQueue,
    recv_queue: &mut VecDeque<u8>,
) -> (written: Written)
    requires
        now + 255 * 50 <= u64::MAX,
    ensures
        written.count == buf@.len(),
        ({
            let rules = WriteRules {
                echo: params.spec_should_echo(suppress_echo_when_editing),
                forward: params.forward.spec_value(),
                lf_insert: params.lf_insert.spec_value(),
                packet_size: packet_size as int,
            };
            let start = WriteModel {
                send_queue: old(send_queue).bytes@,
                recv_queue: old(recv_queue)@,
                sent: Seq::empty(),
            };
            let end = start.write(buf@, rules);
            &&& final(send_queue).bytes@ == end.send_queue
            &&& final(recv_queue)@ == end.recv_queue
            &&& message_seqs(written.messages@) == end.sent
            &&& written.wake_recv == (rules.echo && buf@.len() > 0)
        }),
        buf@.len() > 0 && packet_size > 0 ==> final(send_queue).bytes@.len() < packet_size,
        buf@.len() == 0 ==> final(send_queue).deadline == old(send_queue).deadline
            && !written.wake_send,
        buf@.len() > 0 ==> {
            &&& written.wake_send == (final(send_queue).bytes@.len() > 0
                && params.idle.spec_delay() is Some)
            &&& final(send_queue).deadline == deadline_after_write(
                old(send_queue).deadline,
                WriteModel {
                    send_queue: final(send_queue).bytes@,
                    recv_queue: final(recv_queue)@,
                    sent: message_seqs(written.messages@),
                },
                params.idle.spec_delay(),
                now,
            )
        },
{
    let mut messages: Vec<Bytes> = Vec::new();
    let mut wake_send = false;
    let mut wake_recv = false;
    if buf.len() == 0 {
        proof {
            assert(message_seqs(messages@) =~= Seq::empty());
        }
        return Written { count: 0, messages, wake_send, wake_recv };
    }
    let should_echo = params.should_echo_write(suppress_echo_when_editing);
    let idle = params.idle.delay();
    let ghost rules = WriteRules {
        echo: should_echo,
        forward: params.forward.spec_value(),
        lf_insert: params.lf_insert.spec_value(),
        packet_size: packet_size as int,
    };
    let ghost start = WriteModel {
        send_queue: send_queue.bytes@,
        recv_queue: recv_queue@,
        sent: Seq::empty(),
    };
    let mut i: usize = 0;
    proof {
        assert(buf@.take(0) =~= Seq::empty());
        assert(message_seqs(messages@) =~= Seq::empty());
    }
    while i < buf.len()
        invariant
            i <= buf.len(),
            should_echo == rules.echo,
            rules.forward == params.forward.spec_value(),
            rules.lf_insert == params.lf_insert.spec_value(),
            rules.packet_size == packet_size,
            send_queue.bytes@ == start.write(buf@.take(i as int), rules).send_queue,
            recv_queue@ == start.write(buf@.take(i as int), rules).recv_queue,
            message_seqs(messages@) == start.write(buf@.take(i as int), rules).sent,
            wake_recv == (should_echo && i > 0),
            send_queue.deadline == if messages@.len() > 0 {
                None
            } else {
                old(send_queue).deadline
            },
        decreases buf.len() - i,
    {
        let byte: u8 = buf[i];
        let ghost before = start.write(buf@.take(i as int), rules);
        proof {
            assert(buf@.take(i as int + 1).drop_last() =~= buf@.take(i as int));
            assert(buf@.take(i as int + 1).last() == byte);
        }
        if should_echo {
            push_with_lf(recv_queue, byte, params.lf_insert.after_echo(byte));
            wake_recv = true;
        }
        push_with_lf(&mut send_queue.bytes, byte, params.lf_insert.after_send(byte));
        if params.forward.is_match(byte) || send_queue.bytes.len() >= packet_size {
            let ghost sent_before = messages@;
            let message = send_queued_data(send_queue);
            messages.push(message);
            proof {
                assert(message_seqs(messages@) =~= message_seqs(sent_before).push(
                    bytes_seq(message),
                ));
            }
        }
        i += 1;
    }
    proof {
        assert(buf@.take(buf.len() as int) =~= buf@);
        lemma_write_keeps_bytes(start, buf@, rules);
    }
    if send_queue.bytes.len() > 0 {
        if let Some(delay) = idle {
            send_queue.deadline = Some(now + delay);
            wake_send = true;
        }
    }
    Written { count: buf.len(), messages, wake_send, wake_recv }
}

/// Hands the reader up to `buf.len()` bytes from the front of the receive
/// queue, in order, and returns how many.
pub fn read(buf: &mut [u8], queue: &mut VecDeque<u8>) -> (n: usize)
    ensures
        n == if old(buf)@.len() <= old(queue)@.len() {
            old(buf)@.len()
        } else {
            old(queue)@.len()
        },
        final(buf)@ == old(queue)@.take(n as int) + old(buf)@.skip(n as int),
        final(queue)@ == old(queue)@.skip(n as int),
{
    let mut index: usize = 0;
    proof {
        assert(buf@ =~= old(queue)@.take(0) + old(buf)@.skip(0));
        assert(queue@ =~= old(queue)@.skip(0));
    }
    while index < buf.len() && queue.len() > 0
        invariant
            index <= buf@.len(),
            index <= old(queue)@.len(),
            buf@.len() == old(buf)@.len(),
            buf@ == old(queue)@.take(index as int) + old(buf)@.skip(index as int),
            queue@ == old(queue)@.skip(index as int),
        decreases buf@.len() - index,
    {
        let byte: u8 = queue.pop_front().unwrap();
        buf[index] = byte;
        proof {
            assert(queue@ =~= old(queue)@.skip(index as int + 1));
            assert(buf@ =~= old(queue)@.take(index as int + 1) + old(buf)@.skip(index as int + 1));
        }
        index += 1;
    }
    index
}

/// Queues data received from the remote party for the reader, each byte
/// with the line feed that parameter 13 asks for behind a carriage return.
pub fn queue_recv_data<Q: X3Params>(queue: &mut VecDeque<u8>, data: Bytes, params: &PadParams<Q>)
    ensures
        final(queue)@ == old(queue)@ + all_with_lf(bytes_seq(data), params.lf_insert.spec_value(), 1),
{
    let bytes = bytes_as_slice(&data);
    let ghost lf_insert = params.lf_insert.spec_value();
    let mut i: usize = 0;
    proof {
        assert(bytes@.take(0) =~= Seq::empty());
        assert(queue@ =~= old(queue)@ + all_with_lf(bytes@.take(0), lf_insert, 1));
    }
    while i < bytes.len()
        invariant
            i <= bytes.len(),
            lf_insert == params.lf_insert.spec_value(),
            queue@ == old(queue)@ + all_with_lf(bytes@.take(i as int), lf_insert, 1),
        decreases bytes.len() - i,
    {
        let byte: u8 = bytes[i];
        proof {
            assert(bytes@.take(i as int + 1).drop_last() =~= bytes@.take(i as int));
            assert(bytes@.take(i as int + 1).last() == byte);
        }
        push_with_lf(queue, byte, params.lf_insert.after_recv(byte));
        proof {
            assert(queue@ =~= old(queue)@ + all_with_lf(bytes@.take(i as int + 1), lf_insert, 1));
        }
        i += 1;
    }
    proof {
        assert(bytes@.take(bytes.len() as int) =~= bytes@);
    }
}

/// One look of the idle forwarder at the send queue, at time `now`. Where
/// the deadline has come and bytes are queued, they are handed back as one
/// message to send. The forwarder then waits, at most until the deadline
/// that is set, or for [`IDLE_POLL`] where none is.
pub fn idle_poll(queue: &mut SendQueue, now: u64) -> (result: (Option<Bytes>, u64))
    ensures
        ({
            let due = idle_due(old(queue).deadline, old(queue).bytes@, now);
            &&& due ==> {
                &&& result.0 is Some
                &&& bytes_seq(result.0->0) == old(queue).bytes@
                &&& final(queue).bytes@ == Seq::<u8>::empty()
                &&& final(queue).deadline is None
            }
            &&& !due ==> result.0 is None && final(queue).bytes@ == old(queue).bytes@ && final(queue).deadline == old(queue).deadline
            &&& result.1 == match final(queue).deadline {
                None => IDLE_POLL,
                Some(deadline) => if deadline >= now {
                    (deadline - now) as u64
                } else {
                    0
                },
            }
        }),
{
    let mut message: Option<Bytes> = None;
    if let Some(deadline) = queue.deadline {
        if queue.bytes.len() > 0 && now >= deadline {
            message = Some(send_queued_data(queue));
        }
    }
    let timeout: u64 = match queue.deadline {
        None => IDLE_POLL,
        Some(deadline) => if deadline >= now {
            deadline - now
        } else {
            0
        },
    };
    (message, timeout)
}

/// What the adapter does about a message from the circuit.
pub enum PadAction {
    /// Data was queued for the reader.
    Received,
    /// Nothing more is to be done.
    Handled,
    /// This message is to be sent to the remote PAD, qualified.
    Reply(X29PadMessage),
    /// The remote PAD has answered a request of ours with these entries.
    Indicate(Vec<(u8, Result<u8, X3ParamError>)>),
    /// The remote PAD asks for the call to be cleared: what is still queued
    /// is to be sent, in the message `data`, and once that has gone out the
    /// call is to be cleared with these codes.
    ClearInvited { data: Bytes, cause_code: u8, diagnostic_code: u8 },
    /// The request was rejected with this error and changed nothing: a
    /// request to set that names no parameter.
    Rejected(X3ParamError),
    /// The qualified message is no X.29 message and was dropped.
    Invalid,
}

/// Cause code of the clear that follows an invitation to clear.
pub const INVITED_CLEAR_CAUSE: u8 = 0;

/// Diagnostic code of the clear that follows an invitation to clear.
pub const INVITED_CLEAR_DIAGNOSTIC: u8 = 0;

/// Why a request to the remote PAD came to nothing.
#[derive(Clone, Copy, Debug, PartialEq, Eq, Structural)]
pub enum RemoteError {
    /// Another request is outstanding.
    Pending,
    /// The remote PAD did not answer in time.
    TimedOut,
}

/// Registers the waiter of a request to the remote PAD. One request may be
/// outstanding at a time: where a waiter is registered already the request
/// is refused and the waiter that is there stays.
pub fn begin_remote_request<W>(slot: &mut Option<W>, waiter: W) -> (result: Result<
    (),
    RemoteError,
>)
    ensures
        *old(slot) is None ==> result is Ok && *final(slot) == Some(waiter),
        *old(slot) is Some ==> result == Err::<(), RemoteError>(RemoteError::Pending) && *final(slot) == *old(slot),
{
    if slot.is_some() {
        return Err(RemoteError::Pending);
    }
    *slot = Some(waiter);
    Ok(())
}

/// Takes the waiter that an indication of the remote PAD is for, if one is
/// registered; no request is outstanding after it.
pub fn take_remote_waiter<W>(slot: &mut Option<W>) -> (waiter: Option<W>)
    ensures
        waiter == *old(slot),
        *final(slot) is None,
{
    slot.take()
}

/// Ends a request to the remote PAD with the answer that came within the
/// time allowed, or with none. Without an answer the request has timed out
/// and its waiter is taken off, so that another request can be made.
pub fn end_remote_request<W, R>(slot: &mut Option<W>, response: Option<R>) -> (result: Result<
    R,
    RemoteError,
>)
    ensures
        match response {
            Some(answer) => result == Ok::<R, RemoteError>(answer) && *final(slot) == *old(slot),
            None => result == Err::<R, RemoteError>(RemoteError::TimedOut) && *final(slot) is None,
        },
{
    match response {
        Some(answer) => Ok(answer),
        None => {
            *slot = None;
            Err(RemoteError::TimedOut)
        },
    }
}

/// What a qualified message asks of the adapter.
pub open spec fn spec_handle_pad_message<Q: X3Params>(
    message: X29PadMessageView,
    before: &PadParams<Q>,
) -> (expected: spec_fn(PadAction, &PadParams<Q>, Seq<u8>) -> bool) {
    |action: PadAction, after: &PadParams<Q>, queued: Seq<u8>|
        match message {
            X29PadMessageView::SetParams(request) => {
                let failures = spec_set_failures(before, request);
                if request.len() == 0 {
                    action == PadAction::Rejected(X3ParamError::InvalidValue) && *after == *before
                } else {
                    &&& applied(before, request, after)
                    &&& if failures.len() == 0 {
                        action is Handled
                    } else {
                        action is Reply && action->Reply_0@ == X29PadMessageView::Indicate(failures)
                    }
                }
            },
            X29PadMessageView::Read(request) => {
                &&& *after == *before
                &&& action is Reply
                &&& action->Reply_0@ == X29PadMessageView::Indicate(
                    spec_read_params(before, request),
                )
            },
            X29PadMessageView::SetRead(request) => {
                if request.len() == 0 {
                    action == PadAction::Rejected(X3ParamError::InvalidValue) && *after == *before
                } else {
                    &&& applied(before, request, after)
                    &&& action is Reply
                    &&& action->Reply_0@ == X29PadMessageView::Indicate(
                        Seq::new(
                            request.len(),
                            |i: int| set_read_entry(before, request, i),
                        ),
                    )
                }
            },
            X29PadMessageView::Indicate(response) => {
                &&& *after == *before
                &&& action is Indicate
                &&& action->Indicate_0@ == response
            },
            X29PadMessageView::ClearInvitation => {
                &&& *after == *before
                &&& action is ClearInvited
                &&& bytes_seq(action->data) == queued
                &&& action->cause_code == INVITED_CLEAR_CAUSE
                &&& action->diagnostic_code == INVITED_CLEAR_DIAGNOSTIC
            },
        }
}

/// Handles a message received on the circuit. Unqualified data is queued
/// for the reader. A qualified message is read as an X.29 message: a
/// request is served from `params`, or rejected where it is to set and
/// names no parameter; an indication is handed on; and an invitation to
/// clear takes what is queued for sending and asks for the call to be
/// cleared as a user clears it, with cause and diagnostic 0.
pub fn handle_recv<Q: X3Params>(
    data: Bytes,
    qualifier: bool,
    params: &mut PadParams<Q>,
    send_queue: &mut SendQueue,
    recv_queue: &mut VecDeque<u8>,
) -> (action: PadAction)
    ensures
        !qualifier ==> {
            &&& action is Received
            &&& *final(params) == *old(params)
            &&& *final(send_queue) == *old(send_queue)
            &&& final(recv_queue)@ == old(recv_queue)@ + all_with_lf(
                bytes_seq(data),
                old(params).lf_insert.spec_value(),
                1,
            )
        },
        qualifier ==> {
            &&& final(recv_queue)@ == old(recv_queue)@
            &&& match spec_decode(bytes_seq(data)) {
                None => action is Invalid && *final(params) == *old(params) && *final(send_queue)
                    == *old(send_queue),
                Some(message) => {
                    &&& spec_handle_pad_message(message, old(params))(
                        action,
                        final(params),
                        old(send_queue).bytes@,
                    )
                    &&& if message is ClearInvitation {
                        final(send_queue).bytes@ == Seq::<u8>::empty() && final(send_queue).deadline is None
                    } else {
                        *final(send_queue) == *old(send_queue)
                    }
                },
            }
        },
{
    if !qualifier {
        queue_recv_data(recv_queue, data, params);
        return PadAction::Received;
    }
    match X29PadMessage::decode(data) {
        Ok(X29PadMessage::SetParams(request)) => {
            match set_params(params, request.as_slice()) {
                Ok(Some(message)) => PadAction::Reply(message),
                Ok(None) => PadAction::Handled,
                Err(err) => PadAction::Rejected(err),
            }
        },
        Ok(X29PadMessage::Read(request)) => PadAction::Reply(
            read_params(params, request.as_slice()),
        ),
        Ok(X29PadMessage::SetRead(request)) => {
            match set_read_params(params, request.as_slice()) {
                Ok(message) => PadAction::Reply(message),
                Err(err) => PadAction::Rejected(err),
            }
        },
        Ok(X29PadMessage::Indicate(response)) => PadAction::Indicate(response),
        Ok(X29PadMessage::ClearInvitation) => PadAction::ClearInvited {
            data: send_queued_data(send_queue),
            cause_code: INVITED_CLEAR_CAUSE,
            diagnostic_code: INVITED_CLEAR_DIAGNOSTIC,
        },
        Err(_) => PadAction::Invalid,
    }
}

/// What `get_remote_params` makes of the remote PAD's answer: each value,
/// or `None` for a parameter that has none.
pub fn remote_values(response: &[(u8, Result<u8, X3ParamError>)]) -> (values: Vec<(u8, Option<u8>)>)
    ensures
        values@ == response@.map_values(
            |e: (u8, Result<u8, X3ParamError>)|
                (
                    e.0,
                    match e.1 {
                        Ok(v) => Some(v),
                        Err(_) => None,
                    },
                ),
        ),
{
    let ghost wanted = response@.map_values(
        |e: (u8, Result<u8, X3ParamError>)|
            (
                e.0,
                match e.1 {
                    Ok(v) => Some(v),
                    Err(_) => None,
                },
            ),
    );
    let mut values: Vec<(u8, Option<u8>)> = Vec::new();
    let mut i: usize = 0;
    while i < response.len()
        invariant
            i <= response.len(),
            wanted == response@.map_values(
                |e: (u8, Result<u8, X3ParamError>)|
                    (
                        e.0,
                        match e.1 {
                            Ok(v) => Some(v),
                            Err(_) => None,
                        },
                    ),
            ),
            values@ == wanted.take(i as int),
        decreases response.len() - i,
    {
        let (param, result) = response[i];
        let value: Option<u8> = match result {
            Ok(v) => Some(v),
            Err(_) => None,
        };
        values.push((param, value));
        proof {
            assert(values@ =~= wanted.take(i as int + 1));
        }
        i += 1;
    }
    proof {
        assert(wanted.take(response.len() as int) =~= wanted);
    }
    values
}

} // verus!
