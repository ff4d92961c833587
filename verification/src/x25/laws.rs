//! Laws of the virtual circuit model.

use crate::x25::facility::X25Facility;
use crate::x25::model::{first_complete, fragments, joined, Emitted, VcModel, IDLE_TIMEOUT};
use crate::x25::negotiate::{
    spec_get_packet_size, spec_negotiate_called_params, spec_negotiate_calling_params,
};
use crate::x25::packet::{
    X25CallAcceptView, X25CallRequestView, X25DataView, X25PacketView, X25ReceiveReady,
    X25ResetRequest,
};
use crate::x25::params::{packet_size_valid, X25ParamsView};
use crate::x25::seq::{
    lemma_incr_in_flight, lemma_seq_arithmetic_is_modular, lemma_update_start_in_flight,
    seq_distance, X25Modulo,
};
use crate::x25::state::{SendDataView, VcError, VcStateView};
use crate::x25::wire::{facilities_valid, facility_valid};
use vstd::prelude::*;

verus! {

/// Every input has an outcome in every state. A turn of the engine keeps the
/// circuit well formed and on its channel, and once the circuit has ended
/// no input changes it or makes it transmit.
pub proof fn lemma_every_input_handled(m: VcModel, packet: Option<X25PacketView>, now: u64)
    requires
        m.wf(),
    ensures
        m.handle_in_packet(packet, now).model.wf(),
        m.handle_in_packet(packet, now).model.channel == m.channel,
        m.state.is_terminal() ==> m.handle_in_packet(packet, now).model == m
            && m.handle_in_packet(packet, now).out.len() == 0,
{
    if m.state is DataTransfer {
        lemma_send_keeps_wf(m);
        match packet {
            Some(X25PacketView::Data(data)) => {
                let dt = m.state->DataTransfer_0;
                if data.send_seq == dt.recv_seq && dt.send_window.acknowledges(data.recv_seq) {
                    let next = dt.spec_update_recv_seq(data.send_seq).spec_update_send_window(
                        data.recv_seq,
                    );
                    lemma_send_keeps_wf(
                        VcModel {
                            state: VcStateView::DataTransfer(next),
                            recv_queue: m.recv_queue.push(data),
                            ..m
                        },
                    );
                }
            },
            Some(X25PacketView::ReceiveReady(ready)) => {
                let dt = m.state->DataTransfer_0;
                if dt.send_window.acknowledges(ready.recv_seq) {
                    lemma_send_keeps_wf(
                        m.with_state(
                            VcStateView::DataTransfer(dt.spec_update_send_window(ready.recv_seq)),
                        ),
                    );
                }
            },
            _ => {},
        }
    }
}

/// Whether a packet of this type does anything in this state. Every other
/// pair of a state and a packet type has the packet dropped.
pub open spec fn has_rule(state: VcStateView, packet: X25PacketView) -> bool {
    match state {
        VcStateView::Ready => packet is CallRequest,
        VcStateView::Called(_) => packet is ClearRequest,
        VcStateView::WaitCallAccept(_) => packet is CallAccept || packet is ClearRequest,
        VcStateView::DataTransfer(_) => packet is Data || packet is ReceiveReady
            || packet is ResetRequest || packet is ClearRequest || packet is Interrupt,
        VcStateView::WaitResetConfirm(_) => packet is ResetConfirm || packet is ResetRequest,
        VcStateView::WaitClearConfirm(_, _) => packet is ClearConfirm,
        VcStateView::Cleared(_, _) => false,
        VcStateView::OutOfOrder => false,
    }
}

/// A packet of a type that does nothing in the circuit's state is dropped:
/// the circuit stays as it is and transmits nothing. Outside data transfer
/// a packet of a type that does something changes the state.
pub proof fn lemma_other_packets_dropped(m: VcModel, packet: X25PacketView, now: u64)
    ensures
        !has_rule(m.state, packet) ==> m.handle_in_packet(Some(packet), now).model == m
            && m.handle_in_packet(Some(packet), now).out.len() == 0,
        has_rule(m.state, packet) && !(m.state is DataTransfer) ==> m.handle_in_packet(
            Some(packet),
            now,
        ).model.state != m.state,
{
}

/// Sending queued data changes only the window's next sequence number and
/// the send queue.
pub proof fn lemma_send_keeps_wf(m: VcModel)
    requires
        m.wf(),
    ensures
        m.send_queued_data().model.wf(),
        m.send_queued_data().model.channel == m.channel,
        m.send_queued_data().model.params == m.params,
        m.send_queued_data().model.recv_queue == m.recv_queue,
        m.state is DataTransfer <==> m.send_queued_data().model.state is DataTransfer,
        !(m.state is DataTransfer) ==> m.send_queued_data().model == m,
    decreases m.send_queue.len(),
{
    if m.can_send_data() {
        lemma_send_keeps_wf(m.after_front_sent());
    }
}

/// The number of data packets that a circuit in data transfer sends now:
/// as many as fragments are queued or as the window has free slots,
/// whichever is fewer.
pub open spec fn sendable(m: VcModel) -> int
    recommends
        m.state is DataTransfer,
{
    let window = m.state->DataTransfer_0.send_window;
    let free = window.size - window.in_flight();
    if m.send_queue.len() <= free {
        m.send_queue.len() as int
    } else {
        free
    }
}

/// The data packet that carries the fragment at `index` of the send queue
/// when the fragments are sent in order: numbered `index` behind the
/// window's next sequence number on the ring.
pub open spec fn queued_data_packet(m: VcModel, index: int) -> X25PacketView
    recommends
        m.state is DataTransfer,
        0 <= index < m.send_queue.len(),
{
    let dt = m.state->DataTransfer_0;
    X25PacketView::Data(
        X25DataView {
            modulo: m.params.modulo,
            channel: m.channel,
            send_seq: ((dt.send_window.next + index) % dt.modulo.spec_value()) as u8,
            recv_seq: dt.recv_seq,
            qualifier: m.send_queue[index].qualifier,
            delivery: false,
            more: m.send_queue[index].more,
            user_data: m.send_queue[index].user_data,
        },
    )
}

/// While the window is open and fragments are queued, each turn sends one
/// data packet, the front fragment first, until the window closes or the
/// queue is empty. With `q` fragments queued and `w` free slots in the
/// window, exactly `k = min(q, w)` data packets go out. They carry the
/// first `k` fragments in order, numbered from the window's next sequence
/// number on; the queue loses those `k` fragments; the window's next
/// sequence number advances by `k` on the ring and its start stays; and
/// then the queue is empty or the window closed. Nothing else changes.
pub proof fn lemma_open_window_sends(m: VcModel)
    requires
        m.wf(),
        m.state is DataTransfer,
    ensures
        ({
            let dt = m.state->DataTransfer_0;
            let n = dt.modulo.spec_value();
            let k = sendable(m);
            let done = m.send_queued_data();
            let after = done.model.state->DataTransfer_0;
            &&& 0 <= k <= m.send_queue.len()
            &&& done.out.len() == k
            &&& forall|i: int| 0 <= i < k ==> #[trigger] done.out[i] == queued_data_packet(m, i)
            &&& done.model.send_queue == m.send_queue.skip(k)
            &&& done.model.state is DataTransfer
            &&& after.send_window.next == (dt.send_window.next + k) % n
            &&& after.send_window.start == dt.send_window.start
            &&& after.send_window.size == dt.send_window.size
            &&& after.send_window.modulo == dt.send_window.modulo
            &&& after.modulo == dt.modulo
            &&& after.recv_seq == dt.recv_seq
            &&& after.send_window.in_flight() == dt.send_window.in_flight() + k
            &&& done.model.send_queue.len() == 0 || !after.send_window.spec_is_open()
            &&& done.model.channel == m.channel
            &&& done.model.params == m.params
            &&& done.model.recv_queue == m.recv_queue
            &&& done.model.wf()
        }),
    decreases m.send_queue.len(),
{
    let dt = m.state->DataTransfer_0;
    let n = dt.modulo.spec_value();
    let k = sendable(m);
    let done = m.send_queued_data();
    lemma_seq_arithmetic_is_modular(dt.send_window.next as int, 0, 0, dt.modulo);
    if m.can_send_data() {
        let next = m.after_front_sent();
        let rest = next.send_queued_data();
        lemma_incr_in_flight(dt.send_window);
        lemma_open_window_sends(next);
        lemma_seq_arithmetic_is_modular(dt.send_window.next as int, 0, 1, dt.modulo);
        let first = next.state->DataTransfer_0.send_window.next as int;
        assert(first == (dt.send_window.next + 1) % n);
        assert(m.send_queue.skip(1).skip(k - 1) =~= m.send_queue.skip(k));
        assert(done.out[0] == queued_data_packet(m, 0));
        assert forall|i: int| 0 <= i < k implies #[trigger] done.out[i] == queued_data_packet(
            m,
            i,
        ) by {
            if i > 0 {
                assert(done.out[i] == rest.out[i - 1]);
                assert(next.send_queue[i - 1] == m.send_queue[i]);
                lemma_ring_steps(dt.send_window.next as int, i - 1, dt.modulo);
            }
        }
        lemma_ring_steps(dt.send_window.next as int, k - 1, dt.modulo);
    } else {
        assert(m.send_queue.skip(0) =~= m.send_queue);
    }
}

/// One step and then `k` more on the ring are `k + 1` steps.
proof fn lemma_ring_steps(from: int, k: int, modulo: X25Modulo)
    requires
        0 <= from,
        0 <= k,
    ensures
        ((from + 1) % modulo.spec_value() + k) % modulo.spec_value() == (from + 1 + k)
            % modulo.spec_value(),
{
    match modulo {
        X25Modulo::Normal => {
            assert(((from + 1) % 8 + k) % 8 == (from + 1 + k) % 8);
        },
        X25Modulo::Extended => {
            assert(((from + 1) % 128 + k) % 128 == (from + 1 + k) % 128);
        },
    }
}

/// A data packet whose send sequence number is not the expected one is
/// answered with a reset request of cause 5 and diagnostic 1. The circuit
/// waits for the confirmation, and the packet's data is not queued.
pub proof fn lemma_out_of_sequence_resets(m: VcModel, data: X25DataView, now: u64)
    requires
        m.state is DataTransfer,
        data.send_seq != m.state->DataTransfer_0.recv_seq,
    ensures
        m.handle_in_packet(Some(X25PacketView::Data(data)), now).out == seq![
            X25PacketView::ResetRequest(
                X25ResetRequest {
                    modulo: m.params.modulo,
                    channel: m.channel,
                    cause_code: 5,
                    diagnostic_code: 1,
                },
            ),
        ],
        m.handle_in_packet(Some(X25PacketView::Data(data)), now).model == m.with_state(
            VcStateView::WaitResetConfirm(now),
        ),
{
}

/// A protection timer does not fire early. While no more than the timer's
/// duration has passed since the request was sent and no packet arrives,
/// the circuit keeps waiting, transmits nothing, and the next wait ends
/// when the timer does.
pub proof fn lemma_timer_not_early(m: VcModel, now: u64)
    requires
        m.active_timer() is Some,
        m.timer_elapsed(now) <= m.timer_duration(),
    ensures
        m.handle_in_packet(None, now).model == m,
        m.handle_in_packet(None, now).out.len() == 0,
        m.handle_in_packet(None, now).timeout == m.timer_duration() - m.timer_elapsed(now),
        m.state is WaitCallAccept ==> m.call_outcome() is None,
        m.state is WaitResetConfirm ==> m.reset_outcome() is None,
        m.state is WaitClearConfirm ==> m.clear_outcome() is None,
{
}

/// A protection timer fires once more than its duration has passed: T21
/// and T22 send a clear request of cause 19 and start T23, for the whole of
/// which the engine then waits, and T23 puts the circuit out of order.
pub proof fn lemma_timer_expires(m: VcModel, now: u64)
    requires
        m.active_timer() is Some,
        m.timer_elapsed(now) > m.timer_duration(),
    ensures
        m.state is WaitCallAccept || m.state is WaitResetConfirm ==> m.handle_in_packet(
            None,
            now,
        ).timeout == m.params.t23,
        m.state is WaitClearConfirm ==> m.handle_in_packet(None, now).timeout == IDLE_TIMEOUT,
        m.state is WaitCallAccept ==> m.handle_in_packet(None, now).out == seq![
            m.clear_request_packet(19, 49),
        ] && m.handle_in_packet(None, now).model.state is WaitClearConfirm,
        m.state is WaitResetConfirm ==> m.handle_in_packet(None, now).out == seq![
            m.clear_request_packet(19, 51),
        ] && m.handle_in_packet(None, now).model.state is WaitClearConfirm,
        m.state is WaitClearConfirm ==> m.handle_in_packet(None, now).out.len() == 0
            && m.handle_in_packet(None, now).model.state is OutOfOrder,
{
}

/// The wait after a turn is what is left of the timer of the state that
/// the turn ends in, whatever the turn did: never more than the timer's
/// duration less the time it has run, and nothing once that has passed.
/// After a packet that leaves the state as it was, the timer is no longer
/// than it would have been without the packet.
pub proof fn lemma_wait_is_rest_of_timer(m: VcModel, packet: Option<X25PacketView>, now: u64)
    ensures
        ({
            let done = m.handle_in_packet(packet, now);
            &&& done.timeout == done.model.next_wait(now)
            &&& done.model.active_timer() is None ==> done.timeout == IDLE_TIMEOUT
            &&& done.model.active_timer() is Some ==> done.timeout + done.model.timer_elapsed(now)
                == done.model.timer_duration() || (done.timeout == 0 && done.model.timer_elapsed(
                now,
            ) >= done.model.timer_duration())
            &&& done.model.state == m.state && done.model.params == m.params ==> done.timeout
                == m.next_wait(now)
        }),
{
}

/// A message's fragments at the front of the receive queue, all but the
/// last marked as followed by more, are what the next read takes: it ends
/// at the last of them.
pub proof fn lemma_reassembly(message: Seq<X25DataView>, rest: Seq<X25DataView>)
    requires
        message.len() > 0,
        forall|i: int| 0 <= i < message.len() - 1 ==> (#[trigger] message[i]).more,
        !message[message.len() - 1].more,
    ensures
        first_complete(message + rest) == Some(message.len() - 1),
        joined(message + rest, message.len() as int) == joined(message, message.len() as int),
    decreases message.len(),
{
    let queue = message + rest;
    lemma_joined_of_prefix(message, rest, message.len() as int);
    if message.len() > 1 {
        assert(queue[0] == message[0]);
        assert(queue.skip(1) =~= message.skip(1) + rest);
        lemma_reassembly(message.skip(1), rest);
    } else {
        assert(queue[0] == message[0]);
    }
}

/// Joining the first packets of a queue does not look at the packets behind
/// them.
pub proof fn lemma_joined_of_prefix(front: Seq<X25DataView>, rest: Seq<X25DataView>, count: int)
    requires
        0 <= count <= front.len(),
    ensures
        joined(front + rest, count) == joined(front, count),
    decreases count,
{
    if count > 0 {
        lemma_joined_of_prefix(front, rest, count - 1);
        assert((front + rest)[count - 1] == front[count - 1]);
    }
}

/// The data packets that carry the fragments of one message.
pub open spec fn as_data_packets(parts: Seq<SendDataView>, template: X25DataView) -> Seq<
    X25DataView,
> {
    parts.map_values(
        |part: SendDataView|
            X25DataView {
                user_data: part.user_data,
                qualifier: part.qualifier,
                more: part.more,
                ..template
            },
    )
}

/// What is cut into fragments on one side is put together again on the
/// other: the packets that carry the fragments of a message that is not
/// empty end with the only one not marked as followed by more, and their
/// user data joined is the message.
pub proof fn lemma_fragments_reassemble(
    data: Seq<u8>,
    qualifier: bool,
    size: int,
    template: X25DataView,
)
    requires
        size > 0,
        data.len() > 0,
    ensures
        ({
            let packets = as_data_packets(fragments(data, qualifier, size), template);
            &&& packets.len() > 0
            &&& first_complete(packets) == Some(packets.len() - 1)
            &&& joined(packets, packets.len() as int) == data
            &&& packets[packets.len() - 1].qualifier == qualifier
            &&& forall|i: int| 0 <= i < packets.len() ==> (#[trigger] packets[i]).user_data.len()
                <= size
        }),
    decreases data.len(),
{
    let parts = fragments(data, qualifier, size);
    let packets = as_data_packets(parts, template);
    if data.len() <= size {
        assert(parts.len() == 1);
        assert(joined(packets, 0) =~= Seq::empty());
        assert(joined(packets, 1) =~= data);
    } else {
        let tail_parts = fragments(data.skip(size), qualifier, size);
        let tail = as_data_packets(tail_parts, template);
        lemma_fragments_reassemble(data.skip(size), qualifier, size, template);
        assert(packets.skip(1) =~= tail);
        assert(packets[0].more);
        lemma_joined_shift(packets, packets.len() as int);
        assert(data.take(size) + data.skip(size) =~= data);
        assert forall|i: int| 0 <= i < packets.len() implies (#[trigger] packets[i]).user_data.len()
            <= size by {
            if i > 0 {
                assert(packets[i] == tail[i - 1]);
            }
        }
    }
}

/// Joining from the second packet on leaves out the first packet's data.
pub proof fn lemma_joined_shift(queue: Seq<X25DataView>, count: int)
    requires
        1 <= count <= queue.len(),
    ensures
        joined(queue, count) == queue[0].user_data + joined(queue.skip(1), count - 1),
    decreases count,
{
    if count == 1 {
        assert(joined(queue, 0) =~= Seq::empty());
        assert(joined(queue.skip(1), 0) =~= Seq::empty());
        assert(joined(queue, 1) =~= queue[0].user_data);
        assert(queue[0].user_data + Seq::<u8>::empty() =~= queue[0].user_data);
    } else {
        lemma_joined_shift(queue, count - 1);
        assert(queue.skip(1)[count - 2] == queue[count - 1]);
        assert(joined(queue, count) =~= queue[0].user_data + joined(queue.skip(1), count - 1));
    }
}

/// A circuit that has ended stays as it is: every operation of a client is
/// refused and changes nothing. Sending on a circuit whose link has failed
/// is refused as out of order; every other operation, and sending on a
/// call that was cleared, as not accepted in the circuit's state.
pub proof fn lemma_ended_circuit_refuses(m: VcModel, now: u64)
    requires
        m.state.is_terminal(),
    ensures
        m.call(Seq::empty(), Seq::empty(), now) == Err::<Emitted, VcError>(VcError::InvalidState),
        m.accept() == Err::<Emitted, VcError>(VcError::InvalidState),
        m.refuse(0, 0) == Err::<Emitted, VcError>(VcError::InvalidState),
        m.clear(0, 0, now) == Err::<Emitted, VcError>(VcError::InvalidState),
        m.reset(0, 0, now) == Err::<Emitted, VcError>(VcError::InvalidState),
        m.send(Seq::empty(), false) == Err::<Emitted, VcError>(
            if m.state is OutOfOrder {
                VcError::LinkOutOfOrder
            } else {
                VcError::InvalidState
            },
        ),
        m.call_outcome() is Some,
        m.clear_outcome() is Some,
        m.reset_outcome() is Some,
        m.flush_outcome() is Some && m.flush_outcome()->0 is Err,
        m.end_of_data() is Some,
{
}

/// An acknowledgement makes room in the window. In data transfer a
/// receive ready that acknowledges `k` packets is answered with the data
/// packets of the next fragments queued: as many as were in the window's
/// free slots before and the `k` that came free, or all that are queued.
pub proof fn lemma_acknowledgement_releases_data(m: VcModel, recv_seq: u8, now: u64)
    requires
        m.wf(),
        m.state is DataTransfer,
        m.state->DataTransfer_0.send_window.acknowledges(recv_seq),
    ensures
        ({
            let window = m.state->DataTransfer_0.send_window;
            let acknowledged = seq_distance(
                window.start as int,
                recv_seq as int,
                window.modulo.spec_value(),
            );
            let free = window.size - window.in_flight() + acknowledged;
            let done = m.handle_packet(
                X25PacketView::ReceiveReady(
                    X25ReceiveReady {
                        modulo: m.params.modulo,
                        channel: m.channel,
                        recv_seq,
                    },
                ),
                now,
            );
            &&& done.model.state is DataTransfer
            &&& done.out.len() == if m.send_queue.len() <= free {
                m.send_queue.len() as int
            } else {
                free
            }
            &&& done.model.send_queue == m.send_queue.skip(done.out.len() as int)
        }),
{
    let dt = m.state->DataTransfer_0;
    lemma_update_start_in_flight(dt.send_window, recv_seq);
    let next = m.with_state(VcStateView::DataTransfer(dt.spec_update_send_window(recv_seq)));
    lemma_open_window_sends(next);
    lemma_send_keeps_wf(next);
}

/// Negotiation keeps packet sizes valid. Where the packet sizes that a
/// call packet carries are powers of two from 16 to 4096, as every packet
/// read from the wire has them, and ours are too, the sizes negotiated are.
pub proof fn lemma_negotiated_packet_sizes_valid(
    facilities: Seq<X25Facility>,
    call_request: X25CallRequestView,
    call_accept: X25CallAcceptView,
    params: X25ParamsView,
)
    requires
        facilities_valid(facilities),
        call_request.facilities == facilities,
        call_accept.facilities == facilities,
        packet_size_valid(params.send_packet_size),
        packet_size_valid(params.recv_packet_size),
    ensures
        packet_size_valid(spec_negotiate_called_params(call_request, params).send_packet_size),
        packet_size_valid(spec_negotiate_called_params(call_request, params).recv_packet_size),
        packet_size_valid(spec_negotiate_calling_params(call_accept, params).send_packet_size),
        packet_size_valid(spec_negotiate_calling_params(call_accept, params).recv_packet_size),
        spec_negotiate_called_params(call_request, params).send_packet_size > 0,
        spec_negotiate_calling_params(call_accept, params).send_packet_size > 0,
{
    lemma_first_packet_size_valid(facilities);
}

/// The first packet size facility of a valid list is valid.
proof fn lemma_first_packet_size_valid(facilities: Seq<X25Facility>)
    requires
        forall|i: int| 0 <= i < facilities.len() ==> facility_valid(#[trigger] facilities[i]),
    ensures
        spec_get_packet_size(facilities) is Some ==> packet_size_valid(
            (spec_get_packet_size(facilities)->0).0,
        ) && packet_size_valid((spec_get_packet_size(facilities)->0).1),
    decreases facilities.len(),
{
    if facilities.len() > 0 {
        assert(facility_valid(facilities[0]));
        let tail = facilities.skip(1);
        assert forall|i: int| 0 <= i < tail.len() implies facility_valid(#[trigger] tail[i]) by {
            assert(tail[i] == facilities[i + 1]);
        }
        lemma_first_packet_size_valid(tail);
    }
}

} // verus!
