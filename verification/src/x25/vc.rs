//! The virtual circuit engine.
//!
//! [`VcEngine`] holds the state, parameters and queues of one switched
//! virtual circuit and decides what each input does to them. It performs no
//! I/O: an operation hands back the packets to transmit, in order, and the
//! caller transmits them and reports a link failure with
//! [`VcEngine::out_of_order`].

use crate::buf::{
    bytes_as_slice, bytes_copy_from_slice, bytes_len, bytes_mut_freeze, bytes_mut_new,
    bytes_mut_put, bytes_mut_seq, bytes_new, bytes_seq,
};
use crate::x121::X121Addr;
use crate::x25::codec::X25PacketError;
use crate::x25::model::{
    first_complete, fragments, joined, spec_elapsed, LinkInputView, VcModel, RESET_CAUSE_PROCEDURE_ERROR,
    CLEAR_CAUSE_PROCEDURE_ERROR, DIAGNOSTIC_CALL_TIMER_EXPIRED, DIAGNOSTIC_INVALID_RECV_SEQ,
    DIAGNOSTIC_INVALID_SEND_SEQ, DIAGNOSTIC_NONE, DIAGNOSTIC_RESET_TIMER_EXPIRED, IDLE_TIMEOUT,
};
use crate::x25::negotiate::{
    clamp_window_size, create_call_accept, create_call_request, negotiate_called_params,
    negotiate_calling_params,
};
use crate::x25::packet::{
    packet_views, X25CallRequest, X25ClearConfirm, X25ClearRequest, X25Data, X25DataView,
    X25Packet, X25PacketView, X25ReceiveReady, X25ResetConfirm, X25ResetRequest,
};
use crate::x25::params::X25Params;
use crate::x25::seq::{lemma_incr_in_flight, Window};
use crate::x25::facility::X25Facility;
use crate::x25::state::{
    data_views, send_views, ClearInitiator, ClearInitiatorView, DataTransferState, SendData,
    VcError, VcState, VcStateView,
};
use bytes::Bytes;
use std::collections::VecDeque;
use vstd::prelude::*;
use vstd::slice::slice_subrange;

verus! {

/// The view of a packet that may be absent.
pub open spec fn packet_option_view(packet: Option<X25Packet>) -> Option<X25PacketView> {
    match packet {
        Some(p) => Some(p@),
        None => None,
    }
}

/// Time from `start` to `now`, zero where the clock reads earlier.
pub fn elapsed(start: u64, now: u64) -> (e: u64)
    ensures
        e == spec_elapsed(start, now),
{
    if now >= start {
        now - start
    } else {
        0
    }
}

/// What the link delivered to the engine.
pub enum LinkInput {
    /// The bytes of one packet.
    Packet(Bytes),
    /// The link failed or ended.
    Failed,
    /// Nothing arrived before the wait ended.
    Nothing,
}

impl View for LinkInput {
    type V = LinkInputView;

    open spec fn view(&self) -> LinkInputView {
        match self {
            LinkInput::Packet(bytes) => LinkInputView::Packet(bytes_seq(*bytes)),
            LinkInput::Failed => LinkInputView::Failed,
            LinkInput::Nothing => LinkInputView::Nothing,
        }
    }
}

/// What a turn of the engine asks of its caller.
pub struct Turn {
    /// The packets to transmit, in order.
    pub packets: Vec<X25Packet>,
    /// How long to wait for the next input at most, in milliseconds.
    pub timeout: u64,
    /// Whether the circuit has ended and the engine is to stop.
    pub done: bool,
}

/// The state of a circuit, well formed: in data transfer the window and the
/// sequence numbers lie on the ring.
struct Circuit {
    state: VcState,
}

impl Circuit {
    #[verifier::type_invariant]
    spec fn inv(&self) -> bool {
        self.state@.wf()
    }
}

/// One switched virtual circuit. Its view is the [`VcModel`].
pub struct VcEngine {
    channel: u16,
    circuit: Circuit,
    params: X25Params,
    send_data_queue: VecDeque<SendData>,
    recv_data_queue: VecDeque<X25Data>,
}

impl View for VcEngine {
    type V = VcModel;

    closed spec fn view(&self) -> VcModel {
        VcModel {
            channel: self.channel,
            state: self.circuit.state@,
            params: self.params@,
            send_queue: send_views(self.send_data_queue@),
            recv_queue: data_views(self.recv_data_queue@),
        }
    }
}

impl VcEngine {
    /// In data transfer the window and the sequence numbers lie on the ring.
    /// This holds of every engine.
    pub open spec fn wf(&self) -> bool {
        self@.wf()
    }

    /// A circuit in the ready state.
    pub fn new(channel: u16, params: &X25Params) -> (engine: VcEngine)
        ensures
            engine@ == VcModel::initial(channel, params@),
            engine.wf(),
    {
        let engine = VcEngine {
            channel,
            circuit: Circuit { state: VcState::Ready },
            params: params.clone(),
            send_data_queue: VecDeque::new(),
            recv_data_queue: VecDeque::new(),
        };
        proof {
            assert(engine@.send_queue =~= Seq::empty());
            assert(engine@.recv_queue =~= Seq::empty());
        }
        engine
    }

    /// The state of the circuit. Every engine is well formed, which callers
    /// learn here.
    pub fn state(&self) -> (state: &VcState)
        ensures
            state@ == self@.state,
            self.wf(),
    {
        proof {
            use_type_invariant(&self.circuit);
        }
        &self.circuit.state
    }

    /// A snapshot of the parameters, as negotiated so far.
    pub fn params(&self) -> (params: X25Params)
        ensures
            params@ == self@.params,
    {
        self.params.clone()
    }

    pub fn channel(&self) -> (channel: u16)
        ensures
            channel == self@.channel,
    {
        self.channel
    }

    pub fn is_connected(&self) -> (connected: bool)
        ensures
            connected == self@.state.is_connected(),
    {
        self.circuit.state.is_connected()
    }

    pub fn is_terminal(&self) -> (terminal: bool)
        ensures
            terminal == self@.state.is_terminal(),
    {
        self.circuit.state.is_terminal()
    }

    /// Number of fragments waiting for the send window.
    pub fn send_queue_len(&self) -> (n: usize)
        ensures
            n == self@.send_queue.len(),
    {
        self.send_data_queue.len()
    }

    /// Number of data packets received and not yet read.
    pub fn recv_queue_len(&self) -> (n: usize)
        ensures
            n == self@.recv_queue.len(),
    {
        self.recv_data_queue.len()
    }

    /// Cause and diagnostic codes of the peer's clear request, once the
    /// peer has cleared the call.
    pub fn cleared(&self) -> (codes: Option<(u8, u8)>)
        ensures
            codes == match self@.state {
                VcStateView::Cleared(
                    ClearInitiatorView::Remote(request),
                    _,
                ) => Some((request.cause_code, request.diagnostic_code)),
                _ => None,
            },
    {
        match &self.circuit.state {
            VcState::Cleared(ClearInitiator::Remote(request), _) => Some(
                (request.cause_code, request.diagnostic_code),
            ),
            _ => None,
        }
    }

    /// The link has failed: the circuit is out of order from now on.
    pub fn out_of_order(&mut self)
        ensures
            final(self)@ == old(self)@.out_of_order(),
            final(self).wf(),
    {
        self.circuit.state = VcState::OutOfOrder;
    }

    fn data_transfer(&mut self)
        ensures
            final(self)@ == old(self)@.data_transfer(),
            final(self).wf(),
    {
        self.circuit.state = VcState::DataTransfer(
            DataTransferState {
                modulo: self.params.modulo,
                send_window: Window::new(
                    clamp_window_size(self.params.send_window_size, self.params.modulo),
                    self.params.modulo,
                ),
                recv_seq: 0,
            },
        );
    }

    fn clear_request_packet(&self, cause_code: u8, diagnostic_code: u8) -> (packet: X25Packet)
        ensures
            packet@ == self@.clear_request_packet(cause_code, diagnostic_code),
    {
        let facilities: Vec<X25Facility> = Vec::new();
        let request = X25ClearRequest {
            modulo: self.params.modulo,
            channel: self.channel,
            cause_code,
            diagnostic_code,
            called_addr: X121Addr::null(),
            calling_addr: X121Addr::null(),
            facilities,
            clear_user_data: bytes_new(),
        };
        proof {
            assert(request@.facilities =~= Seq::empty());
        }
        X25Packet::ClearRequest(request)
    }

    fn clear_request(
        &mut self,
        cause_code: u8,
        diagnostic_code: u8,
        initiator: ClearInitiator,
        now: u64,
    ) -> (packet: X25Packet)
        ensures
            final(self)@ == old(self)@.clear_request(
                cause_code,
                diagnostic_code,
                initiator@,
                now,
            ).model,
            seq![packet@] == old(self)@.clear_request(
                cause_code,
                diagnostic_code,
                initiator@,
                now,
            ).out,
            final(self).wf(),
    {
        let packet = self.clear_request_packet(cause_code, diagnostic_code);
        self.circuit.state = VcState::WaitClearConfirm(now, initiator);
        packet
    }

    fn clear_confirm(&mut self, request: X25ClearRequest) -> (packet: X25Packet)
        ensures
            final(self)@ == old(self)@.clear_confirm(request@).model,
            seq![packet@] == old(self)@.clear_confirm(request@).out,
            final(self).wf(),
    {
        let facilities: Vec<X25Facility> = Vec::new();
        let confirm = X25ClearConfirm {
            modulo: self.params.modulo,
            channel: self.channel,
            called_addr: X121Addr::null(),
            calling_addr: X121Addr::null(),
            facilities,
        };
        proof {
            assert(confirm@.facilities =~= Seq::empty());
        }
        self.circuit.state = VcState::Cleared(ClearInitiator::Remote(request), None);
        X25Packet::ClearConfirm(confirm)
    }

    fn reset_request(&mut self, cause_code: u8, diagnostic_code: u8, now: u64) -> (packet:
        X25Packet)
        ensures
            final(self)@ == old(self)@.reset_request(cause_code, diagnostic_code, now).model,
            seq![packet@] == old(self)@.reset_request(cause_code, diagnostic_code, now).out,
            final(self).wf(),
    {
        let request = X25ResetRequest {
            modulo: self.params.modulo,
            channel: self.channel,
            cause_code,
            diagnostic_code,
        };
        self.circuit.state = VcState::WaitResetConfirm(now);
        X25Packet::ResetRequest(request)
    }

    fn reset_confirm(&mut self) -> (packet: X25Packet)
        ensures
            final(self)@ == old(self)@.reset_confirm().model,
            seq![packet@] == old(self)@.reset_confirm().out,
            final(self).wf(),
    {
        let confirm = X25ResetConfirm { modulo: self.params.modulo, channel: self.channel };
        self.data_transfer();
        X25Packet::ResetConfirm(confirm)
    }

    /// Sends queued fragments for as long as the window is open.
    fn send_queued_data(&mut self) -> (out: Vec<X25Packet>)
        ensures
            final(self)@ == old(self)@.send_queued_data().model,
            packet_views(out@) == old(self)@.send_queued_data().out,
            final(self).wf(),
    {
        proof {
            use_type_invariant(&self.circuit);
        }
        let mut out: Vec<X25Packet> = Vec::new();
        let mut dt = match self.circuit.state {
            VcState::DataTransfer(dt) => dt,
            _ => {
                proof {
                    assert(packet_views(out@) =~= Seq::empty());
                }
                return out;
            },
        };
        proof {
            assert(packet_views(out@) =~= Seq::empty());
            assert(packet_views(out@) + self@.send_queued_data().out
                =~= self@.send_queued_data().out);
        }
        while self.send_data_queue.len() > 0 && dt.send_window.is_open()
            invariant
                self.circuit.state == VcState::DataTransfer(dt),
                dt.wf(),
                dt.window_bounded(),
                old(self)@.send_queued_data().model == self@.send_queued_data().model,
                old(self)@.send_queued_data().out == packet_views(out@)
                    + self@.send_queued_data().out,
            decreases self.send_data_queue.len(),
        {
            let ghost before = self@;
            let ghost out_before = out@;
            let item = self.send_data_queue.pop_front().unwrap();
            let packet = X25Packet::Data(
                X25Data {
                    modulo: self.params.modulo,
                    channel: self.channel,
                    send_seq: dt.send_window.seq(),
                    recv_seq: dt.recv_seq,
                    qualifier: item.qualifier,
                    delivery: false,
                    more: item.more,
                    user_data: item.user_data,
                },
            );
            proof {
                lemma_incr_in_flight(dt.send_window);
            }
            dt.send_window.incr();
            self.circuit.state = VcState::DataTransfer(dt);
            proof {
                assert(before.can_send_data());
                assert(packet@ == before.front_data_packet());
                assert(self@.send_queue =~= before.send_queue.skip(1));
                assert(self@ == before.after_front_sent());
            }
            out.push(packet);
            proof {
                assert(packet_views(out@) =~= packet_views(out_before).push(packet@));
                assert(packet_views(out@) + self@.send_queued_data().out =~= packet_views(
                    out_before,
                ) + before.send_queued_data().out);
            }
        }
        out
    }

    /// Sends what the window allows, or a receive ready where that is
    /// nothing.
    fn send_data_or_receive_ready(&mut self) -> (out: Vec<X25Packet>)
        requires
            old(self)@.state is DataTransfer,
        ensures
            final(self)@ == old(self)@.send_data_or_receive_ready().model,
            packet_views(out@) == old(self)@.send_data_or_receive_ready().out,
            final(self).wf(),
    {
        proof {
            use_type_invariant(&self.circuit);
        }
        let recv_seq: u8 = match self.circuit.state {
            VcState::DataTransfer(dt) => dt.recv_seq,
            _ => 0,
        };
        let ready = X25Packet::ReceiveReady(
            X25ReceiveReady { modulo: self.params.modulo, channel: self.channel, recv_seq },
        );
        let mut out = self.send_queued_data();
        if out.len() == 0 {
            out.push(ready);
            proof {
                assert(packet_views(out@) =~= seq![ready@]);
            }
        }
        out
    }

    /// Handles a packet that arrived in the circuit's state.
    fn handle_packet(&mut self, packet: X25Packet, now: u64) -> (out: Vec<X25Packet>)
        ensures
            final(self)@ == old(self)@.handle_packet(packet@, now).model,
            packet_views(out@) == old(self)@.handle_packet(packet@, now).out,
            final(self).wf(),
    {
        proof {
            use_type_invariant(&self.circuit);
        }
        let mut out: Vec<X25Packet> = Vec::new();
        let mut state = VcState::OutOfOrder;
        core::mem::swap(&mut self.circuit.state, &mut state);
        proof {
            assert(packet_views(out@) =~= Seq::empty());
        }
        match (state, packet) {
            (VcState::Ready, X25Packet::CallRequest(request)) => {
                self.params = negotiate_called_params(&request, &self.params);
                self.circuit.state = VcState::Called(request);
            },
            (VcState::Called(_), X25Packet::ClearRequest(request)) => {
                self.circuit.state = VcState::Cleared(ClearInitiator::Remote(request), None);
            },
            (VcState::WaitCallAccept(_), X25Packet::CallAccept(accept)) => {
                self.params = negotiate_calling_params(&accept, &self.params);
                self.data_transfer();
            },
            (VcState::WaitCallAccept(_), X25Packet::ClearRequest(request)) => {
                self.circuit.state = VcState::Cleared(ClearInitiator::Remote(request), None);
            },
            (VcState::DataTransfer(dt), X25Packet::Data(data)) => {
                let mut dt = dt;
                if !dt.update_recv_seq(data.send_seq) {
                    let reset = self.reset_request(
                        RESET_CAUSE_PROCEDURE_ERROR,
                        DIAGNOSTIC_INVALID_SEND_SEQ,
                        now,
                    );
                    out.push(reset);
                    proof {
                        assert(packet_views(out@) =~= seq![reset@]);
                    }
                } else if !dt.update_send_window(data.recv_seq) {
                    let reset = self.reset_request(
                        RESET_CAUSE_PROCEDURE_ERROR,
                        DIAGNOSTIC_INVALID_RECV_SEQ,
                        now,
                    );
                    out.push(reset);
                    proof {
                        assert(packet_views(out@) =~= seq![reset@]);
                    }
                } else {
                    let ghost queue_before = self.recv_data_queue@;
                    self.circuit.state = VcState::DataTransfer(dt);
                    self.recv_data_queue.push_back(data);
                    proof {
                        assert(data_views(self.recv_data_queue@) =~= data_views(
                            queue_before,
                        ).push(data@));
                    }
                    out = self.send_data_or_receive_ready();
                }
            },
            (VcState::DataTransfer(dt), X25Packet::ReceiveReady(ready)) => {
                let mut dt = dt;
                if !dt.update_send_window(ready.recv_seq) {
                    let reset = self.reset_request(
                        RESET_CAUSE_PROCEDURE_ERROR,
                        DIAGNOSTIC_INVALID_RECV_SEQ,
                        now,
                    );
                    out.push(reset);
                    proof {
                        assert(packet_views(out@) =~= seq![reset@]);
                    }
                } else {
                    self.circuit.state = VcState::DataTransfer(dt);
                    out = self.send_queued_data();
                }
            },
            (VcState::DataTransfer(_), X25Packet::Interrupt(_)) => {
                let reset = self.reset_request(RESET_CAUSE_PROCEDURE_ERROR, DIAGNOSTIC_NONE, now);
                out.push(reset);
                proof {
                    assert(packet_views(out@) =~= seq![reset@]);
                }
            },
            (VcState::DataTransfer(_), X25Packet::ResetRequest(_)) => {
                let confirm = self.reset_confirm();
                out.push(confirm);
                proof {
                    assert(packet_views(out@) =~= seq![confirm@]);
                }
            },
            (VcState::DataTransfer(_), X25Packet::ClearRequest(request)) => {
                let confirm = self.clear_confirm(request);
                out.push(confirm);
                proof {
                    assert(packet_views(out@) =~= seq![confirm@]);
                }
            },
            (VcState::WaitResetConfirm(_), X25Packet::ResetConfirm(_)) => {
                self.data_transfer();
            },
            (VcState::WaitResetConfirm(_), X25Packet::ResetRequest(_)) => {
                let confirm = self.reset_confirm();
                out.push(confirm);
                proof {
                    assert(packet_views(out@) =~= seq![confirm@]);
                }
            },
            (VcState::WaitClearConfirm(_, initiator), X25Packet::ClearConfirm(confirm)) => {
                self.circuit.state = VcState::Cleared(initiator, Some(confirm));
            },
            (state, _) => {
                self.circuit.state = state;
            },
        }
        out
    }

    /// The protection timer that runs in the circuit's state: when it was
    /// started and how long it lasts.
    pub fn active_timer(&self) -> (timer: Option<(u64, u64)>)
        ensures
            timer == self@.active_timer(),
    {
        match &self.circuit.state {
            VcState::WaitCallAccept(start) => Some((*start, self.params.t21)),
            VcState::WaitResetConfirm(start) => Some((*start, self.params.t22)),
            VcState::WaitClearConfirm(start, _) => Some((*start, self.params.t23)),
            _ => None,
        }
    }

    /// Acts on the expiry of the protection timer of the circuit's state.
    fn handle_expiry(&mut self, now: u64) -> (out: Vec<X25Packet>)
        ensures
            final(self)@ == old(self)@.handle_expiry(now).model,
            packet_views(out@) == old(self)@.handle_expiry(now).out,
            final(self).wf(),
    {
        proof {
            use_type_invariant(&self.circuit);
        }
        let mut out: Vec<X25Packet> = Vec::new();
        proof {
            assert(packet_views(out@) =~= Seq::empty());
        }
        let timer: u8 = match &self.circuit.state {
            VcState::WaitCallAccept(_) => 21,
            VcState::WaitResetConfirm(_) => 22,
            VcState::WaitClearConfirm(_, _) => 23,
            _ => 0,
        };
        if timer == 21 {
            let clear = self.clear_request(
                CLEAR_CAUSE_PROCEDURE_ERROR,
                DIAGNOSTIC_CALL_TIMER_EXPIRED,
                ClearInitiator::TimeOut(21),
                now,
            );
            out.push(clear);
            proof {
                assert(packet_views(out@) =~= seq![clear@]);
            }
        } else if timer == 22 {
            let clear = self.clear_request(
                CLEAR_CAUSE_PROCEDURE_ERROR,
                DIAGNOSTIC_RESET_TIMER_EXPIRED,
                ClearInitiator::TimeOut(22),
                now,
            );
            out.push(clear);
            proof {
                assert(packet_views(out@) =~= seq![clear@]);
            }
        } else if timer == 23 {
            self.out_of_order();
        }
        out
    }

    /// One turn of the engine at time `now`: handles the packet that
    /// arrived, or with `None` looks at the protection timer. Returns the
    /// packets to transmit, in order, and how long to wait for the next
    /// input at most, in milliseconds.
    pub fn handle_in_packet(&mut self, packet: Option<X25Packet>, now: u64) -> (result: (
        Vec<X25Packet>,
        u64,
    ))
        ensures
            final(self)@ == old(self)@.handle_in_packet(packet_option_view(packet), now).model,
            packet_views(result.0@) == old(self)@.handle_in_packet(
                packet_option_view(packet),
                now,
            ).out,
            result.1 == old(self)@.handle_in_packet(packet_option_view(packet), now).timeout,
            final(self).wf(),
    {
        proof {
            use_type_invariant(&self.circuit);
        }
        let out = match packet {
            Some(p) => self.handle_packet(p, now),
            None => {
                let expired = match self.active_timer() {
                    Some((start, duration)) => elapsed(start, now) > duration,
                    None => false,
                };
                if expired {
                    self.handle_expiry(now)
                } else {
                    let out: Vec<X25Packet> = Vec::new();
                    proof {
                        assert(packet_views(out@) =~= Seq::empty());
                    }
                    out
                }
            },
        };
        (out, self.next_wait(now))
    }

    /// How long to wait for the next input at most at time `now`: what is
    /// left of the protection timer that runs in the circuit's state, or
    /// [`IDLE_TIMEOUT`] where none runs.
    pub fn next_wait(&self, now: u64) -> (wait: u64)
        ensures
            wait == self@.next_wait(now),
    {
        match self.active_timer() {
            None => IDLE_TIMEOUT,
            Some((start, duration)) => {
                let since: u64 = elapsed(start, now);
                if since >= duration {
                    0
                } else {
                    duration - since
                }
            },
        }
    }

    /// One turn of the engine's loop at time `now`, on what the link
    /// delivered: reads the packet, handles it, and says what to transmit,
    /// how long to wait, and whether the circuit has ended.
    pub fn run(&mut self, input: LinkInput, now: u64) -> (turn: Turn)
        ensures
            final(self)@ == old(self)@.run(input@, now).model,
            packet_views(turn.packets@) == old(self)@.run(input@, now).out,
            turn.timeout == old(self)@.run(input@, now).timeout,
            turn.done == final(self)@.state.is_terminal(),
            final(self).wf(),
    {
        proof {
            use_type_invariant(&self.circuit);
        }
        let packet = match input {
            LinkInput::Failed => {
                self.out_of_order();
                return self.stopped(now);
            },
            LinkInput::Nothing => None,
            LinkInput::Packet(bytes) => match X25Packet::decode(bytes) {
                Ok(packet) => Some(packet),
                Err(X25PacketError::PacketUnsupported) => {
                    return self.stopped(now);
                },
                Err(X25PacketError::PacketMalformed) => {
                    self.out_of_order();
                    return self.stopped(now);
                },
            },
        };
        let (packets, timeout) = self.handle_in_packet(packet, now);
        Turn { packets, timeout, done: self.circuit.state.is_terminal() }
    }

    /// The turn in which nothing is done to the circuit as it stands.
    fn stopped(&self, now: u64) -> (turn: Turn)
        ensures
            packet_views(turn.packets@) == Seq::<X25PacketView>::empty(),
            turn.timeout == self@.next_wait(now),
            turn.done == self@.state.is_terminal(),
    {
        let packets: Vec<X25Packet> = Vec::new();
        proof {
            assert(packet_views(packets@) =~= Seq::empty());
        }
        Turn { packets, timeout: self.next_wait(now), done: self.circuit.state.is_terminal() }
    }

    /// Places a call to `addr` from the ready state: hands back the call
    /// request to transmit and waits for the answer from time `now`. In any
    /// other state nothing changes.
    pub fn call(&mut self, addr: &X121Addr, call_user_data: &[u8], now: u64) -> (result: Result<
        Vec<X25Packet>,
        VcError,
    >)
        ensures
            final(self).wf(),
            match old(self)@.call(addr@, call_user_data@, now) {
                Ok(done) => {
                    &&& result is Ok
                    &&& final(self)@ == done.model
                    &&& packet_views(result->Ok_0@) == done.out
                },
                Err(err) => result == Err::<Vec<X25Packet>, VcError>(err) && final(self)@ == old(
                    self,
                )@,
            },
    {
        proof {
            use_type_invariant(&self.circuit);
        }
        match &self.circuit.state {
            VcState::Ready => {},
            _ => {
                return Err(VcError::InvalidState);
            },
        }
        let request = X25Packet::CallRequest(
            create_call_request(self.channel, addr, call_user_data, &self.params),
        );
        self.circuit.state = VcState::WaitCallAccept(now);
        let mut out: Vec<X25Packet> = Vec::new();
        out.push(request);
        proof {
            assert(packet_views(out@) =~= seq![request@]);
        }
        Ok(out)
    }

    /// The call request that came in, while it waits to be accepted or
    /// cleared.
    pub fn request(&self) -> (request: Option<X25CallRequest>)
        ensures
            match self@.state {
                VcStateView::Called(r) => request is Some && request->0@ == r,
                _ => request is None,
            },
    {
        match &self.circuit.state {
            VcState::Called(request) => Some(request.clone()),
            _ => None,
        }
    }

    /// How a listener fares: `None` while no call has come in, then the
    /// call request, or the error that ended the wait.
    pub fn listen_outcome(&self) -> (outcome: Option<Result<X25CallRequest, VcError>>)
        ensures
            match self@.state {
                VcStateView::Ready => outcome is None,
                VcStateView::Called(r) => {
                    &&& outcome is Some
                    &&& outcome->0 is Ok
                    &&& outcome->0->Ok_0@ == r
                },
                _ => outcome == Some(Err::<X25CallRequest, VcError>(self@.failure())),
            },
    {
        match &self.circuit.state {
            VcState::Ready => None,
            VcState::Called(request) => Some(Ok(request.clone())),
            _ => Some(Err(self.failure())),
        }
    }

    /// Accepts the call that came in: hands back the call accept to
    /// transmit and enters data transfer.
    pub fn accept(&mut self) -> (result: Result<Vec<X25Packet>, VcError>)
        ensures
            final(self).wf(),
            match old(self)@.accept() {
                Ok(done) => {
                    &&& result is Ok
                    &&& final(self)@ == done.model
                    &&& packet_views(result->Ok_0@) == done.out
                },
                Err(err) => result == Err::<Vec<X25Packet>, VcError>(err) && final(self)@ == old(
                    self,
                )@,
            },
    {
        proof {
            use_type_invariant(&self.circuit);
        }
        match &self.circuit.state {
            VcState::Called(_) => {},
            _ => {
                return Err(VcError::InvalidState);
            },
        }
        let accept = X25Packet::CallAccept(create_call_accept(self.channel, &self.params));
        self.data_transfer();
        let mut out: Vec<X25Packet> = Vec::new();
        out.push(accept);
        proof {
            assert(packet_views(out@) =~= seq![accept@]);
        }
        Ok(out)
    }

    /// Refuses the call that came in: hands back the clear request to
    /// transmit. The call is cleared at once; no confirmation is awaited.
    pub fn clear_incoming(&mut self, cause_code: u8, diagnostic_code: u8) -> (result: Result<
        Vec<X25Packet>,
        VcError,
    >)
        ensures
            final(self).wf(),
            match old(self)@.refuse(cause_code, diagnostic_code) {
                Ok(done) => {
                    &&& result is Ok
                    &&& final(self)@ == done.model
                    &&& packet_views(result->Ok_0@) == done.out
                },
                Err(err) => result == Err::<Vec<X25Packet>, VcError>(err) && final(self)@ == old(
                    self,
                )@,
            },
    {
        proof {
            use_type_invariant(&self.circuit);
        }
        match &self.circuit.state {
            VcState::Called(_) => {},
            _ => {
                return Err(VcError::InvalidState);
            },
        }
        let request = self.clear_request_packet(cause_code, diagnostic_code);
        self.circuit.state = VcState::Cleared(ClearInitiator::Local, None);
        let mut out: Vec<X25Packet> = Vec::new();
        out.push(request);
        proof {
            assert(packet_views(out@) =~= seq![request@]);
        }
        Ok(out)
    }

    /// Clears a connected circuit: hands back the clear request to transmit
    /// and waits for its confirmation from time `now`.
    pub fn clear(&mut self, cause_code: u8, diagnostic_code: u8, now: u64) -> (result: Result<
        Vec<X25Packet>,
        VcError,
    >)
        ensures
            final(self).wf(),
            match old(self)@.clear(cause_code, diagnostic_code, now) {
                Ok(done) => {
                    &&& result is Ok
                    &&& final(self)@ == done.model
                    &&& packet_views(result->Ok_0@) == done.out
                },
                Err(err) => result == Err::<Vec<X25Packet>, VcError>(err) && final(self)@ == old(
                    self,
                )@,
            },
    {
        proof {
            use_type_invariant(&self.circuit);
        }
        if !self.circuit.state.is_connected() {
            return Err(VcError::InvalidState);
        }
        let request = self.clear_request(cause_code, diagnostic_code, ClearInitiator::Local, now);
        let mut out: Vec<X25Packet> = Vec::new();
        out.push(request);
        proof {
            assert(packet_views(out@) =~= seq![request@]);
        }
        Ok(out)
    }

    /// Resets a circuit in data transfer: hands back the reset request to
    /// transmit and waits for its confirmation from time `now`.
    pub fn reset(&mut self, cause_code: u8, diagnostic_code: u8, now: u64) -> (result: Result<
        Vec<X25Packet>,
        VcError,
    >)
        ensures
            final(self).wf(),
            match old(self)@.reset(cause_code, diagnostic_code, now) {
                Ok(done) => {
                    &&& result is Ok
                    &&& final(self)@ == done.model
                    &&& packet_views(result->Ok_0@) == done.out
                },
                Err(err) => result == Err::<Vec<X25Packet>, VcError>(err) && final(self)@ == old(
                    self,
                )@,
            },
    {
        proof {
            use_type_invariant(&self.circuit);
        }
        match &self.circuit.state {
            VcState::DataTransfer(_) => {},
            _ => {
                return Err(VcError::InvalidState);
            },
        }
        let request = self.reset_request(cause_code, diagnostic_code, now);
        let mut out: Vec<X25Packet> = Vec::new();
        out.push(request);
        proof {
            assert(packet_views(out@) =~= seq![request@]);
        }
        Ok(out)
    }

    /// Queues a message for sending, in fragments of at most the send
    /// packet size, and hands back as many data packets as the window lets
    /// out. Fails, and queues nothing, unless the circuit is connected: as
    /// out of order where the link has failed, else as not in a state to
    /// send.
    pub fn send(&mut self, user_data: Bytes, qualifier: bool) -> (result: Result<
        Vec<X25Packet>,
        VcError,
    >)
        requires
            old(self)@.params.send_packet_size > 0,
        ensures
            final(self).wf(),
            match old(self)@.send(bytes_seq(user_data), qualifier) {
                Ok(done) => {
                    &&& result is Ok
                    &&& final(self)@ == done.model
                    &&& packet_views(result->Ok_0@) == done.out
                },
                Err(err) => result == Err::<Vec<X25Packet>, VcError>(err) && final(self)@ == old(
                    self,
                )@,
            },
    {
        proof {
            use_type_invariant(&self.circuit);
        }
        match &self.circuit.state {
            VcState::DataTransfer(_) => {},
            VcState::WaitResetConfirm(_) => {},
            VcState::OutOfOrder => {
                return Err(VcError::LinkOutOfOrder);
            },
            _ => {
                return Err(VcError::InvalidState);
            },
        }
        let size: usize = self.params.send_packet_size;
        let data = bytes_as_slice(&user_data);
        let mut offset: usize = 0;
        proof {
            assert(data@.skip(0) =~= data@);
        }
        while offset < data.len()
            invariant
                offset <= data.len(),
                size > 0,
                size == self.params.send_packet_size,
                self.circuit.state == old(self).circuit.state,
                self.channel == old(self).channel,
                self.params == old(self).params,
                self.recv_data_queue == old(self).recv_data_queue,
                send_views(self.send_data_queue@) + fragments(
                    data@.skip(offset as int),
                    qualifier,
                    size as int,
                ) == send_views(old(self).send_data_queue@) + fragments(
                    data@,
                    qualifier,
                    size as int,
                ),
            decreases data.len() - offset,
        {
            let ghost queue_before = self.send_data_queue@;
            let ghost rest = data@.skip(offset as int);
            let end: usize = if data.len() - offset <= size {
                data.len()
            } else {
                offset + size
            };
            let chunk = slice_subrange(data, offset, end);
            let item = SendData {
                user_data: bytes_copy_from_slice(chunk),
                qualifier,
                more: end < data.len(),
            };
            proof {
                assert(chunk@ =~= rest.take(end - offset));
                assert(data@.skip(end as int) =~= rest.skip(end - offset));
                if end == data.len() {
                    assert(rest.take(end - offset) =~= rest);
                    assert(fragments(rest, qualifier, size as int) =~= seq![item@]);
                    assert(fragments(data@.skip(end as int), qualifier, size as int)
                        =~= Seq::empty());
                }
            }
            self.send_data_queue.push_back(item);
            proof {
                assert(send_views(self.send_data_queue@) =~= send_views(queue_before).push(item@));
                assert(send_views(self.send_data_queue@) + fragments(
                    data@.skip(end as int),
                    qualifier,
                    size as int,
                ) =~= send_views(queue_before) + fragments(rest, qualifier, size as int));
            }
            offset = end;
        }
        proof {
            assert(fragments(data@.skip(offset as int), qualifier, size as int) =~= Seq::empty());
            assert(send_views(self.send_data_queue@) =~= send_views(old(self).send_data_queue@)
                + fragments(data@, qualifier, size as int));
        }
        Ok(self.send_queued_data())
    }

    /// Whether the next complete message, if there is one, is short enough
    /// to be put together in one buffer.
    pub fn can_recv(&self) -> (fits: bool)
        ensures
            fits == (first_complete(self@.recv_queue) is Some ==> joined(
                self@.recv_queue,
                first_complete(self@.recv_queue)->0 + 1,
            ).len() <= isize::MAX),
    {
        complete_data_fits(&self.recv_data_queue)
    }

    /// Takes the next complete message off the receive queue. Where none is
    /// complete: `None` while one may still come, `Some(Ok(None))` at the
    /// end of the stream after a clear, or the error the circuit ended with.
    pub fn recv(&mut self) -> (result: Option<Result<Option<(Bytes, bool)>, VcError>>)
        requires
            first_complete(old(self)@.recv_queue) is Some ==> joined(
                old(self)@.recv_queue,
                first_complete(old(self)@.recv_queue)->0 + 1,
            ).len() <= isize::MAX,
        ensures
            final(self).wf(),
            match first_complete(old(self)@.recv_queue) {
                Some(last) => {
                    &&& result is Some
                    &&& result->0 is Ok
                    &&& result->0->Ok_0 is Some
                    &&& bytes_seq((result->0->Ok_0->0).0) == joined(old(self)@.recv_queue, last + 1)
                    &&& (result->0->Ok_0->0).1 == old(self)@.recv_queue[last].qualifier
                    &&& final(self)@ == (VcModel {
                        recv_queue: old(self)@.recv_queue.skip(last + 1),
                        ..old(self)@
                    })
                },
                None => {
                    &&& final(self)@ == old(self)@
                    &&& match old(self)@.end_of_data() {
                        None => result is None,
                        Some(Ok(_)) => result is Some && result->0 is Ok && result->0->Ok_0 is None,
                        Some(Err(err)) => result is Some && result->0 == Err::<
                            Option<(Bytes, bool)>,
                            VcError,
                        >(err),
                    }
                },
            },
    {
        proof {
            use_type_invariant(&self.circuit);
        }
        if let Some(message) = pop_complete_data(&mut self.recv_data_queue) {
            return Some(Ok(Some(message)));
        }
        match &self.circuit.state {
            VcState::DataTransfer(_) => None,
            VcState::WaitResetConfirm(_) => None,
            VcState::WaitClearConfirm(_, _) => None,
            VcState::Cleared(ClearInitiator::Local, _) => Some(Ok(None)),
            VcState::Cleared(ClearInitiator::Remote(_), _) => Some(Ok(None)),
            _ => Some(Err(self.failure())),
        }
    }

    /// The error that tells a waiting client why the circuit is not
    /// connected.
    pub fn failure(&self) -> (err: VcError)
        ensures
            err == self@.failure(),
    {
        match &self.circuit.state {
            VcState::Cleared(ClearInitiator::Remote(request), _) => VcError::ConnectionReset {
                cause_code: request.cause_code,
                diagnostic_code: request.diagnostic_code,
            },
            VcState::WaitClearConfirm(_, ClearInitiator::TimeOut(_)) => VcError::TimedOut,
            VcState::Cleared(ClearInitiator::TimeOut(_), _) => VcError::TimedOut,
            VcState::OutOfOrder => VcError::LinkOutOfOrder,
            _ => VcError::InvalidState,
        }
    }

    /// How a call that was placed has ended; `None` while it has not.
    pub fn call_outcome(&self) -> (outcome: Option<Result<(), VcError>>)
        ensures
            outcome == self@.call_outcome(),
    {
        match &self.circuit.state {
            VcState::WaitCallAccept(_) => {
                return None;
            },
            _ => {},
        }
        if self.recv_data_queue.len() > 0 || self.circuit.state.is_connected() {
            Some(Ok(()))
        } else {
            Some(Err(self.failure()))
        }
    }

    /// How a clear by the local client has ended; `None` while it has not.
    pub fn clear_outcome(&self) -> (outcome: Option<Result<(), VcError>>)
        ensures
            outcome == self@.clear_outcome(),
    {
        match &self.circuit.state {
            VcState::WaitClearConfirm(_, _) => None,
            VcState::Cleared(ClearInitiator::Local, _) => Some(Ok(())),
            _ => Some(Err(self.failure())),
        }
    }

    /// How a reset by the local client has ended; `None` while it has not.
    pub fn reset_outcome(&self) -> (outcome: Option<Result<(), VcError>>)
        ensures
            outcome == self@.reset_outcome(),
    {
        match &self.circuit.state {
            VcState::WaitResetConfirm(_) => None,
            VcState::DataTransfer(_) => Some(Ok(())),
            _ => Some(Err(self.failure())),
        }
    }

    /// Whether everything handed over for sending has gone out on a circuit
    /// that is still connected; `None` while it has not and may yet, and an
    /// error once the circuit has ended or where it never was connected.
    pub fn flush(&self) -> (outcome: Option<Result<(), VcError>>)
        ensures
            outcome == self@.flush_outcome(),
    {
        match &self.circuit.state {
            VcState::DataTransfer(_) | VcState::WaitResetConfirm(_) => {
                if self.send_data_queue.len() == 0 {
                    Some(Ok(()))
                } else {
                    None
                }
            },
            VcState::WaitClearConfirm(_, _) => None,
            _ => Some(Err(self.failure())),
        }
    }
}

/// Takes the first complete message off a queue of received data packets:
/// the user data of the packets up to the first one not marked as followed
/// by more, joined, with the qualifier of that last packet. Where no packet
/// ends a message the queue is left as it was.
pub fn pop_complete_data(queue: &mut VecDeque<X25Data>) -> (message: Option<(Bytes, bool)>)
    requires
        first_complete(data_views(old(queue)@)) is Some ==> joined(
            data_views(old(queue)@),
            first_complete(data_views(old(queue)@))->0 + 1,
        ).len() <= isize::MAX,
    ensures
        match first_complete(data_views(old(queue)@)) {
            Some(last) => {
                &&& 0 <= last < old(queue)@.len()
                &&& message is Some
                &&& bytes_seq((message->0).0) == joined(data_views(old(queue)@), last + 1)
                &&& (message->0).1 == old(queue)@[last].qualifier
                &&& final(queue)@ == old(queue)@.skip(last + 1)
                &&& data_views(final(queue)@) == data_views(old(queue)@).skip(last + 1)
            },
            None => message is None && final(queue)@ == old(queue)@,
        },
{
    let ghost views = data_views(queue@);
    let mut index: usize = 0;
    proof {
        assert(views.skip(0) =~= views);
    }
    while index < queue.len() && queue[index].more
        invariant
            index <= queue.len(),
            *queue == *old(queue),
            views == data_views(queue@),
            first_complete(views) == match first_complete(views.skip(index as int)) {
                Some(i) => Some(i + index),
                None => None,
            },
        decreases queue.len() - index,
    {
        proof {
            assert(views.skip(index as int).skip(1) =~= views.skip(index as int + 1));
            assert(views.skip(index as int)[0] == views[index as int]);
        }
        index += 1;
    }
    if index >= queue.len() {
        return None;
    }
    proof {
        assert(views.skip(index as int)[0] == views[index as int]);
        assert(first_complete(views) == Some(index as int));
        lemma_joined_prefix_len(views, index as int + 1);
    }
    let mut user_data = bytes_mut_new();
    let mut qualifier = false;
    let mut taken: usize = 0;
    while taken <= index
        invariant
            taken <= index + 1,
            index < usize::MAX,
            index < old(queue)@.len(),
            views == data_views(old(queue)@),
            queue@ == old(queue)@.skip(taken as int),
            bytes_mut_seq(user_data) == joined(views, taken as int),
            joined(views, index as int + 1).len() <= isize::MAX,
            forall|k: int|
                0 <= k <= index + 1 ==> (#[trigger] joined(views, k)).len() <= joined(
                    views,
                    index as int + 1,
                ).len(),
            taken > 0 ==> qualifier == old(queue)@[taken as int - 1].qualifier,
        decreases index + 1 - taken,
    {
        let ghost before = queue@;
        let packet = queue.pop_front().unwrap();
        proof {
            assert(packet == old(queue)@[taken as int]);
            assert(queue@ =~= old(queue)@.skip(taken as int + 1));
            assert(views[taken as int] == packet@);
            assert(joined(views, taken as int + 1) == joined(views, taken as int)
                + packet@.user_data);
        }
        qualifier = packet.qualifier;
        bytes_mut_put(&mut user_data, packet.user_data);
        taken += 1;
    }
    proof {
        assert(data_views(queue@) =~= views.skip(index as int + 1));
    }
    Some((bytes_mut_freeze(user_data), qualifier))
}

/// Whether the first complete message of the queue, if there is one, is
/// short enough to be put together in one buffer.
pub fn complete_data_fits(queue: &VecDeque<X25Data>) -> (fits: bool)
    ensures
        fits == (first_complete(data_views(queue@)) is Some ==> joined(
            data_views(queue@),
            first_complete(data_views(queue@))->0 + 1,
        ).len() <= isize::MAX),
{
    let ghost views = data_views(queue@);
    let limit: usize = isize::MAX as usize;
    let mut total: usize = 0;
    let mut index: usize = 0;
    proof {
        assert(views.skip(0) =~= views);
    }
    while index < queue.len()
        invariant
            index <= queue.len(),
            limit == isize::MAX,
            views == data_views(queue@),
            total == joined(views, index as int).len(),
            total <= limit,
            first_complete(views) == match first_complete(views.skip(index as int)) {
                Some(i) => Some(i + index),
                None => None,
            },
        decreases queue.len() - index,
    {
        let len: usize = bytes_len(&queue[index].user_data);
        proof {
            assert(views.skip(index as int)[0] == views[index as int]);
            assert(views.skip(index as int).skip(1) =~= views.skip(index as int + 1));
            assert(views[index as int] == queue@[index as int]@);
            assert(joined(views, index as int + 1) == joined(views, index as int)
                + views[index as int].user_data);
        }
        let more: bool = queue[index].more;
        if len > limit - total {
            proof {
                lemma_first_complete_bounds(views.skip(index as int));
                if first_complete(views) is Some {
                    let last = first_complete(views)->0;
                    lemma_joined_grows(views, index as int + 1, last + 1);
                }
            }
            // The packets up to this one are too long already; what matters
            // is whether a message ends at this packet or behind it.
            return !has_complete_from(queue, index);
        }
        total = total + len;
        if !more {
            proof {
                assert(first_complete(views) == Some(index as int));
            }
            return true;
        }
        index += 1;
    }
    true
}

/// Whether a packet from `from` on ends a message.
fn has_complete_from(queue: &VecDeque<X25Data>, from: usize) -> (found: bool)
    requires
        from <= queue@.len(),
    ensures
        found == (first_complete(data_views(queue@).skip(from as int)) is Some),
{
    let ghost views = data_views(queue@);
    let mut index: usize = from;
    while index < queue.len()
        invariant
            from <= index <= queue.len(),
            views == data_views(queue@),
            first_complete(views.skip(from as int)) is Some <==> first_complete(
                views.skip(index as int),
            ) is Some,
        decreases queue.len() - index,
    {
        proof {
            assert(views.skip(index as int)[0] == views[index as int]);
            assert(views.skip(index as int).skip(1) =~= views.skip(index as int + 1));
            assert(views[index as int] == queue@[index as int]@);
        }
        if !queue[index].more {
            return true;
        }
        index += 1;
    }
    false
}

/// The packet that ends the first message lies in the queue.
proof fn lemma_first_complete_bounds(queue: Seq<X25DataView>)
    ensures
        first_complete(queue) is Some ==> 0 <= first_complete(queue)->0 < queue.len(),
    decreases queue.len(),
{
    if queue.len() > 0 && queue[0].more {
        lemma_first_complete_bounds(queue.skip(1));
    }
}

/// Joining more packets never gives less data.
proof fn lemma_joined_grows(queue: Seq<X25DataView>, fewer: int, more: int)
    requires
        0 <= fewer <= more <= queue.len(),
    ensures
        joined(queue, fewer).len() <= joined(queue, more).len(),
    decreases more - fewer,
{
    if fewer < more {
        lemma_joined_grows(queue, fewer, more - 1);
    }
}

/// Of the packets joined, no part from the front is longer than the whole.
proof fn lemma_joined_prefix_len(queue: Seq<X25DataView>, count: int)
    requires
        0 <= count <= queue.len(),
    ensures
        forall|k: int| 0 <= k <= count ==> (#[trigger] joined(queue, k)).len() <= joined(
            queue,
            count,
        ).len(),
    decreases count,
{
    if count > 0 {
        lemma_joined_prefix_len(queue, count - 1);
    }
}

} // verus!
