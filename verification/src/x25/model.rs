//! Mathematical model of the virtual circuit engine: what each operation
//! and each received packet does to the circuit, and which packets it
//! makes the circuit transmit.

use crate::x25::codec::{decode_packet, X25PacketError};
use crate::x25::negotiate::{
    spec_create_call_accept, spec_create_call_request, spec_negotiate_called_params,
    spec_negotiate_calling_params,
};
use crate::x25::packet::{
    X25ClearConfirmView, X25ClearRequestView, X25DataView, X25PacketView, X25ReceiveReady,
    X25ResetConfirm, X25ResetRequest,
};
use crate::x25::params::X25ParamsView;
use crate::x25::state::{
    ClearInitiatorView, DataTransferState, SendDataView, VcError, VcStateView,
};
use vstd::prelude::*;

verus! {

/// How long the engine waits for input when no protection timer runs, in
/// milliseconds.
pub const IDLE_TIMEOUT: u64 = 100_000_000;

/// Cause code of a clear after a local procedure error.
pub const CLEAR_CAUSE_PROCEDURE_ERROR: u8 = 19;

/// Cause code of a reset after a local procedure error.
pub const RESET_CAUSE_PROCEDURE_ERROR: u8 = 5;

/// Diagnostic code that tells nothing more.
pub const DIAGNOSTIC_NONE: u8 = 0;

pub const DIAGNOSTIC_INVALID_SEND_SEQ: u8 = 1;

pub const DIAGNOSTIC_INVALID_RECV_SEQ: u8 = 2;

pub const DIAGNOSTIC_CALL_TIMER_EXPIRED: u8 = 49;

pub const DIAGNOSTIC_RESET_TIMER_EXPIRED: u8 = 51;

/// Time from `start` to `now`, zero where the clock reads earlier than
/// `start`.
pub open spec fn spec_elapsed(start: u64, now: u64) -> u64 {
    if now >= start {
        (now - start) as u64
    } else {
        0
    }
}

/// A message cut into fragments of at most `size` bytes. All but the last
/// are marked as followed by more. An empty message has no fragments.
pub open spec fn fragments(data: Seq<u8>, qualifier: bool, size: int) -> Seq<SendDataView>
    decreases data.len(),
{
    if size <= 0 || data.len() == 0 {
        Seq::empty()
    } else if data.len() <= size {
        seq![SendDataView { user_data: data, qualifier, more: false }]
    } else {
        seq![SendDataView { user_data: data.take(size), qualifier, more: true }] + fragments(
            data.skip(size),
            qualifier,
            size,
        )
    }
}

/// Index of the first packet in the queue that ends a message.
pub open spec fn first_complete(queue: Seq<X25DataView>) -> Option<int>
    decreases queue.len(),
{
    if queue.len() == 0 {
        None
    } else if !queue[0].more {
        Some(0)
    } else {
        match first_complete(queue.skip(1)) {
            Some(i) => Some(i + 1),
            None => None,
        }
    }
}

/// The user data of the first `count` packets of the queue, joined.
pub open spec fn joined(queue: Seq<X25DataView>, count: int) -> Seq<u8>
    decreases count,
{
    if count <= 0 || count > queue.len() {
        Seq::empty()
    } else {
        joined(queue, count - 1) + queue[count - 1].user_data
    }
}

/// What the link delivered to the engine.
pub ghost enum LinkInputView {
    /// The bytes of one packet.
    Packet(Seq<u8>),
    /// The link failed or ended.
    Failed,
    /// Nothing arrived before the wait ended.
    Nothing,
}

/// A circuit and the packets an operation made it transmit, in order.
pub ghost struct Emitted {
    pub model: VcModel,
    pub out: Seq<X25PacketView>,
}

/// Outcome of handling one input: the circuit, the packets to transmit, and
/// how long to wait for the next input at most.
pub ghost struct Handled {
    pub model: VcModel,
    pub out: Seq<X25PacketView>,
    pub timeout: u64,
}

/// Model of a virtual circuit: its state, parameters and queues.
pub ghost struct VcModel {
    pub channel: u16,
    pub state: VcStateView,
    pub params: X25ParamsView,
    /// Fragments waiting for the send window, front first.
    pub send_queue: Seq<SendDataView>,
    /// Data packets received and not yet read, front first.
    pub recv_queue: Seq<X25DataView>,
}

impl VcModel {
    pub open spec fn wf(self) -> bool {
        self.state.wf()
    }

    /// A new circuit: ready, with nothing queued.
    pub open spec fn initial(channel: u16, params: X25ParamsView) -> VcModel {
        VcModel {
            channel,
            state: VcStateView::Ready,
            params,
            send_queue: Seq::empty(),
            recv_queue: Seq::empty(),
        }
    }

    pub open spec fn with_state(self, state: VcStateView) -> VcModel {
        VcModel { state, ..self }
    }

    pub open spec fn silent(self) -> Emitted {
        Emitted { model: self, out: Seq::empty() }
    }

    /// Enters data transfer with sequence numbers at zero.
    pub open spec fn data_transfer(self) -> VcModel {
        self.with_state(VcStateView::DataTransfer(DataTransferState::initial(self.params)))
    }

    pub open spec fn cleared(
        self,
        initiator: ClearInitiatorView,
        confirm: Option<X25ClearConfirmView>,
    ) -> VcModel {
        self.with_state(VcStateView::Cleared(initiator, confirm))
    }

    pub open spec fn out_of_order(self) -> VcModel {
        self.with_state(VcStateView::OutOfOrder)
    }

    pub open spec fn clear_request_packet(self, cause_code: u8, diagnostic_code: u8) -> X25PacketView {
        X25PacketView::ClearRequest(
            X25ClearRequestView {
                modulo: self.params.modulo,
                channel: self.channel,
                cause_code,
                diagnostic_code,
                called_addr: Seq::empty(),
                calling_addr: Seq::empty(),
                facilities: Seq::empty(),
                clear_user_data: Seq::empty(),
            },
        )
    }

    /// Sends a clear request and waits for its confirmation.
    pub open spec fn clear_request(
        self,
        cause_code: u8,
        diagnostic_code: u8,
        initiator: ClearInitiatorView,
        now: u64,
    ) -> Emitted {
        Emitted {
            model: self.with_state(VcStateView::WaitClearConfirm(now, initiator)),
            out: seq![self.clear_request_packet(cause_code, diagnostic_code)],
        }
    }

    /// Confirms the peer's clear request; the call is cleared.
    pub open spec fn clear_confirm(self, request: X25ClearRequestView) -> Emitted {
        Emitted {
            model: self.cleared(ClearInitiatorView::Remote(request), None),
            out: seq![
                X25PacketView::ClearConfirm(
                    X25ClearConfirmView {
                        modulo: self.params.modulo,
                        channel: self.channel,
                        called_addr: Seq::empty(),
                        calling_addr: Seq::empty(),
                        facilities: Seq::empty(),
                    },
                ),
            ],
        }
    }

    /// Sends a reset request and waits for its confirmation.
    pub open spec fn reset_request(self, cause_code: u8, diagnostic_code: u8, now: u64) -> Emitted {
        Emitted {
            model: self.with_state(VcStateView::WaitResetConfirm(now)),
            out: seq![
                X25PacketView::ResetRequest(
                    X25ResetRequest {
                        modulo: self.params.modulo,
                        channel: self.channel,
                        cause_code,
                        diagnostic_code,
                    },
                ),
            ],
        }
    }

    /// Confirms the peer's reset request and starts data transfer afresh.
    pub open spec fn reset_confirm(self) -> Emitted {
        Emitted {
            model: self.data_transfer(),
            out: seq![
                X25PacketView::ResetConfirm(
                    X25ResetConfirm { modulo: self.params.modulo, channel: self.channel },
                ),
            ],
        }
    }

    /// The data packet that carries the fragment at the front of the queue.
    pub open spec fn front_data_packet(self) -> X25PacketView
        recommends
            self.state is DataTransfer,
            self.send_queue.len() > 0,
    {
        let dt = self.state->DataTransfer_0;
        X25PacketView::Data(
            X25DataView {
                modulo: self.params.modulo,
                channel: self.channel,
                send_seq: dt.send_window.next,
                recv_seq: dt.recv_seq,
                qualifier: self.send_queue[0].qualifier,
                delivery: false,
                more: self.send_queue[0].more,
                user_data: self.send_queue[0].user_data,
            },
        )
    }

    /// Whether a queued fragment can be sent now.
    pub open spec fn can_send_data(self) -> bool {
        &&& self.state is DataTransfer
        &&& self.send_queue.len() > 0
        &&& self.state->DataTransfer_0.send_window.spec_is_open()
    }

    /// The circuit after the fragment at the front of the queue was sent.
    pub open spec fn after_front_sent(self) -> VcModel {
        let dt = self.state->DataTransfer_0;
        VcModel {
            state: VcStateView::DataTransfer(
                DataTransferState { send_window: dt.send_window.spec_incr(), ..dt },
            ),
            send_queue: self.send_queue.skip(1),
            ..self
        }
    }

    /// Sends queued fragments, one data packet each, until the queue is
    /// empty or the window closes. Outside data transfer nothing is sent.
    pub open spec fn send_queued_data(self) -> Emitted
        decreases self.send_queue.len(),
    {
        if !self.can_send_data() {
            self.silent()
        } else {
            let rest = self.after_front_sent().send_queued_data();
            Emitted { model: rest.model, out: seq![self.front_data_packet()] + rest.out }
        }
    }

    pub open spec fn receive_ready_packet(self) -> X25PacketView
        recommends
            self.state is DataTransfer,
    {
        X25PacketView::ReceiveReady(
            X25ReceiveReady {
                modulo: self.params.modulo,
                channel: self.channel,
                recv_seq: self.state->DataTransfer_0.recv_seq,
            },
        )
    }

    /// Sends what the window allows; where that is nothing, acknowledges
    /// with a receive ready instead.
    pub open spec fn send_data_or_receive_ready(self) -> Emitted {
        let sent = self.send_queued_data();
        if sent.out.len() == 0 {
            Emitted { model: sent.model, out: seq![self.receive_ready_packet()] }
        } else {
            sent
        }
    }

    /// A data packet in data transfer. One out of sequence, or one that
    /// acknowledges what was never sent, is answered with a reset request
    /// and is not queued.
    pub open spec fn handle_data(self, data: X25DataView, now: u64) -> Emitted
        recommends
            self.state is DataTransfer,
    {
        let dt = self.state->DataTransfer_0;
        if data.send_seq != dt.recv_seq {
            self.reset_request(RESET_CAUSE_PROCEDURE_ERROR, DIAGNOSTIC_INVALID_SEND_SEQ, now)
        } else if !dt.send_window.acknowledges(data.recv_seq) {
            self.reset_request(RESET_CAUSE_PROCEDURE_ERROR, DIAGNOSTIC_INVALID_RECV_SEQ, now)
        } else {
            let next = dt.spec_update_recv_seq(data.send_seq).spec_update_send_window(
                data.recv_seq,
            );
            VcModel {
                state: VcStateView::DataTransfer(next),
                recv_queue: self.recv_queue.push(data),
                ..self
            }.send_data_or_receive_ready()
        }
    }

    /// A receive ready in data transfer.
    pub open spec fn handle_receive_ready(self, recv_seq: u8, now: u64) -> Emitted
        recommends
            self.state is DataTransfer,
    {
        let dt = self.state->DataTransfer_0;
        if !dt.send_window.acknowledges(recv_seq) {
            self.reset_request(RESET_CAUSE_PROCEDURE_ERROR, DIAGNOSTIC_INVALID_RECV_SEQ, now)
        } else {
            self.with_state(
                VcStateView::DataTransfer(dt.spec_update_send_window(recv_seq)),
            ).send_queued_data()
        }
    }

    /// What a received packet does in the circuit's state. A packet that
    /// the state has no use for is dropped. Interrupts are not served: one
    /// that arrives in data transfer is answered with a reset request.
    pub open spec fn handle_packet(self, packet: X25PacketView, now: u64) -> Emitted {
        match (self.state, packet) {
            (VcStateView::Ready, X25PacketView::CallRequest(request)) => VcModel {
                state: VcStateView::Called(request),
                params: spec_negotiate_called_params(request, self.params),
                ..self
            }.silent(),
            (VcStateView::Called(_), X25PacketView::ClearRequest(request)) => self.cleared(
                ClearInitiatorView::Remote(request),
                None,
            ).silent(),
            (VcStateView::WaitCallAccept(_), X25PacketView::CallAccept(accept)) => VcModel {
                params: spec_negotiate_calling_params(accept, self.params),
                ..self
            }.data_transfer().silent(),
            (VcStateView::WaitCallAccept(_), X25PacketView::ClearRequest(request)) => self.cleared(
                ClearInitiatorView::Remote(request),
                None,
            ).silent(),
            (VcStateView::DataTransfer(_), X25PacketView::Data(data)) => self.handle_data(
                data,
                now,
            ),
            (
                VcStateView::DataTransfer(_),
                X25PacketView::ReceiveReady(ready),
            ) => self.handle_receive_ready(ready.recv_seq, now),
            (VcStateView::DataTransfer(_), X25PacketView::Interrupt(_)) => self.reset_request(
                RESET_CAUSE_PROCEDURE_ERROR,
                DIAGNOSTIC_NONE,
                now,
            ),
            (VcStateView::DataTransfer(_), X25PacketView::ResetRequest(_)) => self.reset_confirm(),
            (VcStateView::DataTransfer(_), X25PacketView::ClearRequest(request)) => self.clear_confirm(
                request,
            ),
            (
                VcStateView::WaitResetConfirm(_),
                X25PacketView::ResetConfirm(_),
            ) => self.data_transfer().silent(),
            (
                VcStateView::WaitResetConfirm(_),
                X25PacketView::ResetRequest(_),
            ) => self.reset_confirm(),
            (
                VcStateView::WaitClearConfirm(_, initiator),
                X25PacketView::ClearConfirm(confirm),
            ) => self.cleared(initiator, Some(confirm)).silent(),
            _ => self.silent(),
        }
    }

    /// The protection timer that runs in the circuit's state: when it was
    /// started and how long it lasts.
    pub open spec fn active_timer(self) -> Option<(u64, u64)> {
        match self.state {
            VcStateView::WaitCallAccept(start) => Some((start, self.params.t21)),
            VcStateView::WaitResetConfirm(start) => Some((start, self.params.t22)),
            VcStateView::WaitClearConfirm(start, _) => Some((start, self.params.t23)),
            _ => None,
        }
    }

    /// How long the running timer lasts.
    pub open spec fn timer_duration(self) -> u64
        recommends
            self.active_timer() is Some,
    {
        (self.active_timer()->0).1
    }

    /// How long the running timer has run at time `now`.
    pub open spec fn timer_elapsed(self, now: u64) -> u64
        recommends
            self.active_timer() is Some,
    {
        spec_elapsed((self.active_timer()->0).0, now)
    }

    /// What the expiry of the state's protection timer does.
    pub open spec fn handle_expiry(self, now: u64) -> Emitted {
        match self.state {
            VcStateView::WaitCallAccept(_) => self.clear_request(
                CLEAR_CAUSE_PROCEDURE_ERROR,
                DIAGNOSTIC_CALL_TIMER_EXPIRED,
                ClearInitiatorView::TimeOut(21),
                now,
            ),
            VcStateView::WaitResetConfirm(_) => self.clear_request(
                CLEAR_CAUSE_PROCEDURE_ERROR,
                DIAGNOSTIC_RESET_TIMER_EXPIRED,
                ClearInitiatorView::TimeOut(22),
                now,
            ),
            VcStateView::WaitClearConfirm(_, _) => self.out_of_order().silent(),
            _ => self.silent(),
        }
    }

    /// How long the engine waits for the next input at most at time `now`:
    /// what is left of the protection timer that runs in the circuit's
    /// state, nothing once its duration has passed, and [`IDLE_TIMEOUT`]
    /// where no timer runs.
    pub open spec fn next_wait(self, now: u64) -> u64 {
        match self.active_timer() {
            None => IDLE_TIMEOUT,
            Some((start, duration)) => if spec_elapsed(start, now) >= duration {
                0
            } else {
                (duration - spec_elapsed(start, now)) as u64
            },
        }
    }

    /// Whether the protection timer of the circuit's state has run out at
    /// time `now`: whether more than its duration has passed since it was
    /// started.
    pub open spec fn timer_expired(self, now: u64) -> bool {
        self.active_timer() is Some && self.timer_elapsed(now) > self.timer_duration()
    }

    /// What one turn of the engine does to the circuit. With a packet, the
    /// packet is handled; the timer of the state it arrived in is not
    /// examined. Without one, the timer of the state expires if it has run
    /// out, and else nothing happens.
    pub open spec fn turn(self, packet: Option<X25PacketView>, now: u64) -> Emitted {
        match packet {
            Some(p) => self.handle_packet(p, now),
            None => if self.timer_expired(now) {
                self.handle_expiry(now)
            } else {
                self.silent()
            },
        }
    }

    /// One turn of the engine at time `now`, on a received packet or on
    /// none, and the wait that follows it: what is left at `now` of the
    /// timer of the state that the turn ends in.
    pub open spec fn handle_in_packet(self, packet: Option<X25PacketView>, now: u64) -> Handled {
        let done = self.turn(packet, now);
        Handled { model: done.model, out: done.out, timeout: done.model.next_wait(now) }
    }

    /// The turn on a packet that was dropped unread: nothing changes, and
    /// the wait is what is left of the running timer.
    pub open spec fn dropped(self, now: u64) -> Handled {
        Handled { model: self, out: Seq::empty(), timeout: self.next_wait(now) }
    }

    /// One turn of the engine on what the link delivered. A link failure
    /// and bytes that are no packet put the circuit out of order. A packet
    /// of a type that is not handled is dropped. Any other packet, and no
    /// input at all, is a turn of [`Self::handle_in_packet`].
    pub open spec fn run(self, input: LinkInputView, now: u64) -> Handled {
        match input {
            LinkInputView::Failed => self.out_of_order().dropped(now),
            LinkInputView::Nothing => self.handle_in_packet(None, now),
            LinkInputView::Packet(bytes) => match decode_packet(bytes) {
                Ok(packet) => self.handle_in_packet(Some(packet), now),
                Err(X25PacketError::PacketUnsupported) => self.dropped(now),
                Err(X25PacketError::PacketMalformed) => self.out_of_order().dropped(now),
            },
        }
    }

    /// A call placed from the ready state.
    pub open spec fn call(self, addr: Seq<u8>, call_user_data: Seq<u8>, now: u64) -> Result<
        Emitted,
        VcError,
    > {
        if self.state is Ready {
            Ok(
                Emitted {
                    model: self.with_state(VcStateView::WaitCallAccept(now)),
                    out: seq![
                        X25PacketView::CallRequest(
                            spec_create_call_request(
                                self.channel,
                                addr,
                                call_user_data,
                                self.params,
                            ),
                        ),
                    ],
                },
            )
        } else {
            Err(VcError::InvalidState)
        }
    }

    /// Acceptance of the call that came in.
    pub open spec fn accept(self) -> Result<Emitted, VcError> {
        if self.state is Called {
            Ok(
                Emitted {
                    model: self.data_transfer(),
                    out: seq![
                        X25PacketView::CallAccept(
                            spec_create_call_accept(self.channel, self.params),
                        ),
                    ],
                },
            )
        } else {
            Err(VcError::InvalidState)
        }
    }

    /// Refusal of the call that came in: the clear request is not waited on.
    pub open spec fn refuse(self, cause_code: u8, diagnostic_code: u8) -> Result<Emitted, VcError> {
        if self.state is Called {
            Ok(
                Emitted {
                    model: self.cleared(ClearInitiatorView::Local, None),
                    out: seq![self.clear_request_packet(cause_code, diagnostic_code)],
                },
            )
        } else {
            Err(VcError::InvalidState)
        }
    }

    /// Clearing of a connected circuit by the local client.
    pub open spec fn clear(self, cause_code: u8, diagnostic_code: u8, now: u64) -> Result<
        Emitted,
        VcError,
    > {
        if self.state.is_connected() {
            Ok(self.clear_request(cause_code, diagnostic_code, ClearInitiatorView::Local, now))
        } else {
            Err(VcError::InvalidState)
        }
    }

    /// Reset of a circuit in data transfer by the local client.
    pub open spec fn reset(self, cause_code: u8, diagnostic_code: u8, now: u64) -> Result<
        Emitted,
        VcError,
    > {
        if self.state is DataTransfer {
            Ok(self.reset_request(cause_code, diagnostic_code, now))
        } else {
            Err(VcError::InvalidState)
        }
    }

    /// A message handed over for sending: its fragments join the queue and
    /// as many queued fragments go out as the window allows. A circuit that
    /// is not connected refuses and changes nothing: as out of order where
    /// the link has failed, and else as not in a state to send.
    pub open spec fn send(self, user_data: Seq<u8>, qualifier: bool) -> Result<Emitted, VcError> {
        if self.state.is_connected() {
            Ok(
                VcModel {
                    send_queue: self.send_queue + fragments(
                        user_data,
                        qualifier,
                        self.params.send_packet_size as int,
                    ),
                    ..self
                }.send_queued_data(),
            )
        } else if self.state is OutOfOrder {
            Err(VcError::LinkOutOfOrder)
        } else {
            Err(VcError::InvalidState)
        }
    }

    /// How a call that was placed has ended; `None` while it has not.
    ///
    /// The call has succeeded once the circuit is connected, and also when
    /// data has arrived although the peer has cleared since.
    pub open spec fn call_outcome(self) -> Option<Result<(), VcError>> {
        if self.state is WaitCallAccept {
            None
        } else if self.recv_queue.len() > 0 || self.state.is_connected() {
            Some(Ok(()))
        } else {
            Some(Err(self.failure()))
        }
    }

    /// The error that tells a waiting client why the circuit is not
    /// connected.
    pub open spec fn failure(self) -> VcError {
        match self.state {
            VcStateView::Cleared(ClearInitiatorView::Remote(request), _) => VcError::ConnectionReset {
                cause_code: request.cause_code,
                diagnostic_code: request.diagnostic_code,
            },
            VcStateView::WaitClearConfirm(_, ClearInitiatorView::TimeOut(_)) => VcError::TimedOut,
            VcStateView::Cleared(ClearInitiatorView::TimeOut(_), _) => VcError::TimedOut,
            VcStateView::OutOfOrder => VcError::LinkOutOfOrder,
            _ => VcError::InvalidState,
        }
    }

    /// How a clear by the local client has ended; `None` while it has not.
    pub open spec fn clear_outcome(self) -> Option<Result<(), VcError>> {
        match self.state {
            VcStateView::WaitClearConfirm(_, _) => None,
            VcStateView::Cleared(ClearInitiatorView::Local, _) => Some(Ok(())),
            _ => Some(Err(self.failure())),
        }
    }

    /// How a reset by the local client has ended; `None` while it has not.
    pub open spec fn reset_outcome(self) -> Option<Result<(), VcError>> {
        match self.state {
            VcStateView::WaitResetConfirm(_) => None,
            VcStateView::DataTransfer(_) => Some(Ok(())),
            _ => Some(Err(self.failure())),
        }
    }

    /// Whether everything handed over for sending has gone out on a circuit
    /// that is still connected; `None` while it has not and may yet, and an
    /// error once the circuit has ended or where it never was connected.
    pub open spec fn flush_outcome(self) -> Option<Result<(), VcError>> {
        if self.state.is_connected() {
            if self.send_queue.len() == 0 {
                Some(Ok(()))
            } else {
                None
            }
        } else if self.state is WaitClearConfirm {
            None
        } else {
            Some(Err(self.failure()))
        }
    }

    /// What a reader finds when no complete message is queued: `None` while
    /// one may still come, the end of the stream after a clear, or the error
    /// the circuit ended with.
    pub open spec fn end_of_data(self) -> Option<Result<(), VcError>> {
        match self.state {
            VcStateView::DataTransfer(_) => None,
            VcStateView::WaitResetConfirm(_) => None,
            VcStateView::WaitClearConfirm(_, _) => None,
            VcStateView::Cleared(ClearInitiatorView::Local, _) => Some(Ok(())),
            VcStateView::Cleared(ClearInitiatorView::Remote(_), _) => Some(Ok(())),
            _ => Some(Err(self.failure())),
        }
    }
}

} // verus!
