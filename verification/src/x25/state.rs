//! States of a virtual circuit and the mathematical model of the engine.

use crate::buf::bytes_seq;
use crate::x25::packet::{
    X25CallRequest, X25CallRequestView, X25ClearConfirm, X25ClearConfirmView, X25ClearRequest,
    X25ClearRequestView, X25Data, X25DataView,
};
use crate::x25::negotiate::spec_clamp_window_size;
use crate::x25::params::X25ParamsView;
use crate::x25::seq::{next_seq, spec_next_seq, Window, X25Modulo};
use bytes::Bytes;
use vstd::prelude::*;

verus! {

/// Who started the clearing of a call.
#[derive(Debug, PartialEq)]
pub enum ClearInitiator {
    Local,
    Remote(X25ClearRequest),
    /// The protection timer of that number ran out.
    TimeOut(u8),
}

pub ghost enum ClearInitiatorView {
    Local,
    Remote(X25ClearRequestView),
    TimeOut(u8),
}

impl View for ClearInitiator {
    type V = ClearInitiatorView;

    open spec fn view(&self) -> ClearInitiatorView {
        match self {
            ClearInitiator::Local => ClearInitiatorView::Local,
            ClearInitiator::Remote(request) => ClearInitiatorView::Remote(request@),
            ClearInitiator::TimeOut(timer) => ClearInitiatorView::TimeOut(*timer),
        }
    }
}

/// Sequence state of a circuit in data transfer.
#[derive(Clone, Copy, Debug, PartialEq, Eq, Structural)]
pub struct DataTransferState {
    pub modulo: X25Modulo,
    pub send_window: Window,
    /// The send sequence number expected on the next data packet received.
    pub recv_seq: u8,
}

impl DataTransferState {
    pub open spec fn wf(self) -> bool {
        &&& self.send_window.wf()
        &&& self.send_window.modulo == self.modulo
        &&& self.recv_seq < self.modulo.spec_value()
    }

    /// The state on entering data transfer: sequence numbers at zero and
    /// an empty window of the negotiated size, cut down to the modulus less
    /// one.
    pub open spec fn initial(params: X25ParamsView) -> DataTransferState {
        DataTransferState {
            modulo: params.modulo,
            send_window: Window::spec_new(
                spec_clamp_window_size(params.send_window_size, params.modulo),
                params.modulo,
            ),
            recv_seq: 0,
        }
    }

    /// The window is smaller than the modulus and holds no more packets in
    /// flight than its size.
    pub open spec fn window_bounded(self) -> bool {
        &&& self.send_window.size < self.modulo.spec_value()
        &&& self.send_window.in_flight() <= self.send_window.size
    }

    /// The state after a data packet numbered `seq` arrived in sequence.
    pub open spec fn spec_update_recv_seq(self, seq: u8) -> DataTransferState {
        if seq == self.recv_seq {
            DataTransferState { recv_seq: spec_next_seq(seq, self.modulo) as u8, ..self }
        } else {
            self
        }
    }

    /// The state after the peer acknowledged up to `seq`.
    pub open spec fn spec_update_send_window(self, seq: u8) -> DataTransferState {
        DataTransferState { send_window: self.send_window.spec_update_start(seq), ..self }
    }

    /// Checks the send sequence number of a received data packet. When it is
    /// the expected one, expects its successor from now on.
    #[must_use]
    pub fn update_recv_seq(&mut self, seq: u8) -> (ok: bool)
        requires
            old(self).wf(),
        ensures
            ok == (seq == old(self).recv_seq),
            *final(self) == old(self).spec_update_recv_seq(seq),
            final(self).wf(),
    {
        if seq != self.recv_seq {
            return false;
        }
        self.recv_seq = next_seq(seq, self.modulo);
        true
    }

    /// Takes the receive sequence number of a received packet as an
    /// acknowledgement of what was sent.
    #[must_use]
    pub fn update_send_window(&mut self, seq: u8) -> (ok: bool)
        requires
            old(self).wf(),
        ensures
            ok == old(self).send_window.acknowledges(seq),
            *final(self) == old(self).spec_update_send_window(seq),
            final(self).wf(),
    {
        self.send_window.update_start(seq)
    }
}

/// State of a virtual circuit. Times are in milliseconds on the caller's
/// monotonic clock.
#[derive(Debug, PartialEq)]
pub enum VcState {
    Ready,
    /// A call request was sent at the given time.
    WaitCallAccept(u64),
    DataTransfer(DataTransferState),
    /// A reset request was sent at the given time.
    WaitResetConfirm(u64),
    /// A clear request was sent at the given time.
    WaitClearConfirm(u64, ClearInitiator),
    /// A call request arrived and waits to be accepted or cleared.
    Called(X25CallRequest),
    Cleared(ClearInitiator, Option<X25ClearConfirm>),
    OutOfOrder,
}

pub ghost enum VcStateView {
    Ready,
    WaitCallAccept(u64),
    DataTransfer(DataTransferState),
    WaitResetConfirm(u64),
    WaitClearConfirm(u64, ClearInitiatorView),
    Called(X25CallRequestView),
    Cleared(ClearInitiatorView, Option<X25ClearConfirmView>),
    OutOfOrder,
}

pub open spec fn clear_confirm_view(confirm: Option<X25ClearConfirm>) -> Option<
    X25ClearConfirmView,
> {
    match confirm {
        Some(c) => Some(c@),
        None => None,
    }
}

impl View for VcState {
    type V = VcStateView;

    open spec fn view(&self) -> VcStateView {
        match self {
            VcState::Ready => VcStateView::Ready,
            VcState::WaitCallAccept(start) => VcStateView::WaitCallAccept(*start),
            VcState::DataTransfer(dt) => VcStateView::DataTransfer(*dt),
            VcState::WaitResetConfirm(start) => VcStateView::WaitResetConfirm(*start),
            VcState::WaitClearConfirm(start, initiator) => VcStateView::WaitClearConfirm(
                *start,
                initiator@,
            ),
            VcState::Called(request) => VcStateView::Called(request@),
            VcState::Cleared(initiator, confirm) => VcStateView::Cleared(
                initiator@,
                clear_confirm_view(*confirm),
            ),
            VcState::OutOfOrder => VcStateView::OutOfOrder,
        }
    }
}

impl VcStateView {
    /// Data can be exchanged, or will be again once a reset is confirmed.
    pub open spec fn is_connected(self) -> bool {
        self is DataTransfer || self is WaitResetConfirm
    }

    /// The circuit has ended; no input changes the state any more.
    pub open spec fn is_terminal(self) -> bool {
        self is Cleared || self is OutOfOrder
    }

    /// In data transfer the sequence numbers lie on the ring, and the
    /// window is smaller than the modulus and not overfull.
    pub open spec fn wf(self) -> bool {
        self is DataTransfer ==> self->DataTransfer_0.wf()
            && self->DataTransfer_0.window_bounded()
    }
}

impl VcState {
    pub fn is_connected(&self) -> (connected: bool)
        ensures
            connected == self@.is_connected(),
    {
        match self {
            VcState::DataTransfer(_) => true,
            VcState::WaitResetConfirm(_) => true,
            _ => false,
        }
    }

    pub fn is_terminal(&self) -> (terminal: bool)
        ensures
            terminal == self@.is_terminal(),
    {
        match self {
            VcState::Cleared(_, _) => true,
            VcState::OutOfOrder => true,
            _ => false,
        }
    }
}

/// A fragment of a message queued for sending.
#[derive(Debug, PartialEq)]
pub struct SendData {
    pub user_data: Bytes,
    pub qualifier: bool,
    /// Whether another fragment of the same message follows.
    pub more: bool,
}

pub ghost struct SendDataView {
    pub user_data: Seq<u8>,
    pub qualifier: bool,
    pub more: bool,
}

impl View for SendData {
    type V = SendDataView;

    open spec fn view(&self) -> SendDataView {
        SendDataView {
            user_data: bytes_seq(self.user_data),
            qualifier: self.qualifier,
            more: self.more,
        }
    }
}

/// The views of the fragments in a send queue, front first.
pub open spec fn send_views(queue: Seq<SendData>) -> Seq<SendDataView> {
    queue.map_values(|d: SendData| d@)
}

/// The views of the data packets in a receive queue, front first.
pub open spec fn data_views(queue: Seq<X25Data>) -> Seq<X25DataView> {
    queue.map_values(|d: X25Data| d@)
}

/// What a client operation on a circuit can fail with.
#[derive(Clone, Copy, Debug, PartialEq, Eq, Structural)]
pub enum VcError {
    /// The operation is not accepted in the circuit's state.
    InvalidState,
    /// The peer cleared the call.
    ConnectionReset { cause_code: u8, diagnostic_code: u8 },
    /// A protection timer ran out.
    TimedOut,
    /// The link failed.
    LinkOutOfOrder,
}

} // verus!
