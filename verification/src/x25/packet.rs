//! X.25 packets and their mathematical models.
//!
//! Each packet type has a view in which addresses are digit sequences and
//! user data is a byte sequence. Contracts speak of the views.

use crate::buf::{bytes_clone, bytes_seq};
use crate::x121::X121Addr;
use crate::x25::facility::X25Facility;
use crate::x25::seq::X25Modulo;
use bytes::Bytes;
use vstd::prelude::*;

verus! {

#[derive(Debug, PartialEq)]
pub struct X25CallRequest {
    pub modulo: X25Modulo,
    pub channel: u16,
    pub called_addr: X121Addr,
    pub calling_addr: X121Addr,
    pub facilities: Vec<X25Facility>,
    pub call_user_data: Bytes,
}

pub ghost struct X25CallRequestView {
    pub modulo: X25Modulo,
    pub channel: u16,
    pub called_addr: Seq<u8>,
    pub calling_addr: Seq<u8>,
    pub facilities: Seq<X25Facility>,
    pub call_user_data: Seq<u8>,
}

impl View for X25CallRequest {
    type V = X25CallRequestView;

    open spec fn view(&self) -> X25CallRequestView {
        X25CallRequestView {
            modulo: self.modulo,
            channel: self.channel,
            called_addr: self.called_addr@,
            calling_addr: self.calling_addr@,
            facilities: self.facilities@,
            call_user_data: bytes_seq(self.call_user_data),
        }
    }
}

impl Clone for X25CallRequest {
    fn clone(&self) -> (copy: Self)
        ensures
            copy@ == self@,
    {
        X25CallRequest {
            modulo: self.modulo,
            channel: self.channel,
            called_addr: self.called_addr.clone(),
            calling_addr: self.calling_addr.clone(),
            facilities: self.facilities.clone(),
            call_user_data: bytes_clone(&self.call_user_data),
        }
    }
}

#[derive(Debug, PartialEq)]
pub struct X25CallAccept {
    pub modulo: X25Modulo,
    pub channel: u16,
    pub called_addr: X121Addr,
    pub calling_addr: X121Addr,
    pub facilities: Vec<X25Facility>,
    pub called_user_data: Bytes,
}

pub ghost struct X25CallAcceptView {
    pub modulo: X25Modulo,
    pub channel: u16,
    pub called_addr: Seq<u8>,
    pub calling_addr: Seq<u8>,
    pub facilities: Seq<X25Facility>,
    pub called_user_data: Seq<u8>,
}

impl View for X25CallAccept {
    type V = X25CallAcceptView;

    open spec fn view(&self) -> X25CallAcceptView {
        X25CallAcceptView {
            modulo: self.modulo,
            channel: self.channel,
            called_addr: self.called_addr@,
            calling_addr: self.calling_addr@,
            facilities: self.facilities@,
            called_user_data: bytes_seq(self.called_user_data),
        }
    }
}

#[derive(Debug, PartialEq)]
pub struct X25ClearRequest {
    pub modulo: X25Modulo,
    pub channel: u16,
    pub cause_code: u8,
    pub diagnostic_code: u8,
    pub called_addr: X121Addr,
    pub calling_addr: X121Addr,
    pub facilities: Vec<X25Facility>,
    pub clear_user_data: Bytes,
}

pub ghost struct X25ClearRequestView {
    pub modulo: X25Modulo,
    pub channel: u16,
    pub cause_code: u8,
    pub diagnostic_code: u8,
    pub called_addr: Seq<u8>,
    pub calling_addr: Seq<u8>,
    pub facilities: Seq<X25Facility>,
    pub clear_user_data: Seq<u8>,
}

impl View for X25ClearRequest {
    type V = X25ClearRequestView;

    open spec fn view(&self) -> X25ClearRequestView {
        X25ClearRequestView {
            modulo: self.modulo,
            channel: self.channel,
            cause_code: self.cause_code,
            diagnostic_code: self.diagnostic_code,
            called_addr: self.called_addr@,
            calling_addr: self.calling_addr@,
            facilities: self.facilities@,
            clear_user_data: bytes_seq(self.clear_user_data),
        }
    }
}

impl Clone for X25ClearRequest {
    fn clone(&self) -> (copy: Self)
        ensures
            copy@ == self@,
    {
        X25ClearRequest {
            modulo: self.modulo,
            channel: self.channel,
            cause_code: self.cause_code,
            diagnostic_code: self.diagnostic_code,
            called_addr: self.called_addr.clone(),
            calling_addr: self.calling_addr.clone(),
            facilities: self.facilities.clone(),
            clear_user_data: bytes_clone(&self.clear_user_data),
        }
    }
}

#[derive(Debug, PartialEq)]
pub struct X25ClearConfirm {
    pub modulo: X25Modulo,
    pub channel: u16,
    pub called_addr: X121Addr,
    pub calling_addr: X121Addr,
    pub facilities: Vec<X25Facility>,
}

pub ghost struct X25ClearConfirmView {
    pub modulo: X25Modulo,
    pub channel: u16,
    pub called_addr: Seq<u8>,
    pub calling_addr: Seq<u8>,
    pub facilities: Seq<X25Facility>,
}

impl View for X25ClearConfirm {
    type V = X25ClearConfirmView;

    open spec fn view(&self) -> X25ClearConfirmView {
        X25ClearConfirmView {
            modulo: self.modulo,
            channel: self.channel,
            called_addr: self.called_addr@,
            calling_addr: self.calling_addr@,
            facilities: self.facilities@,
        }
    }
}

#[derive(Debug, PartialEq)]
pub struct X25Data {
    pub modulo: X25Modulo,
    pub channel: u16,
    pub send_seq: u8,
    pub recv_seq: u8,
    pub qualifier: bool,
    pub delivery: bool,
    pub more: bool,
    pub user_data: Bytes,
}

pub ghost struct X25DataView {
    pub modulo: X25Modulo,
    pub channel: u16,
    pub send_seq: u8,
    pub recv_seq: u8,
    pub qualifier: bool,
    pub delivery: bool,
    pub more: bool,
    pub user_data: Seq<u8>,
}

impl View for X25Data {
    type V = X25DataView;

    open spec fn view(&self) -> X25DataView {
        X25DataView {
            modulo: self.modulo,
            channel: self.channel,
            send_seq: self.send_seq,
            recv_seq: self.recv_seq,
            qualifier: self.qualifier,
            delivery: self.delivery,
            more: self.more,
            user_data: bytes_seq(self.user_data),
        }
    }
}

#[derive(Debug, PartialEq)]
pub struct X25Interrupt {
    pub modulo: X25Modulo,
    pub channel: u16,
    pub user_data: Bytes,
}

pub ghost struct X25InterruptView {
    pub modulo: X25Modulo,
    pub channel: u16,
    pub user_data: Seq<u8>,
}

impl View for X25Interrupt {
    type V = X25InterruptView;

    open spec fn view(&self) -> X25InterruptView {
        X25InterruptView {
            modulo: self.modulo,
            channel: self.channel,
            user_data: bytes_seq(self.user_data),
        }
    }
}

#[derive(Clone, Copy, Debug, PartialEq, Eq, Structural)]
pub struct X25ReceiveReady {
    pub modulo: X25Modulo,
    pub channel: u16,
    pub recv_seq: u8,
}

#[derive(Clone, Copy, Debug, PartialEq, Eq, Structural)]
pub struct X25ResetRequest {
    pub modulo: X25Modulo,
    pub channel: u16,
    pub cause_code: u8,
    pub diagnostic_code: u8,
}

#[derive(Clone, Copy, Debug, PartialEq, Eq, Structural)]
pub struct X25ResetConfirm {
    pub modulo: X25Modulo,
    pub channel: u16,
}

/// A packet of one of the types that the virtual circuit engine looks at.
#[derive(Debug, PartialEq)]
pub enum X25Packet {
    CallRequest(X25CallRequest),
    CallAccept(X25CallAccept),
    ClearRequest(X25ClearRequest),
    ClearConfirm(X25ClearConfirm),
    Data(X25Data),
    ReceiveReady(X25ReceiveReady),
    ResetRequest(X25ResetRequest),
    ResetConfirm(X25ResetConfirm),
    Interrupt(X25Interrupt),
}

pub ghost enum X25PacketView {
    CallRequest(X25CallRequestView),
    CallAccept(X25CallAcceptView),
    ClearRequest(X25ClearRequestView),
    ClearConfirm(X25ClearConfirmView),
    Data(X25DataView),
    ReceiveReady(X25ReceiveReady),
    ResetRequest(X25ResetRequest),
    ResetConfirm(X25ResetConfirm),
    Interrupt(X25InterruptView),
}

impl View for X25Packet {
    type V = X25PacketView;

    open spec fn view(&self) -> X25PacketView {
        match self {
            X25Packet::CallRequest(p) => X25PacketView::CallRequest(p@),
            X25Packet::CallAccept(p) => X25PacketView::CallAccept(p@),
            X25Packet::ClearRequest(p) => X25PacketView::ClearRequest(p@),
            X25Packet::ClearConfirm(p) => X25PacketView::ClearConfirm(p@),
            X25Packet::Data(p) => X25PacketView::Data(p@),
            X25Packet::ReceiveReady(p) => X25PacketView::ReceiveReady(*p),
            X25Packet::ResetRequest(p) => X25PacketView::ResetRequest(*p),
            X25Packet::ResetConfirm(p) => X25PacketView::ResetConfirm(*p),
            X25Packet::Interrupt(p) => X25PacketView::Interrupt(p@),
        }
    }
}

/// The views of a sequence of packets, in order.
pub open spec fn packet_views(packets: Seq<X25Packet>) -> Seq<X25PacketView> {
    packets.map_values(|p: X25Packet| p@)
}

} // verus!
