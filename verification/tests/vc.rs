use std::str::FromStr;

use bytes::{Bytes, BytesMut};
use xotpad::x121::X121Addr;
use xotpad::x25::packet::{
    X25CallAccept, X25CallRequest, X25ClearConfirm, X25ClearRequest, X25Data, X25Interrupt,
    X25Packet, X25ReceiveReady, X25ResetConfirm, X25ResetRequest,
};
use xotpad::x25::state::{ClearInitiator, DataTransferState, VcError, VcState};
use xotpad::x25::vc::{elapsed, pop_complete_data, LinkInput, VcEngine};
use xotpad::x25::{Window, X25Facility, X25Modulo, X25Params};

const PAD_PROTOCOL: &[u8] = b"\x01\x00\x00\x00";

fn params() -> X25Params {
    X25Params::with_addr(X121Addr::null())
}

fn call_accept(facilities: Vec<X25Facility>) -> X25Packet {
    X25Packet::CallAccept(X25CallAccept {
        modulo: X25Modulo::Normal,
        channel: 1,
        called_addr: X121Addr::null(),
        calling_addr: X121Addr::null(),
        facilities,
        called_user_data: Bytes::new(),
    })
}

fn clear_request(cause_code: u8, diagnostic_code: u8) -> X25ClearRequest {
    X25ClearRequest {
        modulo: X25Modulo::Normal,
        channel: 1,
        cause_code,
        diagnostic_code,
        called_addr: X121Addr::null(),
        calling_addr: X121Addr::null(),
        facilities: vec![],
        clear_user_data: Bytes::new(),
    }
}

fn clear_confirm() -> X25ClearConfirm {
    X25ClearConfirm {
        modulo: X25Modulo::Normal,
        channel: 1,
        called_addr: X121Addr::null(),
        calling_addr: X121Addr::null(),
        facilities: vec![],
    }
}

fn data(send_seq: u8, recv_seq: u8, more: bool, qualifier: bool, user_data: &[u8]) -> X25Packet {
    X25Packet::Data(X25Data {
        modulo: X25Modulo::Normal,
        channel: 1,
        send_seq,
        recv_seq,
        qualifier,
        delivery: false,
        more,
        user_data: Bytes::copy_from_slice(user_data),
    })
}

fn receive_ready(recv_seq: u8) -> X25Packet {
    X25Packet::ReceiveReady(X25ReceiveReady {
        modulo: X25Modulo::Normal,
        channel: 1,
        recv_seq,
    })
}

fn reset_request(cause_code: u8, diagnostic_code: u8) -> X25Packet {
    X25Packet::ResetRequest(X25ResetRequest {
        modulo: X25Modulo::Normal,
        channel: 1,
        cause_code,
        diagnostic_code,
    })
}

fn reset_confirm() -> X25Packet {
    X25Packet::ResetConfirm(X25ResetConfirm {
        modulo: X25Modulo::Normal,
        channel: 1,
    })
}

fn interrupt() -> X25Packet {
    X25Packet::Interrupt(X25Interrupt {
        modulo: X25Modulo::Normal,
        channel: 1,
        user_data: Bytes::from_static(b"!"),
    })
}

fn connected() -> VcEngine {
    let mut vc = VcEngine::new(1, &params());
    vc.call(&X121Addr::null(), PAD_PROTOCOL, 0).unwrap();
    let (out, _) = vc.handle_in_packet(Some(call_accept(vec![])), 10);
    assert!(out.is_empty());
    assert!(vc.is_connected());
    vc
}

fn transfer_state(vc: &VcEngine) -> DataTransferState {
    match vc.state() {
        VcState::DataTransfer(dt) => *dt,
        other => panic!("not in data transfer: {other:?}"),
    }
}

fn wire(packet: &X25Packet) -> Vec<u8> {
    let mut buf = BytesMut::new();
    packet.encode(&mut buf).unwrap();
    buf.to_vec()
}

#[test]
fn new_circuit_is_ready() {
    let vc = VcEngine::new(7, &params());
    assert_eq!(*vc.state(), VcState::Ready);
    assert_eq!(vc.channel(), 7);
    assert_eq!(vc.params(), params());
    assert!(!vc.is_connected());
    assert!(!vc.is_terminal());
    assert_eq!(vc.send_queue_len(), 0);
    assert_eq!(vc.recv_queue_len(), 0);
    assert_eq!(vc.active_timer(), None);
    assert_eq!(vc.cleared(), None);
    assert_eq!(vc.listen_outcome(), None);
    assert_eq!(vc.request(), None);
}

#[test]
fn successful_call_and_clear() {
    let mut vc = VcEngine::new(1, &params());

    let out = vc.call(&X121Addr::null(), PAD_PROTOCOL, 1000).unwrap();
    assert_eq!(out.len(), 1);
    assert_eq!(
        wire(&out[0]),
        [0x10, 0x01, 0x0b, 0x00, 0x06, 0x42, 0x07, 0x07, 0x43, 0x02, 0x02, 0x01, 0x00, 0x00, 0x00]
    );
    assert_eq!(*vc.state(), VcState::WaitCallAccept(1000));
    assert_eq!(vc.call_outcome(), None);
    assert_eq!(vc.active_timer(), Some((1000, 5000)));

    let (out, timeout) = vc.handle_in_packet(
        Some(call_accept(vec![
            X25Facility::PacketSize {
                from_called: 128,
                from_calling: 128,
            },
            X25Facility::WindowSize {
                from_called: 2,
                from_calling: 2,
            },
        ])),
        1200,
    );
    assert!(out.is_empty());
    assert_eq!(timeout, 100_000_000);
    assert_eq!(vc.call_outcome(), Some(Ok(())));
    assert_eq!(
        transfer_state(&vc),
        DataTransferState {
            modulo: X25Modulo::Normal,
            send_window: Window::new(2, X25Modulo::Normal),
            recv_seq: 0,
        }
    );

    let out = vc.send(Bytes::from_static(b"hi\r"), false).unwrap();
    assert_eq!(out, vec![data(0, 0, false, false, b"hi\r")]);
    assert_eq!(wire(&out[0]), [0x10, 0x01, 0x00, 0x68, 0x69, 0x0d]);
    assert_eq!(vc.flush(), Some(Ok(())));

    let (out, timeout) = vc.handle_in_packet(Some(receive_ready(1)), 1300);
    assert!(out.is_empty());
    assert_eq!(timeout, 100_000_000);
    assert_eq!(transfer_state(&vc).send_window.start, 1);

    let out = vc.clear(0, 0, 2000).unwrap();
    assert_eq!(out, vec![X25Packet::ClearRequest(clear_request(0, 0))]);
    assert_eq!(wire(&out[0]), [0x10, 0x01, 0x13, 0x00, 0x00]);
    assert_eq!(
        *vc.state(),
        VcState::WaitClearConfirm(2000, ClearInitiator::Local)
    );
    assert_eq!(vc.clear_outcome(), None);

    let (out, _) = vc.handle_in_packet(Some(X25Packet::ClearConfirm(clear_confirm())), 2100);
    assert!(out.is_empty());
    assert_eq!(
        *vc.state(),
        VcState::Cleared(ClearInitiator::Local, Some(clear_confirm()))
    );
    assert_eq!(vc.clear_outcome(), Some(Ok(())));
    assert!(vc.is_terminal());
    assert_eq!(vc.recv(), Some(Ok(None)));
}

#[test]
fn call_times_out_after_t21_and_goes_out_of_order_after_t23() {
    let mut vc = VcEngine::new(1, &params());
    vc.call(&X121Addr::null(), PAD_PROTOCOL, 1000).unwrap();

    // Nothing happens while T21 runs; the wait ends when the timer does.
    let (out, timeout) = vc.handle_in_packet(None, 1000);
    assert!(out.is_empty());
    assert_eq!(timeout, 5000);
    let (out, timeout) = vc.handle_in_packet(None, 4000);
    assert!(out.is_empty());
    assert_eq!(timeout, 2000);
    let (out, timeout) = vc.handle_in_packet(None, 6000);
    assert!(out.is_empty());
    assert_eq!(timeout, 0);
    assert_eq!(*vc.state(), VcState::WaitCallAccept(1000));
    assert_eq!(vc.call_outcome(), None);

    // More than T21 has passed.
    let (out, timeout) = vc.handle_in_packet(None, 6001);
    assert_eq!(out, vec![X25Packet::ClearRequest(clear_request(19, 49))]);
    assert_eq!(timeout, 5000);
    assert_eq!(
        *vc.state(),
        VcState::WaitClearConfirm(6001, ClearInitiator::TimeOut(21))
    );
    assert_eq!(vc.call_outcome(), Some(Err(VcError::TimedOut)));

    let (out, timeout) = vc.handle_in_packet(None, 11001);
    assert!(out.is_empty());
    assert_eq!(timeout, 0);
    assert!(!vc.is_terminal());

    let (out, _) = vc.handle_in_packet(None, 11002);
    assert!(out.is_empty());
    assert_eq!(*vc.state(), VcState::OutOfOrder);
    assert_eq!(vc.call_outcome(), Some(Err(VcError::LinkOutOfOrder)));
    assert_eq!(vc.recv(), Some(Err(VcError::LinkOutOfOrder)));
}

#[test]
fn timed_out_call_that_is_confirmed_is_cleared() {
    let mut vc = VcEngine::new(1, &params());
    vc.call(&X121Addr::null(), PAD_PROTOCOL, 0).unwrap();
    vc.handle_in_packet(None, 5001);
    vc.handle_in_packet(Some(X25Packet::ClearConfirm(clear_confirm())), 5100);
    assert_eq!(
        *vc.state(),
        VcState::Cleared(ClearInitiator::TimeOut(21), Some(clear_confirm()))
    );
    assert_eq!(vc.call_outcome(), Some(Err(VcError::TimedOut)));
    assert_eq!(vc.recv(), Some(Err(VcError::TimedOut)));
}

#[test]
fn call_cleared_by_peer_is_reset() {
    let mut vc = VcEngine::new(1, &params());
    vc.call(&X121Addr::null(), PAD_PROTOCOL, 0).unwrap();
    let (out, _) = vc.handle_in_packet(Some(X25Packet::ClearRequest(clear_request(1, 2))), 10);
    assert!(out.is_empty());
    assert_eq!(
        *vc.state(),
        VcState::Cleared(ClearInitiator::Remote(clear_request(1, 2)), None)
    );
    assert_eq!(
        vc.call_outcome(),
        Some(Err(VcError::ConnectionReset {
            cause_code: 1,
            diagnostic_code: 2
        }))
    );
    assert_eq!(vc.cleared(), Some((1, 2)));
}

#[test]
fn call_succeeds_when_data_arrived_before_the_clear() {
    let mut vc = connected();
    let (out, _) = vc.handle_in_packet(Some(data(0, 0, false, false, b"bye")), 20);
    assert_eq!(out, vec![receive_ready(1)]);
    let (out, _) = vc.handle_in_packet(Some(X25Packet::ClearRequest(clear_request(0, 0))), 30);
    assert_eq!(out, vec![X25Packet::ClearConfirm(clear_confirm())]);
    assert!(vc.is_terminal());

    assert_eq!(vc.call_outcome(), Some(Ok(())));
    assert_eq!(
        vc.recv(),
        Some(Ok(Some((Bytes::from_static(b"bye"), false))))
    );
    assert_eq!(
        vc.call_outcome(),
        Some(Err(VcError::ConnectionReset {
            cause_code: 0,
            diagnostic_code: 0
        }))
    );
    assert_eq!(vc.recv(), Some(Ok(None)));
}

#[test]
fn call_is_refused_unless_ready() {
    let mut vc = connected();
    let before = transfer_state(&vc);
    assert_eq!(
        vc.call(&X121Addr::null(), PAD_PROTOCOL, 0),
        Err(VcError::InvalidState)
    );
    assert_eq!(transfer_state(&vc), before);
}

#[test]
fn incoming_call_is_accepted() {
    let mut vc = VcEngine::new(1, &params());
    let request = X25CallRequest {
        modulo: X25Modulo::Normal,
        channel: 1,
        called_addr: X121Addr::from_str("12").unwrap(),
        calling_addr: X121Addr::from_str("34").unwrap(),
        facilities: vec![
            X25Facility::PacketSize {
                from_called: 256,
                from_calling: 512,
            },
            X25Facility::WindowSize {
                from_called: 3,
                from_calling: 4,
            },
        ],
        call_user_data: Bytes::from_static(PAD_PROTOCOL),
    };
    let (out, timeout) = vc.handle_in_packet(Some(X25Packet::CallRequest(request.clone())), 0);
    assert!(out.is_empty());
    assert_eq!(timeout, 100_000_000);
    assert_eq!(*vc.state(), VcState::Called(request.clone()));
    assert_eq!(vc.listen_outcome(), Some(Ok(request.clone())));
    assert_eq!(vc.request(), Some(request));

    let negotiated = vc.params();
    assert_eq!(negotiated.send_packet_size, 256);
    assert_eq!(negotiated.recv_packet_size, 512);
    assert_eq!(negotiated.send_window_size, 3);
    assert_eq!(negotiated.recv_window_size, 4);

    let out = vc.accept().unwrap();
    assert_eq!(
        out,
        vec![X25Packet::CallAccept(X25CallAccept {
            modulo: X25Modulo::Normal,
            channel: 1,
            called_addr: X121Addr::null(),
            calling_addr: X121Addr::null(),
            facilities: vec![
                X25Facility::PacketSize {
                    from_called: 256,
                    from_calling: 512,
                },
                X25Facility::WindowSize {
                    from_called: 3,
                    from_calling: 4,
                },
            ],
            called_user_data: Bytes::new(),
        })]
    );
    assert_eq!(transfer_state(&vc).send_window, Window::new(3, X25Modulo::Normal));
    assert_eq!(vc.accept(), Err(VcError::InvalidState));
}

#[test]
fn incoming_call_is_cleared_without_waiting() {
    let mut vc = VcEngine::new(1, &params());
    assert_eq!(vc.clear_incoming(1, 0), Err(VcError::InvalidState));
    let request = X25CallRequest {
        modulo: X25Modulo::Normal,
        channel: 1,
        called_addr: X121Addr::null(),
        calling_addr: X121Addr::null(),
        facilities: vec![],
        call_user_data: Bytes::new(),
    };
    vc.handle_in_packet(Some(X25Packet::CallRequest(request)), 0);
    let out = vc.clear_incoming(1, 0).unwrap();
    assert_eq!(out, vec![X25Packet::ClearRequest(clear_request(1, 0))]);
    assert_eq!(*vc.state(), VcState::Cleared(ClearInitiator::Local, None));
}

#[test]
fn incoming_call_that_the_peer_gives_up() {
    let mut vc = VcEngine::new(1, &params());
    let request = X25CallRequest {
        modulo: X25Modulo::Normal,
        channel: 1,
        called_addr: X121Addr::null(),
        calling_addr: X121Addr::null(),
        facilities: vec![],
        call_user_data: Bytes::new(),
    };
    vc.handle_in_packet(Some(X25Packet::CallRequest(request)), 0);
    let (out, _) = vc.handle_in_packet(Some(X25Packet::ClearRequest(clear_request(9, 0))), 1);
    assert!(out.is_empty());
    assert_eq!(
        *vc.state(),
        VcState::Cleared(ClearInitiator::Remote(clear_request(9, 0)), None)
    );
    assert_eq!(vc.accept(), Err(VcError::InvalidState));
    assert_eq!(
        vc.listen_outcome(),
        Some(Err(VcError::ConnectionReset {
            cause_code: 9,
            diagnostic_code: 0
        }))
    );
}

#[test]
fn invalid_send_sequence_resets() {
    let mut vc = connected();
    let (out, timeout) = vc.handle_in_packet(Some(data(1, 0, false, false, b"x")), 50);
    assert_eq!(out, vec![reset_request(5, 1)]);
    assert_eq!(timeout, 5000);
    assert_eq!(*vc.state(), VcState::WaitResetConfirm(50));
    assert_eq!(vc.recv_queue_len(), 0);
    assert!(vc.is_connected());
}

#[test]
fn invalid_receive_sequence_resets() {
    let mut vc = connected();
    // Nothing was sent, so the peer cannot acknowledge packet 0.
    let (out, _) = vc.handle_in_packet(Some(data(0, 1, false, false, b"x")), 50);
    assert_eq!(out, vec![reset_request(5, 2)]);
    assert_eq!(*vc.state(), VcState::WaitResetConfirm(50));
    assert_eq!(vc.recv_queue_len(), 0);

    let mut vc = connected();
    let (out, _) = vc.handle_in_packet(Some(receive_ready(3)), 60);
    assert_eq!(out, vec![reset_request(5, 2)]);
    assert_eq!(*vc.state(), VcState::WaitResetConfirm(60));
}

#[test]
fn interrupt_in_data_transfer_resets() {
    let mut vc = connected();
    let (out, _) = vc.handle_in_packet(Some(interrupt()), 50);
    assert_eq!(out, vec![reset_request(5, 0)]);
    assert_eq!(*vc.state(), VcState::WaitResetConfirm(50));
    // While the reset is awaited another interrupt is dropped.
    let (out, _) = vc.handle_in_packet(Some(interrupt()), 60);
    assert!(out.is_empty());
    assert_eq!(*vc.state(), VcState::WaitResetConfirm(50));
}

#[test]
fn reset_collision() {
    let mut vc = connected();
    vc.send(Bytes::from_static(b"a"), false).unwrap();
    vc.handle_in_packet(Some(data(0, 1, false, false, b"b")), 20);
    assert_eq!(transfer_state(&vc).recv_seq, 1);

    let out = vc.reset(0, 0, 100).unwrap();
    assert_eq!(out, vec![reset_request(0, 0)]);
    assert_eq!(*vc.state(), VcState::WaitResetConfirm(100));
    assert_eq!(vc.reset_outcome(), None);

    // The peer's own reset request crosses ours.
    let (out, timeout) = vc.handle_in_packet(Some(reset_request(0, 0)), 110);
    assert_eq!(out, vec![reset_confirm()]);
    assert_eq!(timeout, 100_000_000);
    let dt = transfer_state(&vc);
    assert_eq!(dt.recv_seq, 0);
    assert_eq!((dt.send_window.start, dt.send_window.next), (0, 0));
    assert_eq!(vc.reset_outcome(), Some(Ok(())));
}

#[test]
fn reset_is_confirmed() {
    let mut vc = connected();
    vc.send(Bytes::from_static(b"a"), false).unwrap();
    assert_eq!(transfer_state(&vc).send_window.next, 1);
    vc.reset(0, 0, 100).unwrap();
    let (out, _) = vc.handle_in_packet(Some(reset_confirm()), 110);
    assert!(out.is_empty());
    assert_eq!(
        transfer_state(&vc),
        DataTransferState {
            modulo: X25Modulo::Normal,
            send_window: Window::new(2, X25Modulo::Normal),
            recv_seq: 0,
        }
    );
    assert_eq!(vc.reset(0, 0, 0).map(|out| out.len()), Ok(1));
    assert_eq!(vc.reset(0, 0, 0), Err(VcError::InvalidState));
}

#[test]
fn reset_request_from_peer_is_confirmed() {
    let mut vc = connected();
    vc.send(Bytes::from_static(b"a"), false).unwrap();
    let (out, _) = vc.handle_in_packet(Some(reset_request(7, 0)), 110);
    assert_eq!(out, vec![reset_confirm()]);
    assert_eq!(transfer_state(&vc).send_window.next, 0);
}

#[test]
fn reset_times_out_after_t22() {
    let mut vc = connected();
    vc.reset(0, 0, 100).unwrap();
    let (out, timeout) = vc.handle_in_packet(None, 5100);
    assert!(out.is_empty());
    assert_eq!(timeout, 0);
    assert_eq!(vc.reset_outcome(), None);

    let (out, timeout) = vc.handle_in_packet(None, 5101);
    assert_eq!(out, vec![X25Packet::ClearRequest(clear_request(19, 51))]);
    assert_eq!(timeout, 5000);
    assert_eq!(
        *vc.state(),
        VcState::WaitClearConfirm(5101, ClearInitiator::TimeOut(22))
    );
    assert_eq!(vc.reset_outcome(), Some(Err(VcError::TimedOut)));
}

#[test]
fn clear_times_out_after_t23() {
    let mut vc = connected();
    vc.clear(0, 0, 100).unwrap();
    let (out, timeout) = vc.handle_in_packet(None, 3100);
    assert!(out.is_empty());
    assert_eq!(timeout, 2000);
    assert_eq!(vc.clear_outcome(), None);
    let (out, _) = vc.handle_in_packet(None, 5101);
    assert!(out.is_empty());
    assert_eq!(*vc.state(), VcState::OutOfOrder);
    assert_eq!(vc.clear_outcome(), Some(Err(VcError::LinkOutOfOrder)));
    assert_eq!(vc.clear(0, 0, 0), Err(VcError::InvalidState));
}

#[test]
fn clear_request_from_peer_is_confirmed() {
    let mut vc = connected();
    let (out, _) = vc.handle_in_packet(Some(X25Packet::ClearRequest(clear_request(3, 4))), 10);
    assert_eq!(out, vec![X25Packet::ClearConfirm(clear_confirm())]);
    assert_eq!(
        *vc.state(),
        VcState::Cleared(ClearInitiator::Remote(clear_request(3, 4)), None)
    );
    assert_eq!(vc.cleared(), Some((3, 4)));
    assert_eq!(vc.recv(), Some(Ok(None)));
}

#[test]
fn clear_request_while_a_reset_confirm_is_awaited_is_dropped() {
    let mut vc = connected();
    vc.reset(0, 0, 100).unwrap();
    let (out, timeout) =
        vc.handle_in_packet(Some(X25Packet::ClearRequest(clear_request(3, 4))), 1100);
    assert!(out.is_empty());
    assert_eq!(timeout, 4000);
    assert_eq!(*vc.state(), VcState::WaitResetConfirm(100));
    assert_eq!(vc.cleared(), None);
    assert_eq!(vc.reset_outcome(), None);
}

#[test]
fn wait_after_a_packet_is_what_is_left_of_the_timer() {
    let mut vc = VcEngine::new(1, &params());
    vc.call(&X121Addr::null(), PAD_PROTOCOL, 0).unwrap();
    // A packet of no use, one millisecond before T21 runs out.
    let (out, timeout) = vc.handle_in_packet(Some(receive_ready(0)), 4999);
    assert!(out.is_empty());
    assert_eq!(timeout, 1);
    assert_eq!(*vc.state(), VcState::WaitCallAccept(0));
    // One that comes late leaves no wait: the timer is looked at next.
    let (out, timeout) = vc.handle_in_packet(Some(receive_ready(0)), 7000);
    assert!(out.is_empty());
    assert_eq!(timeout, 0);
    let (out, timeout) = vc.handle_in_packet(None, 7000);
    assert_eq!(out, vec![X25Packet::ClearRequest(clear_request(19, 49))]);
    assert_eq!(timeout, 5000);
    assert_eq!(vc.next_wait(7500), 4500);
    assert_eq!(vc.next_wait(20000), 0);
}

#[test]
fn send_window_is_cut_down_to_the_modulus_less_one() {
    let mut ours = params();
    ours.send_window_size = 100;
    let mut vc = VcEngine::new(1, &ours);
    vc.call(&X121Addr::null(), PAD_PROTOCOL, 0).unwrap();
    vc.handle_in_packet(Some(call_accept(vec![])), 1);
    assert_eq!(transfer_state(&vc).send_window, Window::new(7, X25Modulo::Normal));
    assert_eq!(vc.params().send_window_size, 100);

    // Seven packets fill the window, whatever is queued.
    let out = vc.send(Bytes::from(vec![0u8; 128 * 9]), false).unwrap();
    assert_eq!(out.len(), 7);
    assert_eq!(vc.send_queue_len(), 2);
    assert!(!transfer_state(&vc).send_window.is_open());
    assert_eq!(transfer_state(&vc).send_window.next, 7);
    let (out, _) = vc.handle_in_packet(Some(receive_ready(7)), 2);
    assert_eq!(
        out,
        vec![
            data(7, 0, true, false, &[0u8; 128]),
            data(0, 0, false, false, &[0u8; 128]),
        ]
    );
    let window = transfer_state(&vc).send_window;
    assert_eq!((window.start, window.next), (7, 1));
}

#[test]
fn send_fragments_and_fills_the_window() {
    let mut vc = connected();
    let message: Vec<u8> = (0..300).map(|i| i as u8).collect();

    let out = vc.send(Bytes::from(message.clone()), true).unwrap();
    assert_eq!(
        out,
        vec![
            data(0, 0, true, true, &message[..128]),
            data(1, 0, true, true, &message[128..256]),
        ]
    );
    assert_eq!(vc.send_queue_len(), 1);
    assert_eq!(vc.flush(), None);
    assert!(!transfer_state(&vc).send_window.is_open());

    // One packet is acknowledged: one more goes out.
    let (out, _) = vc.handle_in_packet(Some(receive_ready(1)), 10);
    assert_eq!(out, vec![data(2, 0, false, true, &message[256..])]);
    assert_eq!(vc.send_queue_len(), 0);
    assert_eq!(vc.flush(), Some(Ok(())));

    let (out, _) = vc.handle_in_packet(Some(receive_ready(3)), 20);
    assert!(out.is_empty());
    let dt = transfer_state(&vc);
    assert_eq!((dt.send_window.start, dt.send_window.next), (3, 3));
}

#[test]
fn send_of_a_whole_number_of_packets_ends_without_an_empty_fragment() {
    let mut vc = connected();
    let out = vc.send(Bytes::from(vec![7u8; 256]), false).unwrap();
    assert_eq!(
        out,
        vec![
            data(0, 0, true, false, &[7u8; 128]),
            data(1, 0, false, false, &[7u8; 128]),
        ]
    );
    assert_eq!(vc.send_queue_len(), 0);
}

#[test]
fn send_of_nothing_queues_nothing() {
    let mut vc = connected();
    assert_eq!(vc.send(Bytes::new(), false), Ok(vec![]));
    assert_eq!(vc.send_queue_len(), 0);
}

#[test]
fn send_is_refused_unless_connected() {
    let mut vc = VcEngine::new(1, &params());
    assert_eq!(
        vc.send(Bytes::from_static(b"x"), false),
        Err(VcError::InvalidState)
    );
    assert_eq!(vc.send_queue_len(), 0);

    let mut vc = connected();
    vc.handle_in_packet(Some(X25Packet::ClearRequest(clear_request(0, 0))), 0);
    assert_eq!(
        vc.send(Bytes::from_static(b"x"), false),
        Err(VcError::InvalidState)
    );
    assert_eq!(vc.send_queue_len(), 0);
}

#[test]
fn send_on_a_failed_link_is_out_of_order() {
    let mut vc = connected();
    vc.out_of_order();
    assert_eq!(
        vc.send(Bytes::from_static(b"x"), false),
        Err(VcError::LinkOutOfOrder)
    );
    assert_eq!(vc.send_queue_len(), 0);
    assert_eq!(*vc.state(), VcState::OutOfOrder);
}

#[test]
fn send_while_waiting_for_a_reset_confirm_only_queues() {
    let mut vc = connected();
    vc.reset(0, 0, 0).unwrap();
    assert_eq!(vc.send(Bytes::from_static(b"x"), false), Ok(vec![]));
    assert_eq!(vc.send_queue_len(), 1);
    // Once the reset is confirmed nothing goes out until the next turn.
    let (out, _) = vc.handle_in_packet(Some(reset_confirm()), 1);
    assert!(out.is_empty());
    let (out, _) = vc.handle_in_packet(Some(receive_ready(0)), 2);
    assert_eq!(out, vec![data(0, 0, false, false, b"x")]);
}

#[test]
fn received_data_is_acknowledged_by_data_or_receive_ready() {
    let mut vc = connected();
    // Nothing to send: a receive ready acknowledges.
    let (out, _) = vc.handle_in_packet(Some(data(0, 0, false, false, b"a")), 10);
    assert_eq!(out, vec![receive_ready(1)]);

    // Fill the window, then queue one more.
    vc.send(Bytes::from(vec![1u8; 300]), false).unwrap();
    assert_eq!(vc.send_queue_len(), 1);
    // The peer's data acknowledges one packet: our data carries the
    // acknowledgement, and no receive ready is sent.
    let (out, _) = vc.handle_in_packet(Some(data(1, 1, false, false, b"b")), 20);
    assert_eq!(out, vec![data(2, 2, false, false, &[1u8; 44])]);
    assert_eq!(vc.recv_queue_len(), 2);
}

#[test]
fn recv_puts_fragments_together() {
    let mut vc = connected();
    vc.handle_in_packet(Some(data(0, 0, true, false, b"he")), 1);
    assert_eq!(vc.recv(), None);
    vc.handle_in_packet(Some(data(1, 0, true, true, b"ll")), 2);
    assert_eq!(vc.recv(), None);
    vc.handle_in_packet(Some(data(2, 0, false, true, b"o")), 3);
    vc.handle_in_packet(Some(data(3, 0, false, false, b"!")), 4);
    assert_eq!(vc.recv_queue_len(), 4);

    assert_eq!(
        vc.recv(),
        Some(Ok(Some((Bytes::from_static(b"hello"), true))))
    );
    assert_eq!(vc.recv_queue_len(), 1);
    assert_eq!(vc.recv(), Some(Ok(Some((Bytes::from_static(b"!"), false)))));
    assert_eq!(vc.recv(), None);
}

#[test]
fn messages_in_memory_fit_a_buffer() {
    let mut vc = connected();
    assert!(vc.can_recv());
    vc.handle_in_packet(Some(data(0, 0, true, false, b"he")), 1);
    assert!(vc.can_recv());
    vc.handle_in_packet(Some(data(1, 0, false, false, b"llo")), 2);
    assert!(vc.can_recv());
    assert!(vc.recv().is_some());
    assert!(vc.can_recv());
}

#[test]
fn pop_complete_data_leaves_an_unfinished_message() {
    let mut queue = std::collections::VecDeque::new();
    assert_eq!(pop_complete_data(&mut queue), None);
    let X25Packet::Data(first) = data(0, 0, true, false, b"a") else {
        panic!();
    };
    queue.push_back(first);
    assert_eq!(pop_complete_data(&mut queue), None);
    assert_eq!(queue.len(), 1);
    let X25Packet::Data(second) = data(1, 0, false, true, b"") else {
        panic!();
    };
    queue.push_back(second);
    assert_eq!(
        pop_complete_data(&mut queue),
        Some((Bytes::from_static(b"a"), true))
    );
    assert!(queue.is_empty());
}

#[test]
fn what_is_fragmented_is_put_together_again() {
    let mut sender = connected();
    let mut receiver = connected();
    let message: Vec<u8> = (0..1000).map(|i| (i * 7) as u8).collect();
    let mut packets = sender.send(Bytes::from(message.clone()), true).unwrap();
    let mut now = 0;
    while !packets.is_empty() {
        let mut replies = vec![];
        for packet in packets {
            let (out, _) = receiver.handle_in_packet(Some(packet), now);
            replies.extend(out);
        }
        packets = vec![];
        for reply in replies {
            let (out, _) = sender.handle_in_packet(Some(reply), now);
            packets.extend(out);
        }
        now += 1;
    }
    assert_eq!(sender.flush(), Some(Ok(())));
    assert_eq!(receiver.recv_queue_len(), 8);
    assert_eq!(receiver.recv(), Some(Ok(Some((Bytes::from(message), true)))));
}

#[test]
fn packets_of_no_use_in_a_state_are_dropped() {
    let all = || {
        vec![
            X25Packet::CallRequest(X25CallRequest {
                modulo: X25Modulo::Normal,
                channel: 1,
                called_addr: X121Addr::null(),
                calling_addr: X121Addr::null(),
                facilities: vec![],
                call_user_data: Bytes::new(),
            }),
            call_accept(vec![]),
            X25Packet::ClearRequest(clear_request(0, 0)),
            X25Packet::ClearConfirm(clear_confirm()),
            data(0, 0, false, false, b"x"),
            receive_ready(0),
            reset_request(0, 0),
            reset_confirm(),
            interrupt(),
        ]
    };
    // For each state: the packet types that change it or are answered.
    let cases: Vec<(fn() -> VcEngine, Vec<usize>)> = vec![
        (|| VcEngine::new(1, &params()), vec![0]),
        (
            || {
                let mut vc = VcEngine::new(1, &params());
                vc.call(&X121Addr::null(), b"", 0).unwrap();
                vc
            },
            vec![1, 2],
        ),
        (connected, vec![2, 4, 5, 6, 8]),
        (
            || {
                let mut vc = connected();
                vc.reset(0, 0, 0).unwrap();
                vc
            },
            vec![6, 7],
        ),
        (
            || {
                let mut vc = connected();
                vc.clear(0, 0, 0).unwrap();
                vc
            },
            vec![3],
        ),
        (
            || {
                let mut vc = connected();
                vc.out_of_order();
                vc
            },
            vec![],
        ),
        (
            || {
                let mut vc = connected();
                vc.handle_in_packet(Some(X25Packet::ClearRequest(clear_request(0, 0))), 0);
                vc
            },
            vec![],
        ),
    ];
    for (make, used) in cases {
        for (index, packet) in all().into_iter().enumerate() {
            let mut vc = make();
            let before = format!("{:?}", vc.state());
            let (out, _) = vc.handle_in_packet(Some(packet), 1);
            let after = format!("{:?}", vc.state());
            if used.contains(&index) {
                // A receive ready that acknowledges nothing leaves the state as it is.
                assert!(
                    before != after || !out.is_empty() || index == 5,
                    "{before} + {index}"
                );
            } else {
                assert_eq!(before, after, "packet {index}");
                assert!(out.is_empty(), "{before} + {index}");
            }
        }
    }
}

#[test]
fn run_reads_packets_from_the_link() {
    let mut vc = connected();
    let turn = vc.run(
        LinkInput::Packet(Bytes::from_static(&[0x10, 0x01, 0x00, 0x68, 0x69])),
        5,
    );
    assert_eq!(turn.packets, vec![receive_ready(1)]);
    assert_eq!(turn.timeout, 100_000_000);
    assert!(!turn.done);
    assert_eq!(vc.recv(), Some(Ok(Some((Bytes::from_static(b"hi"), false)))));

    // A packet type that is not handled is dropped.
    let turn = vc.run(LinkInput::Packet(Bytes::from_static(&[0x10, 0x01, 0x27])), 6);
    assert!(turn.packets.is_empty());
    assert!(!turn.done);
    assert!(matches!(vc.state(), VcState::DataTransfer(_)));

    let turn = vc.run(LinkInput::Nothing, 7);
    assert!(turn.packets.is_empty());
    assert_eq!(turn.timeout, 100_000_000);

    // The peer clears: the loop ends.
    let turn = vc.run(
        LinkInput::Packet(Bytes::from_static(&[0x10, 0x01, 0x13, 0x00, 0x00])),
        8,
    );
    assert_eq!(turn.packets, vec![X25Packet::ClearConfirm(clear_confirm())]);
    assert!(turn.done);
}

#[test]
fn run_goes_out_of_order_on_link_failure_and_bad_bytes() {
    let mut vc = connected();
    let turn = vc.run(LinkInput::Failed, 5);
    assert!(turn.packets.is_empty());
    assert!(turn.done);
    assert_eq!(*vc.state(), VcState::OutOfOrder);
    assert_eq!(vc.recv(), Some(Err(VcError::LinkOutOfOrder)));
    assert_eq!(vc.flush(), Some(Err(VcError::LinkOutOfOrder)));

    let mut vc = connected();
    vc.send(Bytes::from(vec![0u8; 600]), false).unwrap();
    let turn = vc.run(LinkInput::Packet(Bytes::from_static(&[0x10])), 5);
    assert!(turn.done);
    assert_eq!(*vc.state(), VcState::OutOfOrder);
    assert_eq!(vc.flush(), Some(Err(VcError::LinkOutOfOrder)));
}

#[test]
fn run_keeps_the_timer_when_a_packet_is_dropped() {
    let mut vc = VcEngine::new(1, &params());
    vc.call(&X121Addr::null(), b"", 0).unwrap();
    let turn = vc.run(LinkInput::Packet(Bytes::from_static(&[0x10, 0x01, 0x27])), 4000);
    assert!(turn.packets.is_empty());
    assert_eq!(turn.timeout, 1000);
    assert!(!turn.done);
    assert_eq!(*vc.state(), VcState::WaitCallAccept(0));
    let turn = vc.run(LinkInput::Packet(Bytes::from_static(&[0x10, 0x01, 0x27])), 9000);
    assert_eq!(turn.timeout, 0);
    assert_eq!(*vc.state(), VcState::WaitCallAccept(0));
}

#[test]
fn flush_fails_once_the_circuit_has_ended() {
    let mut vc = connected();
    assert_eq!(vc.flush(), Some(Ok(())));
    vc.send(Bytes::from(vec![0u8; 600]), false).unwrap();
    assert_eq!(vc.flush(), None);
    vc.handle_in_packet(Some(X25Packet::ClearRequest(clear_request(5, 6))), 0);
    assert_eq!(
        vc.flush(),
        Some(Err(VcError::ConnectionReset {
            cause_code: 5,
            diagnostic_code: 6
        }))
    );

    // With nothing queued too.
    let mut vc = connected();
    vc.handle_in_packet(Some(X25Packet::ClearRequest(clear_request(5, 6))), 0);
    assert_eq!(
        vc.flush(),
        Some(Err(VcError::ConnectionReset {
            cause_code: 5,
            diagnostic_code: 6
        }))
    );

    // While a clear is awaited the outcome is open; then it is an error.
    let mut vc = connected();
    vc.clear(0, 0, 0).unwrap();
    assert_eq!(vc.flush(), None);
    vc.handle_in_packet(Some(X25Packet::ClearConfirm(clear_confirm())), 1);
    assert_eq!(vc.flush(), Some(Err(VcError::InvalidState)));

    assert_eq!(
        VcEngine::new(1, &params()).flush(),
        Some(Err(VcError::InvalidState))
    );
}

#[test]
fn elapsed_is_zero_when_the_clock_reads_earlier() {
    assert_eq!(elapsed(10, 25), 15);
    assert_eq!(elapsed(25, 10), 0);
    assert_eq!(elapsed(0, u64::MAX), u64::MAX);
}

#[test]
fn sequence_numbers_wrap_in_data_transfer() {
    let mut vc = connected();
    for i in 0..20u8 {
        let seq = i % 8;
        let out = vc.send(Bytes::from(vec![i]), false).unwrap();
        assert_eq!(out, vec![data(seq, seq, false, false, &[i])]);
        let (out, _) = vc.handle_in_packet(Some(data(seq, (seq + 1) % 8, false, false, &[i])), 0);
        assert_eq!(out, vec![receive_ready((seq + 1) % 8)]);
        assert_eq!(vc.recv(), Some(Ok(Some((Bytes::from(vec![i]), false)))));
    }
}
