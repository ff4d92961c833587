use std::str::FromStr;

use bytes::Bytes;
use xotpad::x121::X121Addr;
use xotpad::x25::negotiate::{
    clamp_window_size, create_call_accept, create_call_request, get_packet_size, get_window_size,
    negotiate_called_params, negotiate_calling_params,
};
use xotpad::x25::packet::{X25CallAccept, X25CallRequest};
use xotpad::x25::{X25Facility, X25Modulo, X25Params};

fn accept_with(facilities: Vec<X25Facility>, modulo: X25Modulo) -> X25CallAccept {
    X25CallAccept {
        modulo,
        channel: 1,
        called_addr: X121Addr::null(),
        calling_addr: X121Addr::null(),
        facilities,
        called_user_data: Bytes::new(),
    }
}

fn request_with(facilities: Vec<X25Facility>, modulo: X25Modulo) -> X25CallRequest {
    X25CallRequest {
        modulo,
        channel: 1,
        called_addr: X121Addr::null(),
        calling_addr: X121Addr::null(),
        facilities,
        call_user_data: Bytes::new(),
    }
}

#[test]
fn default_params() {
    let params = X25Params::with_addr(X121Addr::null());
    assert!(params.addr.is_null());
    assert_eq!(params.modulo, X25Modulo::Normal);
    assert_eq!((params.send_packet_size, params.recv_packet_size), (128, 128));
    assert_eq!((params.send_window_size, params.recv_window_size), (2, 2));
    assert_eq!((params.t21, params.t22, params.t23), (5000, 5000, 5000));
    assert!(params.is_valid());
}

#[test]
fn params_validity() {
    let mut params = X25Params::with_addr(X121Addr::null());
    params.send_packet_size = 100;
    assert!(!params.is_valid());
    params.send_packet_size = 4096;
    assert!(params.is_valid());
    params.recv_packet_size = 8;
    assert!(!params.is_valid());
    params.recv_packet_size = 16;
    params.send_window_size = 8;
    assert!(!params.is_valid());
    params.modulo = X25Modulo::Extended;
    assert!(params.is_valid());
    params.recv_window_size = 0;
    assert!(!params.is_valid());
}

#[test]
fn negotiation_is_symmetric() {
    let facilities = vec![
        X25Facility::PacketSize {
            from_called: 256,
            from_calling: 512,
        },
        X25Facility::WindowSize {
            from_called: 3,
            from_calling: 5,
        },
    ];
    let ours = X25Params::with_addr(X121Addr::from_str("1").unwrap());

    let caller = negotiate_calling_params(&accept_with(facilities.clone(), X25Modulo::Normal), &ours);
    assert_eq!(caller.recv_packet_size, 256);
    assert_eq!(caller.send_packet_size, 512);
    assert_eq!(caller.recv_window_size, 3);
    assert_eq!(caller.send_window_size, 5);
    assert_eq!(caller.addr, ours.addr);
    assert_eq!((caller.t21, caller.t22, caller.t23), (5000, 5000, 5000));

    let callee = negotiate_called_params(&request_with(facilities, X25Modulo::Normal), &ours);
    assert_eq!(callee.send_packet_size, 256);
    assert_eq!(callee.recv_packet_size, 512);
    assert_eq!(callee.send_window_size, 3);
    assert_eq!(callee.recv_window_size, 5);
}

#[test]
fn negotiation_without_facilities_keeps_sizes_and_takes_modulo() {
    let ours = X25Params::with_addr(X121Addr::null());
    let caller = negotiate_calling_params(&accept_with(vec![], X25Modulo::Extended), &ours);
    assert_eq!(caller.modulo, X25Modulo::Extended);
    assert_eq!((caller.send_packet_size, caller.recv_packet_size), (128, 128));
    assert_eq!((caller.send_window_size, caller.recv_window_size), (2, 2));
}

#[test]
fn negotiation_clamps_window_sizes() {
    let facilities = vec![X25Facility::WindowSize {
        from_called: 100,
        from_calling: 7,
    }];
    let ours = X25Params::with_addr(X121Addr::null());
    let callee = negotiate_called_params(&request_with(facilities.clone(), X25Modulo::Normal), &ours);
    assert_eq!(callee.send_window_size, 7);
    assert_eq!(callee.recv_window_size, 7);
    let callee = negotiate_called_params(&request_with(facilities, X25Modulo::Extended), &ours);
    assert_eq!(callee.send_window_size, 100);
    assert_eq!(callee.recv_window_size, 7);

    assert_eq!(clamp_window_size(8, X25Modulo::Normal), 7);
    assert_eq!(clamp_window_size(7, X25Modulo::Normal), 7);
    assert_eq!(clamp_window_size(0, X25Modulo::Normal), 0);
    assert_eq!(clamp_window_size(255, X25Modulo::Extended), 127);
    assert_eq!(clamp_window_size(127, X25Modulo::Extended), 127);
}

#[test]
fn first_facility_of_a_kind_counts() {
    let facilities = [
        X25Facility::WindowSize {
            from_called: 1,
            from_calling: 2,
        },
        X25Facility::PacketSize {
            from_called: 16,
            from_calling: 32,
        },
        X25Facility::PacketSize {
            from_called: 64,
            from_calling: 128,
        },
        X25Facility::WindowSize {
            from_called: 3,
            from_calling: 4,
        },
    ];
    assert_eq!(get_packet_size(&facilities), Some((16, 32)));
    assert_eq!(get_window_size(&facilities), Some((1, 2)));
    assert_eq!(get_packet_size(&facilities[..1]), None);
    assert_eq!(get_window_size(&facilities[1..3]), None);
    assert_eq!(get_packet_size(&[]), None);
}

#[test]
fn call_packets_carry_sizes_from_the_called_side() {
    let mut params = X25Params::with_addr(X121Addr::from_str("12").unwrap());
    params.send_packet_size = 256;
    params.recv_packet_size = 512;
    params.send_window_size = 3;
    params.recv_window_size = 4;
    let addr = X121Addr::from_str("34").unwrap();

    let request = create_call_request(5, &addr, b"\x01\x00\x00\x00", &params);
    assert_eq!(
        request,
        X25CallRequest {
            modulo: X25Modulo::Normal,
            channel: 5,
            called_addr: addr,
            calling_addr: X121Addr::from_str("12").unwrap(),
            facilities: vec![
                X25Facility::PacketSize {
                    from_called: 512,
                    from_calling: 256,
                },
                X25Facility::WindowSize {
                    from_called: 4,
                    from_calling: 3,
                },
            ],
            call_user_data: Bytes::from_static(b"\x01\x00\x00\x00"),
        }
    );

    let accept = create_call_accept(5, &params);
    assert_eq!(
        accept,
        X25CallAccept {
            modulo: X25Modulo::Normal,
            channel: 5,
            called_addr: X121Addr::null(),
            calling_addr: X121Addr::null(),
            facilities: vec![
                X25Facility::PacketSize {
                    from_called: 256,
                    from_calling: 512,
                },
                X25Facility::WindowSize {
                    from_called: 3,
                    from_calling: 4,
                },
            ],
            called_user_data: Bytes::new(),
        }
    );

    // The other side takes from the request what we send with.
    let theirs = negotiate_called_params(&request, &X25Params::with_addr(X121Addr::null()));
    assert_eq!(theirs.recv_packet_size, params.send_packet_size);
    assert_eq!(theirs.send_packet_size, params.recv_packet_size);
    assert_eq!(theirs.recv_window_size, params.send_window_size);
    assert_eq!(theirs.send_window_size, params.recv_window_size);
}
