//! Call setup packets and the negotiation of packet and window sizes.
//!
//! Both facilities carry two values named from the called DTE's side. The
//! calling DTE sends with the `from_calling` value and receives with the
//! `from_called` value; the called DTE does the opposite.

use crate::buf::{bytes_copy_from_slice, bytes_new};
use crate::x121::X121Addr;
use crate::x25::facility::X25Facility;
use crate::x25::packet::{
    X25CallAccept, X25CallAcceptView, X25CallRequest, X25CallRequestView,
};
use crate::x25::params::{X25Params, X25ParamsView};
use crate::x25::seq::X25Modulo;
use vstd::prelude::*;

verus! {

/// The values of the first packet-size facility in the list, if there is one.
pub open spec fn spec_get_packet_size(facilities: Seq<X25Facility>) -> Option<(usize, usize)>
    decreases facilities.len(),
{
    if facilities.len() == 0 {
        None
    } else {
        match facilities[0] {
            X25Facility::PacketSize { from_called, from_calling } => Some(
                (from_called, from_calling),
            ),
            _ => spec_get_packet_size(facilities.skip(1)),
        }
    }
}

/// The values of the first window-size facility in the list, if there is one.
pub open spec fn spec_get_window_size(facilities: Seq<X25Facility>) -> Option<(u8, u8)>
    decreases facilities.len(),
{
    if facilities.len() == 0 {
        None
    } else {
        match facilities[0] {
            X25Facility::WindowSize { from_called, from_calling } => Some(
                (from_called, from_calling),
            ),
            _ => spec_get_window_size(facilities.skip(1)),
        }
    }
}

/// A window size cut down to the largest the modulus allows.
pub open spec fn spec_clamp_window_size(size: u8, modulo: X25Modulo) -> u8 {
    if size < modulo.spec_value() {
        size
    } else {
        (modulo.spec_value() - 1) as u8
    }
}

/// The parameters after sizes were negotiated, by the party that sends with
/// the first value of each pair and receives with the second.
pub open spec fn spec_negotiate(
    params: X25ParamsView,
    modulo: X25Modulo,
    packet_size: Option<(usize, usize)>,
    window_size: Option<(u8, u8)>,
) -> X25ParamsView {
    let sized = match packet_size {
        Some((send, recv)) => X25ParamsView {
            modulo,
            send_packet_size: send,
            recv_packet_size: recv,
            ..params
        },
        None => X25ParamsView { modulo, ..params },
    };
    match window_size {
        Some((send, recv)) => X25ParamsView {
            send_window_size: spec_clamp_window_size(send, modulo),
            recv_window_size: spec_clamp_window_size(recv, modulo),
            ..sized
        },
        None => sized,
    }
}

pub open spec fn swap_pair<T>(pair: Option<(T, T)>) -> Option<(T, T)> {
    match pair {
        Some((a, b)) => Some((b, a)),
        None => None,
    }
}

/// What the calling party's parameters become on a call accept.
pub open spec fn spec_negotiate_calling_params(
    call_accept: X25CallAcceptView,
    params: X25ParamsView,
) -> X25ParamsView {
    spec_negotiate(
        params,
        call_accept.modulo,
        swap_pair(spec_get_packet_size(call_accept.facilities)),
        swap_pair(spec_get_window_size(call_accept.facilities)),
    )
}

/// What the called party's parameters become on a call request.
pub open spec fn spec_negotiate_called_params(
    call_request: X25CallRequestView,
    params: X25ParamsView,
) -> X25ParamsView {
    spec_negotiate(
        params,
        call_request.modulo,
        spec_get_packet_size(call_request.facilities),
        spec_get_window_size(call_request.facilities),
    )
}

/// The call request that a party with `params` sends to `addr`.
pub open spec fn spec_create_call_request(
    channel: u16,
    addr: Seq<u8>,
    call_user_data: Seq<u8>,
    params: X25ParamsView,
) -> X25CallRequestView {
    X25CallRequestView {
        modulo: params.modulo,
        channel,
        called_addr: addr,
        calling_addr: params.addr,
        facilities: seq![
            X25Facility::PacketSize {
                from_called: params.recv_packet_size,
                from_calling: params.send_packet_size,
            },
            X25Facility::WindowSize {
                from_called: params.recv_window_size,
                from_calling: params.send_window_size,
            },
        ],
        call_user_data,
    }
}

/// The call accept that a called party with `params` answers with.
pub open spec fn spec_create_call_accept(channel: u16, params: X25ParamsView) -> X25CallAcceptView {
    X25CallAcceptView {
        modulo: params.modulo,
        channel,
        called_addr: Seq::empty(),
        calling_addr: Seq::empty(),
        facilities: seq![
            X25Facility::PacketSize {
                from_called: params.send_packet_size,
                from_calling: params.recv_packet_size,
            },
            X25Facility::WindowSize {
                from_called: params.send_window_size,
                from_calling: params.recv_window_size,
            },
        ],
        called_user_data: Seq::empty(),
    }
}

pub fn create_call_request(
    channel: u16,
    addr: &X121Addr,
    call_user_data: &[u8],
    params: &X25Params,
) -> (request: X25CallRequest)
    ensures
        request@ == spec_create_call_request(channel, addr@, call_user_data@, params@),
{
    let mut facilities: Vec<X25Facility> = Vec::new();
    facilities.push(
        X25Facility::PacketSize {
            from_called: params.recv_packet_size,
            from_calling: params.send_packet_size,
        },
    );
    facilities.push(
        X25Facility::WindowSize {
            from_called: params.recv_window_size,
            from_calling: params.send_window_size,
        },
    );
    let request = X25CallRequest {
        modulo: params.modulo,
        channel,
        called_addr: addr.clone(),
        calling_addr: params.addr.clone(),
        facilities,
        call_user_data: bytes_copy_from_slice(call_user_data),
    };
    proof {
        assert(request@.facilities =~= spec_create_call_request(
            channel,
            addr@,
            call_user_data@,
            params@,
        ).facilities);
    }
    request
}

pub fn create_call_accept(channel: u16, params: &X25Params) -> (accept: X25CallAccept)
    ensures
        accept@ == spec_create_call_accept(channel, params@),
{
    let mut facilities: Vec<X25Facility> = Vec::new();
    facilities.push(
        X25Facility::PacketSize {
            from_called: params.send_packet_size,
            from_calling: params.recv_packet_size,
        },
    );
    facilities.push(
        X25Facility::WindowSize {
            from_called: params.send_window_size,
            from_calling: params.recv_window_size,
        },
    );
    let accept = X25CallAccept {
        modulo: params.modulo,
        channel,
        called_addr: X121Addr::null(),
        calling_addr: X121Addr::null(),
        facilities,
        called_user_data: bytes_new(),
    };
    proof {
        assert(accept@.facilities =~= spec_create_call_accept(channel, params@).facilities);
    }
    accept
}

/// Takes the sizes a call accept carries: we are the calling party.
pub fn negotiate_calling_params(call_accept: &X25CallAccept, params: &X25Params) -> (negotiated:
    X25Params)
    ensures
        negotiated@ == spec_negotiate_calling_params(call_accept@, params@),
{
    let mut negotiated = params.clone();
    negotiated.modulo = call_accept.modulo;
    if let Some((from_called, from_calling)) = get_packet_size(call_accept.facilities.as_slice()) {
        negotiated.send_packet_size = from_calling;
        negotiated.recv_packet_size = from_called;
    }
    if let Some((from_called, from_calling)) = get_window_size(call_accept.facilities.as_slice()) {
        negotiated.send_window_size = clamp_window_size(from_calling, negotiated.modulo);
        negotiated.recv_window_size = clamp_window_size(from_called, negotiated.modulo);
    }
    negotiated
}

/// Takes the sizes a call request carries: we are the called party.
pub fn negotiate_called_params(call_request: &X25CallRequest, params: &X25Params) -> (negotiated:
    X25Params)
    ensures
        negotiated@ == spec_negotiate_called_params(call_request@, params@),
{
    let mut negotiated = params.clone();
    negotiated.modulo = call_request.modulo;
    if let Some((from_called, from_calling)) = get_packet_size(call_request.facilities.as_slice()) {
        negotiated.send_packet_size = from_called;
        negotiated.recv_packet_size = from_calling;
    }
    if let Some((from_called, from_calling)) = get_window_size(call_request.facilities.as_slice()) {
        negotiated.send_window_size = clamp_window_size(from_called, negotiated.modulo);
        negotiated.recv_window_size = clamp_window_size(from_calling, negotiated.modulo);
    }
    negotiated
}

/// The values of the first packet-size facility, if there is one.
pub fn get_packet_size(facilities: &[X25Facility]) -> (sizes: Option<(usize, usize)>)
    ensures
        sizes == spec_get_packet_size(facilities@),
{
    let mut i: usize = 0;
    proof {
        assert(facilities@.skip(0) =~= facilities@);
    }
    while i < facilities.len()
        invariant
            i <= facilities.len(),
            spec_get_packet_size(facilities@) == spec_get_packet_size(facilities@.skip(i as int)),
        decreases facilities.len() - i,
    {
        if let X25Facility::PacketSize { from_called, from_calling } = facilities[i] {
            return Some((from_called, from_calling));
        }
        proof {
            assert(facilities@.skip(i as int).skip(1) =~= facilities@.skip(i as int + 1));
        }
        i += 1;
    }
    None
}

/// The values of the first window-size facility, if there is one.
pub fn get_window_size(facilities: &[X25Facility]) -> (sizes: Option<(u8, u8)>)
    ensures
        sizes == spec_get_window_size(facilities@),
{
    let mut i: usize = 0;
    proof {
        assert(facilities@.skip(0) =~= facilities@);
    }
    while i < facilities.len()
        invariant
            i <= facilities.len(),
            spec_get_window_size(facilities@) == spec_get_window_size(facilities@.skip(i as int)),
        decreases facilities.len() - i,
    {
        if let X25Facility::WindowSize { from_called, from_calling } = facilities[i] {
            return Some((from_called, from_calling));
        }
        proof {
            assert(facilities@.skip(i as int).skip(1) =~= facilities@.skip(i as int + 1));
        }
        i += 1;
    }
    None
}

/// Cuts a window size down to the modulus less one.
pub fn clamp_window_size(size: u8, modulo: X25Modulo) -> (clamped: u8)
    ensures
        clamped == spec_clamp_window_size(size, modulo),
{
    let n: u8 = modulo.value();
    if size < n {
        size
    } else {
        n - 1
    }
}

/// The two ends of one call agree. When the accept carries the packet sizes
/// `(from_called, from_calling)`, the calling party receives with
/// `from_called` and sends with `from_calling`; a called party that takes the
/// same pair from the request sends with `from_called` and receives with
/// `from_calling`. Window sizes go the same way, each cut down to the
/// modulus less one.
pub proof fn lemma_negotiation_symmetric(
    call_request: X25CallRequestView,
    call_accept: X25CallAcceptView,
    calling: X25ParamsView,
    called: X25ParamsView,
)
    requires
        call_request.modulo == call_accept.modulo,
        spec_get_packet_size(call_request.facilities) == spec_get_packet_size(
            call_accept.facilities,
        ),
        spec_get_window_size(call_request.facilities) == spec_get_window_size(
            call_accept.facilities,
        ),
    ensures
        ({
            let caller = spec_negotiate_calling_params(call_accept, calling);
            let callee = spec_negotiate_called_params(call_request, called);
            &&& caller.modulo == callee.modulo
            &&& match spec_get_packet_size(call_accept.facilities) {
                Some((from_called, from_calling)) => {
                    &&& caller.recv_packet_size == from_called
                    &&& caller.send_packet_size == from_calling
                    &&& callee.send_packet_size == from_called
                    &&& callee.recv_packet_size == from_calling
                },
                None => {
                    &&& caller.send_packet_size == calling.send_packet_size
                    &&& caller.recv_packet_size == calling.recv_packet_size
                    &&& callee.send_packet_size == called.send_packet_size
                    &&& callee.recv_packet_size == called.recv_packet_size
                },
            }
            &&& spec_get_window_size(call_accept.facilities) is Some ==> {
                &&& caller.send_window_size == callee.recv_window_size
                &&& caller.recv_window_size == callee.send_window_size
            }
        }),
{
}

} // verus!
