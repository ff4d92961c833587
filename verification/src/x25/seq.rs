//! Sequence numbers and the sliding send window.

use vstd::prelude::*;

verus! {

/// Sequence numbering scheme of a virtual circuit.
#[derive(Clone, Copy, Debug, PartialEq, Eq, Structural)]
pub enum X25Modulo {
    /// Sequence numbers 0 to 7.
    Normal,
    /// Sequence numbers 0 to 127.
    Extended,
}

impl X25Modulo {
    /// The modulus as a number: 8 or 128.
    pub open spec fn spec_value(self) -> int {
        match self {
            X25Modulo::Normal => 8,
            X25Modulo::Extended => 128,
        }
    }

    /// The modulus as a number: 8 or 128.
    pub fn value(self) -> (n: u8)
        ensures
            n == self.spec_value(),
    {
        match self {
            X25Modulo::Normal => 8,
            X25Modulo::Extended => 128,
        }
    }
}

/// Distance from `from` forward to `to` on a ring of `n` sequence numbers,
/// both taken in `0..n`: `(to - from) mod n`.
pub open spec fn seq_distance(from: int, to: int, n: int) -> int {
    if to >= from {
        to - from
    } else {
        to - from + n
    }
}

/// The number `k` steps after `from` on a ring of `n` sequence numbers, for
/// `from` in `0..n` and `k` in `0..=n`: `(from + k) mod n`.
pub open spec fn seq_advance(from: int, k: int, n: int) -> int {
    if from + k >= n {
        from + k - n
    } else {
        from + k
    }
}

/// The sequence number that follows `seq`: `(seq + 1) mod n`.
pub open spec fn spec_next_seq(seq: u8, modulo: X25Modulo) -> int {
    if seq < modulo.spec_value() {
        seq_advance(seq as int, 1, modulo.spec_value())
    } else {
        (seq + 1) % modulo.spec_value()
    }
}

/// On the ring the case-wise definitions are the residues they stand for.
pub proof fn lemma_seq_arithmetic_is_modular(from: int, to: int, k: int, modulo: X25Modulo)
    requires
        0 <= from < modulo.spec_value(),
        0 <= to < modulo.spec_value(),
        0 <= k < modulo.spec_value(),
    ensures
        seq_distance(from, to, modulo.spec_value()) == (to - from) % modulo.spec_value(),
        seq_advance(from, k, modulo.spec_value()) == (from + k) % modulo.spec_value(),
{
    match modulo {
        X25Modulo::Normal => {
            assert(seq_distance(from, to, 8) == (to - from) % 8);
            assert(seq_advance(from, k, 8) == (from + k) % 8);
        },
        X25Modulo::Extended => {
            assert(seq_distance(from, to, 128) == (to - from) % 128);
            assert(seq_advance(from, k, 128) == (from + k) % 128);
        },
    }
}

/// The sequence number that follows `seq`, wrapping at the modulus.
pub fn next_seq(seq: u8, modulo: X25Modulo) -> (next: u8)
    ensures
        next == spec_next_seq(seq, modulo),
        next == (seq + 1) % modulo.spec_value(),
        next < modulo.spec_value(),
{
    match modulo {
        X25Modulo::Normal => {
            if seq % 8 == 7 {
                0
            } else {
                seq % 8 + 1
            }
        },
        X25Modulo::Extended => {
            if seq % 128 == 127 {
                0
            } else {
                seq % 128 + 1
            }
        },
    }
}

/// Send window: the sequence numbers that may be in flight.
///
/// `start` is the oldest unacknowledged sequence number, `next` the number
/// the next data packet will carry. The window is open while fewer than
/// `size` packets are in flight.
#[derive(Clone, Copy, Debug, PartialEq, Eq, Structural)]
pub struct Window {
    pub start: u8,
    pub size: u8,
    pub modulo: X25Modulo,
    pub next: u8,
}

impl Window {
    /// Number of packets sent and not yet acknowledged.
    pub open spec fn in_flight(self) -> int {
        seq_distance(self.start as int, self.next as int, self.modulo.spec_value())
    }

    /// Both ends lie on the ring.
    pub open spec fn wf(self) -> bool {
        &&& self.start < self.modulo.spec_value()
        &&& self.next < self.modulo.spec_value()
    }

    pub open spec fn spec_new(size: u8, modulo: X25Modulo) -> Window {
        Window { start: 0, size, modulo, next: 0 }
    }

    pub open spec fn spec_is_open(self) -> bool {
        self.in_flight() < self.size
    }

    /// The window after one more packet was sent.
    pub open spec fn spec_incr(self) -> Window {
        Window { next: spec_next_seq(self.next, self.modulo) as u8, ..self }
    }

    /// Whether `seq` acknowledges zero or more of the packets in flight:
    /// whether it is one of `start`, `start + 1`, ..., `next` on the ring.
    pub open spec fn acknowledges(self, seq: u8) -> bool {
        &&& seq < self.modulo.spec_value()
        &&& seq_distance(self.start as int, seq as int, self.modulo.spec_value())
            <= self.in_flight()
    }

    /// The window after `seq` was taken as an acknowledgement.
    pub open spec fn spec_update_start(self, seq: u8) -> Window {
        if self.acknowledges(seq) {
            Window { start: seq, ..self }
        } else {
            self
        }
    }

    /// An empty window at sequence number 0.
    pub fn new(size: u8, modulo: X25Modulo) -> (w: Window)
        ensures
            w == Window::spec_new(size, modulo),
            w.wf(),
            w.in_flight() == 0,
    {
        Window { start: 0, size, modulo, next: 0 }
    }

    fn distance(&self, from: u8, to: u8) -> (d: u8)
        requires
            from < self.modulo.spec_value(),
            to < self.modulo.spec_value(),
        ensures
            d == seq_distance(from as int, to as int, self.modulo.spec_value()),
    {
        let n: u8 = self.modulo.value();
        if to >= from {
            to - from
        } else {
            n - from + to
        }
    }

    /// Whether another packet may be sent.
    pub fn is_open(&self) -> (open: bool)
        requires
            self.wf(),
        ensures
            open == self.spec_is_open(),
    {
        self.distance(self.start, self.next) < self.size
    }

    /// The sequence number of the next packet to send.
    pub fn seq(&self) -> (seq: u8)
        ensures
            seq == self.next,
    {
        self.next
    }

    /// Records that the packet numbered `seq()` was sent.
    pub fn incr(&mut self)
        requires
            old(self).wf(),
        ensures
            *final(self) == old(self).spec_incr(),
            final(self).wf(),
    {
        self.next = next_seq(self.next, self.modulo);
    }

    /// Takes `seq` as a cumulative acknowledgement. Succeeds exactly when
    /// `seq` is one of `start`, `start + 1`, ..., `next` on the ring, and
    /// then moves `start` to it; else the window is left as it was.
    pub fn update_start(&mut self, seq: u8) -> (ok: bool)
        requires
            old(self).wf(),
        ensures
            ok == old(self).acknowledges(seq),
            *final(self) == old(self).spec_update_start(seq),
            final(self).wf(),
    {
        let n: u8 = self.modulo.value();
        if seq >= n {
            return false;
        }
        let acked: u8 = self.distance(self.start, seq);
        let in_flight: u8 = self.distance(self.start, self.next);
        if acked > in_flight {
            return false;
        }
        self.start = seq;
        true
    }
}

/// Sending a packet through an open window of a size below the modulus puts
/// one more packet in flight.
pub proof fn lemma_incr_in_flight(w: Window)
    requires
        w.wf(),
        w.spec_is_open(),
        w.size < w.modulo.spec_value(),
    ensures
        w.spec_incr().in_flight() == w.in_flight() + 1,
        w.spec_incr().start == w.start,
{
}

/// An accepted acknowledgement of `k` packets leaves `k` fewer in flight.
pub proof fn lemma_update_start_in_flight(w: Window, seq: u8)
    requires
        w.wf(),
        w.acknowledges(seq),
    ensures
        w.spec_update_start(seq).in_flight() == w.in_flight() - seq_distance(
            w.start as int,
            seq as int,
            w.modulo.spec_value(),
        ),
{
}

/// The acknowledgements a window accepts are the `in_flight() + 1` numbers
/// from `start` up to `next` on the ring, and no others.
pub proof fn lemma_acknowledged_numbers(w: Window, seq: u8)
    requires
        w.wf(),
    ensures
        w.acknowledges(seq) <==> exists|k: int|
            0 <= k <= w.in_flight() && seq == #[trigger] seq_advance(
                w.start as int,
                k,
                w.modulo.spec_value(),
            ),
{
    let n = w.modulo.spec_value();
    if w.acknowledges(seq) {
        let k = seq_distance(w.start as int, seq as int, n);
        assert(seq == seq_advance(w.start as int, k, n));
    }
}

/// While no more than `size` packets are in flight, every accepted
/// acknowledgement is one of `start`, `start + 1`, ..., `start + size` on
/// the ring; with a full window each of those is accepted.
pub proof fn lemma_acknowledged_within_size(w: Window, seq: u8)
    requires
        w.wf(),
        w.in_flight() <= w.size,
        seq < w.modulo.spec_value(),
    ensures
        w.acknowledges(seq) ==> seq_distance(w.start as int, seq as int, w.modulo.spec_value())
            <= w.size,
        w.in_flight() == w.size ==> (w.acknowledges(seq) <==> seq_distance(
            w.start as int,
            seq as int,
            w.modulo.spec_value(),
        ) <= w.size),
{
}

} // verus!
