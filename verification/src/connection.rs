//! One established connection: a receive window and a send window composed
//! under an identity and a handle, mediating between inbound segments and
//! the application's read/write calls. The clock, the negotiated options,
//! and the event sink are injected rather than reached through a global
//! runtime: methods take `now` as a parameter, options arrive at
//! construction, and notifications queue on the connection for the event
//! loop to drain.

use vstd::prelude::*;

use crate::fail::Fail;
use crate::receiver::{deadline_after, Receiver, DELAYED_ACK_MS};
use crate::sender::{copy_bytes, due_from, TcpSendWindow, MAX_MSS};
use crate::seq_num::seq_lt;

verus! {

/// An IPv4 address and port.
#[derive(Clone, Copy, Debug, PartialEq, Eq, Hash, Structural)]
pub struct Ipv4Endpoint {
    pub addr: u32,
    pub port: u16,
}

/// The 4-tuple identifying a connection; immutable for its lifetime and
/// used as the lookup key by the owning connection table.
#[derive(Clone, Copy, Debug, PartialEq, Eq, Hash, Structural)]
pub struct TcpConnectionId {
    pub local: Ipv4Endpoint,
    pub remote: Ipv4Endpoint,
}

/// A small non-zero opaque token by which upper layers reference a
/// connection without copying the 4-tuple. Allocated externally; never
/// reused while a connection referencing it is alive.
#[derive(Clone, Copy, Debug, PartialEq, Eq, Hash, Structural)]
pub struct TcpConnectionHandle {
    value: u16,
}

impl TcpConnectionHandle {
    /// The raw token value.
    pub closed spec fn spec_value(self) -> u16 {
        self.value
    }

    /// Handles are non-zero by construction.
    pub open spec fn wf(self) -> bool {
        self.spec_value() != 0
    }

    /// Wraps a raw token; zero is not a handle.
    pub fn new(n: u16) -> (r: TcpConnectionHandle)
        requires
            n != 0,
        ensures
            r.spec_value() == n,
            r.wf(),
    {
        TcpConnectionHandle { value: n }
    }

    /// The raw token value.
    pub fn get(&self) -> (r: u16)
        ensures
            r == self.spec_value(),
    {
        self.value
    }
}

/// A notification emitted toward external waiters.
#[derive(Clone, Copy, Debug, PartialEq, Eq, Structural)]
pub enum Event {
    /// Received bytes became available for the connection with this handle.
    TcpBytesAvailable(TcpConnectionHandle),
}

/// A decoded inbound segment, or a wire-ready outbound one; framing onto
/// the wire itself belongs to the encoding collaborator.
#[derive(Clone, Debug, PartialEq, Eq)]
pub struct TcpSegment {
    /// Identity of the owning connection, stamped on outbound segments.
    pub cxnid: Option<TcpConnectionId>,
    /// Sequence number of the payload's first byte.
    pub seq_num: u32,
    /// Acknowledgement carried by the segment, if any.
    pub ack_num: Option<u32>,
    /// Receive window advertised by the segment's sender.
    pub window_size: u32,
    /// The payload bytes.
    pub payload: Vec<u8>,
}

/// The negotiated options a connection is constructed with.
#[derive(Clone, Copy, Debug, PartialEq, Eq, Structural)]
pub struct TcpOptions {
    /// Maximum segment size advertised to the peer.
    pub advertised_mss: usize,
    /// How many retransmissions a segment is allowed before the peer is
    /// declared unreachable.
    pub retries2: u32,
}

/// A connection in the established state: one receive window and one send
/// window under an identity and a handle, plus the inbound-segment queue
/// and the pending notifications.
pub struct TcpConnection {
    pub cxnid: TcpConnectionId,
    pub handle: TcpConnectionHandle,
    /// Inbound segments not yet processed; the dispatcher fills it through
    /// `enqueue_input`, the connection drains it through `dequeue_input`.
    pub input_queue: Vec<TcpSegment>,
    pub local_isn: u32,
    pub receive_window: Receiver,
    pub send_window: TcpSendWindow,
    pub options: TcpOptions,
    /// Notifications awaiting the event loop, oldest first.
    pub events: Vec<Event>,
}

impl TcpConnection {
    pub open spec fn wf(self) -> bool {
        &&& self.handle.wf()
        &&& self.receive_window.wf()
        &&& self.send_window.wf()
        &&& 1 <= self.options.advertised_mss <= MAX_MSS
    }

    /// A fresh connection: the receive window at sequence number zero
    /// until the remote initial sequence number arrives, the send window
    /// at the local initial sequence number, nothing queued anywhere.
    pub fn new(
        cxnid: TcpConnectionId,
        handle: TcpConnectionHandle,
        local_isn: u32,
        receive_window_size: u32,
        options: TcpOptions,
    ) -> (r: TcpConnection)
        requires
            handle.wf(),
            receive_window_size <= 0x7FFF_FFFF,
            1 <= options.advertised_mss <= MAX_MSS,
        ensures
            r.wf(),
            r.cxnid == cxnid,
            r.handle == handle,
            r.local_isn == local_isn,
            r.options == options,
            r.input_queue@.len() == 0,
            r.events@.len() == 0,
            r.receive_window.max_window_size == receive_window_size,
            r.receive_window.open,
            r.receive_window.base_seq_no == 0,
            r.receive_window.ack_seq_no == 0,
            r.receive_window.recv_seq_no == 0,
            r.receive_window.recv_queue@.len() == 0,
            r.receive_window.ack_deadline is None,
            r.send_window.send_unacked == local_isn,
            r.send_window.send_next == local_isn,
            r.send_window.unsent@.len() == 0,
            r.send_window.inflight@.len() == 0,
            r.send_window.mss == options.advertised_mss,
            r.send_window.remote_window == 0,
    {
        TcpConnection {
            cxnid,
            handle,
            input_queue: Vec::new(),
            local_isn,
            receive_window: Receiver::new(receive_window_size),
            send_window: TcpSendWindow::new(local_isn, options.advertised_mss),
            options,
            events: Vec::new(),
        }
    }

    pub fn get_handle(&self) -> (r: TcpConnectionHandle)
        ensures
            r == self.handle,
    {
        self.handle
    }

    pub fn get_cxnid(&self) -> (r: &TcpConnectionId)
        ensures
            *r == self.cxnid,
    {
        &self.cxnid
    }

    pub fn get_mss(&self) -> (r: usize)
        ensures
            r == self.send_window.mss,
    {
        self.send_window.get_mss()
    }

    /// The next sequence number the send window will assign.
    pub fn get_last_seq_num(&self) -> (r: u32)
        ensures
            r == self.send_window.send_next,
    {
        self.send_window.get_last_seq_num()
    }

    /// The retransmission timeout currently in force, milliseconds.
    pub fn get_rto(&self) -> (r: u64)
        requires
            self.wf(),
        ensures
            r == self.send_window.rto.rto,
    {
        self.send_window.get_rto()
    }

    /// See `TcpSendWindow::negotiate_mss`.
    pub fn negotiate_mss(&mut self, remote_mss: Option<usize>) -> (r: Result<(), Fail>)
        requires
            old(self).wf(),
        ensures
            final(self).wf(),
            remote_mss == Some(0usize) ==> r == Result::<(), Fail>::Err(Fail::NegotiationFailure)
                && *final(self) == *old(self),
            remote_mss != Some(0usize) ==> {
                &&& r == Result::<(), Fail>::Ok(())
                &&& final(self).send_window.mss == (match remote_mss {
                    Option::None => crate::sender::FALLBACK_MSS as int,
                    Option::Some(m) => crate::sender::spec_min(
                        old(self).send_window.mss as int,
                        m as int,
                    ),
                })
                &&& *final(self) == (TcpConnection {
                    send_window: final(self).send_window,
                    ..*old(self)
                })
                &&& final(self).send_window == (TcpSendWindow {
                    mss: final(self).send_window.mss,
                    ..old(self).send_window
                })
            },
    {
        self.send_window.negotiate_mss(remote_mss)
    }

    /// Positions the receive window at the peer's initial sequence number;
    /// meaningful only before any data has been buffered.
    pub fn set_remote_isn(&mut self, value: u32)
        requires
            old(self).wf(),
            old(self).receive_window.base_seq_no == old(self).receive_window.recv_seq_no,
        ensures
            final(self).wf(),
            final(self).receive_window.base_seq_no == value,
            final(self).receive_window.ack_seq_no == value,
            final(self).receive_window.recv_seq_no == value,
            final(self).receive_window.acked_in_window(),
            final(self).receive_window.recv_queue == old(self).receive_window.recv_queue,
            final(self).receive_window.ack_deadline == old(self).receive_window.ack_deadline,
            final(self).receive_window.open == old(self).receive_window.open,
            final(self).receive_window.max_window_size == old(self).receive_window.max_window_size,
            *final(self) == (TcpConnection {
                receive_window: final(self).receive_window,
                ..*old(self)
            }),
    {
        self.receive_window.remote_isn(value)
    }

    /// Consumes one sequence number for connection control (a SYN or FIN);
    /// only meaningful while nothing is in flight.
    pub fn incr_seq_num(&mut self)
        requires
            old(self).wf(),
            old(self).send_window.inflight@.len() == 0,
        ensures
            final(self).wf(),
            final(self).send_window.send_unacked == crate::seq_num::seq_add(
                old(self).send_window.send_unacked,
                1,
            ),
            final(self).send_window.send_next == crate::seq_num::seq_add(
                old(self).send_window.send_next,
                1,
            ),
            *final(self) == (TcpConnection { send_window: final(self).send_window, ..*old(self) }),
            final(self).send_window == (TcpSendWindow {
                send_unacked: final(self).send_window.send_unacked,
                send_next: final(self).send_window.send_next,
                ..old(self).send_window
            }),
    {
        self.send_window.incr_seq_num()
    }

    /// The acknowledgement owed to the peer: `recv_seq_no` when received
    /// data is not yet acknowledged, else `None`.
    pub fn try_get_ack_num(&self) -> (r: Option<u32>)
        ensures
            r == (if seq_lt(
                self.receive_window.ack_seq_no,
                self.receive_window.recv_seq_no,
            ) {
                Some(self.receive_window.recv_seq_no)
            } else {
                Option::<u32>::None
            }),
    {
        self.receive_window.current_ack()
    }

    /// Capacity currently advertised to the peer.
    pub fn get_local_receive_window_size(&self) -> (r: u32)
        requires
            self.wf(),
        ensures
            r == self.receive_window.spec_window(),
    {
        self.receive_window.window_size()
    }

    /// Records the peer's newly advertised receive window.
    pub fn set_remote_receive_window_size(&mut self, size: u32)
        requires
            old(self).wf(),
            size <= 0x7FFF_FFFF,
        ensures
            final(self).wf(),
            final(self).send_window == (TcpSendWindow {
                remote_window: size,
                ..old(self).send_window
            }),
            *final(self) == (TcpConnection { send_window: final(self).send_window, ..*old(self) }),
    {
        self.send_window.set_remote_receive_window_size(size)
    }

    /// Stamps a payload into a wire-ready segment carrying this
    /// connection's identity, the acknowledgement currently owed, and the
    /// local window.
    fn make_segment(&self, seq_num: u32, payload: Vec<u8>) -> (r: TcpSegment)
        requires
            self.wf(),
        ensures
            r.cxnid == Some(self.cxnid),
            r.seq_num == seq_num,
            r.payload == payload,
            r.window_size == self.receive_window.spec_window(),
            r.ack_num == (if seq_lt(
                self.receive_window.ack_seq_no,
                self.receive_window.recv_seq_no,
            ) {
                Some(self.receive_window.recv_seq_no)
            } else {
                Option::<u32>::None
            }),
    {
        TcpSegment {
            cxnid: Some(self.cxnid),
            seq_num,
            ack_num: self.receive_window.current_ack(),
            window_size: self.receive_window.window_size(),
            payload,
        }
    }

    /// Appends application data to the outgoing buffer.
    pub fn write(&mut self, bytes: Vec<u8>)
        requires
            old(self).wf(),
        ensures
            final(self).wf(),
            final(self).send_window.unsent@ == old(self).send_window.unsent@ + bytes@,
            final(self).send_window == (TcpSendWindow {
                unsent: final(self).send_window.unsent,
                ..old(self).send_window
            }),
            *final(self) == (TcpConnection { send_window: final(self).send_window, ..*old(self) }),
    {
        self.send_window.push(bytes)
    }

    /// Delivers the oldest buffered chunk to the application; `Ok(None)`
    /// means no data is currently available.
    pub fn read(&mut self) -> (r: Result<Option<Vec<u8>>, Fail>)
        requires
            old(self).wf(),
        ensures
            final(self).wf(),
            *final(self) == (TcpConnection {
                receive_window: final(self).receive_window,
                ..*old(self)
            }),
            !old(self).receive_window.open ==> r == Result::<Option<Vec<u8>>, Fail>::Err(
                Fail::Closed,
            ) && *final(self) == *old(self),
            old(self).receive_window.open && old(self).receive_window.base_seq_no == old(self).receive_window.recv_seq_no ==> r == Result::<Option<Vec<u8>>, Fail>::Ok(None)
                && *final(self) == *old(self),
            old(self).receive_window.open && old(self).receive_window.base_seq_no != old(self).receive_window.recv_seq_no ==> {
                &&& r matches Ok(b) && b == Some(old(self).receive_window.recv_queue@[0])
                &&& final(self).receive_window.recv_queue@ == old(self).receive_window.recv_queue@.skip(1)
                &&& final(self).receive_window.spec_window() == old(self).receive_window.spec_window() + old(self).receive_window.recv_queue@[0]@.len()
            },
    {
        self.receive_window.recv()
    }

    /// Read-only view of the pending inbound segments.
    pub fn get_input_queue(&self) -> (r: &Vec<TcpSegment>)
        ensures
            r@ == self.input_queue@,
    {
        &self.input_queue
    }

    /// Appends a decoded inbound segment for later processing; called by
    /// the dispatcher that owns the connection table.
    pub fn enqueue_input(&mut self, segment: TcpSegment)
        requires
            old(self).wf(),
        ensures
            final(self).wf(),
            final(self).input_queue@ == old(self).input_queue@.push(segment),
            *final(self) == (TcpConnection {
                input_queue: final(self).input_queue,
                ..*old(self)
            }),
    {
        self.input_queue.push(segment)
    }

    /// Takes the oldest pending inbound segment, if any.
    pub fn dequeue_input(&mut self) -> (r: Option<TcpSegment>)
        requires
            old(self).wf(),
        ensures
            final(self).wf(),
            old(self).input_queue@.len() == 0 ==> r is None && *final(self) == *old(self),
            old(self).input_queue@.len() > 0 ==> {
                &&& r matches Some(s) && s == old(self).input_queue@[0]
                &&& final(self).input_queue@ == old(self).input_queue@.skip(1)
                &&& *final(self) == (TcpConnection {
                    input_queue: final(self).input_queue,
                    ..*old(self)
                })
            },
    {
        if self.input_queue.len() == 0 {
            None
        } else {
            let s = self.input_queue.remove(0);
            proof {
                assert(old(self).input_queue@.remove(0) =~= old(self).input_queue@.skip(1));
            }
            Some(s)
        }
    }

    /// Hands out the oldest pending notification, if any; the event loop
    /// drains these after each inbound delivery.
    pub fn pop_event(&mut self) -> (r: Option<Event>)
        requires
            old(self).wf(),
        ensures
            final(self).wf(),
            old(self).events@.len() == 0 ==> r is None && *final(self) == *old(self),
            old(self).events@.len() > 0 ==> {
                &&& r == Some(old(self).events@[0])
                &&& final(self).events@ == old(self).events@.skip(1)
                &&& *final(self) == (TcpConnection { events: final(self).events, ..*old(self) })
            },
    {
        if self.events.len() == 0 {
            None
        } else {
            let e = self.events.remove(0);
            proof {
                assert(old(self).events@.remove(0) =~= old(self).events@.skip(1));
            }
            Some(e)
        }
    }

    /// Feeds an acknowledgement from the peer to the send window; see
    /// `TcpSendWindow::acknowledge`. A duplicate acknowledgement is a
    /// recoverable condition, so it is absorbed here — dropped silently
    /// with the window untouched — and never escapes to the event loop;
    /// only the fatal protocol violation propagates.
    pub fn acknowledge(&mut self, ack_num: u32, now: u64) -> (r: Result<(), Fail>)
        requires
            old(self).wf(),
        ensures
            final(self).wf(),
            *final(self) == (TcpConnection { send_window: final(self).send_window, ..*old(self) }),
            ack_num == old(self).send_window.send_unacked ==> r == Result::<(), Fail>::Ok(())
                && *final(self) == *old(self),
            crate::seq_num::seq_sub(ack_num, old(self).send_window.send_unacked) > old(self).send_window.bytes_in_flight ==> r == Result::<(), Fail>::Err(Fail::ProtocolViolation)
                && *final(self) == *old(self),
            ack_num != old(self).send_window.send_unacked && crate::seq_num::seq_sub(
                ack_num,
                old(self).send_window.send_unacked,
            ) <= old(self).send_window.bytes_in_flight ==> {
                let acked = crate::seq_num::seq_sub(
                    ack_num,
                    old(self).send_window.send_unacked,
                ) as int;
                &&& r == Result::<(), Fail>::Ok(())
                &&& final(self).send_window.send_unacked == ack_num
                &&& crate::sender::concat_bytes(final(self).send_window.inflight@)
                    == crate::sender::concat_bytes(old(self).send_window.inflight@).skip(acked)
                &&& final(self).send_window.bytes_in_flight == old(self).send_window.bytes_in_flight - acked
                &&& final(self).send_window.send_next == old(self).send_window.send_next
                &&& final(self).send_window.unsent == old(self).send_window.unsent
                &&& final(self).send_window.mss == old(self).send_window.mss
                &&& final(self).send_window.remote_window == old(self).send_window.remote_window
                &&& final(self).send_window.rto == crate::sender::rto_after_acks(
                    old(self).send_window.rto,
                    old(self).send_window.inflight@.take(
                        crate::sender::retired_count(old(self).send_window.inflight@, acked),
                    ),
                    now,
                )
            },
    {
        match self.send_window.acknowledge(ack_num, now) {
            Err(Fail::Ignored) => Ok(()),
            other => other,
        }
    }

    /// Wraps the next transmittable payload, if any, into a wire-ready
    /// segment; see `TcpSendWindow::get_next_transmittable_payload` for
    /// when one is due.
    pub fn get_next_transmittable_segment(
        &mut self,
        optional_byte_count: Option<usize>,
        now: u64,
    ) -> (r: Option<TcpSegment>)
        requires
            old(self).wf(),
        ensures
            final(self).wf(),
            *final(self) == (TcpConnection { send_window: final(self).send_window, ..*old(self) }),
            old(self).send_window.transmit_size(optional_byte_count) == 0 ==> r is None && *final(self) == *old(self),
            old(self).send_window.transmit_size(optional_byte_count) > 0 ==> {
                let k = old(self).send_window.transmit_size(optional_byte_count);
                &&& r matches Some(s)
                &&& s.cxnid == Some(old(self).cxnid)
                &&& s.seq_num == old(self).send_window.send_next
                &&& s.payload@ == old(self).send_window.unsent@.take(k)
                &&& s.window_size == old(self).receive_window.spec_window()
                &&& final(self).send_window.unsent@ == old(self).send_window.unsent@.skip(k)
                &&& final(self).send_window.send_next == crate::seq_num::seq_add(
                    old(self).send_window.send_next,
                    k as u32,
                )
                &&& final(self).send_window.bytes_in_flight == old(self).send_window.bytes_in_flight + k
                &&& final(self).send_window.inflight@.len() == old(self).send_window.inflight@.len() + 1
                &&& final(self).send_window.inflight@.last().send_time == now
                &&& final(self).send_window.inflight@.last().retries == 0
                &&& final(self).send_window.inflight@.last().bytes@ == s.payload@
                &&& forall|t: int|
                    0 <= t < old(self).send_window.inflight@.len() ==> #[trigger] final(self).send_window.inflight@[t] == old(self).send_window.inflight@[t]
                &&& final(self).send_window.send_unacked == old(self).send_window.send_unacked
                &&& final(self).send_window.mss == old(self).send_window.mss
                &&& final(self).send_window.remote_window == old(self).send_window.remote_window
                &&& final(self).send_window.rto == old(self).send_window.rto
            },
    {
        let seq_num = self.send_window.get_last_seq_num();
        match self.send_window.get_next_transmittable_payload(optional_byte_count, now) {
            None => None,
            Some(payload) => Some(self.make_segment(seq_num, payload)),
        }
    }

    /// Wraps every payload due for retransmission into a wire-ready
    /// segment, oldest first; see `TcpSendWindow::get_retransmissions` for
    /// when the peer is declared unreachable. The retry budget is the
    /// connection's configured `retries2` option.
    pub fn get_retransmissions(&mut self, now: u64) -> (r: Result<Vec<TcpSegment>, Fail>)
        requires
            old(self).wf(),
        ensures
            final(self).wf(),
            final(self).receive_window == old(self).receive_window,
            final(self).cxnid == old(self).cxnid,
            final(self).handle == old(self).handle,
            final(self).options == old(self).options,
            final(self).events == old(self).events,
            final(self).input_queue == old(self).input_queue,
            final(self).local_isn == old(self).local_isn,
            final(self).send_window.send_unacked == old(self).send_window.send_unacked,
            final(self).send_window.send_next == old(self).send_window.send_next,
            final(self).send_window.bytes_in_flight == old(self).send_window.bytes_in_flight,
            final(self).send_window.unsent == old(self).send_window.unsent,
            final(self).send_window.mss == old(self).send_window.mss,
            final(self).send_window.remote_window == old(self).send_window.remote_window,
            final(self).send_window.rto == old(self).send_window.rto,
            final(self).send_window.inflight@.len() == old(self).send_window.inflight@.len(),
            forall|t: int|
                0 <= t < old(self).send_window.inflight@.len() ==> (#[trigger] final(self).send_window.inflight@[t]).seq_no == old(self).send_window.inflight@[t].seq_no
                    && final(self).send_window.inflight@[t].bytes@ == old(self).send_window.inflight@[t].bytes@,
            r is Ok ==> forall|t: int|
                0 <= t < old(self).send_window.inflight@.len() ==> (if crate::sender::due(
                    #[trigger] old(self).send_window.inflight@[t],
                    now,
                    old(self).send_window.rto.rto,
                ) {
                    final(self).send_window.inflight@[t].send_time == now && final(self).send_window.inflight@[t].retries == old(self).send_window.inflight@[t].retries + 1
                } else {
                    final(self).send_window.inflight@[t] == old(self).send_window.inflight@[t]
                }),
            r is Err <==> (exists|t: int|
                0 <= t < old(self).send_window.inflight@.len() && crate::sender::due(
                    #[trigger] old(self).send_window.inflight@[t],
                    now,
                    old(self).send_window.rto.rto,
                ) && old(self).send_window.inflight@[t].retries >= old(self).options.retries2),
            r is Err ==> r == Result::<Vec<TcpSegment>, Fail>::Err(Fail::PeerUnreachable),
            r matches Ok(v) ==> {
                let pairs = due_from(
                    old(self).send_window.inflight@,
                    0,
                    now,
                    old(self).send_window.rto.rto,
                );
                &&& v@.len() == pairs.len()
                &&& forall|t: int|
                    0 <= t < v@.len() ==> (#[trigger] v@[t]).seq_num == pairs[t].0
                        && v@[t].payload@ == pairs[t].1 && v@[t].cxnid == Some(old(self).cxnid)
            },
    {
        let max_retries = self.options.retries2;
        let ghost pairs = due_from(
            old(self).send_window.inflight@,
            0,
            now,
            old(self).send_window.rto.rto,
        );
        let payloads = match self.send_window.get_retransmissions(now, max_retries) {
            Err(e) => {
                return Err(e);
            },
            Ok(p) => p,
        };
        let mut segments: Vec<TcpSegment> = Vec::new();
        let mut i: usize = 0;
        while i < payloads.len()
            invariant
                self.wf(),
                i <= payloads@.len(),
                crate::sender::retransmit_pairs(payloads@) == pairs,
                segments@.len() == i,
                self.cxnid == old(self).cxnid,
                forall|t: int|
                    0 <= t < i ==> (#[trigger] segments@[t]).seq_num == pairs[t].0
                        && segments@[t].payload@ == pairs[t].1 && segments@[t].cxnid == Some(
                        old(self).cxnid,
                    ),
            decreases payloads@.len() - i,
        {
            let seq_no = payloads[i].seq_no;
            let bytes = copy_bytes(&payloads[i].payload);
            let seg = self.make_segment(seq_no, bytes);
            segments.push(seg);
            proof {
                assert(crate::sender::retransmit_pairs(payloads@)[i as int] == (
                    payloads@[i as int].seq_no,
                    payloads@[i as int].payload@,
                ));
            }
            i += 1;
        }
        Ok(segments)
    }

    /// Processes one inbound segment: refreshes the send window's view of
    /// the peer window from the segment's advertisement (capped at half
    /// the sequence space), forwards the payload to the receive window,
    /// queues a bytes-available notification when the window turns from
    /// empty to non-empty, and synthesizes an immediate zero-window
    /// advertisement when the local window has just filled. Recoverable
    /// receive-window refusals — an out-of-order or over-capacity segment
    /// — are absorbed here: the segment is dropped, nothing changes, and
    /// `Ok(None)` is returned, leaving recovery to peer retransmission.
    /// Only the fatal closed condition propagates to the event loop.
    pub fn receive(&mut self, segment: TcpSegment, now: u64) -> (r: Result<
        Option<TcpSegment>,
        Fail,
    >)
        requires
            old(self).wf(),
            now + DELAYED_ACK_MS <= u64::MAX,
        ensures
            final(self).wf(),
            final(self).send_window == (TcpSendWindow {
                remote_window: (if segment.window_size > 0x7FFF_FFFF {
                    0x7FFF_FFFF as u32
                } else {
                    segment.window_size
                }),
                ..old(self).send_window
            }),
            final(self).cxnid == old(self).cxnid,
            final(self).handle == old(self).handle,
            final(self).options == old(self).options,
            final(self).input_queue == old(self).input_queue,
            final(self).local_isn == old(self).local_isn,
            r is Err <==> !old(self).receive_window.open,
            r is Err ==> r == Result::<Option<TcpSegment>, Fail>::Err(Fail::Closed) && final(self).receive_window == old(self).receive_window && final(self).events == old(self).events,
            old(self).receive_window.open && segment.seq_num != old(self).receive_window.recv_seq_no ==> r == Result::<Option<TcpSegment>, Fail>::Ok(None)
                && final(self).receive_window == old(self).receive_window && final(self).events
                == old(self).events,
            old(self).receive_window.open && segment.seq_num == old(self).receive_window.recv_seq_no && old(self).receive_window.unread()
                + segment.payload@.len() > old(self).receive_window.max_window_size ==> r
                == Result::<Option<TcpSegment>, Fail>::Ok(None) && final(self).receive_window
                == old(self).receive_window && final(self).events == old(self).events,
            old(self).receive_window.open && segment.seq_num == old(self).receive_window.recv_seq_no && old(self).receive_window.unread()
                + segment.payload@.len() <= old(self).receive_window.max_window_size ==> {
                &&& r is Ok
                &&& final(self).receive_window.recv_seq_no == crate::seq_num::seq_add(
                    old(self).receive_window.recv_seq_no,
                    segment.payload@.len() as u32,
                )
                &&& final(self).receive_window.recv_queue@ == old(self).receive_window.recv_queue@.push(segment.payload)
                &&& final(self).receive_window.ack_deadline == deadline_after(
                    old(self).receive_window.ack_deadline,
                    now,
                )
                &&& final(self).receive_window.spec_window() == old(self).receive_window.spec_window() - segment.payload@.len()
                &&& final(self).receive_window.base_seq_no == old(self).receive_window.base_seq_no
                &&& final(self).receive_window.ack_seq_no == old(self).receive_window.ack_seq_no
                &&& final(self).receive_window.open
                &&& final(self).receive_window.max_window_size == old(self).receive_window.max_window_size
                &&& final(self).events@ == (if old(self).receive_window.base_seq_no == old(self).receive_window.recv_seq_no && segment.payload@.len() > 0 {
                    old(self).events@.push(Event::TcpBytesAvailable(old(self).handle))
                } else {
                    old(self).events@
                })
                &&& (final(self).receive_window.spec_window() == 0 <==> (r matches Ok(z) && z
                    is Some))
                &&& (r matches Ok(z) && z matches Some(s) ==> s.cxnid == Some(old(self).cxnid)
                    && s.payload@.len() == 0 && s.window_size == 0 && s.seq_num == old(self).send_window.send_next && s.ack_num == (if seq_lt(
                    final(self).receive_window.ack_seq_no,
                    final(self).receive_window.recv_seq_no,
                ) {
                    Some(final(self).receive_window.recv_seq_no)
                } else {
                    Option::<u32>::None
                }))
            },
    {
        let clamped: u32 = if segment.window_size > 0x7FFF_FFFF {
            0x7FFF_FFFF
        } else {
            segment.window_size
        };
        self.send_window.set_remote_receive_window_size(clamped);
        let was_empty = self.receive_window.is_empty();
        match self.receive_window.receive_segment(segment.seq_num, segment.payload, now) {
            Err(Fail::Closed) => Err(Fail::Closed),
            // Out-of-order and over-capacity are recoverable: the segment
            // is dropped here and the condition never reaches the caller.
            Err(_) => Ok(None),
            Ok(()) => {
                if was_empty && !self.receive_window.is_empty() {
                    self.events.push(Event::TcpBytesAvailable(self.handle));
                }
                if self.receive_window.window_size() == 0 {
                    let seq_num = self.send_window.get_last_seq_num();
                    let z = self.make_segment(seq_num, Vec::new());
                    Ok(Some(z))
                } else {
                    Ok(None)
                }
            },
        }
    }
}

} // verus!
