//! The send window: buffers application bytes, decides what may be
//! transmitted now (bounded by the negotiated segment size and the peer's
//! advertised window), tracks unacknowledged segments for retransmission,
//! and retires them as acknowledgements arrive.

use vstd::prelude::*;

use crate::fail::Fail;
use crate::rto::{after_sample, RtoCalculator, RTT_SAMPLE_MAX_MS};
use crate::seq_num::{lemma_seq_add_assoc, seq_add, seq_sub, wrapping_add, wrapping_sub};

verus! {

/// Segment size assumed when the peer advertises none.
pub const FALLBACK_MSS: usize = 536;

/// Largest segment size a negotiation may yield.
pub const MAX_MSS: usize = 0xFFFF;

pub open spec fn spec_min(a: int, b: int) -> int {
    if a <= b {
        a
    } else {
        b
    }
}

/// A sent byte range awaiting acknowledgement.
pub struct UnackedSegment {
    /// Sequence number of the range's first byte.
    pub seq_no: u32,
    /// The bytes themselves, kept for retransmission.
    pub bytes: Vec<u8>,
    /// When the range was last handed out for transmission, milliseconds.
    pub send_time: u64,
    /// How many times the range has been retransmitted.
    pub retries: u32,
}

/// Concatenation of the byte ranges in flight, oldest first.
pub open spec fn concat_bytes(q: Seq<UnackedSegment>) -> Seq<u8>
    decreases q.len(),
{
    if q.len() <= 0 {
        Seq::empty()
    } else {
        q[0].bytes@ + concat_bytes(q.skip(1))
    }
}

/// The in-flight queue covers consecutive sequence numbers starting at
/// `start`: each entry begins where the previous one ended.
pub open spec fn chain_from(q: Seq<UnackedSegment>, start: u32) -> bool
    decreases q.len(),
{
    q.len() == 0 || (q[0].seq_no == start && chain_from(
        q.skip(1),
        seq_add(start, q[0].bytes@.len() as u32),
    ))
}

/// No in-flight entry is empty; every one carries at least one byte.
pub open spec fn all_nonempty(q: Seq<UnackedSegment>) -> bool {
    forall|i: int| 0 <= i < q.len() ==> #[trigger] q[i].bytes@.len() >= 1
}

pub proof fn lemma_concat_push(q: Seq<UnackedSegment>, s: UnackedSegment)
    ensures
        concat_bytes(q.push(s)) == concat_bytes(q) + s.bytes@,
    decreases q.len(),
{
    assert(concat_bytes(q.push(s)) == q.push(s)[0].bytes@ + concat_bytes(q.push(s).skip(1)));
    if q.len() == 0 {
        assert(q.push(s)[0] == s);
        assert(q.push(s).skip(1) =~= Seq::<UnackedSegment>::empty());
        assert(concat_bytes(q) + s.bytes@ =~= s.bytes@ + Seq::<u8>::empty());
    } else {
        assert(q.push(s)[0] == q[0]);
        assert(q.push(s).skip(1) =~= q.skip(1).push(s));
        lemma_concat_push(q.skip(1), s);
        assert(q[0].bytes@ + (concat_bytes(q.skip(1)) + s.bytes@) =~= (q[0].bytes@ + concat_bytes(
            q.skip(1),
        )) + s.bytes@);
    }
}

/// Appending an entry that starts exactly at the end of the chain keeps the
/// queue contiguous.
pub proof fn lemma_chain_push(q: Seq<UnackedSegment>, start: u32, s: UnackedSegment)
    requires
        chain_from(q, start),
        concat_bytes(q).len() + s.bytes@.len() < 0x1_0000_0000,
        s.seq_no == seq_add(start, concat_bytes(q).len() as u32),
    ensures
        chain_from(q.push(s), start),
    decreases q.len(),
{
    assert(chain_from(q.push(s), start) == (q.push(s)[0].seq_no == start && chain_from(
        q.push(s).skip(1),
        seq_add(start, q.push(s)[0].bytes@.len() as u32),
    )));
    if q.len() == 0 {
        assert(q.push(s)[0] == s);
        assert(q.push(s).skip(1) =~= Seq::<UnackedSegment>::empty());
        assert(chain_from(Seq::<UnackedSegment>::empty(), seq_add(start, s.bytes@.len() as u32)));
        assert(seq_add(start, 0) == start);
    } else {
        assert(q.push(s)[0] == q[0]);
        assert(q.push(s).skip(1) =~= q.skip(1).push(s));
        let l0 = q[0].bytes@.len() as u32;
        let start1 = seq_add(start, l0);
        lemma_seq_add_assoc(start, l0, concat_bytes(q.skip(1)).len() as u32);
        lemma_chain_push(q.skip(1), start1, s);
    }
}

/// Entries that keep their sequence number and bytes keep the queue's
/// concatenation and contiguity, whatever happens to their timestamps and
/// retry counters.
pub proof fn lemma_same_layout(q1: Seq<UnackedSegment>, q2: Seq<UnackedSegment>, start: u32)
    requires
        q1.len() == q2.len(),
        forall|i: int|
            0 <= i < q1.len() ==> (#[trigger] q1[i]).seq_no == q2[i].seq_no && q1[i].bytes@
                == q2[i].bytes@,
    ensures
        concat_bytes(q1) == concat_bytes(q2),
        chain_from(q1, start) == chain_from(q2, start),
        all_nonempty(q1) == all_nonempty(q2),
    decreases q1.len(),
{
    assert(all_nonempty(q1) == all_nonempty(q2)) by {
        if all_nonempty(q1) {
            assert forall|i: int| 0 <= i < q2.len() implies #[trigger] q2[i].bytes@.len()
                >= 1 by {
                assert(q1[i].bytes@ == q2[i].bytes@);
            }
        }
        if all_nonempty(q2) {
            assert forall|i: int| 0 <= i < q1.len() implies #[trigger] q1[i].bytes@.len()
                >= 1 by {
                assert(q1[i].bytes@ == q2[i].bytes@);
            }
        }
    }
    if q1.len() > 0 {
        assert(q1[0].seq_no == q2[0].seq_no && q1[0].bytes@ == q2[0].bytes@);
        assert forall|i: int|
            0 <= i < q1.skip(1).len() implies #[trigger] q1.skip(1)[i].seq_no
            == q2.skip(1)[i].seq_no && q1.skip(1)[i].bytes@ == q2.skip(1)[i].bytes@ by {
            assert(q1.skip(1)[i] == q1[i + 1]);
            assert(q2.skip(1)[i] == q2[i + 1]);
            assert(q1[i + 1].seq_no == q2[i + 1].seq_no && q1[i + 1].bytes@ == q2[i + 1].bytes@);
        }
        lemma_same_layout(q1.skip(1), q2.skip(1), seq_add(start, q1[0].bytes@.len() as u32));
    }
}

/// Copies the suffix of a byte buffer from `from` on.
fn copy_suffix(src: &Vec<u8>, from: usize) -> (r: Vec<u8>)
    requires
        from <= src@.len(),
    ensures
        r@ == src@.skip(from as int),
{
    let mut r: Vec<u8> = Vec::new();
    let mut j: usize = from;
    while j < src.len()
        invariant
            from <= j <= src@.len(),
            r@ == src@.subrange(from as int, j as int),
        decreases src@.len() - j,
    {
        r.push(src[j]);
        proof {
            assert(r@ =~= src@.subrange(from as int, j as int + 1));
        }
        j += 1;
    }
    proof {
        assert(src@.subrange(from as int, src@.len() as int) =~= src@.skip(from as int));
    }
    r
}

/// Copies a byte buffer.
pub(crate) fn copy_bytes(src: &Vec<u8>) -> (r: Vec<u8>)
    ensures
        r@ == src@,
{
    let mut r: Vec<u8> = Vec::new();
    let mut i: usize = 0;
    while i < src.len()
        invariant
            i <= src.len(),
            r@ == src@.take(i as int),
        decreases src.len() - i,
    {
        r.push(src[i]);
        proof {
            assert(r@ =~= src@.take(i as int + 1));
        }
        i += 1;
    }
    proof {
        assert(src@.take(src@.len() as int) =~= src@);
    }
    r
}

/// Whether a sent range's retransmission deadline has elapsed.
pub open spec fn due(seg: UnackedSegment, now: u64, rto: u64) -> bool {
    seg.send_time <= now && now - seg.send_time >= rto
}

/// One retired range's effect on the estimator: a range acknowledged in
/// full that was never retransmitted and shows a measurable round trip
/// contributes the sample `now - send_time`; any other retired range
/// leaves the estimator alone (Karn's rule, plus the sample bound).
pub open spec fn ack_sample_step(c: RtoCalculator, seg: UnackedSegment, now: u64) -> RtoCalculator {
    if seg.retries == 0 && seg.send_time <= now && now - seg.send_time <= RTT_SAMPLE_MAX_MS {
        after_sample(c, (now - seg.send_time) as u64)
    } else {
        c
    }
}

/// The estimator after an acknowledgement retires the ranges of `q`,
/// oldest first.
pub open spec fn rto_after_acks(c: RtoCalculator, q: Seq<UnackedSegment>, now: u64) -> RtoCalculator
    decreases q.len(),
{
    if q.len() <= 0 {
        c
    } else {
        rto_after_acks(ack_sample_step(c, q[0], now), q.skip(1), now)
    }
}

pub proof fn lemma_rto_after_acks_push(
    c: RtoCalculator,
    q: Seq<UnackedSegment>,
    x: UnackedSegment,
    now: u64,
)
    ensures
        rto_after_acks(c, q.push(x), now) == ack_sample_step(rto_after_acks(c, q, now), x, now),
    decreases q.len(),
{
    assert(rto_after_acks(c, q.push(x), now) == rto_after_acks(
        ack_sample_step(c, q.push(x)[0], now),
        q.push(x).skip(1),
        now,
    ));
    if q.len() == 0 {
        assert(q.push(x)[0] == x);
        assert(q.push(x).skip(1) =~= Seq::<UnackedSegment>::empty());
        assert(rto_after_acks(ack_sample_step(c, x, now), Seq::<UnackedSegment>::empty(), now)
            == ack_sample_step(c, x, now));
    } else {
        assert(q.push(x)[0] == q[0]);
        assert(q.push(x).skip(1) =~= q.skip(1).push(x));
        lemma_rto_after_acks_push(ack_sample_step(c, q[0], now), q.skip(1), x, now);
    }
}

/// How many leading ranges of `q` a forward advance of `acked` bytes
/// covers in full.
pub open spec fn retired_count(q: Seq<UnackedSegment>, acked: int) -> int
    decreases q.len(),
{
    if q.len() <= 0 || q[0].bytes@.len() > acked {
        0
    } else {
        1 + retired_count(q.skip(1), acked - q[0].bytes@.len())
    }
}

/// The ranges due for retransmission from position `i` on, oldest first,
/// each as its starting sequence number and its bytes.
pub open spec fn due_from(q: Seq<UnackedSegment>, i: int, now: u64, rto: u64) -> Seq<
    (u32, Seq<u8>),
>
    decreases q.len() - i,
{
    if i < 0 || i >= q.len() {
        Seq::empty()
    } else {
        (if due(q[i], now, rto) {
            seq![(q[i].seq_no, q[i].bytes@)]
        } else {
            Seq::empty()
        }) + due_from(q, i + 1, now, rto)
    }
}

/// A byte range handed back for retransmission.
#[derive(Clone, Debug, PartialEq, Eq)]
pub struct Retransmit {
    /// Sequence number of the range's first byte.
    pub seq_no: u32,
    /// The bytes to resend.
    pub payload: Vec<u8>,
}

pub open spec fn retransmit_pairs(r: Seq<Retransmit>) -> Seq<(u32, Seq<u8>)> {
    r.map_values(|t: Retransmit| (t.seq_no, t.payload@))
}

/// Per-connection send window, the mirror of the receive window.
pub struct TcpSendWindow {
    /// Oldest unacknowledged sequence number.
    pub send_unacked: u32,
    /// Next sequence number to assign to new data.
    pub send_next: u32,
    /// Application bytes not yet handed out for transmission.
    pub unsent: Vec<u8>,
    /// Sent-but-unacknowledged ranges, oldest first, contiguous from
    /// `send_unacked`.
    pub inflight: Vec<UnackedSegment>,
    /// Total bytes across `inflight`; cached for constant-time window
    /// arithmetic.
    pub bytes_in_flight: u32,
    /// Negotiated maximum segment size.
    pub mss: usize,
    /// The peer's last-advertised receive window.
    pub remote_window: u32,
    /// Retransmission-timeout estimator.
    pub rto: RtoCalculator,
}

impl TcpSendWindow {
    /// The sender's invariant: the in-flight queue is contiguous from
    /// `send_unacked`, holds exactly `bytes_in_flight` bytes in non-empty
    /// ranges, `send_next` sits at its end, and everything stays well
    /// under half the sequence space.
    pub open spec fn wf(self) -> bool {
        &&& 1 <= self.mss <= MAX_MSS
        &&& self.remote_window <= 0x7FFF_FFFF
        &&& self.bytes_in_flight == concat_bytes(self.inflight@).len()
        &&& self.bytes_in_flight <= 0x7FFF_FFFF
        &&& self.send_next == seq_add(self.send_unacked, self.bytes_in_flight)
        &&& chain_from(self.inflight@, self.send_unacked)
        &&& all_nonempty(self.inflight@)
        &&& self.rto.wf()
    }

    /// Peer capacity not yet consumed by in-flight bytes.
    pub open spec fn window_remaining(self) -> int {
        if self.remote_window > self.bytes_in_flight {
            self.remote_window - self.bytes_in_flight
        } else {
            0
        }
    }

    /// How many bytes the next transmission may carry:
    /// `min(mss, peer window remaining, requested cap, bytes buffered)`.
    pub open spec fn transmit_size(self, limit: Option<usize>) -> int {
        let cap = spec_min(self.mss as int, self.window_remaining());
        let want = match limit {
            Option::None => self.unsent@.len() as int,
            Option::Some(l) => spec_min(l as int, self.unsent@.len() as int),
        };
        spec_min(cap, want)
    }

    /// A fresh send window at the local initial sequence number, with
    /// nothing buffered, nothing in flight, and the peer window unknown
    /// (zero) until the first advertisement arrives.
    pub fn new(local_isn: u32, advertised_mss: usize) -> (r: TcpSendWindow)
        requires
            1 <= advertised_mss <= MAX_MSS,
        ensures
            r.wf(),
            r.send_unacked == local_isn,
            r.send_next == local_isn,
            r.unsent@.len() == 0,
            r.inflight@.len() == 0,
            r.bytes_in_flight == 0,
            r.mss == advertised_mss,
            r.remote_window == 0,
            r.rto.rto == crate::rto::RTO_INITIAL_MS,
            !r.rto.has_sample,
    {
        TcpSendWindow {
            send_unacked: local_isn,
            send_next: local_isn,
            unsent: Vec::new(),
            inflight: Vec::new(),
            bytes_in_flight: 0,
            mss: advertised_mss,
            remote_window: 0,
            rto: RtoCalculator::new(),
        }
    }

    pub fn get_mss(&self) -> (r: usize)
        ensures
            r == self.mss,
    {
        self.mss
    }

    pub fn get_last_seq_num(&self) -> (r: u32)
        ensures
            r == self.send_next,
    {
        self.send_next
    }

    /// The timeout currently applied to retransmission deadlines.
    pub fn get_rto(&self) -> (r: u64)
        requires
            self.wf(),
        ensures
            r == self.rto.rto,
    {
        self.rto.current_timeout()
    }

    /// Consumes one sequence number for connection control (a SYN or FIN),
    /// which happens only while nothing is in flight.
    pub fn incr_seq_num(&mut self)
        requires
            old(self).wf(),
            old(self).inflight@.len() == 0,
        ensures
            final(self).wf(),
            final(self).send_unacked == seq_add(old(self).send_unacked, 1),
            final(self).send_next == seq_add(old(self).send_next, 1),
            *final(self) == (TcpSendWindow {
                send_unacked: final(self).send_unacked,
                send_next: final(self).send_next,
                ..*old(self)
            }),
    {
        self.send_unacked = wrapping_add(self.send_unacked, 1);
        self.send_next = wrapping_add(self.send_next, 1);
    }

    /// Reconciles the locally configured maximum segment size against the
    /// peer's advertisement: the smaller of the two, or the conventional
    /// fallback when the peer offers none. Fails — leaving the window
    /// untouched — exactly when the outcome would be zero, which happens
    /// exactly on a peer advertisement of zero.
    pub fn negotiate_mss(&mut self, remote_mss: Option<usize>) -> (r: Result<(), Fail>)
        requires
            old(self).wf(),
        ensures
            final(self).wf(),
            remote_mss == Some(0usize) ==> r == Result::<(), Fail>::Err(Fail::NegotiationFailure)
                && *final(self) == *old(self),
            remote_mss != Some(0usize) ==> {
                &&& r == Result::<(), Fail>::Ok(())
                &&& final(self).mss == (match remote_mss {
                    Option::None => FALLBACK_MSS as int,
                    Option::Some(m) => spec_min(old(self).mss as int, m as int),
                })
                &&& *final(self) == (TcpSendWindow { mss: final(self).mss, ..*old(self) })
            },
    {
        let new_mss = match remote_mss {
            None => FALLBACK_MSS,
            Some(m) => if m < self.mss {
                m
            } else {
                self.mss
            },
        };
        if new_mss == 0 {
            return Err(Fail::NegotiationFailure);
        }
        self.mss = new_mss;
        Ok(())
    }

    /// Records the peer's newly advertised receive window.
    pub fn set_remote_receive_window_size(&mut self, size: u32)
        requires
            old(self).wf(),
            size <= 0x7FFF_FFFF,
        ensures
            final(self).wf(),
            *final(self) == (TcpSendWindow { remote_window: size, ..*old(self) }),
    {
        self.remote_window = size;
    }

    /// Appends application data to the outgoing buffer. Always succeeds:
    /// buffering is unbounded at this layer, and backpressure is the
    /// caller's policy.
    pub fn push(&mut self, bytes: Vec<u8>)
        requires
            old(self).wf(),
        ensures
            final(self).wf(),
            final(self).unsent@ == old(self).unsent@ + bytes@,
            *final(self) == (TcpSendWindow { unsent: final(self).unsent, ..*old(self) }),
    {
        let mut incoming = bytes;
        self.unsent.append(&mut incoming);
    }

    /// Hands out the next transmittable bytes: up to
    /// `min(mss, peer window remaining, optional_byte_count, buffered)`
    /// not-yet-sent bytes, or `None` when that bound is zero (nothing
    /// buffered, a zero peer window — the persist condition — or a zero
    /// request). The returned range joins the in-flight queue stamped with
    /// `now` for retransmission tracking.
    #[verifier::rlimit(60)]
    pub fn get_next_transmittable_payload(
        &mut self,
        optional_byte_count: Option<usize>,
        now: u64,
    ) -> (r: Option<Vec<u8>>)
        requires
            old(self).wf(),
        ensures
            final(self).wf(),
            old(self).transmit_size(optional_byte_count) == 0 ==> r is None && *final(self)
                == *old(self),
            old(self).transmit_size(optional_byte_count) > 0 ==> {
                let k = old(self).transmit_size(optional_byte_count);
                &&& r matches Some(p) && p@ == old(self).unsent@.take(k)
                &&& final(self).unsent@ == old(self).unsent@.skip(k)
                &&& final(self).inflight@.len() == old(self).inflight@.len() + 1
                &&& final(self).inflight@.last().seq_no == old(self).send_next
                &&& final(self).inflight@.last().bytes@ == old(self).unsent@.take(k)
                &&& final(self).inflight@.last().send_time == now
                &&& final(self).inflight@.last().retries == 0
                &&& forall|i: int|
                    0 <= i < old(self).inflight@.len() ==> #[trigger] final(self).inflight@[i]
                        == old(self).inflight@[i]
                &&& concat_bytes(final(self).inflight@) == concat_bytes(old(self).inflight@)
                    + old(self).unsent@.take(k)
                &&& final(self).bytes_in_flight == old(self).bytes_in_flight + k
                &&& final(self).send_next == seq_add(old(self).send_next, k as u32)
                &&& final(self).send_unacked == old(self).send_unacked
                &&& final(self).mss == old(self).mss
                &&& final(self).remote_window == old(self).remote_window
                &&& final(self).rto == old(self).rto
            },
    {
        let mut k: usize = self.mss;
        let avail: u32 = if self.remote_window > self.bytes_in_flight {
            self.remote_window - self.bytes_in_flight
        } else {
            0
        };
        if (avail as usize) < k {
            k = avail as usize;
        }
        if let Some(limit) = optional_byte_count {
            if limit < k {
                k = limit;
            }
        }
        if self.unsent.len() < k {
            k = self.unsent.len();
        }
        if k == 0 {
            return None;
        }
        let mut payload: Vec<u8> = Vec::new();
        let mut i: usize = 0;
        while i < k
            invariant
                i <= k,
                k <= self.unsent@.len(),
                payload@ == self.unsent@.take(i as int),
            decreases k - i,
        {
            payload.push(self.unsent[i]);
            proof {
                assert(payload@ =~= self.unsent@.take(i as int + 1));
            }
            i += 1;
        }
        let mut rest: Vec<u8> = Vec::new();
        let mut j: usize = k;
        while j < self.unsent.len()
            invariant
                k <= j <= self.unsent@.len(),
                rest@ == self.unsent@.subrange(k as int, j as int),
            decreases self.unsent@.len() - j,
        {
            rest.push(self.unsent[j]);
            proof {
                assert(rest@ =~= self.unsent@.subrange(k as int, j as int + 1));
            }
            j += 1;
        }
        proof {
            assert(rest@ =~= self.unsent@.skip(k as int));
        }
        let seg_bytes = copy_bytes(&payload);
        let entry = UnackedSegment {
            seq_no: self.send_next,
            bytes: seg_bytes,
            send_time: now,
            retries: 0,
        };
        proof {
            lemma_concat_push(self.inflight@, entry);
            lemma_chain_push(self.inflight@, self.send_unacked, entry);
            lemma_seq_add_assoc(self.send_unacked, self.bytes_in_flight, k as u32);
        }
        self.unsent = rest;
        let ghost prev_inflight = self.inflight@;
        self.inflight.push(entry);
        proof {
            assert(all_nonempty(self.inflight@)) by {
                assert forall|t: int|
                    0 <= t < self.inflight@.len() implies #[trigger] self.inflight@[t].bytes@.len()
                    >= 1 by {
                    if t < prev_inflight.len() {
                        assert(self.inflight@[t] == prev_inflight[t]);
                        assert(prev_inflight[t].bytes@.len() >= 1);
                    } else {
                        assert(self.inflight@[t] == entry);
                    }
                }
            }
        }
        self.bytes_in_flight = self.bytes_in_flight + k as u32;
        self.send_next = wrapping_add(self.send_next, k as u32);
        Some(payload)
    }

    /// Advances `send_unacked` to `ack_num` if it is newer, retiring the
    /// in-flight ranges it covers; each retired range that was never
    /// retransmitted contributes its round-trip sample to the estimator,
    /// oldest first, as `rto_after_acks` states. A
    /// duplicate acknowledgement (`ack_num == send_unacked`) is ignored;
    /// one covering bytes never sent is a protocol violation by the peer.
    /// Either failure leaves the window untouched.
    #[verifier::rlimit(60)]
    pub fn acknowledge(&mut self, ack_num: u32, now: u64) -> (r: Result<(), Fail>)
        requires
            old(self).wf(),
        ensures
            final(self).wf(),
            ack_num == old(self).send_unacked ==> r == Result::<(), Fail>::Err(Fail::Ignored)
                && *final(self) == *old(self),
            seq_sub(ack_num, old(self).send_unacked) > old(self).bytes_in_flight ==> r
                == Result::<(), Fail>::Err(Fail::ProtocolViolation) && *final(self) == *old(self),
            ack_num != old(self).send_unacked && seq_sub(ack_num, old(self).send_unacked)
                <= old(self).bytes_in_flight ==> {
                let acked = seq_sub(ack_num, old(self).send_unacked) as int;
                &&& r == Result::<(), Fail>::Ok(())
                &&& final(self).send_unacked == ack_num
                &&& concat_bytes(final(self).inflight@) == concat_bytes(
                    old(self).inflight@,
                ).skip(acked)
                &&& final(self).bytes_in_flight == old(self).bytes_in_flight - acked
                &&& final(self).send_next == old(self).send_next
                &&& final(self).unsent == old(self).unsent
                &&& final(self).mss == old(self).mss
                &&& final(self).remote_window == old(self).remote_window
                &&& final(self).rto == rto_after_acks(
                    old(self).rto,
                    old(self).inflight@.take(retired_count(old(self).inflight@, acked)),
                    now,
                )
            },
    {
        let acked: u32 = wrapping_sub(ack_num, self.send_unacked);
        if acked == 0 {
            return Err(Fail::Ignored);
        }
        if acked > self.bytes_in_flight {
            return Err(Fail::ProtocolViolation);
        }
        let mut remaining: u32 = acked;
        let ghost mut popped: int = 0;
        proof {
            assert(old(self).inflight@.skip(0) =~= old(self).inflight@);
            assert(old(self).inflight@.take(0) =~= Seq::<UnackedSegment>::empty());
        }
        while remaining > 0
            invariant
                self.wf(),
                old(self).wf(),
                0 < acked <= old(self).bytes_in_flight,
                remaining <= acked,
                remaining <= self.bytes_in_flight,
                self.send_unacked == seq_add(old(self).send_unacked, (acked - remaining) as u32),
                self.bytes_in_flight == old(self).bytes_in_flight - (acked - remaining),
                concat_bytes(self.inflight@) == concat_bytes(old(self).inflight@).skip(
                    acked - remaining,
                ),
                self.send_next == old(self).send_next,
                self.unsent == old(self).unsent,
                self.mss == old(self).mss,
                self.remote_window == old(self).remote_window,
                0 <= popped <= old(self).inflight@.len(),
                self.rto == rto_after_acks(
                    old(self).rto,
                    old(self).inflight@.take(popped),
                    now,
                ),
                remaining > 0 ==> self.inflight@ == old(self).inflight@.skip(popped),
                remaining > 0 ==> retired_count(old(self).inflight@, acked as int) == popped
                    + retired_count(old(self).inflight@.skip(popped), remaining as int),
                remaining == 0 ==> popped == retired_count(old(self).inflight@, acked as int),
            decreases remaining,
        {
            proof {
                if self.inflight@.len() == 0 {
                    assert(concat_bytes(self.inflight@).len() == 0);
                }
                assert(concat_bytes(self.inflight@) == self.inflight@[0].bytes@ + concat_bytes(
                    self.inflight@.skip(1),
                ));
            }
            let ghost q = self.inflight@;
            let ghost u = self.send_unacked;
            let ghost done = acked - remaining;
            let head_len_usize = self.inflight[0].bytes.len();
            let head_len: u32 = head_len_usize as u32;
            if head_len <= remaining {
                let ghost rto_before = self.rto;
                let seg = self.inflight.remove(0);
                proof {
                    assert(q.remove(0) =~= q.skip(1));
                    assert((seg.bytes@ + concat_bytes(q.skip(1))).skip(head_len as int)
                        =~= concat_bytes(q.skip(1)));
                    vstd::seq_lib::lemma_seq_skip_of_skip(
                        concat_bytes(old(self).inflight@),
                        done,
                        head_len as int,
                    );
                    lemma_seq_add_assoc(old(self).send_unacked, done as u32, head_len);
                    lemma_seq_add_assoc(u, head_len, (self.bytes_in_flight - head_len) as u32);
                    assert(all_nonempty(q.skip(1))) by {
                        assert forall|t: int| 0 <= t < q.skip(1).len() implies #[trigger] q.skip(
                            1,
                        )[t].bytes@.len() >= 1 by {
                            assert(q.skip(1)[t] == q[t + 1]);
                        }
                    }
                }
                if seg.retries == 0 && now >= seg.send_time {
                    let rtt = now - seg.send_time;
                    if rtt <= RTT_SAMPLE_MAX_MS {
                        self.rto.record_sample(rtt);
                    }
                }
                self.bytes_in_flight = self.bytes_in_flight - head_len;
                self.send_unacked = wrapping_add(self.send_unacked, head_len);
                remaining = remaining - head_len;
                proof {
                    assert(self.inflight@ == q.skip(1));
                    assert(concat_bytes(q) == concat_bytes(old(self).inflight@).skip(done));
                    assert(concat_bytes(q) == seg.bytes@ + concat_bytes(q.skip(1)));
                    assert(concat_bytes(q.skip(1)) =~= concat_bytes(q).skip(head_len as int));
                    assert(concat_bytes(self.inflight@) == concat_bytes(
                        old(self).inflight@,
                    ).skip(done + head_len));
                    assert(acked - remaining == done + head_len);
                    // The retired range is the next entry of the original
                    // queue; fold its sample into the estimator model.
                    assert(q == old(self).inflight@.skip(popped));
                    assert(seg == old(self).inflight@[popped]);
                    assert(self.rto == ack_sample_step(rto_before, seg, now));
                    assert(old(self).inflight@.take(popped + 1)
                        =~= old(self).inflight@.take(popped).push(old(self).inflight@[popped]));
                    lemma_rto_after_acks_push(
                        old(self).rto,
                        old(self).inflight@.take(popped),
                        old(self).inflight@[popped],
                        now,
                    );
                    vstd::seq_lib::lemma_seq_skip_of_skip(old(self).inflight@, popped, 1);
                    assert(retired_count(old(self).inflight@.skip(popped), remaining + head_len)
                        == 1 + retired_count(
                        old(self).inflight@.skip(popped + 1),
                        remaining as int,
                    ));
                    if remaining == 0 {
                        let rest = old(self).inflight@.skip(popped + 1);
                        if rest.len() > 0 {
                            assert(rest[0] == old(self).inflight@[popped + 1]);
                            assert(rest[0].bytes@.len() >= 1);
                        }
                        assert(retired_count(rest, 0) == 0);
                    }
                    popped = popped + 1;
                }
            } else {
                // The head range is only partially covered: retire its
                // acknowledged prefix and keep the rest in flight.
                let head = self.inflight.remove(0);
                let tail = copy_suffix(&head.bytes, remaining as usize);
                let new_seq = wrapping_add(self.send_unacked, remaining);
                let replacement = UnackedSegment {
                    seq_no: new_seq,
                    bytes: tail,
                    send_time: head.send_time,
                    retries: head.retries,
                };
                self.inflight.insert(0, replacement);
                proof {
                    assert(q.remove(0) =~= q.skip(1));
                    assert(self.inflight@ =~= seq![replacement] + q.skip(1));
                    assert(self.inflight@[0] == replacement);
                    assert(self.inflight@.skip(1) =~= q.skip(1));
                    assert(concat_bytes(self.inflight@) == replacement.bytes@ + concat_bytes(
                        q.skip(1),
                    ));
                    assert(replacement.bytes@ + concat_bytes(q.skip(1)) =~= (head.bytes@
                        + concat_bytes(q.skip(1))).skip(remaining as int));
                    vstd::seq_lib::lemma_seq_skip_of_skip(
                        concat_bytes(old(self).inflight@),
                        done,
                        remaining as int,
                    );
                    lemma_seq_add_assoc(old(self).send_unacked, done as u32, remaining);
                    lemma_seq_add_assoc(u, remaining, (head_len - remaining) as u32);
                    lemma_seq_add_assoc(
                        new_seq,
                        (head_len - remaining) as u32,
                        (self.bytes_in_flight - head_len) as u32,
                    );
                    assert(all_nonempty(self.inflight@)) by {
                        assert forall|t: int|
                            0 <= t < self.inflight@.len() implies #[trigger] self.inflight@[t].bytes@.len()
                            >= 1 by {
                            if t > 0 {
                                assert(self.inflight@[t] == q[t]);
                                assert(q[t].bytes@.len() >= 1);
                            } else {
                                assert(self.inflight@[0] == replacement);
                                assert(replacement.bytes@.len() == head.bytes@.len()
                                    - remaining);
                            }
                        }
                    }
                }
                self.bytes_in_flight = self.bytes_in_flight - remaining;
                self.send_unacked = new_seq;
                proof {
                    assert(concat_bytes(q) == concat_bytes(old(self).inflight@).skip(done));
                    assert(concat_bytes(q) == head.bytes@ + concat_bytes(q.skip(1)));
                    assert(concat_bytes(self.inflight@) =~= concat_bytes(q).skip(
                        remaining as int,
                    ));
                    assert(concat_bytes(self.inflight@) == concat_bytes(
                        old(self).inflight@,
                    ).skip(done + remaining));
                    // The partially covered head is not retired: the count
                    // of fully retired ranges closes at `popped`.
                    assert(q == old(self).inflight@.skip(popped));
                    assert(head == old(self).inflight@[popped]);
                    assert(retired_count(old(self).inflight@.skip(popped), remaining as int)
                        == 0);
                }
                remaining = 0;
            }
        }
        proof {
            crate::seq_num::lemma_seq_sub_add_cancel(ack_num, old(self).send_unacked);
        }
        Ok(())
    }

    /// Scans the in-flight queue for ranges whose retransmission deadline
    /// (`send_time` plus the current timeout) has elapsed: each one's retry
    /// counter is incremented and its timestamp re-marked with `now`, and
    /// all of them are returned oldest first. Fails with `PeerUnreachable`
    /// — how dead-peer detection is surfaced — exactly when some due range
    /// has already been retried `max_retries` times.
    pub fn get_retransmissions(&mut self, now: u64, max_retries: u32) -> (r: Result<
        Vec<Retransmit>,
        Fail,
    >)
        requires
            old(self).wf(),
        ensures
            final(self).wf(),
            final(self).send_unacked == old(self).send_unacked,
            final(self).send_next == old(self).send_next,
            final(self).bytes_in_flight == old(self).bytes_in_flight,
            final(self).unsent == old(self).unsent,
            final(self).mss == old(self).mss,
            final(self).remote_window == old(self).remote_window,
            final(self).rto == old(self).rto,
            final(self).inflight@.len() == old(self).inflight@.len(),
            forall|t: int|
                0 <= t < old(self).inflight@.len() ==> (#[trigger] final(self).inflight@[t]).seq_no
                    == old(self).inflight@[t].seq_no && final(self).inflight@[t].bytes@ == old(
                    self,
                ).inflight@[t].bytes@,
            r is Err <==> (exists|t: int|
                0 <= t < old(self).inflight@.len() && due(
                    #[trigger] old(self).inflight@[t],
                    now,
                    old(self).rto.rto,
                ) && old(self).inflight@[t].retries >= max_retries),
            r is Err ==> r == Result::<Vec<Retransmit>, Fail>::Err(Fail::PeerUnreachable),
            r matches Ok(v) ==> retransmit_pairs(v@) == due_from(
                old(self).inflight@,
                0,
                now,
                old(self).rto.rto,
            ),
            r is Ok ==> forall|t: int|
                0 <= t < old(self).inflight@.len() ==> (if due(
                    #[trigger] old(self).inflight@[t],
                    now,
                    old(self).rto.rto,
                ) {
                    final(self).inflight@[t].send_time == now && final(self).inflight@[t].retries
                        == old(self).inflight@[t].retries + 1
                } else {
                    final(self).inflight@[t] == old(self).inflight@[t]
                }),
    {
        let rto_val = self.rto.current_timeout();
        let mut out: Vec<Retransmit> = Vec::new();
        let mut i: usize = 0;
        while i < self.inflight.len()
            invariant
                old(self).wf(),
                rto_val == old(self).rto.rto,
                i <= self.inflight@.len(),
                self.inflight@.len() == old(self).inflight@.len(),
                self.send_unacked == old(self).send_unacked,
                self.send_next == old(self).send_next,
                self.bytes_in_flight == old(self).bytes_in_flight,
                self.unsent == old(self).unsent,
                self.mss == old(self).mss,
                self.remote_window == old(self).remote_window,
                self.rto == old(self).rto,
                forall|t: int|
                    0 <= t < self.inflight@.len() ==> (#[trigger] self.inflight@[t]).seq_no == old(
                        self,
                    ).inflight@[t].seq_no && self.inflight@[t].bytes@ == old(
                        self,
                    ).inflight@[t].bytes@,
                forall|t: int|
                    i <= t < self.inflight@.len() ==> #[trigger] self.inflight@[t] == old(
                        self,
                    ).inflight@[t],
                forall|t: int|
                    0 <= t < i ==> (if due(#[trigger] old(self).inflight@[t], now, rto_val) {
                        self.inflight@[t].send_time == now && self.inflight@[t].retries == old(
                            self,
                        ).inflight@[t].retries + 1
                    } else {
                        self.inflight@[t] == old(self).inflight@[t]
                    }),
                forall|t: int|
                    0 <= t < i && due(#[trigger] old(self).inflight@[t], now, rto_val) ==> old(
                        self,
                    ).inflight@[t].retries < max_retries,
                retransmit_pairs(out@) + due_from(old(self).inflight@, i as int, now, rto_val)
                    == due_from(old(self).inflight@, 0, now, rto_val),
            decreases self.inflight@.len() - i,
        {
            proof {
                assert(self.inflight@[i as int] == old(self).inflight@[i as int]);
                assert(due_from(old(self).inflight@, i as int, now, rto_val) == (if due(
                    old(self).inflight@[i as int],
                    now,
                    rto_val,
                ) {
                    seq![
                        (
                            old(self).inflight@[i as int].seq_no,
                            old(self).inflight@[i as int].bytes@,
                        ),
                    ]
                } else {
                    Seq::empty()
                }) + due_from(old(self).inflight@, i as int + 1, now, rto_val));
            }
            let st = self.inflight[i].send_time;
            let is_due = st <= now && now - st >= rto_val;
            if is_due {
                if self.inflight[i].retries >= max_retries {
                    proof {
                        lemma_same_layout(
                            self.inflight@,
                            old(self).inflight@,
                            old(self).send_unacked,
                        );
                    }
                    return Err(Fail::PeerUnreachable);
                }
                let seq_no = self.inflight[i].seq_no;
                let retries = self.inflight[i].retries;
                let payload = copy_bytes(&self.inflight[i].bytes);
                let stored = copy_bytes(&self.inflight[i].bytes);
                let updated = UnackedSegment {
                    seq_no,
                    bytes: stored,
                    send_time: now,
                    retries: retries + 1,
                };
                let ghost q_before = self.inflight@;
                let ghost out_before = out@;
                let _removed = self.inflight.remove(i);
                self.inflight.insert(i, updated);
                let item = Retransmit { seq_no, payload };
                out.push(item);
                proof {
                    assert(self.inflight@ =~= q_before.update(i as int, updated));
                    assert(retransmit_pairs(out@) =~= retransmit_pairs(out_before).push(
                        (item.seq_no, item.payload@),
                    ));
                    assert(retransmit_pairs(out_before) + seq![(item.seq_no, item.payload@)]
                        =~= retransmit_pairs(out_before).push((item.seq_no, item.payload@)));
                    assert((retransmit_pairs(out_before) + seq![(item.seq_no, item.payload@)])
                        + due_from(old(self).inflight@, i as int + 1, now, rto_val)
                        =~= retransmit_pairs(out_before) + (seq![(item.seq_no, item.payload@)]
                        + due_from(old(self).inflight@, i as int + 1, now, rto_val)));
                }
            } else {
                proof {
                    assert(Seq::<(u32, Seq<u8>)>::empty() + due_from(
                        old(self).inflight@,
                        i as int + 1,
                        now,
                        rto_val,
                    ) =~= due_from(old(self).inflight@, i as int + 1, now, rto_val));
                }
            }
            i += 1;
        }
        proof {
            assert(due_from(old(self).inflight@, i as int, now, rto_val) == Seq::<(
                u32,
                Seq<u8>,
            )>::empty());
            assert(retransmit_pairs(out@) + Seq::<(u32, Seq<u8>)>::empty() =~= retransmit_pairs(
                out@,
            ));
            lemma_same_layout(self.inflight@, old(self).inflight@, old(self).send_unacked);
        }
        Ok(out)
    }
}

/// Abstract state of the transmit loop: the bytes still buffered, the
/// concatenation of every payload handed out so far, how much of that
/// stream the peer has acknowledged, the peer window, and the segment-size
/// bound. `tx_take` and `tx_step` mirror `get_next_transmittable_payload`
/// with no requested cap: each draw takes
/// `min(mss, window - bytes outstanding, bytes buffered)` — outstanding
/// being `sent.len() - acked`, the model's `bytes_in_flight` — and appends
/// it to the sent stream. `tx_ack` mirrors `acknowledge` freeing window
/// headroom, `tx_window` mirrors `set_remote_receive_window_size`.
pub ghost struct TxModel {
    pub unsent: Seq<u8>,
    pub sent: Seq<u8>,
    pub acked: int,
    pub window: int,
    pub mss: int,
}

/// How many bytes the next draw hands out; never negative, as the
/// headroom floor of `window_remaining` mirrors.
pub open spec fn tx_take(m: TxModel) -> int {
    let raw = spec_min(
        spec_min(m.mss, m.window - (m.sent.len() - m.acked)),
        m.unsent.len() as int,
    );
    if raw >= 0 {
        raw
    } else {
        0
    }
}

/// One draw: the taken prefix moves from the buffer to the sent stream.
pub open spec fn tx_step(m: TxModel) -> TxModel {
    TxModel {
        unsent: m.unsent.skip(tx_take(m)),
        sent: m.sent + m.unsent.take(tx_take(m)),
        ..m
    }
}

/// The peer acknowledges `n` more bytes of the sent stream.
pub open spec fn tx_ack(m: TxModel, n: int) -> TxModel {
    TxModel { acked: m.acked + n, ..m }
}

/// The peer advertises a new receive window.
pub open spec fn tx_window(m: TxModel, w: int) -> TxModel {
    TxModel { window: w, ..m }
}

/// One event of a transmit schedule: a draw, an acknowledgement of `n`
/// bytes, or a peer-window update to `w`.
pub ghost enum TxAction {
    Transmit,
    Acknowledge(int),
    WindowUpdate(int),
}

pub open spec fn tx_apply(m: TxModel, a: TxAction) -> TxModel {
    match a {
        TxAction::Transmit => tx_step(m),
        TxAction::Acknowledge(n) => tx_ack(m, n),
        TxAction::WindowUpdate(w) => tx_window(m, w),
    }
}

/// The state after a whole schedule of events, oldest first.
pub open spec fn tx_run(m: TxModel, actions: Seq<TxAction>) -> TxModel
    decreases actions.len(),
{
    if actions.len() <= 0 {
        m
    } else {
        tx_run(tx_apply(m, actions[0]), actions.skip(1))
    }
}

/// Any schedule of draws, acknowledgements and peer-window updates hands
/// bytes out in order with no gaps and no duplicates: the sent stream plus
/// what is still buffered is always exactly what was pushed, and the sent
/// stream only ever grows by appending.
pub proof fn lemma_transmit_stream_exact(m: TxModel, actions: Seq<TxAction>)
    ensures
        tx_run(m, actions).sent + tx_run(m, actions).unsent == m.sent + m.unsent,
        tx_run(m, actions).sent.len() >= m.sent.len(),
        tx_run(m, actions).sent.take(m.sent.len() as int) == m.sent,
        tx_run(m, actions).mss == m.mss,
    decreases actions.len(),
{
    if actions.len() == 0 {
        assert(m.sent.take(m.sent.len() as int) =~= m.sent);
    } else {
        let m1 = tx_apply(m, actions[0]);
        lemma_transmit_stream_exact(m1, actions.skip(1));
        let f = tx_run(m, actions);
        assert(f == tx_run(m1, actions.skip(1)));
        match actions[0] {
            TxAction::Transmit => {
                let k = tx_take(m);
                assert(m.unsent.take(k) + m.unsent.skip(k) =~= m.unsent);
                assert((m.sent + m.unsent.take(k)) + m.unsent.skip(k) =~= m.sent + (m.unsent.take(
                    k,
                ) + m.unsent.skip(k)));
                assert(f.sent + f.unsent =~= m.sent + m.unsent);
            },
            TxAction::Acknowledge(_) => {},
            TxAction::WindowUpdate(_) => {},
        }
        assert(f.sent.take(m.sent.len() as int) =~= f.sent.take(m1.sent.len() as int).take(
            m.sent.len() as int,
        ));
        assert(m1.sent.take(m.sent.len() as int) =~= m.sent);
    }
}

/// Draws until nothing more may be sent.
pub open spec fn tx_drain(m: TxModel) -> TxModel
    decreases m.unsent.len(),
{
    if tx_take(m) <= 0 {
        m
    } else {
        tx_drain(tx_step(m))
    }
}

/// Round trip of the outgoing buffer: as long as the peer window covers
/// everything outstanding, repeatedly drawing transmittable payloads —
/// each bounded by the segment size and the window — hands out exactly the
/// buffered bytes, in order, with no gaps and no duplicates, and empties
/// the buffer.
pub proof fn lemma_transmit_round_trip(m: TxModel)
    requires
        m.mss >= 1,
        0 <= m.acked <= m.sent.len(),
        m.window >= (m.sent.len() - m.acked) + m.unsent.len(),
    ensures
        tx_drain(m).sent == m.sent + m.unsent,
        tx_drain(m).unsent.len() == 0,
    decreases m.unsent.len(),
{
    if m.unsent.len() == 0 {
        assert(tx_take(m) <= 0);
        assert(m.sent + m.unsent =~= m.sent);
    } else {
        assert(tx_take(m) >= 1);
        let k = tx_take(m);
        let m1 = tx_step(m);
        lemma_transmit_round_trip(m1);
        assert(m.unsent.take(k) + m.unsent.skip(k) =~= m.unsent);
        assert((m.sent + m.unsent.take(k)) + m.unsent.skip(k) =~= m.sent + (m.unsent.take(k)
            + m.unsent.skip(k)));
    }
}

/// The round trip under an arbitrary schedule: after any interleaving of
/// draws, acknowledgements and peer-window updates, whenever the peer
/// window comes to cover what is still outstanding and buffered, draining
/// the buffer makes the whole sent stream exactly the pushed bytes, in
/// order, with no gaps and no duplicates.
pub proof fn lemma_transmit_round_trip_with_acks(m: TxModel, actions: Seq<TxAction>)
    requires
        m.mss >= 1,
    ensures
        ({
            let f = tx_run(m, actions);
            (0 <= f.acked <= f.sent.len() && f.window >= (f.sent.len() - f.acked)
                + f.unsent.len()) ==> tx_drain(f).sent == m.sent + m.unsent
                && tx_drain(f).unsent.len() == 0
        }),
{
    lemma_transmit_stream_exact(m, actions);
    let f = tx_run(m, actions);
    if 0 <= f.acked <= f.sent.len() && f.window >= (f.sent.len() - f.acked) + f.unsent.len() {
        lemma_transmit_round_trip(f);
    }
}

} // verus!
