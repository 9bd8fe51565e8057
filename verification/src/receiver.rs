//! The receive window: accepts strictly in-order segments, buffers them for
//! the application, enforces flow-control capacity, and schedules delayed
//! acknowledgements.

use vstd::prelude::*;

use crate::fail::Fail;
use crate::seq_num::{
    lemma_seq_add_extend, lemma_seq_add_sub, lemma_seq_sub_self, lemma_seq_sub_split, precedes,
    seq_add, seq_lt, seq_sub, wrapping_add, wrapping_sub,
};

verus! {

/// How long an acknowledgement may be deferred to coalesce with later
/// traffic, in milliseconds.
pub const DELAYED_ACK_MS: u64 = 500;

/// Total bytes held in a queue of received chunks.
pub open spec fn buffered_bytes(q: Seq<Vec<u8>>) -> int
    decreases q.len(),
{
    if q.len() <= 0 {
        0
    } else {
        q[0]@.len() + buffered_bytes(q.skip(1))
    }
}

pub proof fn lemma_buffered_bytes_nonneg(q: Seq<Vec<u8>>)
    ensures
        buffered_bytes(q) >= 0,
    decreases q.len(),
{
    if q.len() > 0 {
        lemma_buffered_bytes_nonneg(q.skip(1));
    }
}

pub proof fn lemma_buffered_bytes_push(q: Seq<Vec<u8>>, b: Vec<u8>)
    ensures
        buffered_bytes(q.push(b)) == buffered_bytes(q) + b@.len(),
    decreases q.len(),
{
    assert(buffered_bytes(q.push(b)) == q.push(b)[0]@.len() + buffered_bytes(q.push(b).skip(1)));
    if q.len() == 0 {
        assert(q.push(b)[0] == b);
        assert(q.push(b).skip(1) =~= Seq::<Vec<u8>>::empty());
        assert(buffered_bytes(Seq::<Vec<u8>>::empty()) == 0);
    } else {
        assert(q.push(b)[0] == q[0]);
        assert(q.push(b).skip(1) =~= q.skip(1).push(b));
        lemma_buffered_bytes_push(q.skip(1), b);
    }
}

/// What an accepted segment does to the acknowledgement deadline: a new
/// deadline is scheduled only if none is pending, so back-to-back segments
/// coalesce onto one deadline.
pub open spec fn deadline_after(deadline: Option<u64>, now: u64) -> Option<u64> {
    if deadline is None {
        Some((now + DELAYED_ACK_MS) as u64)
    } else {
        deadline
    }
}

/// Per-connection receive window.
///
/// ```text
///                      |----------------- window -----------------------|
///                 base_seq_no             ack_seq_no             recv_seq_no
///                      v                       v                       v
///  ... ----------------|-----------------------|-----------------------| (unavailable)
///          delivered          acknowledged           unacknowledged
/// ```
pub struct Receiver {
    /// False once the connection has been shut down: every further
    /// operation is refused.
    pub open: bool,
    /// First byte not yet delivered to the application.
    pub base_seq_no: u32,
    /// Received-but-undelivered chunks, contiguous from `base_seq_no`.
    pub recv_queue: Vec<Vec<u8>>,
    /// Sequence number most recently acknowledged to the peer.
    pub ack_seq_no: u32,
    /// Sequence number following the highest contiguous byte received.
    pub recv_seq_no: u32,
    /// Timestamp (milliseconds) by which an acknowledgement must go out;
    /// `None` while no acknowledgement is owed.
    pub ack_deadline: Option<u64>,
    /// Fixed capacity advertised to the peer.
    pub max_window_size: u32,
}

impl Receiver {
    /// Received-but-undelivered byte count: the forward distance from
    /// `base_seq_no` to `recv_seq_no`.
    pub open spec fn unread(self) -> int {
        seq_sub(self.recv_seq_no, self.base_seq_no) as int
    }

    /// Capacity still open to the peer.
    pub open spec fn spec_window(self) -> int {
        self.max_window_size - self.unread()
    }

    /// The receiver's invariant: the window fits in half the sequence
    /// space, the queue holds exactly the undelivered bytes, and capacity
    /// is never exceeded.
    pub open spec fn wf(self) -> bool {
        &&& self.max_window_size <= 0x7FFF_FFFF
        &&& buffered_bytes(self.recv_queue@) == self.unread()
        &&& self.unread() <= self.max_window_size
    }

    /// The acknowledgement point lies between `base_seq_no` and
    /// `recv_seq_no`. Every operation preserves this except a `recv` that
    /// delivers bytes not yet covered by `ack_sent`, which moves
    /// `base_seq_no` past the acknowledgement point.
    pub open spec fn acked_in_window(self) -> bool {
        seq_sub(self.ack_seq_no, self.base_seq_no) <= self.unread()
    }

    /// A fresh, open receiver positioned at sequence number zero.
    pub fn new(max_window_size: u32) -> (r: Receiver)
        requires
            max_window_size <= 0x7FFF_FFFF,
        ensures
            r.wf(),
            r.acked_in_window(),
            r.open,
            r.base_seq_no == 0,
            r.ack_seq_no == 0,
            r.recv_seq_no == 0,
            r.recv_queue@.len() == 0,
            r.ack_deadline is None,
            r.max_window_size == max_window_size,
    {
        proof {
            lemma_seq_sub_self(0);
        }
        Receiver {
            open: true,
            base_seq_no: 0,
            recv_queue: Vec::new(),
            ack_seq_no: 0,
            recv_seq_no: 0,
            ack_deadline: None,
            max_window_size,
        }
    }

    /// Positions the window at the peer's initial sequence number. Only
    /// meaningful while no received data is pending delivery.
    pub fn remote_isn(&mut self, value: u32)
        requires
            old(self).wf(),
            old(self).base_seq_no == old(self).recv_seq_no,
        ensures
            final(self).wf(),
            final(self).acked_in_window(),
            final(self).base_seq_no == value,
            final(self).ack_seq_no == value,
            final(self).recv_seq_no == value,
            final(self).open == old(self).open,
            final(self).recv_queue == old(self).recv_queue,
            final(self).ack_deadline == old(self).ack_deadline,
            final(self).max_window_size == old(self).max_window_size,
    {
        proof {
            lemma_seq_sub_self(old(self).recv_seq_no);
            lemma_seq_sub_self(value);
        }
        self.base_seq_no = value;
        self.ack_seq_no = value;
        self.recv_seq_no = value;
    }

    /// Marks the receiver shut down; every later operation fails with
    /// `Fail::Closed`.
    pub fn close(&mut self)
        requires
            old(self).wf(),
        ensures
            final(self).wf(),
            *final(self) == (Receiver { open: false, ..*old(self) }),
    {
        self.open = false;
    }

    /// Capacity currently advertised to the peer:
    /// `max_window_size - (recv_seq_no - base_seq_no)`. Never underflows:
    /// admission control keeps the undelivered bytes within capacity.
    pub fn window_size(&self) -> (r: u32)
        requires
            self.wf(),
        ensures
            r == self.spec_window(),
    {
        let outstanding = wrapping_sub(self.recv_seq_no, self.base_seq_no);
        self.max_window_size - outstanding
    }

    /// `recv_seq_no` if it exceeds `ack_seq_no` — received data not yet
    /// acknowledged — else `None`. Pure query.
    pub fn current_ack(&self) -> (r: Option<u32>)
        ensures
            r == (if seq_lt(self.ack_seq_no, self.recv_seq_no) {
                Some(self.recv_seq_no)
            } else {
                Option::<u32>::None
            }),
    {
        if precedes(self.ack_seq_no, self.recv_seq_no) {
            Some(self.recv_seq_no)
        } else {
            None
        }
    }

    /// Records that an acknowledgement covering exactly all received data
    /// has gone out: clears the pending deadline and advances `ack_seq_no`.
    /// A `seq_no` other than `recv_seq_no` would betray a sequencing bug in
    /// the surrounding state machine, so it is excluded outright.
    pub fn ack_sent(&mut self, seq_no: u32)
        requires
            old(self).wf(),
            seq_no == old(self).recv_seq_no,
        ensures
            final(self).wf(),
            final(self).acked_in_window(),
            final(self).ack_deadline is None,
            final(self).ack_seq_no == seq_no,
            *final(self) == (Receiver {
                ack_deadline: None,
                ack_seq_no: seq_no,
                ..*old(self)
            }),
    {
        self.ack_deadline = None;
        self.ack_seq_no = seq_no;
    }

    /// Whether no received data is waiting for the application.
    pub fn is_empty(&self) -> (r: bool)
        ensures
            r == (self.base_seq_no == self.recv_seq_no),
    {
        self.base_seq_no == self.recv_seq_no
    }

    /// Pops the oldest buffered chunk for delivery to the application.
    /// `Ok(None)` means no data is currently available; `Err(Closed)` that
    /// the receiver was shut down. On delivery, `base_seq_no` advances by
    /// the chunk's length and the window widens by the same amount.
    pub fn recv(&mut self) -> (r: Result<Option<Vec<u8>>, Fail>)
        requires
            old(self).wf(),
        ensures
            final(self).wf(),
            !old(self).open ==> r == Result::<Option<Vec<u8>>, Fail>::Err(Fail::Closed)
                && *final(self) == *old(self),
            old(self).open && old(self).base_seq_no == old(self).recv_seq_no ==> r == Result::<
                Option<Vec<u8>>,
                Fail,
            >::Ok(None) && *final(self) == *old(self),
            old(self).open && old(self).base_seq_no != old(self).recv_seq_no ==> {
                &&& old(self).recv_queue@.len() > 0
                &&& r matches Ok(b) && b == Some(old(self).recv_queue@[0])
                &&& final(self).recv_queue@ == old(self).recv_queue@.skip(1)
                &&& final(self).base_seq_no == seq_add(
                    old(self).base_seq_no,
                    old(self).recv_queue@[0]@.len() as u32,
                )
                &&& final(self).spec_window() == old(self).spec_window()
                    + old(self).recv_queue@[0]@.len()
                &&& final(self).ack_seq_no == old(self).ack_seq_no
                &&& final(self).recv_seq_no == old(self).recv_seq_no
                &&& final(self).ack_deadline == old(self).ack_deadline
                &&& final(self).open
                &&& final(self).max_window_size == old(self).max_window_size
                &&& old(self).acked_in_window() && old(self).recv_queue@[0]@.len() <= seq_sub(
                    old(self).ack_seq_no,
                    old(self).base_seq_no,
                ) ==> final(self).acked_in_window()
            },
    {
        if !self.open {
            return Err(Fail::Closed);
        }
        if self.base_seq_no == self.recv_seq_no {
            return Ok(None);
        }
        proof {
            // base != recv, so undelivered bytes exist and the queue holds them.
            lemma_buffered_bytes_nonneg(self.recv_queue@.skip(1));
            if self.recv_queue@.len() == 0 {
                assert(buffered_bytes(self.recv_queue@) == 0);
            }
        }
        let chunk = self.recv_queue.remove(0);
        proof {
            assert(old(self).recv_queue@.remove(0) =~= old(self).recv_queue@.skip(1));
            let len32 = chunk@.len() as u32;
            // The popped chunk's length never exceeds the undelivered span.
            lemma_buffered_bytes_nonneg(old(self).recv_queue@.skip(1));
            assert(chunk@.len() <= old(self).unread());
            lemma_seq_sub_split(old(self).recv_seq_no, old(self).base_seq_no, len32);
            if old(self).acked_in_window() && chunk@.len() <= seq_sub(
                old(self).ack_seq_no,
                old(self).base_seq_no,
            ) {
                lemma_seq_sub_split(old(self).ack_seq_no, old(self).base_seq_no, len32);
            }
        }
        let len = chunk.len();
        self.base_seq_no = wrapping_add(self.base_seq_no, len as u32);
        Ok(Some(chunk))
    }

    /// The core admission check. Refuses a shut-down receiver; silently
    /// ignores a segment that is not the exact next expected one (strict
    /// in-order delivery, no reassembly) or one that would overflow the
    /// advertised capacity. On success the segment's bytes join the queue,
    /// `recv_seq_no` advances by their length, the window narrows by the
    /// same amount, and an acknowledgement deadline is scheduled at
    /// `now + DELAYED_ACK_MS` unless one is already pending.
    pub fn receive_segment(&mut self, seq_no: u32, buf: Vec<u8>, now: u64) -> (r: Result<
        (),
        Fail,
    >)
        requires
            old(self).wf(),
            now + DELAYED_ACK_MS <= u64::MAX,
        ensures
            final(self).wf(),
            !old(self).open ==> r == Result::<(), Fail>::Err(Fail::Closed)
                && *final(self) == *old(self),
            old(self).open && seq_no != old(self).recv_seq_no ==> r == Result::<(), Fail>::Err(
                Fail::Ignored,
            ) && *final(self) == *old(self),
            old(self).open && seq_no == old(self).recv_seq_no && old(self).unread() + buf@.len()
                > old(self).max_window_size ==> r == Result::<(), Fail>::Err(Fail::Ignored)
                && *final(self) == *old(self),
            old(self).open && seq_no == old(self).recv_seq_no && old(self).unread() + buf@.len()
                <= old(self).max_window_size ==> {
                &&& r == Result::<(), Fail>::Ok(())
                &&& final(self).recv_seq_no == seq_add(old(self).recv_seq_no, buf@.len() as u32)
                &&& final(self).recv_queue@ == old(self).recv_queue@.push(buf)
                &&& final(self).ack_deadline == deadline_after(old(self).ack_deadline, now)
                &&& final(self).spec_window() == old(self).spec_window() - buf@.len()
                &&& final(self).base_seq_no == old(self).base_seq_no
                &&& final(self).ack_seq_no == old(self).ack_seq_no
                &&& final(self).open
                &&& final(self).max_window_size == old(self).max_window_size
                &&& old(self).acked_in_window() ==> final(self).acked_in_window()
            },
    {
        if !self.open {
            return Err(Fail::Closed);
        }
        if self.recv_seq_no != seq_no {
            return Err(Fail::Ignored);
        }
        // Admission: the segment must fit in what is left of the window.
        let outstanding = wrapping_sub(self.recv_seq_no, self.base_seq_no);
        let remaining = self.max_window_size - outstanding;
        if buf.len() > remaining as usize {
            return Err(Fail::Ignored);
        }
        let len32 = buf.len() as u32;
        proof {
            lemma_buffered_bytes_push(self.recv_queue@, buf);
            lemma_seq_add_extend(self.recv_seq_no, self.base_seq_no, len32);
        }
        self.recv_seq_no = wrapping_add(self.recv_seq_no, len32);
        self.recv_queue.push(buf);
        if self.ack_deadline.is_none() {
            self.ack_deadline = Some(now + DELAYED_ACK_MS);
        }
        Ok(())
    }
}

/// The receive window keeps `base_seq_no <= ack_seq_no <= recv_seq_no` in
/// modular order: under the invariant, each bound that is not an equality
/// is a strict modular `<`.
pub proof fn lemma_receiver_ordered(r: Receiver)
    requires
        r.wf(),
        r.acked_in_window(),
    ensures
        r.ack_seq_no == r.base_seq_no || seq_lt(r.base_seq_no, r.ack_seq_no),
        r.recv_seq_no == r.ack_seq_no || seq_lt(r.ack_seq_no, r.recv_seq_no),
        r.recv_seq_no == r.base_seq_no || seq_lt(r.base_seq_no, r.recv_seq_no),
{
    assert(seq_sub(r.base_seq_no, r.ack_seq_no) + seq_sub(r.ack_seq_no, r.base_seq_no)
        == if r.ack_seq_no == r.base_seq_no {
        0int
    } else {
        0x1_0000_0000
    });
    assert(seq_sub(r.ack_seq_no, r.recv_seq_no) + seq_sub(r.recv_seq_no, r.ack_seq_no)
        == if r.recv_seq_no == r.ack_seq_no {
        0int
    } else {
        0x1_0000_0000
    });
    assert(seq_sub(r.base_seq_no, r.recv_seq_no) + seq_sub(r.recv_seq_no, r.base_seq_no)
        == if r.recv_seq_no == r.base_seq_no {
        0int
    } else {
        0x1_0000_0000
    });
    assert(seq_sub(r.ack_seq_no, r.base_seq_no) <= seq_sub(r.recv_seq_no, r.base_seq_no));
    assert(seq_sub(r.recv_seq_no, r.ack_seq_no) <= seq_sub(r.recv_seq_no, r.base_seq_no)) by {
        lemma_seq_sub_split(r.recv_seq_no, r.base_seq_no, seq_sub(r.ack_seq_no, r.base_seq_no));
        lemma_seq_add_sub(r.base_seq_no, seq_sub(r.ack_seq_no, r.base_seq_no));
        assert(seq_add(r.base_seq_no, seq_sub(r.ack_seq_no, r.base_seq_no)) == r.ack_seq_no) by {
            assert(seq_sub(seq_add(r.base_seq_no, seq_sub(r.ack_seq_no, r.base_seq_no)),
                r.base_seq_no) == seq_sub(r.ack_seq_no, r.base_seq_no));
        };
    };
}

/// Delayed-acknowledgement coalescing: two segments accepted in succession
/// with no intervening `ack_sent` schedule exactly one deadline — the one
/// set by the first segment; the second leaves it untouched.
pub proof fn lemma_delayed_ack_coalescing(t1: u64, t2: u64)
    requires
        t1 + DELAYED_ACK_MS <= u64::MAX,
    ensures
        deadline_after(None, t1) == Some((t1 + DELAYED_ACK_MS) as u64),
        deadline_after(deadline_after(None, t1), t2) == deadline_after(None, t1),
{
}

} // verus!
