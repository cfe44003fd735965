//! The link between the radio and the network stack: frames the radio's
//! receive interrupt hands over wait in a ring of four slots until the stack
//! takes them, and frames the stack sends are built in a zeroed buffer
//! addressed to the device's interface.

use vstd::prelude::*;

verus! {

/// Slots in the receive ring.
pub const RX_QUEUE_SIZE: usize = 4;

/// Largest Ethernet frame the device carries.
pub const MTU: usize = 1514;

/// Frames received from the radio and not yet taken by the network stack,
/// kept in a ring of `RX_QUEUE_SIZE` fixed buffers of `MTU` bytes.
pub struct RxQueue {
    slots: [[u8; 1514]; 4],
    lens: [usize; 4],
    read_idx: usize,
    write_idx: usize,
    count: usize,
}

/// Permission to take the frame at the front of the receive ring: where it
/// is and how long it is.
#[derive(PartialEq, Eq, Structural, Clone, Copy, Debug)]
pub struct WifiRxToken {
    read_idx: usize,
    len: usize,
}

/// Permission to send one frame on the device's interface.
#[derive(PartialEq, Eq, Structural, Clone, Copy, Debug)]
pub struct WifiTxToken {
    interface_id: u32,
}

/// A WiFi interface seen as a network device (0 = station, 1 = access point).
#[derive(PartialEq, Eq, Structural, Clone, Copy, Debug)]
pub struct WifiDevice {
    interface_id: u32,
}

/// A frame to hand to the radio: the interface to send it on, a buffer of
/// `MTU` bytes and the frame's length; the frame is the buffer's first `len`
/// bytes.
pub struct TxFrame {
    pub interface_id: u32,
    pub data: [u8; 1514],
    pub len: usize,
}

/// Slot `k` positions after slot `i` in the ring.
pub open spec fn ring_next(i: int, k: int) -> int {
    (i + k) % (RX_QUEUE_SIZE as int)
}

impl RxQueue {
    /// The ring's internal invariant: each slot's frame fits its buffer, and
    /// the write position is `count` slots after the read position.
    pub closed spec fn wf(&self) -> bool {
        &&& forall|k: int| 0 <= k < RX_QUEUE_SIZE ==> #[trigger] self.lens@[k] <= MTU
        &&& self.read_idx < RX_QUEUE_SIZE
        &&& self.write_idx < RX_QUEUE_SIZE
        &&& self.count <= RX_QUEUE_SIZE
        &&& self.write_idx == ring_next(self.read_idx as int, self.count as int)
    }

    /// The frame held in slot `k`.
    pub closed spec fn slot(&self, k: int) -> Seq<u8> {
        self.slots@[k]@.take(self.lens@[k] as int)
    }

    /// The waiting frames, oldest first.
    pub closed spec fn frames(&self) -> Seq<Seq<u8>> {
        Seq::new(self.count as nat, |k: int| self.slot(ring_next(self.read_idx as int, k)))
    }

    /// The slot the oldest waiting frame is in.
    pub closed spec fn front_slot(&self) -> nat {
        self.read_idx as nat
    }

    /// The whole buffer of the slot the oldest waiting frame is in: the
    /// frame, then whatever earlier frames left behind it.
    pub closed spec fn front_buffer(&self) -> Seq<u8> {
        self.slots@[self.read_idx as int]@
    }

    /// The token that `receive` hands out for the oldest waiting frame.
    pub closed spec fn front_token(&self) -> WifiRxToken {
        WifiRxToken { read_idx: self.read_idx, len: self.lens@[self.read_idx as int] }
    }

    /// An empty ring.
    pub fn new() -> (q: RxQueue)
        ensures
            q.wf(),
            q@ == Seq::<Seq<u8>>::empty(),
    {
        let q = RxQueue { slots: [[0u8; 1514]; 4], lens: [0usize; 4], read_idx: 0, write_idx: 0, count: 0 };
        assert(q@ =~= Seq::<Seq<u8>>::empty());
        q
    }

    /// How many frames wait.
    pub fn len(&self) -> (r: usize)
        requires
            self.wf(),
        ensures
            r == self@.len(),
    {
        self.count
    }

    /// Takes a frame from the radio's receive interrupt: it is copied behind
    /// the waiting frames when a slot is free and it fits in `MTU` bytes, and
    /// dropped otherwise. The answer says whether it was stored. A token for
    /// the front frame handed out before stays valid.
    pub fn enqueue(&mut self, frame: &[u8]) -> (stored: bool)
        requires
            old(self).wf(),
        ensures
            final(self).wf(),
            stored == (old(self)@.len() < RX_QUEUE_SIZE && frame@.len() <= MTU),
            stored ==> final(self)@ == old(self)@.push(frame@),
            !stored ==> final(self)@ == old(self)@,
            old(self)@.len() > 0 ==> final(self).front_token() == old(self).front_token(),
    {
        if self.count < RX_QUEUE_SIZE && frame.len() <= MTU {
            let ghost old_q = *self;
            let w = self.write_idx;
            let mut i: usize = 0;
            while i < frame.len()
                invariant
                    w == old_q.write_idx,
                    w < RX_QUEUE_SIZE,
                    frame@.len() <= MTU,
                    i <= frame.len(),
                    self.slots@[w as int]@.take(i as int) == frame@.take(i as int),
                    forall|k: int| 0 <= k < RX_QUEUE_SIZE && k != w ==> self.slots@[k] == old_q.slots@[k],
                    self.lens == old_q.lens,
                    self.read_idx == old_q.read_idx,
                    self.write_idx == old_q.write_idx,
                    self.count == old_q.count,
                decreases frame.len() - i,
            {
                self.slots[w][i] = frame[i];
                i = i + 1;
                assert(self.slots@[w as int]@.take(i as int) =~= frame@.take(i as int));
            }
            self.lens[w] = frame.len();
            self.write_idx = (w + 1) % RX_QUEUE_SIZE;
            self.count = self.count + 1;
            proof {
                assert(frame@.take(frame@.len() as int) =~= frame@);
                assert forall|k: int| 0 <= k < old_q.count implies
                    ring_next(old_q.read_idx as int, k) != w as int by {}
                assert forall|k: int| 0 <= k < old_q.count implies
                    #[trigger] self.slot(ring_next(old_q.read_idx as int, k)) == old_q.slot(ring_next(old_q.read_idx as int, k)) by {}
                assert(self.slot(w as int) == frame@);
                assert(self@ =~= old_q@.push(frame@));
            }
            true
        } else {
            false
        }
    }

    /// The token for the oldest waiting frame, or `None` when none waits.
    pub fn receive(&self) -> (r: Option<WifiRxToken>)
        requires
            self.wf(),
        ensures
            self@.len() == 0 ==> r is None,
            self@.len() > 0 ==> r == Some(self.front_token()),
    {
        if self.count > 0 {
            let read_idx = self.read_idx;
            Some(WifiRxToken { read_idx, len: self.lens[read_idx] })
        } else {
            None
        }
    }

    /// Whether `token` may be consumed now: a frame waits, the token points
    /// at its slot, and its length fits a buffer.
    pub fn holds_front(&self, token: &WifiRxToken) -> (r: bool)
        requires
            self.wf(),
        ensures
            r == (self@.len() > 0 && token.slot() == self.front_slot() && token.frame_len() <= MTU),
    {
        self.count > 0 && token.read_idx == self.read_idx && token.len <= MTU
    }

    /// Takes the oldest waiting frame with a token that points at its slot:
    /// the first `token.len()` bytes of that slot's buffer are copied to the
    /// start of `buf`, whose other bytes stay as they were, that length is
    /// answered, and the slot is freed. With the token `receive` handed out
    /// for the frame, the bytes copied are exactly the frame.
    pub fn consume(&mut self, token: WifiRxToken, buf: &mut [u8; 1514]) -> (len: usize)
        requires
            old(self).wf(),
            old(self)@.len() > 0,
            token.slot() == old(self).front_slot(),
            token.frame_len() <= MTU,
        ensures
            final(self).wf(),
            len == token.frame_len(),
            final(buf)@.take(len as int) == old(self).front_buffer().take(len as int),
            token == old(self).front_token() ==> final(buf)@.take(len as int) == old(self)@[0],
            final(buf)@.skip(len as int) == old(buf)@.skip(len as int),
            final(self)@ == old(self)@.drop_first(),
    {
        let ghost old_q = *self;
        let ghost old_buf = *buf;
        let r = token.read_idx;
        let len = token.len;
        let mut i: usize = 0;
        while i < len
            invariant
                r == old_q.read_idx,
                r < RX_QUEUE_SIZE,
                len <= MTU,
                *self == old_q,
                i <= len,
                buf@.take(i as int) == old_q.slots@[r as int]@.take(i as int),
                forall|j: int| i <= j < MTU ==> buf@[j] == old_buf@[j],
            decreases len - i,
        {
            buf[i] = self.slots[r][i];
            i = i + 1;
            assert(buf@.take(i as int) =~= old_q.slots@[r as int]@.take(i as int));
        }
        assert(buf@.skip(len as int) =~= old_buf@.skip(len as int));
        self.read_idx = (r + 1) % RX_QUEUE_SIZE;
        self.count = self.count - 1;
        proof {
            assert(old_q@[0] == old_q.slot(old_q.read_idx as int));
            assert forall|k: int| 0 <= k < self.count implies
                ring_next(self.read_idx as int, k) == ring_next(old_q.read_idx as int, k + 1) by {}
            assert(self@ =~= old_q@.drop_first());
        }
        len
    }
}

impl View for RxQueue {
    type V = Seq<Seq<u8>>;

    open spec fn view(&self) -> Seq<Seq<u8>> {
        self.frames()
    }
}

impl WifiRxToken {
    /// The ring slot the token points at.
    pub closed spec fn slot(self) -> nat {
        self.read_idx as nat
    }

    /// The length of the frame the token gives access to.
    pub closed spec fn frame_len(self) -> nat {
        self.len as nat
    }

    /// The length of the frame the token gives access to.
    pub fn len(&self) -> (r: usize)
        ensures
            r == self.frame_len(),
    {
        self.len
    }
}

impl WifiDevice {
    /// The interface of the device.
    pub closed spec fn interface(self) -> u32 {
        self.interface_id
    }

    /// The device for interface `interface_id` (0 = station, 1 = access
    /// point).
    pub fn new(interface_id: u32) -> (d: WifiDevice)
        ensures
            d.interface() == interface_id,
    {
        WifiDevice { interface_id }
    }

    /// The interface the device sends and receives on.
    pub fn interface_id(&self) -> (r: u32)
        ensures
            r == self.interface(),
    {
        self.interface_id
    }

    /// The largest frame the device carries.
    pub fn max_transmission_unit(&self) -> (r: usize)
        ensures
            r == MTU,
    {
        MTU
    }

    /// A frame to take and a token to answer it with, when a frame waits.
    pub fn receive(&self, queue: &RxQueue) -> (r: Option<(WifiRxToken, WifiTxToken)>)
        requires
            queue.wf(),
        ensures
            queue@.len() == 0 ==> r is None,
            queue@.len() > 0 ==> (r matches Some((rx, tx)) && rx == queue.front_token()
                && tx.interface() == self.interface()),
    {
        match queue.receive() {
            Some(rx) => Some((rx, WifiTxToken { interface_id: self.interface_id })),
            None => None,
        }
    }

    /// A token to send one frame; sending is always possible.
    pub fn transmit(&self) -> (r: WifiTxToken)
        ensures
            r.interface() == self.interface(),
    {
        WifiTxToken { interface_id: self.interface_id }
    }
}

impl WifiTxToken {
    /// The interface a frame sent with the token goes out on.
    pub closed spec fn interface(self) -> u32 {
        self.interface_id
    }

    /// The interface the frame goes out on.
    pub fn interface_id(&self) -> (r: u32)
        ensures
            r == self.interface(),
    {
        self.interface_id
    }

    /// The buffer for a frame of `len` bytes: zeroed, for the network stack
    /// to fill, addressed to the token's interface. A frame longer than the
    /// `MTU` has no buffer and is refused.
    pub fn consume(self, len: usize) -> (f: TxFrame)
        requires
            len <= MTU,
        ensures
            f.interface_id == self.interface(),
            f.len == len,
            forall|i: int| 0 <= i < MTU ==> #[trigger] f.data@[i] == 0u8,
    {
        TxFrame { interface_id: self.interface_id, data: [0u8; 1514], len }
    }
}

/// The receive ring never holds more than `RX_QUEUE_SIZE` frames, and none
/// longer than `MTU` bytes.
pub proof fn lemma_rx_queue_bounded(q: RxQueue)
    requires
        q.wf(),
    ensures
        q@.len() <= RX_QUEUE_SIZE,
        forall|k: int| 0 <= k < q@.len() ==> #[trigger] q@[k].len() <= MTU,
{
    assert forall|k: int| 0 <= k < q@.len() implies #[trigger] q@[k].len() <= MTU by {
        let s = ring_next(q.read_idx as int, k);
        assert(q.lens@[s] <= MTU);
    }
}

/// Frames leave the ring in the order they arrived: two frames stored in
/// an empty ring, one after the other (as `enqueue` stores them), are taken
/// by `consume` with the tokens `receive` hands out (as `consume` gives them
/// back) first the one, then the other, and the ring is empty again.
pub proof fn lemma_rx_fifo(
    q0: RxQueue,
    q1: RxQueue,
    q2: RxQueue,
    q3: RxQueue,
    q4: RxQueue,
    f1: Seq<u8>,
    f2: Seq<u8>,
    out1: Seq<u8>,
    out2: Seq<u8>,
)
    requires
        q0@.len() == 0,
        q1@ == q0@.push(f1),
        q2@ == q1@.push(f2),
        out1 == q2@[0],
        q3@ == q2@.drop_first(),
        out2 == q3@[0],
        q4@ == q3@.drop_first(),
    ensures
        out1 == f1,
        out2 == f2,
        q4@.len() == 0,
{
    assert(q2@ =~= seq![f1, f2]);
    assert(q3@ =~= seq![f2]);
}

} // verus!
