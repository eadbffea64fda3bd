//! The reader unit's double buffer: the realtime side appends each block to the active
//! buffer; the consumer takes whatever the inactive buffer holds, then asks for a swap.
use vstd::prelude::*;

verus! {

/// One of the two capture buffers: two channels, a write cursor, and a busy flag.
#[derive(Debug)]
pub struct StreamBuf<T> {
    pub last_out: Vec<Vec<T>>,
    pub out_idx: usize,
    pub lock: bool,
}

/// Shared state of a reader: which buffer is active, whether the consumer asked for a
/// swap, and the two buffers.
#[derive(Debug)]
pub struct ReadStream<T> {
    pub should_swap: bool,
    pub curr_chan: usize,
    pub capacity: usize,
    pub stream_buf: Vec<StreamBuf<T>>,
}

/// Where a block of `len` samples is written in a buffer whose cursor is at `idx`:
/// at the cursor, or from the start when it would run past the end.
pub open spec fn write_offset(idx: int, len: int, capacity: int) -> int {
    if idx + len > capacity { 0 } else { idx }
}

/// `chan` with `block` written from `off` on.
pub open spec fn written<T>(chan: Seq<T>, off: int, block: Seq<T>) -> Seq<T> {
    chan.subrange(0, off) + block + chan.subrange(off + block.len(), chan.len() as int)
}

/// `t` is `s` after the realtime side wrote the block `in0`, `in1`.
pub open spec fn block_written<T>(s: ReadStream<T>, t: ReadStream<T>, in0: Seq<T>, in1: Seq<T>) -> bool {
    let k = s.curr_chan as int;
    let b = s.stream_buf@[k];
    let off = write_offset(b.out_idx as int, in0.len() as int, s.capacity as int);
    let nb = t.stream_buf@[k];
    &&& t.capacity == s.capacity
    &&& t.stream_buf@.len() == 2
    &&& nb.out_idx == off + in0.len()
    &&& nb.last_out@.len() == 2
    &&& nb.last_out@[0]@ == written(b.last_out@[0]@, off, in0)
    &&& nb.last_out@[1]@ == written(b.last_out@[1]@, off, in1)
    &&& nb.lock == !s.should_swap
    &&& t.stream_buf@[1 - k] == s.stream_buf@[1 - k]
    &&& t.should_swap == false
    &&& t.curr_chan == (if s.should_swap { 1 - k } else { k })
}

/// `t` is `s` after the consumer's read that returned `r`.
pub open spec fn read_taken<T>(s: ReadStream<T>, t: ReadStream<T>, r: Option<(usize, Vec<Vec<T>>)>) -> bool {
    let k = 1 - s.curr_chan;
    let b = s.stream_buf@[k];
    &&& t.capacity == s.capacity
    &&& t.curr_chan == s.curr_chan
    &&& if b.out_idx == 0 {
        &&& r is None
        &&& t == s
    } else {
        &&& r is Some
        &&& r->Some_0.0 == b.out_idx
        &&& r->Some_0.1@.len() == 2
        &&& r->Some_0.1@[0]@ == b.last_out@[0]@.subrange(0, b.out_idx as int)
        &&& r->Some_0.1@[1]@ == b.last_out@[1]@.subrange(0, b.out_idx as int)
        &&& t.should_swap
        &&& t.stream_buf@.len() == 2
        &&& t.stream_buf@[k].out_idx == 0
        &&& t.stream_buf@[k].last_out == b.last_out
        &&& t.stream_buf@[k].lock == b.lock
        &&& t.stream_buf@[1 - k] == s.stream_buf@[1 - k]
    }
}

/// Whether `r` hands over exactly the block `in0`, `in1`.
pub open spec fn hands_over<T>(r: Option<(usize, Vec<Vec<T>>)>, in0: Seq<T>, in1: Seq<T>) -> bool {
    &&& r is Some
    &&& r->Some_0.0 == in0.len()
    &&& r->Some_0.1@.len() == 2
    &&& r->Some_0.1@[0]@ == in0
    &&& r->Some_0.1@[1]@ == in1
}

/// A reader fed one block hands exactly that block to the consumer; the next read gets
/// nothing; once the swap has happened and another block has arrived, the read after it
/// gets exactly that block.
pub proof fn lemma_reader_round_trip<T: Copy>(
    s0: ReadStream<T>,
    s1: ReadStream<T>,
    s2: ReadStream<T>,
    s3: ReadStream<T>,
    s4: ReadStream<T>,
    s5: ReadStream<T>,
    a0: Seq<T>,
    a1: Seq<T>,
    b0: Seq<T>,
    b1: Seq<T>,
    r1: Option<(usize, Vec<Vec<T>>)>,
    r2: Option<(usize, Vec<Vec<T>>)>,
    r3: Option<(usize, Vec<Vec<T>>)>,
)
    requires
        s0.wf(),
        s0.curr_chan == 0,
        s0.should_swap,
        s0.stream_buf@[0].out_idx == 0,
        s0.stream_buf@[1].out_idx == 0,
        0 < a0.len() == a1.len() <= s0.capacity,
        0 < b0.len() == b1.len() <= s0.capacity,
        block_written(s0, s1, a0, a1),
        read_taken(s1, s2, r1),
        read_taken(s2, s3, r2),
        block_written(s3, s4, b0, b1),
        read_taken(s4, s5, r3),
    ensures
        hands_over(r1, a0, a1),
        r2 is None,
        hands_over(r3, b0, b1),
{
    let c0 = s0.stream_buf@[0].last_out@[0]@;
    let c1 = s0.stream_buf@[0].last_out@[1]@;
    assert(written(c0, 0, a0).subrange(0, a0.len() as int) =~= a0);
    assert(written(c1, 0, a1).subrange(0, a1.len() as int) =~= a1);
    let d0 = s3.stream_buf@[1].last_out@[0]@;
    let d1 = s3.stream_buf@[1].last_out@[1]@;
    assert(written(d0, 0, b0).subrange(0, b0.len() as int) =~= b0);
    assert(written(d1, 0, b1).subrange(0, b1.len() as int) =~= b1);
}

impl<T> StreamBuf<T> {
    pub open spec fn wf(&self, capacity: int) -> bool {
        &&& self.last_out@.len() == 2
        &&& self.last_out@[0]@.len() == capacity
        &&& self.last_out@[1]@.len() == capacity
        &&& self.out_idx <= capacity
    }
}

impl<T: Copy> ReadStream<T> {
    pub open spec fn wf(&self) -> bool {
        &&& self.stream_buf@.len() == 2
        &&& self.curr_chan < 2
        &&& self.stream_buf@[0].wf(self.capacity as int)
        &&& self.stream_buf@[1].wf(self.capacity as int)
        &&& !self.stream_buf@[1 - self.curr_chan].lock
    }

    /// The index of the buffer that the consumer reads.
    pub open spec fn inactive(&self) -> int {
        1 - self.curr_chan
    }

    /// The samples of channel `c` of buffer `k` that wait to be read.
    pub open spec fn pending(&self, k: int, c: int) -> Seq<T> {
        self.stream_buf@[k].last_out@[c]@.subrange(0, self.stream_buf@[k].out_idx as int)
    }

    fn new_buf(capacity: usize, zero: T) -> (b: StreamBuf<T>)
        ensures
            b.wf(capacity as int),
            b.out_idx == 0,
            !b.lock,
    {
        let mut chans: Vec<Vec<T>> = Vec::new();
        let mut c: usize = 0;
        while c < 2
            invariant
                c <= 2,
                chans@.len() == c,
                forall|j: int| 0 <= j < c ==> (#[trigger] chans@[j])@.len() == capacity,
            decreases 2 - c,
        {
            let mut v: Vec<T> = Vec::new();
            let mut i: usize = 0;
            while i < capacity
                invariant
                    i <= capacity,
                    v@.len() == i,
                decreases capacity - i,
            {
                v.push(zero);
                i = i + 1;
            }
            chans.push(v);
            c = c + 1;
        }
        StreamBuf { last_out: chans, out_idx: 0, lock: false }
    }

    /// A reader whose buffers hold `capacity` samples per channel, filled with `zero`.
    /// The first block written is handed over to the consumer straight away.
    pub fn new(capacity: usize, zero: T) -> (r: ReadStream<T>)
        ensures
            r.wf(),
            r.capacity == capacity,
            r.curr_chan == 0,
            r.should_swap,
            r.stream_buf@[0].out_idx == 0,
            r.stream_buf@[1].out_idx == 0,
            !r.stream_buf@[0].lock,
    {
        let mut bufs: Vec<StreamBuf<T>> = Vec::new();
        bufs.push(Self::new_buf(capacity, zero));
        bufs.push(Self::new_buf(capacity, zero));
        ReadStream { should_swap: true, curr_chan: 0, capacity, stream_buf: bufs }
    }

    /// The buffer the realtime side writes into.
    pub fn get_active_buf(&self) -> (r: &StreamBuf<T>)
        requires
            self.wf(),
        ensures
            *r == self.stream_buf@[self.curr_chan as int],
    {
        &self.stream_buf[self.curr_chan]
    }

    /// The buffer the consumer reads.
    pub fn get_inactive_buf(&self) -> (r: &StreamBuf<T>)
        requires
            self.wf(),
        ensures
            *r == self.stream_buf@[self.inactive()],
    {
        &self.stream_buf[1 - self.curr_chan]
    }

    /// Makes the other buffer the active one.
    pub fn swap_chan(&mut self)
        requires
            old(self).curr_chan < 2,
        ensures
            final(self).curr_chan == 1 - old(self).curr_chan,
            final(self).should_swap == old(self).should_swap,
            final(self).capacity == old(self).capacity,
            final(self).stream_buf == old(self).stream_buf,
    {
        self.curr_chan = 1 - self.curr_chan;
    }

    /// Realtime side, once per block: passes the two input channels through, appends them
    /// to the active buffer (from the start when they would not fit), and swaps buffers
    /// when the consumer asked for it.
    pub fn generate_samples(&mut self, in0: &Vec<T>, in1: &Vec<T>) -> (r: (Vec<T>, Vec<T>))
        requires
            old(self).wf(),
            in0@.len() == in1@.len(),
            in0@.len() <= old(self).capacity,
        ensures
            final(self).wf(),
            r.0@ == in0@,
            r.1@ == in1@,
            block_written(*old(self), *final(self), in0@, in1@),
    {
        let k = self.curr_chan;
        let n = in0.len();
        let ghost b = self.stream_buf@[k as int];
        let mut off = self.stream_buf[k].out_idx;
        if off > self.capacity - n {
            off = 0;
        }
        self.stream_buf[k].lock = true;
        let mut out0: Vec<T> = Vec::new();
        let mut out1: Vec<T> = Vec::new();
        let mut i: usize = 0;
        while i < n
            invariant
                i <= n,
                n == in0@.len(),
                n == in1@.len(),
                off + n <= self.capacity,
                k == self.curr_chan,
                k < 2,
                self.stream_buf@.len() == 2,
                self.stream_buf@[1 - k] == old(self).stream_buf@[1 - k],
                self.stream_buf@[k as int].out_idx == b.out_idx,
                self.stream_buf@[k as int].last_out@.len() == 2,
                self.stream_buf@[k as int].last_out@[0]@ == b.last_out@[0]@.subrange(0, off as int) + in0@.subrange(0, i as int)
                    + b.last_out@[0]@.subrange(off + i, b.last_out@[0]@.len() as int),
                self.stream_buf@[k as int].last_out@[1]@ == b.last_out@[1]@.subrange(0, off as int) + in1@.subrange(0, i as int)
                    + b.last_out@[1]@.subrange(off + i, b.last_out@[1]@.len() as int),
                b.last_out@[0]@.len() == self.capacity,
                b.last_out@[1]@.len() == self.capacity,
                self.stream_buf@[k as int].lock,
                self.capacity == old(self).capacity,
                self.should_swap == old(self).should_swap,
                out0@ == in0@.subrange(0, i as int),
                out1@ == in1@.subrange(0, i as int),
            decreases n - i,
        {
            let a0 = in0[i];
            let a1 = in1[i];
            self.stream_buf[k].last_out[0][off + i] = a0;
            self.stream_buf[k].last_out[1][off + i] = a1;
            out0.push(a0);
            out1.push(a1);
            i = i + 1;
            assert(self.stream_buf@[k as int].last_out@[0]@ =~= b.last_out@[0]@.subrange(0, off as int) + in0@.subrange(0, i as int)
                + b.last_out@[0]@.subrange(off + i, b.last_out@[0]@.len() as int));
            assert(self.stream_buf@[k as int].last_out@[1]@ =~= b.last_out@[1]@.subrange(0, off as int) + in1@.subrange(0, i as int)
                + b.last_out@[1]@.subrange(off + i, b.last_out@[1]@.len() as int));
        }
        assert(in0@.subrange(0, n as int) =~= in0@);
        assert(in1@.subrange(0, n as int) =~= in1@);
        self.stream_buf[k].out_idx = off + n;
        if self.should_swap {
            self.should_swap = false;
            self.swap_chan();
            self.stream_buf[k].lock = false;
        }
        (out0, out1)
    }

    /// Consumer side: `None` when nothing arrived since the last read; otherwise the number
    /// of samples and the samples of each channel. The buffer is emptied and a swap is asked for.
    pub fn last_out(&mut self) -> (r: Option<(usize, Vec<Vec<T>>)>)
        requires
            old(self).wf(),
        ensures
            final(self).wf(),
            read_taken(*old(self), *final(self), r),
    {
        let k = 1 - self.curr_chan;
        let n = self.stream_buf[k].out_idx;
        if n == 0 {
            return None;
        }
        let mut chans: Vec<Vec<T>> = Vec::new();
        let mut c: usize = 0;
        while c < 2
            invariant
                c <= 2,
                self == old(self),
                k == old(self).inactive(),
                n == self.stream_buf@[k as int].out_idx,
                self.wf(),
                chans@.len() == c,
                forall|j: int| 0 <= j < c ==> (#[trigger] chans@[j])@ == self.pending(k as int, j),
            decreases 2 - c,
        {
            let mut v: Vec<T> = Vec::new();
            let mut i: usize = 0;
            while i < n
                invariant
                    i <= n,
                    c < 2,
                    self == old(self),
                    k == old(self).inactive(),
                    n == self.stream_buf@[k as int].out_idx,
                    self.wf(),
                    v@ == self.stream_buf@[k as int].last_out@[c as int]@.subrange(0, i as int),
                decreases n - i,
            {
                v.push(self.stream_buf[k].last_out[c][i]);
                i = i + 1;
                assert(v@ =~= self.stream_buf@[k as int].last_out@[c as int]@.subrange(0, i as int));
            }
            chans.push(v);
            c = c + 1;
        }
        self.stream_buf[k].out_idx = 0;
        self.should_swap = true;
        Some((n, chans))
    }
}

/// The blocks of `bs` one after another.
pub open spec fn flatten<T>(bs: Seq<Seq<T>>) -> Seq<T>
    decreases bs.len(),
{
    if bs.len() == 0 {
        seq![]
    } else {
        flatten(bs.drop_last()) + bs.last()
    }
}

/// The samples waiting in channel `c` of buffer `k` of `s`.
pub open spec fn waiting<T>(s: ReadStream<T>, k: int, c: int) -> Seq<T> {
    s.stream_buf@[k].last_out@[c]@.subrange(0, s.stream_buf@[k].out_idx as int)
}

/// While no swap is asked for, blocks written in turn pile up, in order and unchanged,
/// behind what the active buffer already held, as long as they fit.
pub proof fn lemma_reader_accumulates<T: Copy>(ss: Seq<ReadStream<T>>, b0s: Seq<Seq<T>>, b1s: Seq<Seq<T>>)
    requires
        ss.len() == b0s.len() + 1,
        b1s.len() == b0s.len(),
        forall|i: int| 0 <= i < ss.len() ==> (#[trigger] ss[i]).wf(),
        !ss[0].should_swap,
        forall|i: int| 0 <= i < b0s.len() ==> (#[trigger] b0s[i]).len() == b1s[i].len(),
        forall|i: int| 0 <= i < b0s.len() ==> block_written(ss[i], #[trigger] ss[i + 1], b0s[i], b1s[i]),
        ss[0].stream_buf@[ss[0].curr_chan as int].out_idx + flatten(b0s).len() <= ss[0].capacity,
    ensures
        ({
            let k = ss[0].curr_chan as int;
            let last = ss[ss.len() - 1];
            &&& last.curr_chan == ss[0].curr_chan
            &&& !last.should_swap
            &&& last.capacity == ss[0].capacity
            &&& last.stream_buf@[k].out_idx == ss[0].stream_buf@[k].out_idx + flatten(b0s).len()
            &&& waiting(last, k, 0) == waiting(ss[0], k, 0) + flatten(b0s)
            &&& waiting(last, k, 1) == waiting(ss[0], k, 1) + flatten(b1s)
        }),
    decreases b0s.len(),
{
    let n = b0s.len() as int;
    if n > 0 {
        let k = ss[0].curr_chan as int;
        let ss2 = ss.drop_last();
        let p0 = b0s.drop_last();
        let p1 = b1s.drop_last();
        assert forall|i: int| 0 <= i < p0.len() implies block_written(ss2[i], #[trigger] ss2[i + 1], p0[i], p1[i]) by {
            assert(ss2[i] == ss[i] && ss2[i + 1] == ss[i + 1] && p0[i] == b0s[i] && p1[i] == b1s[i]);
        }
        assert forall|i: int| 0 <= i < ss2.len() implies (#[trigger] ss2[i]).wf() by {
            assert(ss2[i] == ss[i]);
        }
        assert forall|i: int| 0 <= i < p0.len() implies (#[trigger] p0[i]).len() == p1[i].len() by {
            assert(p0[i] == b0s[i]);
        }
        assert(flatten(b0s) == flatten(p0) + b0s[n - 1]);
        assert(flatten(b1s) == flatten(p1) + b1s[n - 1]);
        lemma_reader_accumulates(ss2, p0, p1);
        let prev = ss[n - 1];
        let last = ss[n];
        assert(block_written(prev, last, b0s[n - 1], b1s[n - 1]));
        let idx = prev.stream_buf@[k].out_idx as int;
        let len = b0s[n - 1].len() as int;
        assert(write_offset(idx, len, prev.capacity as int) == idx);
        let c0 = prev.stream_buf@[k].last_out@[0]@;
        let c1 = prev.stream_buf@[k].last_out@[1]@;
        assert(written(c0, idx, b0s[n - 1]).subrange(0, idx + len) =~= c0.subrange(0, idx) + b0s[n - 1]);
        assert(written(c1, idx, b1s[n - 1]).subrange(0, idx + len) =~= c1.subrange(0, idx) + b1s[n - 1]);
        assert(waiting(last, k, 0) =~= waiting(ss[0], k, 0) + flatten(b0s));
        assert(waiting(last, k, 1) =~= waiting(ss[0], k, 1) + flatten(b1s));
    }
}

/// Once the consumer has asked for a swap, the next block is written and handed over
/// together with everything that waited in the active buffer: the following read returns
/// exactly those samples, in order.
pub proof fn lemma_reader_hand_over<T: Copy>(
    s: ReadStream<T>,
    s1: ReadStream<T>,
    s2: ReadStream<T>,
    b0: Seq<T>,
    b1: Seq<T>,
    r: Option<(usize, Vec<Vec<T>>)>,
)
    requires
        s.wf(),
        s.should_swap,
        0 < b0.len() == b1.len(),
        s.stream_buf@[s.curr_chan as int].out_idx + b0.len() <= s.capacity,
        block_written(s, s1, b0, b1),
        read_taken(s1, s2, r),
    ensures
        hands_over(r, waiting(s, s.curr_chan as int, 0) + b0, waiting(s, s.curr_chan as int, 1) + b1),
{
    let k = s.curr_chan as int;
    let idx = s.stream_buf@[k].out_idx as int;
    let c0 = s.stream_buf@[k].last_out@[0]@;
    let c1 = s.stream_buf@[k].last_out@[1]@;
    assert(written(c0, idx, b0).subrange(0, idx + b0.len()) =~= c0.subrange(0, idx) + b0);
    assert(written(c1, idx, b1).subrange(0, idx + b1.len()) =~= c1.subrange(0, idx) + b1);
}

} // verus!
