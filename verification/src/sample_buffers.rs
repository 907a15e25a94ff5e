//! The sample buffers between the audio devices and the pipeline, generic
//! over the sample type: capture cuts the device's stream into fixed-size
//! frames with running timestamps; playback queues mixed audio (keeping at
//! most a bounded backlog) and hands the device blocks of it, padding with
//! silence when it runs dry.

use vstd::prelude::*;

use crate::config::{FRAME_DURATION_MS, SAMPLES_PER_FRAME};

verus! {

/// The most samples the playback queue keeps: ten frames.
pub const PLAYBACK_BACKLOG: usize = 9600;

/// `v[lo..hi]` as a new vector.
fn copy_range<T: Copy>(v: &Vec<T>, lo: usize, hi: usize) -> (r: Vec<T>)
    requires
        lo <= hi <= v@.len(),
    ensures
        r@ == v@.subrange(lo as int, hi as int),
{
    let mut r: Vec<T> = Vec::new();
    let mut i = lo;
    while i < hi
        invariant
            lo <= i <= hi <= v@.len(),
            r@ == v@.subrange(lo as int, i as int),
        decreases hi - i,
    {
        r.push(v[i]);
        i = i + 1;
        assert(r@ =~= v@.subrange(lo as int, i as int));
    }
    r
}

/// Appends `data` to `v`.
fn extend<T: Copy>(v: &mut Vec<T>, data: &[T])
    ensures
        final(v)@ == old(v)@ + data@,
{
    let mut i: usize = 0;
    while i < data.len()
        invariant
            i <= data@.len(),
            v@ == old(v)@ + data@.subrange(0, i as int),
        decreases data@.len() - i,
    {
        v.push(data[i]);
        i = i + 1;
        assert(v@ =~= old(v)@ + data@.subrange(0, i as int));
    }
    assert(data@.subrange(0, data@.len() as int) =~= data@);
}

/// The timestamp of the frame `i` frames after one stamped `ts`
/// (frames are 20 ms apart; the clock wraps at 2^32 ms).
pub open spec fn ts_after(ts: u32, i: nat) -> u32 {
    ((ts + FRAME_DURATION_MS * i) % 0x1_0000_0000) as u32
}

/// Frame `i` of a stream of samples.
pub open spec fn frame_of<T>(s: Seq<T>, i: int) -> Seq<T> {
    s.subrange(i * SAMPLES_PER_FRAME, (i + 1) * SAMPLES_PER_FRAME)
}

proof fn lemma_ts_step(ts: u32, i: nat)
    ensures
        vstd::wrapping::u32_specs::wrapping_add(ts_after(ts, i), FRAME_DURATION_MS) == ts_after(
            ts,
            i + 1,
        ),
{
    let x: int = ts + 20 * i;
    let m: int = 0x1_0000_0000;
    vstd::arithmetic::div_mod::lemma_fundamental_div_mod(x, m);
    vstd::arithmetic::div_mod::lemma_fundamental_div_mod(x + 20, m);
    vstd::arithmetic::div_mod::lemma_mod_bound(x, m);
    vstd::arithmetic::div_mod::lemma_add_mod_noop(x, 20, m);
    vstd::arithmetic::div_mod::lemma_small_mod(20, m as nat);
    let r = x % m;
    if r + 20 < m {
        vstd::arithmetic::div_mod::lemma_small_mod((r + 20) as nat, m as nat);
    } else {
        vstd::arithmetic::div_mod::lemma_mod_sub_multiples_vanish(r + 20, m);
        vstd::arithmetic::div_mod::lemma_small_mod((r + 20 - m) as nat, m as nat);
    }
}

/// Cuts a stream of captured samples into frames.
pub struct CaptureFramer<T> {
    /// Samples not yet making up a full frame
    pending: Vec<T>,
    /// Timestamp of the next frame, in milliseconds
    next_timestamp: u32,
    /// Whether capture is running (paused capture drops its input)
    active: bool,
}

impl<T: Copy> CaptureFramer<T> {
    /// The samples waiting for a full frame.
    pub closed spec fn pending(&self) -> Seq<T> {
        self.pending@
    }

    /// The timestamp the next frame gets.
    pub closed spec fn next_ts(&self) -> u32 {
        self.next_timestamp
    }

    /// Whether capture is running.
    pub closed spec fn running(&self) -> bool {
        self.active
    }

    /// The framer's invariant: less than a frame is ever pending.
    pub closed spec fn wf(&self) -> bool {
        self.pending@.len() < SAMPLES_PER_FRAME
    }

    /// Nothing pending, first timestamp 0, running.
    pub fn new() -> (r: Self)
        ensures
            r.wf(),
            r.pending() == Seq::<T>::empty(),
            r.next_ts() == 0,
            r.running(),
    {
        Self { pending: Vec::new(), next_timestamp: 0, active: true }
    }

    /// Stop taking input.
    pub fn pause(&mut self)
        ensures
            !final(self).running(),
            final(self).pending() == old(self).pending(),
            final(self).next_ts() == old(self).next_ts(),
            final(self).wf() == old(self).wf(),
    {
        self.active = false;
    }

    /// Take input again.
    pub fn resume(&mut self)
        ensures
            final(self).running(),
            final(self).pending() == old(self).pending(),
            final(self).next_ts() == old(self).next_ts(),
            final(self).wf() == old(self).wf(),
    {
        self.active = true;
    }

    /// Whether capture is running.
    pub fn is_active(&self) -> (r: bool)
        ensures
            r == self.running(),
    {
        self.active
    }

    /// Take a block of samples from the device: every full frame of the
    /// pending samples followed by `data` is handed out, in order, with
    /// timestamps 20 ms apart; the rest stays pending. Paused capture drops
    /// the block.
    pub fn feed(&mut self, data: &[T]) -> (r: Vec<(Vec<T>, u32)>)
        requires
            old(self).wf(),
            old(self).pending().len() + data@.len() <= usize::MAX,
        ensures
            final(self).wf(),
            final(self).running() == old(self).running(),
            !old(self).running() ==> r@.len() == 0 && final(self).pending() == old(self).pending()
                && final(self).next_ts() == old(self).next_ts(),
            old(self).running() ==> ({
                let s = old(self).pending() + data@;
                let k = s.len() as int / SAMPLES_PER_FRAME as int;
                &&& r@.len() == k
                &&& forall|i: int|
                    0 <= i < k ==> (#[trigger] r@[i]).0@ == frame_of(s, i) && r@[i].1 == ts_after(
                        old(self).next_ts(),
                        i as nat,
                    )
                &&& final(self).pending() == s.subrange(k * SAMPLES_PER_FRAME, s.len() as int)
                &&& final(self).next_ts() == ts_after(old(self).next_ts(), k as nat)
            }),
    {
        let mut out: Vec<(Vec<T>, u32)> = Vec::new();
        if !self.active {
            return out;
        }
        let ghost ts0 = self.next_timestamp;
        let mut s = Vec::new();
        extend(&mut s, self.pending.as_slice());
        extend(&mut s, data);
        assert(s@ =~= old(self).pending() + data@);
        let mut start: usize = 0;
        let mut ts = self.next_timestamp;
        let ghost mut i: nat = 0;
        while s.len() - start >= SAMPLES_PER_FRAME
            invariant
                start == i * SAMPLES_PER_FRAME,
                start <= s@.len(),
                out@.len() == i,
                ts == ts_after(ts0, i),
                forall|j: int|
                    0 <= j < i ==> (#[trigger] out@[j]).0@ == frame_of(s@, j) && out@[j].1 == ts_after(
                        ts0,
                        j as nat,
                    ),
            decreases s@.len() - start,
        {
            let frame = copy_range(&s, start, start + SAMPLES_PER_FRAME);
            out.push((frame, ts));
            proof {
                lemma_ts_step(ts0, i);
            }
            ts = ts.wrapping_add(FRAME_DURATION_MS);
            start = start + SAMPLES_PER_FRAME;
            proof {
                i = i + 1;
            }
        }
        let ghost k = s@.len() as int / SAMPLES_PER_FRAME as int;
        assert(i == k) by {
            assert(s@.len() - start < SAMPLES_PER_FRAME);
            vstd::arithmetic::div_mod::lemma_fundamental_div_mod(s@.len() as int, SAMPLES_PER_FRAME as int);
            assert(i * SAMPLES_PER_FRAME <= s@.len() < (i + 1) * SAMPLES_PER_FRAME) by (nonlinear_arith)
                requires
                    start == i * SAMPLES_PER_FRAME,
                    start <= s@.len(),
                    s@.len() - start < SAMPLES_PER_FRAME,
            ;
            lemma_div_between(s@.len() as int, i as int);
        }
        self.pending = copy_range(&s, start, s.len());
        self.next_timestamp = ts;
        out
    }
}

/// The first `k` frames of a stream, joined, are its first `k` frames' worth
/// of samples.
proof fn lemma_frames_prefix<T>(s: Seq<T>, out: Seq<Seq<T>>, k: nat)
    requires
        k * SAMPLES_PER_FRAME <= s.len(),
        out.len() >= k,
        forall|i: int| 0 <= i < k ==> #[trigger] out[i] == frame_of(s, i),
    ensures
        out.subrange(0, k as int).flatten() == s.subrange(0, k * SAMPLES_PER_FRAME),
    decreases k,
{
    if k == 0 {
        assert(out.subrange(0, 0) =~= Seq::<Seq<T>>::empty());
        assert(s.subrange(0, 0) =~= Seq::<T>::empty());
    } else {
        let j = (k - 1) as nat;
        assert(j * SAMPLES_PER_FRAME <= s.len()) by (nonlinear_arith)
            requires
                k * SAMPLES_PER_FRAME <= s.len(),
                j == k - 1,
        ;
        lemma_frames_prefix(s, out, j);
        assert(out.subrange(0, k as int) =~= out.subrange(0, j as int).push(out[j as int]));
        out.subrange(0, j as int).lemma_flatten_push(out[j as int]);
        assert(k * SAMPLES_PER_FRAME == j * SAMPLES_PER_FRAME + SAMPLES_PER_FRAME) by (nonlinear_arith)
            requires
                j == k - 1,
        ;
        assert(s.subrange(0, k * SAMPLES_PER_FRAME) =~= s.subrange(0, j * SAMPLES_PER_FRAME) + frame_of(
            s,
            j as int,
        ));
    }
}

/// Capture framing loses, repeats and reorders no sample: the frames `feed`
/// hands out, joined, followed by what stays pending, are exactly the
/// samples that were pending followed by the new block.
pub proof fn lemma_framing_keeps_samples<T>(pending: Seq<T>, data: Seq<T>, frames: Seq<Seq<T>>, rest: Seq<T>)
    requires
        ({
            let s = pending + data;
            let k = s.len() as int / SAMPLES_PER_FRAME as int;
            &&& frames.len() == k
            &&& forall|i: int| 0 <= i < k ==> #[trigger] frames[i] == frame_of(s, i)
            &&& rest == s.subrange(k * SAMPLES_PER_FRAME, s.len() as int)
        }),
    ensures
        frames.flatten() + rest == pending + data,
{
    let s = pending + data;
    let k = (s.len() as int / SAMPLES_PER_FRAME as int) as nat;
    vstd::arithmetic::div_mod::lemma_fundamental_div_mod(s.len() as int, SAMPLES_PER_FRAME as int);
    vstd::arithmetic::div_mod::lemma_mod_bound(s.len() as int, SAMPLES_PER_FRAME as int);
    let n = s.len() as int;
    assert(k * SAMPLES_PER_FRAME <= n) by (nonlinear_arith)
        requires
            n == SAMPLES_PER_FRAME * k + n % (SAMPLES_PER_FRAME as int),
            0 <= n % (SAMPLES_PER_FRAME as int),
    ;
    lemma_frames_prefix(s, frames, k);
    assert(frames.subrange(0, k as int) =~= frames);
    assert(s.subrange(0, k * SAMPLES_PER_FRAME) + s.subrange(k * SAMPLES_PER_FRAME, s.len() as int) =~= s);
}

proof fn lemma_div_between(n: int, i: int)
    requires
        0 <= i,
        i * 960 <= n < (i + 1) * 960,
    ensures
        n / 960 == i,
{
    vstd::arithmetic::div_mod::lemma_fundamental_div_mod(n, 960);
    vstd::arithmetic::div_mod::lemma_mod_bound(n, 960);
    let q = n / 960;
    assert(q == i) by (nonlinear_arith)
        requires
            n == 960 * q + n % 960,
            0 <= n % 960 < 960,
            i * 960 <= n < (i + 1) * 960,
    ;
}

/// What the playback queue holds after `samples` arrive: the newest
/// `PLAYBACK_BACKLOG` samples at most.
pub open spec fn enqueued<T>(q: Seq<T>, samples: Seq<T>) -> Seq<T> {
    let s = q + samples;
    if s.len() > PLAYBACK_BACKLOG {
        s.subrange(s.len() - PLAYBACK_BACKLOG, s.len() as int)
    } else {
        s
    }
}

/// `n` copies of `x`.
pub open spec fn repeat<T>(x: T, n: nat) -> Seq<T> {
    Seq::new(n, |i: int| x)
}

/// Mixed audio waiting to be played.
pub struct PlaybackQueue<T> {
    /// Queued samples, oldest first
    samples: Vec<T>,
    /// Whether playback is running (paused playback outputs silence)
    active: bool,
}

impl<T: Copy> PlaybackQueue<T> {
    /// The queued samples, oldest first.
    pub closed spec fn queued(&self) -> Seq<T> {
        self.samples@
    }

    /// Whether playback is running.
    pub closed spec fn running(&self) -> bool {
        self.active
    }

    /// The queue's invariant: it holds at most `PLAYBACK_BACKLOG` samples.
    pub closed spec fn wf(&self) -> bool {
        self.samples@.len() <= PLAYBACK_BACKLOG
    }

    /// An empty, running queue.
    pub fn new() -> (r: Self)
        ensures
            r.wf(),
            r.queued() == Seq::<T>::empty(),
            r.running(),
    {
        Self { samples: Vec::new(), active: true }
    }

    /// Stop playing (the device gets silence).
    pub fn pause(&mut self)
        ensures
            !final(self).running(),
            final(self).queued() == old(self).queued(),
            final(self).wf() == old(self).wf(),
    {
        self.active = false;
    }

    /// Play again.
    pub fn resume(&mut self)
        ensures
            final(self).running(),
            final(self).queued() == old(self).queued(),
            final(self).wf() == old(self).wf(),
    {
        self.active = true;
    }

    /// Whether playback is running.
    pub fn is_active(&self) -> (r: bool)
        ensures
            r == self.running(),
    {
        self.active
    }

    /// Queue mixed samples; when the backlog grows past its bound the
    /// oldest samples are dropped.
    pub fn enqueue(&mut self, samples: &[T])
        requires
            old(self).wf(),
        ensures
            final(self).wf(),
            final(self).running() == old(self).running(),
            final(self).queued() == enqueued(old(self).queued(), samples@),
    {
        let mut s: Vec<T> = Vec::new();
        extend(&mut s, self.samples.as_slice());
        extend(&mut s, samples);
        assert(s@ =~= old(self).queued() + samples@);
        if s.len() > PLAYBACK_BACKLOG {
            let drop = s.len() - PLAYBACK_BACKLOG;
            self.samples = copy_range(&s, drop, s.len());
        } else {
            self.samples = s;
        }
    }

    /// The next `n` samples for the device: the oldest queued samples, then
    /// `silence` once the queue runs dry. A paused queue gives silence and
    /// keeps its samples.
    pub fn take_block(&mut self, n: usize, silence: T) -> (r: Vec<T>)
        requires
            old(self).wf(),
        ensures
            final(self).wf(),
            final(self).running() == old(self).running(),
            !old(self).running() ==> r@ == repeat(silence, n as nat) && final(self).queued() == old(
                self,
            ).queued(),
            old(self).running() ==> ({
                let q = old(self).queued();
                let k = if q.len() < n { q.len() as int } else { n as int };
                &&& r@ == q.subrange(0, k) + repeat(silence, (n - k) as nat)
                &&& final(self).queued() == q.subrange(k, q.len() as int)
            }),
    {
        let mut out: Vec<T> = Vec::new();
        let mut k: usize = 0;
        if self.active {
            k = if self.samples.len() < n {
                self.samples.len()
            } else {
                n
            };
            out = copy_range(&self.samples, 0, k);
            self.samples = copy_range(&self.samples, k, self.samples.len());
        }
        let ghost head = out@;
        let mut i = k;
        while i < n
            invariant
                k <= i <= n,
                out@ == head + repeat(silence, (i - k) as nat),
            decreases n - i,
        {
            out.push(silence);
            i = i + 1;
            assert(out@ =~= head + repeat(silence, (i - k) as nat));
        }
        assert(out@ =~= head + repeat(silence, (n - k) as nat));
        proof {
            if !old(self).running() {
                assert(head =~= Seq::<T>::empty());
                assert(out@ =~= repeat(silence, n as nat));
            }
        }
        out
    }
}

} // verus!
