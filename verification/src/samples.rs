//! Mouse-motion sample buffer.
//!
//! Motion events are appended with a monotonic timestamp and capped at a
//! maximum count. Each report cycle keeps only the few most recent samples,
//! drops those older than the smoothing window, and sums the rest into the
//! raw aim vector. Times are nanoseconds on a monotonic clock.

use vstd::prelude::*;

verus! {

/// Hard cap on buffered samples between report cycles.
pub const MAX_MOUSE_SAMPLES: usize = 100;

/// At most this many of the most recent samples enter the moving sum.
pub const MAX_SUMMED_SAMPLES: usize = 5;

/// One relative motion sample: deltas and the time it was recorded.
#[derive(Clone, Copy, PartialEq, Eq, Structural, Debug)]
pub struct MouseSample {
    pub dx: i32,
    pub dy: i32,
    pub t: u64,
}

pub open spec fn sorted_by_time(s: Seq<MouseSample>) -> bool {
    forall|i: int, j: int| 0 <= i < j < s.len() ==> s[i].t <= s[j].t
}

/// The sample is no older than the smoothing window at time `now`.
pub open spec fn is_fresh(e: MouseSample, now: u64, window: u64) -> bool {
    e.t + window >= now
}

/// The tail of at most `MAX_SUMMED_SAMPLES` most recent samples.
pub open spec fn recent_samples(s: Seq<MouseSample>) -> Seq<MouseSample> {
    if s.len() > MAX_SUMMED_SAMPLES {
        s.skip(s.len() - MAX_SUMMED_SAMPLES)
    } else {
        s
    }
}

/// Drop samples from the front while they fall outside the window.
pub open spec fn prune_stale(s: Seq<MouseSample>, now: u64, window: u64) -> Seq<MouseSample>
    decreases s.len(),
{
    if s.len() == 0 {
        s
    } else if !is_fresh(s[0], now, window) {
        prune_stale(s.drop_first(), now, window)
    } else {
        s
    }
}

pub open spec fn sum_dx(s: Seq<MouseSample>) -> int
    decreases s.len(),
{
    if s.len() == 0 {
        0
    } else {
        sum_dx(s.drop_last()) + s.last().dx
    }
}

pub open spec fn sum_dy(s: Seq<MouseSample>) -> int
    decreases s.len(),
{
    if s.len() == 0 {
        0
    } else {
        sum_dy(s.drop_last()) + s.last().dy
    }
}

/// Law: on a time-sorted buffer, pruning leaves only samples that are still
/// inside the smoothing window, even when no new sample has arrived.
pub proof fn lemma_prune_keeps_only_fresh(s: Seq<MouseSample>, now: u64, window: u64)
    requires
        sorted_by_time(s),
    ensures
        forall|i: int|
            0 <= i < prune_stale(s, now, window).len() ==> is_fresh(
                #[trigger] prune_stale(s, now, window)[i],
                now,
                window,
            ),
    decreases s.len(),
{
    if s.len() > 0 && !is_fresh(s[0], now, window) {
        let t = s.drop_first();
        assert(sorted_by_time(t)) by {
            assert(forall|i: int, j: int|
                0 <= i < j < t.len() ==> #[trigger] t[i].t == s[i + 1].t && #[trigger] t[j].t
                    == s[j + 1].t);
        }
        lemma_prune_keeps_only_fresh(t, now, window);
        assert(prune_stale(s, now, window) == prune_stale(t, now, window));
        assert forall|i: int|
            0 <= i < prune_stale(s, now, window).len() implies is_fresh(
            #[trigger] prune_stale(s, now, window)[i],
            now,
            window,
        ) by {
            assert(is_fresh(prune_stale(t, now, window)[i], now, window));
        }
    } else if s.len() > 0 {
        assert(prune_stale(s, now, window) == s);
        assert forall|i: int| 0 <= i < s.len() implies is_fresh(#[trigger] s[i], now, window) by {
            if i > 0 {
                assert(s[0].t <= s[i].t);
            }
        }
    }
}

/// The append side of the producer/consumer pair. A relay appends samples;
/// the report loop prunes and sums them.
pub struct SampleBuffer {
    samples: Vec<MouseSample>,
}

impl View for SampleBuffer {
    type V = Seq<MouseSample>;

    closed spec fn view(&self) -> Seq<MouseSample> {
        self.samples@
    }
}

/// What the buffer holds after appending a sample at time `now`: the
/// timestamp is clamped to keep the buffer time-sorted, and the oldest
/// sample leaves when the cap is exceeded.
pub open spec fn append_spec(s: Seq<MouseSample>, dx: i32, dy: i32, now: u64) -> Seq<MouseSample> {
    let t = if s.len() > 0 && s.last().t > now {
        s.last().t
    } else {
        now
    };
    let pushed = s.push(MouseSample { dx, dy, t });
    if pushed.len() > MAX_MOUSE_SAMPLES {
        pushed.drop_first()
    } else {
        pushed
    }
}

impl SampleBuffer {
    pub closed spec fn wf(self) -> bool {
        sorted_by_time(self.samples@) && self.samples@.len() <= MAX_MOUSE_SAMPLES
    }

    pub fn new() -> (b: SampleBuffer)
        ensures
            b.wf(),
            b@ == Seq::<MouseSample>::empty(),
    {
        let b = SampleBuffer { samples: Vec::new() };
        proof {
            assert(b.samples@ =~= Seq::<MouseSample>::empty());
        }
        b
    }

    pub fn len(&self) -> (n: usize)
        ensures
            n == self@.len(),
    {
        self.samples.len()
    }

    /// Append one motion sample recorded at time `now`.
    pub fn push(&mut self, dx: i32, dy: i32, now: u64)
        requires
            old(self).wf(),
        ensures
            final(self).wf(),
            final(self)@ == append_spec(old(self)@, dx, dy, now),
    {
        let n = self.samples.len();
        let t = if n > 0 {
            let last = self.samples[n - 1];
            if last.t > now {
                last.t
            } else {
                now
            }
        } else {
            now
        };
        let ghost s0 = self.samples@;
        self.samples.push(MouseSample { dx, dy, t });
        proof {
            let pushed = self.samples@;
            assert(pushed == s0.push(MouseSample { dx, dy, t }));
            assert(sorted_by_time(pushed)) by {
                assert(forall|i: int| 0 <= i < s0.len() ==> #[trigger] s0[i].t <= s0.last().t);
                assert(forall|i: int, j: int|
                    0 <= i < j < pushed.len() && j < s0.len() ==> #[trigger] pushed[i].t
                        <= #[trigger] pushed[j].t);
                assert(forall|i: int|
                    0 <= i < s0.len() ==> #[trigger] pushed[i].t <= pushed[pushed.len() - 1].t);
            }
        }
        if self.samples.len() > MAX_MOUSE_SAMPLES {
            let ghost pushed = self.samples@;
            self.samples.remove(0);
            proof {
                assert(self.samples@ =~= pushed.drop_first());
                assert(sorted_by_time(self.samples@)) by {
                    let t2 = self.samples@;
                    assert(forall|i: int, j: int|
                        0 <= i < j < t2.len() ==> #[trigger] t2[i].t == pushed[i + 1].t
                            && #[trigger] t2[j].t == pushed[j + 1].t);
                }
            }
        }
    }

    /// Keep at most the `MAX_SUMMED_SAMPLES` most recent samples, drop those
    /// older than `window`, and sum what remains.
    pub fn prune_and_sum(&mut self, now: u64, window: u64) -> (sums: (i64, i64))
        requires
            old(self).wf(),
        ensures
            final(self).wf(),
            final(self)@ == prune_stale(recent_samples(old(self)@), now, window),
            final(self)@.len() <= MAX_SUMMED_SAMPLES,
            sums.0 == sum_dx(final(self)@),
            sums.1 == sum_dy(final(self)@),
            forall|i: int|
                0 <= i < final(self)@.len() ==> is_fresh(#[trigger] final(self)@[i], now, window),
    {
        let ghost orig = self.samples@;
        while self.samples.len() > MAX_SUMMED_SAMPLES
            invariant
                sorted_by_time(self.samples@),
                self.samples@.len() <= MAX_MOUSE_SAMPLES,
                recent_samples(orig) == recent_samples(self.samples@),
            decreases self.samples@.len(),
        {
            let ghost cur = self.samples@;
            self.samples.remove(0);
            proof {
                assert(self.samples@ =~= cur.drop_first());
                let t2 = self.samples@;
                assert(sorted_by_time(t2)) by {
                    assert(forall|i: int, j: int|
                        0 <= i < j < t2.len() ==> #[trigger] t2[i].t == cur[i + 1].t
                            && #[trigger] t2[j].t == cur[j + 1].t);
                }
                assert(recent_samples(cur) =~= recent_samples(t2)) by {
                    assert(cur.skip(cur.len() - MAX_SUMMED_SAMPLES) =~= t2.skip(
                        t2.len() - MAX_SUMMED_SAMPLES,
                    ));
                }
            }
        }
        let ghost recent = self.samples@;
        proof {
            assert(recent_samples(orig) == recent);
        }
        loop
            invariant
                sorted_by_time(self.samples@),
                self.samples@.len() <= MAX_SUMMED_SAMPLES,
                prune_stale(recent, now, window) == prune_stale(self.samples@, now, window),
            ensures
                sorted_by_time(self.samples@),
                self.samples@.len() <= MAX_SUMMED_SAMPLES,
                prune_stale(recent, now, window) == prune_stale(self.samples@, now, window),
                self.samples@.len() == 0 || is_fresh(self.samples@[0], now, window),
            decreases self.samples@.len(),
        {
            if self.samples.len() == 0 {
                break;
            }
            let front = self.samples[0];
            if !(front.t < now && now - front.t > window) {
                proof {
                    assert(is_fresh(self.samples@[0], now, window));
                }
                break;
            }
            let ghost cur = self.samples@;
            proof {
                assert(!is_fresh(cur[0], now, window));
            }
            self.samples.remove(0);
            proof {
                assert(self.samples@ =~= cur.drop_first());
                let t2 = self.samples@;
                assert(sorted_by_time(t2)) by {
                    assert(forall|i: int, j: int|
                        0 <= i < j < t2.len() ==> #[trigger] t2[i].t == cur[i + 1].t
                            && #[trigger] t2[j].t == cur[j + 1].t);
                }
            }
        }
        proof {
            let t2 = self.samples@;
            if t2.len() > 0 {
                assert(is_fresh(t2[0], now, window));
                assert(prune_stale(t2, now, window) == t2);
            } else {
                assert(prune_stale(t2, now, window) == t2);
            }
            lemma_prune_keeps_only_fresh(recent, now, window);
        }
        let n = self.samples.len();
        let mut acc_x: i64 = 0;
        let mut acc_y: i64 = 0;
        let mut i: usize = 0;
        proof {
            assert(self.samples@.take(0) =~= Seq::<MouseSample>::empty());
        }
        while i < n
            invariant
                n == self.samples@.len(),
                n <= MAX_SUMMED_SAMPLES,
                i <= n,
                acc_x == sum_dx(self.samples@.take(i as int)),
                acc_y == sum_dy(self.samples@.take(i as int)),
                -(i as int) * 0x8000_0000 <= acc_x <= (i as int) * 0x8000_0000,
                -(i as int) * 0x8000_0000 <= acc_y <= (i as int) * 0x8000_0000,
            decreases n - i,
        {
            let e = self.samples[i];
            proof {
                let taken = self.samples@.take(i as int + 1);
                assert(taken.drop_last() =~= self.samples@.take(i as int));
                assert(taken.last() == e);
            }
            acc_x = acc_x + e.dx as i64;
            acc_y = acc_y + e.dy as i64;
            i = i + 1;
        }
        proof {
            assert(self.samples@.take(n as int) =~= self.samples@);
        }
        (acc_x, acc_y)
    }
}

} // verus!
