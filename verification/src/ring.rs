//! A delay line of a fixed capacity.

use vstd::prelude::*;

verus! {

/// The contents of a delay line.
pub struct RingView<T> {
    /// The last samples, the latest first; as many as the line can hold.
    pub recent: Seq<T>,
    /// By how many samples the output is behind the input.
    pub delay: int,
    /// What the line holds before anything was fed.
    pub zero: T,
}

/// A delay line. Its buffer is made once and never grows.
pub struct RingDelay<T: Copy> {
    buf: Vec<T>,
    write: usize,
    delay_samples: usize,
    zero: T,
}

/// Where in a ring of `cap` slots stands what was written `back` samples before
/// the slot that is written next.
pub open spec fn slot_back(write: int, cap: int, back: int) -> int {
    if back <= write {
        write - back
    } else {
        cap + write - back
    }
}

impl<T: Copy> View for RingDelay<T> {
    type V = RingView<T>;

    closed spec fn view(&self) -> RingView<T> {
        RingView {
            recent: Seq::new(
                self.buf@.len(),
                |k: int| self.buf@[slot_back(self.write as int, self.buf@.len() as int, k + 1)],
            ),
            delay: self.delay_samples as int,
            zero: self.zero,
        }
    }
}

/// Nothing was fed yet.
pub open spec fn silent<T>(line: RingView<T>) -> bool {
    forall|k: int| 0 <= k < line.recent.len() ==> #[trigger] line.recent[k] == line.zero
}

/// The line after one sample was fed.
pub open spec fn fed<T>(line: RingView<T>, x: T) -> RingView<T> {
    RingView { recent: seq![x] + line.recent.drop_last(), ..line }
}

/// What the line gives when a sample is fed: the sample of `delay` steps ago.
pub open spec fn output<T>(line: RingView<T>, x: T) -> T {
    fed(line, x).recent[line.delay]
}

/// What holds of every line: the delay is one that the buffer can hold.
pub open spec fn line_ok<T>(line: RingView<T>) -> bool {
    0 <= line.delay < line.recent.len()
}

impl<T: Copy> RingDelay<T> {
    #[verifier::type_invariant]
    spec fn inv(self) -> bool {
        &&& self.write < self.buf@.len()
        &&& self.delay_samples < self.buf@.len()
    }

    /// A line without delay, that holds `zero` only; it has one slot at least.
    pub fn new(capacity: usize, zero: T) -> (line: Self)
        ensures
            line_ok(line@),
            silent(line@),
            line@.recent.len() == (if capacity == 0 {
                1
            } else {
                capacity as int
            }),
            line@.delay == 0,
            line@.zero == zero,
    {
        let size: usize = if capacity == 0 {
            1
        } else {
            capacity
        };
        let mut buf: Vec<T> = Vec::new();
        while buf.len() < size
            invariant
                buf@.len() <= size,
                forall|k: int| 0 <= k < buf@.len() ==> #[trigger] buf@[k] == zero,
            decreases size - buf@.len(),
        {
            buf.push(zero);
        }
        RingDelay { buf, write: 0, delay_samples: 0, zero }
    }

    /// Sets the delay; the most that the buffer can hold is one less than its
    /// slots.
    pub fn set_delay_samples(&mut self, n: usize)
        ensures
            line_ok(final(self)@),
            final(self)@ == (RingView {
                delay: (if n < old(self)@.recent.len() {
                    n as int
                } else {
                    old(self)@.recent.len() - 1
                }),
                ..old(self)@
            }),
    {
        proof {
            use_type_invariant(&*self);
        }
        let max: usize = self.buf.len() - 1;
        self.delay_samples = if n < max {
            n
        } else {
            max
        };
    }

    /// Forgets what was fed; the delay stays.
    pub fn reset(&mut self)
        ensures
            line_ok(final(self)@),
            silent(final(self)@),
            final(self)@.recent.len() == old(self)@.recent.len(),
            final(self)@.delay == old(self)@.delay,
            final(self)@.zero == old(self)@.zero,
    {
        proof {
            use_type_invariant(&*self);
        }
        let mut i: usize = 0;
        while i < self.buf.len()
            invariant
                i <= self.buf@.len() == old(self).buf@.len(),
                self.write < self.buf@.len(),
                self.delay_samples == old(self).delay_samples < self.buf@.len(),
                self.zero == old(self).zero,
                forall|k: int| 0 <= k < i ==> #[trigger] self.buf@[k] == self.zero,
            decreases self.buf@.len() - i,
        {
            self.buf[i] = self.zero;
            i = i + 1;
        }
        self.write = 0;
    }

    /// Feeds one sample and gives the one of as many steps ago as the delay says.
    pub fn process(&mut self, x: T) -> (out: T)
        ensures
            line_ok(final(self)@),
            final(self)@ == fed(old(self)@, x),
            out == output(old(self)@, x),
    {
        proof {
            use_type_invariant(&*self);
        }
        let cap: usize = self.buf.len();
        self.buf[self.write] = x;
        let read: usize = if self.delay_samples <= self.write {
            self.write - self.delay_samples
        } else {
            cap - (self.delay_samples - self.write)
        };
        let out: T = self.buf[read];
        self.write = if self.write + 1 == cap {
            0
        } else {
            self.write + 1
        };
        assert(self@.recent =~= fed(old(self)@, x).recent);
        out
    }
}

/// The capacity of the delay lines of a crossfeed, where `one_ms` is the number
/// of samples in a millisecond.
pub open spec fn spec_capacity_for(one_ms: usize) -> usize {
    if one_ms < 32 {
        32
    } else {
        one_ms
    }
}

/// The capacity of the delay lines of a crossfeed.
pub fn capacity_for(one_ms: usize) -> (capacity: usize)
    ensures
        capacity == spec_capacity_for(one_ms),
{
    if one_ms < 32 {
        32
    } else {
        one_ms
    }
}

/// A line with that capacity holds every delay of up to half a millisecond.
pub proof fn law_half_ms_fits(one_ms: usize, delay: int)
    requires
        0 <= delay,
        2 * delay <= one_ms + 1,
    ensures
        delay < spec_capacity_for(one_ms),
{
}

/// The line after a series of samples.
pub open spec fn fed_all<T>(line: RingView<T>, xs: Seq<T>) -> RingView<T>
    decreases xs.len(),
{
    if xs.len() == 0 {
        line
    } else {
        fed(fed_all(line, xs.drop_last()), xs.last())
    }
}

proof fn lemma_fed_all<T>(line: RingView<T>, xs: Seq<T>)
    requires
        line.recent.len() > 0,
    ensures
        fed_all(line, xs).recent.len() == line.recent.len(),
        fed_all(line, xs).delay == line.delay,
        fed_all(line, xs).zero == line.zero,
        forall|k: int|
            0 <= k < line.recent.len() ==> #[trigger] fed_all(line, xs).recent[k] == (if k
                < xs.len() {
                xs[xs.len() - 1 - k]
            } else {
                line.recent[k - xs.len()]
            }),
    decreases xs.len(),
{
    if xs.len() > 0 {
        lemma_fed_all(line, xs.drop_last());
        let before = fed_all(line, xs.drop_last());
        assert forall|k: int| 0 <= k < line.recent.len() implies #[trigger] fed_all(
            line,
            xs,
        ).recent[k] == (if k < xs.len() {
            xs[xs.len() - 1 - k]
        } else {
            line.recent[k - xs.len()]
        }) by {
            if k > 0 {
                assert(fed(before, xs.last()).recent[k] == before.recent[k - 1]);
            }
        }
    }
}

/// The line gives back what it was fed, `delay` samples later, and nothing but
/// zeros before.
pub proof fn law_output_is_delayed_input<T>(line: RingView<T>, xs: Seq<T>, x: T)
    requires
        line_ok(line),
        silent(line),
    ensures
        output(fed_all(line, xs), x) == (if line.delay <= xs.len() {
            xs.push(x)[xs.len() - line.delay]
        } else {
            line.zero
        }),
{
    lemma_fed_all(line, xs.push(x));
    assert(xs.push(x).drop_last() =~= xs);
}

/// Without delay the line passes its input through.
pub proof fn law_no_delay<T>(line: RingView<T>, x: T)
    requires
        line_ok(line),
        line.delay == 0,
    ensures
        output(line, x) == x,
{
}

/// The capacity is one millisecond, and 32 samples at least.
pub proof fn law_capacity(one_ms: usize)
    ensures
        one_ms >= 32 ==> spec_capacity_for(one_ms) == one_ms,
        one_ms < 32 ==> spec_capacity_for(one_ms) == 32,
{
}

/// Whatever the line held before, once as many samples were fed as the delay is
/// long, it gives back what it was fed.
pub proof fn law_output_after_delay<T>(line: RingView<T>, xs: Seq<T>, x: T)
    requires
        line_ok(line),
        line.delay <= xs.len(),
    ensures
        output(fed_all(line, xs), x) == xs.push(x)[xs.len() - line.delay],
        fed_all(line, xs).recent.len() == line.recent.len(),
        fed_all(line, xs).delay == line.delay,
        fed_all(line, xs).zero == line.zero,
{
    lemma_fed_all(line, xs);
    lemma_fed_all(line, xs.push(x));
    assert(xs.push(x).drop_last() =~= xs);
}

/// What a valid and what a silent line is.
pub proof fn law_line<T>(line: RingView<T>, k: int)
    ensures
        line_ok(line) <==> 0 <= line.delay && line.delay < line.recent.len(),
        silent(line) && 0 <= k < line.recent.len() ==> line.recent[k] == line.zero,
{
}

/// A line that holds nothing but zeros is silent.
pub proof fn law_silence<T>(line: RingView<T>)
    requires
        forall|k: int| 0 <= k < line.recent.len() ==> #[trigger] line.recent[k] == line.zero,
    ensures
        silent(line),
{
}

/// Feeding a sample gives that sample where there is no delay, otherwise the one
/// that was fed as many steps ago; the line then holds the sample as its latest,
/// behind it what it held, and keeps its delay.
pub proof fn law_step<T: Copy>(line: &mut RingDelay<T>, x: T, out: T, k: int)
    requires
        call_ensures(RingDelay::<T>::process, (line, x), out),
        line_ok(old(line)@),
    ensures
        out == (if old(line)@.delay == 0 {
            x
        } else {
            old(line)@.recent[old(line)@.delay - 1]
        }),
        final(line)@.recent.len() == old(line)@.recent.len(),
        final(line)@.recent[0] == x,
        0 < k < old(line)@.recent.len() ==> final(line)@.recent[k] == old(line)@.recent[k - 1],
        final(line)@.delay == old(line)@.delay,
{
}

} // verus!
