//! A circular history of samples with interpolated reads, and the feedback
//! delay built on it.
//!
//! The sample type is the caller's. The line stores and selects samples; the
//! weights of an interpolation and the sum of a feedback path are arithmetic
//! on samples and are handed in.

use crate::cycle::{lemma_wrap_shift, lemma_wrap_sum, lemma_wrap_unique, wrap};
use vstd::prelude::*;

verus! {

/// How a read reconstructs the signal between stored samples.
#[derive(Clone, Copy, Debug, PartialEq, Eq, Structural)]
pub enum InterpolationType {
    Nearest,
    Linear,
    Cubic,
}

/// The stored samples that a read hands out, from the older to the newer.
///
/// The read position lies at the first tap of `Nearest` and `Linear` and at
/// the second tap of `Cubic`, or between that tap and the next by the fraction
/// that the caller rounded its delay up by.
#[derive(Clone, Copy, Debug)]
pub enum Taps<S> {
    Nearest(S),
    Linear(S, S),
    Cubic(S, S, S, S),
}

impl<S> Taps<S> {
    /// The tap at the read position: the stored sample that the read returns
    /// where the delay is a whole number of samples.
    pub open spec fn anchor(self) -> S {
        match self {
            Taps::Nearest(s0) => s0,
            Taps::Linear(s0, _) => s0,
            Taps::Cubic(_, s1, _, _) => s1,
        }
    }
}

impl<S: Copy> Taps<S> {
    /// The tap at the read position.
    pub fn at_position(&self) -> (tap: S)
        ensures
            tap == self.anchor(),
    {
        match *self {
            Taps::Nearest(s0) => s0,
            Taps::Linear(s0, _) => s0,
            Taps::Cubic(_, s1, _, _) => s1,
        }
    }
}

/// The sample that lies `back` slots behind the write cursor in a line whose
/// stored samples, from the oldest to the newest, are `stored`. The cursor
/// itself stands on the oldest sample, one slot behind it lies the newest.
pub open spec fn behind<S>(stored: Seq<S>, back: int) -> S {
    stored[wrap(-back, stored.len() as int)]
}

/// A delay limited to what a line of `capacity` samples can give.
pub open spec fn clamp_delay(delay: usize, capacity: nat) -> int {
    if delay >= capacity {
        capacity - 1
    } else {
        delay as int
    }
}

/// The taps of a read `delay` slots behind the cursor: under `Nearest` the
/// sample there, under `Linear` that sample and the next newer one, under
/// `Cubic` those two with one neighbour on either side.
pub open spec fn taps_at<S>(stored: Seq<S>, policy: InterpolationType, delay: int) -> Taps<S> {
    match policy {
        InterpolationType::Nearest => Taps::Nearest(behind(stored, delay)),
        InterpolationType::Linear => Taps::Linear(behind(stored, delay), behind(stored, delay - 1)),
        InterpolationType::Cubic => Taps::Cubic(
            behind(stored, delay + 1),
            behind(stored, delay),
            behind(stored, delay - 1),
            behind(stored, delay - 2),
        ),
    }
}

/// The capacity of a line that is to hold `seconds` seconds of signal at
/// `sample_rate` samples per second: one slot more than the samples of that
/// span, so that a delay of the whole span is still within the line.
pub open spec fn span_capacity(sample_rate: u32, seconds: u32) -> int {
    sample_rate * seconds + 1
}

/// The capacity of a line for the longest delay that is intended, derived
/// from the sample rate in samples per second and that delay in seconds. The
/// capacity must be one that a line can have on this machine.
pub fn capacity_for(sample_rate: u32, seconds: u32) -> (capacity: usize)
    requires
        span_capacity(sample_rate, seconds) <= usize::MAX,
    ensures
        capacity == span_capacity(sample_rate, seconds),
        capacity > sample_rate * seconds,
{
    assert(0 <= (sample_rate as int) * (seconds as int) <= 0xffff_ffff * 0xffff_ffff)
        by (nonlinear_arith)
        requires
            0 <= sample_rate <= 0xffff_ffff,
            0 <= seconds <= 0xffff_ffff,
    ;
    let samples: u64 = (sample_rate as u64) * (seconds as u64);
    (samples + 1) as usize
}

/// A line of `capacity` samples that all hold `silence`.
pub open spec fn blank<S>(capacity: nat, silence: S) -> Seq<S> {
    Seq::new(capacity, |k: int| silence)
}

/// A fixed-capacity circular history of samples.
pub struct DelayLine<S> {
    buffer: Vec<S>,
    index: usize,
    interpolation: InterpolationType,
}

impl<S> View for DelayLine<S> {
    type V = Seq<S>;

    /// The stored samples from the oldest to the newest.
    closed spec fn view(&self) -> Seq<S> {
        Seq::new(
            self.buffer@.len(),
            |k: int| self.buffer@[wrap(self.index + k, self.buffer@.len() as int)],
        )
    }
}

impl<S: Copy> DelayLine<S> {
    /// The line holds at least one sample and its cursor stands on one of
    /// them. Every line that this module hands out is well formed.
    pub closed spec fn wf(&self) -> bool {
        0 < self.buffer@.len() && self.index < self.buffer@.len()
    }

    /// The interpolation policy that reads follow.
    pub closed spec fn policy(&self) -> InterpolationType {
        self.interpolation
    }

    /// The slot that the next write fills.
    pub closed spec fn cursor(&self) -> int {
        self.index as int
    }

    proof fn lemma_behind(&self, back: int)
        requires
            0 < self.buffer@.len(),
            self.index < self.buffer@.len(),
        ensures
            behind(self@, back) == self.buffer@[wrap(self.index - back, self.buffer@.len() as int)],
            0 <= wrap(self.index - back, self.buffer@.len() as int) < self.buffer@.len(),
    {
        let length = self.buffer@.len() as int;
        let place = wrap(-back, length);
        vstd::arithmetic::div_mod::lemma_mod_bound(-back, length);
        vstd::arithmetic::div_mod::lemma_mod_bound(self.index - back, length);
        vstd::arithmetic::div_mod::lemma_add_mod_noop_right(self.index as int, -back, length);
    }

    /// A line of `capacity` samples, at least one, that all hold `silence`.
    pub fn new(interpolation: InterpolationType, capacity: usize, silence: S) -> (line: Self)
        ensures
            line@ == blank(
                if capacity == 0 {
                    1
                } else {
                    capacity as nat
                },
                silence,
            ),
            line.policy() == interpolation,
            line.cursor() == 0,
            line.wf(),
    {
        let size = if capacity == 0 {
            1
        } else {
            capacity
        };
        let mut buffer: Vec<S> = Vec::new();
        while buffer.len() < size
            invariant
                buffer@.len() <= size,
                forall|k: int| 0 <= k < buffer@.len() ==> buffer@[k] == silence,
            decreases size - buffer@.len(),
        {
            buffer.push(silence);
        }
        let line = DelayLine { buffer, index: 0, interpolation };
        proof {
            assert forall|k: int| 0 <= k < size implies #[trigger] wrap(k, size as int) == k by {
                lemma_wrap_unique(k, size as int, 0, k);
            }
            assert(line@ =~= blank(size as nat, silence));
        }
        line
    }

    /// The number of samples the line holds.
    pub fn capacity(&self) -> (capacity: usize)
        requires
            self.wf(),
        ensures
            capacity == self@.len(),
            capacity > 0,
    {
        self.buffer.len()
    }

    /// The stored samples from the oldest to the newest.
    pub fn stored(&self) -> (stored: Vec<S>)
        requires
            self.wf(),
        ensures
            stored@ == self@,
    {
        let length = self.buffer.len();
        let mut stored: Vec<S> = Vec::new();
        let mut position = self.index;
        proof {
            lemma_wrap_unique(self.index as int, length as int, 0, self.index as int);
        }
        while stored.len() < length
            invariant
                self.wf(),
                length == self.buffer@.len(),
                stored@.len() <= length,
                position == wrap(self.index + stored@.len(), length as int),
                position < length,
                forall|k: int| 0 <= k < stored@.len() ==> stored@[k] == self@[k],
            decreases length - stored@.len(),
        {
            proof {
                lemma_wrap_shift(self.index as int + stored@.len() as int, 1, length as int);
            }
            stored.push(self.get_sample(position));
            position = self.successor(position);
        }
        assert(stored@ =~= self@);
        stored
    }

    /// The slot that the next write fills.
    pub fn index(&self) -> (index: usize)
        requires
            self.wf(),
        ensures
            index == self.cursor(),
            index < self@.len(),
    {
        self.index
    }

    fn get_sample(&self, index: usize) -> (sample: S)
        requires
            index < self.buffer@.len(),
        ensures
            sample == self.buffer@[index as int],
    {
        self.buffer[index]
    }

    /// The slot after `index`, round the end of the buffer.
    fn successor(&self, index: usize) -> (next: usize)
        requires
            index < self.buffer@.len(),
        ensures
            next == wrap(index + 1, self.buffer@.len() as int),
            next < self.buffer@.len(),
    {
        let length = self.buffer.len();
        proof {
            lemma_wrap_sum(index as int, 1, length as int);
        }
        if index + 1 == length {
            0
        } else {
            index + 1
        }
    }

    fn linear_taps(&self, position: usize) -> (taps: Taps<S>)
        requires
            position < self.buffer@.len(),
        ensures
            taps == Taps::Linear(
                self.buffer@[position as int],
                self.buffer@[wrap(position + 1, self.buffer@.len() as int)],
            ),
    {
        let s0 = self.get_sample(position);
        let s1 = self.get_sample(self.successor(position));
        Taps::Linear(s0, s1)
    }

    fn cubic_taps(&self, position: usize) -> (taps: Taps<S>)
        requires
            position < self.buffer@.len(),
        ensures
            taps == Taps::Cubic(
                self.buffer@[wrap(position - 1, self.buffer@.len() as int)],
                self.buffer@[position as int],
                self.buffer@[wrap(position + 1, self.buffer@.len() as int)],
                self.buffer@[wrap(position + 2, self.buffer@.len() as int)],
            ),
    {
        let length = self.buffer.len();
        let before = if position == 0 {
            length - 1
        } else {
            position - 1
        };
        let after = self.successor(position);
        let last = self.successor(after);
        proof {
            lemma_wrap_sum(position as int, -1, length as int);
            lemma_wrap_shift(position as int + 1, 1, length as int);
        }
        Taps::Cubic(
            self.get_sample(before),
            self.get_sample(position),
            self.get_sample(after),
            self.get_sample(last),
        )
    }

    /// Reads `delay` slots behind the write cursor under the line's policy.
    ///
    /// A delay that the line cannot give is limited to the longest it can:
    /// one slot less than its capacity. A caller whose delay is not a whole
    /// number of samples passes it rounded up and weighs the taps by the
    /// remainder.
    pub fn read(&self, delay: usize) -> (taps: Taps<S>)
        requires
            self.wf(),
        ensures
            taps == taps_at(self@, self.policy(), clamp_delay(delay, self@.len())),
            taps.anchor() == behind(self@, clamp_delay(delay, self@.len())),
    {
        let length = self.buffer.len();
        let back = if delay >= length {
            length - 1
        } else {
            delay
        };
        let position = if self.index >= back {
            self.index - back
        } else {
            self.index + (length - back)
        };
        proof {
            lemma_wrap_sum(self.index as int, -(back as int), length as int);
            self.lemma_behind(back as int);
            self.lemma_behind(back as int + 1);
            self.lemma_behind(back as int - 1);
            self.lemma_behind(back as int - 2);
            lemma_wrap_shift(self.index as int - back as int, 1, length as int);
            lemma_wrap_shift(self.index as int - back as int, -1, length as int);
            lemma_wrap_shift(self.index as int - back as int, 2, length as int);
        }
        match self.interpolation {
            InterpolationType::Nearest => Taps::Nearest(self.get_sample(position)),
            InterpolationType::Linear => self.linear_taps(position),
            InterpolationType::Cubic => self.cubic_taps(position),
        }
    }

    /// Overwrites the oldest sample with `value` and advances the cursor, so
    /// that `value` is the newest.
    pub fn write_and_increment(&mut self, value: S)
        requires
            old(self).wf(),
        ensures
            final(self).wf(),
            final(self)@ == old(self)@.drop_first().push(value),
            final(self).policy() == old(self).policy(),
            final(self).cursor() == wrap(old(self).cursor() + 1, old(self)@.len() as int),
    {
        let ghost before = *self;
        let length = self.buffer.len();
        let next = self.successor(self.index);
        self.buffer.set(self.index, value);
        self.index = next;
        proof {
            let stored = before@.drop_first().push(value);
            assert forall|k: int| 0 <= k < length implies #[trigger] self@[k] == stored[k] by {
                lemma_wrap_shift(before.index as int + 1, k, length as int);
                lemma_wrap_sum(before.index as int, k + 1, length as int);
            }
            assert(self@ =~= stored);
        }
    }
}

/// The stored samples of a line after `samples` were written to it one after
/// the other.
pub open spec fn written<S>(stored: Seq<S>, samples: Seq<S>) -> Seq<S>
    decreases samples.len(),
{
    if samples.len() == 0 {
        stored
    } else {
        written(stored.drop_first().push(samples[0]), samples.drop_first())
    }
}

proof fn lemma_written<S>(stored: Seq<S>, samples: Seq<S>)
    requires
        stored.len() > 0,
    ensures
        written(stored, samples) == (stored + samples).skip(samples.len() as int),
    decreases samples.len(),
{
    if samples.len() == 0 {
        assert((stored + samples).skip(0) =~= stored);
    } else {
        let first = stored.drop_first().push(samples[0]);
        let rest = samples.drop_first();
        lemma_written(first, rest);
        assert((first + rest).skip(rest.len() as int) =~= (stored + samples).skip(
            samples.len() as int,
        ));
    }
}

/// A line never changes its capacity, and what was written last is what lies
/// nearest behind the cursor: a read that is a whole delay of `delay` samples
/// behind, within the line's capacity, finds the sample written `delay`
/// writes ago.
pub proof fn law_read_finds_written<S>(stored: Seq<S>, samples: Seq<S>, delay: int)
    requires
        stored.len() > 0,
        1 <= delay < stored.len(),
        delay <= samples.len(),
    ensures
        written(stored, samples).len() == stored.len(),
        behind(written(stored, samples), delay) == samples[samples.len() - delay],
{
    lemma_written(stored, samples);
    lemma_wrap_unique(-delay, stored.len() as int, -1, stored.len() - delay);
}

/// A read at the cursor itself finds the oldest sample the line still holds:
/// the one written as many writes ago as the line has slots.
pub proof fn law_read_at_cursor_finds_oldest<S>(stored: Seq<S>, samples: Seq<S>)
    requires
        stored.len() > 0,
        stored.len() <= samples.len(),
    ensures
        behind(written(stored, samples), 0) == samples[samples.len() - stored.len()],
{
    lemma_written(stored, samples);
    lemma_wrap_unique(0, stored.len() as int, 0, 0);
}

/// Where the line has twice as many slots as the delay is long, or one slot
/// only, a read `delay` behind the cursor after `delay + 1` writes finds the
/// sample that was written `capacity - delay - 1` writes before the last one.
pub proof fn law_read_after_filling<S>(stored: Seq<S>, samples: Seq<S>, delay: int)
    requires
        stored.len() > 0,
        0 <= delay < stored.len(),
        samples.len() == delay + 1,
        stored.len() == 2 * delay || stored.len() == 1,
    ensures
        behind(written(stored, samples), delay) == samples[samples.len() - 1 - (stored.len()
            - delay - 1)],
{
    if delay == 0 {
        law_read_at_cursor_finds_oldest(stored, samples);
    } else {
        law_read_finds_written(stored, samples, delay);
    }
}

/// Under every policy the tap at the read position is the stored sample
/// that lies the whole delay behind the cursor: where the delay is a whole
/// number of samples, the read position holds a stored sample, and an
/// interpolation that gives that tap all the weight returns it unchanged.
pub proof fn law_whole_delay_reads_stored<S>(
    stored: Seq<S>,
    policy: InterpolationType,
    delay: int,
)
    ensures
        taps_at(stored, policy, delay).anchor() == behind(stored, delay),
        taps_at(stored, policy, delay).anchor() == taps_at(
            stored,
            InterpolationType::Nearest,
            delay,
        ).anchor(),
{
}

/// A feedback delay: what comes out is the input combined with the delayed
/// signal, and what comes out is also what goes back into the line.
///
/// The delay time is `time_samples` whole samples less `fraction`, the part
/// of a sample by which it was rounded up.
pub struct Delay<S> {
    delay_line: DelayLine<S>,
    time_samples: usize,
    fraction: S,
    feedback: S,
}

impl<S: Copy> Delay<S> {
    /// The line inside is well formed. Every delay that this module hands
    /// out is.
    pub closed spec fn wf(&self) -> bool {
        self.delay_line.wf() && self.delay_line.policy() == InterpolationType::Cubic
    }

    /// The stored samples from the oldest to the newest.
    pub closed spec fn line(&self) -> Seq<S> {
        self.delay_line@
    }

    /// The delay time in samples, rounded up.
    pub closed spec fn time(&self) -> usize {
        self.time_samples
    }

    /// The part of a sample by which the delay time was rounded up.
    pub closed spec fn remainder(&self) -> S {
        self.fraction
    }

    /// The feedback gain.
    pub closed spec fn gain(&self) -> S {
        self.feedback
    }

    /// The taps of the delayed signal: a cubic read at the delay time.
    pub open spec fn delayed(&self) -> Taps<S> {
        taps_at(
            self.line(),
            InterpolationType::Cubic,
            clamp_delay(self.time(), self.line().len()),
        )
    }

    /// A delay of `time_samples` samples less `fraction` over a silent line
    /// of `capacity` samples, at least one.
    pub fn new(time_samples: usize, fraction: S, feedback: S, capacity: usize, silence: S) -> (delay:
        Self)
        ensures
            delay.wf(),
            delay.time() == time_samples,
            delay.remainder() == fraction,
            delay.gain() == feedback,
            delay.line() == blank(
                if capacity == 0 {
                    1
                } else {
                    capacity as nat
                },
                silence,
            ),
    {
        Delay {
            delay_line: DelayLine::new(InterpolationType::Cubic, capacity, silence),
            time_samples,
            fraction,
            feedback,
        }
    }

    /// A delay of `time_samples` samples less `fraction` over a silent line
    /// whose capacity is derived from the sample rate, in samples per second,
    /// and the longest delay that is intended, in seconds. Every delay time
    /// up to that span is read as it is given, none is cut short.
    pub fn for_span(
        time_samples: usize,
        fraction: S,
        feedback: S,
        sample_rate: u32,
        seconds: u32,
        silence: S,
    ) -> (delay: Self)
        requires
            span_capacity(sample_rate, seconds) <= usize::MAX,
        ensures
            delay.wf(),
            delay.time() == time_samples,
            delay.remainder() == fraction,
            delay.gain() == feedback,
            delay.line() == blank(span_capacity(sample_rate, seconds) as nat, silence),
            delay.line().len() > sample_rate * seconds,
            forall|time: usize|
                time <= sample_rate * seconds ==> #[trigger] clamp_delay(time, delay.line().len())
                    == time,
    {
        Self::new(time_samples, fraction, feedback, capacity_for(sample_rate, seconds), silence)
    }

    /// Processes one sample: reads the delayed signal, lets `combine` make
    /// the output of the input, the delayed taps, the fraction by which to
    /// weigh them and the feedback gain, and writes the output back into the
    /// line.
    pub fn tick<F: Fn(S, Taps<S>, S, S) -> S>(&mut self, input: S, combine: F) -> (output: S)
        requires
            old(self).wf(),
            combine.requires(
                (input, old(self).delayed(), old(self).remainder(), old(self).gain()),
            ),
        ensures
            final(self).wf(),
            combine.ensures(
                (input, old(self).delayed(), old(self).remainder(), old(self).gain()),
                output,
            ),
            final(self).line() == old(self).line().drop_first().push(output),
            final(self).time() == old(self).time(),
            final(self).remainder() == old(self).remainder(),
            final(self).gain() == old(self).gain(),
    {
        let delayed = self.delay_line.read(self.time_samples);
        let output = combine(input, delayed, self.fraction, self.feedback);
        self.delay_line.write_and_increment(output);
        output
    }

    /// Sets the delay time to `time` whole samples less `fraction`.
    pub fn set_delay_time(&mut self, time: usize, fraction: S)
        ensures
            final(self).time() == time,
            final(self).remainder() == fraction,
            final(self).gain() == old(self).gain(),
            final(self).line() == old(self).line(),
            old(self).wf() ==> final(self).wf(),
    {
        self.time_samples = time;
        self.fraction = fraction;
    }

    /// Sets the feedback gain.
    pub fn set_feedback(&mut self, feedback: S)
        ensures
            final(self).gain() == feedback,
            final(self).time() == old(self).time(),
            final(self).remainder() == old(self).remainder(),
            final(self).line() == old(self).line(),
            old(self).wf() ==> final(self).wf(),
    {
        self.feedback = feedback;
    }

    /// The delay time in samples.
    pub fn time_samples(&self) -> (time: usize)
        ensures
            time == self.time(),
    {
        self.time_samples
    }

    /// The part of a sample by which the delay time was rounded up.
    pub fn fraction(&self) -> (fraction: S)
        ensures
            fraction == self.remainder(),
    {
        self.fraction
    }

    /// The feedback gain.
    pub fn feedback(&self) -> (feedback: S)
        ensures
            feedback == self.gain(),
    {
        self.feedback
    }
}

} // verus!
