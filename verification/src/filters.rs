//! The all-pass stage of the diffusion chain: a delay line whose input and
//! output are crossed with each other.

use crate::delay::{behind, blank, DelayLine, InterpolationType};
use vstd::prelude::*;

verus! {

/// A Schroeder all-pass stage over a line as long as its delay.
pub struct AllPass<S> {
    delay_line: DelayLine<S>,
    feedback: S,
}

/// What an all-pass stage is, apart from how it is stored: the samples in
/// its line from the oldest to the newest, and its feedback gain.
pub struct AllPassView<S> {
    pub line: Seq<S>,
    pub gain: S,
}

impl<S> AllPassView<S> {
    /// The delayed signal: the oldest sample of the line.
    pub open spec fn delayed(self) -> S {
        behind(self.line, 0)
    }

    /// The stage once `stored` has gone into its line.
    pub open spec fn fed(self, stored: S) -> AllPassView<S> {
        AllPassView { line: self.line.drop_first().push(stored), ..self }
    }
}

impl<S> View for AllPass<S> {
    type V = AllPassView<S>;

    closed spec fn view(&self) -> AllPassView<S> {
        AllPassView { line: self.delay_line@, gain: self.feedback }
    }
}

impl<S: Copy> AllPass<S> {
    /// The line inside is well formed. Every stage that this module hands
    /// out is.
    pub closed spec fn wf(&self) -> bool {
        self.delay_line.wf()
    }

    /// A stage that delays by `length` samples, at least one, over a silent
    /// line.
    pub fn new(length: usize, feedback: S, silence: S) -> (stage: Self)
        ensures
            stage.wf(),
            stage@ == (AllPassView {
                line: blank(
                    if length == 0 {
                        1
                    } else {
                        length as nat
                    },
                    silence,
                ),
                gain: feedback,
            }),
    {
        AllPass { delay_line: DelayLine::new(InterpolationType::Linear, length, silence), feedback }
    }

    /// Processes one sample. `cross` makes of the input, the delayed signal
    /// and the feedback gain the output and what goes into the line; both are
    /// returned, the output first.
    pub fn process<C: Fn(S, S, S) -> (S, S)>(&mut self, x: S, cross: C) -> (crossed: (S, S))
        requires
            old(self).wf(),
            cross.requires((x, old(self)@.delayed(), old(self)@.gain)),
        ensures
            final(self).wf(),
            cross.ensures((x, old(self)@.delayed(), old(self)@.gain), crossed),
            final(self)@ == old(self)@.fed(crossed.1),
    {
        let delayed = self.delay_line.read(0).at_position();
        let crossed = cross(x, delayed, self.feedback);
        self.delay_line.write_and_increment(crossed.1);
        crossed
    }
}

} // verus!
