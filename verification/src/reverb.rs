//! The delay network of the reverberator: a chain of all-pass stages that
//! diffuses the input, and a bank of parallel feedback paths whose lengths and
//! polarities are drawn when the network is made.
//!
//! The network keeps the lines and says which sample meets which; what is
//! made of them, and how the paths' outputs are mixed, is arithmetic on
//! samples and handed in or left to the caller.

use crate::delay::{behind, blank, DelayLine, InterpolationType};
use crate::filters::{AllPass, AllPassView};
use rand::rngs::StdRng;
use rand::{Rng, SeedableRng};
use vstd::prelude::*;

verus! {

/// The number of all-pass stages in the diffusion chain.
pub const ALLPASS_COUNT: usize = 8;

/// The number of parallel feedback paths.
pub const DELAY_COUNT: usize = 32;

/// The shortest delay of a path, in samples.
pub const MIN_PATH_DELAY: u32 = 10;

/// The bound below which the delay of every path lies, in samples.
pub const MAX_PATH_DELAY: u32 = 10000;

/// A path inverts its signal with these odds: one in three.
pub const INVERSION_ODDS: (u32, u32) = (1, 3);

/// `rand::rngs::StdRng`: a seeded generator of random numbers. It is held
/// and handed to the calls below; nothing is known of its state.
#[verifier::external_type_specification]
#[verifier::external_body]
pub struct ExStdRng(StdRng);

/// `rand::SeedableRng::seed_from_u64` for `StdRng`: a generator made from a
/// seed. Nothing is claimed of it.
#[verifier::external_body]
fn seeded(seed: u64) -> (rng: StdRng) {
    StdRng::seed_from_u64(seed)
}

/// `rand::Rng::gen_range` over `low..high`: a value of that range, the upper
/// end excluded. The range must not be empty.
#[verifier::external_body]
fn draw_in_range(rng: &mut StdRng, low: u32, high: u32) -> (drawn: u32)
    requires
        low < high,
    ensures
        low <= drawn < high,
{
    rng.gen_range(low..high)
}

/// `rand::Rng::gen_ratio`: true with odds of `numerator` in `denominator`,
/// so always where the two are equal and never where the numerator is zero.
/// The denominator must not be zero nor the numerator above it.
#[verifier::external_body]
fn draw_with_odds(rng: &mut StdRng, numerator: u32, denominator: u32) -> (drawn: bool)
    requires
        0 < denominator,
        numerator <= denominator,
    ensures
        numerator == denominator ==> drawn,
        numerator == 0 ==> !drawn,
{
    rng.gen_ratio(numerator, denominator)
}

/// The delay of all-pass stage number `stage`, in samples. The lengths are
/// all different and share few factors, so that the stages do not ring
/// together.
pub open spec fn allpass_length(stage: int) -> int {
    if stage == 0 {
        861
    } else if stage == 1 {
        732
    } else if stage == 2 {
        642
    } else if stage == 3 {
        562
    } else if stage == 4 {
        410
    } else if stage == 5 {
        352
    } else if stage == 6 {
        285
    } else {
        199
    }
}

/// No two stages of the chain have the same delay.
pub proof fn law_stage_lengths_differ(one: int, other: int)
    requires
        0 <= one < other < ALLPASS_COUNT,
    ensures
        allpass_length(one) != allpass_length(other),
{
}

fn stage_length(stage: usize) -> (length: usize)
    ensures
        length == allpass_length(stage as int),
        length > 0,
{
    if stage == 0 {
        861
    } else if stage == 1 {
        732
    } else if stage == 2 {
        642
    } else if stage == 3 {
        562
    } else if stage == 4 {
        410
    } else if stage == 5 {
        352
    } else if stage == 6 {
        285
    } else {
        199
    }
}

/// One feedback path: a line as long as the path's delay, the path's
/// polarity and feedback gain, and the state of the filter in its loop, which
/// is the caller's.
pub struct ReverbPath<S, F> {
    delay_line: DelayLine<S>,
    svf: F,
    delay_time: usize,
    is_inverted: bool,
    feedback: S,
}

/// What a path is, apart from how it is stored.
pub struct PathView<S, F> {
    pub line: Seq<S>,
    pub filter: F,
    pub delay_time: usize,
    pub is_inverted: bool,
    pub gain: S,
}

impl<S, F> PathView<S, F> {
    /// The delayed signal: the oldest sample of the line, written as many
    /// samples ago as the path's delay is long.
    pub open spec fn delayed(self) -> S {
        behind(self.line, 0)
    }

    /// The path once `output` has gone into its line and its filter has
    /// reached `filter`.
    pub open spec fn fed(self, output: S, filter: F) -> PathView<S, F> {
        PathView { line: self.line.drop_first().push(output), filter, ..self }
    }

    /// The path's delay lies within the bounds and its line is as long.
    pub open spec fn wf(self) -> bool {
        &&& MIN_PATH_DELAY <= self.delay_time < MAX_PATH_DELAY
        &&& self.line.len() == self.delay_time
    }

    /// A silent path with the given delay and polarity.
    pub open spec fn made(
        delay_time: usize,
        is_inverted: bool,
        feedback: S,
        filter: F,
        silence: S,
    ) -> PathView<S, F> {
        PathView {
            line: blank(delay_time as nat, silence),
            filter,
            delay_time,
            is_inverted,
            gain: feedback,
        }
    }
}

/// A delay limited to the bounds of a path's delay.
pub open spec fn clamp_path_delay(delay_time: usize) -> usize {
    if delay_time < MIN_PATH_DELAY {
        MIN_PATH_DELAY as usize
    } else if delay_time >= MAX_PATH_DELAY {
        (MAX_PATH_DELAY - 1) as usize
    } else {
        delay_time
    }
}

impl<S, F> View for ReverbPath<S, F> {
    type V = PathView<S, F>;

    closed spec fn view(&self) -> PathView<S, F> {
        PathView {
            line: self.delay_line@,
            filter: self.svf,
            delay_time: self.delay_time,
            is_inverted: self.is_inverted,
            gain: self.feedback,
        }
    }
}

impl<S: Copy, F: Copy> ReverbPath<S, F> {
    /// The line inside is well formed and as long as the path's delay.
    pub closed spec fn wf(&self) -> bool {
        self.delay_line.wf() && self@.wf()
    }

    /// A silent path with the given delay, limited to the bounds of a
    /// path's delay, and the given polarity, over a line as long as the delay.
    pub fn with_draw(delay_time: usize, is_inverted: bool, feedback: S, filter: F, silence: S) -> (path:
        Self)
        ensures
            path.wf(),
            path@ == PathView::made(
                clamp_path_delay(delay_time),
                is_inverted,
                feedback,
                filter,
                silence,
            ),
    {
        let delay_time = if delay_time < MIN_PATH_DELAY as usize {
            MIN_PATH_DELAY as usize
        } else if delay_time >= MAX_PATH_DELAY as usize {
            (MAX_PATH_DELAY - 1) as usize
        } else {
            delay_time
        };
        ReverbPath {
            delay_line: DelayLine::new(InterpolationType::Nearest, delay_time, silence),
            svf: filter,
            delay_time,
            is_inverted,
            feedback,
        }
    }

    /// A silent path whose delay and polarity are drawn from `rng`: the path
    /// is the one that `with_draw` makes of the two draws.
    fn new(rng: &mut StdRng, feedback: S, filter: F, silence: S) -> (path: Self)
        ensures
            path.wf(),
            path@ == PathView::made(
                path@.delay_time,
                path@.is_inverted,
                feedback,
                filter,
                silence,
            ),
    {
        let delay_time = draw_in_range(rng, MIN_PATH_DELAY, MAX_PATH_DELAY) as usize;
        let is_inverted = draw_with_odds(rng, INVERSION_ODDS.0, INVERSION_ODDS.1);
        Self::with_draw(delay_time, is_inverted, feedback, filter, silence)
    }

    /// The path's delay in samples.
    pub fn delay_time(&self) -> (delay_time: usize)
        ensures
            delay_time == self@.delay_time,
    {
        self.delay_time
    }

    /// Whether the path inverts its signal.
    pub fn is_inverted(&self) -> (is_inverted: bool)
        ensures
            is_inverted == self@.is_inverted,
    {
        self.is_inverted
    }

    /// Processes one sample. `recirculate` makes the path's output, and the
    /// next state of its filter, of the input, the delayed signal, the
    /// feedback gain, the polarity and the filter's state; the output goes
    /// back into the line.
    pub fn process<R: Fn(S, S, S, bool, F) -> (S, F)>(&mut self, x: S, recirculate: R) -> (y: S)
        requires
            old(self).wf(),
            recirculate.requires(
                (
                    x,
                    old(self)@.delayed(),
                    old(self)@.gain,
                    old(self)@.is_inverted,
                    old(self)@.filter,
                ),
            ),
        ensures
            final(self).wf(),
            recirculate.ensures(
                (
                    x,
                    old(self)@.delayed(),
                    old(self)@.gain,
                    old(self)@.is_inverted,
                    old(self)@.filter,
                ),
                (y, final(self)@.filter),
            ),
            final(self)@ == old(self)@.fed(y, final(self)@.filter),
    {
        let delayed = self.delay_line.read(0).at_position();
        let (y, filter) = recirculate(x, delayed, self.feedback, self.is_inverted, self.svf);
        self.svf = filter;
        self.delay_line.write_and_increment(y);
        y
    }
}

/// The delay network of the reverberator.
pub struct Reverb<S, F> {
    allpasses: Vec<AllPass<S>>,
    paths: Vec<ReverbPath<S, F>>,
}

/// What the network is, apart from how it is stored.
pub struct ReverbView<S, F> {
    pub stages: Seq<AllPassView<S>>,
    pub paths: Seq<PathView<S, F>>,
}

impl<S, F> View for Reverb<S, F> {
    type V = ReverbView<S, F>;

    closed spec fn view(&self) -> ReverbView<S, F> {
        ReverbView {
            stages: Seq::new(self.allpasses@.len(), |k: int| self.allpasses@[k]@),
            paths: Seq::new(self.paths@.len(), |k: int| self.paths@[k]@),
        }
    }
}

/// Stage number `stage` of the chain has run: `crossed` is what `cross` made
/// of the stage's input, its delayed signal and its gain, and the second part
/// of it has gone into the stage's line. The input of the first stage is `x`,
/// that of every other stage the output of the stage before.
pub open spec fn stage_ran<S, C: Fn(S, S, S) -> (S, S)>(
    cross: C,
    x: S,
    before: Seq<AllPassView<S>>,
    crossed: Seq<(S, S)>,
    after: Seq<AllPassView<S>>,
    stage: int,
) -> bool {
    let input = if stage == 0 {
        x
    } else {
        crossed[stage - 1].0
    };
    &&& cross.ensures((input, before[stage].delayed(), before[stage].gain), crossed[stage])
    &&& after[stage] == before[stage].fed(crossed[stage].1)
}

/// Path number `path` of the bank has run: `outputs[path]` and the path's
/// next filter state are what `recirculate` made of the input, the path's
/// delayed signal, gain, polarity and filter state, and the output has gone
/// into the path's line.
pub open spec fn path_ran<S, F, R: Fn(S, S, S, bool, F) -> (S, F)>(
    recirculate: R,
    x: S,
    before: Seq<PathView<S, F>>,
    outputs: Seq<S>,
    after: Seq<PathView<S, F>>,
    path: int,
) -> bool {
    &&& recirculate.ensures(
        (
            x,
            before[path].delayed(),
            before[path].gain,
            before[path].is_inverted,
            before[path].filter,
        ),
        (outputs[path], after[path].filter),
    )
    &&& after[path] == before[path].fed(outputs[path], after[path].filter)
}

impl<S: Copy, F: Copy> Reverb<S, F> {
    /// The network has its eight stages and thirty-two paths, all well
    /// formed. Every network that this module hands out is.
    pub closed spec fn wf(&self) -> bool {
        &&& self.allpasses@.len() == ALLPASS_COUNT
        &&& self.paths@.len() == DELAY_COUNT
        &&& forall|k: int| 0 <= k < ALLPASS_COUNT ==> (#[trigger] self.allpasses@[k]).wf()
        &&& forall|k: int| 0 <= k < DELAY_COUNT ==> (#[trigger] self.paths@[k]).wf()
    }

    /// A silent network. The stages have their fixed delays and the gain
    /// `diffusion`; the delay and the polarity of every path are drawn from a
    /// generator seeded with `seed`, and every path has the gain `feedback`
    /// and the filter state `filter`.
    pub fn new(seed: u64, diffusion: S, feedback: S, filter: F, silence: S) -> (reverb: Self)
        ensures
            reverb.wf(),
            reverb@.stages.len() == ALLPASS_COUNT,
            reverb@.paths.len() == DELAY_COUNT,
            forall|k: int|
                0 <= k < ALLPASS_COUNT ==> #[trigger] reverb@.stages[k] == (AllPassView {
                    line: blank(allpass_length(k) as nat, silence),
                    gain: diffusion,
                }),
            forall|k: int|
                0 <= k < DELAY_COUNT ==> {
                    let path = #[trigger] reverb@.paths[k];
                    &&& path.wf()
                    &&& path == PathView::made(
                        path.delay_time,
                        path.is_inverted,
                        feedback,
                        filter,
                        silence,
                    )
                },
    {
        let mut rng = seeded(seed);
        let mut allpasses: Vec<AllPass<S>> = Vec::new();
        while allpasses.len() < ALLPASS_COUNT
            invariant
                allpasses@.len() <= ALLPASS_COUNT,
                forall|k: int|
                    0 <= k < allpasses@.len() ==> {
                        let stage = #[trigger] allpasses@[k];
                        &&& stage.wf()
                        &&& stage@ == (AllPassView {
                            line: blank(allpass_length(k) as nat, silence),
                            gain: diffusion,
                        })
                    },
            decreases ALLPASS_COUNT - allpasses@.len(),
        {
            let length = stage_length(allpasses.len());
            allpasses.push(AllPass::new(length, diffusion, silence));
        }
        let mut paths: Vec<ReverbPath<S, F>> = Vec::new();
        while paths.len() < DELAY_COUNT
            invariant
                paths@.len() <= DELAY_COUNT,
                forall|k: int|
                    0 <= k < paths@.len() ==> {
                        let path = #[trigger] paths@[k];
                        &&& path.wf()
                        &&& path@ == PathView::made(
                            path@.delay_time,
                            path@.is_inverted,
                            feedback,
                            filter,
                            silence,
                        )
                    },
            decreases DELAY_COUNT - paths@.len(),
        {
            paths.push(ReverbPath::new(&mut rng, feedback, filter, silence));
        }
        Reverb { allpasses, paths }
    }

    /// The delay of path number `path`, in samples, or nothing where there
    /// is no such path.
    pub fn path_delay(&self, path: usize) -> (delay: Option<usize>)
        requires
            self.wf(),
        ensures
            delay == if path < DELAY_COUNT {
                Some(self@.paths[path as int].delay_time)
            } else {
                None
            },
            delay matches Some(samples) ==> MIN_PATH_DELAY <= samples < MAX_PATH_DELAY,
    {
        if path < DELAY_COUNT {
            assert(self.paths@[path as int].wf());
            Some(self.paths[path].delay_time)
        } else {
            None
        }
    }

    /// Whether path number `path` inverts its signal, or nothing where there
    /// is no such path.
    pub fn path_inverted(&self, path: usize) -> (inverted: Option<bool>)
        requires
            self.wf(),
        ensures
            inverted == if path < DELAY_COUNT {
                Some(self@.paths[path as int].is_inverted)
            } else {
                None
            },
    {
        if path < DELAY_COUNT {
            Some(self.paths[path].is_inverted)
        } else {
            None
        }
    }

    /// Sends one sample through the diffusion chain, stage after stage, and
    /// returns what `cross` made at every stage: the stage's output, which is
    /// the next stage's input, and what went into the stage's line. The
    /// output of the last stage is the output of the chain.
    pub fn diffuse<C: Fn(S, S, S) -> (S, S)>(&mut self, x: S, cross: &C) -> (crossed: Vec<(S, S)>)
        requires
            old(self).wf(),
            forall|input: S, delayed: S, gain: S| cross.requires((input, delayed, gain)),
        ensures
            final(self).wf(),
            final(self)@.paths == old(self)@.paths,
            final(self)@.stages.len() == ALLPASS_COUNT,
            crossed@.len() == ALLPASS_COUNT,
            forall|stage: int|
                0 <= stage < ALLPASS_COUNT ==> #[trigger] stage_ran(
                    *cross,
                    x,
                    old(self)@.stages,
                    crossed@,
                    final(self)@.stages,
                    stage,
                ),
    {
        let ghost before = self@;
        let mut crossed: Vec<(S, S)> = Vec::new();
        let mut signal = x;
        let mut stage: usize = 0;
        while stage < ALLPASS_COUNT
            invariant
                0 <= stage <= ALLPASS_COUNT,
                self.wf(),
                forall|input: S, delayed: S, gain: S| cross.requires((input, delayed, gain)),
                self@.paths == before.paths,
                self@.stages.len() == ALLPASS_COUNT,
                before.stages.len() == ALLPASS_COUNT,
                crossed@.len() == stage,
                signal == if stage == 0 {
                    x
                } else {
                    crossed@[stage - 1].0
                },
                forall|k: int| stage <= k < ALLPASS_COUNT ==> self@.stages[k] == before.stages[k],
                forall|k: int|
                    0 <= k < stage ==> #[trigger] stage_ran(
                        *cross,
                        x,
                        before.stages,
                        crossed@,
                        self@.stages,
                        k,
                    ),
            decreases ALLPASS_COUNT - stage,
        {
            let ghost sofar = crossed@;
            let ghost stages = self@.stages;
            assert(self.allpasses@[stage as int].wf());
            assert(self@.stages[stage as int] == before.stages[stage as int]);
            let result = self.allpasses[stage].process(signal, cross);
            crossed.push(result);
            signal = result.0;
            proof {
                assert(self@.stages =~= stages.update(stage as int, self.allpasses@[stage as int]@));
                assert forall|k: int| 0 <= k <= stage implies #[trigger] stage_ran(
                    *cross,
                    x,
                    before.stages,
                    crossed@,
                    self@.stages,
                    k,
                ) by {
                    if k < stage {
                        assert(stage_ran(*cross, x, before.stages, sofar, stages, k));
                    }
                }
            }
            stage += 1;
        }
        crossed
    }

    /// Sends one sample into every path of the bank and returns the paths'
    /// outputs in the order of the paths.
    pub fn fan_out<R: Fn(S, S, S, bool, F) -> (S, F)>(&mut self, x: S, recirculate: &R) -> (outputs:
        Vec<S>)
        requires
            old(self).wf(),
            forall|input: S, delayed: S, gain: S, inverted: bool, filter: F|
                recirculate.requires((input, delayed, gain, inverted, filter)),
        ensures
            final(self).wf(),
            final(self)@.stages == old(self)@.stages,
            final(self)@.paths.len() == DELAY_COUNT,
            outputs@.len() == DELAY_COUNT,
            forall|path: int|
                0 <= path < DELAY_COUNT ==> #[trigger] path_ran(
                    *recirculate,
                    x,
                    old(self)@.paths,
                    outputs@,
                    final(self)@.paths,
                    path,
                ),
    {
        let ghost before = self@;
        let mut outputs: Vec<S> = Vec::new();
        let mut path: usize = 0;
        while path < DELAY_COUNT
            invariant
                0 <= path <= DELAY_COUNT,
                self.wf(),
                forall|input: S, delayed: S, gain: S, inverted: bool, filter: F|
                    recirculate.requires((input, delayed, gain, inverted, filter)),
                self@.stages == before.stages,
                self@.paths.len() == DELAY_COUNT,
                before.paths.len() == DELAY_COUNT,
                outputs@.len() == path,
                forall|k: int| path <= k < DELAY_COUNT ==> self@.paths[k] == before.paths[k],
                forall|k: int|
                    0 <= k < path ==> #[trigger] path_ran(
                        *recirculate,
                        x,
                        before.paths,
                        outputs@,
                        self@.paths,
                        k,
                    ),
            decreases DELAY_COUNT - path,
        {
            let ghost sofar = outputs@;
            let ghost paths = self@.paths;
            assert(self.paths@[path as int].wf());
            assert(self@.paths[path as int] == before.paths[path as int]);
            let y = self.paths[path].process(x, recirculate);
            outputs.push(y);
            proof {
                assert(self@.paths =~= paths.update(path as int, self.paths@[path as int]@));
                assert forall|k: int| 0 <= k <= path implies #[trigger] path_ran(
                    *recirculate,
                    x,
                    before.paths,
                    outputs@,
                    self@.paths,
                    k,
                ) by {
                    if k < path {
                        assert(path_ran(*recirculate, x, before.paths, sofar, paths, k));
                    }
                }
            }
            path += 1;
        }
        outputs
    }
}

} // verus!
