//! The mathematical model of the accumulator: what the engine's operations
//! do to the running sums, and the laws that follow.

use vstd::prelude::*;

use crate::util::{lemma_tone_curve_range, tone_curve};

verus! {

/// The values of a buffer of sums as mathematical integers.
pub open spec fn ints(sums: Seq<u32>) -> Seq<int> {
    Seq::new(sums.len(), |i: int| sums[i] as int)
}

/// The RGBA8 image of accumulated sums: every colour channel is its sum
/// divided by `scale` and mapped through the tone curve, every fourth byte is
/// an opaque alpha.
pub open spec fn resolved(sums: Seq<int>, scale: int) -> Seq<u8> {
    Seq::new(
        sums.len(),
        |i: int|
            if i % 4 == 3 {
                255u8
            } else {
                tone_curve(sums[i] / scale) as u8
            },
    )
}

/// The frames of a list of passes.
pub open spec fn frames(passes: Seq<Vec<[u32; 3]>>) -> Seq<Seq<[u32; 3]>> {
    Seq::new(passes.len(), |k: int| passes[k]@)
}

/// What a frame adds to slot `i` in one pass: channel `i % 4` of the triple
/// of pixel `i / 4`, and nothing to the fourth slot of a pixel.
pub open spec fn contribution(frame: Seq<[u32; 3]>, i: int) -> int {
    if i % 4 == 3 {
        0
    } else {
        frame[i / 4][i % 4] as int
    }
}

/// What an engine stands for: the dimensions of its surface, the
/// running sum of every channel and the number of passes summed so far.
///
/// The sums are laid out row-major with four slots per pixel: red, green,
/// blue, and a fourth slot that no pass touches.
pub struct Accumulation {
    pub width: nat,
    pub height: nat,
    pub max_bounces: nat,
    pub sums: Seq<int>,
    pub passes: nat,
}

impl Accumulation {
    /// There are four slots for every pixel of the surface.
    pub open spec fn wf(self) -> bool {
        self.sums.len() == 4 * (self.width * self.height)
    }

    /// The accumulation of a newly made engine: nothing summed yet.
    pub open spec fn fresh(width: nat, height: nat, max_bounces: nat) -> Accumulation {
        Accumulation {
            width,
            height,
            max_bounces,
            sums: Seq::new(4 * (width * height), |i: int| 0int),
            passes: 0,
        }
    }

    /// Forgets every pass: all sums and the pass count return to zero.
    pub open spec fn reset(self) -> Accumulation {
        Accumulation { sums: Seq::new(self.sums.len(), |i: int| 0int), passes: 0, ..self }
    }

    /// `samples` holds one RGB triple for every pixel of the surface.
    pub open spec fn takes(self, samples: Seq<[u32; 3]>) -> bool {
        samples.len() == self.width * self.height
    }

    /// One more pass: the triple of pixel `p` is added to the three colour
    /// slots of pixel `p`.
    pub open spec fn pass(self, samples: Seq<[u32; 3]>) -> Accumulation {
        Accumulation {
            sums: Seq::new(self.sums.len(), |i: int| self.sums[i] + contribution(samples, i)),
            passes: self.passes + 1,
            ..self
        }
    }

    /// The accumulation after the passes of `frames`, one after the other.
    pub open spec fn pass_all(self, frames: Seq<Seq<[u32; 3]>>) -> Accumulation
        decreases frames.len(),
    {
        if frames.len() == 0 {
            self
        } else {
            self.pass_all(frames.drop_last()).pass(frames.last())
        }
    }

    /// Every frame holds one RGB triple for every pixel of the surface.
    pub open spec fn takes_all(self, frames: Seq<Seq<[u32; 3]>>) -> bool {
        forall|k: int| 0 <= k < frames.len() ==> self.takes(#[trigger] frames[k])
    }

    /// Both accumulations are of surfaces of the same size.
    pub open spec fn same_surface(self, other: Accumulation) -> bool {
        self.width == other.width && self.height == other.height
    }

    /// The slot-wise sum of two accumulations of the same surface, counting
    /// the passes of both.
    pub open spec fn merge(self, other: Accumulation) -> Accumulation {
        Accumulation {
            sums: Seq::new(self.sums.len(), |i: int| self.sums[i] + other.sums[i]),
            passes: self.passes + other.passes,
            ..self
        }
    }

    /// Every sum and the pass count fit the machine words that hold them.
    pub open spec fn representable(self) -> bool {
        &&& self.passes <= u32::MAX
        &&& forall|i: int| 0 <= i < self.sums.len() ==> 0 <= #[trigger] self.sums[i] <= u32::MAX
    }

    /// The image that the accumulation resolves to.
    pub open spec fn image(self) -> Seq<u8> {
        resolved(self.sums, self.passes as int)
    }
}

/// Passes change neither the surface nor the number of slots, and each one
/// is counted.
pub proof fn lemma_pass_all_shape(start: Accumulation, frames: Seq<Seq<[u32; 3]>>)
    ensures
        start.pass_all(frames).width == start.width,
        start.pass_all(frames).height == start.height,
        start.pass_all(frames).max_bounces == start.max_bounces,
        start.pass_all(frames).sums.len() == start.sums.len(),
        start.pass_all(frames).passes == start.passes + frames.len(),
        start.wf() ==> start.pass_all(frames).wf(),
    decreases frames.len(),
{
    if frames.len() > 0 {
        lemma_pass_all_shape(start, frames.drop_last());
    }
}

/// Between resets the sums only grow: after the first `k` of a list of
/// passes no slot holds more than after all of them.
pub proof fn lemma_pass_all_monotone(start: Accumulation, frames: Seq<Seq<[u32; 3]>>, k: int)
    requires
        0 <= k <= frames.len(),
    ensures
        forall|i: int|
            0 <= i < start.sums.len() ==> start.pass_all(frames.take(k)).sums[i]
                <= #[trigger] start.pass_all(frames).sums[i],
    decreases frames.len(),
{
    if k == frames.len() {
        assert(frames.take(k) =~= frames);
    } else {
        let shorter = frames.drop_last();
        lemma_pass_all_monotone(start, shorter, k);
        lemma_pass_all_shape(start, shorter);
        assert(shorter.take(k) =~= frames.take(k));
        assert forall|i: int| 0 <= i < start.sums.len() implies start.pass_all(
            frames.take(k),
        ).sums[i] <= #[trigger] start.pass_all(frames).sums[i] by {
            assert(start.pass_all(shorter).sums[i] <= start.pass_all(frames).sums[i]);
        }
    }
}

/// A reset engine is indistinguishable from a new one: it holds the
/// accumulation of a fresh engine of the same surface, so a pass after a
/// reset leaves exactly what the first pass of a new engine leaves.
pub proof fn lemma_reset_restores_fresh(state: Accumulation, samples: Seq<[u32; 3]>)
    requires
        state.wf(),
    ensures
        state.reset() == Accumulation::fresh(state.width, state.height, state.max_bounces),
        state.reset().pass(samples) == Accumulation::fresh(
            state.width,
            state.height,
            state.max_bounces,
        ).pass(samples),
{
    assert(state.reset().sums =~= Accumulation::fresh(
        state.width,
        state.height,
        state.max_bounces,
    ).sums);
}

/// Splitting the passes of a render between two engines and merging them
/// gives the accumulation of one engine that made all the passes itself.
pub proof fn lemma_merge_of_split_passes(
    width: nat,
    height: nat,
    max_bounces: nat,
    first: Seq<Seq<[u32; 3]>>,
    second: Seq<Seq<[u32; 3]>>,
)
    ensures
        Accumulation::fresh(width, height, max_bounces).pass_all(first).merge(
            Accumulation::fresh(width, height, max_bounces).pass_all(second),
        ) == Accumulation::fresh(width, height, max_bounces).pass_all(first + second),
    decreases second.len(),
{
    let fresh = Accumulation::fresh(width, height, max_bounces);
    let left = fresh.pass_all(first);
    lemma_pass_all_shape(fresh, first);
    if second.len() == 0 {
        assert(first + second =~= first);
        assert(left.merge(fresh).sums =~= left.sums);
    } else {
        let shorter = second.drop_last();
        lemma_merge_of_split_passes(width, height, max_bounces, first, shorter);
        lemma_pass_all_shape(fresh, shorter);
        assert((first + second).drop_last() =~= first + shorter);
        assert((first + second).last() == second.last());
        let right = fresh.pass_all(shorter);
        assert(left.merge(right.pass(second.last())).sums =~= left.merge(right).pass(
            second.last(),
        ).sums);
    }
}

/// A pixel that has received no light resolves to opaque black, whatever
/// the number of passes.
pub proof fn lemma_unlit_pixel_is_opaque_black(state: Accumulation, pixel: int)
    requires
        state.passes > 0,
        0 <= pixel,
        4 * pixel + 3 < state.sums.len(),
        state.sums[4 * pixel] == 0,
        state.sums[4 * pixel + 1] == 0,
        state.sums[4 * pixel + 2] == 0,
    ensures
        state.image()[4 * pixel] == 0,
        state.image()[4 * pixel + 1] == 0,
        state.image()[4 * pixel + 2] == 0,
        state.image()[4 * pixel + 3] == 255,
{
    assert(0int / (state.passes as int) == 0) by (nonlinear_arith)
        requires
            state.passes > 0,
    ;
    lemma_tone_curve_range(0);
}

/// The same frame, `count` times over.
pub open spec fn repeated(frame: Seq<[u32; 3]>, count: nat) -> Seq<Seq<[u32; 3]>> {
    Seq::new(count, |k: int| frame)
}

/// After `count` passes with the same frame every slot holds `count` times
/// what one pass adds to it.
proof fn lemma_repeated_sums(
    width: nat,
    height: nat,
    max_bounces: nat,
    frame: Seq<[u32; 3]>,
    count: nat,
)
    ensures
        Accumulation::fresh(width, height, max_bounces).pass_all(repeated(frame, count)).sums.len()
            == 4 * (width * height),
        Accumulation::fresh(width, height, max_bounces).pass_all(repeated(frame, count)).passes
            == count,
        forall|i: int|
            0 <= i < 4 * (width * height) ==> #[trigger] Accumulation::fresh(
                width,
                height,
                max_bounces,
            ).pass_all(repeated(frame, count)).sums[i] == count * contribution(frame, i),
    decreases count,
{
    let fresh = Accumulation::fresh(width, height, max_bounces);
    lemma_pass_all_shape(fresh, repeated(frame, count));
    if count > 0 {
        let fewer = (count - 1) as nat;
        lemma_repeated_sums(width, height, max_bounces, frame, fewer);
        assert(repeated(frame, count).drop_last() =~= repeated(frame, fewer));
        assert(repeated(frame, count).last() == frame);
        assert forall|i: int| 0 <= i < 4 * (width * height) implies #[trigger] fresh.pass_all(
            repeated(frame, count),
        ).sums[i] == count * contribution(frame, i) by {
            let c = contribution(frame, i);
            assert(fresh.pass_all(repeated(frame, fewer)).sums[i] == fewer * c);
            assert(fewer * c + c == count * c) by (nonlinear_arith)
                requires
                    count == fewer + 1,
            ;
        }
    }
}

/// With steady light the image does not depend on the number of passes:
/// any number of passes with the same frame resolve to the image of one.
pub proof fn lemma_steady_samples_resolve_as_one(
    width: nat,
    height: nat,
    max_bounces: nat,
    frame: Seq<[u32; 3]>,
    count: nat,
)
    requires
        count >= 1,
    ensures
        Accumulation::fresh(width, height, max_bounces).pass_all(repeated(frame, count)).image()
            == Accumulation::fresh(width, height, max_bounces).pass(frame).image(),
{
    let fresh = Accumulation::fresh(width, height, max_bounces);
    let many = fresh.pass_all(repeated(frame, count));
    let one = fresh.pass(frame);
    lemma_repeated_sums(width, height, max_bounces, frame, count);
    assert forall|i: int| 0 <= i < many.sums.len() implies many.image()[i] == one.image()[i] by {
        let c = contribution(frame, i);
        assert(many.sums[i] == count * c);
        assert(one.sums[i] == c);
        assert((count * c) / (count as int) == c) by (nonlinear_arith)
            requires
                count >= 1,
        ;
        assert(c / 1 == c);
    }
    assert(many.image() =~= one.image());
}

} // verus!
