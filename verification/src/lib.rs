//! The integer core of a progressive Monte Carlo path tracer.
//!
//! Radiance is sampled in floating point by the caller. What decides and
//! counts is here: the accumulator that sums integer samples pass by pass and
//! resolves them into an RGBA8 image ([`Pathtracer`], [`accumulation`],
//! [`util`]), the gates that pick the behaviour of a surface ([`material`]),
//! the control of a path's length ([`integrator`]), the texels of an image
//! texture ([`texture`]), the shares of parallel workers ([`workload`]) and
//! the line of a position in a scene description ([`diagnostics`]).

use vstd::prelude::*;

pub mod accumulation;
pub mod diagnostics;
pub mod integrator;
pub mod material;
pub mod texture;
pub mod util;
pub mod workload;

use crate::accumulation::{
    frames, ints, lemma_pass_all_monotone, lemma_pass_all_shape, resolved, Accumulation,
};
use crate::util::colour_scale_sqrt;

verus! {

/// Resolves the accumulated sums `pixels` of `scale` passes into `canvas`.
pub fn draw_pixels_to_canvas(pixels: &[u32], canvas: &mut [u8], scale: u32)
    requires
        pixels.len() == old(canvas).len(),
        pixels.len() % 4 == 0,
        scale > 0,
    ensures
        final(canvas)@ == resolved(ints(pixels@), scale as int),
{
    let len: usize = pixels.len();
    let mut idx: usize = 0;
    while idx < len
        invariant
            len == pixels.len(),
            len == canvas.len(),
            len % 4 == 0,
            idx % 4 == 0,
            idx <= len,
            scale > 0,
            forall|j: int| 0 <= j < idx ==> canvas[j] == resolved(ints(pixels@), scale as int)[j],
        decreases len - idx,
    {
        let output_colour = colour_scale_sqrt(&pixels[idx..idx + 3], scale);
        canvas[idx] = output_colour[0];
        canvas[idx + 1] = output_colour[1];
        canvas[idx + 2] = output_colour[2];
        canvas[idx + 3] = 255;
        idx += 4;
    }
    assert(canvas@ =~= resolved(ints(pixels@), scale as int));
}

/// The accumulator of a progressive render: per-pixel running sums of
/// radiance samples over the passes made so far.
#[derive(Debug)]
pub struct Pathtracer {
    /// Width of the surface in pixels.
    pub canvas_width: u32,
    /// Height of the surface in pixels.
    pub canvas_height: u32,
    /// The bounce budget of every path that is sampled for this engine.
    pub max_bounces: u32,
    /// The running sums, row-major, four slots per pixel: red, green, blue
    /// and one that stays as it is.
    pub pixels: Vec<u32>,
    /// The number of passes summed in `pixels`.
    pub n_iterations: u32,
}

impl View for Pathtracer {
    type V = Accumulation;

    open spec fn view(&self) -> Accumulation {
        Accumulation {
            width: self.canvas_width as nat,
            height: self.canvas_height as nat,
            max_bounces: self.max_bounces as nat,
            sums: ints(self.pixels@),
            passes: self.n_iterations as nat,
        }
    }
}

impl Pathtracer {
    /// An engine for a surface of `width` by `height` pixels with nothing
    /// accumulated.
    pub fn new(width: u32, height: u32, max_bounces: u32) -> (engine: Self)
        requires
            4 * (width * height) <= usize::MAX,
        ensures
            engine@ == Accumulation::fresh(width as nat, height as nat, max_bounces as nat),
            engine@.wf(),
    {
        assert(width as u64 * height as u64 <= 0xffff_ffff * 0xffff_ffff) by (nonlinear_arith)
            requires
                width <= 0xffff_ffff,
                height <= 0xffff_ffff,
        ;
        let n_pixels: u64 = width as u64 * height as u64;
        let pixels: Vec<u32> = vec![0u32; 4 * (n_pixels as usize)];
        let engine = Pathtracer {
            canvas_width: width,
            canvas_height: height,
            max_bounces,
            pixels,
            n_iterations: 0,
        };
        assert(engine@.sums =~= Accumulation::fresh(
            width as nat,
            height as nat,
            max_bounces as nat,
        ).sums);
        engine
    }

    /// Zeroes the accumulator and the pass count. Needed whenever the camera,
    /// the resolution or the scene changes, so that old and new samples are
    /// never blended.
    pub fn reset(&mut self)
        ensures
            final(self)@ == old(self)@.reset(),
    {
        let len: usize = self.pixels.len();
        let mut i: usize = 0;
        while i < len
            invariant
                len == self.pixels.len(),
                i <= len,
                self.canvas_width == old(self).canvas_width,
                self.canvas_height == old(self).canvas_height,
                self.max_bounces == old(self).max_bounces,
                self.pixels.len() == old(self).pixels.len(),
                forall|j: int| 0 <= j < i ==> self.pixels[j] == 0,
            decreases len - i,
        {
            self.pixels[i] = 0;
            i += 1;
        }
        self.n_iterations = 0;
        assert(self@.sums =~= old(self)@.reset().sums);
    }

    /// Whether the accumulator has four slots for every pixel of its
    /// surface.
    pub fn is_well_formed(&self) -> (ok: bool)
        ensures
            ok == self@.wf(),
    {
        assert(self.canvas_width as u64 * self.canvas_height as u64 <= 0xffff_ffff * 0xffff_ffff)
            by (nonlinear_arith)
            requires
                self.canvas_width <= 0xffff_ffff,
                self.canvas_height <= 0xffff_ffff,
        ;
        let n_pixels: u64 = self.canvas_width as u64 * self.canvas_height as u64;
        let len: usize = self.pixels.len();
        len % 4 == 0 && (len / 4) as u64 == n_pixels
    }

    /// Whether a pass with `samples` can be made: the accumulator is well
    /// formed, there is one triple for every pixel, and every sum and the
    /// pass count stay within range.
    pub fn accepts(&self, samples: &[[u32; 3]]) -> (ok: bool)
        ensures
            ok == (self@.wf() && self@.takes(samples@) && self@.pass(samples@).representable()),
    {
        let n: usize = samples.len();
        if !self.is_well_formed() || self.pixels.len() / 4 != n || self.n_iterations == u32::MAX {
            return false;
        }
        let ghost after = self@.pass(samples@);
        let mut p: usize = 0;
        while p < n
            invariant
                self.pixels.len() == 4 * n,
                n == samples.len(),
                p <= n,
                after == self@.pass(samples@),
                forall|i: int| 0 <= i < 4 * p ==> 0 <= #[trigger] after.sums[i] <= u32::MAX,
            decreases n - p,
        {
            let idx: usize = 4 * p;
            let sample: [u32; 3] = samples[p];
            if sample[0] > u32::MAX - self.pixels[idx] || sample[1] > u32::MAX - self.pixels[idx
                + 1] || sample[2] > u32::MAX - self.pixels[idx + 2] {
                assert(after.sums[idx as int] == self.pixels[idx as int] + sample[0]);
                assert(after.sums[idx + 1] == self.pixels[idx + 1] + sample[1]);
                assert(after.sums[idx + 2] == self.pixels[idx + 2] + sample[2]);
                return false;
            }
            assert forall|i: int| 0 <= i < 4 * (p + 1) implies 0 <= #[trigger] after.sums[i]
                <= u32::MAX by {
                if i >= 4 * p {
                    assert(i / 4 == p as int);
                }
            }
            p += 1;
        }
        true
    }

    /// One sample pass: adds the triple of every pixel into the accumulator
    /// and counts the pass.
    pub fn render_single(&mut self, samples: &[[u32; 3]])
        requires
            old(self)@.wf(),
            old(self)@.takes(samples@),
            old(self)@.pass(samples@).representable(),
        ensures
            final(self)@ == old(self)@.pass(samples@),
    {
        let n: usize = samples.len();
        let ghost after = old(self)@.pass(samples@);
        let mut p: usize = 0;
        while p < n
            invariant
                n == samples.len(),
                self.pixels.len() == 4 * n,
                p <= n,
                self.canvas_width == old(self).canvas_width,
                self.canvas_height == old(self).canvas_height,
                self.max_bounces == old(self).max_bounces,
                self.n_iterations == old(self).n_iterations,
                self.pixels.len() == old(self).pixels.len(),
                after == old(self)@.pass(samples@),
                after.representable(),
                forall|i: int| 0 <= i < 4 * p ==> self.pixels[i] == after.sums[i],
                forall|i: int| 4 * p <= i < 4 * n ==> self.pixels[i] == old(self).pixels[i],
            decreases n - p,
        {
            let idx: usize = 4 * p;
            let sample: [u32; 3] = samples[p];
            assert(after.sums[idx as int] == self.pixels[idx as int] + sample[0]);
            assert(after.sums[idx + 1] == self.pixels[idx + 1] + sample[1]);
            assert(after.sums[idx + 2] == self.pixels[idx + 2] + sample[2]);
            assert(after.sums[idx + 3] == self.pixels[idx + 3]);
            self.pixels[idx] = self.pixels[idx] + sample[0];
            self.pixels[idx + 1] = self.pixels[idx + 1] + sample[1];
            self.pixels[idx + 2] = self.pixels[idx + 2] + sample[2];
            p += 1;
        }
        self.n_iterations += 1;
        assert(self@.sums =~= after.sums);
    }

    /// Resolves the accumulator into `canvas`. At least one pass must have
    /// been made.
    pub fn draw(&self, canvas: &mut [u8])
        requires
            self@.wf(),
            old(canvas).len() == self.pixels.len(),
            self.n_iterations > 0,
        ensures
            final(canvas)@ == self@.image(),
    {
        draw_pixels_to_canvas(self.pixels.as_slice(), canvas, self.n_iterations);
    }

    /// A whole render: resets the engine, makes one pass for every frame of
    /// `passes`, calling `progress_cb` after each, and resolves the result
    /// into `canvas`.
    pub fn render<F: Fn() -> ()>(
        &mut self,
        canvas: &mut [u8],
        passes: &[Vec<[u32; 3]>],
        progress_cb: F,
    )
        requires
            old(self)@.wf(),
            old(canvas).len() == old(self).pixels.len(),
            passes.len() > 0,
            old(self)@.takes_all(frames(passes@)),
            old(self)@.reset().pass_all(frames(passes@)).representable(),
            progress_cb.requires(()),
        ensures
            final(self)@ == old(self)@.reset().pass_all(frames(passes@)),
            final(canvas)@ == final(self)@.image(),
    {
        self.reset();
        let ghost start = self@;
        let ghost all = frames(passes@);
        let n: usize = passes.len();
        let mut k: usize = 0;
        while k < n
            invariant
                n == passes.len(),
                k <= n,
                all == frames(passes@),
                start == old(self)@.reset(),
                start.wf(),
                start.takes_all(all),
                start.pass_all(all).representable(),
                self@ == start.pass_all(all.take(k as int)),
                canvas.len() == old(canvas).len(),
                progress_cb.requires(()),
            decreases n - k,
        {
            proof {
                let done = all.take(k as int);
                let next = all.take(k + 1);
                assert(next.drop_last() =~= done);
                assert(next.last() == all[k as int]);
                lemma_pass_all_shape(start, done);
                lemma_pass_all_shape(start, next);
                lemma_pass_all_shape(start, all);
                lemma_pass_all_monotone(start, all, k + 1);
                assert(start.takes(all[k as int]));
                assert forall|i: int| 0 <= i < start.pass_all(next).sums.len() implies 0
                    <= #[trigger] start.pass_all(next).sums[i] <= u32::MAX by {
                    assert(start.pass_all(next).sums[i] <= start.pass_all(all).sums[i]);
                    assert(start.pass_all(done).sums[i] == self.pixels[i]);
                }
            }
            self.render_single(passes[k].as_slice());
            progress_cb();
            k += 1;
        }
        proof {
            assert(all.take(n as int) =~= all);
            lemma_pass_all_shape(start, all);
        }
        self.draw(canvas);
    }

    /// Whether the accumulator of `other` can be added into this one: both
    /// are well formed and of the same surface, and every sum and the pass
    /// count stay within range.
    pub fn can_merge(&self, other: &Pathtracer) -> (ok: bool)
        ensures
            ok == (self@.wf() && other@.wf() && self@.same_surface(other@) && self@.merge(
                other@,
            ).representable()),
    {
        if !self.is_well_formed() || !other.is_well_formed() || self.canvas_width
            != other.canvas_width || self.canvas_height != other.canvas_height
            || other.n_iterations > u32::MAX - self.n_iterations {
            return false;
        }
        let len: usize = self.pixels.len();
        let ghost merged = self@.merge(other@);
        let mut i: usize = 0;
        while i < len
            invariant
                len == self.pixels.len(),
                len == other.pixels.len(),
                i <= len,
                merged == self@.merge(other@),
                forall|j: int| 0 <= j < i ==> 0 <= #[trigger] merged.sums[j] <= u32::MAX,
            decreases len - i,
        {
            if other.pixels[i] > u32::MAX - self.pixels[i] {
                assert(merged.sums[i as int] == self.pixels[i as int] + other.pixels[i as int]);
                return false;
            }
            assert(merged.sums[i as int] == self.pixels[i as int] + other.pixels[i as int]);
            i += 1;
        }
        true
    }

    /// The join step of a parallel render: adds the accumulator and the pass
    /// count of `other` into this engine.
    pub fn merge(&mut self, other: &Pathtracer)
        requires
            old(self)@.wf(),
            other@.wf(),
            old(self)@.same_surface(other@),
            old(self)@.merge(other@).representable(),
        ensures
            final(self)@ == old(self)@.merge(other@),
    {
        let len: usize = self.pixels.len();
        let ghost merged = old(self)@.merge(other@);
        let mut i: usize = 0;
        while i < len
            invariant
                len == self.pixels.len(),
                len == other.pixels.len(),
                i <= len,
                self.canvas_width == old(self).canvas_width,
                self.canvas_height == old(self).canvas_height,
                self.max_bounces == old(self).max_bounces,
                self.n_iterations == old(self).n_iterations,
                self.pixels.len() == old(self).pixels.len(),
                merged == old(self)@.merge(other@),
                merged.representable(),
                forall|j: int| 0 <= j < i ==> self.pixels[j] == merged.sums[j],
                forall|j: int| i <= j < len ==> self.pixels[j] == old(self).pixels[j],
            decreases len - i,
        {
            assert(merged.sums[i as int] == self.pixels[i as int] + other.pixels[i as int]);
            self.pixels[i] = self.pixels[i] + other.pixels[i];
            i += 1;
        }
        self.n_iterations = self.n_iterations + other.n_iterations;
        assert(self@.sums =~= merged.sums);
    }
}

} // verus!
