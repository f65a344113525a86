//! The frame-differencing engine: folds the frame sequence into a running
//! canvas estimate, then derives per-frame delta frames (pixels that must be
//! redrawn) and per-frame correction lists (stable pixels safe to resend as
//! idle filler).

use vstd::prelude::*;
use vstd::pervasive::VecAdditionalExecFns;
use crate::frame::{Frame, FrameModel, combine_model, lemma_combine_box};
use crate::pixel::{Pixel, similarity_spec};

verus! {

/// Output of the optimizer: the full start frame sent once to seed the
/// canvas, one delta frame per source frame, and one correction list per
/// source frame. Entry `idx` of both sequences pertains to display step
/// `idx` of the loop; index 0 holds the values recomputed by the final
/// wrap-around pass.
pub struct OptimizedImage {
    pub start: Frame,
    pub frames: Vec<Frame>,
    pub corrections: Vec<Vec<(u32, u32, (u8, u8, u8))>>,
}

/// The models of a sequence of frames.
pub open spec fn frame_views(s: Seq<Frame>) -> Seq<FrameModel> {
    s.map_values(|f: Frame| f@)
}

/// Every frame of the sequence is well formed.
pub open spec fn all_wf(s: Seq<FrameModel>) -> bool {
    forall|i: int| 0 <= i < s.len() ==> s[i].wf()
}

/// The canvas so far after folding the first `k` frames left to right.
pub open spec fn fold_prefix(s: Seq<FrameModel>, t: u32, k: int) -> FrameModel
    decreases k,
{
    if k <= 1 {
        s[0]
    } else {
        combine_model(fold_prefix(s, t, k - 1), s[k - 1], t)
    }
}

/// The optimizer's first canvas estimate: all frames folded once, then one
/// extra wrap-around fold of frame 0, so that pixels that only ever appear
/// transiently are still captured.
pub open spec fn initial_canvas(s: Seq<FrameModel>, t: u32) -> FrameModel {
    combine_model(fold_prefix(s, t, s.len() as int), s[0], t)
}

/// The source index processed at step `j` of the optimizer's second walk:
/// `1, 2, ..., n-1, 0` — frame 0 is revisited last.
pub open spec fn walk_index(n: int, j: int) -> int {
    if j + 1 < n {
        j + 1
    } else {
        0
    }
}

/// The running canvas estimate at the start of walk step `j`.
pub open spec fn walk_canvas(s: Seq<FrameModel>, t: u32, j: int) -> FrameModel
    decreases j,
{
    if j <= 0 {
        initial_canvas(s, t)
    } else {
        combine_model(walk_canvas(s, t, j - 1), s[walk_index(s.len() as int, j - 1)], t)
    }
}

/// The walk step at which source index `idx` is processed.
pub open spec fn walk_step_of(n: int, idx: int) -> int {
    if idx == 0 {
        n - 1
    } else {
        idx - 1
    }
}

/// Pixel `i` of the delta frame of `cmp` against canvas `inter`: `Empty`
/// where the canvas pixel is within the similarity threshold of `cmp`'s
/// pixel (already correct on canvas, or near-duplicate noise), else `cmp`'s
/// pixel, which must be redrawn.
pub open spec fn delta_pixel(inter: FrameModel, cmp: FrameModel, t: u32, i: int) -> Pixel {
    if similarity_spec(inter.pixel_at(cmp.off_x + i % cmp.w, cmp.off_y + i / cmp.w), cmp.image[i])
        <= t {
        Pixel::Empty
    } else {
        cmp.image[i]
    }
}

/// The delta frame of `cmp` against canvas `inter`: same box and delay as
/// `cmp`, every pixel filtered by [`delta_pixel`].
pub open spec fn delta_model(inter: FrameModel, cmp: FrameModel, t: u32) -> FrameModel {
    FrameModel {
        image: Seq::new(cmp.image.len(), |i: int| delta_pixel(inter, cmp, t, i)),
        off_x: cmp.off_x,
        off_y: cmp.off_y,
        w: cmp.w,
        h: cmp.h,
        delay: cmp.delay,
    }
}

/// Whether canvas pixel `i` of `inter` is recorded as a correction for the
/// display step of `cmp`: it must be a real pixel, and either lie outside
/// `cmp`'s box or be confirmed stable — within the similarity threshold of
/// `cmp`'s pixel there. Positions whose value differs beyond the threshold
/// are excluded: the delta already covers them.
pub open spec fn correction_keep(inter: FrameModel, cmp: FrameModel, t: u32, i: int) -> bool {
    let x = inter.off_x + i % inter.w;
    let y = inter.off_y + i / inter.w;
    inter.image[i] is Rgb && (!cmp.in_box(x, y) || similarity_spec(cmp.pixel_at(x, y), inter.image[i]) <= t)
}

/// The correction record of canvas pixel `i`: absolute coordinates and color.
pub open spec fn correction_entry(inter: FrameModel, i: int) -> (u32, u32, (u8, u8, u8)) {
    (
        (inter.off_x + i % inter.w) as u32,
        (inter.off_y + i / inter.w) as u32,
        match inter.image[i] {
            Pixel::Rgb(r, g, b) => (r, g, b),
            Pixel::Empty => (0u8, 0u8, 0u8),
        },
    )
}

/// The correction list drawn from the first `k` canvas pixels of `inter`
/// for the display step of `cmp`, in row-major canvas order.
pub open spec fn corrections_model(inter: FrameModel, cmp: FrameModel, t: u32, k: int) -> Seq<
    (u32, u32, (u8, u8, u8)),
>
    decreases k,
{
    if k <= 0 {
        Seq::empty()
    } else if correction_keep(inter, cmp, t, k - 1) {
        corrections_model(inter, cmp, t, k - 1).push(correction_entry(inter, k - 1))
    } else {
        corrections_model(inter, cmp, t, k - 1)
    }
}

/// The delta frame the optimizer produces for display step `idx`: the
/// source frame compared against the canvas estimate current when the walk
/// reaches it.
pub open spec fn step_delta(s: Seq<FrameModel>, t: u32, idx: int) -> FrameModel {
    delta_model(walk_canvas(s, t, walk_step_of(s.len() as int, idx)), s[idx], t)
}

/// The correction list the optimizer produces for display step `idx`.
pub open spec fn step_corrections(s: Seq<FrameModel>, t: u32, idx: int) -> Seq<
    (u32, u32, (u8, u8, u8)),
> {
    corrections_model(
        walk_canvas(s, t, walk_step_of(s.len() as int, idx)),
        s[idx],
        t,
        walk_canvas(s, t, walk_step_of(s.len() as int, idx)).image.len() as int,
    )
}

/// Every frame's box, shifted by the extra canvas offset, fits the `u32`
/// coordinate range.
pub open spec fn frames_fit(s: Seq<FrameModel>, ox: int, oy: int) -> bool {
    forall|i: int|
        0 <= i < s.len() ==> (#[trigger] s[i]).off_x + s[i].w + ox <= u32::MAX && s[i].off_y
            + s[i].h + oy <= u32::MAX
}

/// One frame's box, shifted by the extra canvas offset, fits the `u32`
/// coordinate range.
pub open spec fn frame_fits(m: FrameModel, ox: int, oy: int) -> bool {
    m.off_x + m.w + ox <= u32::MAX && m.off_y + m.h + oy <= u32::MAX
}

/// The folded prefix's box never extends past the frames' own boxes.
proof fn lemma_fold_prefix_fit(s: Seq<FrameModel>, t: u32, k: int, ox: int, oy: int)
    requires
        all_wf(s),
        frames_fit(s, ox, oy),
        1 <= k <= s.len(),
    ensures
        frame_fits(fold_prefix(s, t, k), ox, oy),
    decreases k,
{
    if k > 1 {
        lemma_fold_prefix_fit(s, t, k - 1, ox, oy);
    }
}

/// No walk-step canvas extends past the frames' own boxes.
pub proof fn lemma_walk_canvas_fit(s: Seq<FrameModel>, t: u32, j: int, ox: int, oy: int)
    requires
        all_wf(s),
        frames_fit(s, ox, oy),
        s.len() >= 1,
        0 <= j,
    ensures
        frame_fits(walk_canvas(s, t, j), ox, oy),
    decreases j,
{
    if j == 0 {
        lemma_fold_prefix_fit(s, t, s.len() as int, ox, oy);
    } else {
        lemma_walk_canvas_fit(s, t, j - 1, ox, oy);
    }
}

/// Every entry of a correction list drawn from a canvas whose shifted box
/// fits the coordinate range itself fits that range.
pub proof fn lemma_corrections_fit(
    inter: FrameModel,
    cmp: FrameModel,
    t: u32,
    k: int,
    ox: int,
    oy: int,
)
    requires
        inter.wf(),
        frame_fits(inter, ox, oy),
        0 <= ox,
        0 <= oy,
        k <= inter.image.len(),
    ensures
        forall|i: int|
            0 <= i < corrections_model(inter, cmp, t, k).len() ==> (#[trigger] corrections_model(
                inter,
                cmp,
                t,
                k,
            )[i]).0 + ox <= u32::MAX && corrections_model(inter, cmp, t, k)[i].1 + oy <= u32::MAX,
    decreases k,
{
    if k > 0 {
        lemma_corrections_fit(inter, cmp, t, k - 1, ox, oy);
        let prev = corrections_model(inter, cmp, t, k - 1);
        let cur = corrections_model(inter, cmp, t, k);
        if correction_keep(inter, cmp, t, k - 1) {
            assert(inter.w > 0 && inter.h > 0) by {
                if inter.w == 0 {
                    assert(inter.w * inter.h == 0);
                }
                if inter.h == 0 {
                    assert(inter.w * inter.h == 0) by (nonlinear_arith)
                        requires
                            inter.h == 0,
                    ;
                }
            }
            vstd::arithmetic::div_mod::lemma_mod_bound(k - 1, inter.w);
            assert(0 <= (k - 1) / inter.w && (k - 1) / inter.w < inter.h) by (nonlinear_arith)
                requires
                    0 <= k - 1 < inter.w * inter.h,
                    inter.w > 0,
                    inter.h > 0,
            ;
            let e = correction_entry(inter, k - 1);
            assert(e.0 + ox <= u32::MAX && e.1 + oy <= u32::MAX);
            assert forall|i: int|
                0 <= i < cur.len() implies (#[trigger] cur[i]).0 + ox <= u32::MAX && cur[i].1 + oy
                <= u32::MAX by {
                if i < prev.len() {
                    assert(cur[i] == prev[i]);
                } else {
                    assert(cur[i] == e);
                }
            }
        } else {
            assert(cur == prev);
        }
    }
}

/// A well-formed frame's pixel count fits in `usize` on hosts whose address
/// space covers the square of the `u32` canvas range.
proof fn lemma_area_bound(c: FrameModel)
    requires
        c.wf(),
        u32::MAX * u32::MAX <= usize::MAX,
    ensures
        c.image.len() <= usize::MAX,
{
    assert(c.w * c.h <= u32::MAX * u32::MAX) by (nonlinear_arith)
        requires
            0 <= c.w <= u32::MAX,
            0 <= c.h <= u32::MAX,
    ;
}

/// The folded prefix is well formed and its box contains the box of every
/// frame folded into it.
proof fn lemma_fold_prefix_contains(s: Seq<FrameModel>, t: u32, k: int)
    requires
        all_wf(s),
        1 <= k <= s.len(),
    ensures
        fold_prefix(s, t, k).wf(),
        forall|m: int| 0 <= m < k ==> fold_prefix(s, t, k).contains_box(s[m]),
    decreases k,
{
    if k == 1 {
    } else {
        lemma_fold_prefix_contains(s, t, k - 1);
        lemma_combine_box(fold_prefix(s, t, k - 1), s[k - 1], t);
    }
}

/// Every walk-step canvas is well formed and contains every source frame's
/// box.
pub proof fn lemma_walk_canvas_contains(s: Seq<FrameModel>, t: u32, j: int)
    requires
        all_wf(s),
        s.len() >= 1,
        0 <= j,
    ensures
        walk_canvas(s, t, j).wf(),
        forall|m: int| 0 <= m < s.len() ==> walk_canvas(s, t, j).contains_box(s[m]),
    decreases j,
{
    if j == 0 {
        lemma_fold_prefix_contains(s, t, s.len() as int);
        lemma_combine_box(fold_prefix(s, t, s.len() as int), s[0], t);
    } else {
        lemma_walk_canvas_contains(s, t, j - 1);
        lemma_combine_box(walk_canvas(s, t, j - 1), s[walk_index(s.len() as int, j - 1)], t);
    }
}

/// Computes the delta frame of `cmp` against the canvas estimate `inter`
/// under the similarity threshold `t`.
fn compute_delta(inter: &Frame, cmp: &Frame, t: u32) -> (r: Frame)
    requires
        inter@.wf(),
        cmp@.wf(),
    ensures
        r@ == delta_model(inter@, cmp@, t),
        r@.wf(),
{
    let n = cmp.image.len();
    let mut image: Vec<Pixel> = Vec::with_capacity(n);
    let mut i: usize = 0;
    while i < n
        invariant
            inter@.wf(),
            cmp@.wf(),
            n == cmp@.image.len(),
            i <= n,
            image@.len() == i,
            forall|j: int| 0 <= j < i ==> image@[j] == delta_pixel(inter@, cmp@, t, j),
        decreases n - i,
    {
        let w = cmp.size.0;
        assert(w > 0) by {
            if cmp@.w == 0 {
                assert(cmp@.w * cmp@.h == 0);
            }
        }
        let lx = i % (w as usize);
        let ly = i / (w as usize);
        proof {
            vstd::arithmetic::div_mod::lemma_fundamental_div_mod(i as int, w as int);
        }
        assert(ly < cmp@.h) by (nonlinear_arith)
            requires
                i < cmp@.image.len(),
                cmp@.image.len() == cmp@.w * cmp@.h,
                i as int == cmp@.w * (ly as int) + (lx as int),
                0 <= lx < cmp@.w,
                0 <= ly,
        ;
        let x = cmp.offset.0 + (lx as u32);
        let y = cmp.offset.1 + (ly as u32);
        let ip = inter.pixel_at_abs(x, y);
        let cp = cmp.image[i];
        if ip.similarity(cp) <= t {
            image.push(Pixel::Empty);
        } else {
            image.push(cp);
        }
        i += 1;
    }
    let r = Frame {
        image,
        offset: (cmp.offset.0, cmp.offset.1),
        size: (cmp.size.0, cmp.size.1),
        delay: cmp.delay,
    };
    assert(r@.image =~= delta_model(inter@, cmp@, t).image);
    assert(r@ == delta_model(inter@, cmp@, t));
    r
}

/// Collects the correction list of canvas `inter` for the display step of
/// `cmp`: every real canvas pixel outside `cmp`'s box, or inside it but
/// confirmed unchanged, as `(x, y, rgb)` in absolute coordinates.
fn compute_corrections(inter: &Frame, cmp: &Frame, t: u32) -> (r: Vec<(u32, u32, (u8, u8, u8))>)
    requires
        inter@.wf(),
        cmp@.wf(),
    ensures
        r@ == corrections_model(inter@, cmp@, t, inter@.image.len() as int),
{
    let n = inter.image.len();
    let mut out: Vec<(u32, u32, (u8, u8, u8))> = Vec::new();
    let mut i: usize = 0;
    while i < n
        invariant
            inter@.wf(),
            cmp@.wf(),
            n == inter@.image.len(),
            i <= n,
            out@ == corrections_model(inter@, cmp@, t, i as int),
        decreases n - i,
    {
        let w = inter.size.0;
        assert(w > 0) by {
            if inter@.w == 0 {
                assert(inter@.w * inter@.h == 0);
            }
        }
        let lx = i % (w as usize);
        let ly = i / (w as usize);
        proof {
            vstd::arithmetic::div_mod::lemma_fundamental_div_mod(i as int, w as int);
        }
        assert(ly < inter@.h) by (nonlinear_arith)
            requires
                i < inter@.image.len(),
                inter@.image.len() == inter@.w * inter@.h,
                i as int == inter@.w * (ly as int) + (lx as int),
                0 <= lx < inter@.w,
                0 <= ly,
        ;
        let x = inter.offset.0 + (lx as u32);
        let y = inter.offset.1 + (ly as u32);
        match inter.image[i] {
            Pixel::Empty => {
                assert(!correction_keep(inter@, cmp@, t, i as int));
            },
            Pixel::Rgb(pr, pg, pb) => {
                let inside = cmp.offset.0 <= x && x - cmp.offset.0 < cmp.size.0 && cmp.offset.1
                    <= y && y - cmp.offset.1 < cmp.size.1;
                assert(inside == cmp@.in_box(x as int, y as int));
                if !inside {
                    out.push((x, y, (pr, pg, pb)));
                    assert(correction_keep(inter@, cmp@, t, i as int));
                } else {
                    let cp = cmp.pixel_at_abs(x, y);
                    if cp.similarity(Pixel::Rgb(pr, pg, pb)) <= t {
                        out.push((x, y, (pr, pg, pb)));
                        assert(correction_keep(inter@, cmp@, t, i as int));
                    } else {
                        assert(!correction_keep(inter@, cmp@, t, i as int));
                    }
                }
            },
        }
        i += 1;
    }
    out
}

/// Removes unchanged pixels from the frame sequence.
///
/// Folds all frames (plus one wrap-around fold of frame 0) into a running
/// canvas estimate, then walks the sequence in source order `1, ..., n-1, 0`
/// producing one delta frame and one correction list per source frame, each
/// stored at its source index; slot 0 is overwritten by the final
/// wrap-around step. The `u32::MAX * u32::MAX` bound is a machine limit: the
/// merged canvases must stay addressable in memory.
#[verifier::rlimit(100)]
pub fn optimize_image(frames: Vec<Frame>, similarity: u32) -> (r: OptimizedImage)
    requires
        frames@.len() >= 1,
        all_wf(frame_views(frames@)),
        u32::MAX * u32::MAX <= usize::MAX,
    ensures
        r.start@ == frame_views(frames@)[0],
        r.frames@.len() == frames@.len(),
        r.corrections@.len() == frames@.len(),
        forall|idx: int|
            0 <= idx < frames@.len() ==> #[trigger] r.frames@[idx]@ == step_delta(
                frame_views(frames@),
                similarity,
                idx,
            ),
        forall|idx: int|
            0 <= idx < frames@.len() ==> #[trigger] r.corrections@[idx]@ == step_corrections(
                frame_views(frames@),
                similarity,
                idx,
            ),
        forall|idx: int| 0 <= idx < frames@.len() ==> (#[trigger] r.frames@[idx]@).wf(),
{
    let ghost s = frame_views(frames@);
    let n = frames.len();
    let start = frames[0].clone();
    let mut intermediate = frames[0].clone();
    assert(intermediate@ == fold_prefix(s, similarity, 1));

    let mut i: usize = 1;
    while i < n
        invariant
            1 <= i <= n,
            n == frames@.len(),
            s == frame_views(frames@),
            all_wf(s),
            u32::MAX * u32::MAX <= usize::MAX,
            intermediate@ == fold_prefix(s, similarity, i as int),
            intermediate@.wf(),
        decreases n - i,
    {
        proof {
            lemma_combine_box(intermediate@, s[i as int], similarity);
            lemma_area_bound(combine_model(intermediate@, s[i as int], similarity));
        }
        intermediate = intermediate.combine(&frames[i], similarity);
        i += 1;
    }
    proof {
        lemma_combine_box(intermediate@, s[0], similarity);
        lemma_area_bound(combine_model(intermediate@, s[0], similarity));
    }
    intermediate = intermediate.combine(&frames[0], similarity);
    assert(intermediate@ == walk_canvas(s, similarity, 0));

    let mut out_frames: Vec<Frame> = Vec::with_capacity(n);
    out_frames.push(frames[0].clone());
    let mut corrections: Vec<Vec<(u32, u32, (u8, u8, u8))>> = Vec::with_capacity(n);
    let mut ci: usize = 0;
    while ci < n
        invariant
            ci <= n,
            corrections@.len() == ci,
        decreases n - ci,
    {
        corrections.push(Vec::new());
        ci += 1;
    }

    let mut j: usize = 0;
    while j < n
        invariant
            0 <= j <= n,
            1 <= n == frames@.len(),
            s == frame_views(frames@),
            all_wf(s),
            u32::MAX * u32::MAX <= usize::MAX,
            intermediate@ == walk_canvas(s, similarity, j as int),
            intermediate@.wf(),
            corrections@.len() == n,
            out_frames@.len() == if j < n { j + 1 } else { n as int },
            j < n ==> out_frames@[0]@ == s[0],
            forall|idx: int|
                1 <= idx <= j && idx < n ==> #[trigger] out_frames@[idx]@ == delta_model(
                    walk_canvas(s, similarity, idx - 1),
                    s[idx],
                    similarity,
                ),
            forall|idx: int|
                1 <= idx <= j && idx < n ==> #[trigger] corrections@[idx]@ == corrections_model(
                    walk_canvas(s, similarity, idx - 1),
                    s[idx],
                    similarity,
                    walk_canvas(s, similarity, idx - 1).image.len() as int,
                ),
            j == n ==> out_frames@[0]@ == delta_model(
                walk_canvas(s, similarity, n - 1),
                s[0],
                similarity,
            ),
            j == n ==> corrections@[0]@ == corrections_model(
                walk_canvas(s, similarity, n - 1),
                s[0],
                similarity,
                walk_canvas(s, similarity, n - 1).image.len() as int,
            ),
        decreases n - j,
    {
        let idx = if j + 1 < n {
            j + 1
        } else {
            0
        };
        assert(idx as int == walk_index(n as int, j as int));
        assert(frames@[idx as int]@ == s[idx as int]);
        let delta = compute_delta(&intermediate, &frames[idx], similarity);
        let corr = compute_corrections(&intermediate, &frames[idx], similarity);
        if idx == 0 {
            out_frames.set(0, delta);
        } else {
            out_frames.push(delta);
        }
        corrections.set(idx, corr);
        proof {
            lemma_combine_box(intermediate@, s[idx as int], similarity);
            lemma_area_bound(combine_model(intermediate@, s[idx as int], similarity));
        }
        intermediate = intermediate.combine(&frames[idx], similarity);
        j += 1;
    }

    proof {
        assert forall|idx: int| 0 <= idx < frames@.len() implies out_frames@[idx]@.wf() by {
            assert(out_frames@[idx]@ == delta_model(
                walk_canvas(s, similarity, walk_step_of(n as int, idx)),
                s[idx],
                similarity,
            ));
            assert(s[idx].wf());
            assert(delta_model(
                walk_canvas(s, similarity, walk_step_of(n as int, idx)),
                s[idx],
                similarity,
            ).wf());
        }
    }
    OptimizedImage { start, frames: out_frames, corrections }
}

} // verus!
