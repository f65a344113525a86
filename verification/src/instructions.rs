//! Turns optimizer output into wire-format instructions: one byte buffer per
//! delta frame, and one independently writable chunk per correction pixel so
//! the scheduler can interleave single-chunk writes with deadline checks.

use vstd::prelude::*;
use smallvec::SmallVec;
use crate::codec::{frame_lines, is_index_permutation, lines_in_order, px_line, push_px_line};
use crate::frame::{Frame, FrameModel};
use crate::optimizer::{OptimizedImage, all_wf, frame_fits, frame_views, frames_fit, lemma_corrections_fit, lemma_walk_canvas_contains, lemma_walk_canvas_fit, optimize_image, step_corrections, step_delta, walk_step_of};
use crate::pixel::Pixel;
use crate::shuffling::shuffle;

verus! {

/// One correction pixel's draw command, kept in its own small inline
/// buffer so the scheduler can write chunks one at a time. The buffer is a
/// `smallvec` vector, which Verus does not read; everything stated about a
/// chunk goes through [`chunk_bytes`].
#[verifier::external_body]
pub struct CorrectionChunk {
    inner: SmallVec<[u8; 18]>,
}

/// The bytes held by one correction chunk.
pub uninterp spec fn chunk_bytes(c: CorrectionChunk) -> Seq<u8>;

/// Relies on smallvec's `SmallVec::new`: it constructs an empty vector.
#[verifier::external_body]
fn chunk_new() -> (r: CorrectionChunk)
    ensures
        chunk_bytes(r) == Seq::<u8>::empty(),
{
    CorrectionChunk { inner: SmallVec::new() }
}

/// Relies on smallvec's `SmallVec::extend_from_slice`: it appends a copy of
/// the slice's bytes after the vector's existing contents.
#[verifier::external_body]
fn chunk_extend(c: &mut CorrectionChunk, bytes: &Vec<u8>)
    ensures
        chunk_bytes(*final(c)) == chunk_bytes(*old(c)) + bytes@,
{
    c.inner.extend_from_slice(bytes.as_slice());
}

/// Relies on smallvec's `SmallVec::as_slice`: it exposes exactly the
/// vector's bytes, unchanged and in order.
#[verifier::external_body]
fn chunk_copy_out(c: &CorrectionChunk) -> (r: Vec<u8>)
    ensures
        r@ == chunk_bytes(*c),
{
    c.inner.as_slice().to_vec()
}

/// The bytes of one correction chunk, as a plain vector.
pub fn correction_chunk_bytes(c: &CorrectionChunk) -> (r: Vec<u8>)
    ensures
        r@ == chunk_bytes(*c),
{
    chunk_copy_out(c)
}

/// Wire-encoded form of a whole optimized animation: the start frame's
/// instruction bytes, then per display step the delta instruction bytes,
/// the correction chunks, and the step's delay in hundredths of a second.
pub struct FlutInstructions {
    pub start: Vec<u8>,
    pub frames: Vec<(Vec<u8>, Vec<CorrectionChunk>, u16)>,
}

/// The byte sequences held by a list of correction chunks.
pub open spec fn chunks_bytes(cs: Seq<CorrectionChunk>) -> Seq<Seq<u8>> {
    cs.map_values(|c: CorrectionChunk| chunk_bytes(c))
}

/// One draw command for a correction descriptor `(x, y, rgb)`.
pub open spec fn desc_line(d: (u32, u32, (u8, u8, u8))) -> Seq<u8> {
    px_line(d.0 as int, d.1 as int, d.2)
}

/// The draw commands of the first `k` descriptors, in order.
pub open spec fn desc_lines(ds: Seq<(u32, u32, (u8, u8, u8))>, k: int) -> Seq<Seq<u8>>
    decreases k,
{
    if k <= 0 {
        Seq::empty()
    } else {
        desc_lines(ds, k - 1).push(desc_line(ds[k - 1]))
    }
}

/// The first `k` correction-list entries as final-coordinate descriptors:
/// the extra canvas offset is added to each position.
pub open spec fn corr_descs(
    corr: Seq<(u32, u32, (u8, u8, u8))>,
    ox: int,
    oy: int,
    k: int,
) -> Seq<(u32, u32, (u8, u8, u8))>
    decreases k,
{
    if k <= 0 {
        Seq::empty()
    } else {
        corr_descs(corr, ox, oy, k - 1).push(
            (((corr[k - 1].0 + ox) as u32), ((corr[k - 1].1 + oy) as u32), corr[k - 1].2),
        )
    }
}

/// The non-`Empty` pixels among the first `k` of frame `m` as
/// final-coordinate descriptors.
pub open spec fn delta_descs(m: FrameModel, ox: int, oy: int, k: int) -> Seq<
    (u32, u32, (u8, u8, u8)),
>
    decreases k,
{
    if k <= 0 {
        Seq::empty()
    } else {
        let rest = delta_descs(m, ox, oy, k - 1);
        match m.image[k - 1] {
            Pixel::Empty => rest,
            Pixel::Rgb(r, g, b) => rest.push(
                (
                    ((m.off_x + ox + (k - 1) % m.w) as u32),
                    ((m.off_y + oy + (k - 1) / m.w) as u32),
                    (r, g, b),
                ),
            ),
        }
    }
}

/// All correction descriptors of one display step: the step's correction
/// list first, then the step's own delta pixels (stable once drawn), each
/// with the extra canvas offset added.
pub open spec fn step_descs(
    corr: Seq<(u32, u32, (u8, u8, u8))>,
    m: FrameModel,
    ox: int,
    oy: int,
) -> Seq<(u32, u32, (u8, u8, u8))> {
    corr_descs(corr, ox, oy, corr.len() as int) + delta_descs(m, ox, oy, m.image.len() as int)
}

/// Every correction entry, shifted by the extra canvas offset, still fits
/// the `u32` coordinate range.
pub open spec fn corrections_encodable(
    corr: Seq<(u32, u32, (u8, u8, u8))>,
    ox: int,
    oy: int,
) -> bool {
    forall|i: int|
        0 <= i < corr.len() ==> (#[trigger] corr[i]).0 + ox <= u32::MAX && corr[i].1 + oy
            <= u32::MAX
}

/// The delta bytes of one frame are correct for the chosen ordering mode:
/// exact row-major bytes when not shuffled, the bytes of some permutation
/// of the pixel indices when shuffled, and empty whenever the frame has no
/// real pixels.
pub open spec fn delta_bytes_ok(bytes: Seq<u8>, m: FrameModel, ox: int, oy: int, shuffled: bool) -> bool {
    &&& !shuffled ==> bytes == frame_lines(m, ox, oy, m.image.len() as int)
    &&& shuffled ==> exists|ord: Seq<usize>|
        #![auto]
        is_index_permutation(ord, m.image.len() as int) && bytes == lines_in_order(
            m,
            ord,
            ox,
            oy,
            m.image.len() as int,
        )
    &&& (forall|i: int| 0 <= i < m.image.len() ==> m.image[i] is Empty) ==> bytes.len() == 0
}

/// The chunk list of one display step is correct for the chosen ordering
/// mode: the encodings of exactly the step's descriptors, in order when not
/// shuffled, in some multiset-preserving order when shuffled.
pub open spec fn chunks_ok(
    cs: Seq<CorrectionChunk>,
    corr: Seq<(u32, u32, (u8, u8, u8))>,
    m: FrameModel,
    ox: int,
    oy: int,
    shuffled: bool,
) -> bool {
    &&& !shuffled ==> chunks_bytes(cs) == desc_lines(
        step_descs(corr, m, ox, oy),
        step_descs(corr, m, ox, oy).len() as int,
    )
    &&& shuffled ==> exists|ds: Seq<(u32, u32, (u8, u8, u8))>|
        #![auto]
        ds.to_multiset() == step_descs(corr, m, ox, oy).to_multiset() && chunks_bytes(cs)
            == desc_lines(ds, ds.len() as int)
}

/// Builds the descriptor list of one display step.
fn build_step_descs(
    corr: &Vec<(u32, u32, (u8, u8, u8))>,
    frame: &Frame,
    off_x: u32,
    off_y: u32,
) -> (r: Vec<(u32, u32, (u8, u8, u8))>)
    requires
        frame@.wf(),
        frame_fits(frame@, off_x as int, off_y as int),
        corrections_encodable(corr@, off_x as int, off_y as int),
    ensures
        r@ == step_descs(corr@, frame@, off_x as int, off_y as int),
{
    let nc = corr.len();
    let mut out: Vec<(u32, u32, (u8, u8, u8))> = Vec::new();
    let mut i: usize = 0;
    while i < nc
        invariant
            corrections_encodable(corr@, off_x as int, off_y as int),
            nc == corr@.len(),
            i <= nc,
            out@ == corr_descs(corr@, off_x as int, off_y as int, i as int),
        decreases nc - i,
    {
        let e = corr[i];
        out.push((e.0 + off_x, e.1 + off_y, e.2));
        i += 1;
    }
    let np = frame.image.len();
    let mut p: usize = 0;
    while p < np
        invariant
            frame@.wf(),
            frame_fits(frame@, off_x as int, off_y as int),
            np == frame@.image.len(),
            p <= np,
            out@ == corr_descs(corr@, off_x as int, off_y as int, corr@.len() as int)
                + delta_descs(frame@, off_x as int, off_y as int, p as int),
        decreases np - p,
    {
        let w = frame.size.0;
        assert(w > 0) by {
            if frame@.w == 0 {
                assert(frame@.w * frame@.h == 0);
            }
        }
        let lx = p % (w as usize);
        let ly = p / (w as usize);
        proof {
            vstd::arithmetic::div_mod::lemma_fundamental_div_mod(p as int, w as int);
        }
        assert(ly < frame@.h) by (nonlinear_arith)
            requires
                p < frame@.image.len(),
                frame@.image.len() == frame@.w * frame@.h,
                p as int == frame@.w * (ly as int) + (lx as int),
                0 <= lx < frame@.w,
                0 <= ly,
        ;
        match frame.image[p] {
            Pixel::Empty => {
                assert(out@ =~= corr_descs(corr@, off_x as int, off_y as int, corr@.len() as int)
                    + delta_descs(frame@, off_x as int, off_y as int, p + 1));
            },
            Pixel::Rgb(r, g, b) => {
                let x = frame.offset.0 + off_x + (lx as u32);
                let y = frame.offset.1 + off_y + (ly as u32);
                out.push((x, y, (r, g, b)));
                assert(out@ =~= corr_descs(corr@, off_x as int, off_y as int, corr@.len() as int)
                    + delta_descs(frame@, off_x as int, off_y as int, p + 1));
            },
        }
        p += 1;
    }
    assert(out@ =~= step_descs(corr@, frame@, off_x as int, off_y as int));
    out
}

/// Encodes every descriptor into its own independently writable chunk.
fn encode_chunks(descs: &Vec<(u32, u32, (u8, u8, u8))>) -> (r: Vec<CorrectionChunk>)
    ensures
        chunks_bytes(r@) == desc_lines(descs@, descs@.len() as int),
{
    let n = descs.len();
    let mut out: Vec<CorrectionChunk> = Vec::new();
    let mut i: usize = 0;
    while i < n
        invariant
            n == descs@.len(),
            i <= n,
            out@.len() == i,
            chunks_bytes(out@) == desc_lines(descs@, i as int),
        decreases n - i,
    {
        let d = descs[i];
        let mut line: Vec<u8> = Vec::new();
        push_px_line(&mut line, d.0, d.1, d.2);
        let mut c = chunk_new();
        chunk_extend(&mut c, &line);
        assert(chunk_bytes(c) =~= desc_line(descs@[i as int]));
        out.push(c);
        assert(chunks_bytes(out@) =~= desc_lines(descs@, i + 1));
        i += 1;
    }
    out
}

/// Encodes optimizer output into wire instructions. Every coordinate gets
/// the extra canvas offset `(off_x, off_y)` added; with `shuffled` the
/// emission order of the start frame's and each delta frame's pixels, and
/// of each step's chunk list, is randomized, and only the multiset of
/// emitted commands is promised.
pub fn optimized_image_to_instructions(
    image: OptimizedImage,
    off_x: u32,
    off_y: u32,
    shuffled: bool,
) -> (r: FlutInstructions)
    requires
        image.start@.wf(),
        frame_fits(image.start@, off_x as int, off_y as int),
        image.frames@.len() == image.corrections@.len(),
        forall|i: int|
            0 <= i < image.frames@.len() ==> (#[trigger] image.frames@[i]@).wf() && frame_fits(
                image.frames@[i]@,
                off_x as int,
                off_y as int,
            ),
        forall|i: int|
            0 <= i < image.corrections@.len() ==> corrections_encodable(
                #[trigger] image.corrections@[i]@,
                off_x as int,
                off_y as int,
            ),
    ensures
        delta_bytes_ok(r.start@, image.start@, off_x as int, off_y as int, shuffled),
        r.frames@.len() == image.frames@.len(),
        forall|i: int|
            0 <= i < image.frames@.len() ==> delta_bytes_ok(
                (#[trigger] r.frames@[i]).0@,
                image.frames@[i]@,
                off_x as int,
                off_y as int,
                shuffled,
            ),
        forall|i: int|
            0 <= i < image.frames@.len() ==> chunks_ok(
                (#[trigger] r.frames@[i]).1@,
                image.corrections@[i]@,
                image.frames@[i]@,
                off_x as int,
                off_y as int,
                shuffled,
            ),
        forall|i: int|
            0 <= i < image.frames@.len() ==> (#[trigger] r.frames@[i]).2 == image.frames@[i].delay,
{
    let start_bytes = image.start.to_instructions(off_x, off_y, shuffled);
    let n = image.frames.len();
    let mut steps: Vec<(Vec<u8>, Vec<CorrectionChunk>, u16)> = Vec::new();
    let mut i: usize = 0;
    while i < n
        invariant
            n == image.frames@.len(),
            image.frames@.len() == image.corrections@.len(),
            forall|k: int|
                0 <= k < image.frames@.len() ==> (#[trigger] image.frames@[k]@).wf()
                    && frame_fits(image.frames@[k]@, off_x as int, off_y as int),
            forall|k: int|
                0 <= k < image.corrections@.len() ==> corrections_encodable(
                    #[trigger] image.corrections@[k]@,
                    off_x as int,
                    off_y as int,
                ),
            i <= n,
            steps@.len() == i,
            forall|k: int|
                0 <= k < i ==> delta_bytes_ok(
                    (#[trigger] steps@[k]).0@,
                    image.frames@[k]@,
                    off_x as int,
                    off_y as int,
                    shuffled,
                ),
            forall|k: int|
                0 <= k < i ==> chunks_ok(
                    (#[trigger] steps@[k]).1@,
                    image.corrections@[k]@,
                    image.frames@[k]@,
                    off_x as int,
                    off_y as int,
                    shuffled,
                ),
            forall|k: int| 0 <= k < i ==> (#[trigger] steps@[k]).2 == image.frames@[k].delay,
        decreases n - i,
    {
        let frame = &image.frames[i];
        let delta_bytes = frame.to_instructions(off_x, off_y, shuffled);
        let mut descs = build_step_descs(&image.corrections[i], frame, off_x, off_y);
        if shuffled {
            shuffle(&mut descs);
        }
        let chunks = encode_chunks(&descs);
        proof {
            if shuffled {
                let ds = descs@;
                assert(ds.to_multiset() == step_descs(
                    image.corrections@[i as int]@,
                    image.frames@[i as int]@,
                    off_x as int,
                    off_y as int,
                ).to_multiset() && chunks_bytes(chunks@) == desc_lines(ds, ds.len() as int));
            }
        }
        steps.push((delta_bytes, chunks, frame.delay));
        i += 1;
    }
    FlutInstructions { start: start_bytes, frames: steps }
}

/// `r` is the one unshuffled wire encoding of the optimized form of the
/// frame sequence `s` under threshold `t` and extra offset `(ox, oy)`:
/// every byte of it is a function of those inputs alone.
pub open spec fn is_unshuffled_pipeline_output(
    r: FlutInstructions,
    s: Seq<FrameModel>,
    t: u32,
    ox: int,
    oy: int,
) -> bool {
    &&& r.start@ == frame_lines(s[0], ox, oy, s[0].image.len() as int)
    &&& r.frames@.len() == s.len()
    &&& forall|i: int|
        0 <= i < s.len() ==> (#[trigger] r.frames@[i]).0@ == frame_lines(
            step_delta(s, t, i),
            ox,
            oy,
            step_delta(s, t, i).image.len() as int,
        )
    &&& forall|i: int|
        0 <= i < s.len() ==> chunks_bytes((#[trigger] r.frames@[i]).1@) == desc_lines(
            step_descs(step_corrections(s, t, i), step_delta(s, t, i), ox, oy),
            step_descs(step_corrections(s, t, i), step_delta(s, t, i), ox, oy).len() as int,
        )
    &&& forall|i: int| 0 <= i < s.len() ==> (#[trigger] r.frames@[i]).2 == s[i].delay
}

/// Optimizes a frame sequence and encodes the result in one call. In both
/// ordering modes the start bytes, every step's delta bytes and chunk list
/// are pinned against the optimizer's step functions (exactly when not
/// shuffled; up to the random permutation or multiset-preserving reorder
/// when shuffled), and every step carries its source frame's delay.
/// Without shuffling the whole result is the one unshuffled pipeline
/// output of the inputs, so a second run over the same inputs yields the
/// same bytes (see [`lemma_pipeline_deterministic`]).
#[verifier::rlimit(100)]
pub fn optimize_and_encode(
    frames: Vec<Frame>,
    similarity: u32,
    off_x: u32,
    off_y: u32,
    shuffled: bool,
) -> (r: FlutInstructions)
    requires
        frames@.len() >= 1,
        all_wf(frame_views(frames@)),
        frames_fit(frame_views(frames@), off_x as int, off_y as int),
        u32::MAX * u32::MAX <= usize::MAX,
    ensures
        r.frames@.len() == frames@.len(),
        delta_bytes_ok(
            r.start@,
            frame_views(frames@)[0],
            off_x as int,
            off_y as int,
            shuffled,
        ),
        forall|i: int|
            0 <= i < frames@.len() ==> delta_bytes_ok(
                (#[trigger] r.frames@[i]).0@,
                step_delta(frame_views(frames@), similarity, i),
                off_x as int,
                off_y as int,
                shuffled,
            ),
        forall|i: int|
            0 <= i < frames@.len() ==> chunks_ok(
                (#[trigger] r.frames@[i]).1@,
                step_corrections(frame_views(frames@), similarity, i),
                step_delta(frame_views(frames@), similarity, i),
                off_x as int,
                off_y as int,
                shuffled,
            ),
        forall|i: int|
            0 <= i < frames@.len() ==> (#[trigger] r.frames@[i]).2 == frame_views(
                frames@,
            )[i].delay,
        !shuffled ==> is_unshuffled_pipeline_output(
            r,
            frame_views(frames@),
            similarity,
            off_x as int,
            off_y as int,
        ),
{
    let ghost s = frame_views(frames@);
    let ghost n = s.len() as int;
    let opt = optimize_image(frames, similarity);
    proof {
        assert(frame_fits(opt.start@, off_x as int, off_y as int));
        assert forall|i: int|
            0 <= i < opt.frames@.len() implies (#[trigger] opt.frames@[i]@).wf()
            && frame_fits(opt.frames@[i]@, off_x as int, off_y as int) by {
            assert(opt.frames@[i]@ == step_delta(s, similarity, i));
        }
        assert forall|i: int|
            0 <= i < opt.corrections@.len() implies corrections_encodable(
            #[trigger] opt.corrections@[i]@,
            off_x as int,
            off_y as int,
        ) by {
            assert(opt.corrections@[i]@ == step_corrections(s, similarity, i));
            lemma_walk_canvas_fit(s, similarity, walk_step_of(n, i), off_x as int, off_y as int);
            lemma_walk_canvas_contains(s, similarity, walk_step_of(n, i));
            lemma_corrections_fit(
                walk_canvas_of(s, similarity, i),
                s[i],
                similarity,
                walk_canvas_of(s, similarity, i).image.len() as int,
                off_x as int,
                off_y as int,
            );
        }
    }
    let r = optimized_image_to_instructions(opt, off_x, off_y, shuffled);
    r
}

/// The walk canvas against which display step `idx` is computed.
pub open spec fn walk_canvas_of(s: Seq<FrameModel>, t: u32, idx: int) -> FrameModel {
    crate::optimizer::walk_canvas(s, t, walk_step_of(s.len() as int, idx))
}

/// Re-running the optimizer and the encoder on the same frame sequence,
/// with the same threshold and offsets and randomization disabled, yields
/// byte-identical instructions: the start bytes, every delta frame's bytes,
/// every correction chunk, and every delay agree.
pub proof fn lemma_pipeline_deterministic(
    a: FlutInstructions,
    b: FlutInstructions,
    s: Seq<FrameModel>,
    t: u32,
    ox: int,
    oy: int,
)
    requires
        is_unshuffled_pipeline_output(a, s, t, ox, oy),
        is_unshuffled_pipeline_output(b, s, t, ox, oy),
    ensures
        a.start@ == b.start@,
        a.frames@.len() == b.frames@.len(),
        forall|i: int|
            0 <= i < a.frames@.len() ==> (#[trigger] a.frames@[i]).0@ == b.frames@[i].0@,
        forall|i: int|
            0 <= i < a.frames@.len() ==> chunks_bytes((#[trigger] a.frames@[i]).1@)
                == chunks_bytes(b.frames@[i].1@),
        forall|i: int| 0 <= i < a.frames@.len() ==> (#[trigger] a.frames@[i]).2 == b.frames@[i].2,
{
}

} // verus!

