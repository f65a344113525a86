//! Loading the animated source: the `gif` crate decodes the byte stream
//! into indexed-color rasters; mapping each raster through its palette into
//! a [`Frame`] — transparent indices becoming `Empty` — is verified here.

use vstd::prelude::*;
use crate::frame::{Frame, FrameModel};
use crate::pixel::Pixel;

verus! {

#[verifier::external_type_specification]
#[verifier::external_body]
pub struct ExDecodingError(gif::DecodingError);

/// One raster as the decoder hands it out: a buffer of palette indices,
/// an optional local palette of RGB triples, an optional transparent
/// index, and the raster's canvas position, size and display delay.
pub struct DecodedFrame {
    pub buffer: Vec<u8>,
    pub palette: Option<Vec<u8>>,
    pub transparent: Option<u8>,
    pub left: u16,
    pub top: u16,
    pub width: u16,
    pub height: u16,
    pub delay: u16,
}

/// Mathematical model of one decoded raster.
pub struct RasterModel {
    pub buffer: Seq<u8>,
    pub palette: Option<Seq<u8>>,
    pub transparent: Option<u8>,
    pub left: u16,
    pub top: u16,
    pub width: u16,
    pub height: u16,
    pub delay: u16,
}

impl View for DecodedFrame {
    type V = RasterModel;

    open spec fn view(&self) -> RasterModel {
        RasterModel {
            buffer: self.buffer@,
            palette: match self.palette {
                Some(p) => Some(p@),
                None => None,
            },
            transparent: self.transparent,
            left: self.left,
            top: self.top,
            width: self.width,
            height: self.height,
            delay: self.delay,
        }
    }
}

/// The bytes of an optional byte vector.
pub open spec fn opt_bytes(o: Option<Vec<u8>>) -> Option<Seq<u8>> {
    match o {
        Some(v) => Some(v@),
        None => None,
    }
}

/// The models of a sequence of decoded rasters.
pub open spec fn rasters_view(rs: Seq<DecodedFrame>) -> Seq<RasterModel> {
    rs.map_values(|d: DecodedFrame| d@)
}

/// What decoding a byte stream yields: `None` when the stream is rejected,
/// else the stream's global palette and its rasters in order. Decoding
/// depends on the bytes alone, so the result can be named.
pub uninterp spec fn gif_decode_of(data: Seq<u8>) -> Option<
    (Option<Seq<u8>>, Seq<RasterModel>),
>;

/// Why a source could not be loaded.
#[derive(Debug, Clone, Copy, PartialEq, Eq, Structural)]
pub enum LoadError {
    /// The decoder rejected the byte stream.
    Malformed,
    /// A frame has neither a local palette nor is there a global one.
    MissingPalette,
    /// A non-transparent pixel's index points past the end of its palette.
    PaletteIndexOutOfRange,
}

/// Relies on gif's `DecodeOptions::read_info` (with indexed color output),
/// `Decoder::global_palette` and `Decoder::read_next_frame`: decoding is a
/// function of the byte stream alone — [`gif_decode_of`] names its result —
/// and yields the stream's rasters in order, each holding one palette index
/// per pixel (a buffer of exactly `width * height` bytes), beside the
/// global palette, if the stream has one.
#[verifier::external_body]
fn decode_gif(data: &Vec<u8>) -> (r: Result<
    (Option<Vec<u8>>, Vec<DecodedFrame>),
    gif::DecodingError,
>)
    ensures
        (r is Ok) == (gif_decode_of(data@) is Some),
        r matches Ok(p) ==> gif_decode_of(data@) == Some((opt_bytes(p.0), rasters_view(p.1@))),
        r matches Ok(p) ==> forall|i: int|
            0 <= i < p.1@.len() ==> (#[trigger] p.1@[i]).buffer@.len() == p.1@[i].width
                * p.1@[i].height,
{
    let mut options = gif::DecodeOptions::new();
    options.set_color_output(gif::ColorOutput::Indexed);
    let mut decoder = options.read_info(data.as_slice())?;
    let global = decoder.global_palette().map(|p| p.to_vec());
    let mut frames = Vec::new();
    while let Some(f) = decoder.read_next_frame()? {
        frames.push(DecodedFrame {
            buffer: f.buffer.to_vec(), palette: f.palette.clone(), transparent: f.transparent,
            left: f.left, top: f.top, width: f.width, height: f.height, delay: f.delay,
        });
    }
    Ok((global, frames))
}

/// Whether palette index `idx` counts as transparent.
pub open spec fn is_transparent(transparent: Option<u8>, idx: u8) -> bool {
    transparent == Some(idx)
}

/// The pixel a palette index maps to: `Empty` for the transparent index,
/// else the RGB triple at position `3 * idx` of the palette.
pub open spec fn indexed_pixel(
    buffer: Seq<u8>,
    palette: Seq<u8>,
    transparent: Option<u8>,
    i: int,
) -> Pixel {
    if is_transparent(transparent, buffer[i]) {
        Pixel::Empty
    } else {
        Pixel::Rgb(
            palette[3 * buffer[i]],
            palette[3 * buffer[i] + 1],
            palette[3 * buffer[i] + 2],
        )
    }
}

/// Every non-transparent index of the buffer has its full RGB triple
/// inside the palette.
pub open spec fn indices_in_palette(
    buffer: Seq<u8>,
    palette: Seq<u8>,
    transparent: Option<u8>,
) -> bool {
    forall|i: int|
        0 <= i < buffer.len() ==> is_transparent(transparent, #[trigger] buffer[i]) || 3 * buffer[i]
            + 3 <= palette.len()
}

/// The palette a raster is read through: its own local palette, or else
/// the stream's global one.
pub open spec fn chosen_palette(global: Option<Seq<u8>>, r: RasterModel) -> Option<Seq<u8>> {
    if r.palette is Some {
        r.palette
    } else {
        global
    }
}

/// The frame a raster maps to under palette `p`.
pub open spec fn raster_frame_model(r: RasterModel, p: Seq<u8>) -> FrameModel {
    FrameModel {
        image: Seq::new(r.buffer.len(), |i: int| indexed_pixel(r.buffer, p, r.transparent, i)),
        off_x: r.left as int,
        off_y: r.top as int,
        w: r.width as int,
        h: r.height as int,
        delay: r.delay as int,
    }
}

/// Loading one raster: fails without any palette, fails on an index past
/// the palette's end, else yields the mapped frame.
pub open spec fn raster_result(global: Option<Seq<u8>>, r: RasterModel) -> Result<
    FrameModel,
    LoadError,
> {
    match chosen_palette(global, r) {
        None => Err(LoadError::MissingPalette),
        Some(p) => if indices_in_palette(r.buffer, p, r.transparent) {
            Ok(raster_frame_model(r, p))
        } else {
            Err(LoadError::PaletteIndexOutOfRange)
        },
    }
}

/// Loading a raster sequence left to right: the frames of all rasters in
/// order, or the error of the first raster that fails.
pub open spec fn frames_of_rasters(global: Option<Seq<u8>>, rs: Seq<RasterModel>) -> Result<
    Seq<FrameModel>,
    LoadError,
>
    decreases rs.len(),
{
    if rs.len() == 0 {
        Ok(Seq::empty())
    } else {
        match frames_of_rasters(global, rs.drop_last()) {
            Err(e) => Err(e),
            Ok(prefix) => match raster_result(global, rs.last()) {
                Ok(m) => Ok(prefix.push(m)),
                Err(e) => Err(e),
            },
        }
    }
}

/// Once the rasters before `i` load and raster `i` fails with `e`, the
/// whole sequence loads to `Err(e)`: later rasters cannot mask it.
proof fn lemma_frames_of_rasters_first_error(
    global: Option<Seq<u8>>,
    rs: Seq<RasterModel>,
    i: int,
    e: LoadError,
)
    requires
        0 <= i < rs.len(),
        frames_of_rasters(global, rs.take(i)) is Ok,
        raster_result(global, rs[i]) == Err::<FrameModel, LoadError>(e),
    ensures
        frames_of_rasters(global, rs) == Err::<Seq<FrameModel>, LoadError>(e),
    decreases rs.len(),
{
    if i == rs.len() - 1 {
        assert(rs.take(i) =~= rs.drop_last());
        assert(rs.last() == rs[i]);
    } else {
        assert(rs.drop_last().take(i) =~= rs.take(i));
        assert(rs.drop_last()[i] == rs[i]);
        lemma_frames_of_rasters_first_error(global, rs.drop_last(), i, e);
    }
}

/// Maps one decoded raster through its palette into a frame. Succeeds if
/// and only if every non-transparent index fits the palette; the resulting
/// frame keeps the raster's position, size and delay, maps each transparent
/// index to `Empty` and every other index to its palette triple.
pub fn frame_from_indexed(d: &DecodedFrame, palette: &Vec<u8>) -> (r: Result<Frame, LoadError>)
    requires
        d.buffer@.len() == d.width * d.height,
    ensures
        r is Ok <==> indices_in_palette(d.buffer@, palette@, d.transparent),
        r matches Ok(f) ==> f@ == raster_frame_model(d@, palette@) && f@.wf(),
        r is Err ==> r == Err::<Frame, LoadError>(LoadError::PaletteIndexOutOfRange),
{
    let n = d.buffer.len();
    let mut image: Vec<Pixel> = Vec::with_capacity(n);
    let mut i: usize = 0;
    while i < n
        invariant
            n == d.buffer@.len(),
            i <= n,
            image@.len() == i,
            forall|j: int|
                0 <= j < i ==> is_transparent(d.transparent, #[trigger] d.buffer@[j]) || 3
                    * d.buffer@[j] + 3 <= palette@.len(),
            forall|j: int|
                0 <= j < i ==> image@[j] == indexed_pixel(d.buffer@, palette@, d.transparent, j),
        decreases n - i,
    {
        let idx = d.buffer[i];
        let transparent_here = match d.transparent {
            Some(t) => t == idx,
            None => false,
        };
        if transparent_here {
            image.push(Pixel::Empty);
        } else {
            let base = 3 * (idx as usize);
            if base + 3 > palette.len() {
                assert(!indices_in_palette(d.buffer@, palette@, d.transparent));
                return Err(LoadError::PaletteIndexOutOfRange);
            }
            image.push(Pixel::Rgb(palette[base], palette[base + 1], palette[base + 2]));
        }
        i += 1;
    }
    let f = Frame {
        image,
        offset: (d.left as u32, d.top as u32),
        size: (d.width as u32, d.height as u32),
        delay: d.delay,
    };
    assert(f@.image =~= raster_frame_model(d@, palette@).image);
    assert(f@ == raster_frame_model(d@, palette@));
    Ok(f)
}

/// Decodes an animated byte stream into frames: the `gif` crate parses and
/// decompresses; each raster is then mapped through its local palette, or
/// the global one where it has none. The result is pinned: `Malformed`
/// exactly when the decoder rejects the stream, else exactly the outcome
/// of loading the decoded rasters left to right (see
/// [`frames_of_rasters`]); every returned frame is well formed.
pub fn load_image(data: &Vec<u8>) -> (r: Result<Vec<Frame>, LoadError>)
    ensures
        match gif_decode_of(data@) {
            None => r == Err::<Vec<Frame>, LoadError>(LoadError::Malformed),
            Some(d) => match frames_of_rasters(d.0, d.1) {
                Ok(models) => r matches Ok(frames) && frames@.map_values(|f: Frame| f@)
                    == models,
                Err(e) => r == Err::<Vec<Frame>, LoadError>(e),
            },
        },
        r matches Ok(frames) ==> forall|i: int|
            0 <= i < frames@.len() ==> (#[trigger] frames@[i]@).wf(),
{
    let decoded = match decode_gif(data) {
        Ok(p) => p,
        Err(_) => {
            return Err(LoadError::Malformed);
        },
    };
    let (global, rasters) = decoded;
    let ghost gm = opt_bytes(global);
    let ghost rm = rasters_view(rasters@);
    let n = rasters.len();
    let mut frames: Vec<Frame> = Vec::new();
    let mut i: usize = 0;
    proof {
        assert(rm.take(0) =~= Seq::<RasterModel>::empty());
        assert(frames@.map_values(|f: Frame| f@) =~= Seq::<FrameModel>::empty());
    }
    while i < n
        invariant
            gif_decode_of(data@) == Some((gm, rm)),
            gm == opt_bytes(global),
            rm == rasters_view(rasters@),
            n == rasters@.len(),
            forall|k: int|
                0 <= k < rasters@.len() ==> (#[trigger] rasters@[k]).buffer@.len() == rasters@[
                    k].width * rasters@[k].height,
            i <= n,
            frames@.len() == i,
            frames_of_rasters(gm, rm.take(i as int)) == Ok::<Seq<FrameModel>, LoadError>(
                frames@.map_values(|f: Frame| f@),
            ),
            forall|k: int| 0 <= k < i ==> (#[trigger] frames@[k]@).wf(),
        decreases n - i,
    {
        let d = &rasters[i];
        proof {
            assert(d@ == rm[i as int]);
        }
        let frame = match &d.palette {
            Some(p) => {
                proof {
                    assert(chosen_palette(gm, rm[i as int]) == Some(p@));
                }
                frame_from_indexed(d, p)
            },
            None => match &global {
                Some(g) => {
                    proof {
                        assert(chosen_palette(gm, rm[i as int]) == Some(g@));
                    }
                    frame_from_indexed(d, g)
                },
                None => {
                    proof {
                        assert(raster_result(gm, rm[i as int]) == Err::<FrameModel, LoadError>(
                            LoadError::MissingPalette,
                        ));
                        lemma_frames_of_rasters_first_error(
                            gm,
                            rm,
                            i as int,
                            LoadError::MissingPalette,
                        );
                    }
                    return Err(LoadError::MissingPalette);
                },
            },
        };
        match frame {
            Ok(f) => {
                frames.push(f);
                proof {
                    assert(raster_result(gm, rm[i as int]) == Ok::<FrameModel, LoadError>(f@));
                    assert(rm.take(i + 1).drop_last() =~= rm.take(i as int));
                    assert(rm.take(i + 1).last() == rm[i as int]);
                    assert(frames@.map_values(|fr: Frame| fr@) =~= frames_of_rasters(
                        gm,
                        rm.take(i as int),
                    )->Ok_0.push(f@));
                }
            },
            Err(e) => {
                proof {
                    assert(raster_result(gm, rm[i as int]) == Err::<FrameModel, LoadError>(e));
                    lemma_frames_of_rasters_first_error(gm, rm, i as int, e);
                }
                return Err(e);
            },
        }
        i += 1;
    }
    proof {
        assert(rm.take(n as int) =~= rm);
    }
    Ok(frames)
}

} // verus!
