use flutgif::frame::Frame;
use flutgif::instructions::{correction_chunk_bytes, optimize_and_encode, FlutInstructions};
use flutgif::loader::{frame_from_indexed, load_image, DecodedFrame, LoadError};
use flutgif::optimizer::optimize_image;
use flutgif::pixel::Pixel;

fn count_lines(bytes: &[u8]) -> usize {
    bytes.iter().filter(|&&b| b == b'\n').count()
}

fn chunk_byte_lists(instr: &FlutInstructions, step: usize) -> Vec<Vec<u8>> {
    let mut out: Vec<Vec<u8>> = Vec::new();
    for c in &instr.frames[step].1 {
        out.push(correction_chunk_bytes(c));
    }
    out
}

/// Single 2x2 frame, threshold 0, four distinct colors, delay 5: the start
/// frame encodes four commands, and after the wrap-around pass the one
/// delta frame is all empty, so its instruction bytes are empty.
#[test]
fn single_frame_loop_needs_no_redraw() {
    let frame = Frame {
        image: vec![
            Pixel::Rgb(255, 0, 0),
            Pixel::Rgb(0, 255, 0),
            Pixel::Rgb(0, 0, 255),
            Pixel::Rgb(255, 255, 255),
        ],
        offset: (0, 0),
        size: (2, 2),
        delay: 5,
    };
    let instr = optimize_and_encode(vec![frame], 0, 0, 0, false);
    assert_eq!(count_lines(&instr.start), 4);
    assert_eq!(instr.frames.len(), 1);
    assert_eq!(instr.frames[0].0.len(), 0);
    assert_eq!(instr.frames[0].2, 5);
    // All four stable pixels are available again as correction chunks.
    assert_eq!(instr.frames[0].1.len(), 4);
    assert_eq!(
        flutgif::scheduler::frame_delay_millis(instr.frames[0].2, 10),
        5 * 10 * 10
    );
}

/// Two 1x1 frames, red then black, threshold 0: the difference scores
/// 76 > 0, so the second step's delta redraws the pixel in black.
#[test]
fn real_change_is_redrawn() {
    let f0 = Frame {
        image: vec![Pixel::Rgb(255, 0, 0)],
        offset: (0, 0),
        size: (1, 1),
        delay: 1,
    };
    let f1 = Frame {
        image: vec![Pixel::Rgb(0, 0, 0)],
        offset: (0, 0),
        size: (1, 1),
        delay: 1,
    };
    assert_eq!(Pixel::Rgb(255, 0, 0).similarity(Pixel::Rgb(0, 0, 0)), 76);
    let instr = optimize_and_encode(vec![f0, f1], 0, 0, 0, false);
    assert_eq!(instr.frames.len(), 2);
    assert_eq!(instr.frames[1].0, b"PX 0 0 000000\n".to_vec());
    // The wrap-around pass redraws red for step 0.
    assert_eq!(instr.frames[0].0, b"PX 0 0 ff0000\n".to_vec());
}

/// Two 1x1 frames two steps of gray apart, threshold 100: the difference
/// scores 2, within the threshold, so both deltas are suppressed as noise.
#[test]
fn near_duplicate_frames_collapse_to_no_redraw() {
    let f0 = Frame {
        image: vec![Pixel::Rgb(10, 10, 10)],
        offset: (0, 0),
        size: (1, 1),
        delay: 1,
    };
    let f1 = Frame {
        image: vec![Pixel::Rgb(12, 12, 12)],
        offset: (0, 0),
        size: (1, 1),
        delay: 1,
    };
    assert_eq!(Pixel::Rgb(10, 10, 10).similarity(Pixel::Rgb(12, 12, 12)), 2);
    let instr = optimize_and_encode(vec![f0, f1], 100, 0, 0, false);
    assert_eq!(instr.frames.len(), 2);
    assert_eq!(instr.frames[0].0.len(), 0);
    assert_eq!(instr.frames[1].0.len(), 0);
}

/// Re-running the optimizer and encoder on the same input with
/// randomization disabled yields byte-identical instructions.
#[test]
fn pipeline_is_deterministic_without_randomization() {
    let make_frames = || {
        vec![
            Frame {
                image: vec![Pixel::Rgb(1, 2, 3), Pixel::Empty],
                offset: (1, 1),
                size: (2, 1),
                delay: 3,
            },
            Frame {
                image: vec![Pixel::Rgb(200, 100, 50)],
                offset: (2, 1),
                size: (1, 1),
                delay: 9,
            },
        ]
    };
    let a = optimize_and_encode(make_frames(), 5, 7, 8, false);
    let b = optimize_and_encode(make_frames(), 5, 7, 8, false);
    assert_eq!(a.start, b.start);
    assert_eq!(a.frames.len(), b.frames.len());
    for i in 0..a.frames.len() {
        assert_eq!(a.frames[i].0, b.frames[i].0);
        assert_eq!(a.frames[i].2, b.frames[i].2);
        assert_eq!(chunk_byte_lists(&a, i), chunk_byte_lists(&b, i));
    }
}

/// The extra canvas offset is added to every emitted coordinate,
/// correction chunks included.
#[test]
fn extra_offset_shifts_all_coordinates() {
    let frame = Frame {
        image: vec![Pixel::Rgb(255, 255, 255)],
        offset: (1, 2),
        size: (1, 1),
        delay: 1,
    };
    let instr = optimize_and_encode(vec![frame], 0, 100, 200, false);
    assert_eq!(instr.start, b"PX 101 202 ffffff\n".to_vec());
    let chunks = chunk_byte_lists(&instr, 0);
    assert_eq!(chunks, vec![b"PX 101 202 ffffff\n".to_vec()]);
}

#[test]
fn optimizer_keeps_one_entry_per_source_frame() {
    let f0 = Frame {
        image: vec![Pixel::Rgb(1, 1, 1)],
        offset: (0, 0),
        size: (1, 1),
        delay: 2,
    };
    let f1 = Frame {
        image: vec![Pixel::Rgb(250, 250, 250)],
        offset: (0, 0),
        size: (1, 1),
        delay: 4,
    };
    let opt = optimize_image(vec![f0, f1], 0);
    assert_eq!(opt.frames.len(), 2);
    assert_eq!(opt.corrections.len(), 2);
    assert_eq!(opt.start.image, vec![Pixel::Rgb(1, 1, 1)]);
    assert_eq!(opt.frames[1].delay, 4);
}

#[test]
fn indexed_raster_maps_through_palette() {
    let d = DecodedFrame {
        buffer: vec![0, 1],
        palette: None,
        transparent: None,
        left: 4,
        top: 5,
        width: 2,
        height: 1,
        delay: 7,
    };
    let palette = vec![1, 2, 3, 200, 201, 202];
    let f = frame_from_indexed(&d, &palette).unwrap();
    assert_eq!(f.image, vec![Pixel::Rgb(1, 2, 3), Pixel::Rgb(200, 201, 202)]);
    assert_eq!(f.offset, (4, 5));
    assert_eq!(f.size, (2, 1));
    assert_eq!(f.delay, 7);
}

#[test]
fn transparent_index_maps_to_empty() {
    let d = DecodedFrame {
        buffer: vec![0, 1],
        palette: None,
        transparent: Some(1),
        left: 0,
        top: 0,
        width: 2,
        height: 1,
        delay: 0,
    };
    let palette = vec![9, 9, 9, 8, 8, 8];
    let f = frame_from_indexed(&d, &palette).unwrap();
    assert_eq!(f.image, vec![Pixel::Rgb(9, 9, 9), Pixel::Empty]);
}

#[test]
fn out_of_range_palette_index_is_rejected() {
    let d = DecodedFrame {
        buffer: vec![2],
        palette: None,
        transparent: None,
        left: 0,
        top: 0,
        width: 1,
        height: 1,
        delay: 0,
    };
    let palette = vec![0, 0, 0, 1, 1, 1];
    assert!(matches!(
        frame_from_indexed(&d, &palette),
        Err(LoadError::PaletteIndexOutOfRange)
    ));
}

fn one_pixel_gif(with_transparency: bool) -> Vec<u8> {
    let mut data: Vec<u8> = Vec::new();
    data.extend_from_slice(b"GIF89a");
    // Logical screen: 1x1, a global palette of two colors.
    data.extend_from_slice(&[0x01, 0x00, 0x01, 0x00, 0x80, 0x00, 0x00]);
    // Global palette: black, white.
    data.extend_from_slice(&[0x00, 0x00, 0x00, 0xFF, 0xFF, 0xFF]);
    if with_transparency {
        // Graphic control: transparency on, delay 5, transparent index 0.
        data.extend_from_slice(&[0x21, 0xF9, 0x04, 0x01, 0x05, 0x00, 0x00, 0x00]);
    }
    // Image descriptor: 1x1 at (0,0), no local palette.
    data.extend_from_slice(&[0x2C, 0x00, 0x00, 0x00, 0x00, 0x01, 0x00, 0x01, 0x00, 0x00]);
    // LZW-coded data: clear, index 0, end.
    data.extend_from_slice(&[0x02, 0x02, 0x44, 0x01, 0x00]);
    data.push(0x3B);
    data
}

#[test]
fn load_image_decodes_a_one_pixel_animation() {
    let frames = load_image(&one_pixel_gif(false)).unwrap();
    assert_eq!(frames.len(), 1);
    assert_eq!(frames[0].size, (1, 1));
    assert_eq!(frames[0].offset, (0, 0));
    assert_eq!(frames[0].image, vec![Pixel::Rgb(0, 0, 0)]);
}

#[test]
fn load_image_maps_the_transparent_index_to_empty() {
    let frames = load_image(&one_pixel_gif(true)).unwrap();
    assert_eq!(frames.len(), 1);
    assert_eq!(frames[0].image, vec![Pixel::Empty]);
    assert_eq!(frames[0].delay, 5);
}

#[test]
fn load_image_rejects_malformed_bytes() {
    let garbage = b"certainly not an animation".to_vec();
    assert!(matches!(load_image(&garbage), Err(LoadError::Malformed)));
}

#[test]
fn load_image_rejects_a_stream_without_any_palette() {
    let mut data: Vec<u8> = Vec::new();
    data.extend_from_slice(b"GIF89a");
    // Logical screen 1x1 without a global palette.
    data.extend_from_slice(&[0x01, 0x00, 0x01, 0x00, 0x00, 0x00, 0x00]);
    // Image descriptor without a local palette, then a one-pixel raster.
    data.extend_from_slice(&[0x2C, 0x00, 0x00, 0x00, 0x00, 0x01, 0x00, 0x01, 0x00, 0x00]);
    data.extend_from_slice(&[0x02, 0x02, 0x44, 0x01, 0x00]);
    data.push(0x3B);
    // The decoder itself refuses such a stream before the palette lookup
    // could find anything missing.
    assert!(matches!(load_image(&data), Err(LoadError::Malformed)));
}

#[test]
fn load_image_reports_an_index_outside_the_palette() {
    let mut data: Vec<u8> = Vec::new();
    data.extend_from_slice(b"GIF89a");
    // Logical screen 1x1 with a two-color global palette.
    data.extend_from_slice(&[0x01, 0x00, 0x01, 0x00, 0x80, 0x00, 0x00]);
    data.extend_from_slice(&[0x00, 0x00, 0x00, 0xFF, 0xFF, 0xFF]);
    data.extend_from_slice(&[0x2C, 0x00, 0x00, 0x00, 0x00, 0x01, 0x00, 0x01, 0x00, 0x00]);
    // The raster's only pixel uses index 2, which the palette does not have.
    data.extend_from_slice(&[0x02, 0x02, 0x54, 0x01, 0x00]);
    data.push(0x3B);
    assert!(matches!(
        load_image(&data),
        Err(LoadError::PaletteIndexOutOfRange)
    ));
}

#[test]
fn load_image_keeps_the_rasters_in_stream_order() {
    let mut data: Vec<u8> = Vec::new();
    data.extend_from_slice(b"GIF89a");
    data.extend_from_slice(&[0x01, 0x00, 0x01, 0x00, 0x80, 0x00, 0x00]);
    data.extend_from_slice(&[0x00, 0x00, 0x00, 0xFF, 0xFF, 0xFF]);
    // First frame: delay 3, pixel index 0 (black).
    data.extend_from_slice(&[0x21, 0xF9, 0x04, 0x00, 0x03, 0x00, 0x00, 0x00]);
    data.extend_from_slice(&[0x2C, 0x00, 0x00, 0x00, 0x00, 0x01, 0x00, 0x01, 0x00, 0x00]);
    data.extend_from_slice(&[0x02, 0x02, 0x44, 0x01, 0x00]);
    // Second frame: delay 7, pixel index 1 (white).
    data.extend_from_slice(&[0x21, 0xF9, 0x04, 0x00, 0x07, 0x00, 0x00, 0x00]);
    data.extend_from_slice(&[0x2C, 0x00, 0x00, 0x00, 0x00, 0x01, 0x00, 0x01, 0x00, 0x00]);
    data.extend_from_slice(&[0x02, 0x02, 0x4C, 0x01, 0x00]);
    data.push(0x3B);
    let frames = load_image(&data).unwrap();
    assert_eq!(frames.len(), 2);
    assert_eq!(frames[0].image, vec![Pixel::Rgb(0, 0, 0)]);
    assert_eq!(frames[0].delay, 3);
    assert_eq!(frames[1].image, vec![Pixel::Rgb(255, 255, 255)]);
    assert_eq!(frames[1].delay, 7);
}
