use flutgif::frame::Frame;
use flutgif::pixel::Pixel;

fn lines_of(bytes: &[u8]) -> Vec<Vec<u8>> {
    let mut out: Vec<Vec<u8>> = Vec::new();
    let mut cur: Vec<u8> = Vec::new();
    for &b in bytes {
        cur.push(b);
        if b == b'\n' {
            out.push(cur);
            cur = Vec::new();
        }
    }
    assert!(cur.is_empty(), "trailing bytes without newline");
    out
}

#[test]
fn combine_covers_both_bounding_boxes() {
    let a = Frame {
        image: vec![Pixel::Rgb(1, 1, 1); 4],
        offset: (2, 3),
        size: (2, 2),
        delay: 7,
    };
    let b = Frame {
        image: vec![Pixel::Rgb(9, 9, 9); 1],
        offset: (5, 1),
        size: (1, 1),
        delay: 4,
    };
    let c = a.combine(&b, 0);
    // Union box of [2,4)x[3,5) and [5,6)x[1,2): offset (2,1), size (4,4).
    assert_eq!(c.offset, (2, 1));
    assert_eq!(c.size, (4, 4));
    assert!(c.size.0 >= a.size.0 && c.size.0 >= b.size.0);
    assert!(c.size.1 >= a.size.1 && c.size.1 >= b.size.1);
    assert_eq!(c.image.len(), 16);
    // The result inherits the overlay's delay.
    assert_eq!(c.delay, 4);
    // a's pixel at absolute (2,3) sits at local (0,2) of the merge.
    assert_eq!(c.image[2 * 4 + 0], Pixel::Rgb(1, 1, 1));
    // b's pixel at absolute (5,1) sits at local (3,0).
    assert_eq!(c.image[0 * 4 + 3], Pixel::Rgb(9, 9, 9));
    // Positions covered by neither input stay Empty.
    assert_eq!(c.image[0], Pixel::Empty);
}

#[test]
fn combine_applies_similarity_rule_on_overlap() {
    let a = Frame {
        image: vec![Pixel::Rgb(10, 10, 10)],
        offset: (0, 0),
        size: (1, 1),
        delay: 1,
    };
    let b = Frame {
        image: vec![Pixel::Rgb(12, 12, 12)],
        offset: (0, 0),
        size: (1, 1),
        delay: 2,
    };
    // Distance 2 is above threshold 1: the overlay wins.
    assert_eq!(a.combine(&b, 1).image[0], Pixel::Rgb(12, 12, 12));
    // Distance 2 is within threshold 100: suppressed as noise.
    assert_eq!(a.combine(&b, 100).image[0], Pixel::Rgb(10, 10, 10));
    // Empty never overwrites.
    let e = Frame {
        image: vec![Pixel::Empty],
        offset: (0, 0),
        size: (1, 1),
        delay: 2,
    };
    assert_eq!(a.combine(&e, 0).image[0], Pixel::Rgb(10, 10, 10));
}

#[test]
fn to_instructions_emits_row_major_draw_commands() {
    let f = Frame {
        image: vec![
            Pixel::Rgb(255, 0, 0),
            Pixel::Empty,
            Pixel::Rgb(0, 0, 255),
            Pixel::Rgb(255, 255, 255),
        ],
        offset: (3, 4),
        size: (2, 2),
        delay: 1,
    };
    let bytes = f.to_instructions(10, 20, false);
    let expected = b"PX 13 24 ff0000\nPX 13 25 0000ff\nPX 14 25 ffffff\n".to_vec();
    assert_eq!(bytes, expected);
}

#[test]
fn to_instructions_of_all_empty_frame_is_empty() {
    let f = Frame {
        image: vec![Pixel::Empty; 6],
        offset: (0, 0),
        size: (3, 2),
        delay: 1,
    };
    assert_eq!(f.to_instructions(0, 0, false).len(), 0);
    assert_eq!(f.to_instructions(0, 0, true).len(), 0);
}

#[test]
fn shuffled_instructions_are_a_permutation_of_the_row_major_ones() {
    let f = Frame {
        image: vec![
            Pixel::Rgb(1, 2, 3),
            Pixel::Rgb(4, 5, 6),
            Pixel::Rgb(7, 8, 9),
            Pixel::Rgb(10, 11, 12),
        ],
        offset: (0, 0),
        size: (2, 2),
        delay: 1,
    };
    let plain = f.to_instructions(0, 0, false);
    let shuffled = f.to_instructions(0, 0, true);
    assert_eq!(plain.len(), shuffled.len());
    let mut a = lines_of(&plain);
    let mut b = lines_of(&shuffled);
    assert_eq!(a.len(), 4);
    a.sort();
    b.sort();
    assert_eq!(a, b);
}
