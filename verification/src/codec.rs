//! Wire-format encoding: every non-`Empty` pixel becomes one ASCII draw
//! command `PX <x> <y> <rrggbb>\n` with decimal coordinates and six lowercase
//! hexadecimal color digits.

use vstd::prelude::*;
use vstd::arithmetic::div_mod::lemma_fundamental_div_mod;
use vstd::seq_lib::group_to_multiset_ensures;
use crate::frame::{Frame, FrameModel};
use crate::pixel::Pixel;
use crate::shuffling::shuffle;

verus! {

/// Decimal ASCII digits of `n`, most significant first, no leading zeros
/// (a single `0` for zero).
pub open spec fn dec_digits(n: nat) -> Seq<u8>
    decreases n,
{
    if n < 10 {
        seq![(48 + n) as u8]
    } else {
        dec_digits(n / 10) + seq![(48 + n % 10) as u8]
    }
}

/// One lowercase hexadecimal ASCII digit for a value below 16.
pub open spec fn hex_digit(d: int) -> u8 {
    if d < 10 {
        (48 + d) as u8
    } else {
        (87 + d) as u8
    }
}

/// Two lowercase hexadecimal ASCII digits of one byte.
pub open spec fn hex_byte(b: u8) -> Seq<u8> {
    seq![hex_digit(b as int / 16), hex_digit(b as int % 16)]
}

/// The six hexadecimal color digits of an RGB triple.
pub open spec fn hex_rgb(rgb: (u8, u8, u8)) -> Seq<u8> {
    hex_byte(rgb.0) + hex_byte(rgb.1) + hex_byte(rgb.2)
}

/// One whole draw command: `PX <x> <y> <rrggbb>\n`.
pub open spec fn px_line(x: int, y: int, rgb: (u8, u8, u8)) -> Seq<u8> {
    seq![80u8, 88u8, 32u8] + dec_digits(x as nat) + seq![32u8] + dec_digits(y as nat) + seq![32u8]
        + hex_rgb(rgb) + seq![10u8]
}

/// The bytes pixel `i` of frame `m` contributes, with the extra canvas
/// offset `(ox, oy)` added: nothing for `Empty`, one draw command otherwise.
pub open spec fn line_at(m: FrameModel, ox: int, oy: int, i: int) -> Seq<u8> {
    match m.image[i] {
        Pixel::Empty => Seq::empty(),
        Pixel::Rgb(r, g, b) => px_line(
            m.off_x + ox + i % m.w,
            m.off_y + oy + i / m.w,
            (r, g, b),
        ),
    }
}

/// The commands of the first `k` pixels of `m` in row-major order.
pub open spec fn frame_lines(m: FrameModel, ox: int, oy: int, k: int) -> Seq<u8>
    decreases k,
{
    if k <= 0 {
        Seq::empty()
    } else {
        frame_lines(m, ox, oy, k - 1) + line_at(m, ox, oy, k - 1)
    }
}

/// The commands of the pixels of `m` visited in the order given by the first
/// `k` entries of `ord`.
pub open spec fn lines_in_order(m: FrameModel, ord: Seq<usize>, ox: int, oy: int, k: int) -> Seq<
    u8,
>
    decreases k,
{
    if k <= 0 {
        Seq::empty()
    } else {
        lines_in_order(m, ord, ox, oy, k - 1) + line_at(m, ox, oy, ord[k - 1] as int)
    }
}

/// `ord` lists every pixel index below `n` exactly once.
pub open spec fn is_index_permutation(ord: Seq<usize>, n: int) -> bool {
    &&& ord.len() == n
    &&& forall|k: int| 0 <= k < n ==> 0 <= #[trigger] ord[k] < n
    &&& ord.no_duplicates()
}

/// A frame whose pixels are all `Empty` contributes no bytes, whatever
/// order its pixels are visited in.
pub proof fn lemma_lines_all_empty(m: FrameModel, ord: Seq<usize>, ox: int, oy: int, k: int)
    requires
        forall|i: int| 0 <= i < m.image.len() ==> m.image[i] is Empty,
        forall|j: int| 0 <= j < ord.len() ==> ord[j] < m.image.len(),
        k <= ord.len(),
    ensures
        lines_in_order(m, ord, ox, oy, k).len() == 0,
    decreases k,
{
    if k > 0 {
        lemma_lines_all_empty(m, ord, ox, oy, k - 1);
    }
}

/// Row-major encoding of an all-`Empty` frame is likewise empty.
pub proof fn lemma_frame_lines_all_empty(m: FrameModel, ox: int, oy: int, k: int)
    requires
        forall|i: int| 0 <= i < m.image.len() ==> m.image[i] is Empty,
        k <= m.image.len(),
    ensures
        frame_lines(m, ox, oy, k).len() == 0,
    decreases k,
{
    if k > 0 {
        lemma_frame_lines_all_empty(m, ox, oy, k - 1);
    }
}

/// A sequence whose multiset of elements matches the identity order on
/// `0 .. n` is itself a permutation of those indices.
proof fn lemma_multiset_index_permutation(ord: Seq<usize>, n: int)
    requires
        0 <= n <= usize::MAX,
        ord.to_multiset() == Seq::new(n as nat, |i: int| i as usize).to_multiset(),
    ensures
        is_index_permutation(ord, n),
{
    broadcast use group_to_multiset_ensures;

    let base = Seq::new(n as nat, |i: int| i as usize);
    assert(base.no_duplicates());
    base.lemma_multiset_has_no_duplicates();
    ord.lemma_multiset_has_no_duplicates_conv();
    assert(ord.len() == ord.to_multiset().len());
    assert(base.len() == base.to_multiset().len());
    assert forall|k: int| 0 <= k < n implies 0 <= #[trigger] ord[k] < n by {
        assert(ord.contains(ord[k]));
        assert(base.to_multiset().count(ord[k]) > 0);
        assert(base.contains(ord[k]));
        let j = choose|j: int| 0 <= j < base.len() && base[j] == ord[k];
        assert(base[j] == j as usize);
    }
}

impl Pixel {
    /// The fixed six-character lowercase hexadecimal form of an RGB triple.
    pub fn rgb_to_hex(rgb: (u8, u8, u8)) -> (r: [u8; 6])
        ensures
            r@ == hex_rgb(rgb),
    {
        let r = [
            hex_digit_of(rgb.0 / 16),
            hex_digit_of(rgb.0 % 16),
            hex_digit_of(rgb.1 / 16),
            hex_digit_of(rgb.1 % 16),
            hex_digit_of(rgb.2 / 16),
            hex_digit_of(rgb.2 % 16),
        ];
        assert(r@ =~= hex_rgb(rgb));
        r
    }
}

fn hex_digit_of(d: u8) -> (r: u8)
    requires
        d < 16,
    ensures
        r == hex_digit(d as int),
{
    if d < 10 {
        48 + d
    } else {
        87 + d
    }
}

/// Appends the decimal digits of `n` to `buf`.
fn push_dec(buf: &mut Vec<u8>, n: u32)
    ensures
        final(buf)@ == old(buf)@ + dec_digits(n as nat),
    decreases n,
{
    if n >= 10 {
        push_dec(buf, n / 10);
    }
    buf.push(48 + (n % 10) as u8);
    assert(buf@ =~= old(buf)@ + dec_digits(n as nat));
}

/// Appends one whole draw command for the pixel at absolute canvas position
/// `(x, y)` with color `rgb`.
pub(crate) fn push_px_line(buf: &mut Vec<u8>, x: u32, y: u32, rgb: (u8, u8, u8))
    ensures
        final(buf)@ == old(buf)@ + px_line(x as int, y as int, rgb),
{
    buf.push(80);
    buf.push(88);
    buf.push(32);
    push_dec(buf, x);
    buf.push(32);
    push_dec(buf, y);
    buf.push(32);
    buf.push(hex_digit_of(rgb.0 / 16));
    buf.push(hex_digit_of(rgb.0 % 16));
    buf.push(hex_digit_of(rgb.1 / 16));
    buf.push(hex_digit_of(rgb.1 % 16));
    buf.push(hex_digit_of(rgb.2 / 16));
    buf.push(hex_digit_of(rgb.2 % 16));
    buf.push(10);
    assert(buf@ =~= old(buf)@ + px_line(x as int, y as int, rgb));
}

impl Frame {
    /// Encodes the frame's non-`Empty` pixels as draw commands, adding
    /// `(off_x, off_y)` to every coordinate. Without shuffling the commands
    /// come in row-major pixel order; with shuffling the pixels are visited
    /// in a random permutation of their indices, and nothing is promised of
    /// which permutation. An all-`Empty` frame encodes to no bytes.
    pub fn to_instructions(&self, off_x: u32, off_y: u32, shuffled: bool) -> (r: Vec<u8>)
        requires
            self@.wf(),
            self@.off_x + off_x + self@.w <= u32::MAX,
            self@.off_y + off_y + self@.h <= u32::MAX,
        ensures
            !shuffled ==> r@ == frame_lines(
                self@,
                off_x as int,
                off_y as int,
                self@.image.len() as int,
            ),
            shuffled ==> exists|ord: Seq<usize>|
                #![auto]
                is_index_permutation(ord, self@.image.len() as int) && r@ == lines_in_order(
                    self@,
                    ord,
                    off_x as int,
                    off_y as int,
                    self@.image.len() as int,
                ),
            (forall|i: int| 0 <= i < self@.image.len() ==> self@.image[i] is Empty) ==> r@.len()
                == 0,
    {
        let n = self.image.len();
        if shuffled {
            let mut order: Vec<usize> = Vec::with_capacity(n);
            let mut k: usize = 0;
            while k < n
                invariant
                    k <= n,
                    order@.len() == k,
                    forall|j: int| 0 <= j < k ==> order@[j] == j,
                decreases n - k,
            {
                order.push(k);
                k += 1;
            }
            assert(order@ =~= Seq::new(n as nat, |i: int| i as usize));
            shuffle(&mut order);
            proof {
                lemma_multiset_index_permutation(order@, n as int);
            }
            let r = self.encode_in_order(&order, off_x, off_y);
            proof {
                let ord = order@;
                assert(is_index_permutation(ord, self@.image.len() as int) && r@
                    == lines_in_order(
                    self@,
                    ord,
                    off_x as int,
                    off_y as int,
                    self@.image.len() as int,
                ));
                if forall|i: int| 0 <= i < self@.image.len() ==> self@.image[i] is Empty {
                    lemma_lines_all_empty(
                        self@,
                        ord,
                        off_x as int,
                        off_y as int,
                        self@.image.len() as int,
                    );
                }
            }
            r
        } else {
            let r = self.encode_row_major(off_x, off_y);
            proof {
                if forall|i: int| 0 <= i < self@.image.len() ==> self@.image[i] is Empty {
                    lemma_frame_lines_all_empty(
                        self@,
                        off_x as int,
                        off_y as int,
                        self@.image.len() as int,
                    );
                }
            }
            r
        }
    }

    /// Encodes the non-`Empty` pixels in row-major order.
    fn encode_row_major(&self, off_x: u32, off_y: u32) -> (r: Vec<u8>)
        requires
            self@.wf(),
            self@.off_x + off_x + self@.w <= u32::MAX,
            self@.off_y + off_y + self@.h <= u32::MAX,
        ensures
            r@ == frame_lines(self@, off_x as int, off_y as int, self@.image.len() as int),
    {
        let n = self.image.len();
        let mut buf: Vec<u8> = Vec::new();
        let mut i: usize = 0;
        while i < n
            invariant
                self@.wf(),
                self@.off_x + off_x + self@.w <= u32::MAX,
                self@.off_y + off_y + self@.h <= u32::MAX,
                n == self@.image.len(),
                i <= n,
                buf@ == frame_lines(self@, off_x as int, off_y as int, i as int),
            decreases n - i,
        {
            self.encode_pixel(&mut buf, i, off_x, off_y);
            i += 1;
        }
        buf
    }

    /// Encodes the non-`Empty` pixels in the order listed by `order`.
    fn encode_in_order(&self, order: &Vec<usize>, off_x: u32, off_y: u32) -> (r: Vec<u8>)
        requires
            self@.wf(),
            self@.off_x + off_x + self@.w <= u32::MAX,
            self@.off_y + off_y + self@.h <= u32::MAX,
            forall|k: int| 0 <= k < order@.len() ==> #[trigger] order@[k] < self@.image.len(),
        ensures
            r@ == lines_in_order(
                self@,
                order@,
                off_x as int,
                off_y as int,
                order@.len() as int,
            ),
    {
        let n = order.len();
        let mut buf: Vec<u8> = Vec::new();
        let mut k: usize = 0;
        while k < n
            invariant
                self@.wf(),
                self@.off_x + off_x + self@.w <= u32::MAX,
                self@.off_y + off_y + self@.h <= u32::MAX,
                n == order@.len(),
                forall|j: int| 0 <= j < order@.len() ==> #[trigger] order@[j] < self@.image.len(),
                k <= n,
                buf@ == lines_in_order(self@, order@, off_x as int, off_y as int, k as int),
            decreases n - k,
        {
            self.encode_pixel(&mut buf, order[k], off_x, off_y);
            k += 1;
        }
        buf
    }

    /// Appends the draw command of pixel `i`, or nothing if it is `Empty`.
    fn encode_pixel(&self, buf: &mut Vec<u8>, i: usize, off_x: u32, off_y: u32)
        requires
            self@.wf(),
            self@.off_x + off_x + self@.w <= u32::MAX,
            self@.off_y + off_y + self@.h <= u32::MAX,
            i < self@.image.len(),
        ensures
            final(buf)@ == old(buf)@ + line_at(self@, off_x as int, off_y as int, i as int),
    {
        let w = self.size.0;
        assert(w > 0) by {
            if self@.w == 0 {
                assert(self@.w * self@.h == 0);
            }
        }
        let lx = i % (w as usize);
        let ly = i / (w as usize);
        proof {
            lemma_fundamental_div_mod(i as int, w as int);
        }
        assert(ly < self@.h) by (nonlinear_arith)
            requires
                i < self@.image.len(),
                self@.image.len() == self@.w * self@.h,
                i as int == (self@.w) * (ly as int) + (lx as int),
                w as int == self@.w,
                0 <= lx < self@.w,
                0 <= ly,
        ;
        match self.image[i] {
            Pixel::Empty => {
                assert(buf@ =~= old(buf)@ + line_at(
                    self@,
                    off_x as int,
                    off_y as int,
                    i as int,
                ));
            },
            Pixel::Rgb(r, g, b) => {
                let x = self.offset.0 + off_x + (lx as u32);
                let y = self.offset.1 + off_y + (ly as u32);
                push_px_line(buf, x, y, (r, g, b));
            },
        }
    }
}

} // verus!
