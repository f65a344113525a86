//! A positioned, sized raster of pixels plus a display delay, and the
//! bounding-box-union merge of two frames.

use vstd::prelude::*;
use crate::pixel::{Pixel, combine_spec};
use vstd::arithmetic::div_mod::lemma_fundamental_div_mod;
use vstd::arithmetic::mul::lemma_mul_nonnegative;

verus! {

/// Mathematical model of a frame: a row-major pixel grid of size `w × h`
/// whose top-left corner sits at absolute canvas position `(off_x, off_y)`,
/// displayed for `delay` hundredths of a second.
pub struct FrameModel {
    pub image: Seq<Pixel>,
    pub off_x: int,
    pub off_y: int,
    pub w: int,
    pub h: int,
    pub delay: int,
}

impl FrameModel {
    /// Well-formedness: the grid has exactly `w * h` pixels and the frame
    /// fits on the `u32`-addressed canvas.
    pub open spec fn wf(self) -> bool {
        &&& 0 <= self.off_x
        &&& 0 <= self.off_y
        &&& 0 <= self.w
        &&& 0 <= self.h
        &&& self.image.len() == self.w * self.h
        &&& self.off_x + self.w <= u32::MAX
        &&& self.off_y + self.h <= u32::MAX
        &&& 0 <= self.delay <= u16::MAX
    }

    /// True when absolute canvas position `(x, y)` falls inside this
    /// frame's bounding box.
    pub open spec fn in_box(self, x: int, y: int) -> bool {
        self.off_x <= x < self.off_x + self.w && self.off_y <= y < self.off_y + self.h
    }

    /// The pixel this frame puts at absolute canvas position `(x, y)`:
    /// `Empty` everywhere outside its bounding box.
    pub open spec fn pixel_at(self, x: int, y: int) -> Pixel {
        if self.in_box(x, y) {
            self.image[(y - self.off_y) * self.w + (x - self.off_x)]
        } else {
            Pixel::Empty
        }
    }

    /// True when `other`'s bounding box lies inside this frame's bounding box.
    pub open spec fn contains_box(self, other: FrameModel) -> bool {
        &&& self.off_x <= other.off_x
        &&& self.off_y <= other.off_y
        &&& other.off_x + other.w <= self.off_x + self.w
        &&& other.off_y + other.h <= self.off_y + self.h
    }
}

/// The pixel the merge of `a` (base) and `b` (overlay) shows at absolute
/// position `(x, y)`: `b`'s contribution is merged over `a`'s under the
/// similarity threshold.
pub open spec fn combine_pixel_at(a: FrameModel, b: FrameModel, t: u32, x: int, y: int) -> Pixel {
    combine_spec(a.pixel_at(x, y), b.pixel_at(x, y), t)
}

/// Bounding-box union merge of two frames: the smallest box covering both,
/// each cell merged pointwise, the delay inherited from `b`.
pub open spec fn combine_model(a: FrameModel, b: FrameModel, t: u32) -> FrameModel {
    let off_x = if a.off_x <= b.off_x {
        a.off_x
    } else {
        b.off_x
    };
    let off_y = if a.off_y <= b.off_y {
        a.off_y
    } else {
        b.off_y
    };
    let end_x = if a.off_x + a.w >= b.off_x + b.w {
        a.off_x + a.w
    } else {
        b.off_x + b.w
    };
    let end_y = if a.off_y + a.h >= b.off_y + b.h {
        a.off_y + a.h
    } else {
        b.off_y + b.h
    };
    let w = end_x - off_x;
    let h = end_y - off_y;
    FrameModel {
        image: Seq::new(
            (w * h) as nat,
            |i: int| combine_pixel_at(a, b, t, off_x + i % w, off_y + i / w),
        ),
        off_x,
        off_y,
        w,
        h,
        delay: b.delay,
    }
}

/// One raster at a point in time. `image` is row-major with
/// `image.len() == size.0 * size.1`; `offset` is the absolute canvas
/// position of the top-left corner; `delay` is in hundredths of a second.
#[derive(Debug)]
pub struct Frame {
    pub image: Vec<Pixel>,
    pub offset: (u32, u32),
    pub size: (u32, u32),
    pub delay: u16,
}

impl Clone for Frame {
    fn clone(&self) -> (r: Self)
        ensures
            r@ == self@,
    {
        let mut image: Vec<Pixel> = Vec::with_capacity(self.image.len());
        let mut i: usize = 0;
        while i < self.image.len()
            invariant
                i <= self.image.len(),
                image@.len() == i,
                forall|j: int| 0 <= j < i ==> image@[j] == self.image@[j],
            decreases self.image.len() - i,
        {
            image.push(self.image[i]);
            i += 1;
        }
        let r = Frame {
            image,
            offset: (self.offset.0, self.offset.1),
            size: (self.size.0, self.size.1),
            delay: self.delay,
        };
        assert(r@.image =~= self@.image);
        r
    }
}

impl View for Frame {
    type V = FrameModel;

    open spec fn view(&self) -> FrameModel {
        FrameModel {
            image: self.image@,
            off_x: self.offset.0 as int,
            off_y: self.offset.1 as int,
            w: self.size.0 as int,
            h: self.size.1 as int,
            delay: self.delay as int,
        }
    }
}

/// The merged frame is well formed, its bounding box contains both inputs'
/// boxes (so its sizes are component-wise at least theirs), and it inherits
/// `b`'s delay.
pub proof fn lemma_combine_box(a: FrameModel, b: FrameModel, t: u32)
    requires
        a.wf(),
        b.wf(),
    ensures
        combine_model(a, b, t).wf(),
        combine_model(a, b, t).contains_box(a),
        combine_model(a, b, t).contains_box(b),
        combine_model(a, b, t).w >= a.w,
        combine_model(a, b, t).w >= b.w,
        combine_model(a, b, t).h >= a.h,
        combine_model(a, b, t).h >= b.h,
        combine_model(a, b, t).delay == b.delay,
{
    let c = combine_model(a, b, t);
    lemma_mul_nonnegative(c.w, c.h);
}

impl Frame {
    /// The pixel this frame puts at absolute canvas position `(x, y)`.
    pub fn pixel_at_abs(&self, x: u32, y: u32) -> (p: Pixel)
        requires
            self@.wf(),
        ensures
            p == self@.pixel_at(x as int, y as int),
    {
        if self.offset.0 <= x && x - self.offset.0 < self.size.0 && self.offset.1 <= y && y
            - self.offset.1 < self.size.1 {
            let lx = (x - self.offset.0) as usize;
            let ly = (y - self.offset.1) as usize;
            let n = self.image.len();
            assert(0 <= ly * (self.size.0 as int) + lx < self.size.0 * self.size.1)
                by (nonlinear_arith)
                requires
                    0 <= lx < self.size.0 as int,
                    0 <= ly < self.size.1 as int,
            ;
            assert(ly * (self.size.0 as int) + lx < n);
            self.image[ly * (self.size.0 as usize) + lx]
        } else {
            Pixel::Empty
        }
    }

    /// Bounding-box union merge; see [`combine_model`]. The result covers
    /// both inputs' boxes, merges every cell pointwise under the similarity
    /// threshold, and inherits `other`'s delay.
    pub fn combine(&self, other: &Self, similarity: u32) -> (r: Self)
        requires
            self@.wf(),
            other@.wf(),
            combine_model(self@, other@, similarity).image.len() <= usize::MAX,
        ensures
            r@ == combine_model(self@, other@, similarity),
            r@.wf(),
    {
        let ghost c = combine_model(self@, other@, similarity);
        proof {
            lemma_combine_box(self@, other@, similarity);
        }
        let new_off_x = if self.offset.0 <= other.offset.0 {
            self.offset.0
        } else {
            other.offset.0
        };
        let new_off_y = if self.offset.1 <= other.offset.1 {
            self.offset.1
        } else {
            other.offset.1
        };
        let self_end_x = self.offset.0 + self.size.0;
        let self_end_y = self.offset.1 + self.size.1;
        let other_end_x = other.offset.0 + other.size.0;
        let other_end_y = other.offset.1 + other.size.1;
        let new_end_x = if self_end_x >= other_end_x {
            self_end_x
        } else {
            other_end_x
        };
        let new_end_y = if self_end_y >= other_end_y {
            self_end_y
        } else {
            other_end_y
        };
        let new_w = new_end_x - new_off_x;
        let new_h = new_end_y - new_off_y;
        assert(new_w == c.w && new_h == c.h && new_off_x == c.off_x && new_off_y == c.off_y);
        assert(c.w * c.h == c.image.len());
        let total = (new_w as usize) * (new_h as usize);
        let mut image: Vec<Pixel> = Vec::with_capacity(total);
        let mut i: usize = 0;
        while i < total
            invariant
                self@.wf(),
                other@.wf(),
                c == combine_model(self@, other@, similarity),
                c.wf(),
                new_off_x == c.off_x,
                new_off_y == c.off_y,
                new_w == c.w,
                new_h == c.h,
                total == c.image.len(),
                i <= total,
                image@.len() == i,
                forall|j: int| 0 <= j < i ==> image@[j] == c.image[j],
            decreases total - i,
        {
            assert(new_w > 0) by {
                if c.w == 0 {
                    assert(c.w * c.h == 0);
                }
            }
            let lx = i % (new_w as usize);
            let ly = i / (new_w as usize);
            proof {
                lemma_fundamental_div_mod(i as int, new_w as int);
            }
            assert(ly < new_h) by (nonlinear_arith)
                requires
                    i < total,
                    total == (new_w as int) * (new_h as int),
                    i as int == (new_w as int) * (ly as int) + (lx as int),
                    0 <= lx < new_w as int,
                    0 <= ly,
            ;
            let x = new_off_x + (lx as u32);
            let y = new_off_y + (ly as u32);
            let base = self.pixel_at_abs(x, y);
            let over = other.pixel_at_abs(x, y);
            image.push(base.combine(over, similarity));
            proof {
                assert(lx as int == (i as int) % (c.w as int));
                assert(ly as int == (i as int) / (c.w as int));
                assert(image@[i as int] == c.image[i as int]);
            }
            i += 1;
        }
        let r = Frame {
            image,
            offset: (new_off_x, new_off_y),
            size: (new_w, new_h),
            delay: other.delay,
        };
        assert(r@.image =~= c.image);
        assert(r@ == c);
        r
    }
}

} // verus!
