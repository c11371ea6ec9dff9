use vstd::prelude::*;
use vstd::arithmetic::div_mod::{lemma_fundamental_div_mod, lemma_fundamental_div_mod_converse};

use crate::geometry::Rgba;

verus! {

/// Bytes per pixel of the RGBA textures handed to the backend.
pub const BYTES_PER_PIXEL: usize = 4;

/// A rectangle of texture pixels, `min` inclusive and `max` exclusive.
#[derive(Clone, Copy, Debug, PartialEq, Eq, Structural)]
pub struct Rect {
    pub min_x: u32,
    pub min_y: u32,
    pub max_x: u32,
    pub max_y: u32,
}

/// The bytes handed in do not match the rectangle they are meant for: their
/// count differs from its pixel count, or it does not lie in the texture.
#[derive(Clone, Copy, Debug, PartialEq, Eq, Structural)]
pub struct SizeMismatch {}

impl SizeMismatch {
    pub fn message(&self) -> (r: &'static str) {
        "Out of Bounds"
    }
}

pub open spec fn rect_width(r: Rect) -> int {
    r.max_x - r.min_x
}

pub open spec fn rect_height(r: Rect) -> int {
    r.max_y - r.min_y
}

/// The rectangle is ordered and lies inside a `w` by `h` texture.
pub open spec fn rect_fits(r: Rect, w: int, h: int) -> bool {
    r.min_x <= r.max_x <= w && r.min_y <= r.max_y <= h
}

/// An update of `n` bytes over `r` is taken by a `w` by `h` texture.
pub open spec fn update_accepted(w: int, h: int, r: Rect, n: int) -> bool {
    rect_fits(r, w, h) && n == rect_width(r) * rect_height(r)
}

/// The rectangle that covers a whole `w` by `h` texture.
pub open spec fn full_rect(w: u32, h: u32) -> Rect {
    Rect { min_x: 0, min_y: 0, max_x: w, max_y: h }
}

pub open spec fn in_rect(r: Rect, x: int, y: int) -> bool {
    r.min_x <= x < r.max_x && r.min_y <= y < r.max_y
}

/// Where the byte for pixel `(x, y)` sits in the row-major bytes of `r`.
pub open spec fn rect_offset(r: Rect, x: int, y: int) -> int {
    (y - r.min_y) * rect_width(r) + (x - r.min_x)
}

/// The buffer `old` of a texture `w` pixels wide, with the pixels of `r` taken
/// from `data` and the others kept.
pub open spec fn spliced(old: Seq<u8>, w: int, r: Rect, data: Seq<u8>) -> Seq<u8> {
    Seq::new(
        old.len(),
        |i: int|
            if in_rect(r, i % w, i / w) {
                data[rect_offset(r, i % w, i / w)]
            } else {
                old[i]
            },
    )
}

/// The RGBA bytes of a color whose alpha is taken from each byte of `alpha`.
pub open spec fn colorized(color: Rgba, alpha: Seq<u8>) -> Seq<u8> {
    Seq::new(
        (4 * alpha.len()) as nat,
        |j: int|
            if j % 4 == 0 {
                color.r
            } else if j % 4 == 1 {
                color.g
            } else if j % 4 == 2 {
                color.b
            } else {
                alpha[j / 4]
            },
    )
}

/// A CPU-side single-channel (alpha) copy of a backend texture.
#[derive(Debug)]
pub struct LazyTexture {
    pub raw_data: Vec<u8>,
    pub tex_dims: (u32, u32),
}

proof fn lemma_cell_in_bounds(a: int, b: int, h: int, w: int)
    requires
        0 <= a < h,
        0 <= b < w,
    ensures
        0 <= a * w + b < h * w,
{
    assert(a * w + b < h * w) by (nonlinear_arith)
        requires
            0 <= a < h,
            0 <= b < w,
    ;
    assert(0 <= a * w) by (nonlinear_arith)
        requires
            0 <= a,
            0 <= w,
    ;
}

/// The product of two `u32` values fits a `u64`.
pub proof fn lemma_u32_product_fits(a: u32, b: u32)
    ensures
        (a as int) * (b as int) <= u64::MAX,
{
    assert((a as int) * (b as int) <= 0xffff_ffffint * 0xffff_ffffint) by (nonlinear_arith)
        requires
            0 <= a <= 0xffff_ffffint,
            0 <= b <= 0xffff_ffffint,
    ;
}

impl LazyTexture {
    /// The buffer holds one byte per pixel.
    pub open spec fn wf(&self) -> bool {
        self.raw_data@.len() == self.tex_dims.0 as int * self.tex_dims.1 as int
    }

    /// A texture of 0 by 0 pixels.
    pub fn new_empty() -> (r: LazyTexture)
        ensures
            r.wf(),
            r.tex_dims == (0u32, 0u32),
            r.raw_data@.len() == 0,
    {
        LazyTexture { raw_data: Vec::new(), tex_dims: (0, 0) }
    }

    pub fn width(&self) -> (r: u32)
        ensures
            r == self.tex_dims.0,
    {
        self.tex_dims.0
    }

    pub fn height(&self) -> (r: u32)
        ensures
            r == self.tex_dims.1,
    {
        self.tex_dims.1
    }

    /// Gives the texture new dimensions; every pixel is then transparent, the
    /// old content is dropped.
    pub fn resize(&mut self, dims: (u32, u32))
        requires
            dims.0 as int * dims.1 as int <= isize::MAX,
        ensures
            final(self).wf(),
            final(self).tex_dims == dims,
            final(self).raw_data@ == Seq::new((dims.0 * dims.1) as nat, |i: int| 0u8),
    {
        let n: usize = (dims.0 as u64 * dims.1 as u64) as usize;
        let mut data: Vec<u8> = Vec::new();
        let mut i: usize = 0;
        while i < n
            invariant
                0 <= i <= n,
                n == dims.0 as int * dims.1 as int,
                data@ =~= Seq::new(i as nat, |k: int| 0u8),
            decreases n - i,
        {
            data.push(0);
            i = i + 1;
            assert(data@ =~= Seq::new(i as nat, |k: int| 0u8));
        }
        self.raw_data = data;
        self.tex_dims = dims;
    }

    /// Writes the row-major bytes `tex_data` over the pixels of `rect`, and
    /// nothing else. Where the count of bytes is not the rectangle's pixel
    /// count, or the rectangle does not lie in the texture, nothing is written.
    #[verifier::rlimit(40)]
    pub fn lazy_update(&mut self, rect: Rect, tex_data: &[u8]) -> (r: Result<(), SizeMismatch>)
        requires
            old(self).wf(),
        ensures
            final(self).wf(),
            final(self).tex_dims == old(self).tex_dims,
            r.is_ok() <==> update_accepted(
                old(self).tex_dims.0 as int,
                old(self).tex_dims.1 as int,
                rect,
                tex_data@.len() as int,
            ),
            r.is_ok() ==> final(self).raw_data@ == spliced(
                old(self).raw_data@,
                old(self).tex_dims.0 as int,
                rect,
                tex_data@,
            ),
            r.is_err() ==> final(self).raw_data@ == old(self).raw_data@,
    {
        let w = self.tex_dims.0;
        let h = self.tex_dims.1;
        if !(rect.min_x <= rect.max_x && rect.max_x <= w && rect.min_y <= rect.max_y && rect.max_y
            <= h) {
            return Err(SizeMismatch {  });
        }
        let rw: u32 = rect.max_x - rect.min_x;
        let rh: u32 = rect.max_y - rect.min_y;
        proof {
            lemma_u32_product_fits(rw, rh);
        }
        if tex_data.len() as u64 != rw as u64 * rh as u64 {
            return Err(SizeMismatch {  });
        }
        let total = self.raw_data.len();
        let dlen = tex_data.len();
        let ghost old_data = self.raw_data@;
        let ghost wi = w as int;
        let ghost len = old_data.len();
        let mut row: u32 = 0;
        while row < rh
            invariant
                self.wf(),
                self.tex_dims == old(self).tex_dims,
                w == self.tex_dims.0,
                h == self.tex_dims.1,
                wi == w as int,
                old_data == old(self).raw_data@,
                len == old_data.len(),
                rect_fits(rect, w as int, h as int),
                rw == rect_width(rect),
                rh == rect_height(rect),
                tex_data@.len() == rw * rh,
                0 <= row <= rh,
                self.raw_data@.len() == len,
                total == len,
                dlen == tex_data@.len(),
                forall|i: int|
                    0 <= i < len ==> #[trigger] self.raw_data@[i] == if in_rect(rect, i % wi, i / wi)
                        && i / wi - rect.min_y < row {
                        tex_data@[rect_offset(rect, i % wi, i / wi)]
                    } else {
                        old_data[i]
                    },
            decreases rh - row,
        {
            let mut col: u32 = 0;
            while col < rw
                invariant
                    self.wf(),
                    self.tex_dims == old(self).tex_dims,
                    w == self.tex_dims.0,
                    h == self.tex_dims.1,
                    wi == w as int,
                    old_data == old(self).raw_data@,
                    len == old_data.len(),
                    rect_fits(rect, w as int, h as int),
                    rw == rect_width(rect),
                    rh == rect_height(rect),
                    tex_data@.len() == rw * rh,
                    0 <= row < rh,
                    0 <= col <= rw,
                    self.raw_data@.len() == len,
                    total == len,
                dlen == tex_data@.len(),
                    forall|i: int|
                        0 <= i < len ==> #[trigger] self.raw_data@[i] == if in_rect(
                            rect,
                            i % wi,
                            i / wi,
                        ) && (i / wi - rect.min_y < row || (i / wi - rect.min_y == row && i % wi
                            - rect.min_x < col)) {
                            tex_data@[rect_offset(rect, i % wi, i / wi)]
                        } else {
                            old_data[i]
                        },
                decreases rw - col,
            {
                let y: u32 = rect.min_y + row;
                let x: u32 = rect.min_x + col;
                proof {
                    lemma_cell_in_bounds(y as int, x as int, h as int, w as int);
                    lemma_cell_in_bounds(row as int, col as int, rh as int, rw as int);
                }
                let idx: usize = (y as u64 * w as u64 + x as u64) as usize;
                let src: usize = row as usize * rw as usize + col as usize;
                let v = tex_data[src];
                let ghost before = self.raw_data@;
                self.raw_data.set(idx, v);
                proof {
                    lemma_fundamental_div_mod_converse(idx as int, wi, y as int, x as int);
                    assert forall|i: int| 0 <= i < len implies #[trigger] self.raw_data@[i] == if in_rect(
                        rect,
                        i % wi,
                        i / wi,
                    ) && (i / wi - rect.min_y < row || (i / wi - rect.min_y == row && i % wi
                        - rect.min_x < col + 1)) {
                        tex_data@[rect_offset(rect, i % wi, i / wi)]
                    } else {
                        old_data[i]
                    } by {
                        if i != idx {
                            lemma_fundamental_div_mod(i, wi);
                            assert(before[i] == self.raw_data@[i]);
                            if i / wi == y as int && i % wi == x as int {
                                assert(i == wi * (i / wi) + i % wi);
                                assert(wi * (i / wi) == (y as int) * wi) by (nonlinear_arith)
                                    requires
                                        i / wi == y as int,
                                ;
                            }
                        }
                    }
                }
                col = col + 1;
            }
            row = row + 1;
        }
        proof {
            assert(self.raw_data@ =~= spliced(old_data, wi, rect, tex_data@));
        }
        Ok(())
    }

    /// The texture as RGBA bytes: each pixel has the color's red, green and
    /// blue, and the stored alpha.
    pub fn materialize(&self, color: Rgba) -> (r: Vec<u8>)
        ensures
            r@ == colorized(color, self.raw_data@),
    {
        let mut out: Vec<u8> = Vec::new();
        let mut i: usize = 0;
        while i < self.raw_data.len()
            invariant
                0 <= i <= self.raw_data@.len(),
                out@ =~= colorized(color, self.raw_data@.take(i as int)),
            decreases self.raw_data@.len() - i,
        {
            out.push(color.r);
            out.push(color.g);
            out.push(color.b);
            out.push(self.raw_data[i]);
            i = i + 1;
            assert(out@ =~= colorized(color, self.raw_data@.take(i as int)));
        }
        assert(self.raw_data@.take(i as int) =~= self.raw_data@);
        out
    }

    /// Row stride in bytes of the RGBA form of a rectangle `width` pixels wide.
    pub fn pitch(width: u32) -> (r: u64)
        ensures
            r == BYTES_PER_PIXEL * width,
    {
        let bpp: u64 = BYTES_PER_PIXEL as u64;
        assert(bpp == 4);
        bpp * width as u64
    }
}

/// After a resize to `w` by `h`, an update of the whole texture with `w * h`
/// bytes is taken, and the buffer then holds exactly those bytes.
pub proof fn lemma_full_update_after_resize(w: u32, h: u32, old: Seq<u8>, data: Seq<u8>)
    requires
        old.len() == w as int * h as int,
        data.len() == w as int * h as int,
    ensures
        update_accepted(w as int, h as int, full_rect(w, h), data.len() as int),
        spliced(old, w as int, full_rect(w, h), data) == data,
{
    let r = full_rect(w, h);
    let wi = w as int;
    let s = spliced(old, wi, r, data);
    assert forall|i: int| 0 <= i < old.len() implies #[trigger] s[i] == data[i] by {
        lemma_fundamental_div_mod(i, wi);
        let q = i / wi;
        let m = i % wi;
        assert(0 <= m < wi && 0 <= q);
        if q >= h as int {
            assert(wi * q >= wi * (h as int)) by (nonlinear_arith)
                requires
                    q >= h as int,
                    wi >= 0,
            ;
            assert(false);
        }
        assert(rect_offset(r, m, q) == q * wi + m);
        assert(q * wi == wi * q) by (nonlinear_arith);
    }
    assert(s =~= data);
}

/// An update whose byte count differs from its rectangle's pixel count is
/// refused, whatever the texture; a refused update leaves the buffer as it was.
pub proof fn lemma_mismatch_refused(w: int, h: int, r: Rect, n: int)
    requires
        n != rect_width(r) * rect_height(r),
    ensures
        !update_accepted(w, h, r, n),
{
}

proof fn lemma_colorized_pixel(color: Rgba, alpha: Seq<u8>, i: int)
    requires
        0 <= i < alpha.len(),
    ensures
        colorized(color, alpha)[4 * i] == color.r,
        colorized(color, alpha)[4 * i + 1] == color.g,
        colorized(color, alpha)[4 * i + 2] == color.b,
        colorized(color, alpha)[4 * i + 3] == alpha[i],
{
    assert((4 * i) % 4 == 0);
    assert((4 * i + 1) % 4 == 1);
    assert((4 * i + 2) % 4 == 2);
    assert((4 * i + 3) % 4 == 3);
    assert((4 * i + 3) / 4 == i);
}

/// An alpha buffer of zeros gives fully transparent pixels; one of 0xFF gives
/// opaque pixels of the foreground color.
pub proof fn lemma_colorized_extremes(color: Rgba, alpha: Seq<u8>)
    ensures
        (forall|k: int| 0 <= k < alpha.len() ==> alpha[k] == 0u8) ==> forall|i: int|
            0 <= i < alpha.len() ==> #[trigger] colorized(color, alpha)[4 * i + 3] == 0u8,
        (forall|k: int| 0 <= k < alpha.len() ==> alpha[k] == 0xffu8) ==> forall|i: int|
            0 <= i < alpha.len() ==> {
                &&& #[trigger] colorized(color, alpha)[4 * i] == color.r
                &&& colorized(color, alpha)[4 * i + 1] == color.g
                &&& colorized(color, alpha)[4 * i + 2] == color.b
                &&& colorized(color, alpha)[4 * i + 3] == 0xffu8
            },
{
    if forall|k: int| 0 <= k < alpha.len() ==> alpha[k] == 0u8 {
        assert forall|i: int| 0 <= i < alpha.len() implies #[trigger] colorized(color, alpha)[4 * i
            + 3] == 0u8 by {
            lemma_colorized_pixel(color, alpha, i);
        }
    }
    if forall|k: int| 0 <= k < alpha.len() ==> alpha[k] == 0xffu8 {
        assert forall|i: int| 0 <= i < alpha.len() implies {
            &&& #[trigger] colorized(color, alpha)[4 * i] == color.r
            &&& colorized(color, alpha)[4 * i + 1] == color.g
            &&& colorized(color, alpha)[4 * i + 2] == color.b
            &&& colorized(color, alpha)[4 * i + 3] == 0xffu8
        } by {
            lemma_colorized_pixel(color, alpha, i);
        }
    }
}

} // verus!
