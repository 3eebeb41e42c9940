//! The pixel buffer that overlay elements draw into.

use vstd::prelude::*;

verus! {

/// A rectangle of packed colours, stored row by row.
#[derive(Debug)]
pub struct RenderBuffer {
    pub buffer: Vec<u32>,
    pub width: usize,
    pub height: usize,
}

/// The position in the buffer of the pixel in column `x` of row `y`.
pub open spec fn offset_of(width: int, x: int, y: int) -> int {
    y * width + x
}

/// The colour of the pixel in column `x` of row `y`.
pub open spec fn pixel_at(buffer: Seq<u32>, width: int, x: int, y: int) -> u32 {
    buffer[offset_of(width, x, y)]
}

/// A pixel inside a `width` by `height` rectangle has its offset inside it,
/// and two different pixels have different offsets.
pub proof fn lemma_offsets(width: int, height: int, x: int, y: int, x2: int, y2: int)
    requires
        0 <= x < width,
        0 <= y < height,
        0 <= x2 < width,
        0 <= y2 < height,
    ensures
        0 <= offset_of(width, x, y) < width * height,
        offset_of(width, x, y) == offset_of(width, x2, y2) ==> x == x2 && y == y2,
{
    assert(0 <= y * width) by (nonlinear_arith)
        requires
            0 <= y,
            0 <= width,
    ;
    assert(y * width + width <= height * width) by (nonlinear_arith)
        requires
            0 <= y < height,
            0 <= width,
    ;
    assert(height * width == width * height) by (nonlinear_arith);
    if y < y2 {
        assert(y * width + width <= y2 * width) by (nonlinear_arith)
            requires
                y + 1 <= y2,
                0 <= width,
        ;
    }
    if y2 < y {
        assert(y2 * width + width <= y * width) by (nonlinear_arith)
            requires
                y2 + 1 <= y,
                0 <= width,
        ;
    }
}

impl RenderBuffer {
    /// The buffer holds one colour for each pixel.
    pub open spec fn wf(&self) -> bool {
        self.buffer@.len() == self.width * self.height
    }

    /// The pixel in column `px` of row `py` lies in the buffer and in the
    /// block of `width` by `height` pixels whose corner is at `pos_x`,
    /// `pos_y`.
    pub open spec fn in_block(
        &self,
        pos_x: u32,
        pos_y: u32,
        width: u32,
        height: u32,
        px: int,
        py: int,
    ) -> bool {
        &&& pos_x <= px < pos_x + width
        &&& pos_y <= py < pos_y + height
        &&& px < self.width
        &&& py < self.height
    }

    /// A buffer of `width` by `height` pixels, all zero.
    pub fn new(width: usize, height: usize) -> (b: RenderBuffer)
        requires
            width * height <= usize::MAX,
        ensures
            b.wf(),
            b.width == width,
            b.height == height,
            forall|i: int| 0 <= i < b.buffer@.len() ==> b.buffer@[i] == 0u32,
    {
        RenderBuffer { buffer: vec![0u32; width * height], width, height }
    }

    /// Replaces every pixel of the block that lies in the buffer by what
    /// `func` makes of it. `func` is given the pixel's column and row in the
    /// buffer, its column and row in the block, and its colour; pixels are
    /// visited row by row. Pixels outside the block keep their colour.
    pub fn for_pixel_in_block<F: Fn(u32, u32, u32, u32, u32) -> u32>(
        &mut self,
        pos_x: u32,
        pos_y: u32,
        width: u32,
        height: u32,
        func: F,
    )
        requires
            old(self).wf(),
            old(self).width <= u32::MAX,
            old(self).height <= u32::MAX,
            forall|px: u32, py: u32, x: u32, y: u32, c: u32| #[trigger]
                call_requires(func, (px, py, x, y, c)),
        ensures
            final(self).wf(),
            final(self).width == old(self).width,
            final(self).height == old(self).height,
            forall|px: int, py: int|
                old(self).in_block(pos_x, pos_y, width, height, px, py) ==> call_ensures(
                    func,
                    (
                        px as u32,
                        py as u32,
                        (px - pos_x) as u32,
                        (py - pos_y) as u32,
                        pixel_at(old(self).buffer@, old(self).width as int, px, py),
                    ),
                    #[trigger] pixel_at(final(self).buffer@, old(self).width as int, px, py),
                ),
            forall|px: int, py: int|
                0 <= px < old(self).width && 0 <= py < old(self).height && !old(self).in_block(
                    pos_x,
                    pos_y,
                    width,
                    height,
                    px,
                    py,
                ) ==> #[trigger] pixel_at(final(self).buffer@, old(self).width as int, px, py)
                    == pixel_at(old(self).buffer@, old(self).width as int, px, py),
    {
        let ghost start = self.buffer@;
        let w: usize = self.width;
        let h: usize = self.height;
        let len: usize = self.buffer.len();
        let mut y: u32 = 0;
        while y < height
            invariant
                self.buffer@.len() == w * h,
                len == w * h,
                start.len() == w * h,
                self.width == w,
                self.height == h,
                *old(self) == (RenderBuffer { buffer: old(self).buffer, width: w, height: h }),
                w <= u32::MAX,
                h <= u32::MAX,
                y <= height,
                forall|px: u32, py: u32, x: u32, y: u32, c: u32| #[trigger]
                    call_requires(func, (px, py, x, y, c)),
                forall|qx: int, qy: int|
                    visited(w as int, h as int, pos_x, pos_y, width, y as int, 0, qx, qy)
                        ==> call_ensures(
                        func,
                        (
                            qx as u32,
                            qy as u32,
                            (qx - pos_x) as u32,
                            (qy - pos_y) as u32,
                            pixel_at(start, w as int, qx, qy),
                        ),
                        #[trigger] pixel_at(self.buffer@, w as int, qx, qy),
                    ),
                forall|qx: int, qy: int|
                    0 <= qx < w && 0 <= qy < h && !visited(
                        w as int,
                        h as int,
                        pos_x,
                        pos_y,
                        width,
                        y as int,
                        0,
                        qx,
                        qy,
                    ) ==> #[trigger] pixel_at(self.buffer@, w as int, qx, qy) == pixel_at(
                        start,
                        w as int,
                        qx,
                        qy,
                    ),
            decreases height - y,
        {
            let py: u64 = y as u64 + pos_y as u64;
            let mut x: u32 = 0;
            while py < h as u64 && x < width
                invariant
                    self.buffer@.len() == w * h,
                    len == w * h,
                    start.len() == w * h,
                    self.width == w,
                    self.height == h,
                    w <= u32::MAX,
                    h <= u32::MAX,
                    y < height,
                    x <= width,
                    py == y + pos_y,
                    forall|px: u32, py: u32, x: u32, y: u32, c: u32| #[trigger]
                        call_requires(func, (px, py, x, y, c)),
                    forall|qx: int, qy: int|
                        visited(w as int, h as int, pos_x, pos_y, width, y as int, x as int, qx, qy)
                            ==> call_ensures(
                            func,
                            (
                                qx as u32,
                                qy as u32,
                                (qx - pos_x) as u32,
                                (qy - pos_y) as u32,
                                pixel_at(start, w as int, qx, qy),
                            ),
                            #[trigger] pixel_at(self.buffer@, w as int, qx, qy),
                        ),
                    forall|qx: int, qy: int|
                        0 <= qx < w && 0 <= qy < h && !visited(
                            w as int,
                            h as int,
                            pos_x,
                            pos_y,
                            width,
                            y as int,
                            x as int,
                            qx,
                            qy,
                        ) ==> #[trigger] pixel_at(self.buffer@, w as int, qx, qy) == pixel_at(
                            start,
                            w as int,
                            qx,
                            qy,
                        ),
                decreases width - x,
            {
                let px: u64 = x as u64 + pos_x as u64;
                if px < w as u64 {
                    proof {
                        lemma_offsets(w as int, h as int, px as int, py as int, 0, 0);
                        assert(0 <= py * w) by (nonlinear_arith)
                            requires
                                0 <= py,
                                0 <= w,
                        ;
                    }
                    let o: usize = py as usize * w + px as usize;
                    let ghost before = self.buffer@;
                    let c: u32 = self.buffer[o];
                    let n: u32 = func(px as u32, py as u32, x, y, c);
                    self.buffer.set(o, n);
                    proof {
                        assert(!visited(
                            w as int,
                            h as int,
                            pos_x,
                            pos_y,
                            width,
                            y as int,
                            x as int,
                            px as int,
                            py as int,
                        ));
                        assert(pixel_at(before, w as int, px as int, py as int) == pixel_at(
                            start,
                            w as int,
                            px as int,
                            py as int,
                        ));
                        assert(pixel_at(before, w as int, px as int, py as int) == c);
                        assert(pixel_at(self.buffer@, w as int, px as int, py as int) == n);
                        assert forall|qx: int, qy: int|
                            0 <= qx < w && 0 <= qy < h && !(qx == px && qy == py) implies pixel_at(
                            self.buffer@,
                            w as int,
                            qx,
                            qy,
                        ) == pixel_at(before, w as int, qx, qy) by {
                            lemma_offsets(w as int, h as int, qx, qy, px as int, py as int);
                        }
                        assert forall|qx: int, qy: int|
                            visited(
                                w as int,
                                h as int,
                                pos_x,
                                pos_y,
                                width,
                                y as int,
                                x + 1,
                                qx,
                                qy,
                            ) implies call_ensures(
                            func,
                            (
                                qx as u32,
                                qy as u32,
                                (qx - pos_x) as u32,
                                (qy - pos_y) as u32,
                                pixel_at(start, w as int, qx, qy),
                            ),
                            #[trigger] pixel_at(self.buffer@, w as int, qx, qy),
                        ) by {
                            if qx == px && qy == py {
                            } else {
                                assert(visited(
                                    w as int,
                                    h as int,
                                    pos_x,
                                    pos_y,
                                    width,
                                    y as int,
                                    x as int,
                                    qx,
                                    qy,
                                ));
                                assert(pixel_at(self.buffer@, w as int, qx, qy) == pixel_at(
                                    before,
                                    w as int,
                                    qx,
                                    qy,
                                ));
                            }
                        }
                        assert forall|qx: int, qy: int|
                            0 <= qx < w && 0 <= qy < h && !visited(
                                w as int,
                                h as int,
                                pos_x,
                                pos_y,
                                width,
                                y as int,
                                x + 1,
                                qx,
                                qy,
                            ) implies #[trigger] pixel_at(self.buffer@, w as int, qx, qy)
                            == pixel_at(start, w as int, qx, qy) by {
                            assert(!(qx == px && qy == py));
                            assert(pixel_at(self.buffer@, w as int, qx, qy) == pixel_at(
                                before,
                                w as int,
                                qx,
                                qy,
                            ));
                        }
                    }
                }
                x += 1;
            }
            y += 1;
        }
    }
}

/// The pixel at `qx`, `qy` lies in the buffer and in the part of the block
/// that has been worked through when `rows` rows are done and `cols` pixels
/// of the next row.
pub open spec fn visited(
    w: int,
    h: int,
    pos_x: u32,
    pos_y: u32,
    width: u32,
    rows: int,
    cols: int,
    qx: int,
    qy: int,
) -> bool {
    &&& pos_x <= qx < pos_x + width
    &&& qx < w
    &&& pos_y <= qy < h
    &&& (qy < pos_y + rows || (qy == pos_y + rows && qx < pos_x + cols))
}

} // verus!
