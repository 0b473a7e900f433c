//! A whole frame: every pixel of the image, row by row, three bytes each.

use vstd::prelude::*;
use crate::color::{color_of, colorize, Rgb};
use crate::gradient::GradientGrid;
use crate::lattice::{lemma_pixel_between_corners, lemma_row_major, row_major, MAX_CELL};
use crate::sampler::{noise_at, sample};

verus! {

/// The colour of pixel `(x, y)`.
pub open spec fn pixel_of(grid: GradientGrid, x: int, y: int, cell: int) -> Rgb {
    color_of(noise_at(grid, x, y, cell))
}

/// Whether the three bytes of `buf` at pixel position `k` are the red,
/// green and blue channel of `p`, in that order.
pub open spec fn stores(buf: Seq<u8>, k: int, p: Rgb) -> bool {
    &&& buf[3 * k] == p.r
    &&& buf[3 * k + 1] == p.g
    &&& buf[3 * k + 2] == p.b
}

/// Whether `buf` is the frame of a `width` by `height` image: three bytes
/// per pixel, rows from top to bottom, pixels from left to right, each
/// pixel with the colour of its noise value.
pub open spec fn is_frame(buf: Seq<u8>, grid: GradientGrid, width: int, height: int, cell: int) -> bool {
    &&& buf.len() == width * height * 3
    &&& forall|x: int, y: int|
        0 <= x < width && 0 <= y < height ==> stores(
            buf,
            #[trigger] row_major(y, x, width),
            pixel_of(grid, x, y, cell),
        )
}

/// The pixel that lies at position `k` of a row-major image.
spec fn kth_pixel(grid: GradientGrid, k: int, width: int, cell: int) -> Rgb {
    pixel_of(grid, k % width, k / width, cell)
}

/// Renders one frame.
///
/// The grid must cover the image, and the frame must be addressable.
pub fn render(grid: &GradientGrid, width: usize, height: usize, cell: usize) -> (buf: Vec<u8>)
    requires
        1 <= cell <= MAX_CELL,
        grid.covers(width as int, height as int, cell as int),
        width * height * 3 <= usize::MAX,
    ensures
        buf@.len() == width * height * 3,
        is_frame(buf@, *grid, width as int, height as int, cell as int),
{
    let mut buf: Vec<u8> = Vec::new();
    let mut y: usize = 0;
    while y < height
        invariant
            1 <= cell <= MAX_CELL,
            grid.covers(width as int, height as int, cell as int),
            y <= height,
            buf@.len() == 3 * (y * width),
            forall|k: int|
                0 <= k < y * width ==> stores(
                    buf@,
                    k,
                    kth_pixel(*grid, k, width as int, cell as int),
                ),
        decreases height - y,
    {
        let mut x: usize = 0;
        while x < width
            invariant
                1 <= cell <= MAX_CELL,
                grid.covers(width as int, height as int, cell as int),
                y < height,
                x <= width,
                buf@.len() == 3 * (y * width + x),
                forall|k: int|
                    0 <= k < y * width + x ==> stores(
                        buf@,
                        k,
                        kth_pixel(*grid, k, width as int, cell as int),
                    ),
            decreases width - x,
        {
            proof {
                lemma_pixel_between_corners(x as int, width as int, cell as int);
                lemma_pixel_between_corners(y as int, height as int, cell as int);
                lemma_row_major(y as int, x as int, height as int, width as int);
            }
            let color: Rgb = colorize(sample(x, y, grid, cell));
            let ghost before = buf@;
            buf.push(color.r);
            buf.push(color.g);
            buf.push(color.b);
            proof {
                let here = row_major(y as int, x as int, width as int);
                assert(stores(buf@, here, kth_pixel(*grid, here, width as int, cell as int)));
                assert forall|k: int| 0 <= k < y * width + x + 1 implies stores(
                    buf@,
                    k,
                    kth_pixel(*grid, k, width as int, cell as int),
                ) by {
                    if k < here {
                        assert(stores(before, k, kth_pixel(*grid, k, width as int, cell as int)));
                    }
                }
            }
            x = x + 1;
        }
        proof {
            assert((y + 1) * width == y * width + width) by (nonlinear_arith);
        }
        y = y + 1;
    }
    proof {
        assert(y * width * 3 == width * height * 3) by (nonlinear_arith)
            requires
                y == height,
        ;
        assert forall|px: int, py: int| 0 <= px < width && 0 <= py < height implies stores(
            buf@,
            #[trigger] row_major(py, px, width as int),
            pixel_of(*grid, px, py, cell as int),
        ) by {
            let k = row_major(py, px, width as int);
            lemma_row_major(py, px, height as int, width as int);
            assert(height * width == y * width) by (nonlinear_arith)
                requires
                    y == height,
            ;
            assert(stores(buf@, k, kth_pixel(*grid, k, width as int, cell as int)));
        }
    }
    buf
}

} // verus!
