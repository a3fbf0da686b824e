use vstd::prelude::*;

use crate::color::Color;
use crate::color_replace::{read_pixel, write_pixel};
use crate::image::Image;

verus! {

/// The row stride rounded up to a multiple of 64 bytes.
pub open spec fn aligned_row(bytes_per_row: int) -> int {
    if bytes_per_row % 64 == 0 {
        bytes_per_row
    } else {
        bytes_per_row + 64 - bytes_per_row % 64
    }
}

/// The colour with its red and blue channels exchanged, as BGRA stores it.
pub open spec fn bgra(c: Color) -> Color {
    Color { red: c.blue, green: c.green, blue: c.red, alpha: c.alpha }
}

impl Image {
    /// Returns the row stride for a pixel buffer: the image's own, rounded
    /// up to a multiple of 64 bytes.
    pub fn pixel_buffer_bytes_per_row(&self) -> (r: u32)
        requires
            aligned_row(self.bytes_per_row as int) <= u32::MAX,
        ensures
            r == aligned_row(self.bytes_per_row as int),
    {
        let alignment: u32 = 64;
        let remainder = self.bytes_per_row % alignment;
        if remainder == 0 {
            self.bytes_per_row
        } else {
            self.bytes_per_row + (alignment - remainder)
        }
    }

    /// Returns the image in the BGRA channel order with rows aligned to 64
    /// bytes, as platform pixel buffers take it; row padding is zero.
    pub fn pixel_buffer_image(&self) -> (r: Image)
        requires
            self.wf(),
            aligned_row(self.bytes_per_row as int) <= u32::MAX,
            aligned_row(self.bytes_per_row as int) * self.size.height <= usize::MAX,
        ensures
            r.wf(),
            r.size == self.size,
            r.bytes_per_row == aligned_row(self.bytes_per_row as int),
            r.data@.len() == aligned_row(self.bytes_per_row as int) * self.size.height,
            forall|x: int, y: int| self.in_bounds(x, y) ==> #[trigger] r.pixel(x, y) == bgra(
                self.pixel(x, y),
            ),
    {
        let output_bytes_per_row = self.pixel_buffer_bytes_per_row();
        let height = self.size.height as usize;
        let output_size = output_bytes_per_row as usize * height;
        let mut output = Image {
            data: vec![0u8; output_size],
            size: self.size,
            bytes_per_row: output_bytes_per_row,
        };
        let ghost blank = output;
        let mut y: i32 = 0;
        while y < self.size.height
            invariant
                self.wf(),
                output.wf(),
                output.same_layout(&blank),
                output.size == self.size,
                output.bytes_per_row == output_bytes_per_row,
                output.data@.len() == output_size,
                0 <= y <= self.size.height,
                forall|i: int, j: int|
                    self.in_bounds(i, j) && j < y ==> #[trigger] output.pixel(i, j) == bgra(
                        self.pixel(i, j),
                    ),
            decreases self.size.height - y,
        {
            let mut x: i32 = 0;
            while x < self.size.width
                invariant
                    self.wf(),
                    output.wf(),
                    output.same_layout(&blank),
                    output.size == self.size,
                    output.bytes_per_row == output_bytes_per_row,
                    output.data@.len() == output_size,
                    0 <= y < self.size.height,
                    0 <= x <= self.size.width,
                    forall|i: int, j: int|
                        self.in_bounds(i, j) && (j < y || (j == y && i < x)) ==> #[trigger] output.pixel(
                            i,
                            j,
                        ) == bgra(self.pixel(i, j)),
                decreases self.size.width - x,
            {
                let c = read_pixel(self, x, y);
                let ghost before = output;
                write_pixel(
                    &mut output,
                    x,
                    y,
                    Color { red: c.blue, green: c.green, blue: c.red, alpha: c.alpha },
                );
                assert forall|i: int, j: int|
                    self.in_bounds(i, j) && (j < y || (j == y && i < x + 1)) implies #[trigger] output.pixel(
                        i,
                        j,
                    ) == bgra(self.pixel(i, j)) by {
                    if i != x || j != y {
                        assert(output.pixel(i, j) == before.pixel(i, j));
                    }
                }
                x = x + 1;
            }
            y = y + 1;
        }
        output
    }

    /// Returns the bytes of `pixel_buffer_image`.
    pub fn pixel_buffer_data(&self) -> (r: Vec<u8>)
        requires
            self.wf(),
            aligned_row(self.bytes_per_row as int) <= u32::MAX,
            aligned_row(self.bytes_per_row as int) * self.size.height <= usize::MAX,
        ensures
            r@.len() == aligned_row(self.bytes_per_row as int) * self.size.height,
            ({
                let out = Image {
                    data: r,
                    size: self.size,
                    bytes_per_row: aligned_row(self.bytes_per_row as int) as u32,
                };
                out.wf() && forall|x: int, y: int| self.in_bounds(x, y) ==> #[trigger] out.pixel(x, y)
                    == bgra(self.pixel(x, y))
            }),
    {
        let image = self.pixel_buffer_image();
        image.data
    }
}

} // verus!
