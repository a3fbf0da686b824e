use vstd::prelude::*;

use crate::color_replace::{read_pixel, write_pixel};
use crate::geometry::{bottom, left, max_int, min_int, right, top, Point, Rect, Size};
use crate::image::{lemma_pixel_inside, Image};

verus! {

/// Why cropping or trimming an image was refused.
#[derive(Debug, Clone, Copy, PartialEq, Eq, Structural, Hash)]
pub enum ImageError {
    /// The container lies entirely outside the image.
    ContainerOutsideImage,
    /// Every pixel in the container is fully transparent.
    OnlyTransparentPixels,
    /// The crop would leave an image without width or height.
    InvalidDimensions,
}

impl ImageError {
    /// A description of the error for a user.
    pub fn message(&self) -> (s: &'static str)
        ensures
            s@ == match self {
                ImageError::ContainerOutsideImage => "Container is outside of the image bounds."@,
                ImageError::OnlyTransparentPixels => "The found top is greater than the max Y."@,
                ImageError::InvalidDimensions => "Invalid image dimensions."@,
            },
    {
        match self {
            ImageError::ContainerOutsideImage => "Container is outside of the image bounds.",
            ImageError::OnlyTransparentPixels => "The found top is greater than the max Y.",
            ImageError::InvalidDimensions => "Invalid image dimensions.",
        }
    }
}

/// Every pixel of row `y` from column `x0` up to `x1` is fully transparent.
pub open spec fn row_clear(img: Image, y: int, x0: int, x1: int) -> bool {
    forall|x: int| x0 <= x < x1 ==> #[trigger] img.pixel(x, y).alpha == 0
}

/// Every pixel of column `x` from row `y0` up to `y1` is fully transparent.
pub open spec fn column_clear(img: Image, x: int, y0: int, y1: int) -> bool {
    forall|y: int| y0 <= y < y1 ==> #[trigger] img.pixel(x, y).alpha == 0
}

/// The first column of a crop at `offset`; a negative offset lands past
/// the right edge.
pub open spec fn crop_x(img: Image, offset: Point) -> int {
    if offset.x < 0 {
        img.size.width as int
    } else {
        min_int(offset.x as int, img.size.width as int)
    }
}

/// The first row of a crop at `offset`; a negative offset lands past the
/// bottom edge.
pub open spec fn crop_y(img: Image, offset: Point) -> int {
    if offset.y < 0 {
        img.size.height as int
    } else {
        min_int(offset.y as int, img.size.height as int)
    }
}

/// The width of a crop of `size` at `offset`, limited by the image.
pub open spec fn crop_width(img: Image, size: Size, offset: Point) -> int {
    min_int(size.width as int, img.size.width - crop_x(img, offset))
}

/// The height of a crop of `size` at `offset`, limited by the image.
pub open spec fn crop_height(img: Image, size: Size, offset: Point) -> int {
    min_int(size.height as int, img.size.height - crop_y(img, offset))
}

/// `after` holds the `w` by `h` pixels of `before` from `(x0, y0)` on, rows
/// packed.
pub open spec fn cropped(before: Image, after: Image, x0: int, y0: int, w: int, h: int) -> bool {
    &&& after.wf()
    &&& after.size.width == w
    &&& after.size.height == h
    &&& after.bytes_per_row == 4 * w
    &&& forall|x: int, y: int|
        after.in_bounds(x, y) ==> #[trigger] after.pixel(x, y) == before.pixel(x0 + x, y0 + y)
}

impl Image {
    /// Whether every pixel of row `y` from `x0` up to `x1` is fully
    /// transparent.
    pub(crate) fn row_is_clear(&self, y: i32, x0: i32, x1: i32) -> (r: bool)
        requires
            self.wf(),
            0 <= y < self.size.height,
            0 <= x0,
            x1 <= self.size.width,
        ensures
            r == row_clear(*self, y as int, x0 as int, x1 as int),
    {
        let mut x = x0;
        while x < x1
            invariant
                self.wf(),
                0 <= y < self.size.height,
                0 <= x0,
                x1 <= self.size.width,
                x0 <= x,
                x0 <= x1 ==> x <= x1,
                row_clear(*self, y as int, x0 as int, x as int),
            decreases x1 - x,
        {
            if read_pixel(self, x, y).alpha != 0 {
                return false;
            }
            x = x + 1;
        }
        true
    }

    /// Whether every pixel of column `x` from `y0` up to `y1` is fully
    /// transparent.
    fn column_is_clear(&self, x: i32, y0: i32, y1: i32) -> (r: bool)
        requires
            self.wf(),
            0 <= x < self.size.width,
            0 <= y0,
            y1 <= self.size.height,
        ensures
            r == column_clear(*self, x as int, y0 as int, y1 as int),
    {
        let mut y = y0;
        while y < y1
            invariant
                self.wf(),
                0 <= x < self.size.width,
                0 <= y0,
                y1 <= self.size.height,
                y0 <= y,
                y0 <= y1 ==> y <= y1,
                column_clear(*self, x as int, y0 as int, y as int),
            decreases y1 - y,
        {
            if read_pixel(self, x, y).alpha != 0 {
                return false;
            }
            y = y + 1;
        }
        true
    }

    /// Crops the image to `size` from `offset` on, limited by the image's
    /// own edges; a negative offset leaves nothing.  The same size at the
    /// origin leaves the image as it is.
    pub fn crop_with_offset(&mut self, size: Size, offset: Point) -> (result: Result<(), ImageError>)
        requires
            old(self).wf(),
            size.width >= 0,
            size.height >= 0,
        ensures
            ({
                let w = crop_width(*old(self), size, offset);
                let h = crop_height(*old(self), size, offset);
                if size == old(self).size && offset.x == 0 && offset.y == 0 {
                    result is Ok && *final(self) == *old(self)
                } else if w <= 0 || h <= 0 {
                    result == Err::<(), ImageError>(ImageError::InvalidDimensions) && *final(self)
                        == *old(self)
                } else {
                    result is Ok && cropped(
                        *old(self),
                        *final(self),
                        crop_x(*old(self), offset),
                        crop_y(*old(self), offset),
                        w,
                        h,
                    )
                }
            }),
    {
        if size == self.size && offset.x == 0 && offset.y == 0 {
            return Ok(());
        }
        let x0: i32 = if offset.x < 0 || offset.x > self.size.width {
            self.size.width
        } else {
            offset.x
        };
        let y0: i32 = if offset.y < 0 || offset.y > self.size.height {
            self.size.height
        } else {
            offset.y
        };
        let w: i32 = if size.width <= self.size.width - x0 {
            size.width
        } else {
            self.size.width - x0
        };
        let h: i32 = if size.height <= self.size.height - y0 {
            size.height
        } else {
            self.size.height - y0
        };
        if w <= 0 || h <= 0 {
            return Err(ImageError::InvalidDimensions);
        }
        let ghost original = *self;
        proof {
            let b = self.bytes_per_row as int;
            assert(4 * w * h <= b * self.size.height) by (nonlinear_arith)
                requires
                    4 * w <= 4 * self.size.width <= b,
                    0 < h <= self.size.height,
                    0 < w,
            ;
        }
        let _ = self.data.len();
        let bytes_per_row: u32 = 4 * (w as u32);
        let n: usize = 4 * (w as usize) * (h as usize);
        let mut result = Image { data: vec![0u8; n], size: Size { width: w, height: h }, bytes_per_row };
        assert(result.wf()) by {
            assert(bytes_per_row as int * h == 4 * w * h) by (nonlinear_arith)
                requires
                    bytes_per_row == 4 * w,
            ;
        }
        let mut y: i32 = 0;
        while y < h
            invariant
                result.wf(),
                result.size == (Size { width: w, height: h }),
                result.bytes_per_row == 4 * w,
                self.wf(),
                *self == original,
                0 <= x0,
                0 <= y0,
                x0 + w <= original.size.width,
                y0 + h <= original.size.height,
                0 <= y <= h,
                forall|i: int, j: int|
                    result.in_bounds(i, j) && j < y ==> #[trigger] result.pixel(i, j)
                        == original.pixel(x0 + i, y0 + j),
            decreases h - y,
        {
            let mut x: i32 = 0;
            while x < w
                invariant
                    result.wf(),
                    result.size == (Size { width: w, height: h }),
                    result.bytes_per_row == 4 * w,
                    self.wf(),
                    *self == original,
                    0 <= x0,
                    0 <= y0,
                    x0 + w <= original.size.width,
                    y0 + h <= original.size.height,
                    0 <= y < h,
                    0 <= x <= w,
                    forall|i: int, j: int|
                        result.in_bounds(i, j) && (j < y || (j == y && i < x)) ==> #[trigger] result.pixel(
                            i,
                            j,
                        ) == original.pixel(x0 + i, y0 + j),
                decreases w - x,
            {
                let c = read_pixel(self, x0 + x, y0 + y);
                let ghost before = result;
                write_pixel(&mut result, x, y, c);
                assert forall|i: int, j: int|
                    result.in_bounds(i, j) && (j < y || (j == y && i < x + 1)) implies #[trigger] result.pixel(
                        i,
                        j,
                    ) == original.pixel(x0 + i, y0 + j) by {
                    if i != x || j != y {
                        assert(result.pixel(i, j) == before.pixel(i, j));
                    }
                }
                x = x + 1;
            }
            y = y + 1;
        }
        *self = result;
        Ok(())
    }

    /// Trims the fully transparent rows and columns from the edges of the
    /// part of the image inside `container`, crops the image to what is
    /// left, and returns that rectangle in the untrimmed image's coordinates.
    pub fn trim_in_container(&mut self, container: Rect) -> (result: Result<Rect, ImageError>)
        requires
            old(self).wf(),
            crate::color_replace::valid_box(container),
        ensures
            ({
                let region = crate::color_replace::clamped_region(*old(self), container);
                match result {
                    Err(e) => *final(self) == *old(self) && match e {
                        ImageError::ContainerOutsideImage => region is None,
                        ImageError::OnlyTransparentPixels => region is Some && forall|y: int|
                            top(region->0) <= y < bottom(region->0) ==> row_clear(
                                *old(self),
                                y,
                                left(region->0),
                                right(region->0),
                            ),
                        ImageError::InvalidDimensions => false,
                    },
                    Ok(r) => region is Some && trimmed(*old(self), region->0, r) && (if r.size
                        == old(self).size && r.origin.x == 0 && r.origin.y == 0 {
                        *final(self) == *old(self)
                    } else {
                        cropped(
                            *old(self),
                            *final(self),
                            r.origin.x as int,
                            r.origin.y as int,
                            r.size.width as int,
                            r.size.height as int,
                        )
                    }),
                }
            }),
    {
        let image_bounds = Rect { origin: Point::zero(), size: self.size };
        let region = match container.intersection(&image_bounds) {
            Some(r) => r,
            None => {
                return Err(ImageError::ContainerOutsideImage);
            },
        };
        let min_x = region.origin.x;
        let min_y = region.origin.y;
        let max_x = region.origin.x + region.size.width;
        let max_y = region.origin.y + region.size.height;
        let ghost reg = region;

        // Search from the top.
        let mut top_row = min_y;
        while top_row < max_y && self.row_is_clear(top_row, min_x, max_x)
            invariant
                self.wf(),
                0 <= min_x <= max_x <= self.size.width,
                0 <= min_y <= top_row <= max_y <= self.size.height,
                forall|y: int| min_y <= y < top_row ==> row_clear(*self, y, min_x as int, max_x as int),
            decreases max_y - top_row,
        {
            top_row = top_row + 1;
        }
        if top_row >= max_y {
            return Err(ImageError::OnlyTransparentPixels);
        }

        // Search from the bottom.
        let mut bottom_row = max_y;
        while self.row_is_clear(bottom_row - 1, min_x, max_x)
            invariant
                self.wf(),
                0 <= min_x <= max_x <= self.size.width,
                0 <= min_y <= top_row < bottom_row <= max_y <= self.size.height,
                !row_clear(*self, top_row as int, min_x as int, max_x as int),
                forall|y: int| bottom_row <= y < max_y ==> row_clear(*self, y, min_x as int, max_x as int),
            decreases bottom_row,
        {
            bottom_row = bottom_row - 1;
        }

        // Search from the left.
        let mut left_column = min_x;
        while self.column_is_clear(left_column, top_row, bottom_row)
            invariant
                self.wf(),
                0 <= min_x <= left_column < max_x <= self.size.width,
                0 <= min_y <= top_row < bottom_row <= max_y <= self.size.height,
                !row_clear(*self, top_row as int, min_x as int, max_x as int),
                forall|y: int| min_y <= y < top_row ==> row_clear(*self, y, min_x as int, max_x as int),
                forall|x: int| min_x <= x < left_column ==> column_clear(*self, x, top_row as int, bottom_row as int),
            decreases max_x - left_column,
        {
            left_column = left_column + 1;
            assert(left_column < max_x) by {
                if left_column >= max_x {
                    let x = choose|x: int| min_x <= x < max_x && #[trigger] self.pixel(x, top_row as int).alpha != 0;
                    assert(column_clear(*self, x, top_row as int, bottom_row as int));
                }
            }
        }

        // Search from the right.
        let mut right_column = max_x;
        while self.column_is_clear(right_column - 1, top_row, bottom_row)
            invariant
                self.wf(),
                0 <= min_x <= left_column < right_column <= max_x <= self.size.width,
                0 <= min_y <= top_row < bottom_row <= max_y <= self.size.height,
                !column_clear(*self, left_column as int, top_row as int, bottom_row as int),
                forall|x: int| right_column <= x < max_x ==> column_clear(*self, x, top_row as int, bottom_row as int),
            decreases right_column,
        {
            right_column = right_column - 1;
        }

        let rect = Rect {
            origin: Point { x: left_column, y: top_row },
            size: Size { width: right_column - left_column, height: bottom_row - top_row },
        };
        let _ = self.crop_with_offset(rect.size, rect.origin);
        Ok(rect)
    }

    /// Trims the fully transparent rows and columns from the edges of the
    /// image; see `trim_in_container`.
    pub fn trim(&mut self) -> (result: Result<Rect, ImageError>)
        requires
            old(self).wf(),
        ensures
            match result {
                Err(e) => *final(self) == *old(self) && e == ImageError::OnlyTransparentPixels
                    && forall|y: int|
                    0 <= y < old(self).size.height ==> row_clear(
                        *old(self),
                        y,
                        0,
                        old(self).size.width as int,
                    ),
                Ok(r) => trimmed(*old(self), crate::color_replace::image_rect(*old(self)), r) && (
                if r.size == old(self).size && r.origin.x == 0 && r.origin.y == 0 {
                    *final(self) == *old(self)
                } else {
                    cropped(
                        *old(self),
                        *final(self),
                        r.origin.x as int,
                        r.origin.y as int,
                        r.size.width as int,
                        r.size.height as int,
                    )
                }),
            },
    {
        let container = Rect { origin: Point::zero(), size: self.size };
        assert(crate::color_replace::clamped_region(*self, container) == Some(
            crate::color_replace::image_rect(*self),
        ));
        let ghost ir = crate::color_replace::image_rect(*self);
        assert(left(ir) == 0 && top(ir) == 0);
        assert(right(ir) == self.size.width && bottom(ir) == self.size.height);
        let ghost before = *self;
        let result = self.trim_in_container(container);
        proof {
            if let Err(e) = result {
                assert(e == ImageError::OnlyTransparentPixels);
                assert forall|y: int| 0 <= y < before.size.height implies row_clear(
                    before,
                    y,
                    0,
                    before.size.width as int,
                ) by {
                    assert(crate::color_replace::clamped_region(before, container)->0 == ir);
                    assert(top(ir) <= y < bottom(ir));
                    assert(left(ir) == 0 && right(ir) == before.size.width);
                }
            }
        }
        result
    }
}

/// `r` is the tightest rectangle inside `region` outside which every pixel
/// of `region` is fully transparent.
pub open spec fn trimmed(img: Image, region: Rect, r: Rect) -> bool {
    let (l, t) = (r.origin.x as int, r.origin.y as int);
    let (rr, b) = (r.origin.x + r.size.width, r.origin.y + r.size.height);
    &&& left(region) <= l < rr <= right(region)
    &&& top(region) <= t < b <= bottom(region)
    &&& !row_clear(img, t, left(region), right(region))
    &&& !row_clear(img, b - 1, left(region), right(region))
    &&& forall|y: int| top(region) <= y < t ==> row_clear(img, y, left(region), right(region))
    &&& forall|y: int| b <= y < bottom(region) ==> row_clear(img, y, left(region), right(region))
    &&& !column_clear(img, l, t, b)
    &&& !column_clear(img, rr - 1, t, b)
    &&& forall|x: int| left(region) <= x < l ==> column_clear(img, x, t, b)
    &&& forall|x: int| rr <= x < right(region) ==> column_clear(img, x, t, b)
}

} // verus!
