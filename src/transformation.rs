use vstd::prelude::*;

use crate::color::Color;
use crate::color_replace::{read_pixel, write_pixel};
use crate::geometry::{Point, Rect};
use crate::image::{padding_kept, Image};
use crate::trim::{row_clear, ImageError};

verus! {

impl Image {
    /// Whether every pixel of the image is fully transparent.
    pub fn is_transparent(&self) -> (r: bool)
        requires
            self.wf(),
        ensures
            r == forall|x: int, y: int| self.in_bounds(x, y) ==> #[trigger] self.pixel(x, y).alpha
                == 0,
    {
        let mut y: i32 = 0;
        while y < self.size.height
            invariant
                self.wf(),
                0 <= y <= self.size.height,
                forall|j: int| 0 <= j < y ==> row_clear(*self, j, 0, self.size.width as int),
            decreases self.size.height - y,
        {
            if !self.row_is_clear(y, 0, self.size.width) {
                assert(!row_clear(*self, y as int, 0, self.size.width as int));
                return false;
            }
            y = y + 1;
        }
        assert forall|x: int, j: int| self.in_bounds(x, j) implies #[trigger] self.pixel(x, j).alpha
            == 0 by {
            assert(row_clear(*self, j, 0, self.size.width as int));
        }
        true
    }

    /// Whether two images look the same: equal sizes, and at every pixel
    /// either equal colours or full transparency on both sides.
    pub fn appears_equal_to(&self, other_image: &Image) -> (r: bool)
        requires
            self.wf(),
            other_image.wf(),
        ensures
            r == (self.size == other_image.size && forall|x: int, y: int|
                self.in_bounds(x, y) ==> looks_same(
                    #[trigger] self.pixel(x, y),
                    other_image.pixel(x, y),
                )),
    {
        if self.size != other_image.size {
            return false;
        }
        let mut y: i32 = 0;
        while y < self.size.height
            invariant
                self.wf(),
                other_image.wf(),
                self.size == other_image.size,
                0 <= y <= self.size.height,
                forall|i: int, j: int|
                    self.in_bounds(i, j) && j < y ==> looks_same(
                        #[trigger] self.pixel(i, j),
                        other_image.pixel(i, j),
                    ),
            decreases self.size.height - y,
        {
            let mut x: i32 = 0;
            while x < self.size.width
                invariant
                    self.wf(),
                    other_image.wf(),
                    self.size == other_image.size,
                    0 <= y < self.size.height,
                    0 <= x <= self.size.width,
                    forall|i: int, j: int|
                        self.in_bounds(i, j) && (j < y || (j == y && i < x)) ==> looks_same(
                            #[trigger] self.pixel(i, j),
                            other_image.pixel(i, j),
                        ),
                decreases self.size.width - x,
            {
                let a = read_pixel(self, x, y);
                let b = read_pixel(other_image, x, y);
                if !(a.alpha == 0 && b.alpha == 0) && a != b {
                    return false;
                }
                x = x + 1;
            }
            y = y + 1;
        }
        true
    }

    /// Mirrors the image left to right.
    pub fn flip_horizontally(&mut self)
        requires
            old(self).wf(),
        ensures
            final(self).wf(),
            final(self).same_layout(old(self)),
            padding_kept(*old(self), *final(self)),
            forall|x: int, y: int|
                old(self).in_bounds(x, y) ==> #[trigger] final(self).pixel(x, y) == old(self).pixel(
                    old(self).size.width - 1 - x,
                    y,
                ),
    {
        let ghost original = *self;
        let width = self.size.width;
        let mut row: i32 = 0;
        while row < self.size.height
            invariant
                self.wf(),
                self.same_layout(&original),
                padding_kept(original, *self),
                original.wf(),
                width == original.size.width,
                0 <= row <= original.size.height,
                forall|i: int, j: int|
                    original.in_bounds(i, j) ==> #[trigger] self.pixel(i, j) == if j < row {
                        original.pixel(width - 1 - i, j)
                    } else {
                        original.pixel(i, j)
                    },
            decreases original.size.height - row,
        {
            let mut column: i32 = 0;
            while column < width / 2
                invariant
                    self.wf(),
                    self.same_layout(&original),
                    padding_kept(original, *self),
                padding_kept(original, *self),
                    original.wf(),
                    width == original.size.width,
                    0 <= row < original.size.height,
                    0 <= column <= width / 2,
                    forall|i: int, j: int|
                        original.in_bounds(i, j) ==> #[trigger] self.pixel(i, j) == if j < row || (j
                            == row && (i < column || i > width - 1 - column)) {
                            original.pixel(width - 1 - i, j)
                        } else {
                            original.pixel(i, j)
                        },
                decreases width / 2 - column,
            {
                let mirror = width - 1 - column;
                let left_pixel = read_pixel(self, column, row);
                let right_pixel = read_pixel(self, mirror, row);
                let ghost before = *self;
                write_pixel(self, mirror, row, left_pixel);
                let ghost middle = *self;
                write_pixel(self, column, row, right_pixel);
                assert forall|i: int, j: int| original.in_bounds(i, j) implies #[trigger] self.pixel(
                    i,
                    j,
                ) == if j < row || (j == row && (i < column + 1 || i > width - 1 - (column + 1))) {
                    original.pixel(width - 1 - i, j)
                } else {
                    original.pixel(i, j)
                } by {
                    if j != row || (i != column && i != mirror) {
                        assert(self.pixel(i, j) == middle.pixel(i, j));
                        assert(middle.pixel(i, j) == before.pixel(i, j));
                    } else if i == mirror {
                        assert(self.pixel(i, j) == middle.pixel(i, j));
                    }
                }
                column = column + 1;
            }
            row = row + 1;
        }
    }

    /// Mirrors the image top to bottom.
    pub fn flip_vertically(&mut self)
        requires
            old(self).wf(),
        ensures
            final(self).wf(),
            final(self).same_layout(old(self)),
            padding_kept(*old(self), *final(self)),
            forall|x: int, y: int|
                old(self).in_bounds(x, y) ==> #[trigger] final(self).pixel(x, y) == old(self).pixel(
                    x,
                    old(self).size.height - 1 - y,
                ),
    {
        let ghost original = *self;
        let height = self.size.height;
        let mut column: i32 = 0;
        while column < self.size.width
            invariant
                self.wf(),
                self.same_layout(&original),
                padding_kept(original, *self),
                original.wf(),
                height == original.size.height,
                0 <= column <= original.size.width,
                forall|i: int, j: int|
                    original.in_bounds(i, j) ==> #[trigger] self.pixel(i, j) == if i < column {
                        original.pixel(i, height - 1 - j)
                    } else {
                        original.pixel(i, j)
                    },
            decreases original.size.width - column,
        {
            let mut row: i32 = 0;
            while row < height / 2
                invariant
                    self.wf(),
                    self.same_layout(&original),
                    padding_kept(original, *self),
                padding_kept(original, *self),
                    original.wf(),
                    height == original.size.height,
                    0 <= column < original.size.width,
                    0 <= row <= height / 2,
                    forall|i: int, j: int|
                        original.in_bounds(i, j) ==> #[trigger] self.pixel(i, j) == if i < column || (i
                            == column && (j < row || j > height - 1 - row)) {
                            original.pixel(i, height - 1 - j)
                        } else {
                            original.pixel(i, j)
                        },
                decreases height / 2 - row,
            {
                let mirror = height - 1 - row;
                let top_pixel = read_pixel(self, column, row);
                let bottom_pixel = read_pixel(self, column, mirror);
                let ghost before = *self;
                write_pixel(self, column, mirror, top_pixel);
                let ghost middle = *self;
                write_pixel(self, column, row, bottom_pixel);
                assert forall|i: int, j: int| original.in_bounds(i, j) implies #[trigger] self.pixel(
                    i,
                    j,
                ) == if i < column || (i == column && (j < row + 1 || j > height - 1 - (row + 1))) {
                    original.pixel(i, height - 1 - j)
                } else {
                    original.pixel(i, j)
                } by {
                    if i != column || (j != row && j != mirror) {
                        assert(self.pixel(i, j) == middle.pixel(i, j));
                        assert(middle.pixel(i, j) == before.pixel(i, j));
                    } else if j == mirror {
                        assert(self.pixel(i, j) == middle.pixel(i, j));
                    }
                }
                row = row + 1;
            }
            column = column + 1;
        }
    }
}

impl Image {
    /// Returns the part of the image inside `region` as a new image of the
    /// region's size; pixels of the region outside the image are transparent.
    pub fn subimage(&self, region: Rect) -> (result: Result<Image, ImageError>)
        requires
            self.wf(),
            region.size.width >= 0,
            region.size.height >= 0,
            4 * region.size.width <= u32::MAX,
            4 * region.size.width * region.size.height <= u32::MAX,
            crate::geometry::edges_fit(region),
        ensures
            match result {
                Ok(img) => img.wf() && img.size == region.size && forall|x: int, y: int|
                    img.in_bounds(x, y) ==> #[trigger] img.pixel(x, y) == if self.in_bounds(
                        region.origin.x + x,
                        region.origin.y + y,
                    ) {
                        self.pixel(region.origin.x + x, region.origin.y + y)
                    } else {
                        Color { red: 0, green: 0, blue: 0, alpha: 0 }
                    },
                Err(_) => false,
            },
    {
        let mut result = Image::empty(region.size);
        let ghost blank = result;
        assert forall|i: int, j: int| blank.in_bounds(i, j) implies #[trigger] blank.pixel(i, j) == (Color {
            red: 0,
            green: 0,
            blue: 0,
            alpha: 0,
        }) by {
            crate::image::lemma_pixel_inside(&blank, i, j);
        }
        let mut y: i32 = 0;
        while y < region.size.height
            invariant
                result.wf(),
                result.same_layout(&blank),
                blank.size == region.size,
                self.wf(),
                crate::geometry::edges_fit(region),
                0 <= y <= region.size.height,
                forall|i: int, j: int|
                    blank.in_bounds(i, j) ==> #[trigger] result.pixel(i, j) == if j < y && self.in_bounds(
                        region.origin.x + i,
                        region.origin.y + j,
                    ) {
                        self.pixel(region.origin.x + i, region.origin.y + j)
                    } else {
                        blank.pixel(i, j)
                    },
                forall|i: int, j: int| blank.in_bounds(i, j) ==> #[trigger] blank.pixel(i, j) == (Color {
                    red: 0,
                    green: 0,
                    blue: 0,
                    alpha: 0,
                }),
            decreases region.size.height - y,
        {
            let mut x: i32 = 0;
            while x < region.size.width
                invariant
                    result.wf(),
                    result.same_layout(&blank),
                    blank.size == region.size,
                    self.wf(),
                    crate::geometry::edges_fit(region),
                    0 <= y < region.size.height,
                    0 <= x <= region.size.width,
                    forall|i: int, j: int|
                        blank.in_bounds(i, j) ==> #[trigger] result.pixel(i, j) == if (j < y || (j == y
                            && i < x)) && self.in_bounds(region.origin.x + i, region.origin.y + j) {
                            self.pixel(region.origin.x + i, region.origin.y + j)
                        } else {
                            blank.pixel(i, j)
                        },
                    forall|i: int, j: int| blank.in_bounds(i, j) ==> #[trigger] blank.pixel(i, j) == (Color {
                        red: 0,
                        green: 0,
                        blue: 0,
                        alpha: 0,
                    }),
                decreases region.size.width - x,
            {
                let ghost before = result;
                let point = Point { x: region.origin.x + x, y: region.origin.y + y };
                if let Some(color) = self.pixel_color(point) {
                    write_pixel(&mut result, x, y, color);
                    assert forall|i: int, j: int| blank.in_bounds(i, j) implies #[trigger] result.pixel(
                        i,
                        j,
                    ) == if (j < y || (j == y && i < x + 1)) && self.in_bounds(
                        region.origin.x + i,
                        region.origin.y + j,
                    ) {
                        self.pixel(region.origin.x + i, region.origin.y + j)
                    } else {
                        blank.pixel(i, j)
                    } by {
                        if i != x || j != y {
                            assert(result.pixel(i, j) == before.pixel(i, j));
                        }
                    }
                }
                x = x + 1;
            }
            y = y + 1;
        }
        Ok(result)
    }
}

impl Image {
    /// Returns the distinct colours of the image's pixels, in the order in
    /// which a row-by-row scan first meets them.
    pub fn colors(&self) -> (colors: Vec<Color>)
        requires
            self.wf(),
        ensures
            forall|i: int, j: int|
                0 <= i < j < colors@.len() ==> colors@[i] != colors@[j],
            forall|x: int, y: int| self.in_bounds(x, y) ==> colors@.contains(#[trigger] self.pixel(x, y)),
            forall|k: int|
                0 <= k < colors@.len() ==> has_color(*self, #[trigger] colors@[k]),
    {
        let mut colors: Vec<Color> = Vec::new();
        let mut y: i32 = 0;
        while y < self.size.height
            invariant
                self.wf(),
                0 <= y <= self.size.height,
                forall|i: int, j: int| 0 <= i < j < colors@.len() ==> colors@[i] != colors@[j],
                forall|i: int, j: int|
                    self.in_bounds(i, j) && j < y ==> colors@.contains(#[trigger] self.pixel(i, j)),
                forall|k: int|
                    0 <= k < colors@.len() ==> has_color(*self, #[trigger] colors@[k]),
            decreases self.size.height - y,
        {
            let mut x: i32 = 0;
            while x < self.size.width
                invariant
                    self.wf(),
                    0 <= y < self.size.height,
                    0 <= x <= self.size.width,
                    forall|i: int, j: int| 0 <= i < j < colors@.len() ==> colors@[i] != colors@[j],
                    forall|i: int, j: int|
                        self.in_bounds(i, j) && (j < y || (j == y && i < x)) ==> colors@.contains(
                            #[trigger] self.pixel(i, j),
                        ),
                    forall|k: int|
                        0 <= k < colors@.len() ==> has_color(*self, #[trigger] colors@[k]),
                decreases self.size.width - x,
            {
                let color = read_pixel(self, x, y);
                let mut k: usize = 0;
                let mut found = false;
                while k < colors.len()
                    invariant
                        0 <= k <= colors@.len(),
                        found ==> colors@.contains(color),
                        !found ==> forall|m: int| 0 <= m < k ==> colors@[m] != color,
                    decreases colors@.len() - k,
                {
                    if colors[k] == color {
                        found = true;
                        assert(colors@[k as int] == color);
                    }
                    k = k + 1;
                }
                if !found {
                    let ghost before = colors@;
                    colors.push(color);
                    assert(colors@[colors@.len() - 1] == color);
                    assert forall|m: int| 0 <= m < colors@.len() implies has_color(
                        *self,
                        #[trigger] colors@[m],
                    ) by {
                        if m == colors@.len() - 1 {
                            assert(self.pixel(x as int, y as int) == colors@[m]);
                        } else {
                            assert(colors@[m] == before[m]);
                        }
                    }
                    assert forall|i: int, j: int|
                        self.in_bounds(i, j) && (j < y || (j == y && i < x + 1)) implies colors@.contains(
                        #[trigger] self.pixel(i, j),
                    ) by {
                        if i == x && j == y {
                            assert(colors@[colors@.len() - 1] == self.pixel(i, j));
                        } else {
                            let m = choose|m: int| 0 <= m < before.len() && before[m] == self.pixel(i, j);
                            assert(colors@[m] == self.pixel(i, j));
                        }
                    }
                }
                x = x + 1;
            }
            y = y + 1;
        }
        colors
    }
}

/// Some pixel of the image has the colour `c`.
pub open spec fn has_color(img: Image, c: Color) -> bool {
    exists|x: int, y: int| img.in_bounds(x, y) && #[trigger] img.pixel(x, y) == c
}

/// Two pixels look the same: equal, or both fully transparent.
pub open spec fn looks_same(a: Color, b: Color) -> bool {
    a == b || (a.alpha == 0 && b.alpha == 0)
}

} // verus!
