use vstd::prelude::*;
use crate::color::Color;

verus! {

/// A grid of pixels of fixed size, stored row by row.
#[derive(Debug)]
pub struct Canvas {
    width: usize,
    height: usize,
    pixels: Vec<Color>,
}

impl View for Canvas {
    type V = Seq<Color>;

    /// The pixels, row by row, each row from left to right.
    closed spec fn view(&self) -> Seq<Color> {
        self.pixels@
    }
}

impl Canvas {
    pub closed spec fn spec_width(&self) -> usize {
        self.width
    }

    pub closed spec fn spec_height(&self) -> usize {
        self.height
    }

    /// There is one pixel for each place of the grid.
    #[verifier::type_invariant]
    spec fn well_formed(&self) -> bool {
        self.pixels@.len() == self.width * self.height
    }


    /// The pixel in the given row and column.
    pub open spec fn at(&self, row: int, col: int) -> Color {
        self@[row * self.spec_width() + col]
    }

    /// A canvas of the given size, black all over. The number of pixels
    /// must fit the machine.
    pub fn new(width: usize, height: usize) -> (canvas: Self)
        requires
            width * height <= usize::MAX,
        ensures
            canvas.spec_width() == width,
            canvas.spec_height() == height,
            forall|i: int| 0 <= i < canvas@.len() ==> canvas@[i] == Color::black(),
    {
        let count: usize = width * height;
        let mut pixels: Vec<Color> = Vec::with_capacity(count);
        let mut k: usize = 0;
        while k < count
            invariant
                k <= count,
                pixels@.len() == k,
                forall|i: int| 0 <= i < k ==> pixels@[i] == Color::black(),
            decreases count - k,
        {
            pixels.push(Color::black());
            k += 1;
        }
        Self { width, height, pixels }
    }

    /// A canvas of the given size over the given pixels, where there is one
    /// pixel for each place.
    pub fn from_pixels(width: usize, height: usize, pixels: Vec<Color>) -> (canvas: Option<Self>)
        ensures
            canvas is Some <==> pixels@.len() == width * height,
            canvas matches Some(c) ==> c.spec_width() == width && c.spec_height() == height && c@
                == pixels@,
    {
        let count: usize = pixels.len();
        if height != 0 && width > usize::MAX / height {
            proof {
                lemma_product_too_large(width as int, height as int);
            }
            return None;
        }
        assert(width * height <= usize::MAX) by (nonlinear_arith)
            requires
                height == 0 || width <= (usize::MAX as int) / (height as int),
                0 <= width,
                0 <= height,
        ;
        if count != width * height {
            return None;
        }
        Some(Self { width, height, pixels })
    }

    #[verifier::when_used_as_spec(spec_width)]
    pub fn width(&self) -> (width: usize)
        ensures
            width == self.spec_width(),
    {
        self.width
    }

    #[verifier::when_used_as_spec(spec_height)]
    pub fn height(&self) -> (height: usize)
        ensures
            height == self.spec_height(),
    {
        self.height
    }

    /// The place in the row-by-row order of the pixel in the given row and
    /// column.
    pub fn index_of(&self, row: usize, col: usize) -> (index: usize)
        requires
            row < self.spec_height(),
            col < self.spec_width(),
        ensures
            index == row * self.spec_width() + col,
            index < self@.len(),
            self@.len() == self.spec_width() * self.spec_height(),
    {
        let count: usize = self.pixels.len();
        proof {
            use_type_invariant(self);
            lemma_place_in_grid(row as int, col as int, self.width as int, self.height as int);
        }
        row * self.width + col
    }

    /// The row and the column of the pixel at the given place of the
    /// row-by-row order, as the pair of column and row.
    pub fn coordinates(&self, index: usize) -> (place: (usize, usize))
        requires
            index < self@.len(),
        ensures
            place.0 < self.spec_width(),
            place.1 < self.spec_height(),
            place.1 * self.spec_width() + place.0 == index,
    {
        proof {
            use_type_invariant(self);
            lemma_grid_has_width(index as int, self.width as int, self.height as int);
        }
        let y: usize = index / self.width;
        proof {
            lemma_row_and_column(index as int, self.width as int, self.height as int);
        }
        let x: usize = index - y * self.width;
        (x, y)
    }

    /// The pixel in the given row and column.
    pub fn get(&self, row: usize, col: usize) -> (pixel: Color)
        requires
            row < self.spec_height(),
            col < self.spec_width(),
        ensures
            pixel == self.at(row as int, col as int),
    {
        let index: usize = self.index_of(row, col);
        self.pixels[index]
    }

    /// Puts a colour on the pixel in the given row and column, and leaves
    /// every other pixel as it is.
    pub fn set(&mut self, row: usize, col: usize, color: Color)
        requires
            row < old(self).spec_height(),
            col < old(self).spec_width(),
        ensures
            final(self).spec_width() == old(self).spec_width(),
            final(self).spec_height() == old(self).spec_height(),
            final(self)@ == old(self)@.update(row * old(self).spec_width() + col, color),
    {
        let index: usize = self.index_of(row, col);
        self.pixels[index] = color;
    }

    /// One row of pixels, from left to right.
    pub fn row(&self, row: usize) -> (pixels: &[Color])
        requires
            row < self.spec_height(),
        ensures
            pixels@ == self@.subrange(
                row * self.spec_width(),
                row * self.spec_width() + self.spec_width(),
            ),
    {
        let count: usize = self.pixels.len();
        proof {
            use_type_invariant(self);
            lemma_row_in_grid(row as int, self.width as int, self.height as int);
        }
        let start: usize = row * self.width;
        let end: usize = start + self.width;
        vstd::slice::slice_subrange(self.pixels.as_slice(), start, end)
    }

    /// All the pixels, row by row: one for each place of the grid.
    pub fn pixels(&self) -> (pixels: &Vec<Color>)
        ensures
            pixels@ == self@,
            pixels@.len() == self.spec_width() * self.spec_height(),
    {
        proof {
            use_type_invariant(self);
        }
        &self.pixels
    }
}

/// A place of the grid has a place in the row-by-row order.
proof fn lemma_place_in_grid(row: int, col: int, width: int, height: int)
    by (nonlinear_arith)
    requires
        0 <= row < height,
        0 <= col < width,
    ensures
        0 <= row * width + col < width * height,
        0 <= row * width,
{
}

/// A row of the grid lies within the row-by-row order.
proof fn lemma_row_in_grid(row: int, width: int, height: int)
    by (nonlinear_arith)
    requires
        0 <= row < height,
        0 <= width,
    ensures
        0 <= row * width,
        row * width + width <= width * height,
{
}

/// A grid with a place in it is not of width 0.
proof fn lemma_grid_has_width(index: int, width: int, height: int)
    by (nonlinear_arith)
    requires
        0 <= index < width * height,
        0 <= width,
        0 <= height,
    ensures
        width > 0,
{
}

/// A place of the row-by-row order has a row and a column of the grid.
proof fn lemma_row_and_column(index: int, width: int, height: int)
    by (nonlinear_arith)
    requires
        0 <= index < width * height,
        0 < width,
        0 <= height,
    ensures
        0 <= index / width < height,
        0 <= index - (index / width) * width < width,
{
}

/// A grid wider than the machine's largest number divided by its height
/// has more places than the machine can count.
proof fn lemma_product_too_large(width: int, height: int)
    by (nonlinear_arith)
    requires
        height > 0,
        width > (usize::MAX as int) / height,
    ensures
        width * height > usize::MAX,
{
}

} // verus!
