use vstd::prelude::*;

verus! {

/// A `width` by `height` grid of pixels of type `T`, stored row by row.
#[derive(Clone, Debug)]
pub struct Canvas<T> {
    width: usize,
    height: usize,
    pixels: Vec<T>,
}

proof fn lemma_pixel_in_bounds(x: int, y: int, width: int, height: int)
    requires
        0 <= x < width,
        0 <= y < height,
    ensures
        0 <= x + y * width < width * height,
{
    assert((y + 1) * width <= height * width) by (nonlinear_arith)
        requires
            0 <= y < height,
            0 <= x < width,
    ;
    assert(y * width >= 0) by (nonlinear_arith)
        requires
            0 <= y,
            0 <= x < width,
    ;
    assert((y + 1) * width == y * width + width) by (nonlinear_arith);
    assert(height * width == width * height) by (nonlinear_arith);
}

impl<T: Copy> Canvas<T> {
    /// The pixels, row by row.
    pub closed spec fn view_pixels(&self) -> Seq<T> {
        self.pixels@
    }

    /// Number of columns.
    pub closed spec fn spec_width(&self) -> nat {
        self.width as nat
    }

    /// Number of rows.
    pub closed spec fn spec_height(&self) -> nat {
        self.height as nat
    }

    /// Number of columns.
    pub fn width(&self) -> (r: usize)
        ensures
            r == self.spec_width(),
    {
        self.width
    }

    /// Number of rows.
    pub fn height(&self) -> (r: usize)
        ensures
            r == self.spec_height(),
    {
        self.height
    }

    /// Storage holds exactly one pixel per cell.
    pub closed spec fn wf(&self) -> bool {
        self.pixels.len() == self.width * self.height
    }

    /// The pixel at column `x`, row `y`.
    pub closed spec fn pixel(&self, x: int, y: int) -> T {
        self.view_pixels()[x + y * self.width]
    }

    /// A canvas with every pixel `background`.
    pub fn new(width: usize, height: usize, background: T) -> (c: Canvas<T>)
        requires
            width * height <= usize::MAX,
        ensures
            c.wf(),
            c.spec_width() == width,
            c.spec_height() == height,
            forall|x: int, y: int| 0 <= x < width && 0 <= y < height ==> #[trigger] c.pixel(x, y) == background,
    {
        let n = width * height;
        let mut pixels: Vec<T> = Vec::new();
        let mut i: usize = 0;
        while i < n
            invariant
                i <= n,
                pixels.len() == i,
                forall|j: int| 0 <= j < i ==> #[trigger] pixels@[j] == background,
            decreases n - i,
        {
            pixels.push(background);
            i = i + 1;
        }
        let c = Canvas { width, height, pixels };
        proof {
            assert forall|x: int, y: int| 0 <= x < width && 0 <= y < height implies #[trigger] c.pixel(x, y) == background by {
                lemma_pixel_in_bounds(x, y, width as int, height as int);
            }
        }
        c
    }

    /// Sets every pixel to `colour`.
    pub fn fill(&mut self, colour: T)
        requires
            old(self).wf(),
        ensures
            final(self).wf(),
            final(self).spec_width() == old(self).spec_width(),
            final(self).spec_height() == old(self).spec_height(),
            forall|x: int, y: int| 0 <= x < old(self).spec_width() && 0 <= y < old(self).spec_height() ==> #[trigger] final(self).pixel(x, y) == colour,
    {
        let n = self.pixels.len();
        let mut i: usize = 0;
        while i < n
            invariant
                i <= n,
                n == self.pixels.len(),
                self.wf(),
                self.width == old(self).spec_width(),
                self.height == old(self).spec_height(),
                forall|j: int| 0 <= j < i ==> #[trigger] self.pixels@[j] == colour,
            decreases n - i,
        {
            self.pixels.set(i, colour);
            i = i + 1;
        }
        proof {
            assert forall|x: int, y: int| 0 <= x < self.width && 0 <= y < self.height implies #[trigger] self.pixel(x, y) == colour by {
                lemma_pixel_in_bounds(x, y, self.width as int, self.height as int);
            }
        }
    }

    /// Sets the pixel at `(x, y)`; a position outside the canvas changes
    /// nothing.
    pub fn write_pixel(&mut self, x: usize, y: usize, colour: T)
        requires
            old(self).wf(),
        ensures
            final(self).wf(),
            final(self).spec_width() == old(self).spec_width(),
            final(self).spec_height() == old(self).spec_height(),
            forall|i: int, j: int| 0 <= i < old(self).spec_width() && 0 <= j < old(self).spec_height() ==> #[trigger] final(self).pixel(i, j) == if i == x && j == y { colour } else { old(self).pixel(i, j) },
    {
        if x >= self.width || y >= self.height {
            return;
        }
        proof {
            lemma_pixel_in_bounds(x as int, y as int, self.width as int, self.height as int);
        }
        let k = x + y * self.width;
        self.pixels.set(k, colour);
        proof {
            assert forall|i: int, j: int| 0 <= i < self.width && 0 <= j < self.height implies #[trigger] self.pixel(i, j) == if i == x && j == y { colour } else { old(self).pixel(i, j) } by {
                lemma_pixel_in_bounds(i, j, self.width as int, self.height as int);
                if i + j * self.width == k as int && !(i == x && j == y) {
                    lemma_same_cell(i, j, x as int, y as int, self.width as int);
                }
            }
        }
    }

    /// The pixel at `(x, y)`, or `None` outside the canvas.
    pub fn get(&self, x: usize, y: usize) -> (r: Option<T>)
        requires
            self.wf(),
        ensures
            x < self.spec_width() && y < self.spec_height() ==> r == Some(self.pixel(x as int, y as int)),
            !(x < self.spec_width() && y < self.spec_height()) ==> r is None,
    {
        if x >= self.width || y >= self.height {
            return None;
        }
        proof {
            lemma_pixel_in_bounds(x as int, y as int, self.width as int, self.height as int);
        }
        Some(self.pixels[x + y * self.width])
    }
}

proof fn lemma_same_cell(x1: int, y1: int, x2: int, y2: int, width: int)
    requires
        0 <= x1 < width,
        0 <= x2 < width,
        0 <= y1,
        0 <= y2,
        x1 + y1 * width == x2 + y2 * width,
    ensures
        x1 == x2,
        y1 == y2,
{
    if y1 < y2 {
        assert(y1 * width + width <= y2 * width) by (nonlinear_arith)
            requires
                y1 < y2,
                width >= 0,
        ;
    } else if y2 < y1 {
        assert(y2 * width + width <= y1 * width) by (nonlinear_arith)
            requires
                y2 < y1,
                width >= 0,
        ;
    }
}

} // verus!
