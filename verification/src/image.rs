//! A generic width × height cell grid with a per-type neutral element, used
//! for both the color buffer and the depth buffer of a render target.

use vstd::prelude::*;
use crate::vector::Vector3;

verus! {

/// Camera-space depth held by a cleared depth cell; farther than every depth
/// the rasterizer can write, so the first write to a pixel always wins.
pub const DEPTH_FAR: i64 = i64::MAX;

/// The neutral element a buffer of `T` is filled with on creation and
/// restored to by `clear`.
pub trait Default<T> {
    /// The neutral value, as contracts see it.
    spec fn spec_default() -> T;

    /// Returns the neutral value.
    fn get_default() -> (r: T)
        ensures
            r == Self::spec_default(),
    ;
}

/// A color cell clears to the zero vector (black).
impl Default<Vector3> for Vector3 {
    open spec fn spec_default() -> Vector3 {
        Vector3 { x: 0i64, y: 0i64, z: 0i64 }
    }

    fn get_default() -> (r: Vector3) {
        Vector3::zeros()
    }
}

/// A depth cell clears to `DEPTH_FAR`.
impl Default<i64> for i64 {
    open spec fn spec_default() -> i64 {
        DEPTH_FAR
    }

    fn get_default() -> (r: i64) {
        DEPTH_FAR
    }
}

/// The color buffer of a render target.
pub type ImageBuffer = Buffer2D<Vector3>;

/// The depth buffer of a render target.
pub type DepthBuffer = Buffer2D<i64>;

/// A width × height grid of cells stored row-major in flat storage:
/// `(x, y)` lives at index `x + y * width`.
pub struct Buffer2D<T: Default<T>> {
    buffer: Vec<T>,
    width: usize,
    height: usize,
}

impl<T: Default<T>> Buffer2D<T> {
    /// The cells in storage order.
    pub closed spec fn cells(&self) -> Seq<T> {
        self.buffer@
    }

    /// The grid's width in cells.
    pub closed spec fn spec_width(&self) -> int {
        self.width as int
    }

    /// The grid's height in cells.
    pub closed spec fn spec_height(&self) -> int {
        self.height as int
    }

    /// Well-formed: the flat storage holds exactly width × height cells.
    pub open spec fn wf(&self) -> bool {
        self.cells().len() == self.spec_width() * self.spec_height()
    }

    /// The cell at `(x, y)`.
    pub open spec fn cell(&self, x: int, y: int) -> T {
        self.cells()[x + y * self.spec_width()]
    }

    /// Allocates a buffer with every cell holding the neutral element.
    pub fn new(width: usize, height: usize) -> (r: Self)
        requires
            width * height <= usize::MAX,
        ensures
            r.wf(),
            r.spec_width() == width,
            r.spec_height() == height,
            forall|i: int| 0 <= i < r.cells().len() ==> r.cells()[i] == T::spec_default(),
    {
        let size: usize = width * height;
        let mut buffer: Vec<T> = Vec::new();
        let mut i: usize = 0;
        while i < size
            invariant
                i <= size,
                buffer@.len() == i,
                forall|j: int| 0 <= j < i ==> buffer@[j] == T::spec_default(),
            decreases size - i,
        {
            buffer.push(T::get_default());
            i += 1;
        }
        Buffer2D { buffer, width, height }
    }

    /// Total number of cells.
    pub fn get_size(&self) -> (r: usize)
        requires
            self.wf(),
        ensures
            r == self.spec_width() * self.spec_height(),
    {
        self.buffer.len()
    }

    /// The grid's width in cells.
    pub fn get_width(&self) -> (r: usize)
        ensures
            r == self.spec_width(),
    {
        self.width
    }

    /// The grid's height in cells.
    pub fn get_height(&self) -> (r: usize)
        ensures
            r == self.spec_height(),
    {
        self.height
    }

    /// Restores every cell to the neutral element; the dimensions stay.
    pub fn clear(&mut self)
        requires
            old(self).wf(),
        ensures
            final(self).wf(),
            final(self).spec_width() == old(self).spec_width(),
            final(self).spec_height() == old(self).spec_height(),
            forall|i: int|
                0 <= i < final(self).cells().len() ==> final(self).cells()[i]
                    == T::spec_default(),
    {
        let size: usize = self.get_size();
        let mut i: usize = 0;
        while i < size
            invariant
                i <= size,
                self.wf(),
                self.width == old(self).width,
                self.height == old(self).height,
                self.cells().len() == size,
                forall|j: int| 0 <= j < i ==> self.cells()[j] == T::spec_default(),
            decreases size - i,
        {
            self.buffer.set(i, T::get_default());
            i += 1;
        }
    }

    /// Reads the cell at `(x, y)`.
    pub fn get(&self, x: usize, y: usize) -> (r: &T)
        requires
            self.wf(),
            x < self.spec_width(),
            y < self.spec_height(),
        ensures
            *r == self.cell(x as int, y as int),
    {
        let len: usize = self.buffer.len();
        proof {
            lemma_grid_index_in_range(
                self.spec_width(),
                self.spec_height(),
                x as int,
                y as int,
            );
            assert(x + y * self.width < len);
        }
        &self.buffer[x + y * self.width]
    }

    /// Overwrites the cell at `(x, y)`; every other cell stays.
    pub fn set(&mut self, x: usize, y: usize, value: T)
        requires
            old(self).wf(),
            x < old(self).spec_width(),
            y < old(self).spec_height(),
        ensures
            final(self).wf(),
            final(self).spec_width() == old(self).spec_width(),
            final(self).spec_height() == old(self).spec_height(),
            final(self).cells() == old(self).cells().update(
                x as int + y as int * old(self).spec_width(),
                value,
            ),
    {
        let len: usize = self.buffer.len();
        proof {
            lemma_grid_index_in_range(
                self.spec_width(),
                self.spec_height(),
                x as int,
                y as int,
            );
            assert(x + y * self.width < len);
        }
        self.buffer.set(x + y * self.width, value);
    }
}

/// Row-major indexing stays inside the flat storage of a grid.
pub proof fn lemma_grid_index_in_range(w: int, h: int, x: int, y: int)
    requires
        0 <= x < w,
        0 <= y < h,
    ensures
        0 <= x + y * w < w * h,
{
    assert(x + y * w < w * h) by (nonlinear_arith)
        requires
            0 <= x < w,
            0 <= y < h,
    ;
    assert(0 <= y * w) by (nonlinear_arith)
        requires
            0 <= y,
            0 < w,
    ;
}

/// Distinct grid positions flatten to distinct storage indices.
pub proof fn lemma_grid_index_injective(w: int, x1: int, y1: int, x2: int, y2: int)
    requires
        0 <= x1 < w,
        0 <= x2 < w,
        0 <= y1,
        0 <= y2,
        x1 != x2 || y1 != y2,
    ensures
        x1 + y1 * w != x2 + y2 * w,
{
    if y1 == y2 {
    } else {
        assert(x1 + y1 * w != x2 + y2 * w) by (nonlinear_arith)
            requires
                0 <= x1 < w,
                0 <= x2 < w,
                y1 != y2,
        ;
    }
}

/// A flat storage index splits back into its unique grid position.
pub proof fn lemma_grid_unflatten(i: int, w: int, h: int)
    requires
        0 < w,
        0 <= i < w * h,
    ensures
        0 <= i % w < w,
        0 <= i / w < h,
        i == (i % w) + (i / w) * w,
{
    vstd::arithmetic::div_mod::lemma_fundamental_div_mod(i, w);
    assert(0 <= i % w < w) by {
        vstd::arithmetic::div_mod::lemma_mod_bound(i, w);
    };
    assert(i == (i % w) + (i / w) * w) by (nonlinear_arith)
        requires
            i == w * (i / w) + i % w,
    ;
    let q = i / w;
    if q < 0 {
        assert(q * w + i % w < 0 * w + w) by (nonlinear_arith)
            requires
                q <= -1,
                0 < w,
                i % w < w,
        ;
        assert(false);
    }
    if q >= h {
        assert(q * w + i % w >= h * w) by (nonlinear_arith)
            requires
                q >= h,
                0 < w,
                0 <= i % w,
        ;
        assert(w * h == h * w) by (nonlinear_arith);
        assert(false);
    }
}

} // verus!
