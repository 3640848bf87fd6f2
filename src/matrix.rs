use vstd::prelude::*;
use vstd::arithmetic::div_mod::lemma_fundamental_div_mod_converse;
use vstd::string::StringExecFns;

verus! {

/// Position of cell `(x, y)` in a row-major layout of rows `width` wide.
pub open spec fn flat_index(width: nat, x: int, y: int) -> int {
    y * width + x
}

/// A cell inside a `width` by `height` grid lands inside the storage, and the
/// coordinates can be read back from its position.
pub proof fn lemma_flat_index(width: nat, height: nat, x: int, y: int)
    requires
        0 <= x < width,
        0 <= y < height,
    ensures
        0 <= flat_index(width, x, y) < width * height,
        flat_index(width, x, y) % (width as int) == x,
        flat_index(width, x, y) / (width as int) == y,
{
    assert(0 <= y * width) by (nonlinear_arith)
        requires
            0 <= y,
    ;
    assert(y * width + x < width * height) by (nonlinear_arith)
        requires
            0 <= x < width,
            0 <= y < height,
    ;
    lemma_fundamental_div_mod_converse(flat_index(width, x, y), width as int, y, x);
}

/// A fixed-size two-dimensional grid stored row by row.
pub struct Matrix<T> {
    pub vec: Vec<T>,
    width: usize,
    height: usize,
}

impl<T> Matrix<T> {
    /// The grid holds exactly one cell per coordinate pair.
    pub closed spec fn wf(&self) -> bool {
        self.vec.len() == self.width * self.height
    }

    pub closed spec fn spec_width(&self) -> nat {
        self.width as nat
    }

    pub closed spec fn spec_height(&self) -> nat {
        self.height as nat
    }

    /// The cells, row after row.
    pub closed spec fn cells(&self) -> Seq<T> {
        self.vec@
    }

    pub open spec fn in_bounds(&self, x: int, y: int) -> bool {
        0 <= x < self.spec_width() && 0 <= y < self.spec_height()
    }

    /// The value at column `x`, row `y`.
    pub open spec fn cell(&self, x: int, y: int) -> T {
        self.cells()[flat_index(self.spec_width(), x, y)]
    }

    /// Position in storage of the cell at `(x, y)`.
    pub fn to_index(&self, coords: (usize, usize)) -> (r: usize)
        requires
            self.wf(),
            self.in_bounds(coords.0 as int, coords.1 as int),
        ensures
            r as int == flat_index(self.spec_width(), coords.0 as int, coords.1 as int),
            r < self.cells().len(),
    {
        let (x, y) = coords;
        proof {
            lemma_flat_index(self.width as nat, self.height as nat, x as int, y as int);
        }
        y * self.width + x
    }

    pub fn width(&self) -> (r: usize)
        ensures
            r == self.spec_width(),
    {
        self.width
    }

    pub fn height(&self) -> (r: usize)
        ensures
            r == self.spec_height(),
    {
        self.height
    }

    /// Coordinates `(x, y)` of the cell stored at position `idx`.
    pub fn to_coords(&self, idx: usize) -> (r: (usize, usize))
        requires
            self.wf(),
            idx < self.cells().len(),
        ensures
            self.in_bounds(r.0 as int, r.1 as int),
            flat_index(self.spec_width(), r.0 as int, r.1 as int) == idx,
    {
        let w = self.width;
        let h = self.height;
        assert(w > 0) by (nonlinear_arith)
            requires
                idx < w * h,
        ;
        let x = idx % w;
        let y = idx / w;
        assert(y < h) by (nonlinear_arith)
            requires
                idx < w * h,
                w > 0,
                y == idx / w,
        ;
        assert(y * w + x == idx) by (nonlinear_arith)
            requires
                w > 0,
                x == idx % w,
                y == idx / w,
        ;
        (x, y)
    }

    /// Whether `(x, y)` names a cell of the grid.
    pub fn test_coords(&self, x: usize, y: usize) -> (r: bool)
        ensures
            r == self.in_bounds(x as int, y as int),
    {
        if x >= self.width {
            return false;
        }
        if y >= self.height {
            return false;
        }
        true
    }

    /// Shared access to the cell at `(x, y)`.
    pub fn index(&self, coords: (usize, usize)) -> (r: &T)
        requires
            self.wf(),
            self.in_bounds(coords.0 as int, coords.1 as int),
        ensures
            *r == self.cell(coords.0 as int, coords.1 as int),
    {
        let i = self.to_index(coords);
        &self.vec[i]
    }

    /// Mutable access to the cell at `(x, y)`; every other cell is left as it was.
    pub fn index_mut(&mut self, coords: (usize, usize)) -> (r: &mut T)
        requires
            old(self).wf(),
            old(self).in_bounds(coords.0 as int, coords.1 as int),
        ensures
            *r == old(self).cell(coords.0 as int, coords.1 as int),
            final(self).wf(),
            final(self).spec_width() == old(self).spec_width(),
            final(self).spec_height() == old(self).spec_height(),
            final(self).cells() == old(self).cells().update(
                flat_index(old(self).spec_width(), coords.0 as int, coords.1 as int),
                *final(r),
            ),
    {
        let i = self.to_index(coords);
        &mut self.vec[i]
    }

    /// Text of the grid given the text `reprs[i]` of each stored cell: every
    /// row starts on a new line.
    pub fn layout(&self, reprs: &Vec<String>) -> (r: String)
        requires
            self.wf(),
            reprs.len() == self.cells().len(),
        ensures
            r@ == layout_text(reprs@.map_values(|s: String| s@), self.spec_width(), reprs.len() as nat),
    {
        let ghost texts = reprs@.map_values(|s: String| s@);
        let mut repr = String::new();
        let mut i: usize = 0;
        while i < reprs.len()
            invariant
                self.wf(),
                reprs.len() == self.cells().len(),
                texts == reprs@.map_values(|s: String| s@),
                i <= reprs.len(),
                repr@ == layout_text(texts, self.width as nat, i as nat),
            decreases reprs.len() - i,
        {
            assert(self.width > 0) by (nonlinear_arith)
                requires
                    i < self.width * self.height,
            ;
            if i % self.width == 0 {
                proof {
                    reveal_strlit("\n");
                }
                repr.append("\n");
            }
            repr.append(reprs[i].as_str());
            i += 1;
        }
        repr
    }

    /// A `width` by `height` grid whose cell `(x, y)` is `f((x, y))`; the cells
    /// are computed row by row, top row first, left to right within a row.
    pub fn from_fn<F: Fn((usize, usize)) -> T>(width: usize, height: usize, f: F) -> (r: Self)
        requires
            width * height <= usize::MAX,
            forall|x: usize, y: usize| x < width && y < height ==> f.requires(((x, y),)),
        ensures
            r.wf(),
            r.spec_width() == width,
            r.spec_height() == height,
            forall|x: int, y: int|
                r.in_bounds(x, y) ==> f.ensures(((x as usize, y as usize),), r.cell(x, y)),
    {
        let mut vec: Vec<T> = Vec::with_capacity(width * height);
        let mut y: usize = 0;
        while y < height
            invariant
                width * height <= usize::MAX,
                forall|x: usize, y: usize| x < width && y < height ==> f.requires(((x, y),)),
                y <= height,
                vec.len() == y * width,
                forall|i: int|
                    0 <= i < vec.len() ==> f.ensures(
                        (((i % (width as int)) as usize, (i / (width as int)) as usize),),
                        #[trigger] vec@[i],
                    ),
            decreases height - y,
        {
            let mut x: usize = 0;
            while x < width
                invariant
                    width * height <= usize::MAX,
                    forall|x: usize, y: usize| x < width && y < height ==> f.requires(((x, y),)),
                    y < height,
                    x <= width,
                    vec.len() == y * width + x,
                    forall|i: int|
                        0 <= i < vec.len() ==> f.ensures(
                            (((i % (width as int)) as usize, (i / (width as int)) as usize),),
                            #[trigger] vec@[i],
                        ),
                decreases width - x,
            {
                proof {
                    lemma_flat_index(width as nat, height as nat, x as int, y as int);
                }
                let v = f((x, y));
                vec.push(v);
                x += 1;
            }
            assert((y + 1) * width == y * width + width) by (nonlinear_arith);
            y += 1;
        }
        assert(height * width == width * height) by (nonlinear_arith);
        let r = Matrix { vec, width, height };
        assert forall|x: int, y: int| r.in_bounds(x, y) implies f.ensures(
            ((x as usize, y as usize),),
            r.cell(x, y),
        ) by {
            lemma_flat_index(width as nat, height as nat, x, y);
        }
        r
    }
}

/// Text of a grid whose cells are written `reprs`: each row starts on a new
/// line, and the cells of a row follow each other with nothing between them.
pub open spec fn layout_text(reprs: Seq<Seq<char>>, width: nat, n: nat) -> Seq<char>
    decreases n,
{
    if n == 0 {
        Seq::empty()
    } else {
        let i = (n - 1) as nat;
        let brk = if i % width == 0 { seq!['\n'] } else { Seq::empty() };
        layout_text(reprs, width, i) + brk + reprs[i as int]
    }
}

impl<T: Copy> Matrix<T> {
    /// A `width` by `height` grid with every cell set to `value`.
    pub fn new_default(width: usize, height: usize, value: T) -> (r: Matrix<T>)
        requires
            width * height <= usize::MAX,
        ensures
            r.wf(),
            r.spec_width() == width,
            r.spec_height() == height,
            forall|i: int| 0 <= i < r.cells().len() ==> r.cells()[i] == value,
            forall|x: int, y: int| r.in_bounds(x, y) ==> r.cell(x, y) == value,
    {
        let n = width * height;
        let mut vec: Vec<T> = Vec::with_capacity(n);
        let mut k: usize = 0;
        while k < n
            invariant
                k <= n,
                vec.len() == k,
                forall|i: int| 0 <= i < vec.len() ==> vec@[i] == value,
            decreases n - k,
        {
            vec.push(value);
            k += 1;
        }
        let r = Matrix { vec, width, height };
        assert forall|x: int, y: int| r.in_bounds(x, y) implies r.cell(x, y) == value by {
            lemma_flat_index(width as nat, height as nat, x, y);
        }
        r
    }

    /// A grid built from rows: row `y` of the result is `vecs[y]`, cut to the
    /// length of the first row.
    pub fn from_vecs(vecs: Vec<Vec<T>>) -> (r: Self)
        requires
            vecs.len() > 0,
            vecs[0].len() > 0,
            forall|y: int| 0 <= y < vecs.len() ==> #[trigger] vecs[y].len() >= vecs[0].len(),
            vecs[0].len() * vecs.len() <= usize::MAX,
        ensures
            r.wf(),
            r.spec_width() == vecs[0].len(),
            r.spec_height() == vecs.len(),
            forall|x: int, y: int| r.in_bounds(x, y) ==> r.cell(x, y) == vecs[y][x],
    {
        let width = vecs[0].len();
        let height = vecs.len();
        let mut vec: Vec<T> = Vec::with_capacity(width * height);
        let mut y: usize = 0;
        while y < height
            invariant
                width == vecs[0].len(),
                height == vecs.len(),
                width > 0,
                width * height <= usize::MAX,
                forall|r: int| 0 <= r < vecs.len() ==> #[trigger] vecs[r].len() >= vecs[0].len(),
                y <= height,
                vec.len() == y * width,
                forall|i: int|
                    0 <= i < vec.len() ==> vec@[i] == vecs@[i / (width as int)]@[i % (width as int)],
            decreases height - y,
        {
            let mut x: usize = 0;
            while x < width
                invariant
                    width == vecs[0].len(),
                    height == vecs.len(),
                    width > 0,
                    width * height <= usize::MAX,
                    forall|r: int| 0 <= r < vecs.len() ==> #[trigger] vecs[r].len() >= vecs[0].len(),
                    y < height,
                    x <= width,
                    vec.len() == y * width + x,
                    forall|i: int|
                        0 <= i < vec.len() ==> vec@[i] == vecs@[i / (width as int)]@[i % (width as int)],
                decreases width - x,
            {
                proof {
                    lemma_flat_index(width as nat, height as nat, x as int, y as int);
                    assert(vecs[y as int].len() >= width);
                }
                vec.push(vecs[y][x]);
                x += 1;
            }
            assert((y + 1) * width == y * width + width) by (nonlinear_arith);
            y += 1;
        }
        assert(height * width == width * height) by (nonlinear_arith);
        let r = Matrix { vec, width, height };
        assert forall|x: int, y: int| r.in_bounds(x, y) implies r.cell(x, y) == vecs[y][x] by {
            lemma_flat_index(width as nat, height as nat, x, y);
        }
        r
    }

    /// The cell at `(x, y)`, or `None` outside the grid.
    pub fn get(&self, x: usize, y: usize) -> (r: Option<T>)
        requires
            self.wf(),
        ensures
            r == if self.in_bounds(x as int, y as int) {
                Some(self.cell(x as int, y as int))
            } else {
                None
            },
    {
        if self.test_coords(x, y) {
            Some(*self.index((x, y)))
        } else {
            None
        }
    }

    /// The cell at `(x, y)`, or `default` outside the grid.
    pub fn get_or(&self, x: usize, y: usize, default: T) -> (r: T)
        requires
            self.wf(),
        ensures
            r == if self.in_bounds(x as int, y as int) {
                self.cell(x as int, y as int)
            } else {
                default
            },
    {
        if let Some(ret) = self.get(x, y) {
            ret
        } else {
            default
        }
    }
}

impl<T: Copy + Default> Matrix<T> {
    /// A `width` by `height` grid with every cell set to `T::default()`.
    pub fn new(width: usize, height: usize) -> (r: Self)
        requires
            width * height <= usize::MAX,
        ensures
            r.wf(),
            r.spec_width() == width,
            r.spec_height() == height,
            forall|i: int, j: int|
                0 <= i < r.cells().len() && 0 <= j < r.cells().len() ==> r.cells()[i]
                    == r.cells()[j],
    {
        Self::new_default(width, height, T::default())
    }
}

} // verus!
