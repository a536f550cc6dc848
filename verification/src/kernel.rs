//! Convolution kernels: square grids of weights with an odd side, so that a
//! unique centre cell exists. A weight is an exact ratio: the integer stored
//! in its cell over the kernel's common divisor.

use vstd::prelude::*;

verus! {

/// What a kernel is, mathematically: the integer in each cell, row by row,
/// and the positive number every one of them is divided by.
pub struct KernelView {
    pub weights: Seq<Seq<int>>,
    pub divisor: int,
}

impl KernelView {
    /// The side length of the grid.
    pub open spec fn side(self) -> nat {
        self.weights.len()
    }

    /// How far the grid reaches from its centre cell: `side / 2`.
    pub open spec fn half(self) -> int {
        self.side() as int / 2
    }

    /// The grid is square with an odd side, and the divisor is positive.
    pub open spec fn wf(self) -> bool {
        &&& self.side() % 2 == 1
        &&& forall|row: int|
            0 <= row < self.side() ==> (#[trigger] self.weights[row]).len() == self.side()
        &&& self.divisor > 0
    }

    /// The integer in the cell at column `col` of row `row`.
    pub open spec fn weight(self, col: int, row: int) -> int {
        self.weights[row][col]
    }

    /// The sum of the first `cols` cells of row `row`.
    pub open spec fn row_total(self, row: int, cols: nat) -> int
        decreases cols,
    {
        if cols == 0 {
            0
        } else {
            self.row_total(row, (cols - 1) as nat) + self.weight(cols - 1, row)
        }
    }

    /// The sum of all cells of the first `rows` rows.
    pub open spec fn rows_total(self, rows: nat) -> int
        decreases rows,
    {
        if rows == 0 {
            0
        } else {
            self.rows_total((rows - 1) as nat) + self.row_total(rows - 1, self.side())
        }
    }

    /// The sum of all cells. The weights sum to one exactly when this equals
    /// the divisor.
    pub open spec fn total(self) -> int {
        self.rows_total(self.side())
    }
}

/// The box-blur kernel of the given side: every weight is `1 / size²`.
pub open spec fn box_blur_kernel(size: nat) -> KernelView {
    KernelView {
        weights: Seq::new(size, |row: int| Seq::new(size, |col: int| 1int)),
        divisor: (size * size) as int,
    }
}

/// The 3×3 sharpen kernel: five times the centre minus its four direct
/// neighbours.
pub open spec fn sharpen_kernel() -> KernelView {
    KernelView {
        weights: seq![seq![0int, -1int, 0int], seq![-1int, 5int, -1int], seq![0int, -1int, 0int]],
        divisor: 1,
    }
}

/// The smallest odd number that is not below `size`.
pub open spec fn odd_size(size: nat) -> nat {
    if size % 2 == 0 {
        size + 1
    } else {
        size
    }
}

/// A convolution kernel. Its side is odd and no larger than an image
/// coordinate can be, every row is as long as the grid is high, and the
/// divisor is positive: no value of this type breaks any of these.
pub struct Kernel {
    weights: Vec<Vec<i32>>,
    divisor: u64,
}

impl View for Kernel {
    type V = KernelView;

    closed spec fn view(&self) -> KernelView {
        KernelView {
            weights: Seq::new(
                self.weights@.len(),
                |row: int|
                    Seq::new(self.weights@[row]@.len(), |col: int| self.weights@[row]@[col] as int),
            ),
            divisor: self.divisor as int,
        }
    }
}

impl Kernel {
    #[verifier::type_invariant]
    closed spec fn well_formed(self) -> bool {
        &&& self.weights@.len() % 2 == 1
        &&& self.weights@.len() <= u32::MAX
        &&& forall|row: int|
            0 <= row < self.weights@.len() ==> (#[trigger] self.weights@[row])@.len()
                == self.weights@.len()
        &&& self.divisor > 0
    }

    /// Builds a kernel from its rows of integers and their common divisor.
    /// Succeeds exactly when the rows form a square grid with an odd side of
    /// at most `u32::MAX` cells and the divisor is not zero.
    pub fn new(weights: Vec<Vec<i32>>, divisor: u64) -> (made: Option<Kernel>)
        ensures
            made.is_some() <==> {
                &&& weights@.len() % 2 == 1
                &&& weights@.len() <= u32::MAX
                &&& forall|row: int|
                    0 <= row < weights@.len() ==> (#[trigger] weights@[row])@.len()
                        == weights@.len()
                &&& divisor > 0
            },
            made.is_some() ==> {
                &&& made.unwrap()@.wf()
                &&& made.unwrap()@.side() == weights@.len()
                &&& made.unwrap()@.divisor == divisor
                &&& forall|row: int, col: int|
                    0 <= row < weights@.len() && 0 <= col < weights@.len()
                        ==> made.unwrap()@.weight(col, row) == weights@[row]@[col]
            },
    {
        let side = weights.len();
        if side % 2 == 0 || side > 0xffff_ffff || divisor == 0 {
            return None;
        }
        let mut row: usize = 0;
        while row < side
            invariant
                side == weights@.len(),
                row <= side,
                forall|r: int| 0 <= r < row ==> (#[trigger] weights@[r])@.len() == side,
            decreases side - row,
        {
            if weights[row].len() != side {
                return None;
            }
            row += 1;
        }
        Some(Kernel { weights, divisor })
    }

    /// The side length of the grid.
    pub fn side(&self) -> (side: usize)
        ensures
            side == self@.side(),
            side % 2 == 1,
            side <= u32::MAX,
    {
        proof {
            use_type_invariant(self);
        }
        self.weights.len()
    }

    /// The number every cell is divided by.
    pub fn divisor(&self) -> (divisor: u64)
        ensures
            divisor == self@.divisor,
            divisor > 0,
    {
        proof {
            use_type_invariant(self);
        }
        self.divisor
    }

    /// The integer in the cell at column `col` of row `row`.
    pub fn weight(&self, col: usize, row: usize) -> (weight: i32)
        requires
            col < self@.side(),
            row < self@.side(),
        ensures
            weight == self@.weight(col as int, row as int),
    {
        proof {
            use_type_invariant(self);
        }
        self.weights[row][col]
    }
}

/// The number of cells a blur of the requested strength spans along each
/// axis: the strength itself when it is odd, the next number when it is even.
pub fn force_odd(size: usize) -> (odd: usize)
    ensures
        odd == odd_size(size as nat),
{
    if size % 2 == 0 {
        size + 1
    } else {
        size
    }
}

/// The box-blur kernel of side `size`, in which all `size²` weights are equal
/// and sum to one.
pub fn generate_box_blur_kernel(size: usize) -> (kernel: Kernel)
    requires
        size % 2 == 1,
        size <= u32::MAX,
    ensures
        kernel@ == box_blur_kernel(size as nat),
{
    let mut weights: Vec<Vec<i32>> = Vec::new();
    let mut row: usize = 0;
    while row < size
        invariant
            row <= size,
            weights@.len() == row,
            forall|r: int| 0 <= r < row ==> (#[trigger] weights@[r])@ == Seq::new(size as nat, |c: int| 1i32),
        decreases size - row,
    {
        let mut cells: Vec<i32> = Vec::new();
        let mut col: usize = 0;
        while col < size
            invariant
                col <= size,
                cells@ == Seq::new(col as nat, |c: int| 1i32),
            decreases size - col,
        {
            cells.push(1);
            col += 1;
            assert(cells@ =~= Seq::new(col as nat, |c: int| 1i32));
        }
        weights.push(cells);
        row += 1;
    }
    assert(0 < size * size <= u64::MAX) by (nonlinear_arith)
        requires
            0 < size <= u32::MAX,
    ;
    let wide: u64 = size as u64;
    let kernel = Kernel { weights, divisor: wide * wide };
    assert forall|r: int| 0 <= r < size implies #[trigger] kernel@.weights[r] =~= Seq::new(
        size as nat,
        |c: int| 1int,
    ) by {
        assert(kernel.weights@[r]@ == Seq::new(size as nat, |c: int| 1i32));
    }
    assert(kernel@.weights =~= box_blur_kernel(size as nat).weights);
    kernel
}

/// The fixed 3×3 sharpen kernel.
pub fn generate_sharpen_kernel() -> (kernel: Kernel)
    ensures
        kernel@ == sharpen_kernel(),
{
    let top: Vec<i32> = vec![0, -1, 0];
    let middle: Vec<i32> = vec![-1, 5, -1];
    let bottom: Vec<i32> = vec![0, -1, 0];
    let weights: Vec<Vec<i32>> = vec![top, middle, bottom];
    let kernel = Kernel { weights, divisor: 1 };
    assert(kernel@.weights[0] =~= sharpen_kernel().weights[0]);
    assert(kernel@.weights[1] =~= sharpen_kernel().weights[1]);
    assert(kernel@.weights[2] =~= sharpen_kernel().weights[2]);
    assert(kernel@.weights =~= sharpen_kernel().weights);
    kernel
}

} // verus!
