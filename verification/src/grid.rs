//! The object grid: the fixed arrangement of instances, and the order in
//! which they are enumerated.

use crate::error::ConfigError;
use vstd::arithmetic::div_mod::{lemma_fundamental_div_mod, lemma_fundamental_div_mod_converse};
use vstd::arithmetic::mul::{lemma_mul_inequality, lemma_mul_upper_bound};
use vstd::prelude::*;

verus! {

/// The mathematical model of an [`ObjectGrid`]: its extent along each axis.
/// A grid without a third axis is a plane.
pub struct GridModel {
    pub x: nat,
    pub y: nat,
    pub z: Option<nat>,
}

/// The position of one instance in a grid.
pub struct Cell {
    pub x: nat,
    pub y: nat,
    pub z: nat,
}

impl GridModel {
    /// The extent along the third axis; a plane is one cell deep.
    pub open spec fn depth(self) -> nat {
        match self.z {
            Some(z) => z,
            None => 1,
        }
    }

    /// The number of instances.
    pub open spec fn instance_count(self) -> nat {
        self.x * self.y * self.depth()
    }

    /// Every instance can be numbered.
    pub open spec fn wf(self) -> bool {
        self.instance_count() <= u32::MAX
    }

    /// Whether `cell` lies in the grid.
    pub open spec fn contains(self, cell: Cell) -> bool {
        cell.x < self.x && cell.y < self.y && cell.z < self.depth()
    }

    /// The place of `cell` in the enumeration of the instances: the third
    /// axis runs fastest, the first slowest.
    pub open spec fn linear_index(self, cell: Cell) -> nat {
        (cell.x * self.y + cell.y) * self.depth() + cell.z
    }

    /// The cell that the enumeration reaches at `index`.
    pub open spec fn cell_at(self, index: nat) -> Cell {
        Cell {
            x: (index / self.depth()) / self.y,
            y: (index / self.depth()) % self.y,
            z: index % self.depth(),
        }
    }
}

/// The size in bytes of one resident texture handle.
pub const TEXTURE_HANDLE_BYTES: u64 = 8;

/// The grid of instances. It never changes once made.
#[derive(Clone, Copy, Debug)]
pub struct ObjectGrid {
    x: u32,
    y: u32,
    z: Option<u32>,
}

impl View for ObjectGrid {
    type V = GridModel;

    closed spec fn view(&self) -> GridModel {
        GridModel {
            x: self.x as nat,
            y: self.y as nat,
            z: match self.z {
                Some(z) => Some(z as nat),
                None => None,
            },
        }
    }
}

impl ObjectGrid {
    #[verifier::type_invariant]
    pub(crate) open spec fn inv(&self) -> bool {
        self@.wf()
    }

    /// A grid of `x` by `y` instances, or with `z` given of `x` by `y` by `z`.
    /// It is rejected where its instances cannot be numbered.
    pub fn new(x: u32, y: u32, z: Option<u32>) -> (r: Result<ObjectGrid, ConfigError>)
        ensures
            ({
                let model = GridModel {
                    x: x as nat,
                    y: y as nat,
                    z: match z {
                        Some(z) => Some(z as nat),
                        None => None,
                    },
                };
                if model.instance_count() <= u32::MAX {
                    r is Ok && r->Ok_0@ == model
                } else {
                    r == Err::<ObjectGrid, ConfigError>(ConfigError::TooManyInstances)
                }
            }),
    {
        let depth: u32 = match z {
            Some(z) => z,
            None => 1,
        };
        proof {
            lemma_mul_upper_bound(x as int, u32::MAX as int, y as int, u32::MAX as int);
            lemma_mul_upper_bound(
                x as int * y as int,
                u32::MAX as int * u32::MAX as int,
                depth as int,
                u32::MAX as int,
            );
        }
        let count: u128 = x as u128 * y as u128 * depth as u128;
        if count <= u32::MAX as u128 {
            Ok(ObjectGrid { x, y, z })
        } else {
            Err(ConfigError::TooManyInstances)
        }
    }

    /// The extent along the first axis.
    pub fn x(&self) -> (n: u32)
        ensures
            n == self@.x,
    {
        self.x
    }

    /// The extent along the second axis.
    pub fn y(&self) -> (n: u32)
        ensures
            n == self@.y,
    {
        self.y
    }

    /// The extent along the third axis, where the grid has one.
    pub fn z(&self) -> (n: Option<u32>)
        ensures
            match n {
                Some(z) => self@.z == Some(z as nat),
                None => self@.z is None,
            },
    {
        self.z
    }

    /// The extent along the third axis; a plane is one cell deep.
    pub fn depth(&self) -> (n: u32)
        ensures
            n == self@.depth(),
    {
        match self.z {
            Some(z) => z,
            None => 1,
        }
    }

    /// The number of instances.
    pub fn instance_count(&self) -> (n: u32)
        ensures
            n == self@.instance_count(),
    {
        proof {
            use_type_invariant(self);
            lemma_count_bounds(self@);
        }
        let plane: u64 = self.x as u64 * self.y as u64;
        (plane as u128 * self.depth() as u128) as u32
    }

    /// The size in bytes of the buffer that holds one texture handle per
    /// instance.
    pub fn texture_handle_bytes(&self) -> (bytes: u64)
        ensures
            bytes == TEXTURE_HANDLE_BYTES * self@.instance_count(),
    {
        TEXTURE_HANDLE_BYTES * (self.instance_count() as u64)
    }

    /// The draw identifiers of the instances: each instance's place in the
    /// enumeration, in order.
    pub fn draw_ids(&self) -> (ids: Vec<u32>)
        ensures
            ids@.len() == self@.instance_count(),
            forall|i: int| 0 <= i < ids@.len() ==> ids@[i] == i,
    {
        let count = self.instance_count();
        let mut ids: Vec<u32> = Vec::new();
        let mut next: u32 = 0;
        while next < count
            invariant
                next <= count,
                ids@.len() == next,
                forall|i: int| 0 <= i < ids@.len() ==> ids@[i] == i,
            decreases count - next,
        {
            ids.push(next);
            next += 1;
        }
        ids
    }
}

/// The plane of a grid holds no more cells than fit a `u64`.
proof fn lemma_count_bounds(grid: GridModel)
    requires
        grid.x <= u32::MAX,
        grid.y <= u32::MAX,
    ensures
        grid.x * grid.y <= u64::MAX,
{
    lemma_mul_upper_bound(grid.x as int, u32::MAX as int, grid.y as int, u32::MAX as int);
}

/// The enumeration numbers the cells of the grid one for one: a cell's index
/// is below the instance count, and the cell at that index is the cell.
pub proof fn lemma_cell_round_trip(grid: GridModel, cell: Cell)
    requires
        grid.contains(cell),
    ensures
        grid.linear_index(cell) < grid.instance_count(),
        grid.cell_at(grid.linear_index(cell)) == cell,
{
    let d = grid.depth() as int;
    let row = cell.x * grid.y + cell.y;
    lemma_fundamental_div_mod_converse(row * d + cell.z, d, row as int, cell.z as int);
    lemma_fundamental_div_mod_converse(row as int, grid.y as int, cell.x as int, cell.y as int);
    lemma_mul_inequality(cell.x as int + 1, grid.x as int, grid.y as int);
    assert(cell.x * grid.y + grid.y == (cell.x + 1) * grid.y) by (nonlinear_arith);
    lemma_mul_inequality(row as int + 1, (grid.x * grid.y) as int, d);
    assert(row * d + d == (row + 1) * d) by (nonlinear_arith);
}

/// Every index below the instance count is the index of exactly the cell
/// that the enumeration reaches there, and that cell lies in the grid.
pub proof fn lemma_index_round_trip(grid: GridModel, index: nat)
    requires
        index < grid.instance_count(),
    ensures
        grid.contains(grid.cell_at(index)),
        grid.linear_index(grid.cell_at(index)) == index,
{
    let d = grid.depth() as int;
    let y = grid.y as int;
    let i = index as int;
    assert(d > 0 && y > 0 && grid.x > 0) by (nonlinear_arith)
        requires
            0 <= i < grid.x * y * d,
            d >= 0,
            y >= 0,
    ;
    let row = i / d;
    lemma_fundamental_div_mod(i, d);
    lemma_fundamental_div_mod(row, y);
    assert(row < grid.x * y) by (nonlinear_arith)
        requires
            i == d * row + i % d,
            0 <= i % d < d,
            i < grid.x * y * d,
            d > 0,
    ;
    assert(row / y < grid.x) by (nonlinear_arith)
        requires
            row == y * (row / y) + row % y,
            0 <= row % y < y,
            row < grid.x * y,
            y > 0,
    ;
    assert(((row / y) * y + row % y) * d + i % d == i) by (nonlinear_arith)
        requires
            row == y * (row / y) + row % y,
            i == d * row + i % d,
    ;
}

} // verus!
