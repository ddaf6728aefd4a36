//! The transform payload: one record per instance, which places the instance
//! at its cell and turns it by the angle of the frame.
//!
//! Angles are counted in steps of the angular delta. Turning a step count
//! into a rotation is left to whoever builds the matrices.

use crate::error::ConfigError;
use crate::grid::{lemma_cell_round_trip, Cell, GridModel, ObjectGrid};
use vstd::arithmetic::div_mod::{
    lemma_add_mod_noop, lemma_mod_add_multiples_vanish, lemma_mod_self_0, lemma_small_mod,
};
use vstd::prelude::*;

verus! {

/// What one instance's transform is made from: the angle of the frame, in
/// steps of the angular delta, and the translation to the instance's cell.
#[derive(Clone, Copy, Debug, PartialEq, Eq, Structural)]
pub struct TransformRecord {
    pub angle_steps: u32,
    pub dx: i64,
    pub dy: i64,
    pub dz: i64,
}

/// The translation along the first axis that centres the grid: cells lie two
/// units apart.
pub open spec fn translation_x(grid: GridModel, cell: Cell) -> int {
    2 * cell.x - grid.x
}

/// The translation along the second axis.
pub open spec fn translation_y(grid: GridModel, cell: Cell) -> int {
    2 * cell.y - grid.y
}

/// The translation along the third axis. The instances of a plane are not
/// moved along it.
pub open spec fn translation_z(grid: GridModel, cell: Cell) -> int {
    match grid.z {
        Some(z) => 2 * cell.z - z,
        None => 0,
    }
}

/// `records` is the transform payload of `grid` at `angle_steps`: one record
/// per instance, in the order of the enumeration, each holding the frame's
/// angle and the translation to its own cell.
pub open spec fn is_transform_list(
    records: Seq<TransformRecord>,
    grid: GridModel,
    angle_steps: u32,
) -> bool {
    &&& records.len() == grid.instance_count()
    &&& forall|i: int|
        0 <= i < records.len() ==> {
            &&& (#[trigger] records[i]).angle_steps == angle_steps
            &&& records[i].dx == translation_x(grid, grid.cell_at(i as nat))
            &&& records[i].dy == translation_y(grid, grid.cell_at(i as nat))
            &&& records[i].dz == translation_z(grid, grid.cell_at(i as nat))
        }
}

/// Writes the transform payload of `grid` at `angle_steps` into `output`,
/// which stands for the region that receives it.
///
/// Every record of `output` is overwritten, and what is written depends on
/// `grid` and `angle_steps` alone. Where `output` has not exactly one record
/// per instance, nothing is written and the mismatch is reported.
pub fn write_transforms(
    output: &mut Vec<TransformRecord>,
    grid: &ObjectGrid,
    angle_steps: u32,
) -> (r: Result<(), ConfigError>)
    ensures
        old(output)@.len() != grid@.instance_count() ==> r == Err::<(), ConfigError>(
            ConfigError::CapacityMismatch,
        ) && final(output)@ == old(output)@,
        old(output)@.len() == grid@.instance_count() ==> r is Ok && is_transform_list(
            final(output)@,
            grid@,
            angle_steps,
        ),
{
    let count = grid.instance_count();
    if output.len() != count as usize {
        return Err(ConfigError::CapacityMismatch);
    }
    let extent_x = grid.x();
    let extent_y = grid.y();
    let extent_z = grid.z();
    let depth = grid.depth();
    let ghost model = grid@;
    let mut index: usize = 0;
    let mut x: u32 = 0;
    proof {
        assert((0 * model.y) * model.depth() == 0) by (nonlinear_arith);
    }
    while x < extent_x
        invariant
            model == grid@,
            extent_x == model.x,
            extent_y == model.y,
            depth == model.depth(),
            match extent_z {
                Some(z) => model.z == Some(z as nat),
                None => model.z is None,
            },
            count == model.instance_count(),
            output@.len() == count,
            x <= extent_x,
            index == (x * model.y) * model.depth(),
            forall|i: int|
                0 <= i < index ==> {
                    &&& (#[trigger] output@[i]).angle_steps == angle_steps
                    &&& output@[i].dx == translation_x(model, model.cell_at(i as nat))
                    &&& output@[i].dy == translation_y(model, model.cell_at(i as nat))
                    &&& output@[i].dz == translation_z(model, model.cell_at(i as nat))
                },
        decreases extent_x - x,
    {
        let mut y: u32 = 0;
        while y < extent_y
            invariant
                model == grid@,
                extent_x == model.x,
                extent_y == model.y,
                depth == model.depth(),
                match extent_z {
                    Some(z) => model.z == Some(z as nat),
                    None => model.z is None,
                },
                count == model.instance_count(),
            output@.len() == count,
                x < extent_x,
                y <= extent_y,
                index == (x * model.y + y) * model.depth(),
                forall|i: int|
                    0 <= i < index ==> {
                        &&& (#[trigger] output@[i]).angle_steps == angle_steps
                        &&& output@[i].dx == translation_x(model, model.cell_at(i as nat))
                        &&& output@[i].dy == translation_y(model, model.cell_at(i as nat))
                        &&& output@[i].dz == translation_z(model, model.cell_at(i as nat))
                    },
            decreases extent_y - y,
        {
            let mut z: u32 = 0;
            while z < depth
                invariant
                    model == grid@,
                    extent_x == model.x,
                    extent_y == model.y,
                    depth == model.depth(),
                    match extent_z {
                        Some(z) => model.z == Some(z as nat),
                        None => model.z is None,
                    },
                    count == model.instance_count(),
            output@.len() == count,
                    x < extent_x,
                    y < extent_y,
                    z <= depth,
                    index == (x * model.y + y) * model.depth() + z,
                    forall|i: int|
                        0 <= i < index ==> {
                            &&& (#[trigger] output@[i]).angle_steps == angle_steps
                            &&& output@[i].dx == translation_x(model, model.cell_at(i as nat))
                            &&& output@[i].dy == translation_y(model, model.cell_at(i as nat))
                            &&& output@[i].dz == translation_z(model, model.cell_at(i as nat))
                        },
                decreases depth - z,
            {
                let ghost cell = Cell { x: x as nat, y: y as nat, z: z as nat };
                proof {
                    lemma_cell_round_trip(model, cell);
                }
                let dz: i64 = match extent_z {
                    Some(extent) => 2 * (z as i64) - extent as i64,
                    None => 0,
                };
                output[index] = TransformRecord {
                    angle_steps,
                    dx: 2 * (x as i64) - extent_x as i64,
                    dy: 2 * (y as i64) - extent_y as i64,
                    dz,
                };
                index += 1;
                z += 1;
            }
            proof {
                assert((x * model.y + y) * model.depth() + model.depth() == (x * model.y + y + 1)
                    * model.depth()) by (nonlinear_arith);
            }
            y += 1;
        }
        proof {
            assert(x * model.y + model.y == (x + 1) * model.y) by (nonlinear_arith);
        }
        x += 1;
    }
    Ok(())
}

/// The payload is a function of its inputs: any two transform payloads of one
/// grid at one angle are the same, record for record.
pub proof fn lemma_transform_list_deterministic(
    first: Seq<TransformRecord>,
    second: Seq<TransformRecord>,
    grid: GridModel,
    angle_steps: u32,
)
    requires
        is_transform_list(first, grid, angle_steps),
        is_transform_list(second, grid, angle_steps),
    ensures
        first == second,
{
}

/// The record of a cell sits at the cell's place in the enumeration, which is
/// where a shader that indexes the payload by draw identifier looks for it.
pub proof fn lemma_transform_of_cell(
    records: Seq<TransformRecord>,
    grid: GridModel,
    angle_steps: u32,
    cell: Cell,
)
    requires
        is_transform_list(records, grid, angle_steps),
        grid.contains(cell),
    ensures
        grid.linear_index(cell) < records.len(),
        records[grid.linear_index(cell) as int].dx == translation_x(grid, cell),
        records[grid.linear_index(cell) as int].dy == translation_y(grid, cell),
        records[grid.linear_index(cell) as int].dz == translation_z(grid, cell),
{
    lemma_cell_round_trip(grid, cell);
}

/// The size in bytes of one transform once it is a matrix of four by four
/// components of four bytes each.
pub const TRANSFORM_BYTES: u64 = 64;

/// The size in bytes of the buffer that holds the transforms of `grid`.
pub fn transform_buffer_bytes(grid: &ObjectGrid) -> (bytes: u64)
    ensures
        bytes == TRANSFORM_BYTES * grid@.instance_count(),
{
    TRANSFORM_BYTES * (grid.instance_count() as u64)
}

/// The step that follows `step` for a counter that starts over after
/// `wrap_at`.
pub open spec fn next_angle_step(step: nat, wrap_at: nat) -> nat {
    (step + 1) % (wrap_at + 1)
}

/// The step that a counter which starts over after `wrap_at` shows at frame
/// number `frame`.
pub open spec fn angle_step_at(frame: nat, wrap_at: nat) -> nat {
    frame % (wrap_at + 1)
}

/// The mathematical model of an [`AngleCounter`].
pub struct AngleModel {
    pub step: nat,
    pub wrap_at: nat,
}

/// The angle of the frame, counted in steps of the angular delta. Rather than
/// grow without bound, it starts over once a full turn is exceeded: after the
/// step `wrap_at`, the first whose angle lies beyond a full turn.
#[derive(Debug)]
pub struct AngleCounter {
    step: u32,
    wrap_at: u32,
}

impl View for AngleCounter {
    type V = AngleModel;

    closed spec fn view(&self) -> AngleModel {
        AngleModel { step: self.step as nat, wrap_at: self.wrap_at as nat }
    }
}

impl AngleCounter {
    #[verifier::type_invariant]
    pub(crate) open spec fn inv(&self) -> bool {
        self@.step <= self@.wrap_at
    }

    /// A counter at step zero that starts over after the step `wrap_at`.
    pub fn new(wrap_at: u32) -> (counter: AngleCounter)
        ensures
            counter@ == (AngleModel { step: 0, wrap_at: wrap_at as nat }),
    {
        AngleCounter { step: 0, wrap_at }
    }

    /// The angle of the current frame, in steps.
    pub fn step(&self) -> (s: u32)
        ensures
            s == self@.step,
            s <= self@.wrap_at,
    {
        proof {
            use_type_invariant(self);
        }
        self.step
    }

    /// Moves on to the next frame.
    pub fn advance(&mut self)
        ensures
            final(self)@.wrap_at == old(self)@.wrap_at,
            final(self)@.step == next_angle_step(old(self)@.step, old(self)@.wrap_at),
    {
        proof {
            use_type_invariant(&*self);
        }
        if self.step >= self.wrap_at {
            proof {
                lemma_mod_self_0(self.wrap_at as int + 1);
            }
            self.step = 0;
        } else {
            proof {
                lemma_small_mod((self.step + 1) as nat, (self.wrap_at + 1) as nat);
            }
            self.step = self.step + 1;
        }
    }
}

/// A counter that has followed the frames from zero shows at the next frame
/// the step that follows its own.
pub proof fn lemma_angle_step_follows(frame: nat, wrap_at: nat)
    ensures
        angle_step_at(frame + 1, wrap_at) == next_angle_step(
            angle_step_at(frame, wrap_at),
            wrap_at,
        ),
{
    lemma_add_mod_noop(frame as int, 1, wrap_at as int + 1);
    if wrap_at > 0 {
        lemma_small_mod(1, wrap_at + 1);
    }
}

/// The angle is periodic: `wrap_at + 1` frames on, the counter shows the same
/// step again.
pub proof fn lemma_angle_step_periodic(frame: nat, wrap_at: nat)
    ensures
        angle_step_at(frame + wrap_at + 1, wrap_at) == angle_step_at(frame, wrap_at),
{
    lemma_mod_add_multiples_vanish(frame as int, wrap_at as int + 1);
}

} // verus!
