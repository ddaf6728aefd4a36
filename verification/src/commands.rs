//! The indirect draw assembler: one draw-command record per instance, laid
//! out in the order of the grid's enumeration, so that a single indirect
//! multi-draw issues them all.

use crate::error::ConfigError;
use crate::grid::ObjectGrid;
use vstd::prelude::*;

verus! {

/// One indirect, indexed draw.
#[derive(Clone, Copy, Debug, PartialEq, Eq, Structural)]
pub struct DrawCommand {
    /// The number of indices to draw.
    pub count: u32,
    /// The number of instances to draw.
    pub instance_count: u32,
    /// The first index to read.
    pub first_index: u32,
    /// What is added to every index read.
    pub base_vertex: u32,
    /// The number of the first instance.
    pub base_instance: u32,
}

/// Which field of a draw command tells the objects apart: the base instance
/// where the data per instance varies, the base vertex where the geometry
/// does.
#[derive(Clone, Copy, Debug, PartialEq, Eq, Structural)]
pub enum ObjectSlot {
    BaseInstance,
    BaseVertex,
}

/// The command that draws object number `object` once, with the `index_count`
/// indices of the geometry that all objects share.
pub open spec fn command_for(object: u32, index_count: u32, slot: ObjectSlot) -> DrawCommand {
    DrawCommand {
        count: index_count,
        instance_count: 1,
        first_index: 0,
        base_vertex: if slot == ObjectSlot::BaseVertex {
            object
        } else {
            0
        },
        base_instance: if slot == ObjectSlot::BaseInstance {
            object
        } else {
            0
        },
    }
}

/// `records` holds the commands of `instances` objects: one per object, the
/// `i`-th drawing object number `i`.
pub open spec fn is_command_list(
    records: Seq<DrawCommand>,
    instances: nat,
    index_count: u32,
    slot: ObjectSlot,
) -> bool {
    &&& records.len() == instances
    &&& forall|i: int|
        0 <= i < records.len() ==> #[trigger] records[i] == command_for(i as u32, index_count, slot)
}

/// Writes the draw commands of `grid` into `output`, which stands for the
/// command region that receives them.
///
/// Every record of `output` is overwritten. Where `output` has not exactly
/// one record per instance, nothing is written and the mismatch is reported.
pub fn assemble_commands(
    output: &mut Vec<DrawCommand>,
    grid: &ObjectGrid,
    index_count: u32,
    slot: ObjectSlot,
) -> (r: Result<(), ConfigError>)
    ensures
        old(output)@.len() != grid@.instance_count() ==> r == Err::<(), ConfigError>(
            ConfigError::CapacityMismatch,
        ) && final(output)@ == old(output)@,
        old(output)@.len() == grid@.instance_count() ==> r is Ok && is_command_list(
            final(output)@,
            grid@.instance_count(),
            index_count,
            slot,
        ),
{
    let count = grid.instance_count();
    if output.len() != count as usize {
        return Err(ConfigError::CapacityMismatch);
    }
    let mut object: u32 = 0;
    while object < count
        invariant
            object <= count,
            output@.len() == count,
            forall|i: int|
                0 <= i < object ==> #[trigger] output@[i] == command_for(
                    i as u32,
                    index_count,
                    slot,
                ),
        decreases count - object,
    {
        let (base_vertex, base_instance): (u32, u32) = match slot {
            ObjectSlot::BaseVertex => (object, 0),
            ObjectSlot::BaseInstance => (0, object),
        };
        output[object as usize] = DrawCommand {
            count: index_count,
            instance_count: 1,
            first_index: 0,
            base_vertex,
            base_instance,
        };
        object += 1;
    }
    Ok(())
}

} // verus!
