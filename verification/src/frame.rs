//! The frame clock and the decisions of the frame loop: which region a frame
//! writes, which one its draw reads, and what follows once it was presented.
//!
//! The loop itself, which maps, draws and polls, is run by the caller. It
//! asks the clock for a plan, carries it out, and reports what happened.

use crate::region::{
    lemma_write_never_aliases_read, read_index, write_index, Region, RegionLayout, RegionModel,
};
use vstd::arithmetic::div_mod::{lemma_add_mod_noop, lemma_mod_self_0, lemma_small_mod};
use vstd::arithmetic::mul::lemma_mul_inequality;
use vstd::prelude::*;

verus! {

/// The state that the clock hands to each component of a frame.
#[derive(Clone, Copy, Debug, PartialEq, Eq, Structural)]
pub struct FrameState {
    pub iteration: u32,
    pub region_index: usize,
}

/// What one frame does to the streaming buffer.
#[derive(Clone, Copy, Debug, PartialEq, Eq, Structural)]
pub struct FramePlan {
    /// The number of the frame.
    pub iteration: u32,
    /// The region that the frame's payload is written to.
    pub write: Region,
    /// The region that the frame's draw reads, once there is one whose write
    /// has ended.
    pub read: Option<Region>,
}

/// What the caller saw at the end of a frame.
#[derive(Clone, Copy, Debug, PartialEq, Eq, Structural)]
pub enum FrameEvent {
    /// The frame was drawn and presented; the close signal was then polled.
    Presented { close_requested: bool },
    /// Mapping, drawing or presenting failed.
    Failed,
}

/// What the loop does next.
#[derive(Clone, Copy, Debug, PartialEq, Eq, Structural)]
pub enum LoopAction {
    /// Go on with the next frame.
    NextFrame,
    /// Leave the loop: the close signal was seen.
    Exit,
    /// Give up: a frame failed, or the clock can count no further.
    Abort,
}

/// The mathematical model of a [`FrameClock`].
pub struct ClockModel {
    pub layout: RegionModel,
    pub lag: nat,
    pub iteration: nat,
}

impl ClockModel {
    /// The region that the current frame writes.
    pub open spec fn write_region(self) -> nat {
        write_index(self.iteration, self.layout.count)
    }

    /// The region that the current frame's draw reads.
    pub open spec fn read_region(self) -> nat {
        read_index(self.iteration, self.lag, self.layout.count)
    }

    /// Whether a frame old enough to be drawn has been written.
    pub open spec fn has_read_region(self) -> bool {
        self.iteration >= self.lag
    }

    /// Whether the device never reads what is being written: drawing runs at
    /// least one frame behind, and fewer frames than there are regions.
    pub open spec fn is_isolated(self) -> bool {
        1 <= self.lag < self.layout.count
    }

    /// What the loop does after `event`.
    pub open spec fn action(self, event: FrameEvent) -> LoopAction {
        match event {
            FrameEvent::Failed => LoopAction::Abort,
            FrameEvent::Presented { close_requested } => if close_requested {
                LoopAction::Exit
            } else if self.iteration < u32::MAX {
                LoopAction::NextFrame
            } else {
                LoopAction::Abort
            },
        }
    }

    /// The clock after `event`: one iteration on where the loop goes on,
    /// unchanged where it ends.
    pub open spec fn after(self, event: FrameEvent) -> ClockModel {
        if self.action(event) == LoopAction::NextFrame {
            ClockModel { iteration: self.iteration + 1, ..self }
        } else {
            self
        }
    }
}

/// The frame clock: the iteration counter that drives a frame loop over one
/// streaming buffer, together with the region that the counter has reached.
#[derive(Debug)]
pub struct FrameClock {
    layout: RegionLayout,
    lag: u32,
    iteration: u32,
    region_index: usize,
}

impl View for FrameClock {
    type V = ClockModel;

    closed spec fn view(&self) -> ClockModel {
        ClockModel {
            layout: self.layout@,
            lag: self.lag as nat,
            iteration: self.iteration as nat,
        }
    }
}

impl FrameClock {
    #[verifier::type_invariant]
    pub(crate) open spec fn inv(&self) -> bool {
        &&& self@.layout.wf()
        &&& self.stored_region() == self@.write_region()
    }

    /// The region index that the clock keeps beside its counter.
    pub(crate) closed spec fn stored_region(&self) -> nat {
        self.region_index as nat
    }

    /// A clock at iteration zero over `layout`, for a loop whose draws run
    /// `lag` frames behind its writes.
    pub fn new(layout: RegionLayout, lag: u32) -> (clock: FrameClock)
        ensures
            clock@ == (ClockModel { layout: layout@, lag: lag as nat, iteration: 0 }),
    {
        proof {
            use_type_invariant(&layout);
        }
        FrameClock { layout, lag, iteration: 0, region_index: 0 }
    }

    /// A clock over `layout` that takes up the count at `iteration`.
    pub fn starting_at(layout: RegionLayout, lag: u32, iteration: u32) -> (clock: FrameClock)
        ensures
            clock@ == (ClockModel {
                layout: layout@,
                lag: lag as nat,
                iteration: iteration as nat,
            }),
    {
        proof {
            use_type_invariant(&layout);
        }
        let region_index = layout.current_write_index(iteration);
        FrameClock { layout, lag, iteration, region_index }
    }

    /// The iteration and the region that it writes.
    pub fn state(&self) -> (state: FrameState)
        ensures
            state.iteration == self@.iteration,
            state.region_index == self@.write_region(),
            state.region_index < self@.layout.count,
    {
        proof {
            use_type_invariant(self);
        }
        FrameState { iteration: self.iteration, region_index: self.region_index }
    }

    /// The plan of the current frame.
    ///
    /// The frame writes the region that the rotation has reached. Its draw
    /// reads the region written `lag` frames earlier, as soon as that many
    /// frames exist. Where drawing runs behind by at least one frame and by
    /// fewer frames than there are regions, the two regions are distinct and
    /// share no record.
    pub fn plan(&self) -> (plan: FramePlan)
        ensures
            plan.iteration == self@.iteration,
            plan.write.is_region_of(self@.layout, self@.write_region()),
            plan.write.end <= self@.layout.capacity(),
            self@.has_read_region() <==> plan.read is Some,
            plan.read matches Some(read) ==> {
                &&& read.is_region_of(self@.layout, self@.read_region())
                &&& read.end <= self@.layout.capacity()
                &&& self@.is_isolated() ==> read.index != plan.write.index && (read.end
                    <= plan.write.start || plan.write.end <= read.start)
            },
    {
        proof {
            use_type_invariant(self);
        }
        let write = self.layout.region_within(self.region_index);
        let read = match self.layout.current_read_index(self.iteration, self.lag) {
            Some(index) => {
                let read = self.layout.region_within(index);
                proof {
                    let model = self@;
                    if model.is_isolated() {
                        lemma_write_never_aliases_read(
                            model.iteration,
                            model.lag,
                            model.layout.count,
                        );
                        lemma_ranges_apart(model.layout, write, read);
                    }
                }
                Some(read)
            },
            None => None,
        };
        FramePlan { iteration: self.iteration, write, read }
    }

    /// Takes in what happened at the end of the current frame and says what
    /// the loop does next. The clock moves on by one iteration exactly where
    /// the loop goes on.
    pub fn on_event(&mut self, event: FrameEvent) -> (action: LoopAction)
        ensures
            action == old(self)@.action(event),
            final(self)@ == old(self)@.after(event),
    {
        proof {
            use_type_invariant(&*self);
        }
        match event {
            FrameEvent::Failed => LoopAction::Abort,
            FrameEvent::Presented { close_requested } => {
                if close_requested {
                    LoopAction::Exit
                } else if self.iteration < u32::MAX {
                    proof {
                        lemma_rotation_step(self.iteration as nat, self@.layout.count);
                    }
                    let count = self.layout.region_count();
                    let next_region: usize = if self.region_index + 1 >= count {
                        0
                    } else {
                        self.region_index + 1
                    };
                    *self = FrameClock {
                        layout: self.layout,
                        lag: self.lag,
                        iteration: self.iteration + 1,
                        region_index: next_region,
                    };
                    LoopAction::NextFrame
                } else {
                    LoopAction::Abort
                }
            },
        }
    }
}

/// Two regions of one layout with distinct indices span ranges that do not
/// overlap.
proof fn lemma_ranges_apart(layout: RegionModel, first: Region, second: Region)
    requires
        first.is_region_of(layout, first.index as nat),
        second.is_region_of(layout, second.index as nat),
        first.index != second.index,
    ensures
        first.end <= second.start || second.end <= first.start,
{
    if first.index < second.index {
        lemma_mul_inequality(first.index as int + 1, second.index as int, layout.size as int);
    } else {
        lemma_mul_inequality(second.index as int + 1, first.index as int, layout.size as int);
    }
}

/// Stepping the region index by one, and back to zero from the last region,
/// keeps it equal to the iteration number modulo the number of regions.
pub proof fn lemma_rotation_step(iteration: nat, regions: nat)
    requires
        regions > 0,
    ensures
        write_index(iteration + 1, regions) == if write_index(iteration, regions) + 1
            >= regions {
            0
        } else {
            write_index(iteration, regions) + 1
        },
{
    let r = regions as int;
    lemma_add_mod_noop(iteration as int, 1, r);
    if regions > 1 {
        lemma_small_mod(1, regions);
        if iteration % regions + 1 >= regions {
            lemma_mod_self_0(r);
        } else {
            lemma_small_mod((iteration % regions + 1) as nat, regions);
        }
    }
}

} // verus!
