//! The streaming region allocator: one buffer split into rotating regions,
//! of which each iteration writes the next.
//!
//! Which region an iteration writes follows from the iteration number alone.
//! No region carries a flag: that the device never reads a region while it is
//! written rests on there being more regions than frames in flight.

use crate::error::ConfigError;
use vstd::arithmetic::div_mod::{
    lemma_fundamental_div_mod, lemma_mod_add_multiples_vanish, lemma_mod_equivalence,
    lemma_mod_multiples_basic, lemma_small_mod,
};
use vstd::arithmetic::mul::{lemma_mul_inequality, lemma_mul_is_distributive_add_other_way};
use vstd::prelude::*;

verus! {

/// The index of the region that iteration `iteration` writes, out of
/// `regions` rotating regions.
pub open spec fn write_index(iteration: nat, regions: nat) -> nat
    recommends
        regions > 0,
{
    iteration % regions
}

/// The index of the region that the draw issued at `iteration` reads when
/// drawing runs `lag` frames behind writing: the one written `lag`
/// iterations earlier. Before that many frames exist, it is the region that
/// the rotation would have written.
pub open spec fn read_index(iteration: nat, lag: nat, regions: nat) -> nat
    recommends
        regions > 0,
{
    ((iteration - lag) % (regions as int)) as nat
}

/// The number of regions of a triple-buffered stream: one is written while up
/// to two more are in flight.
pub const TRIPLE_BUFFERED: usize = 3;

/// The part that a region plays while one frame is prepared. The parts follow
/// from the iteration number; no region stores its own.
#[derive(Clone, Copy, Debug, PartialEq, Eq, Structural)]
pub enum RegionRole {
    /// The region receives the payload of the current frame.
    Writing,
    /// The region holds a frame that a pending draw may still read.
    InFlight,
    /// The region is neither written nor read.
    Idle,
}

/// How many iterations ago region `index` was last due to be written: zero
/// for the region that `iteration` writes.
pub open spec fn frames_since_written(iteration: nat, index: nat, regions: nat) -> nat
    recommends
        regions > 0,
{
    ((iteration - index) % (regions as int)) as nat
}

/// The role of region `index` at `iteration`, where the draws of up to
/// `depth` earlier frames may still be pending.
pub open spec fn role_of(iteration: nat, depth: nat, index: nat, regions: nat) -> RegionRole
    recommends
        regions > 0,
        index < regions,
{
    let age = frames_since_written(iteration, index, regions);
    if age == 0 {
        RegionRole::Writing
    } else if age <= depth && age <= iteration {
        RegionRole::InFlight
    } else {
        RegionRole::Idle
    }
}

/// The mathematical model of a [`RegionLayout`].
pub struct RegionModel {
    pub count: nat,
    pub size: nat,
}

impl RegionModel {
    /// At least one region, and the whole buffer is addressable.
    pub open spec fn wf(self) -> bool {
        &&& self.count >= 1
        &&& self.capacity() <= usize::MAX
    }

    /// The number of records in the whole buffer.
    pub open spec fn capacity(self) -> nat {
        self.count * self.size
    }

    /// The offset of the first record of region `index`.
    pub open spec fn start(self, index: nat) -> nat {
        index * self.size
    }

    /// The offset just past the last record of region `index`.
    pub open spec fn end(self, index: nat) -> nat {
        (index + 1) * self.size
    }

    /// Whether the record at `offset` belongs to region `index`.
    pub open spec fn holds(self, index: nat, offset: nat) -> bool {
        self.start(index) <= offset < self.end(index)
    }
}

/// One region of a streaming buffer: its index and the records `start..end`
/// that it spans.
#[derive(Clone, Copy, Debug, PartialEq, Eq, Structural)]
pub struct Region {
    pub index: usize,
    pub start: usize,
    pub end: usize,
}

impl Region {
    /// `self` is region `index` of `layout`.
    pub open spec fn is_region_of(self, layout: RegionModel, index: nat) -> bool {
        &&& self.index == index
        &&& self.start == layout.start(index)
        &&& self.end == layout.end(index)
    }
}

/// A fixed-capacity buffer divided into equally sized regions.
#[derive(Clone, Copy, Debug)]
pub struct RegionLayout {
    region_count: usize,
    region_size: usize,
}

impl View for RegionLayout {
    type V = RegionModel;

    closed spec fn view(&self) -> RegionModel {
        RegionModel { count: self.region_count as nat, size: self.region_size as nat }
    }
}

impl RegionLayout {
    #[verifier::type_invariant]
    pub(crate) open spec fn inv(&self) -> bool {
        self@.wf()
    }

    /// Lays out `region_count` regions of `region_size` records each.
    pub fn new(region_count: usize, region_size: usize) -> (r: Result<RegionLayout, ConfigError>)
        ensures
            region_count == 0 ==> r == Err::<RegionLayout, ConfigError>(ConfigError::NoRegions),
            region_count > 0 && region_count * region_size > usize::MAX ==> r == Err::<
                RegionLayout,
                ConfigError,
            >(ConfigError::CapacityOverflow),
            region_count > 0 && region_count * region_size <= usize::MAX ==> r is Ok
                && r->Ok_0@ == (RegionModel {
                count: region_count as nat,
                size: region_size as nat,
            }),
    {
        if region_count == 0 {
            return Err(ConfigError::NoRegions);
        }
        match region_count.checked_mul(region_size) {
            Some(_) => Ok(RegionLayout { region_count, region_size }),
            None => Err(ConfigError::CapacityOverflow),
        }
    }

    /// The region that iteration `iteration` writes.
    pub fn current_write_index(&self, iteration: u32) -> (k: usize)
        ensures
            k == write_index(iteration as nat, self@.count),
            k < self@.count,
    {
        proof {
            use_type_invariant(self);
        }
        (iteration as usize) % self.region_count
    }

    /// The region that the draw issued at `iteration` reads when drawing runs
    /// `lag` frames behind writing, once a frame that old has been written.
    pub fn current_read_index(&self, iteration: u32, lag: u32) -> (k: Option<usize>)
        ensures
            iteration < lag <==> k is None,
            k matches Some(index) ==> index == read_index(
                iteration as nat,
                lag as nat,
                self@.count,
            ) && index < self@.count,
    {
        if iteration < lag {
            None
        } else {
            Some(self.current_write_index(iteration - lag))
        }
    }

    /// Region `index` with the records that it spans, where there is such a
    /// region.
    pub fn region(&self, index: usize) -> (r: Option<Region>)
        ensures
            index >= self@.count <==> r is None,
            r matches Some(region) ==> region.is_region_of(self@, index as nat) && region.end
                <= self@.capacity(),
    {
        proof {
            use_type_invariant(self);
        }
        if index >= self.region_count {
            None
        } else {
            Some(self.region_within(index))
        }
    }

    /// Region `index`, which is known to exist.
    pub(crate) fn region_within(&self, index: usize) -> (region: Region)
        requires
            index < self@.count,
        ensures
            region.is_region_of(self@, index as nat),
            region.end <= self@.capacity(),
    {
        proof {
            use_type_invariant(self);
            lemma_region_within_capacity(self@, index as nat);
        }
        let start: usize = index * self.region_size;
        Region { index, start, end: start + self.region_size }
    }

    /// The role of region `index` at `iteration`, where the draws of up to
    /// `depth` earlier frames may still be pending; nothing where there is no
    /// such region.
    pub fn role(&self, index: usize, iteration: u32, depth: u32) -> (r: Option<RegionRole>)
        ensures
            index >= self@.count <==> r is None,
            r matches Some(role) ==> role == role_of(
                iteration as nat,
                depth as nat,
                index as nat,
                self@.count,
            ),
    {
        proof {
            use_type_invariant(self);
        }
        if index >= self.region_count {
            return None;
        }
        let written = self.current_write_index(iteration);
        let age: usize = if written >= index {
            written - index
        } else {
            self.region_count - index + written
        };
        proof {
            lemma_age_from_written(iteration as nat, index as nat, self@.count);
        }
        if age == 0 {
            Some(RegionRole::Writing)
        } else if age as u64 <= depth as u64 && age as u64 <= iteration as u64 {
            Some(RegionRole::InFlight)
        } else {
            Some(RegionRole::Idle)
        }
    }

    /// Checks that a payload of `records` records per frame fills a region
    /// exactly.
    pub fn check_capacity(&self, records: usize) -> (r: Result<(), ConfigError>)
        ensures
            records == self@.size <==> r is Ok,
            records != self@.size <==> r == Err::<(), ConfigError>(ConfigError::CapacityMismatch),
    {
        if records == self.region_size {
            Ok(())
        } else {
            Err(ConfigError::CapacityMismatch)
        }
    }

    /// The number of regions.
    pub fn region_count(&self) -> (n: usize)
        ensures
            n == self@.count,
            n >= 1,
    {
        proof {
            use_type_invariant(self);
        }
        self.region_count
    }

    /// The number of records in each region.
    pub fn region_size(&self) -> (n: usize)
        ensures
            n == self@.size,
    {
        self.region_size
    }

    /// The number of records in the whole buffer.
    pub fn capacity(&self) -> (n: usize)
        ensures
            n == self@.capacity(),
    {
        proof {
            use_type_invariant(self);
        }
        self.region_count * self.region_size
    }
}

/// The rotation has period `regions`: iteration `iteration + regions` writes
/// the region that iteration `iteration` wrote.
pub proof fn lemma_write_index_periodic(iteration: nat, regions: nat)
    requires
        regions > 0,
    ensures
        write_index(iteration + regions, regions) == write_index(iteration, regions),
{
    lemma_mod_add_multiples_vanish(iteration as int, regions as int);
}

/// With fewer frames in flight than there are regions, the region that an
/// iteration writes is none of those still being read: for every lag from one
/// frame up to `regions - 1` frames, the written and the read region differ.
pub proof fn lemma_write_never_aliases_read(iteration: nat, lag: nat, regions: nat)
    requires
        1 <= lag < regions,
    ensures
        write_index(iteration, regions) != read_index(iteration, lag, regions),
{
    let i = iteration as int;
    let r = regions as int;
    if i % r == (i - lag) % r {
        lemma_mod_equivalence(i, i - lag, r);
        lemma_small_mod(lag, regions);
    }
}

/// With two regions or more, and drawing one frame behind writing, no
/// iteration writes the region that its own draw reads.
pub proof fn lemma_one_frame_lag_never_aliases(iteration: nat, regions: nat)
    requires
        regions >= 2,
    ensures
        write_index(iteration, regions) != read_index(iteration, 1, regions),
{
    lemma_write_never_aliases_read(iteration, 1, regions);
}

/// Every region lies within the buffer.
pub proof fn lemma_region_within_capacity(layout: RegionModel, index: nat)
    requires
        index < layout.count,
    ensures
        layout.start(index) <= layout.end(index) <= layout.capacity(),
        layout.end(index) - layout.start(index) == layout.size,
{
    lemma_mul_inequality(index as int + 1, layout.count as int, layout.size as int);
    lemma_mul_is_distributive_add_other_way(layout.size as int, index as int, 1);
}

/// Distinct regions share no record.
pub proof fn lemma_regions_disjoint(layout: RegionModel, first: nat, second: nat, offset: nat)
    requires
        first != second,
    ensures
        !(layout.holds(first, offset) && layout.holds(second, offset)),
{
    if first < second {
        lemma_mul_inequality(first as int + 1, second as int, layout.size as int);
    } else {
        lemma_mul_inequality(second as int + 1, first as int, layout.size as int);
    }
}

/// The age of a region follows from the index being written: it is their
/// distance, counted backwards round the ring.
proof fn lemma_age_from_written(iteration: nat, index: nat, regions: nat)
    requires
        index < regions,
    ensures
        frames_since_written(iteration, index, regions) == if write_index(iteration, regions)
            >= index {
            write_index(iteration, regions) - index
        } else {
            regions - index + write_index(iteration, regions)
        },
{
    let i = iteration as int;
    let r = regions as int;
    let w = i % r;
    let age = if w >= index {
        w - index
    } else {
        r - index + w
    };
    lemma_fundamental_div_mod(i, r);
    lemma_small_mod(age as nat, regions);
    assert((i - index - age) % r == 0) by {
        if w >= index {
            lemma_mod_multiples_basic(i / r, r);
            assert(i - index - age == (i / r) * r) by (nonlinear_arith)
                requires
                    i == r * (i / r) + w,
                    age == w - index,
            ;
        } else {
            lemma_mod_multiples_basic(i / r - 1, r);
            assert(i - index - age == (i / r - 1) * r) by (nonlinear_arith)
                requires
                    i == r * (i / r) + w,
                    age == r - index + w,
            ;
        }
    }
    lemma_mod_equivalence(i - index, age, r);
}

/// Exactly the region that the iteration writes has the role of being
/// written.
pub proof fn lemma_writing_role(iteration: nat, depth: nat, index: nat, regions: nat)
    requires
        index < regions,
    ensures
        role_of(iteration, depth, index, regions) == RegionRole::Writing <==> index
            == write_index(iteration, regions),
{
    lemma_age_from_written(iteration, index, regions);
}

/// With fewer frames in flight than there are regions, a region is in flight
/// exactly if it is the one that a draw lagging by one to `depth` frames
/// reads, for a frame that exists. Such a region is then never the one being
/// written.
pub proof fn lemma_in_flight_role(iteration: nat, depth: nat, index: nat, regions: nat)
    requires
        index < regions,
        depth < regions,
    ensures
        role_of(iteration, depth, index, regions) == RegionRole::InFlight <==> exists|lag: nat|
            1 <= lag <= depth && lag <= iteration && index == #[trigger] read_index(
                iteration,
                lag,
                regions,
            ),
        role_of(iteration, depth, index, regions) == RegionRole::InFlight ==> index
            != write_index(iteration, regions),
{
    let i = iteration as int;
    let r = regions as int;
    let age = frames_since_written(iteration, index, regions);
    lemma_writing_role(iteration, depth, index, regions);
    if role_of(iteration, depth, index, regions) == RegionRole::InFlight {
        lemma_index_at_age(iteration, age, index, regions);
    }
    assert forall|lag: nat|
        1 <= lag <= depth && lag <= iteration && index == #[trigger] read_index(
            iteration,
            lag,
            regions,
        ) implies age == lag by {
        lemma_fundamental_div_mod(i - lag, r);
        lemma_mod_multiples_basic((i - lag) / r, r);
        assert(i - index - lag == ((i - lag) / r) * r) by (nonlinear_arith)
            requires
                i - lag == r * ((i - lag) / r) + index,
        ;
        lemma_mod_equivalence(i - index, lag as int, r);
        lemma_small_mod(lag, regions);
    }
}

/// A region of age `age` is the one that a draw lagging by `age` frames
/// reads.
proof fn lemma_index_at_age(iteration: nat, age: nat, index: nat, regions: nat)
    requires
        index < regions,
        age == frames_since_written(iteration, index, regions),
    ensures
        index == read_index(iteration, age, regions),
{
    let i = iteration as int;
    let r = regions as int;
    lemma_fundamental_div_mod(i - index, r);
    lemma_mod_multiples_basic((i - index) / r, r);
    lemma_mod_equivalence(i - age, index as int, r);
    lemma_small_mod(index, regions);
}

} // verus!
