//! The march offset: a raster-scan sweep driven by two modular counters.

use crate::error::ConfigError;
use vstd::arithmetic::div_mod::{
    lemma_fundamental_div_mod, lemma_fundamental_div_mod_converse, lemma_mod_multiples_vanish,
};
use vstd::arithmetic::mul::lemma_mul_upper_bound;
use vstd::prelude::*;

verus! {

/// The mathematical model of a [`MarchConfig`].
pub struct MarchModel {
    pub period_x: nat,
    pub period_y: nat,
    pub step_x: nat,
    pub step_y: nat,
}

impl MarchModel {
    /// Both counters have a period of at least one iteration.
    pub open spec fn wf(self) -> bool {
        self.period_x >= 1 && self.period_y >= 1
    }

    /// The number of iterations after which the sweep starts over.
    pub open spec fn full_period(self) -> nat {
        self.period_x * self.period_y
    }

    /// The fast counter: it advances every iteration.
    pub open spec fn phase_x(self, iteration: nat) -> nat {
        iteration % self.period_x
    }

    /// The slow counter: it advances once per full run of the fast one.
    pub open spec fn phase_y(self, iteration: nat) -> nat {
        (iteration / self.period_x) % self.period_y
    }

    /// The horizontal offset at `iteration`.
    pub open spec fn offset_x(self, iteration: nat) -> nat {
        self.phase_x(iteration) * self.step_x
    }

    /// The vertical offset at `iteration`.
    pub open spec fn offset_y(self, iteration: nat) -> nat {
        self.phase_y(iteration) * self.step_y
    }

    /// The largest horizontal offset that any iteration yields.
    pub open spec fn max_offset_x(self) -> int {
        (self.period_x - 1) * self.step_x
    }

    /// The largest vertical offset that any iteration yields.
    pub open spec fn max_offset_y(self) -> int {
        (self.period_y - 1) * self.step_y
    }
}

/// The offset that the march adds to every position of one frame.
#[derive(Clone, Copy, Debug, PartialEq, Eq, Structural)]
pub struct MarchOffset {
    pub x: u64,
    pub y: u64,
}

/// The periods and step sizes of the march.
#[derive(Clone, Copy, Debug)]
pub struct MarchConfig {
    period_x: u32,
    period_y: u32,
    step_x: u32,
    step_y: u32,
}

impl View for MarchConfig {
    type V = MarchModel;

    closed spec fn view(&self) -> MarchModel {
        MarchModel {
            period_x: self.period_x as nat,
            period_y: self.period_y as nat,
            step_x: self.step_x as nat,
            step_y: self.step_y as nat,
        }
    }
}

impl MarchConfig {
    #[verifier::type_invariant]
    pub(crate) open spec fn inv(&self) -> bool {
        self@.wf()
    }

    /// A march that sweeps `period_x` steps of `step_x` horizontally, and
    /// after each such run one of `period_y` steps of `step_y` vertically.
    pub fn new(
        period_x: u32,
        period_y: u32,
        step_x: u32,
        step_y: u32,
    ) -> (r: Result<MarchConfig, ConfigError>)
        ensures
            period_x == 0 || period_y == 0 <==> r == Err::<MarchConfig, ConfigError>(
                ConfigError::ZeroPeriod,
            ),
            period_x > 0 && period_y > 0 <==> r is Ok,
            r is Ok ==> r->Ok_0@ == (MarchModel {
                period_x: period_x as nat,
                period_y: period_y as nat,
                step_x: step_x as nat,
                step_y: step_y as nat,
            }),
    {
        if period_x == 0 || period_y == 0 {
            Err(ConfigError::ZeroPeriod)
        } else {
            Ok(MarchConfig { period_x, period_y, step_x, step_y })
        }
    }

    /// The number of horizontal steps in one run.
    pub fn period_x(&self) -> (p: u32)
        ensures
            p == self@.period_x,
            p >= 1,
    {
        proof {
            use_type_invariant(self);
        }
        self.period_x
    }

    /// The number of vertical steps in one sweep.
    pub fn period_y(&self) -> (p: u32)
        ensures
            p == self@.period_y,
            p >= 1,
    {
        proof {
            use_type_invariant(self);
        }
        self.period_y
    }

    /// The length of one horizontal step.
    pub fn step_x(&self) -> (s: u32)
        ensures
            s == self@.step_x,
    {
        self.step_x
    }

    /// The length of one vertical step.
    pub fn step_y(&self) -> (s: u32)
        ensures
            s == self@.step_y,
    {
        self.step_y
    }

    /// The offset of the frame at `iteration`.
    pub fn offset(&self, iteration: u32) -> (o: MarchOffset)
        ensures
            o.x == self@.offset_x(iteration as nat),
            o.y == self@.offset_y(iteration as nat),
            o.x <= self@.max_offset_x(),
            o.y <= self@.max_offset_y(),
    {
        proof {
            use_type_invariant(self);
        }
        let phase_x: u32 = iteration % self.period_x;
        let phase_y: u32 = (iteration / self.period_x) % self.period_y;
        proof {
            lemma_mul_upper_bound(
                phase_x as int,
                (self.period_x - 1) as int,
                self.step_x as int,
                self.step_x as int,
            );
            lemma_mul_upper_bound(
                phase_y as int,
                (self.period_y - 1) as int,
                self.step_y as int,
                self.step_y as int,
            );
            lemma_mul_upper_bound(
                (self.period_x - 1) as int,
                u32::MAX as int,
                self.step_x as int,
                u32::MAX as int,
            );
            lemma_mul_upper_bound(
                (self.period_y - 1) as int,
                u32::MAX as int,
                self.step_y as int,
                u32::MAX as int,
            );
        }
        MarchOffset {
            x: (phase_x as u64) * (self.step_x as u64),
            y: (phase_y as u64) * (self.step_y as u64),
        }
    }
}

/// The sweep restarts after a full period: the offsets at `iteration` and at
/// `iteration + period_x * period_y` are the same.
pub proof fn lemma_march_full_period(march: MarchModel, iteration: nat)
    requires
        march.wf(),
    ensures
        march.offset_x(iteration + march.full_period()) == march.offset_x(iteration),
        march.offset_y(iteration + march.full_period()) == march.offset_y(iteration),
{
    let px = march.period_x as int;
    let py = march.period_y as int;
    let i = iteration as int;
    lemma_mod_multiples_vanish(py, i, px);
    assert((i + px * py) / px == i / px + py) by {
        lemma_fundamental_div_mod(i, px);
        assert(px * (i / px + py) == px * (i / px) + px * py) by (nonlinear_arith);
        lemma_fundamental_div_mod_converse(i + px * py, px, i / px + py, i % px);
    }
    lemma_mod_multiples_vanish(1, i / px, py);
}

} // verus!
