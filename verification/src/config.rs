//! Simulation constants, gathered in one immutable value that every pass
//! takes explicitly: kernel normalization factors, stiffness, viscosity,
//! rest density, time step, domain bounds and gravity, all in fixed-point
//! units of `1 / fx::FP`.

use vstd::prelude::*;
use crate::fx::{FP, fdiv, in_range, quot};
use crate::vecmath::vector2::{Vector2, v_bounded};

verus! {

#[derive(Debug, Clone, Copy)]
pub struct Config {
    /// Density at which the computed pressure is zero.
    pub rest_density: i128,
    /// Pressure stiffness coefficient.
    pub int_stiff: i128,
    /// Mass carried by each particle.
    pub pmass: i128,
    /// Conversion factor from world units to kernel distance units.
    pub simscale: i128,
    /// Smoothing radius: the interaction cutoff in kernel distance units.
    pub h: i128,
    /// Time step of one tick.
    pub dt: i128,
    /// Viscosity coefficient.
    pub visc: i128,
    /// Acceleration magnitude limit.
    pub limit: i128,
    /// Particle radius used by the boundary penalty.
    pub radius: i128,
    /// Penetration threshold below which no penalty applies.
    pub epsilon: i128,
    /// Boundary penalty spring stiffness.
    pub extstiff: i128,
    /// Boundary penalty damping.
    pub extdamp: i128,
    /// Lower corner of the domain, in world units.
    pub min: Vector2,
    /// Upper corner of the domain, in world units.
    pub max: Vector2,
    /// Poly6 kernel normalization factor, for the density pass.
    pub poly6kern: i128,
    /// Spiky kernel gradient factor, for the pressure term.
    pub spikykern: i128,
    /// Laplacian kernel factor, for the viscosity term.
    pub lapkern: i128,
    /// Constant gravitational acceleration.
    pub gravity: Vector2,
}

/// Grid cell size in world units: the smoothing radius converted from kernel
/// distance units.
pub open spec fn spec_cell_size(cfg: Config) -> int {
    fdiv(cfg.h as int, cfg.simscale as int)
}

/// Number of grid columns over the domain width.
pub open spec fn spec_grid_w(cfg: Config) -> int {
    quot(cfg.max.x - cfg.min.x, spec_cell_size(cfg)) + 1
}

/// Number of grid rows over the domain height.
pub open spec fn spec_grid_h(cfg: Config) -> int {
    quot(cfg.max.y - cfg.min.y, spec_cell_size(cfg)) + 1
}

impl Config {
    /// Well-formed configuration: every constant in the representable range,
    /// with the signs the passes rely on, a positive grid cell size, and a
    /// grid small enough to index.
    pub open spec fn wf(self) -> bool {
        &&& in_range(self.rest_density as int) && self.rest_density >= 0
        &&& in_range(self.int_stiff as int) && self.int_stiff >= 0
        &&& in_range(self.pmass as int) && self.pmass >= 0
        &&& in_range(self.simscale as int) && self.simscale >= 1
        &&& in_range(self.h as int) && self.h >= 0
        &&& in_range(self.dt as int) && self.dt >= 0
        &&& in_range(self.visc as int) && self.visc >= 0
        &&& in_range(self.limit as int) && self.limit >= 0
        &&& in_range(self.radius as int) && self.radius >= 0
        &&& in_range(self.epsilon as int) && self.epsilon >= 0
        &&& in_range(self.extstiff as int) && self.extstiff >= 0
        &&& in_range(self.extdamp as int) && self.extdamp >= 0
        &&& v_bounded(self.min) && v_bounded(self.max) && v_bounded(self.gravity)
        &&& self.min.x <= self.max.x && self.min.y <= self.max.y
        &&& in_range(self.poly6kern as int) && self.poly6kern >= 0
        &&& in_range(self.spikykern as int)
        &&& in_range(self.lapkern as int) && self.lapkern >= 0
        &&& spec_cell_size(self) >= 1
        &&& spec_grid_w(self) <= 4096
        &&& spec_grid_h(self) <= 4096
    }

    /// Grid cell size in world units.
    pub fn cell_size(&self) -> (d: i128)
        requires
            self.wf(),
        ensures
            d == spec_cell_size(*self),
            d >= 1,
    {
        crate::fx::fx_div(self.h, self.simscale)
    }

    /// Number of grid columns.
    pub fn grid_w(&self) -> (w: usize)
        requires
            self.wf(),
        ensures
            w as int == spec_grid_w(*self),
            1 <= w <= 4096,
    {
        let d = self.cell_size();
        let q = crate::fx::quot_i(self.max.x - self.min.x, d);
        proof {
            crate::fx::lemma_quot_nonneg(self.max.x - self.min.x, d as int);
        }
        (q + 1) as usize
    }

    /// Number of grid rows.
    pub fn grid_h(&self) -> (h: usize)
        requires
            self.wf(),
        ensures
            h as int == spec_grid_h(*self),
            1 <= h <= 4096,
    {
        let d = self.cell_size();
        let q = crate::fx::quot_i(self.max.y - self.min.y, d);
        proof {
            crate::fx::lemma_quot_nonneg(self.max.y - self.min.y, d as int);
        }
        (q + 1) as usize
    }
}

} // verus!
