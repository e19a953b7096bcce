//! Per-particle state and the three-pass physics pipeline.
//!
//! One tick rebuilds the neighbor index from the current positions, then
//! runs the density/pressure pass, the force pass, and the integration pass
//! with penalty boundaries, in strict sequence; each pass finishes over all
//! particles before the next starts.
//!
//! After the density pass, a particle's `rho` field holds the *reciprocal*
//! of its physical density (zero when the density is zero): downstream
//! passes read it as such.

use vstd::prelude::*;
use crate::config::Config;
use crate::fx::{FP, fadd, fsub, fmul, fdiv, fsqrt, in_range};
use crate::fx;
use crate::vecmath::vector2::{
    Vector2, v_bounded, v_add, v_sub, v_mul, v_div, v_len, v_len_sq, v_dot, dot,
};
use crate::neighbor::{NeighborMap, build_spec, spec_query, new_neighbor_map, neighbors};

verus! {

/// Minus one half in fixed-point units: the factor of the pressure term.
pub const NEG_HALF: i128 = -32768;

#[derive(Debug, Clone, Copy)]
pub struct Particle {
    pub position: Vector2,
    pub velocity: Vector2,
    pub force: Vector2,
    /// Density; overwritten with the reciprocal density by the density pass.
    pub rho: i128,
    /// Scalar pressure.
    pub p: i128,
}

/// Every field of the particle lies in the representable scalar range.
pub open spec fn p_bounded(p: Particle) -> bool {
    &&& v_bounded(p.position)
    &&& v_bounded(p.velocity)
    &&& v_bounded(p.force)
    &&& in_range(p.rho as int)
    &&& in_range(p.p as int)
}

pub open spec fn ps_bounded(ps: Seq<Particle>) -> bool {
    forall|i: int| 0 <= i < ps.len() ==> p_bounded(#[trigger] ps[i])
}

/// The particle positions, in particle order.
pub open spec fn positions_of(ps: Seq<Particle>) -> Seq<Vector2> {
    Seq::new(ps.len(), |i: int| ps[i].position)
}

impl Particle {
    pub fn new(position: Vector2) -> (r: Self)
        ensures
            r.position == position,
            r.velocity == (Vector2 { x: 0i128, y: 0i128 }),
            r.force == (Vector2 { x: 0i128, y: 0i128 }),
            r.rho == 0,
            r.p == 0,
    {
        Self {
            position,
            velocity: Vector2::zero(),
            force: Vector2::zero(),
            rho: 0,
            p: 0,
        }
    }
}

/// Poly6 kernel summand of one neighbor: `(h^2 - r^2)^3` over the scaled
/// displacement, zero at and beyond the smoothing radius.
pub open spec fn pair_density_term(pi: Vector2, pj: Vector2, cfg: Config) -> int {
    let dr = v_mul(v_sub(pi, pj), cfg.simscale as int);
    let r2 = v_len_sq(dr);
    let h2 = fmul(cfg.h as int, cfg.h as int);
    if h2 > r2 {
        let c = fsub(h2, r2);
        fmul(fmul(c, c), c)
    } else {
        0
    }
}

/// Kernel sum of particle `i` over a neighbor candidate list, the candidate
/// `i` itself excluded.
pub open spec fn density_sum(ps: Seq<Particle>, ns: Seq<usize>, i: int, cfg: Config) -> int
    decreases ns.len(),
{
    if ns.len() == 0 {
        0
    } else {
        let prev = density_sum(ps, ns.drop_last(), i, cfg);
        let j = ns.last() as int;
        if j == i {
            prev
        } else {
            fadd(prev, pair_density_term(ps[i].position, ps[j].position, cfg))
        }
    }
}

/// Physical density of particle `i`, before the reciprocal transform: the
/// kernel sum scaled by particle mass and the poly6 factor.
pub open spec fn density_raw(ps: Seq<Particle>, m: Seq<Seq<usize>>, i: int, cfg: Config) -> int {
    fmul(
        fmul(density_sum(ps, spec_query(m, ps[i].position, cfg), i, cfg), cfg.pmass as int),
        cfg.poly6kern as int,
    )
}

/// Particle `i` after the density pass: density from the kernel sum, then
/// pressure, then the density field overwritten with its reciprocal.
pub open spec fn density_one(ps: Seq<Particle>, m: Seq<Seq<usize>>, i: int, cfg: Config) -> Particle {
    let rho_raw = density_raw(ps, m, i, cfg);
    Particle {
        rho: fdiv(FP as int, rho_raw) as i128,
        p: fmul(fsub(rho_raw, cfg.rest_density as int), cfg.int_stiff as int) as i128,
        ..ps[i]
    }
}

pub open spec fn density_pass_spec(ps: Seq<Particle>, m: Seq<Seq<usize>>, cfg: Config) -> Seq<
    Particle,
> {
    Seq::new(ps.len(), |i: int| density_one(ps, m, i, cfg))
}

/// Density and pressure pass: for every particle, sum the poly6 kernel over
/// the in-radius neighbor candidates at its position, scale by particle mass
/// and the poly6 factor to get the density, derive the pressure against the
/// rest density, and overwrite the density field with its reciprocal.
pub fn calculate_density_and_pressure(ps: &mut Vec<Particle>, map: &NeighborMap, cfg: &Config)
    requires
        cfg.wf(),
        ps_bounded(old(ps)@),
        map.contents() == build_spec(positions_of(old(ps)@), *cfg),
    ensures
        final(ps)@ == density_pass_spec(old(ps)@, map.contents(), *cfg),
        ps_bounded(final(ps)@),
{
    let h2 = fx::fx_mul(cfg.h, cfg.h);
    let n = ps.len();
    let mut i: usize = 0;
    while i < n
        invariant
            cfg.wf(),
            ps_bounded(old(ps)@),
            ps_bounded(ps@),
            map.contents() == build_spec(positions_of(old(ps)@), *cfg),
            h2 == fmul(cfg.h as int, cfg.h as int),
            n == ps@.len(),
            ps@.len() == old(ps)@.len(),
            i <= n,
            forall|k: int| i <= k < n ==> ps@[k] == old(ps)@[k],
            forall|k: int|
                0 <= k < i ==> ps@[k] == density_one(old(ps)@, map.contents(), k, *cfg),
            forall|k: int| 0 <= k < n ==> (#[trigger] ps@[k]).position == old(ps)@[k].position,
        decreases n - i,
    {
        let pos = ps[i].position;
        let ns = neighbors(map, pos, cfg);
        proof {
            crate::neighbor::lemma_query_bounds(
                map.contents(),
                positions_of(old(ps)@),
                pos,
                *cfg,
                9,
            );
        }
        let mut sum: i128 = 0;
        let mut jj: usize = 0;
        while jj < ns.len()
            invariant
                cfg.wf(),
                ps_bounded(ps@),
                h2 == fmul(cfg.h as int, cfg.h as int),
                jj <= ns@.len(),
                i < n,
                n == ps@.len(),
                ps@.len() == old(ps)@.len(),
                in_range(sum as int),
                pos == old(ps)@[i as int].position,
                forall|k: int| 0 <= k < n ==> (#[trigger] ps@[k]).position == old(ps)@[k].position,
                forall|k: int| 0 <= k < ns@.len() ==> (ns@[k] as int) < n,
                sum == density_sum(old(ps)@, ns@.take(jj as int), i as int, *cfg),
            decreases ns@.len() - jj,
        {
            let j = ns[jj];
            proof {
                assert(ns@.take(jj + 1).drop_last() =~= ns@.take(jj as int));
                assert(ns@.take(jj + 1).last() == ns@[jj as int]);
            }
            if j != i {
                proof {
                    assert(p_bounded(ps@[i as int]));
                    assert(p_bounded(ps@[j as int]));
                }
                let dr = pos.sub(ps[j].position).mul(cfg.simscale);
                let r2 = dr.len_sq();
                if h2 > r2 {
                    let c = fx::fx_sub(h2, r2);
                    sum = fx::fx_add(sum, fx::fx_mul(fx::fx_mul(c, c), c));
                } else {
                    proof {
                        assert(pair_density_term(
                            old(ps)@[i as int].position,
                            old(ps)@[j as int].position,
                            *cfg,
                        ) == 0);
                        assert(fadd(sum as int, 0) == sum as int);
                    }
                }
            }
            jj += 1;
        }
        proof {
            assert(ns@.take(ns@.len() as int) =~= ns@);
        }
        let rho_raw = fx::fx_mul(fx::fx_mul(sum, cfg.pmass), cfg.poly6kern);
        let pr = fx::fx_mul(fx::fx_sub(rho_raw, cfg.rest_density), cfg.int_stiff);
        let rho_inv = fx::fx_div(FP, rho_raw);
        let cur = ps[i];
        ps[i] = Particle {
            position: cur.position,
            velocity: cur.velocity,
            force: cur.force,
            rho: rho_inv,
            p: pr,
        };
        proof {
            assert(ps@[i as int] == density_one(old(ps)@, map.contents(), i as int, *cfg));
        }
        i += 1;
    }
    proof {
        assert(ps@ =~= density_pass_spec(old(ps)@, map.contents(), *cfg));
        assert forall|k: int| 0 <= k < ps@.len() implies p_bounded(#[trigger] ps@[k]) by {
            assert(p_bounded(old(ps)@[k]));
        }
    }
}

/// Force contribution of neighbor `pj` on particle `pi`: pressure-gradient
/// term along the scaled displacement plus viscosity term, both scaled by
/// `(h - r)` and the two stored reciprocal densities; zero at and beyond the
/// smoothing radius.  At `r == 0` the division in the pressure term yields
/// zero, so an exactly coincident pair contributes no pressure term rather
/// than faulting.
pub open spec fn pair_dr(pi: Particle, pj: Particle, cfg: Config) -> Vector2 {
    v_mul(v_sub(pi.position, pj.position), cfg.simscale as int)
}

/// Unscaled Euclidean distance of the pair, in kernel distance units.
pub open spec fn pair_r(pi: Particle, pj: Particle, cfg: Config) -> int {
    v_len(pair_dr(pi, pj, cfg))
}

/// Pressure term of `pj` acting on `pi`:
/// `-0.5 * (h - r) * spiky * (p_i + p_j) / r`, oriented along the
/// displacement; at `r == 0` the division yields zero, so an exactly
/// coincident pair contributes no pressure term rather than faulting.
pub open spec fn pressure_term_vec(pi: Particle, pj: Particle, cfg: Config) -> Vector2 {
    let dr = pair_dr(pi, pj, cfg);
    let r = v_len(dr);
    let c = fsub(cfg.h as int, r);
    v_mul(
        dr,
        fdiv(
            fmul(
                fmul(fmul(NEG_HALF as int, c), cfg.spikykern as int),
                fadd(pi.p as int, pj.p as int),
            ),
            r,
        ),
    )
}

/// Viscosity term of `pj` acting on `pi`: `lap * visc * (v_j - v_i)`.
pub open spec fn viscosity_term_vec(pi: Particle, pj: Particle, cfg: Config) -> Vector2 {
    v_mul(v_sub(pj.velocity, pi.velocity), fmul(cfg.lapkern as int, cfg.visc as int))
}

pub open spec fn pair_force_term(pi: Particle, pj: Particle, cfg: Config) -> Vector2 {
    let r = pair_r(pi, pj, cfg);
    if cfg.h > r {
        let c = fsub(cfg.h as int, r);
        let fcurr = v_add(pressure_term_vec(pi, pj, cfg), viscosity_term_vec(pi, pj, cfg));
        v_mul(fcurr, fmul(fmul(c, pi.rho as int), pj.rho as int))
    } else {
        Vector2 { x: 0i128, y: 0i128 }
    }
}

/// Accumulated force on particle `i` over a neighbor candidate list, the
/// candidate `i` itself excluded.
pub open spec fn force_sum(ps: Seq<Particle>, ns: Seq<usize>, i: int, cfg: Config) -> Vector2
    decreases ns.len(),
{
    if ns.len() == 0 {
        Vector2 { x: 0i128, y: 0i128 }
    } else {
        let prev = force_sum(ps, ns.drop_last(), i, cfg);
        let j = ns.last() as int;
        if j == i {
            prev
        } else {
            v_add(prev, pair_force_term(ps[i], ps[j], cfg))
        }
    }
}

/// The accumulated force lies in the representable range.
pub proof fn lemma_force_sum_bounded(ps: Seq<Particle>, ns: Seq<usize>, i: int, cfg: Config)
    ensures
        v_bounded(force_sum(ps, ns, i, cfg)),
    decreases ns.len(),
{
    if ns.len() > 0 {
        lemma_force_sum_bounded(ps, ns.drop_last(), i, cfg);
    }
}

/// Particle `i` after the force pass.
pub open spec fn force_one(ps: Seq<Particle>, m: Seq<Seq<usize>>, i: int, cfg: Config) -> Particle {
    Particle { force: force_sum(ps, spec_query(m, ps[i].position, cfg), i, cfg), ..ps[i] }
}

pub open spec fn force_pass_spec(ps: Seq<Particle>, m: Seq<Seq<usize>>, cfg: Config) -> Seq<
    Particle,
> {
    Seq::new(ps.len(), |i: int| force_one(ps, m, i, cfg))
}

/// Force pass: for every particle, accumulate the pressure-gradient and
/// viscosity contributions of its in-radius neighbor candidates into its
/// force field.  Reads every particle's finished pressure and reciprocal
/// density from the density pass; writes only forces.
pub fn calculate_force(ps: &mut Vec<Particle>, map: &NeighborMap, cfg: &Config)
    requires
        cfg.wf(),
        ps_bounded(old(ps)@),
        map.contents() == build_spec(positions_of(old(ps)@), *cfg),
    ensures
        final(ps)@ == force_pass_spec(old(ps)@, map.contents(), *cfg),
        ps_bounded(final(ps)@),
{
    let n = ps.len();
    let mut i: usize = 0;
    while i < n
        invariant
            cfg.wf(),
            ps_bounded(old(ps)@),
            ps_bounded(ps@),
            map.contents() == build_spec(positions_of(old(ps)@), *cfg),
            n == ps@.len(),
            ps@.len() == old(ps)@.len(),
            i <= n,
            forall|k: int| i <= k < n ==> ps@[k] == old(ps)@[k],
            forall|k: int| 0 <= k < i ==> ps@[k] == force_one(old(ps)@, map.contents(), k, *cfg),
            forall|k: int|
                0 <= k < n ==> same_but_force(#[trigger] ps@[k], old(ps)@[k]),
        decreases n - i,
    {
        let pos = ps[i].position;
        proof {
            assert(pos == old(ps)@[i as int].position);
        }
        let ns = neighbors(map, pos, cfg);
        proof {
            crate::neighbor::lemma_query_bounds(
                map.contents(),
                positions_of(old(ps)@),
                pos,
                *cfg,
                9,
            );
        }
        let mut force = Vector2::zero();
        let mut jj: usize = 0;
        while jj < ns.len()
            invariant
                cfg.wf(),
                ps_bounded(ps@),
                jj <= ns@.len(),
                i < n,
                n == ps@.len(),
                ps@.len() == old(ps)@.len(),
                v_bounded(force),
                forall|k: int|
                    0 <= k < n ==> same_but_force(#[trigger] ps@[k], old(ps)@[k]),
                forall|k: int| 0 <= k < ns@.len() ==> (ns@[k] as int) < n,
                force == force_sum(old(ps)@, ns@.take(jj as int), i as int, *cfg),
            decreases ns@.len() - jj,
        {
            let j = ns[jj];
            proof {
                assert(ns@.take(jj + 1).drop_last() =~= ns@.take(jj as int));
                assert(ns@.take(jj + 1).last() == ns@[jj as int]);
            }
            if j != i {
                proof {
                    assert(p_bounded(ps@[i as int]));
                    assert(p_bounded(ps@[j as int]));
                }
                let p1 = ps[i];
                let p2 = ps[j];
                let dr = p1.position.sub(p2.position).mul(cfg.simscale);
                let r = dr.len();
                if cfg.h > r {
                    let c = fx::fx_sub(cfg.h, r);
                    let pterm = fx::fx_div(
                        fx::fx_mul(
                            fx::fx_mul(fx::fx_mul(NEG_HALF, c), cfg.spikykern),
                            fx::fx_add(p1.p, p2.p),
                        ),
                        r,
                    );
                    let vterm = fx::fx_mul(cfg.lapkern, cfg.visc);
                    let mut fcurr = dr.mul(pterm).add(p2.velocity.sub(p1.velocity).mul(vterm));
                    fcurr.set_mul(fx::fx_mul(fx::fx_mul(c, p1.rho), p2.rho));
                    force.set_add(fcurr);
                } else {
                    proof {
                        let prev = force;
                        let term = pair_force_term(
                            old(ps)@[i as int],
                            old(ps)@[j as int],
                            *cfg,
                        );
                        assert(term == (Vector2 { x: 0i128, y: 0i128 }));
                        assert(v_add(prev, term) == prev);
                    }
                }
            }
            jj += 1;
        }
        proof {
            assert(ns@.take(ns@.len() as int) =~= ns@);
        }
        let cur = ps[i];
        ps[i] = Particle {
            position: cur.position,
            velocity: cur.velocity,
            force,
            rho: cur.rho,
            p: cur.p,
        };
        proof {
            assert(ps@[i as int] == force_one(old(ps)@, map.contents(), i as int, *cfg));
        }
        i += 1;
    }
    proof {
        assert(ps@ =~= force_pass_spec(old(ps)@, map.contents(), *cfg));
    }
}

/// The two particles agree on every field except possibly the force.
pub open spec fn same_but_force(a: Particle, b: Particle) -> bool {
    &&& a.position == b.position
    &&& a.velocity == b.velocity
    &&& a.rho == b.rho
    &&& a.p == b.p
}

/// Spring-damper acceleration along an inward boundary normal:
/// `stiffness * penetration - damping * (normal . velocity)`.
pub open spec fn boundary_adj(norm: Vector2, diff: int, vel: Vector2, cfg: Config) -> int {
    fsub(fmul(cfg.extstiff as int, diff), fmul(cfg.extdamp as int, v_dot(norm, vel)))
}

/// Boundary penetration against the minimum-x wall:
/// `2 * radius - (x - min_x) * simscale`; the other three walls mirror it.
pub open spec fn pen_x_min(p: Particle, cfg: Config) -> int {
    fsub(
        fadd(cfg.radius as int, cfg.radius as int),
        fmul(fsub(p.position.x as int, cfg.min.x as int), cfg.simscale as int),
    )
}

pub open spec fn pen_x_max(p: Particle, cfg: Config) -> int {
    fsub(
        fadd(cfg.radius as int, cfg.radius as int),
        fmul(fsub(cfg.max.x as int, p.position.x as int), cfg.simscale as int),
    )
}

pub open spec fn pen_y_min(p: Particle, cfg: Config) -> int {
    fsub(
        fadd(cfg.radius as int, cfg.radius as int),
        fmul(fsub(p.position.y as int, cfg.min.y as int), cfg.simscale as int),
    )
}

pub open spec fn pen_y_max(p: Particle, cfg: Config) -> int {
    fsub(
        fadd(cfg.radius as int, cfg.radius as int),
        fmul(fsub(cfg.max.y as int, p.position.y as int), cfg.simscale as int),
    )
}

/// Acceleration of one particle in the integration pass: force times mass,
/// clamped to the magnitude limit, plus one spring-damper term per
/// penetrated wall, plus gravity.
pub open spec fn accel_of(p: Particle, cfg: Config) -> Vector2 {
    let a0 = v_mul(p.force, cfg.pmass as int);
    let speed = v_len_sq(a0);
    let a1 = if speed > fmul(cfg.limit as int, cfg.limit as int) {
        v_mul(a0, fdiv(cfg.limit as int, fsqrt(speed)))
    } else {
        a0
    };
    let nxmin = Vector2 { x: FP, y: 0i128 };
    let a2 = if pen_x_min(p, cfg) > cfg.epsilon {
        v_add(a1, v_mul(nxmin, boundary_adj(nxmin, pen_x_min(p, cfg), p.velocity, cfg)))
    } else {
        a1
    };
    let nxmax = Vector2 { x: (-FP) as i128, y: 0i128 };
    let a3 = if pen_x_max(p, cfg) > cfg.epsilon {
        v_add(a2, v_mul(nxmax, boundary_adj(nxmax, pen_x_max(p, cfg), p.velocity, cfg)))
    } else {
        a2
    };
    let nymin = Vector2 { x: 0i128, y: FP };
    let a4 = if pen_y_min(p, cfg) > cfg.epsilon {
        v_add(a3, v_mul(nymin, boundary_adj(nymin, pen_y_min(p, cfg), p.velocity, cfg)))
    } else {
        a3
    };
    let nymax = Vector2 { x: 0i128, y: (-FP) as i128 };
    let a5 = if pen_y_max(p, cfg) > cfg.epsilon {
        v_add(a4, v_mul(nymax, boundary_adj(nymax, pen_y_max(p, cfg), p.velocity, cfg)))
    } else {
        a4
    };
    v_add(a5, cfg.gravity)
}

/// One particle after the integration pass: semi-implicit Euler with the
/// acceleration above; the position step is converted back to world units.
pub open spec fn integrate_one(p: Particle, cfg: Config) -> Particle {
    let accel = accel_of(p, cfg);
    let vel = v_add(p.velocity, v_mul(accel, cfg.dt as int));
    Particle {
        position: v_add(p.position, v_div(v_mul(vel, cfg.dt as int), cfg.simscale as int)),
        velocity: vel,
        ..p
    }
}

pub open spec fn integrate_pass_spec(ps: Seq<Particle>, cfg: Config) -> Seq<Particle> {
    Seq::new(ps.len(), |i: int| integrate_one(ps[i], cfg))
}

/// Integration and boundary pass: convert force to acceleration, clamp its
/// magnitude, add penalty accelerations for penetrated walls and gravity,
/// then integrate velocity and position.  Boundary violation is corrected
/// gradually by the penalty force, never by a position clamp.
pub fn calculate_position(ps: &mut Vec<Particle>, cfg: &Config)
    requires
        cfg.wf(),
        ps_bounded(old(ps)@),
    ensures
        final(ps)@ == integrate_pass_spec(old(ps)@, *cfg),
        ps_bounded(final(ps)@),
{
    let n = ps.len();
    let mut i: usize = 0;
    while i < n
        invariant
            cfg.wf(),
            ps_bounded(old(ps)@),
            ps_bounded(ps@),
            n == ps@.len(),
            ps@.len() == old(ps)@.len(),
            i <= n,
            forall|k: int| i <= k < n ==> ps@[k] == old(ps)@[k],
            forall|k: int| 0 <= k < i ==> ps@[k] == integrate_one(old(ps)@[k], *cfg),
        decreases n - i,
    {
        proof {
            assert(p_bounded(ps@[i as int]));
        }
        let p = ps[i];
        let next = integrate_particle(p, cfg);
        ps[i] = next;
        proof {
            assert(ps@[i as int] == integrate_one(old(ps)@[i as int], *cfg));
        }
        i += 1;
    }
    proof {
        assert(ps@ =~= integrate_pass_spec(old(ps)@, *cfg));
    }
}

/// One particle through the integration and boundary step.
#[verifier::rlimit(100)]
fn integrate_particle(p: Particle, cfg: &Config) -> (r: Particle)
    requires
        cfg.wf(),
        p_bounded(p),
    ensures
        r == integrate_one(p, *cfg),
        p_bounded(r),
{
        let mut accel = p.force.mul(cfg.pmass);
        let speed = accel.len_sq();
        proof {
            crate::vecmath::vector2::lemma_len_sq_nonneg(accel);
        }
        if speed > fx::fx_mul(cfg.limit, cfg.limit) {
            accel.set_mul(fx::fx_div(cfg.limit, fx::fx_sqrt(speed)));
        }
        let two_r = fx::fx_add(cfg.radius, cfg.radius);

        let diff = fx::fx_sub(two_r, fx::fx_mul(fx::fx_sub(p.position.x, cfg.min.x), cfg.simscale));
        if diff > cfg.epsilon {
            let norm = Vector2::new(FP, 0);
            let adj = fx::fx_sub(
                fx::fx_mul(cfg.extstiff, diff),
                fx::fx_mul(cfg.extdamp, dot(norm, p.velocity)),
            );
            accel.set_add(norm.mul(adj));
        }

        let diff = fx::fx_sub(two_r, fx::fx_mul(fx::fx_sub(cfg.max.x, p.position.x), cfg.simscale));
        if diff > cfg.epsilon {
            let norm = Vector2::new(-FP, 0);
            let adj = fx::fx_sub(
                fx::fx_mul(cfg.extstiff, diff),
                fx::fx_mul(cfg.extdamp, dot(norm, p.velocity)),
            );
            accel.set_add(norm.mul(adj));
        }

        let diff = fx::fx_sub(two_r, fx::fx_mul(fx::fx_sub(p.position.y, cfg.min.y), cfg.simscale));
        if diff > cfg.epsilon {
            let norm = Vector2::new(0, FP);
            let adj = fx::fx_sub(
                fx::fx_mul(cfg.extstiff, diff),
                fx::fx_mul(cfg.extdamp, dot(norm, p.velocity)),
            );
            accel.set_add(norm.mul(adj));
        }

        let diff = fx::fx_sub(two_r, fx::fx_mul(fx::fx_sub(cfg.max.y, p.position.y), cfg.simscale));
        if diff > cfg.epsilon {
            let norm = Vector2::new(0, -FP);
            let adj = fx::fx_sub(
                fx::fx_mul(cfg.extstiff, diff),
                fx::fx_mul(cfg.extdamp, dot(norm, p.velocity)),
            );
            accel.set_add(norm.mul(adj));
        }

        accel.set_add(cfg.gravity);
        let vel = p.velocity.add(accel.mul(cfg.dt));
        let pos = p.position.add(vel.mul(cfg.dt).div(cfg.simscale));
        Particle { position: pos, velocity: vel, force: p.force, rho: p.rho, p: p.p }
}

/// One full tick from a particle state: the neighbor index built from the
/// positions, then the density/pressure pass, the force pass and the
/// integration pass, in strict sequence.
pub open spec fn step_spec(ps: Seq<Particle>, cfg: Config) -> Seq<Particle> {
    let m = build_spec(positions_of(ps), cfg);
    integrate_pass_spec(force_pass_spec(density_pass_spec(ps, m, cfg), m, cfg), cfg)
}

/// Advance the particle store by one tick: rebuild the neighbor index from
/// the current positions, run the three passes in strict sequence, and
/// discard the index.  The store is mutated in place; the particle count
/// never changes.
pub fn step(ps: &mut Vec<Particle>, cfg: &Config)
    requires
        cfg.wf(),
        ps_bounded(old(ps)@),
    ensures
        final(ps)@ == step_spec(old(ps)@, *cfg),
        final(ps)@.len() == old(ps)@.len(),
        ps_bounded(final(ps)@),
{
    let ghost m = build_spec(positions_of(old(ps)@), *cfg);
    let map = new_neighbor_map(ps, cfg);
    calculate_density_and_pressure(ps, &map, cfg);
    proof {
        assert(positions_of(ps@) =~= positions_of(old(ps)@));
    }
    calculate_force(ps, &map, cfg);
    calculate_position(ps, cfg);
}

} // verus!
