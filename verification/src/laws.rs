//! Global properties of the simulation, stated and proved against the pass
//! specifications.

use vstd::prelude::*;
use crate::fx::{FP, quot, sat, fadd, fsub, fmul, fdiv, in_range, iabs};
use crate::fx;
use crate::config::{Config, spec_cell_size};
use crate::vecmath::vector2::{
    Vector2, v_bounded, v_add, v_sub, v_mul, v_neg, v_len, v_len_sq, v_dot,
};
use crate::vecmath::vector2;
use crate::particle::{
    Particle, pair_density_term, density_sum, density_one, density_raw, pair_dr, pressure_term_vec,
    viscosity_term_vec, accel_of, integrate_one, pen_x_min, pen_x_max, pen_y_min, pen_y_max,
};
use crate::neighbor::{spec_query, spec_query_up_to, build_spec, in_bounds, spec_probe, spec_key, spec_cell_x, spec_cell_y, indices_in_cell};

verus! {

/// After the density pass the stored reciprocal density inverts back to the
/// physical density: taking the fixed-point reciprocal twice returns any
/// density between zero and one exactly, the degenerate zero density
/// (whose reciprocal is defined as zero) included.
pub proof fn lemma_density_reciprocal_round_trip(d: int)
    requires
        0 <= d <= FP,
    ensures
        fdiv(FP as int, fdiv(FP as int, d)) == d,
{
    let n = FP as int * FP as int;
    if d == 0 {
        fx::lemma_quot_zero(0);
        assert(quot(n, 0) == 0);
        assert(fdiv(FP as int, 0) == 0);
    } else {
        let q = quot(n, d);
        assert(q == n / d);
        vstd::arithmetic::div_mod::lemma_fundamental_div_mod(n, d);
        let r = n % d;
        assert(n == d * (n / d) + r);
        assert(0 <= r < d);
        assert(q >= FP) by (nonlinear_arith)
            requires
                n == d * q + r,
                n == FP as int * FP as int,
                0 <= r < d <= FP as int,
                FP == 65536i128,
        ;
        assert(in_range(q)) by (nonlinear_arith)
            requires
                n == d * q + r,
                n == FP as int * FP as int,
                0 <= r < d,
                1 <= d <= FP as int,
                FP == 65536i128,
        ;
        assert(fdiv(FP as int, d) == q);
        assert(n == q * d + r) by (nonlinear_arith)
            requires
                n == d * q + r,
        ;
        vstd::arithmetic::div_mod::lemma_fundamental_div_mod_converse(n, q, d, r);
        assert(quot(n, q) == n / q);
        assert(fdiv(FP as int, q) == sat(d));
    }
}

/// For every particle, after the density pass, the stored reciprocal
/// density inverts back to the physical density the pass computed, whenever
/// that density is at most one fixed-point unit; the degenerate zero
/// density stays zero.
pub proof fn lemma_stored_reciprocal_inverts(
    ps: Seq<Particle>,
    m: Seq<Seq<usize>>,
    i: int,
    cfg: Config,
)
    requires
        0 <= i < ps.len(),
        0 <= density_raw(ps, m, i, cfg) <= FP,
    ensures
        fdiv(FP as int, density_one(ps, m, i, cfg).rho as int) == density_raw(ps, m, i, cfg),
{
    lemma_density_reciprocal_round_trip(density_raw(ps, m, i, cfg));
}

/// Two particles exactly the smoothing radius apart contribute zero to each
/// other's density: the poly6 kernel term `(h^2 - r^2)^3` vanishes at
/// `r^2 == h^2`, in both directions of the pair.
pub proof fn lemma_density_zero_at_radius(pi: Vector2, pj: Vector2, cfg: Config)
    requires
        v_len_sq(v_mul(v_sub(pi, pj), cfg.simscale as int)) == fmul(cfg.h as int, cfg.h as int),
    ensures
        pair_density_term(pi, pj, cfg) == 0,
        pair_density_term(pj, pi, cfg) == 0,
{
    let d1 = v_mul(v_sub(pi, pj), cfg.simscale as int);
    let d2 = v_mul(v_sub(pj, pi), cfg.simscale as int);
    vector2::lemma_v_sub_antisym(pi, pj);
    vector2::lemma_v_mul_neg(v_sub(pi, pj), cfg.simscale as int);
    assert(d2 == v_neg(d1));
    vector2::lemma_v_len_neg(d1);
    assert(v_len_sq(d2) == v_len_sq(d1));
}

/// A neighbor candidate list whose entries are all the particle itself or
/// out of kernel range accumulates a density sum of zero.
pub proof fn lemma_zero_density_sum(ps: Seq<Particle>, ns: Seq<usize>, i: int, cfg: Config)
    requires
        forall|k: int|
            0 <= k < ns.len() ==> ((#[trigger] ns[k]) as int == i || pair_density_term(
                ps[i].position,
                ps[ns[k] as int].position,
                cfg,
            ) == 0),
    ensures
        density_sum(ps, ns, i, cfg) == 0,
    decreases ns.len(),
{
    if ns.len() > 0 {
        assert(forall|k: int|
            0 <= k < ns.drop_last().len() ==> ns.drop_last()[k] == ns[k]);
        lemma_zero_density_sum(ps, ns.drop_last(), i, cfg);
        assert(ns.last() == ns[ns.len() - 1]);
    }
}

/// An isolated particle, with no other particle of its neighbor candidate
/// list within the smoothing radius, comes out of the density pass with
/// density zero — so its stored reciprocal density is zero — and with
/// pressure `-(rest density) * stiffness`.
pub proof fn lemma_isolated_particle(ps: Seq<Particle>, m: Seq<Seq<usize>>, i: int, cfg: Config)
    requires
        cfg.wf(),
        0 <= i < ps.len(),
        forall|k: int|
            0 <= k < spec_query(m, ps[i].position, cfg).len() ==> ((#[trigger] spec_query(
                m,
                ps[i].position,
                cfg,
            )[k]) as int == i || pair_density_term(
                ps[i].position,
                ps[spec_query(m, ps[i].position, cfg)[k] as int].position,
                cfg,
            ) == 0),
    ensures
        density_one(ps, m, i, cfg).rho == 0,
        density_one(ps, m, i, cfg).p as int == fmul(-cfg.rest_density as int, cfg.int_stiff as int),
{
    let ns = spec_query(m, ps[i].position, cfg);
    lemma_zero_density_sum(ps, ns, i, cfg);
    fx::lemma_quot_zero(FP as int);
    assert(fmul(0, cfg.pmass as int) == 0) by {
        fx::lemma_quot_zero(FP as int);
        assert(0 * cfg.pmass as int == 0) by (nonlinear_arith);
    }
    assert(fmul(0, cfg.poly6kern as int) == 0) by {
        assert(0 * cfg.poly6kern as int == 0) by (nonlinear_arith);
    }
    assert(fdiv(FP as int, 0) == 0);
    assert(fsub(0, cfg.rest_density as int) == -cfg.rest_density as int);
}

/// Newton's-third-law check for a pair computed from the same two particle
/// states: the pressure term of `j` on `i` is the exact negation of the
/// pressure term of `i` on `j`, the viscosity term likewise, and the
/// pressure contributions projected on any axis are exact negatives — in
/// particular of opposite sign on the axis through the two positions
/// whenever nonzero.  Query asymmetry at cell boundaries can still hand the
/// two particles different candidate lists; this law speaks of the pair
/// term itself.
pub proof fn lemma_pair_force_antisymmetric(p1: Particle, p2: Particle, cfg: Config, axis: Vector2)
    requires
        v_bounded(p1.position),
        v_bounded(p2.position),
        v_bounded(p1.velocity),
        v_bounded(p2.velocity),
        v_bounded(axis),
    ensures
        pressure_term_vec(p2, p1, cfg) == v_neg(pressure_term_vec(p1, p2, cfg)),
        viscosity_term_vec(p2, p1, cfg) == v_neg(viscosity_term_vec(p1, p2, cfg)),
        v_dot(pressure_term_vec(p2, p1, cfg), axis) == -v_dot(pressure_term_vec(p1, p2, cfg), axis),
{
    let d12 = pair_dr(p1, p2, cfg);
    let d21 = pair_dr(p2, p1, cfg);
    vector2::lemma_v_sub_antisym(p1.position, p2.position);
    vector2::lemma_v_mul_neg(v_sub(p1.position, p2.position), cfg.simscale as int);
    assert(d21 == v_neg(d12));
    vector2::lemma_v_len_neg(d12);
    let r = v_len(d12);
    let c = fsub(cfg.h as int, r);
    let pterm = fdiv(
        fmul(fmul(fmul(crate::particle::NEG_HALF as int, c), cfg.spikykern as int), fadd(p1.p as int, p2.p as int)),
        r,
    );
    assert(fadd(p2.p as int, p1.p as int) == fadd(p1.p as int, p2.p as int));
    vector2::lemma_v_mul_neg(d12, pterm);
    assert(pressure_term_vec(p2, p1, cfg) == v_neg(pressure_term_vec(p1, p2, cfg)));
    vector2::lemma_v_sub_antisym(p1.velocity, p2.velocity);
    vector2::lemma_v_mul_neg(
        v_sub(p2.velocity, p1.velocity),
        fmul(cfg.lapkern as int, cfg.visc as int),
    );
    vector2::lemma_v_dot_neg(pressure_term_vec(p1, p2, cfg), axis);
}

/// A particle with zero accumulated force, zero velocity, zero gravity and
/// no wall penetration is a fixed point of the integration pass: it remains
/// exactly stationary.
pub proof fn lemma_stationary_fixed_point(p: Particle, cfg: Config)
    requires
        cfg.wf(),
        v_bounded(p.position),
        p.force == (Vector2 { x: 0i128, y: 0i128 }),
        p.velocity == (Vector2 { x: 0i128, y: 0i128 }),
        cfg.gravity == (Vector2 { x: 0i128, y: 0i128 }),
        pen_x_min(p, cfg) <= cfg.epsilon,
        pen_x_max(p, cfg) <= cfg.epsilon,
        pen_y_min(p, cfg) <= cfg.epsilon,
        pen_y_max(p, cfg) <= cfg.epsilon,
    ensures
        integrate_one(p, cfg) == p,
{
    lemma_zero_times(cfg.pmass as int);
    let a0 = v_mul(p.force, cfg.pmass as int);
    assert(a0 == (Vector2 { x: 0i128, y: 0i128 }));
    lemma_zero_times(0);
    assert(v_len_sq(a0) == 0);
    assert(fmul(cfg.limit as int, cfg.limit as int) >= 0) by {
        assert(cfg.limit as int * cfg.limit as int >= 0) by (nonlinear_arith);
        fx::lemma_quot_nonneg(cfg.limit as int * cfg.limit as int, FP as int);
    }
    let accel = accel_of(p, cfg);
    assert(accel == (Vector2 { x: 0i128, y: 0i128 }));
    lemma_zero_times(cfg.dt as int);
    assert(v_mul(accel, cfg.dt as int) == (Vector2 { x: 0i128, y: 0i128 }));
    assert(integrate_one(p, cfg).velocity == p.velocity);
    fx::lemma_quot_zero(cfg.simscale as int);
    assert(integrate_one(p, cfg).position == p.position);
}

/// Zero times anything is fixed-point zero.
proof fn lemma_zero_times(b: int)
    ensures
        fmul(0, b) == 0,
{
    assert(0 * b == 0) by (nonlinear_arith);
    fx::lemma_quot_zero(FP as int);
}

/// A particle at rest, with no force, penetrating only the minimum-x wall,
/// with no x-gravity: the resulting acceleration points out of the wall
/// (strictly positive x) whenever the spring term amounts to at least one
/// fixed-point quantum.
pub proof fn lemma_min_x_penalty_accelerates_outward(p: Particle, cfg: Config)
    requires
        cfg.wf(),
        v_bounded(p.position),
        p.force == (Vector2 { x: 0i128, y: 0i128 }),
        p.velocity == (Vector2 { x: 0i128, y: 0i128 }),
        cfg.gravity.x == 0,
        pen_x_min(p, cfg) > cfg.epsilon,
        pen_x_max(p, cfg) <= cfg.epsilon,
        pen_y_min(p, cfg) <= cfg.epsilon,
        pen_y_max(p, cfg) <= cfg.epsilon,
        cfg.extstiff as int * pen_x_min(p, cfg) >= FP as int,
    ensures
        accel_of(p, cfg).x > 0,
{
    lemma_zero_times(cfg.pmass as int);
    let a0 = v_mul(p.force, cfg.pmass as int);
    assert(a0 == (Vector2 { x: 0i128, y: 0i128 }));
    lemma_zero_times(0);
    assert(v_len_sq(a0) == 0);
    assert(fmul(cfg.limit as int, cfg.limit as int) >= 0) by {
        assert(cfg.limit as int * cfg.limit as int >= 0) by (nonlinear_arith);
        fx::lemma_quot_nonneg(cfg.limit as int * cfg.limit as int, FP as int);
    }
    let diff = pen_x_min(p, cfg);
    let nxmin = Vector2 { x: FP, y: 0i128 };
    lemma_zero_times(1);
    assert(fmul(nxmin.x as int, 0) == 0) by {
        assert(nxmin.x as int * 0 == 0) by (nonlinear_arith);
        fx::lemma_quot_zero(FP as int);
    }
    assert(fmul(nxmin.y as int, 0) == 0) by {
        fx::lemma_quot_zero(FP as int);
    }
    assert(v_dot(nxmin, p.velocity) == 0);
    assert(fmul(cfg.extdamp as int, 0) == 0) by {
        assert(cfg.extdamp as int * 0 == 0) by (nonlinear_arith);
        fx::lemma_quot_zero(FP as int);
    }
    let spring = fmul(cfg.extstiff as int, diff);
    assert(spring >= 1) by {
        fx::lemma_quot_ge_one(cfg.extstiff as int * diff, FP as int);
        assert(sat(quot(cfg.extstiff as int * diff, FP as int)) >= 1);
    }
    let adj = crate::particle::boundary_adj(nxmin, diff, p.velocity, cfg);
    assert(adj == spring);
    assert(fmul(FP as int, adj) == adj) by {
        assert(FP as int * adj == adj * FP as int) by (nonlinear_arith);
        fx::lemma_quot_mul_cancel(adj, FP as int);
    }
    let a2 = v_add(a0, v_mul(nxmin, adj));
    assert(a2.x as int == fadd(0, adj));
    assert(accel_of(p, cfg).x as int == fadd(a2.x as int, 0));
}

/// Shifting the dividend by a multiple of a positive divisor shifts the
/// floor quotient by exactly that multiple.
proof fn lemma_div_shift(a: int, d: int, s: int)
    requires
        d >= 1,
    ensures
        (a + s * d) / d == a / d + s,
{
    vstd::arithmetic::div_mod::lemma_fundamental_div_mod(a, d);
    vstd::arithmetic::div_mod::lemma_mod_bound(a, d);
    assert(a + s * d == (a / d + s) * d + a % d) by (nonlinear_arith)
        requires
            a == d * (a / d) + a % d,
    ;
    vstd::arithmetic::div_mod::lemma_fundamental_div_mod_converse(a + s * d, d, a / d + s, a % d);
}

/// A particle index is listed in the bucket of its own cell.
proof fn lemma_cell_contains(positions: Seq<Vector2>, j: int, k: int, cfg: Config)
    requires
        0 <= j < positions.len(),
        spec_key(positions[j], cfg) == k,
    ensures
        indices_in_cell(positions, k, cfg).contains(j as usize),
    decreases positions.len(),
{
    let s = indices_in_cell(positions, k, cfg);
    let prefix = indices_in_cell(positions.drop_last(), k, cfg);
    if j == positions.len() - 1 {
        assert(positions.last() == positions[j]);
        assert(s[prefix.len() as int] == (j as usize));
    } else {
        assert(positions.drop_last()[j] == positions[j]);
        lemma_cell_contains(positions.drop_last(), j, k, cfg);
        let idx = choose|idx: int| 0 <= idx < prefix.len() && prefix[idx] == (j as usize);
        assert(s[idx] == (j as usize));
    }
}

/// Whatever one in-bounds probe's bucket holds, the whole query returns.
proof fn lemma_query_accumulates(
    m: Seq<Seq<usize>>,
    pos: Vector2,
    cfg: Config,
    t: int,
    n: int,
    e: usize,
)
    requires
        1 <= t <= n <= 9,
        in_bounds(spec_probe(pos, (t - 1) / 3 - 1, (t - 1) % 3 - 1, cfg), cfg),
        m[spec_key(spec_probe(pos, (t - 1) / 3 - 1, (t - 1) % 3 - 1, cfg), cfg)].contains(e),
    ensures
        spec_query_up_to(m, pos, cfg, n).contains(e),
    decreases n,
{
    let s = spec_query_up_to(m, pos, cfg, n);
    let prev = spec_query_up_to(m, pos, cfg, n - 1);
    let v = spec_probe(pos, (n - 1) / 3 - 1, (n - 1) % 3 - 1, cfg);
    if t == n {
        let b = m[spec_key(v, cfg)];
        let idx = choose|idx: int| 0 <= idx < b.len() && b[idx] == e;
        assert(s[prev.len() + idx] == e);
    } else {
        lemma_query_accumulates(m, pos, cfg, t, n - 1, e);
        let idx = choose|idx: int| 0 <= idx < prev.len() && prev[idx] == e;
        if in_bounds(v, cfg) {
            assert(s[idx] == e);
        }
    }
}

/// From a query position at least one cell size inside every domain wall,
/// the neighbor query returns a superset of the particles truly nearby:
/// every particle within one cell size per axis — in particular every
/// particle within the smoothing radius, whose world-unit extent is the
/// cell size — appears in the result.
pub proof fn lemma_query_superset(
    m: Seq<Seq<usize>>,
    positions: Seq<Vector2>,
    pos: Vector2,
    j: int,
    cfg: Config,
)
    requires
        cfg.wf(),
        m == build_spec(positions, cfg),
        0 <= j < positions.len(),
        iabs(positions[j].x - pos.x) < spec_cell_size(cfg),
        iabs(positions[j].y - pos.y) < spec_cell_size(cfg),
        cfg.min.x <= pos.x - spec_cell_size(cfg),
        pos.x + spec_cell_size(cfg) <= cfg.max.x,
        cfg.min.y <= pos.y - spec_cell_size(cfg),
        pos.y + spec_cell_size(cfg) <= cfg.max.y,
    ensures
        spec_query(m, pos, cfg).contains(j as usize),
{
    let d = spec_cell_size(cfg);
    let gw = crate::config::spec_grid_w(cfg);
    let gh = crate::config::spec_grid_h(cfg);
    let ax = pos.x - cfg.min.x;
    let ay = pos.y - cfg.min.y;
    let bx = positions[j].x - cfg.min.x;
    let by = positions[j].y - cfg.min.y;
    let cxp = ax / d;
    let cyp = ay / d;
    let cxj = bx / d;
    let cyj = by / d;
    assert(d / d == 1) by (nonlinear_arith)
        requires
            d >= 1,
    ;
    // the query cell is strictly interior per axis
    vstd::arithmetic::div_mod::lemma_div_is_ordered(d, ax, d);
    vstd::arithmetic::div_mod::lemma_div_is_ordered(d, ay, d);
    lemma_div_shift(cfg.max.x - cfg.min.x, d, -1);
    lemma_div_shift(cfg.max.y - cfg.min.y, d, -1);
    vstd::arithmetic::div_mod::lemma_div_is_ordered(ax, cfg.max.x - cfg.min.x - d, d);
    vstd::arithmetic::div_mod::lemma_div_is_ordered(ay, cfg.max.y - cfg.min.y - d, d);
    assert(1 <= cxp <= gw - 2);
    assert(1 <= cyp <= gh - 2);
    // the particle's cell is one of the nine probed cells
    lemma_div_shift(ax, d, -1);
    lemma_div_shift(ax, d, 1);
    lemma_div_shift(ay, d, -1);
    lemma_div_shift(ay, d, 1);
    vstd::arithmetic::div_mod::lemma_div_is_ordered(ax - d, bx, d);
    vstd::arithmetic::div_mod::lemma_div_is_ordered(bx, ax + d, d);
    vstd::arithmetic::div_mod::lemma_div_is_ordered(ay - d, by, d);
    vstd::arithmetic::div_mod::lemma_div_is_ordered(by, ay + d, d);
    assert(cxp - 1 <= cxj <= cxp + 1);
    assert(cyp - 1 <= cyj <= cyp + 1);
    let sx = cxj - cxp;
    let sy = cyj - cyp;
    // the probe at that offset lands exactly on the particle's cell
    let v = spec_probe(pos, sx, sy, cfg);
    assert(sx * d == if sx == -1 { -d } else if sx == 0 { 0int } else { d });
    assert(sy * d == if sy == -1 { -d } else if sy == 0 { 0int } else { d });
    assert(in_bounds(v, cfg));
    lemma_div_shift(ax, d, sx);
    lemma_div_shift(ay, d, sy);
    assert(v.x - cfg.min.x == ax + sx * d);
    assert(v.y - cfg.min.y == ay + sy * d);
    assert(quot(v.x - cfg.min.x, d) == cxj);
    assert(quot(v.y - cfg.min.y, d) == cyj);
    assert(quot(bx, d) == cxj);
    assert(quot(by, d) == cyj);
    assert(spec_cell_x(v, cfg) == cxj && spec_cell_x(positions[j], cfg) == cxj);
    assert(spec_cell_y(v, cfg) == cyj && spec_cell_y(positions[j], cfg) == cyj);
    let k = spec_key(positions[j], cfg);
    assert(spec_key(v, cfg) == k);
    crate::neighbor::lemma_key_range(v, cfg);
    lemma_cell_contains(positions, j, k, cfg);
    assert(m[k] == indices_in_cell(positions, k, cfg));
    // the probe's slot among the nine
    let t = (sx + 1) * 3 + (sy + 1) + 1;
    vstd::arithmetic::div_mod::lemma_fundamental_div_mod_converse(t - 1, 3, sx + 1, sy + 1);
    assert((t - 1) / 3 - 1 == sx && (t - 1) % 3 - 1 == sy);
    lemma_query_accumulates(m, pos, cfg, t, 9, j as usize);
}

/// Rebuilding the neighbor index from unchanged positions yields identical
/// bucket contents: the build is a function of the positions alone.
pub proof fn lemma_build_deterministic(
    m1: Seq<Seq<usize>>,
    m2: Seq<Seq<usize>>,
    positions: Seq<Vector2>,
    cfg: Config,
)
    requires
        m1 == build_spec(positions, cfg),
        m2 == build_spec(positions, cfg),
    ensures
        m1 == m2,
{
}

} // verus!
