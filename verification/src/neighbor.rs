//! Uniform spatial-hash neighbor index.
//!
//! Particles are bucketed into grid cells of one smoothing radius (in world
//! units) per side, keyed row-major over the domain width.  The index is
//! rebuilt from the current positions every tick and answers "which particle
//! indices are near this position" by probing the nine continuous positions
//! offset by `{-d, 0, +d}` per axis rather than by enumerating adjacent
//! integer cells; probes
//! that fall outside the domain contribute nothing, and two probes that
//! resolve to the same cell yield duplicate indices, which callers tolerate.
//! Cell coordinates of positions outside the domain are clamped onto the
//! grid edge, so a bucket lookup can never address outside the bucket array.

use vstd::prelude::*;
use crate::config::{Config, spec_cell_size, spec_grid_w, spec_grid_h};
use crate::fx::{quot, in_range};
use crate::fx;
use crate::vecmath::vector2::{Vector2, v_bounded};
use crate::particle::Particle;

verus! {

/// Flat row-major cell key of one grid cell.
#[derive(Debug, Clone, Copy, PartialEq, Eq, Hash, Structural)]
pub struct NeighborMapIndex(pub usize);

/// Bucket array addressed by flat cell key: one unordered list of particle
/// indices per cell.
pub struct NeighborMap {
    pub buckets: Vec<Vec<usize>>,
}

impl NeighborMap {
    /// The bucket contents, one index sequence per cell key.
    pub open spec fn contents(self) -> Seq<Seq<usize>> {
        self.buckets@.map_values(|b: Vec<usize>| b@)
    }
}

pub open spec fn clamp_cell(c: int, n: int) -> int {
    if c < 0 {
        0
    } else if c >= n {
        n - 1
    } else {
        c
    }
}

/// Column of the cell holding a position, clamped onto the grid.
pub open spec fn spec_cell_x(pos: Vector2, cfg: Config) -> int {
    clamp_cell(quot(pos.x - cfg.min.x, spec_cell_size(cfg)), spec_grid_w(cfg))
}

/// Row of the cell holding a position, clamped onto the grid.
pub open spec fn spec_cell_y(pos: Vector2, cfg: Config) -> int {
    clamp_cell(quot(pos.y - cfg.min.y, spec_cell_size(cfg)), spec_grid_h(cfg))
}

/// Flat row-major cell key of a position.
pub open spec fn spec_key(pos: Vector2, cfg: Config) -> int {
    spec_cell_x(pos, cfg) + spec_cell_y(pos, cfg) * spec_grid_w(cfg)
}

/// The indices whose positions fall in cell `k`, in increasing order.
pub open spec fn indices_in_cell(positions: Seq<Vector2>, k: int, cfg: Config) -> Seq<usize>
    decreases positions.len(),
{
    if positions.len() == 0 {
        Seq::empty()
    } else {
        let prefix = indices_in_cell(positions.drop_last(), k, cfg);
        if spec_key(positions.last(), cfg) == k {
            prefix.push((positions.len() - 1) as usize)
        } else {
            prefix
        }
    }
}

/// The bucket contents determined by a position list: the whole index,
/// as one sequence per cell.
pub open spec fn build_spec(positions: Seq<Vector2>, cfg: Config) -> Seq<Seq<usize>> {
    Seq::new(
        (spec_grid_w(cfg) * spec_grid_h(cfg)) as nat,
        |k: int| indices_in_cell(positions, k, cfg),
    )
}

/// A position lies inside the domain bounds.
pub open spec fn in_bounds(v: Vector2, cfg: Config) -> bool {
    &&& cfg.min.x <= v.x <= cfg.max.x
    &&& cfg.min.y <= v.y <= cfg.max.y
}

/// The probe position offset from `pos` by `sx` and `sy` cells, as a
/// continuous position.
pub open spec fn spec_probe(pos: Vector2, sx: int, sy: int, cfg: Config) -> Vector2 {
    Vector2 {
        x: (pos.x + sx * spec_cell_size(cfg)) as i128,
        y: (pos.y + sy * spec_cell_size(cfg)) as i128,
    }
}

/// The query result after the first `n` of the nine probes, which run in
/// row-major offset order.
pub open spec fn spec_query_up_to(m: Seq<Seq<usize>>, pos: Vector2, cfg: Config, n: int) -> Seq<
    usize,
>
    decreases n,
{
    if n <= 0 {
        Seq::empty()
    } else {
        let prev = spec_query_up_to(m, pos, cfg, n - 1);
        let v = spec_probe(pos, (n - 1) / 3 - 1, (n - 1) % 3 - 1, cfg);
        if in_bounds(v, cfg) {
            prev + m[spec_key(v, cfg)]
        } else {
            prev
        }
    }
}

/// Every particle index found in any of the nine cells probed around `pos`.
pub open spec fn spec_query(m: Seq<Seq<usize>>, pos: Vector2, cfg: Config) -> Seq<usize> {
    spec_query_up_to(m, pos, cfg, 9)
}

/// Every element of `s` is below `n`.
pub open spec fn all_below(s: Seq<usize>, n: int) -> bool {
    forall|j: int| 0 <= j < s.len() ==> (#[trigger] s[j] as int) < n
}

/// The flat cell key of any position indexes the bucket array.
pub proof fn lemma_key_range(pos: Vector2, cfg: Config)
    requires
        cfg.wf(),
    ensures
        0 <= spec_key(pos, cfg) < spec_grid_w(cfg) * spec_grid_h(cfg),
{
    let cx = spec_cell_x(pos, cfg);
    let cy = spec_cell_y(pos, cfg);
    let gw = spec_grid_w(cfg);
    let gh = spec_grid_h(cfg);
    assert(0 <= cx + cy * gw < gw * gh) by (nonlinear_arith)
        requires
            0 <= cx < gw,
            0 <= cy < gh,
    ;
}

/// Every index listed for a cell is an index into the position list.
pub proof fn lemma_indices_in_cell_bounds(positions: Seq<Vector2>, k: int, cfg: Config)
    ensures
        all_below(indices_in_cell(positions, k, cfg), positions.len() as int),
    decreases positions.len(),
{
    let s = indices_in_cell(positions, k, cfg);
    if positions.len() == 0 {
        assert(s.len() == 0);
    } else {
        lemma_indices_in_cell_bounds(positions.drop_last(), k, cfg);
        let prefix = indices_in_cell(positions.drop_last(), k, cfg);
        assert forall|j: int| 0 <= j < s.len() implies (#[trigger] s[j] as int)
            < positions.len() by {
            if j < prefix.len() {
                assert(s[j] == prefix[j]);
            }
        }
    }
}

/// Every index a query returns is an index into the position list the
/// index was built from.
pub proof fn lemma_query_bounds(
    m: Seq<Seq<usize>>,
    positions: Seq<Vector2>,
    pos: Vector2,
    cfg: Config,
    n: int,
)
    requires
        cfg.wf(),
        m == build_spec(positions, cfg),
        n <= 9,
    ensures
        all_below(spec_query_up_to(m, pos, cfg, n), positions.len() as int),
    decreases n,
{
    let s = spec_query_up_to(m, pos, cfg, n);
    if n <= 0 {
        assert(s.len() == 0);
    } else {
        lemma_query_bounds(m, positions, pos, cfg, n - 1);
        let prev = spec_query_up_to(m, pos, cfg, n - 1);
        let v = spec_probe(pos, (n - 1) / 3 - 1, (n - 1) % 3 - 1, cfg);
        if in_bounds(v, cfg) {
            lemma_key_range(v, cfg);
            lemma_indices_in_cell_bounds(positions, spec_key(v, cfg), cfg);
            let b = indices_in_cell(positions, spec_key(v, cfg), cfg);
            assert(m[spec_key(v, cfg)] == b);
            assert forall|j: int| 0 <= j < s.len() implies (#[trigger] s[j] as int)
                < positions.len() by {
                if j < prev.len() {
                    assert(s[j] == prev[j]);
                } else {
                    assert(s[j] == b[j - prev.len()]);
                }
            }
        }
    }
}

/// Flat cell key of a position; positions outside the domain are clamped
/// onto the grid edge.
pub fn calc_index(position: Vector2, cfg: &Config) -> (r: NeighborMapIndex)
    requires
        cfg.wf(),
        -0x8000_0000_0000_0000i128 <= position.x <= 0x8000_0000_0000_0000i128,
        -0x8000_0000_0000_0000i128 <= position.y <= 0x8000_0000_0000_0000i128,
    ensures
        r.0 as int == spec_key(position, *cfg),
        r.0 < spec_grid_w(*cfg) * spec_grid_h(*cfg),
{
    let d = cfg.cell_size();
    let gw = cfg.grid_w();
    let gh = cfg.grid_h();
    let qx = fx::quot_i(position.x - cfg.min.x, d);
    let qy = fx::quot_i(position.y - cfg.min.y, d);
    let cx: usize = if qx < 0 {
        0
    } else if qx >= gw as i128 {
        gw - 1
    } else {
        qx as usize
    };
    let cy: usize = if qy < 0 {
        0
    } else if qy >= gh as i128 {
        gh - 1
    } else {
        qy as usize
    };
    assert((cx as int) + (cy as int) * (gw as int) < (gw as int) * (gh as int)) by (nonlinear_arith)
        requires
            0 <= (cx as int) < gw as int,
            0 <= (cy as int) < gh as int,
    ;
    assert((cy as int) * (gw as int) <= 4095 * 4096) by (nonlinear_arith)
        requires
            0 <= cy as int <= 4095,
            0 <= gw as int <= 4096,
    ;
    NeighborMapIndex(cx + cy * gw)
}

/// Append a copy of every element of `src` to `dst`.
fn extend_indices(dst: &mut Vec<usize>, src: &Vec<usize>)
    ensures
        final(dst)@ == old(dst)@ + src@,
{
    let mut i: usize = 0;
    while i < src.len()
        invariant
            i <= src@.len(),
            dst@ == old(dst)@ + src@.take(i as int),
        decreases src@.len() - i,
    {
        dst.push(src[i]);
        proof {
            assert(src@.take(i + 1) =~= src@.take(i as int).push(src@[i as int]));
        }
        i += 1;
    }
    proof {
        assert(src@.take(src@.len() as int) =~= src@);
    }
}

/// Build the neighbor index from the current particle positions: each
/// particle's index is appended to the bucket of the cell its position
/// falls in.
pub fn new_neighbor_map(ps: &Vec<Particle>, cfg: &Config) -> (m: NeighborMap)
    requires
        cfg.wf(),
        forall|i: int| 0 <= i < ps@.len() ==> v_bounded(#[trigger] ps@[i].position),
    ensures
        m.contents() == build_spec(crate::particle::positions_of(ps@), *cfg),
{
    let gw = cfg.grid_w();
    let gh = cfg.grid_h();
    assert((gw as int) * (gh as int) <= 4096 * 4096) by (nonlinear_arith)
        requires
            0 <= gw as int <= 4096,
            0 <= gh as int <= 4096,
    ;
    assert((gw as int) * (gh as int) >= 1) by (nonlinear_arith)
        requires
            1 <= gw as int,
            1 <= gh as int,
    ;
    let cells: usize = gw * gh;
    let ghost positions = crate::particle::positions_of(ps@);
    let mut buckets: Vec<Vec<usize>> = Vec::new();
    while buckets.len() < cells
        invariant
            buckets@.len() <= cells,
            forall|k: int| 0 <= k < buckets@.len() ==> (#[trigger] buckets@[k])@ == Seq::<
                usize,
            >::empty(),
        decreases cells - buckets@.len(),
    {
        buckets.push(Vec::new());
    }
    let mut m = NeighborMap { buckets };
    let mut i: usize = 0;
    while i < ps.len()
        invariant
            cfg.wf(),
            i <= ps@.len(),
            positions == crate::particle::positions_of(ps@),
            forall|j: int| 0 <= j < ps@.len() ==> v_bounded(#[trigger] ps@[j].position),
            cells as int == spec_grid_w(*cfg) * spec_grid_h(*cfg),
            m.buckets@.len() == cells,
            forall|k: int|
                0 <= k < cells ==> (#[trigger] m.buckets@[k])@ == indices_in_cell(
                    positions.take(i as int),
                    k,
                    *cfg,
                ),
        decreases ps@.len() - i,
    {
        let idx = calc_index(ps[i].position, cfg);
        let bucket = &mut m.buckets[idx.0];
        bucket.push(i);
        proof {
            let pre = positions.take(i as int);
            let post = positions.take(i + 1);
            assert(post.drop_last() =~= pre);
            assert(post.last() == positions[i as int]);
            assert(positions[i as int] == ps@[i as int].position);
        }
        i += 1;
    }
    proof {
        assert(positions.take(positions.len() as int) =~= positions);
        assert(m.contents() =~= build_spec(positions, *cfg));
    }
    m
}

/// Collect the particle indices bucketed in the nine cells probed around
/// `position`: offsets of one cell size per axis, applied to the continuous
/// position; out-of-bounds probes contribute nothing, and near a cell edge
/// two probes may resolve to the same cell, so the result may repeat an
/// index.
pub fn neighbors(map: &NeighborMap, position: Vector2, cfg: &Config) -> (r: Vec<usize>)
    requires
        cfg.wf(),
        v_bounded(position),
        map.contents().len() == spec_grid_w(*cfg) * spec_grid_h(*cfg),
    ensures
        r@ == spec_query(map.contents(), position, *cfg),
{
    let d = cfg.cell_size();
    let mut indices: Vec<usize> = Vec::new();
    let mut k: usize = 0;
    while k < 9
        invariant
            cfg.wf(),
            v_bounded(position),
            map.contents().len() == spec_grid_w(*cfg) * spec_grid_h(*cfg),
            d == spec_cell_size(*cfg),
            1 <= d <= crate::fx::SAT,
            k <= 9,
            indices@ == spec_query_up_to(map.contents(), position, *cfg, k as int),
        decreases 9 - k,
    {
        let q3 = k / 3;
        let r3 = k % 3;
        let ox: i128 = if q3 == 0 {
            -d
        } else if q3 == 1 {
            0
        } else {
            d
        };
        let oy: i128 = if r3 == 0 {
            -d
        } else if r3 == 1 {
            0
        } else {
            d
        };
        let v = Vector2 { x: position.x + ox, y: position.y + oy };
        proof {
            let sx = q3 as int - 1;
            let sy = r3 as int - 1;
            let dd = spec_cell_size(*cfg);
            if q3 == 0 {
                assert(sx == -1);
                assert(sx * dd == -dd);
            } else if q3 == 1 {
                assert(sx == 0);
                assert(sx * dd == 0);
            } else {
                assert(q3 == 2);
                assert(sx == 1);
                assert(sx * dd == dd);
            }
            if r3 == 0 {
                assert(sy == -1);
                assert(sy * dd == -dd);
            } else if r3 == 1 {
                assert(sy == 0);
                assert(sy * dd == 0);
            } else {
                assert(r3 == 2);
                assert(sy == 1);
                assert(sy * dd == dd);
            }
            assert(v == spec_probe(position, sx, sy, *cfg));
            assert(q3 as int == (k as int) / 3);
            assert(r3 as int == (k as int) % 3);
        }
        if cfg.min.x <= v.x && v.x <= cfg.max.x && cfg.min.y <= v.y && v.y <= cfg.max.y {
            let idx = calc_index(v, cfg);
            let bucket = &map.buckets[idx.0];
            proof {
                assert(map.contents()[idx.0 as int] == bucket@);
            }
            extend_indices(&mut indices, bucket);
        }
        k += 1;
    }
    indices
}

} // verus!
