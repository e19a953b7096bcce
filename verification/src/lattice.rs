//! Particle lattice initialization: a pure factory that lays particles out
//! on a uniform grid spanning an initialization rectangle.

use vstd::prelude::*;
use crate::particle::Particle;
use crate::vecmath::vector2::{Vector2, v_bounded};
use crate::fx::in_range;

verus! {

/// The positions of one lattice row: `x` stepping by `d` while it stays at
/// or below `xmax`.
pub open spec fn row_positions(x: int, xmax: int, y: int, d: int) -> Seq<Vector2>
    decreases xmax + d - x,
    when d >= 1
{
    if x > xmax {
        Seq::empty()
    } else {
        seq![Vector2 { x: x as i128, y: y as i128 }] + row_positions(x + d, xmax, y, d)
    }
}

/// The positions of the whole lattice: rows of `row_positions`, `y`
/// stepping by `d` while it stays at or below `ymax`.
pub open spec fn lattice_positions(xmin: int, xmax: int, y: int, ymax: int, d: int) -> Seq<
    Vector2,
>
    decreases ymax + d - y,
    when d >= 1
{
    if y > ymax {
        Seq::empty()
    } else {
        row_positions(xmin, xmax, y, d) + lattice_positions(xmin, xmax, y + d, ymax, d)
    }
}

/// Lay particles out on a lattice spanning the rectangle from `init_min` to
/// `init_max`, spaced `spacing` apart per axis, each at rest with zero
/// force, density and pressure.
pub fn init_lattice(init_min: Vector2, init_max: Vector2, spacing: i128) -> (v: Vec<Particle>)
    requires
        spacing >= 1,
        in_range(spacing as int),
        v_bounded(init_min),
        v_bounded(init_max),
    ensures
        crate::particle::positions_of(v@) == lattice_positions(
            init_min.x as int,
            init_max.x as int,
            init_min.y as int,
            init_max.y as int,
            spacing as int,
        ),
        forall|k: int|
            0 <= k < v@.len() ==> {
                &&& (#[trigger] v@[k]).velocity == (Vector2 { x: 0i128, y: 0i128 })
                &&& v@[k].force == (Vector2 { x: 0i128, y: 0i128 })
                &&& v@[k].rho == 0
                &&& v@[k].p == 0
            },
{
    let mut v: Vec<Particle> = Vec::new();
    let mut y = init_min.y;
    while y <= init_max.y
        invariant
            spacing >= 1,
            in_range(spacing as int),
            v_bounded(init_min),
            v_bounded(init_max),
            init_min.y <= y,
            y == init_min.y || y <= init_max.y + spacing,
            crate::particle::positions_of(v@) + lattice_positions(
                init_min.x as int,
                init_max.x as int,
                y as int,
                init_max.y as int,
                spacing as int,
            ) == lattice_positions(
                init_min.x as int,
                init_max.x as int,
                init_min.y as int,
                init_max.y as int,
                spacing as int,
            ),
            forall|k: int|
                0 <= k < v@.len() ==> {
                    &&& (#[trigger] v@[k]).velocity == (Vector2 { x: 0i128, y: 0i128 })
                    &&& v@[k].force == (Vector2 { x: 0i128, y: 0i128 })
                    &&& v@[k].rho == 0
                    &&& v@[k].p == 0
                },
        decreases init_max.y + spacing - y,
    {
        let mut x = init_min.x;
        while x <= init_max.x
            invariant
                spacing >= 1,
                in_range(spacing as int),
                v_bounded(init_min),
                v_bounded(init_max),
                init_min.y <= y <= init_max.y,
                init_min.x <= x,
                x == init_min.x || x <= init_max.x + spacing,
                crate::particle::positions_of(v@) + row_positions(
                    x as int,
                    init_max.x as int,
                    y as int,
                    spacing as int,
                ) + lattice_positions(
                    init_min.x as int,
                    init_max.x as int,
                    y as int + spacing,
                    init_max.y as int,
                    spacing as int,
                ) == lattice_positions(
                    init_min.x as int,
                    init_max.x as int,
                    init_min.y as int,
                    init_max.y as int,
                    spacing as int,
                ),
                forall|k: int|
                    0 <= k < v@.len() ==> {
                        &&& (#[trigger] v@[k]).velocity == (Vector2 { x: 0i128, y: 0i128 })
                        &&& v@[k].force == (Vector2 { x: 0i128, y: 0i128 })
                        &&& v@[k].rho == 0
                        &&& v@[k].p == 0
                    },
            decreases init_max.x + spacing - x,
        {
            let ghost pre = v@;
            v.push(Particle::new(Vector2::new(x, y)));
            proof {
                let rest = row_positions(x as int + spacing, init_max.x as int, y as int, spacing as int);
                let tail = lattice_positions(
                    init_min.x as int,
                    init_max.x as int,
                    y as int + spacing,
                    init_max.y as int,
                    spacing as int,
                );
                assert(crate::particle::positions_of(v@) =~= crate::particle::positions_of(pre)
                    + seq![Vector2 { x: x, y: y }]);
                assert(crate::particle::positions_of(v@) + rest + tail
                    =~= crate::particle::positions_of(pre) + (seq![Vector2 { x: x, y: y }] + rest)
                    + tail);
            }
            x = x + spacing;
        }
        y = y + spacing;
    }
    proof {
        assert(lattice_positions(
            init_min.x as int,
            init_max.x as int,
            y as int,
            init_max.y as int,
            spacing as int,
        ) =~= Seq::<Vector2>::empty());
        assert(crate::particle::positions_of(v@) =~= crate::particle::positions_of(v@)
            + Seq::<Vector2>::empty());
    }
    v
}

} // verus!
