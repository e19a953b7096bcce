use flunion::config::Config;
use flunion::fx::FP;
use flunion::neighbor::{calc_index, neighbors, new_neighbor_map};
use flunion::particle::{calculate_density_and_pressure, calculate_force, step, Particle};
use flunion::vecmath::vector2::Vector2;

fn test_config() -> Config {
    Config {
        rest_density: 2 * FP,
        int_stiff: FP,
        pmass: FP,
        simscale: FP,
        h: 2 * FP,
        dt: FP / 16,
        visc: FP / 5,
        limit: 200 * FP,
        radius: FP / 4,
        epsilon: 1,
        extstiff: 100 * FP,
        extdamp: FP,
        min: Vector2 { x: 0, y: 0 },
        max: Vector2 { x: 20 * FP, y: 20 * FP },
        poly6kern: FP,
        spikykern: -FP,
        lapkern: FP,
        gravity: Vector2 { x: 0, y: 0 },
    }
}

fn particle_at(x: i128, y: i128) -> Particle {
    Particle::new(Vector2::new(x, y))
}

#[test]
fn pair_exactly_radius_apart_contributes_nothing() {
    // two particles exactly the smoothing radius apart: kernel term is zero,
    // so both come out with density zero and pressure -rest * stiffness
    let cfg = test_config();
    let mut ps = vec![particle_at(0, 0), particle_at(2 * FP, 0)];
    let map = new_neighbor_map(&ps, &cfg);
    calculate_density_and_pressure(&mut ps, &map, &cfg);
    assert_eq!(ps[0].rho, 0);
    assert_eq!(ps[0].p, -2 * FP);
    assert_eq!(ps[1].rho, 0);
    assert_eq!(ps[1].p, -2 * FP);
}

#[test]
fn isolated_particle_density_and_pressure() {
    // no neighbor within radius: density contribution zero, stored
    // reciprocal density zero, pressure -rest * stiffness
    let cfg = test_config();
    let mut ps = vec![particle_at(10 * FP, 10 * FP)];
    let map = new_neighbor_map(&ps, &cfg);
    calculate_density_and_pressure(&mut ps, &map, &cfg);
    assert_eq!(ps[0].rho, 0);
    assert_eq!(ps[0].p, -2 * FP);
}

#[test]
fn close_pair_density_and_pressure_exact() {
    let cfg = test_config();
    let mut ps = vec![particle_at(5 * FP, 5 * FP), particle_at(6 * FP, 5 * FP)];
    let map = new_neighbor_map(&ps, &cfg);
    calculate_density_and_pressure(&mut ps, &map, &cfg);
    // kernel sum is (h^2 - r^2)^3 = (3.0)^3 = 27.0; density 27.0;
    // pressure (27 - 2) * 1 = 25.0; stored reciprocal 1/27 rounded down
    assert_eq!(ps[0].p, 25 * FP);
    assert_eq!(ps[0].rho, FP / 27);
    assert_eq!(ps[1].p, 25 * FP);
    assert_eq!(ps[1].rho, FP / 27);
}

#[test]
fn pair_forces_are_exactly_opposite() {
    // Newton's-third-law check on a symmetric pair at rest
    let cfg = test_config();
    let mut ps = vec![particle_at(5 * FP, 5 * FP), particle_at(6 * FP, 5 * FP)];
    let map = new_neighbor_map(&ps, &cfg);
    calculate_density_and_pressure(&mut ps, &map, &cfg);
    calculate_force(&mut ps, &map, &cfg);
    assert_eq!(ps[0].force.x, -2225);
    assert_eq!(ps[0].force.y, 0);
    assert_eq!(ps[1].force.x, 2225);
    assert_eq!(ps[1].force.y, 0);
}

#[test]
fn query_returns_superset_of_true_neighbors() {
    // the query from an interior position returns every particle within
    // the smoothing radius (and tolerates duplicates)
    let cfg = test_config();
    let ps = vec![
        particle_at(5 * FP, 5 * FP),
        particle_at(6 * FP, 5 * FP),
        particle_at(5 * FP, 6 * FP),
        particle_at(15 * FP, 15 * FP),
    ];
    let map = new_neighbor_map(&ps, &cfg);
    let found = neighbors(&map, ps[0].position, &cfg);
    assert!(found.contains(&0));
    assert!(found.contains(&1));
    assert!(found.contains(&2));
    assert!(!found.contains(&3));
}

#[test]
fn stationary_particle_stays_exactly_put() {
    // zero force, zero velocity, zero gravity, no wall penetration:
    // a full tick is a fixed point
    let cfg = test_config();
    let mut ps = vec![particle_at(10 * FP, 10 * FP)];
    step(&mut ps, &cfg);
    assert_eq!(ps[0].position.x, 10 * FP);
    assert_eq!(ps[0].position.y, 10 * FP);
    assert_eq!(ps[0].velocity.x, 0);
    assert_eq!(ps[0].velocity.y, 0);
}

#[test]
fn repulsive_pair_separates_after_one_tick() {
    // two particles closer than the radius, density above rest: after one
    // tick their separation has grown
    let cfg = test_config();
    let mut ps = vec![particle_at(5 * FP, 5 * FP), particle_at(6 * FP, 5 * FP)];
    let before = ps[1].position.x - ps[0].position.x;
    step(&mut ps, &cfg);
    assert_eq!(ps[0].position.x, 5 * FP - 8);
    assert_eq!(ps[1].position.x, 6 * FP + 8);
    assert_eq!(ps[0].position.y, 5 * FP);
    assert_eq!(ps[1].position.y, 5 * FP);
    let after = ps[1].position.x - ps[0].position.x;
    assert!(after > before);
}

#[test]
fn min_x_wall_pushes_particle_outward() {
    // a particle penetrating the minimum-x wall accelerates in +x
    let cfg = test_config();
    let mut ps = vec![particle_at(FP / 8, 10 * FP)];
    step(&mut ps, &cfg);
    assert!(ps[0].velocity.x > 0);
    assert_eq!(ps[0].velocity.x, 153600);
    assert_eq!(ps[0].position.x, FP / 8 + 9600);
    assert_eq!(ps[0].velocity.y, 0);
    assert_eq!(ps[0].position.y, 10 * FP);
}

#[test]
fn rebuilding_index_is_deterministic() {
    // same positions, same buckets, bucket for bucket
    let cfg = test_config();
    let ps = vec![
        particle_at(5 * FP, 5 * FP),
        particle_at(6 * FP, 5 * FP),
        particle_at(5 * FP, 6 * FP),
        particle_at(19 * FP, 19 * FP),
        particle_at(0, 0),
    ];
    let m1 = new_neighbor_map(&ps, &cfg);
    let m2 = new_neighbor_map(&ps, &cfg);
    assert_eq!(m1.buckets, m2.buckets);
}

#[test]
fn out_of_domain_positions_clamp_onto_grid() {
    let cfg = test_config();
    let low = calc_index(Vector2::new(-FP, -FP), &cfg);
    assert_eq!(low.0, 0);
    let high = calc_index(Vector2::new(100 * FP, 100 * FP), &cfg);
    let inside = calc_index(Vector2::new(20 * FP, 20 * FP), &cfg);
    assert_eq!(high, inside);
}

#[test]
fn step_preserves_particle_count_and_gravity_pulls_down() {
    let mut cfg = test_config();
    cfg.gravity = Vector2 { x: 0, y: -10 * FP };
    let mut ps = vec![particle_at(10 * FP, 10 * FP), particle_at(10 * FP, 15 * FP)];
    step(&mut ps, &cfg);
    assert_eq!(ps.len(), 2);
    assert!(ps[0].velocity.y < 0);
    assert!(ps[0].position.y < 10 * FP);
}

#[test]
fn lattice_spans_rectangle_at_rest() {
    let ps = flunion::lattice::init_lattice(
        Vector2::new(0, 0),
        Vector2::new(2 * FP, FP),
        FP,
    );
    // three columns (0, 1, 2) by two rows (0, 1), row-major
    assert_eq!(ps.len(), 6);
    assert_eq!((ps[0].position.x, ps[0].position.y), (0, 0));
    assert_eq!((ps[1].position.x, ps[1].position.y), (FP, 0));
    assert_eq!((ps[2].position.x, ps[2].position.y), (2 * FP, 0));
    assert_eq!((ps[3].position.x, ps[3].position.y), (0, FP));
    assert_eq!((ps[5].position.x, ps[5].position.y), (2 * FP, FP));
    for p in &ps {
        assert_eq!((p.velocity.x, p.velocity.y), (0, 0));
        assert_eq!((p.force.x, p.force.y), (0, 0));
        assert_eq!(p.rho, 0);
        assert_eq!(p.p, 0);
    }
}

#[test]
fn new_particle_starts_at_rest() {
    let p = Particle::new(Vector2::new(3 * FP, 4 * FP));
    assert_eq!(p.position.x, 3 * FP);
    assert_eq!(p.position.y, 4 * FP);
    assert_eq!(p.velocity.x, 0);
    assert_eq!(p.velocity.y, 0);
    assert_eq!(p.force.x, 0);
    assert_eq!(p.force.y, 0);
    assert_eq!(p.rho, 0);
    assert_eq!(p.p, 0);
}
