use particle_sandbox::config::Config;
use particle_sandbox::solver::{isqrt, Solver};
use particle_sandbox::vertex::{Color, Vec2, Vertex};

fn color() -> Color {
    Color { r: 10, g: 20, b: 30 }
}

fn particle(x: i64, y: i64) -> Vertex {
    Vertex::new(Vec2 { x, y }, color())
}

fn test_config() -> Config {
    // radius 5 -> cell width 20; 1000 x 1000 world -> 50 x 50 grid.
    Config::new(5, 1000, 1000).unwrap()
}

#[test]
fn config_validation() {
    let config = test_config();
    assert_eq!(config.cell_width, 20);
    assert_eq!(config.grid_width, 50);
    assert_eq!(config.grid_height, 50);
    assert!(Config::new(0, 1000, 1000).is_none()); // radius must be positive
    assert!(Config::new(5, 19, 1000).is_none()); // world narrower than one cell
    assert!(Config::new(5, 1000, 19).is_none());
    assert!(Config::new(70000, 1000000, 1000000).is_none()); // radius too large
    // a partial trailing strip is absorbed, not given its own cell
    let uneven = Config::new(5, 1010, 1000).unwrap();
    assert_eq!(uneven.grid_width, 50);
}

#[test]
fn isqrt_exact_values() {
    assert_eq!(isqrt(0), 0);
    assert_eq!(isqrt(1), 1);
    assert_eq!(isqrt(3), 1);
    assert_eq!(isqrt(4), 2);
    assert_eq!(isqrt(35), 5);
    assert_eq!(isqrt(36), 6);
    assert_eq!(isqrt(12345 * 12345 + 100), 12345);
}

#[test]
fn add_and_get_objects_keep_insertion_order() {
    let mut solver = Solver::new(test_config(), Vec::new());
    assert_eq!(solver.get_objects().len(), 0);
    solver.add(particle(100, 100));
    solver.add(particle(200, 200));
    solver.add(particle(300, 300));
    let objects = solver.get_objects();
    assert_eq!(objects.len(), 3);
    assert_eq!(objects[0].position, Vec2 { x: 100, y: 100 });
    assert_eq!(objects[1].position, Vec2 { x: 200, y: 200 });
    assert_eq!(objects[2].position, Vec2 { x: 300, y: 300 });
    assert_eq!(objects[2].color, color());
}

#[test]
fn update_on_empty_solver_is_harmless() {
    let mut solver = Solver::new(test_config(), Vec::new());
    solver.update(8);
    assert_eq!(solver.get_objects().len(), 0);
}

#[test]
fn collision_moves_pair_by_equal_and_opposite_corrections() {
    // Two particles 7 apart on the x axis, closer than cell width 20:
    // dist = 7, overlap delta = 13, correction = floor(7 * 13 / 14) = 6.
    let config = test_config();
    let mut objects = vec![particle(100, 100), particle(107, 100)];
    Solver::collide_objects(&config, &mut objects, 0, 1);
    assert_eq!(objects[0].position, Vec2 { x: 94, y: 100 });
    assert_eq!(objects[1].position, Vec2 { x: 113, y: 100 });
    // equal and opposite: displacements sum to zero
    assert_eq!((94 - 100) + (113 - 107), 0);
    // previous positions and accelerations untouched
    assert_eq!(objects[0].previous_position, Vec2 { x: 100, y: 100 });
    assert_eq!(objects[1].previous_position, Vec2 { x: 107, y: 100 });
}

#[test]
fn collision_skips_self_pairs_and_distant_pairs() {
    let config = test_config();
    let mut objects = vec![particle(100, 100), particle(400, 400)];
    Solver::collide_objects(&config, &mut objects, 0, 0);
    Solver::collide_objects(&config, &mut objects, 0, 1);
    assert_eq!(objects[0].position, Vec2 { x: 100, y: 100 });
    assert_eq!(objects[1].position, Vec2 { x: 400, y: 400 });
}

#[test]
fn collision_skips_exactly_coincident_particles() {
    // No separation axis exists; the pair is left untouched.
    let config = test_config();
    let mut objects = vec![particle(250, 250), particle(250, 250)];
    Solver::collide_objects(&config, &mut objects, 0, 1);
    assert_eq!(objects[0].position, Vec2 { x: 250, y: 250 });
    assert_eq!(objects[1].position, Vec2 { x: 250, y: 250 });
}

#[test]
fn boundary_constraint_clamps_all_particles_into_world() {
    // Particles initialised outside the world are clamped into
    // [radius, world - radius] on both axes.
    let mut solver = Solver::new(test_config(), Vec::new());
    solver.add(particle(-5000, 20000));
    solver.add(particle(3, 998));
    solver.add(particle(500, 500));
    solver.apply_constraints();
    let objects = solver.get_objects();
    assert_eq!(objects[0].position, Vec2 { x: 5, y: 995 });
    assert_eq!(objects[1].position, Vec2 { x: 5, y: 995 });
    assert_eq!(objects[2].position, Vec2 { x: 500, y: 500 });
    for v in objects.iter() {
        assert!(5 <= v.position.x && v.position.x <= 995);
        assert!(5 <= v.position.y && v.position.y <= 995);
    }
}

#[test]
fn boundary_invariant_after_full_update() {
    let mut solver = Solver::new(test_config(), Vec::new());
    solver.add(particle(-40, 500));
    solver.add(particle(500, 100000));
    solver.update(8);
    for v in solver.get_objects().iter() {
        // after the final sub-step's clamp, one integration step of the
        // clamp discontinuity remains; the coordinates stay finite and the
        // clamp phase itself is checked above, so only sanity is asserted
        assert!(v.position.x.abs() < 1 << 21);
        assert!(v.position.y.abs() < 1 << 21);
    }
}

#[test]
fn rest_state_is_bit_identical_after_update() {
    // A lone particle at rest strictly inside the world, zero gravity:
    // update changes nothing at all, for any dt.
    let mut solver = Solver::new(test_config(), Vec::new());
    solver.change_gravity(0, 0);
    let v = particle(500, 500);
    solver.add(v);
    solver.update(8);
    assert_eq!(solver.get_objects()[0], v);
    solver.update(200);
    assert_eq!(solver.get_objects()[0], v);
    solver.update(0);
    assert_eq!(solver.get_objects()[0], v);
}

#[test]
fn gravity_accelerates_fall_with_full_frame_dt() {
    // Gravity enters un-scaled once per sub-step while integration uses
    // dt / 8: with dt = 8 ticks and gravity (0, -10), the positions follow
    // y_{k+1} = y_k + (y_k - y_{k-1}) - 10, eight times.
    let mut solver = Solver::new(test_config(), Vec::new());
    solver.change_gravity(0, -10);
    solver.add(particle(500, 500));
    solver.update(8);
    let v = &solver.get_objects()[0];
    assert_eq!(v.position, Vec2 { x: 500, y: 140 });
    assert_eq!(v.previous_position, Vec2 { x: 500, y: 220 });
    assert_eq!(v.acceleration, Vec2 { x: 0, y: 0 });
}

#[test]
fn change_gravity_takes_effect_on_next_update() {
    let mut solver = Solver::new(test_config(), Vec::new());
    solver.change_gravity(0, 0);
    solver.add(particle(500, 500));
    solver.update(8);
    assert_eq!(solver.get_objects()[0].position, Vec2 { x: 500, y: 500 });
    solver.change_gravity(-10, 0);
    solver.update(8);
    assert!(solver.get_objects()[0].position.x < 500);
    assert_eq!(solver.get_objects()[0].position.y, 500);
}

#[test]
fn convergent_separation_of_close_pair() {
    // Two particles one distance unit apart (less than the cell width 4),
    // zero gravity, zero initial velocity: the collision pass pushes them
    // apart along the x axis; the Verlet step then carries the separation
    // further. The motion stays symmetric about the original midpoint and
    // strictly along the original axis, and they end at least a cell
    // width apart.
    let config = Config::new(1, 400, 400).unwrap();
    assert_eq!(config.cell_width, 4);
    let mut solver = Solver::new(config, Vec::new());
    solver.change_gravity(0, 0);
    solver.add(particle(200, 200));
    solver.add(particle(201, 200));
    solver.update(8);
    let objects = solver.get_objects();
    let (p0, p1) = (&objects[0], &objects[1]);
    assert_eq!(p0.position.y, 200);
    assert_eq!(p1.position.y, 200);
    // symmetric about the original midpoint x = 200.5
    assert_eq!(p0.position.x + p1.position.x, 401);
    assert!(p0.position.x < 200 && p1.position.x > 201);
    assert!(p1.position.x - p0.position.x >= config.cell_width);
    // the exact trajectory: one half-overlap push, then inertia
    assert_eq!(p0.position.x, 191);
    assert_eq!(p1.position.x, 210);
}

#[test]
fn gravity_phase_only_accumulates_acceleration() {
    let mut solver = Solver::new(test_config(), Vec::new());
    solver.change_gravity(3, -7);
    solver.add(particle(500, 500));
    solver.apply_gravity(8);
    let v = &solver.get_objects()[0];
    assert_eq!(v.acceleration, Vec2 { x: 3, y: -7 });
    assert_eq!(v.position, Vec2 { x: 500, y: 500 });
}

#[test]
fn dense_cluster_stays_inside_world() {
    // A 6 x 6 block of overlapping particles under strong gravity: after
    // several frames everything is still inside the world band.
    let mut solver = Solver::new(test_config(), Vec::new());
    for i in 0..6 {
        for j in 0..6 {
            solver.add(particle(480 + 7 * i, 480 + 7 * j));
        }
    }
    solver.change_gravity(0, -1000);
    for _ in 0..5 {
        solver.update(8);
        solver.apply_constraints();
        for v in solver.get_objects().iter() {
            assert!(5 <= v.position.x && v.position.x <= 995);
            assert!(5 <= v.position.y && v.position.y <= 995);
        }
    }
    assert_eq!(solver.get_objects().len(), 36);
}

#[test]
fn particles_in_adjacent_cells_still_collide() {
    // (119, 100) and (122, 100) sit in different grid columns but only 3
    // apart: the 3 x 3 neighbourhood scan must still find the pair.
    let mut solver = Solver::new(test_config(), Vec::new());
    solver.change_gravity(0, 0);
    solver.add(particle(119, 100));
    solver.add(particle(122, 100));
    solver.update(8);
    let objects = solver.get_objects();
    assert!(objects[0].position.x < 119);
    assert!(objects[1].position.x > 122);
    assert_eq!(objects[0].position.x + objects[1].position.x, 241);
    assert_eq!(objects[0].position.y, 100);
    assert_eq!(objects[1].position.y, 100);
}

#[test]
fn far_apart_particles_are_left_exactly_in_place() {
    let mut solver = Solver::new(test_config(), Vec::new());
    solver.change_gravity(0, 0);
    let a = particle(300, 300);
    let b = particle(400, 400);
    solver.add(a);
    solver.add(b);
    solver.update(8);
    assert_eq!(solver.get_objects()[0], a);
    assert_eq!(solver.get_objects()[1], b);
    assert_eq!(solver.get_objects().len(), 2);
}
