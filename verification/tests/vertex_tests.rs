use particle_sandbox::vertex::{Color, Vec2, Vertex};

fn color(r: u8, g: u8, b: u8) -> Color {
    Color { r, g, b }
}

#[test]
fn new_particle_starts_at_rest() {
    let v = Vertex::new(Vec2 { x: 40, y: -7 }, color(1, 2, 3));
    assert_eq!(v.position, Vec2 { x: 40, y: -7 });
    assert_eq!(v.previous_position, Vec2 { x: 40, y: -7 });
    assert_eq!(v.acceleration, Vec2 { x: 0, y: 0 });
    assert_eq!(v.color, color(1, 2, 3));
}

#[test]
fn accelerate_accumulates_over_calls() {
    let mut v = Vertex::new(Vec2 { x: 0, y: 0 }, color(0, 0, 0));
    v.accelerate(Vec2 { x: 3, y: 4 });
    v.accelerate(Vec2 { x: -1, y: 2 });
    assert_eq!(v.acceleration, Vec2 { x: 2, y: 6 });
    assert_eq!(v.position, Vec2 { x: 0, y: 0 });
}

#[test]
fn integration_follows_verlet_formula_exactly() {
    // velocity = position - previous = (2, 1); acceleration term = a * dt^2.
    let mut v = Vertex::new(Vec2 { x: 8, y: 6 }, color(0, 0, 0));
    v.position = Vec2 { x: 10, y: 7 };
    v.accelerate(Vec2 { x: 0, y: -5 });
    v.update_position(2);
    assert_eq!(v.position, Vec2 { x: 12, y: -12 });
    assert_eq!(v.previous_position, Vec2 { x: 10, y: 7 });
    assert_eq!(v.acceleration, Vec2 { x: 0, y: 0 });
}

#[test]
fn integrator_stationarity_many_steps() {
    // Zero acceleration and position == previous position: exactly
    // stationary after any number of integration steps.
    let start = Vertex::new(Vec2 { x: 123, y: 456 }, color(9, 9, 9));
    let mut v = start;
    for _ in 0..25 {
        v.update_position(3);
        assert_eq!(v, start);
    }
}

#[test]
fn integration_with_zero_dt_keeps_velocity_only() {
    let mut v = Vertex::new(Vec2 { x: 100, y: 100 }, color(0, 0, 0));
    v.position = Vec2 { x: 103, y: 99 };
    v.accelerate(Vec2 { x: 50, y: 50 });
    v.update_position(0);
    // dt = 0 wipes the acceleration contribution but not the velocity.
    assert_eq!(v.position, Vec2 { x: 106, y: 98 });
    assert_eq!(v.acceleration, Vec2 { x: 0, y: 0 });
}
