use minilp::{ComparisonOp, OptimizationDirection, Problem};
use thrusters::optimizer::{activations_from_solution, estimate_acceleration, FUEL_COST};
use thrusters::steering::quantize;
use thrusters::{
    calculate_firing, Allocation, DesiredForce, Engine, EngineSet, LpProblem, QuantKey,
    ResolvedThruster, SteeringConfig, ThrusterId, ThrusterLayout, Vec2i,
};

fn thruster(px: i64, py: i64, dx: i64, dy: i64, max_thrust: u64, index: u64) -> ResolvedThruster {
    ResolvedThruster {
        position: Vec2i { x: px, y: py },
        direction: Vec2i { x: dx, y: dy },
        max_thrust,
        id: ThrusterId { part: 0, index },
    }
}

/// Solves the program with minilp, with the rows scaled back down, and rounds
/// each activation to hundredths.
fn solve(p: &LpProblem) -> Vec<i64> {
    let scale = 1_000_000_000.0;
    let mut problem = Problem::new(OptimizationDirection::Minimize);
    let acts: Vec<_> = p
        .torque
        .iter()
        .map(|_| problem.add_var(FUEL_COST as f64 / scale, (0.0, 1.0)))
        .collect();
    let rows = [
        (&p.torque, p.torque_target),
        (&p.force_x, p.force_x_target),
        (&p.force_y, p.force_y_target),
    ];
    for (coefs, target) in rows {
        let err = problem.add_var(1.0, (f64::NEG_INFINITY, f64::INFINITY));
        let mut pos: Vec<_> = acts.iter().zip(coefs.iter()).map(|(v, c)| (*v, *c as f64 / scale)).collect();
        let mut neg: Vec<_> = acts.iter().zip(coefs.iter()).map(|(v, c)| (*v, -(*c as f64) / scale)).collect();
        pos.push((err, -1.0));
        neg.push((err, -1.0));
        problem.add_constraint(&pos[..], ComparisonOp::Le, target as f64 / scale);
        problem.add_constraint(&neg[..], ComparisonOp::Le, -(target as f64) / scale);
    }
    let solution = problem.solve().unwrap();
    acts.iter().map(|v| (solution[*v] * 100.0).round() as i64).collect()
}

#[test]
fn quantize_truncates_toward_zero() {
    let config = SteeringConfig::default();
    let key = quantize(&config, DesiredForce { x: 10, y: -10 }, 7);
    assert_eq!(key, QuantKey { force_x: 3, force_y: -3, torque: 2 });
    let key = quantize(&config, DesiredForce { x: 2, y: -2 }, -1);
    assert_eq!(key, QuantKey { force_x: 0, force_y: 0, torque: 0 });
    let wide = SteeringConfig { force_coarseness: 100, torque_coarseness: 7, com_drift_threshold: 0 };
    let key = quantize(&wide, DesiredForce { x: -1000, y: 999 }, -15);
    assert_eq!(key, QuantKey { force_x: -10, force_y: 9, torque: -2 });
}

#[test]
fn calculate_firing_coefficients() {
    let ts = vec![thruster(-30, 0, 0, 1_000_000, 2, 0), thruster(0, 60, 1_000_000, 0, 1, 1)];
    let p = calculate_firing(&ts, Vec2i { x: 0, y: 0 }, DesiredForce { x: 500, y: -250 }, 1000);
    // total thrust 3, torque weight 30 per unit of row.
    assert_eq!(p.force_x, vec![0, 1_000_000_000]);
    assert_eq!(p.force_y, vec![2_000_000_000, 0]);
    // torques about the origin: -30 * 2e6 and -(60 * 1e6).
    assert_eq!(p.torque, vec![30_000 * -60_000_000, 30_000 * -60_000_000]);
    assert_eq!(p.force_x_target, 1_000_000 * 500 * 3);
    assert_eq!(p.force_y_target, 1_000_000 * -250 * 3);
    // No positive torque is available, so a positive request has no target.
    assert_eq!(p.torque_target, 0);
    let q = calculate_firing(&ts, Vec2i { x: 0, y: 0 }, DesiredForce { x: 0, y: 0 }, -500);
    assert_eq!(q.torque_target, 30 * -500 * 120_000_000);
}

#[test]
fn calculate_firing_moves_with_center_of_mass() {
    let ts = vec![thruster(-30, 0, 0, 1_000_000, 1, 0)];
    let p = calculate_firing(&ts, Vec2i { x: -30, y: 0 }, DesiredForce { x: 0, y: 0 }, 0);
    assert_eq!(p.torque, vec![0]);
    let q = calculate_firing(&ts, Vec2i { x: 10, y: 0 }, DesiredForce { x: 0, y: 0 }, 0);
    assert_eq!(q.torque, vec![10_000 * -40_000_000]);
}

#[test]
fn zero_request_program_has_zero_targets() {
    let ts = vec![thruster(-30, 0, 0, 1_000_000, 1, 0), thruster(30, 0, 0, 1_000_000, 1, 1)];
    let p = calculate_firing(&ts, Vec2i { x: 0, y: 0 }, DesiredForce { x: 0, y: 0 }, 0);
    assert_eq!((p.torque_target, p.force_x_target, p.force_y_target), (0, 0, 0));
    assert_eq!(solve(&p), vec![0, 0]);
}

#[test]
fn activations_are_clamped() {
    let a = activations_from_solution(&vec![-5, 0, 42, 100, 150]);
    assert_eq!(a, vec![0, 0, 42, 100, 100]);
    assert!(a.iter().all(|v| *v <= 100));
}

#[test]
fn symmetric_layout_scenario() {
    let mut layout = ThrusterLayout::new();
    let e = |ox: i64, oy: i64, dx: i64, dy: i64| Engine {
        offset: Vec2i { x: ox, y: oy },
        thrust_vector: Vec2i { x: dx, y: dy },
        max_thrust: 1,
    };
    assert!(layout.set_engines(
        0,
        EngineSet(vec![e(-30, 0, 0, 1), e(30, 0, 0, 1), e(0, 60, 1, 0), e(0, 60, -1, 0)])
    ));
    let mut steering = thrusters::Steering::default();
    steering.set_desire(DesiredForce { x: 0, y: 1000 }, 0);
    let (key, program) = match steering.prepare(&layout, Vec2i { x: 0, y: 0 }) {
        Allocation::Solve(key, program) => (key, program),
        _ => panic!("expected a solve"),
    };
    let a = steering.record_solution(key, &solve(&program)).unwrap();
    assert_eq!(a.len(), 4);
    assert_eq!(a[0], a[1]);
    assert!(a[0] > 0);
    let net: i128 = program.torque.iter().zip(a.iter()).map(|(t, v)| t * *v as i128).sum();
    let largest = program.torque.iter().map(|t| t.abs()).max().unwrap();
    assert!(net.abs() <= largest);
}

#[test]
fn estimate_acceleration_values() {
    let ts = vec![thruster(-30, 0, 0, 1_000_000, 2, 0), thruster(0, 60, 1_000_000, 0, 1, 1)];
    let e = estimate_acceleration(3, 5, 1000, Vec2i { x: 0, y: 0 }, &ts, &vec![50, 0]);
    // applied thrust of the first: 1e6 * 2 * 50 * 1000 along y.
    assert_eq!(e.linear_x, 0);
    assert_eq!(e.linear_y, 5 * 100_000_000_000);
    // torque term: (-30) * 1e11, times 3 twice.
    assert_eq!(e.angular, 9 * -3_000_000_000_000);
    let f = estimate_acceleration(1, 1, 2000, Vec2i { x: 0, y: 0 }, &ts, &vec![0, 100]);
    assert_eq!(f.linear_x, 1_000_000 * 100 * 2000);
    assert_eq!(f.linear_y, 0);
    assert_eq!(f.angular, -60 * 200_000_000_000);
    let g = estimate_acceleration(1, 2, 1000, Vec2i { x: 0, y: 0 }, &vec![thruster(1, 0, 0, 1_000_000, 1, 0)], &vec![50]);
    assert_eq!((g.linear_x, g.linear_y, g.angular), (0, 2 * 50_000_000_000, 50_000_000_000));
}
