use thrusters::{
    Allocation, BodyMass, DesiredForce, Engine, EngineEvent, EngineSet, Estimate, Steering, SteeringConfig,
    ThrustScale, ThrusterId, ThrusterLayout, Vec2i,
};

fn engine(ox: i64, oy: i64, dx: i64, dy: i64) -> Engine {
    Engine { offset: Vec2i { x: ox, y: oy }, thrust_vector: Vec2i { x: dx, y: dy }, max_thrust: 1 }
}

fn two_engine_layout() -> ThrusterLayout {
    let mut layout = ThrusterLayout::new();
    assert!(layout.set_engines(0, EngineSet(vec![engine(-30, 0, 0, 1), engine(30, 0, 0, 1)])));
    layout
}

fn origin() -> Vec2i {
    Vec2i { x: 0, y: 0 }
}

#[test]
fn zero_request_is_idle() {
    let layout = two_engine_layout();
    let mut steering = Steering::default();
    assert!(matches!(steering.prepare(&layout, origin()), Allocation::Idle));
    // A request in the zero request's bucket is no request.
    steering.set_desire(DesiredForce { x: 2, y: -2 }, 1);
    assert!(matches!(steering.prepare(&layout, origin()), Allocation::Idle));
    steering.set_desire(DesiredForce { x: 0, y: 500 }, 0);
    steering.clear_desire();
    assert_eq!(steering.desired_force(), DesiredForce { x: 0, y: 0 });
    assert_eq!(steering.desired_torque(), 0);
    assert!(matches!(steering.prepare(&layout, origin()), Allocation::Idle));
    assert!(steering.finish_tick(&vec![]).is_empty());
}

#[test]
fn same_bucket_reuses_cached_allocation() {
    let layout = two_engine_layout();
    let mut steering = Steering::default();
    steering.set_desire(DesiredForce { x: 0, y: 600 }, 0);
    let key = match steering.prepare(&layout, origin()) {
        Allocation::Solve(key, program) => {
            assert_eq!(program.torque.len(), 2);
            key
        }
        _ => panic!("expected a solve"),
    };
    let stored = steering.record_solution(key, &vec![37, 101]).unwrap();
    assert_eq!(stored, vec![37, 100]);
    match steering.prepare(&layout, origin()) {
        Allocation::Ready(a) => assert_eq!(a, vec![37, 100]),
        _ => panic!("expected the cached allocation"),
    }
    // 601 and 602 fall in the bucket of 600 with the default coarseness of 3.
    steering.set_desire(DesiredForce { x: 0, y: 602 }, 0);
    match steering.prepare(&layout, origin()) {
        Allocation::Ready(a) => assert_eq!(a, vec![37, 100]),
        _ => panic!("expected the cached allocation"),
    }
    steering.set_desire(DesiredForce { x: 0, y: 603 }, 0);
    assert!(matches!(steering.prepare(&layout, origin()), Allocation::Solve(..)));
}

#[test]
fn record_solution_refuses_wrong_length() {
    let layout = two_engine_layout();
    let mut steering = Steering::default();
    steering.set_desire(DesiredForce { x: 0, y: 600 }, 0);
    let key = match steering.prepare(&layout, origin()) {
        Allocation::Solve(key, _) => key,
        _ => panic!("expected a solve"),
    };
    assert_eq!(steering.record_solution(key, &vec![10, 10, 10]), None);
    assert!(matches!(steering.prepare(&layout, origin()), Allocation::Solve(..)));
    let mut fresh = Steering::default();
    assert_eq!(fresh.record_solution(key, &vec![]), None);
}

#[test]
fn layout_change_resolves_again() {
    let mut layout = two_engine_layout();
    let mut steering = Steering::default();
    steering.set_desire(DesiredForce { x: 0, y: 600 }, 0);
    let key = match steering.prepare(&layout, origin()) {
        Allocation::Solve(key, _) => key,
        _ => panic!("expected a solve"),
    };
    steering.record_solution(key, &vec![50, 50]).unwrap();
    assert!(layout.add_part(thrusters::PartTransform::identity(), EngineSet(vec![engine(0, 60, 1, 0)])).is_some());
    match steering.prepare(&layout, origin()) {
        Allocation::Solve(_, program) => assert_eq!(program.torque.len(), 3),
        _ => panic!("the stale allocation was reused"),
    }
    let a = steering.record_solution(key, &vec![50, 50, 0]).unwrap();
    assert_eq!(a.len(), 3);
    match steering.prepare(&layout, origin()) {
        Allocation::Ready(a) => assert_eq!(a.len(), 3),
        _ => panic!("expected the cached allocation"),
    }
}

#[test]
fn invalidate_caches_forgets_allocations() {
    let layout = two_engine_layout();
    let mut steering = Steering::default();
    steering.set_desire(DesiredForce { x: 0, y: 600 }, 0);
    let key = match steering.prepare(&layout, origin()) {
        Allocation::Solve(key, _) => key,
        _ => panic!("expected a solve"),
    };
    steering.record_solution(key, &vec![50, 50]).unwrap();
    steering.invalidate_caches();
    assert!(matches!(steering.prepare(&layout, origin()), Allocation::Solve(..)));
}

#[test]
fn com_drift_drops_cache() {
    let layout = two_engine_layout();
    let config = SteeringConfig { force_coarseness: 3, torque_coarseness: 3, com_drift_threshold: 50 };
    let mut steering = Steering::new(config);
    steering.set_desire(DesiredForce { x: 0, y: 600 }, 0);
    let key = match steering.prepare(&layout, origin()) {
        Allocation::Solve(key, _) => key,
        _ => panic!("expected a solve"),
    };
    steering.record_solution(key, &vec![50, 50]).unwrap();
    // 5 * 5 + 5 * 5 = 50 is not beyond the threshold.
    assert!(matches!(steering.prepare(&layout, Vec2i { x: 5, y: 5 }), Allocation::Ready(_)));
    // 10 * 10 = 100 is: the program is built about the new center of mass.
    match steering.prepare(&layout, Vec2i { x: 10, y: 0 }) {
        Allocation::Solve(_, program) => {
            assert_ne!(program.torque[0], -program.torque[1]);
            assert_eq!(program.torque, vec![20_000 * -40_000_000, 20_000 * 20_000_000]);
        }
        _ => panic!("expected a solve after the drift"),
    }
}

#[test]
fn no_thrusters_gives_empty_allocation() {
    let layout = ThrusterLayout::new();
    let mut steering = Steering::default();
    steering.set_desire(DesiredForce { x: 100, y: 0 }, 0);
    match steering.prepare(&layout, origin()) {
        Allocation::Ready(a) => assert!(a.is_empty()),
        _ => panic!("expected the empty allocation"),
    }
}

#[test]
fn edge_triggered_events() {
    let layout = two_engine_layout();
    let mut steering = Steering::default();
    steering.set_desire(DesiredForce { x: 0, y: 600 }, 0);
    let key = match steering.prepare(&layout, origin()) {
        Allocation::Solve(key, _) => key,
        _ => panic!("expected a solve"),
    };
    let a = steering.record_solution(key, &vec![40, 0]).unwrap();
    let first = ThrusterId { part: 0, index: 0 };
    let second = ThrusterId { part: 0, index: 1 };
    assert_eq!(steering.finish_tick(&a), vec![EngineEvent::StartedFiring(first, 40)]);
    assert_eq!(steering.finish_tick(&a), vec![]);
    assert_eq!(steering.finish_tick(&a), vec![]);
    assert_eq!(
        steering.finish_tick(&vec![0, 70]),
        vec![EngineEvent::StartedFiring(second, 70), EngineEvent::StoppedFiring(first)]
    );
    assert_eq!(steering.finish_tick(&vec![]), vec![EngineEvent::StoppedFiring(second)]);
    assert_eq!(steering.finish_tick(&vec![]), vec![]);
}

#[test]
fn engine_event_names_its_thruster() {
    let id = ThrusterId { part: 4, index: 2 };
    assert_eq!(EngineEvent::StartedFiring(id, 12).engine(), id);
    assert_eq!(EngineEvent::StoppedFiring(id).engine(), id);
}

#[test]
fn thrust_commands_scale() {
    let mut layout = ThrusterLayout::new();
    assert!(layout.set_engines(
        0,
        EngineSet(vec![
            Engine { offset: Vec2i { x: 1, y: 2 }, thrust_vector: Vec2i { x: 0, y: 1 }, max_thrust: 3 },
            engine(30, 0, 0, 1),
        ])
    ));
    let mut steering = Steering::default();
    steering.update_engine_cache(&layout);
    assert_eq!(ThrustScale::default(), ThrustScale(1000));
    let c = steering.thrust_commands(&vec![50, 0], ThrustScale(1000));
    assert_eq!(c.len(), 1);
    assert_eq!(c[0].id, ThrusterId { part: 0, index: 0 });
    assert_eq!(c[0].position, Vec2i { x: 1, y: 2 });
    assert_eq!(c[0].direction, Vec2i { x: 0, y: 1_000_000 });
    assert_eq!(c[0].magnitude, 3 * 50 * 1000);
    let d = steering.thrust_commands(&vec![100, 100], ThrustScale(2500));
    assert_eq!(d.iter().map(|c| c.magnitude).collect::<Vec<_>>(), vec![3 * 100 * 2500, 100 * 2500]);
}

#[test]
fn steering_estimate_uses_cached_allocation() {
    let layout = two_engine_layout();
    let mut steering = Steering::default();
    let body = BodyMass { center_of_mass: origin(), inverse_mass: 2, inverse_inertia_sqrt: 1 };
    assert!(matches!(steering.estimate_acceleration(&body, 1000), Estimate::Unresolved));
    steering.set_desire(DesiredForce { x: 0, y: 600 }, 0);
    let key = match steering.prepare(&layout, origin()) {
        Allocation::Solve(key, _) => key,
        _ => panic!("expected a solve"),
    };
    steering.record_solution(key, &vec![10, 20]).unwrap();
    match steering.estimate_acceleration(&body, 1000) {
        Estimate::Ready(e) => {
            assert_eq!(e.linear_x, 0);
            assert_eq!(e.linear_y, 2 * 1_000_000 * (10 + 20) * 1000);
            assert_eq!(e.angular, -30 * 1_000_000 * 10 * 1000 + 30 * 1_000_000 * 20 * 1000);
        }
        _ => panic!("expected an estimate"),
    }
}

#[test]
fn steering_estimate_solves_on_a_miss() {
    let layout = two_engine_layout();
    let mut steering = Steering::default();
    steering.update_engine_cache(&layout);
    let body = BodyMass { center_of_mass: origin(), inverse_mass: 1, inverse_inertia_sqrt: 1 };
    match steering.estimate_acceleration(&body, 1000) {
        Estimate::Ready(e) => assert_eq!((e.linear_x, e.linear_y, e.angular), (0, 0, 0)),
        _ => panic!("a zero request predicts no acceleration"),
    }
    steering.set_desire(DesiredForce { x: 1, y: 2 }, -2);
    match steering.estimate_acceleration(&body, 1000) {
        Estimate::Ready(e) => assert_eq!((e.linear_x, e.linear_y, e.angular), (0, 0, 0)),
        _ => panic!("a request in the zero bucket predicts no acceleration"),
    }
    steering.set_desire(DesiredForce { x: 0, y: 300 }, 0);
    let key = match steering.estimate_acceleration(&body, 1000) {
        Estimate::Solve(key, program) => {
            assert_eq!(program.torque.len(), 2);
            key
        }
        _ => panic!("expected a solve"),
    };
    steering.record_solution(key, &vec![100, 0]).unwrap();
    match steering.estimate_acceleration(&body, 1000) {
        Estimate::Ready(e) => assert_eq!((e.linear_y, e.angular), (100_000_000_000, -3_000_000_000_000)),
        _ => panic!("expected an estimate"),
    }
    let moved = BodyMass { center_of_mass: Vec2i { x: 1, y: 0 }, inverse_mass: 1, inverse_inertia_sqrt: 1 };
    assert!(matches!(steering.estimate_acceleration(&moved, 1000), Estimate::Solve(..)));
}
