use thrusters::{Engine, EngineSet, PartTransform, ThrusterId, ThrusterLayout, Vec2i};

fn engine(ox: i64, oy: i64, dx: i64, dy: i64, max_thrust: u64) -> Engine {
    Engine {
        offset: Vec2i { x: ox, y: oy },
        thrust_vector: Vec2i { x: dx, y: dy },
        max_thrust,
    }
}

#[test]
fn resolve_normalizes_directions() {
    let mut layout = ThrusterLayout::new();
    assert!(layout.set_engines(0, EngineSet(vec![engine(1, 2, 0, 1, 5), engine(-3, 0, 3, 4, 7)])));
    let r = layout.resolve();
    assert_eq!(r.len(), 2);
    assert_eq!(r[0].position, Vec2i { x: 1, y: 2 });
    assert_eq!(r[0].direction, Vec2i { x: 0, y: 1_000_000 });
    assert_eq!(r[0].max_thrust, 5);
    assert_eq!(r[0].id, ThrusterId { part: 0, index: 0 });
    assert_eq!(r[1].position, Vec2i { x: -3, y: 0 });
    assert_eq!(r[1].direction, Vec2i { x: 600_000, y: 800_000 });
    assert_eq!(r[1].id, ThrusterId { part: 0, index: 1 });
}

#[test]
fn resolve_truncates_unit_components() {
    let mut layout = ThrusterLayout::new();
    assert!(layout.set_engines(0, EngineSet(vec![engine(0, 0, 1, 1, 1), engine(0, 0, -1, -1, 1)])));
    let r = layout.resolve();
    assert_eq!(r[0].direction, Vec2i { x: 707_106, y: 707_106 });
    assert_eq!(r[1].direction, Vec2i { x: -707_106, y: -707_106 });
    let (x, y) = (r[0].direction.x as f64 / 1e6, r[0].direction.y as f64 / 1e6);
    assert!(((x * x + y * y).sqrt() - 1.0).abs() < 1e-5);
}

#[test]
fn resolve_drops_zero_direction() {
    let mut layout = ThrusterLayout::new();
    assert!(layout.set_engines(
        0,
        EngineSet(vec![engine(0, 0, 1, 0, 1), engine(5, 5, 0, 0, 1), engine(0, 0, 0, -2, 1)])
    ));
    let r = layout.resolve();
    assert_eq!(r.len(), 2);
    assert_eq!(r[0].id, ThrusterId { part: 0, index: 0 });
    assert_eq!(r[1].id, ThrusterId { part: 0, index: 2 });
    assert!(r.iter().all(|t| t.id != ThrusterId { part: 0, index: 1 }));
}

#[test]
fn layout_refuses_out_of_range_mounts() {
    let mut layout = ThrusterLayout::new();
    assert!(!layout.set_engines(0, EngineSet(vec![engine(70000, 0, 1, 0, 1), engine(0, 0, 1, 0, 3)])));
    assert!(!layout.set_engines(0, EngineSet(vec![engine(0, 0, 1, 0, 70000)])));
    assert!(!layout.set_engines(0, EngineSet(vec![engine(0, 0, 0, -70000, 1)])));
    assert_eq!(layout.add_part(PartTransform::identity(), EngineSet(vec![engine(0, 70000, 1, 0, 1)])), None);
    assert!(layout.set_engines(0, EngineSet(vec![engine(65536, -65536, 65536, 0, 65536)])));
    assert_eq!(layout.resolve().len(), 1);
}

#[test]
fn layout_holds_at_most_max_thrusters_mounts() {
    let mut layout = ThrusterLayout::new();
    assert!(layout.set_engines(0, EngineSet(vec![Engine::default(); 38])));
    let id = layout.add_part(PartTransform::identity(), EngineSet(vec![Engine::default(); 986])).unwrap();
    assert_eq!(layout.resolve().len(), 1024);
    assert_eq!(layout.add_part(PartTransform::identity(), EngineSet(vec![Engine::default()])), None);
    assert!(!layout.set_engines(0, EngineSet(vec![Engine::default(); 39])));
    assert!(layout.set_engines(id, EngineSet(vec![Engine::default(); 985])));
    assert!(layout.add_part(PartTransform::identity(), EngineSet(vec![Engine::default()])).is_some());
}

#[test]
fn resolve_places_part_mounts_in_part_order() {
    let mut layout = ThrusterLayout::new();
    let quarter = PartTransform { translation: Vec2i { x: 10, y: -4 }, cos: 0, sin: 1000 };
    let id = layout.add_part(quarter, EngineSet(vec![engine(1, 1, 1, 0, 2)])).unwrap();
    assert_eq!(id, 1);
    assert!(layout.set_engines(0, EngineSet(vec![engine(0, 0, 0, 1, 1)])));
    let r = layout.resolve();
    assert_eq!(r.len(), 2);
    assert_eq!(r[0].id, ThrusterId { part: 0, index: 0 });
    assert_eq!(r[1].id, ThrusterId { part: 1, index: 0 });
    // The offset (1, 1) turned a quarter is (-1, 1), then moved by the translation.
    assert_eq!(r[1].position, Vec2i { x: 9, y: -3 });
    assert_eq!(r[1].direction, Vec2i { x: 0, y: 1_000_000 });
}

#[test]
fn resolve_rounds_rotated_offsets() {
    let mut layout = ThrusterLayout::new();
    let turn = PartTransform { translation: Vec2i { x: 0, y: 0 }, cos: 600, sin: 800 };
    layout.add_part(turn, EngineSet(vec![engine(3, 0, 1, 0, 1), engine(-1, -1, 0, 1, 1)])).unwrap();
    let r = layout.resolve();
    // (3, 0) turns to (1.8, 2.4), rounded to (2, 2).
    assert_eq!(r[0].position, Vec2i { x: 2, y: 2 });
    assert_eq!(r[0].direction, Vec2i { x: 600_000, y: 800_000 });
    // (-1, -1) turns to (0.2, -1.4), rounded to (0, -1).
    assert_eq!(r[1].position, Vec2i { x: 0, y: -1 });
    assert_eq!(r[1].direction, Vec2i { x: -800_000, y: 600_000 });
}

#[test]
fn set_transform_moves_a_part_in_place() {
    let mut layout = ThrusterLayout::new();
    let id = layout.add_part(PartTransform::identity(), EngineSet(vec![engine(1, 0, 1, 0, 1)])).unwrap();
    let v = layout.version();
    let quarter = PartTransform { translation: Vec2i { x: 5, y: 0 }, cos: 0, sin: 1000 };
    assert!(layout.set_transform(id, quarter));
    assert_ne!(layout.version(), v);
    let r = layout.resolve();
    assert_eq!(r[0].id, ThrusterId { part: id, index: 0 });
    assert_eq!(r[0].position, Vec2i { x: 5, y: 1 });
    assert_eq!(r[0].direction, Vec2i { x: 0, y: 1_000_000 });
    let v = layout.version();
    assert!(!layout.set_transform(0, quarter));
    assert!(!layout.set_transform(9, quarter));
    let no_rotation = PartTransform { translation: Vec2i { x: 0, y: 0 }, cos: 0, sin: 0 };
    assert!(!layout.set_transform(id, no_rotation));
    assert_eq!(layout.version(), v);
}

#[test]
fn resolved_count_is_the_number_of_live_mounts() {
    let mut layout = ThrusterLayout::new();
    assert!(layout.set_engines(0, EngineSet(vec![engine(0, 0, 0, 0, 1), engine(0, 0, 1, 1, 1)])));
    let turn = PartTransform { translation: Vec2i { x: 0, y: 0 }, cos: -1, sin: 0 };
    layout.add_part(turn, EngineSet(vec![engine(0, 0, 0, 1, 1), engine(0, 0, 0, 0, 2), engine(2, 0, -3, 0, 1)])).unwrap();
    let r = layout.resolve();
    assert_eq!(r.len(), 3);
    assert!(r.iter().all(|t| t.direction != Vec2i { x: 0, y: 0 }));
    assert_eq!(r[1].direction, Vec2i { x: 0, y: -1_000_000 });
}

#[test]
fn layout_changes_bump_the_version() {
    let mut layout = ThrusterLayout::new();
    let v0 = layout.version();
    let id = layout.add_part(PartTransform::identity(), EngineSet(vec![])).unwrap();
    let v1 = layout.version();
    assert_ne!(v0, v1);
    assert!(layout.set_engines(id, EngineSet(vec![Engine::default()])));
    let v2 = layout.version();
    assert_ne!(v1, v2);
    assert!(layout.remove_part(id));
    assert_ne!(layout.version(), v2);
    assert_eq!(layout.parts().len(), 1);
}

#[test]
fn layout_refuses_bad_changes() {
    let mut layout = ThrusterLayout::new();
    let v = layout.version();
    let no_rotation = PartTransform { translation: Vec2i { x: 0, y: 0 }, cos: 0, sin: 0 };
    assert_eq!(layout.add_part(no_rotation, EngineSet(vec![])), None);
    let far = PartTransform { translation: Vec2i { x: 70000, y: 0 }, cos: 1000, sin: 0 };
    assert_eq!(layout.add_part(far, EngineSet(vec![])), None);
    assert_eq!(layout.add_part(PartTransform::identity(), EngineSet(vec![Engine::default(); 1025])), None);
    assert!(!layout.remove_part(0));
    assert!(!layout.remove_part(9));
    assert!(!layout.set_engines(9, EngineSet(vec![])));
    assert!(!layout.set_engines(0, EngineSet(vec![Engine::default(); 1025])));
    assert_eq!(layout.version(), v);
}

#[test]
fn engine_default_points_up() {
    let e = Engine::default();
    assert_eq!(e.offset, Vec2i { x: 0, y: 0 });
    assert_eq!(e.thrust_vector, Vec2i { x: 0, y: 1 });
    assert_eq!(e.max_thrust, 1);
}
