use scene_server::{
    setup, update_time, ExistenceTime, Marker, Node, Position, Shape, TimeSpan, World,
};

fn seeded() -> World {
    let mut w = World::new();
    setup(&mut w);
    w
}

fn elapsed_of(w: &World, id: usize) -> TimeSpan {
    w.node(id).existence.expect("node has a counter").elapsed
}

#[test]
fn seeding_creates_three_records() {
    let w = seeded();
    assert_eq!(w.len(), 3);

    let p = w.node(0);
    assert_eq!(p.name, "Parent Node");
    assert_eq!(p.shape, Some(Shape::Circle));
    assert!(p.favorite);
    assert!(!p.lovely);
    assert!(p.description.is_none());
    assert_eq!(p.position, Some(Position { x: 0, y: 0, z: 0 }));

    let c1 = w.node(1);
    assert_eq!(c1.name, "Child Node 1");
    assert_eq!(c1.shape, Some(Shape::Pentagon));
    assert!(!c1.favorite);
    assert!(c1.lovely);
    assert!(c1.description.is_none());
    assert_eq!(c1.position, Some(Position { x: 2, y: 2, z: 2 }));

    let c2 = w.node(2);
    assert_eq!(c2.name, "Child Node 2");
    assert_eq!(c2.shape, Some(Shape::Square));
    assert!(!c2.favorite);
    assert!(!c2.lovely);
    assert_eq!(c2.description.as_deref(), Some("This node has parent"));
    assert_eq!(c2.position, Some(Position { x: -2, y: -2, z: -2 }));
}

#[test]
fn children_are_grouped_under_parent() {
    let w = seeded();
    assert_eq!(w.parent(0), None);
    assert_eq!(w.parent(1), Some(0));
    assert_eq!(w.parent(2), Some(0));
    assert_eq!(w.children(0), vec![1, 2]);
    assert!(w.children(1).is_empty());
    assert!(w.children(2).is_empty());
}

#[test]
fn seeding_appends_after_existing_nodes() {
    let mut w = World::new();
    let first = w.spawn(Node {
        name: "Lone".to_owned(),
        shape: Some(Shape::Oval),
        favorite: false,
        lovely: false,
        description: None,
        existence: None,
        position: None,
    });
    assert_eq!(first, 0);
    setup(&mut w);
    assert_eq!(w.len(), 4);
    assert_eq!(w.node(1).name, "Parent Node");
    assert_eq!(w.children(1), vec![2, 3]);
    assert!(w.children(0).is_empty());
}

#[test]
fn counter_starts_at_zero() {
    let t = ExistenceTime::new();
    assert_eq!(t.elapsed.as_secs(), 0);
    assert_eq!(t.elapsed.subsec_nanos(), 0);
    let w = seeded();
    for id in 0..w.len() {
        assert!(w.node(id).existence.is_none());
    }
}

#[test]
fn sixty_ticks_make_one_second() {
    let mut w = seeded();
    w.insert_existence_time(0, ExistenceTime::new());
    let delta = TimeSpan::from_nanos(1_000_000_000 / 60);
    for _ in 0..60 {
        update_time(&mut w, &delta);
    }
    let e = elapsed_of(&w, 0);
    let secs = e.as_secs() as f64 + e.subsec_nanos() as f64 / 1e9;
    assert!((secs - 1.0).abs() < 1e-6);
    assert!(w.node(1).existence.is_none());
    assert!(w.node(2).existence.is_none());
}

#[test]
fn favorite_query_returns_parent() {
    let w = seeded();
    assert_eq!(w.query_marker(Marker::Favorite), vec![0]);
}

#[test]
fn lovely_query_returns_first_child() {
    let w = seeded();
    assert_eq!(w.query_marker(Marker::Lovely), vec![1]);
    assert!(w.node(1).has(Marker::Lovely));
    assert!(!w.node(1).has(Marker::Favorite));
}

#[test]
fn ticks_sum_in_any_order() {
    let deltas: [u64; 3] = [3, 1_999_999_999, 700_000_000];
    let mut forward = seeded();
    let mut backward = seeded();
    forward.insert_existence_time(1, ExistenceTime::new());
    backward.insert_existence_time(1, ExistenceTime::new());
    for d in deltas.iter() {
        update_time(&mut forward, &TimeSpan::from_nanos(*d));
    }
    for d in deltas.iter().rev() {
        update_time(&mut backward, &TimeSpan::from_nanos(*d));
    }
    let a = elapsed_of(&forward, 1);
    let b = elapsed_of(&backward, 1);
    assert_eq!((a.as_secs(), a.subsec_nanos()), (2, 700_000_002));
    assert_eq!((b.as_secs(), b.subsec_nanos()), (2, 700_000_002));
}

#[test]
fn counters_start_from_inserted_value() {
    let mut w = seeded();
    w.insert_existence_time(2, ExistenceTime { elapsed: TimeSpan::new(5, 0) });
    update_time(&mut w, &TimeSpan::new(0, 250_000_000));
    let e = elapsed_of(&w, 2);
    assert_eq!((e.as_secs(), e.subsec_nanos()), (5, 250_000_000));
    assert_eq!(w.node(2).name, "Child Node 2");
}
