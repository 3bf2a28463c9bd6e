use terre_core::app::App;
use terre_core::resource::{ResManager, Resource};
use terre_core::schedule::{GameSchedule, Stage};
use terre_core::system::{Op, OpSystem, QueryMut, QueryPairMut};
use terre_core::value::Value;
use terre_core::world::World;

#[test]
fn test_app_add_system() {
    fn test_system_function(mut query: QueryMut<i32>) -> QueryMut<i32> {
        for row in query.rows.iter_mut() {
            row.1 = 4i32;
        }
        query
    }
    let mut cycle = GameSchedule::new();
    let mut world = World::new();
    let entity = world.spawn_with(2i32);
    cycle.add_system(Stage::Start, test_system_function);
    cycle.run_starts(&mut world, &mut ResManager::new());

    let a = world.read_component::<i32>(entity).unwrap();

    assert_eq!(a.clone(), 4i32);
}

#[test]
fn test_start_schedule() {
    let insert_one = OpSystem {
        op: Op::SpawnWith { key: <i32 as Resource>::type_key(), value: Value::I64(12) },
    };
    let mut app = App::new().add_system(Stage::Start, insert_one);

    app.run_start();

    let rows = app.world.rows_for(<i32 as Resource>::type_key());
    assert_eq!(rows.len(), 1);
    for (_id, a) in rows {
        assert!(matches!(a, Value::I64(12)));
    }
}

#[test]
fn pair_query_matches_entities_with_both_components() {
    fn derive_b_from_a(mut query: QueryPairMut<i32, u64>) -> QueryPairMut<i32, u64> {
        for row in query.rows.iter_mut() {
            row.2 = row.1 as u64 * 10;
        }
        query
    }
    let mut world = World::new();
    let ka = <i32 as Resource>::type_key();
    let kb = <u64 as Resource>::type_key();
    let both = world.spawn(&vec![(ka, Value::I64(3)), (kb, Value::U64(0))]);
    let only_a = world.spawn(&vec![(ka, Value::I64(9))]);
    let mut cycle = GameSchedule::new();
    cycle.add_system(Stage::Update, derive_b_from_a);
    cycle.run_updates(&mut world, &mut ResManager::new());
    // The entity holding both components was matched and updated...
    assert_eq!(world.read_component::<u64>(both), Some(30));
    assert_eq!(world.read_component::<i32>(both), Some(3));
    // ...the entity holding only one was not matched at all.
    assert_eq!(world.read_component::<i32>(only_a), Some(9));
    assert_eq!(world.read_component::<u64>(only_a), None);
}

#[test]
fn spawn_hands_out_sequential_identifiers() {
    let mut world = World::new();
    assert_eq!(world.next_id(), 0);
    assert_eq!(world.spawn_with(1i32), 0);
    assert_eq!(world.spawn_with(2i32), 1);
    assert_eq!(world.spawn_with(3u64), 2);
    assert_eq!(world.entity_count(), 3);
    assert_eq!(world.next_id(), 3);
}

#[test]
fn bundle_duplicate_keys_keep_the_first_occurrence() {
    let mut world = World::new();
    let key = <i32 as Resource>::type_key();
    let bundle = vec![(key, Value::I64(1)), (key, Value::I64(2))];
    let id = world.spawn(&bundle);
    assert_eq!(world.read_component::<i32>(id), Some(1));
}

#[test]
fn systems_of_empty_stages_are_not_run() {
    // A schedule with only an Update system: the start pass does nothing.
    let mut world = World::new();
    let mut res = ResManager::new();
    res.push_res(0i32).unwrap();
    let mut cycle = GameSchedule::new();
    cycle.add_system(
        Stage::Update,
        OpSystem { op: Op::PutRes { key: <i32 as Resource>::type_key(), value: Value::I64(5) } },
    );
    cycle.run_starts(&mut world, &mut res);
    assert_eq!(*res.get_res::<i32>().unwrap().get(), 0);
    cycle.run_updates(&mut world, &mut res);
    assert_eq!(*res.get_res::<i32>().unwrap().get(), 5);
}

fn trace_tags(mut v: &Value) -> Vec<u64> {
    // The trace resource is a chain of pairs, newest tag first.
    let mut tags = Vec::new();
    loop {
        match v {
            Value::Pair(tag, rest) => {
                match **tag {
                    Value::U64(t) => tags.push(t),
                    _ => panic!("malformed trace"),
                }
                v = rest;
            }
            Value::Unit => break,
            _ => panic!("malformed trace"),
        }
    }
    tags.reverse();
    tags
}

const TRACE_KEY: u64 = 900;

#[test]
fn stage_ordering_runs_start_before_update() {
    let mut app = App::new()
        .add_system(Stage::Start, OpSystem { op: Op::RecordTag { key: TRACE_KEY, tag: 1 } })
        .add_system(Stage::Update, OpSystem { op: Op::RecordTag { key: TRACE_KEY, tag: 2 } });
    app.run_start();
    app.run_frame();
    let trace = app.res_manager.get_raw(TRACE_KEY).unwrap();
    // Oldest first: the Start system ran strictly before the Update system,
    // exactly once each.
    assert_eq!(trace_tags(trace), vec![1, 2]);
}

#[test]
fn insertion_order_is_execution_order() {
    let mut app = App::new()
        .add_system(Stage::Update, OpSystem { op: Op::RecordTag { key: TRACE_KEY, tag: 1 } })
        .add_system(Stage::Update, OpSystem { op: Op::RecordTag { key: TRACE_KEY, tag: 2 } });
    app.run_frame();
    assert_eq!(trace_tags(app.res_manager.get_raw(TRACE_KEY).unwrap()), vec![1, 2]);
    // Every later frame observes the same order again, never the reverse.
    app.run_frame();
    assert_eq!(
        trace_tags(app.res_manager.get_raw(TRACE_KEY).unwrap()),
        vec![1, 2, 1, 2]
    );
}

#[test]
fn frame_stages_run_in_their_fixed_order() {
    let mut app = App::new()
        .add_system(Stage::PostUpdate, OpSystem { op: Op::RecordTag { key: TRACE_KEY, tag: 3 } })
        .add_system(Stage::PreUpdate, OpSystem { op: Op::RecordTag { key: TRACE_KEY, tag: 1 } })
        .add_system(Stage::Update, OpSystem { op: Op::RecordTag { key: TRACE_KEY, tag: 2 } });
    app.run_frame();
    // PreUpdate, then Update, then PostUpdate — whatever the registration
    // order of the stages was.
    assert_eq!(trace_tags(app.res_manager.get_raw(TRACE_KEY).unwrap()), vec![1, 2, 3]);
}
