use terre_core::app::App;
use terre_core::resource::{ResMut, Resource};
use terre_core::schedule::Stage;
use terre_core::system::{Op, OpSystem};
use terre_core::value::Value;

#[test]
fn uniqueness_of_registration() {
    let mut app: App<OpSystem> = App::new();
    assert!(app.register_resource(41i32).is_ok());
    // A second value of the same type identity is refused...
    assert!(app.register_resource(99i32).is_err());
    // ...and the first value is still observable, unchanged.
    assert_eq!(*app.res_manager.get_res::<i32>().unwrap().get(), 41);
}

#[test]
fn mutation_through_exclusive_handle_is_visible() {
    let mut app: App<OpSystem> = App::new();
    app.register_resource(10i32).unwrap();
    let mut handle = app.res_manager.get_res_mut::<i32>().unwrap();
    handle.set(*handle.get() + 5);
    app.res_manager.release(handle);
    assert_eq!(*app.res_manager.get_res::<i32>().unwrap().get(), 15);
}

type TwoExclusive = (Option<ResMut<i32>>, Option<ResMut<u64>>);

#[test]
fn tuple_extraction_yields_independent_handles() {
    // A system declared with two exclusive parameters receives both values
    // and may mutate them independently.
    fn bump_both(p: TwoExclusive) -> TwoExclusive {
        let (a, b) = p;
        let mut a = a.expect("i32 resource is registered");
        let mut b = b.expect("u64 resource is registered");
        let bumped_a = *a.get() + 1;
        let bumped_b = *b.get() + 2;
        a.set(bumped_a);
        b.set(bumped_b);
        (Some(a), Some(b))
    }
    // A later system reading the first resource observes the mutated value.
    fn copy_a_into_b(p: TwoExclusive) -> TwoExclusive {
        let (a, mut b) = p;
        let seen = *a.as_ref().expect("i32 resource is registered").get();
        if let Some(handle) = b.as_mut() {
            handle.set(seen as u64 * 100);
        }
        (a, b)
    }
    let mut app = App::new()
        .add_system(Stage::Update, bump_both as fn(TwoExclusive) -> TwoExclusive)
        .add_system(Stage::Update, copy_a_into_b as fn(TwoExclusive) -> TwoExclusive);
    app.register_resource(10i32).unwrap();
    app.register_resource(20u64).unwrap();
    app.run_frame();
    assert_eq!(*app.res_manager.get_res::<i32>().unwrap().get(), 11);
    assert_eq!(*app.res_manager.get_res::<u64>().unwrap().get(), 1100);
}

#[test]
fn end_to_end_counter_stays_untouched() {
    let component_key = <i32 as Resource>::type_key();
    let mut app = App::new()
        .add_system(
            Stage::Start,
            OpSystem { op: Op::SpawnWith { key: component_key, value: Value::I64(12) } },
        )
        .add_system(
            Stage::Update,
            OpSystem { op: Op::FillQuery { key: component_key, value: Value::I64(4) } },
        );
    app.register_resource(0i32).unwrap();
    app.run_start();
    app.run_frame();
    // The spawned entity's component was set by the mutable query...
    assert_eq!(app.world.read_component::<i32>(0), Some(4));
    // ...and the counter resource was never touched.
    assert_eq!(*app.res_manager.get_res::<i32>().unwrap().get(), 0);
}

#[test]
fn query_shape_is_idempotent() {
    let component_key = <i32 as Resource>::type_key();
    let mut app = App::new().add_system(
        Stage::Update,
        OpSystem { op: Op::FillQuery { key: component_key, value: Value::I64(4) } },
    );
    app.world.spawn_with(1i32);
    app.world.spawn_with(7u64);
    app.world.spawn_with(2i32);
    let ids = |rows: Vec<(u64, Value)>| rows.into_iter().map(|r| r.0).collect::<Vec<u64>>();
    let before = ids(app.world.rows_for(component_key));
    assert_eq!(before, vec![0, 2]);
    app.run_frame();
    let between = ids(app.world.rows_for(component_key));
    app.run_frame();
    let after = ids(app.world.rows_for(component_key));
    // With no entity added or removed, every pass matches the identical
    // set of entities, in the identical order.
    assert_eq!(before, between);
    assert_eq!(between, after);
}

#[test]
fn start_systems_skipped_when_frame_runs_first() {
    // Running a frame before the start pass is legal: systems registered
    // for Start simply have not run yet.
    let component_key = <i32 as Resource>::type_key();
    let mut app = App::new().add_system(
        Stage::Start,
        OpSystem { op: Op::SpawnWith { key: component_key, value: Value::I64(12) } },
    );
    assert!(!app.started);
    app.run_frame();
    assert!(!app.started);
    assert_eq!(app.world.entity_count(), 0);
    app.run_start();
    assert!(app.started);
    assert_eq!(app.world.entity_count(), 1);
}
