use terre_core::resource::{DuplicateResource, Res, ResManager, ResMut, Resource};
use terre_core::value::Value;

#[test]
fn test_res_manager_push_and_get() {
    let mut res = ResManager::new();
    res.push_res(42i32).unwrap();
    let twice = res.push_res(12i32);

    assert!(twice.is_err());
    assert_eq!(res.get_res::<i32>().unwrap().get().clone(), 42i32);
}

#[test]
fn test_res_manager_get_mut() {
    let mut res = ResManager::new();

    res.push_res(12i32).unwrap();

    {
        let mut_i32 = res.get_res_mut::<i32>();
        let mut handle = mut_i32.unwrap();
        handle.set(42);
        res.release(handle);
    }

    assert_eq!(res.get_res::<i32>().unwrap().get().clone(), 42);
}

#[test]
fn duplicate_registration_reports_duplicate_resource() {
    let mut res = ResManager::new();
    assert_eq!(res.push_res(5i32), Ok(()));
    assert_eq!(res.push_res(6i32), Err(DuplicateResource));
    // The first value is untouched by the failed registration.
    assert_eq!(*res.get_res::<i32>().unwrap().get(), 5);
}

#[test]
fn absence_is_a_normal_outcome() {
    let mut res = ResManager::new();
    assert!(res.get_res::<i32>().is_none());
    assert!(res.get_res_mut::<u64>().is_none());
    res.push_res(3u64).unwrap();
    // A registered u64 says nothing about i32.
    assert!(res.get_res::<i32>().is_none());
    assert_eq!(*res.get_res::<u64>().unwrap().get(), 3);
}

#[test]
fn exclusive_handle_takes_the_resource_out() {
    let mut res = ResManager::new();
    res.push_res(1i32).unwrap();
    let handle = res.get_res_mut::<i32>().unwrap();
    // While the exclusive handle is live, no second handle and no shared
    // read can observe the resource.
    assert!(res.get_res_mut::<i32>().is_none());
    assert!(res.get_res::<i32>().is_none());
    res.release(handle);
    assert_eq!(*res.get_res::<i32>().unwrap().get(), 1);
}

#[test]
fn distinct_types_are_distinct_resources() {
    let mut res = ResManager::new();
    res.push_res(7i32).unwrap();
    res.push_res(8i64).unwrap();
    res.push_res(9u64).unwrap();
    res.push_res(true).unwrap();
    res.push_res(String::from("cube")).unwrap();
    assert_eq!(*res.get_res::<i32>().unwrap().get(), 7);
    assert_eq!(*res.get_res::<i64>().unwrap().get(), 8);
    assert_eq!(*res.get_res::<u64>().unwrap().get(), 9);
    assert_eq!(*res.get_res::<bool>().unwrap().get(), true);
    assert_eq!(res.get_res::<String>().unwrap().get().as_str(), "cube");
}

#[test]
fn handles_wrap_and_unwrap() {
    let shared: Res<i32> = Res::new(11);
    assert_eq!(*shared.get(), 11);
    let mut exclusive: ResMut<i32> = ResMut::new(12);
    assert_eq!(*exclusive.get(), 12);
    exclusive.set(13);
    assert_eq!(exclusive.into_inner(), 13);
}

#[test]
fn value_round_trips_through_encoding() {
    assert_eq!(<i32 as Resource>::from_value(&42i32.to_value()), Some(42i32));
    assert_eq!(<i32 as Resource>::from_value(&Value::Bool(true)), None);
    assert_eq!(<u64 as Resource>::from_value(&7u64.to_value()), Some(7u64));
    assert_eq!(
        <String as Resource>::from_value(&String::from("phong").to_value()),
        Some(String::from("phong"))
    );
}

#[test]
fn value_dup_copies_structurally() {
    let v = Value::Pair(
        Box::new(Value::U64(1)),
        Box::new(Value::Pair(Box::new(Value::Text(String::from("a"))), Box::new(Value::Unit))),
    );
    let d = v.dup();
    match (v, d) {
        (Value::Pair(a1, b1), Value::Pair(a2, b2)) => {
            assert!(matches!(*a1, Value::U64(1)));
            assert!(matches!(*a2, Value::U64(1)));
            match (*b1, *b2) {
                (Value::Pair(t1, u1), Value::Pair(t2, u2)) => {
                    assert!(matches!(*t1, Value::Text(ref s) if s == "a"));
                    assert!(matches!(*t2, Value::Text(ref s) if s == "a"));
                    assert!(matches!(*u1, Value::Unit));
                    assert!(matches!(*u2, Value::Unit));
                }
                _ => panic!("expected pairs"),
            }
        }
        _ => panic!("expected pairs"),
    }
}
