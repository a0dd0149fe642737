use cached_core::config::ResultPolicy;
use cached_core::outcome::{should_store, Outcome, Variant};

#[test]
fn result_is_a_success_when_ok() {
    let ok: Result<u64, String> = Ok(1);
    let err: Result<u64, String> = Err("no".to_string());
    assert_eq!(ok.variant(), Variant::Success);
    assert_eq!(err.variant(), Variant::Other);
}

#[test]
fn option_is_present_when_some() {
    assert_eq!(Some(1u64).variant(), Variant::Present);
    assert_eq!(None::<u64>.variant(), Variant::Other);
}

#[test]
fn plain_values_are_neither() {
    assert_eq!(true.variant(), Variant::Other);
    assert_eq!('7'.variant(), Variant::Other);
    assert_eq!(7u8.variant(), Variant::Other);
    assert_eq!(7u16.variant(), Variant::Other);
    assert_eq!(7u32.variant(), Variant::Other);
    assert_eq!(7u64.variant(), Variant::Other);
    assert_eq!(7u128.variant(), Variant::Other);
    assert_eq!(7usize.variant(), Variant::Other);
    assert_eq!((-7i8).variant(), Variant::Other);
    assert_eq!((-7i16).variant(), Variant::Other);
    assert_eq!((-7i32).variant(), Variant::Other);
    assert_eq!((-7i64).variant(), Variant::Other);
    assert_eq!((-7i128).variant(), Variant::Other);
    assert_eq!((-7isize).variant(), Variant::Other);
    assert_eq!("seven".to_string().variant(), Variant::Other);
    assert_eq!(vec![7u8, 7].variant(), Variant::Other);
    assert_eq!(Box::new(7u64).variant(), Variant::Other);
}

#[test]
fn all_stores_every_output() {
    assert_eq!(should_store(ResultPolicy::All, &7u64), Some(7));
    assert_eq!(should_store(ResultPolicy::All, &Ok::<u64, u64>(1)), Some(Ok(1)));
    assert_eq!(should_store(ResultPolicy::All, &Err::<u64, u64>(2)), Some(Err(2)));
    assert_eq!(should_store(ResultPolicy::All, &Some(1u64)), Some(Some(1)));
    assert_eq!(should_store(ResultPolicy::All, &None::<u64>), Some(None));
}

#[test]
fn ok_only_stores_successes() {
    assert_eq!(should_store(ResultPolicy::OkOnly, &Ok::<u64, u64>(1)), Some(Ok(1)));
    assert_eq!(should_store(ResultPolicy::OkOnly, &Err::<u64, u64>(2)), None);
    assert_eq!(should_store(ResultPolicy::OkOnly, &Some(1u64)), None);
    assert_eq!(should_store(ResultPolicy::OkOnly, &7u64), None);
}

#[test]
fn some_only_stores_present_values() {
    assert_eq!(should_store(ResultPolicy::SomeOnly, &Some(1u64)), Some(Some(1)));
    assert_eq!(should_store(ResultPolicy::SomeOnly, &None::<u64>), None);
    assert_eq!(should_store(ResultPolicy::SomeOnly, &Ok::<u64, u64>(1)), None);
    assert_eq!(should_store(ResultPolicy::SomeOnly, &7u64), None);
}

#[test]
fn all_stores_vectors_and_boxes() {
    assert_eq!(should_store(ResultPolicy::All, &vec![1u64, 2]), Some(vec![1, 2]));
    assert_eq!(should_store(ResultPolicy::All, &Box::new(3u64)), Some(Box::new(3)));
    assert_eq!(should_store(ResultPolicy::OkOnly, &vec![1u64, 2]), None);
    assert_eq!(should_store(ResultPolicy::SomeOnly, &Box::new(3u64)), None);
}
