use cached_core::cached;
use cached_core::config::{resolve, BackendKind, Config, ConfigError, ResultPolicy};
use cached_core::key::default_key;
use cached_core::shared::{Shared, Unconstrained};
use std::sync::atomic::{AtomicUsize, Ordering};

#[test]
fn instance_is_made_by_the_first_call() {
    let shared: Shared<u64, u64, Unconstrained> =
        Shared::new("CACHE".to_string(), BackendKind::Unbounded, ResultPolicy::All);
    assert!(!shared.is_ready());
    assert_eq!(shared.call(2, || 4), 4);
    assert!(shared.is_ready());
    assert_eq!(shared.call(3, || 9), 9);
    assert!(shared.is_ready());
}

#[test]
fn shared_wrapper_follows_the_plan() {
    let mut config = Config::new();
    config.size = Some(2);
    config.result = true;
    let plan = resolve(&config, "f", true, true).unwrap();
    let shared: Shared<u64, Result<u64, u64>, Unconstrained> = Shared::from_plan(&plan);
    assert_eq!(shared.name(), "F");
    assert_eq!(shared.kind(), BackendKind::SizeBounded(2));
    assert_eq!(shared.policy(), ResultPolicy::OkOnly);
    assert!(!shared.is_ready());
}

#[test]
fn shared_hit_skips_the_computation() {
    let runs = AtomicUsize::new(0);
    let shared: Shared<u64, u64, Unconstrained> =
        Shared::new("CACHE".to_string(), BackendKind::Unbounded, ResultPolicy::All);
    for _ in 0..6 {
        let out = shared.call(5, || {
            runs.fetch_add(1, Ordering::SeqCst);
            25
        });
        assert_eq!(out, 25);
    }
    assert_eq!(runs.load(Ordering::SeqCst), 1);
}

#[test]
fn shared_size_two_evicts_the_first_of_three() {
    let runs = AtomicUsize::new(0);
    let shared: Shared<u8, u64, Unconstrained> =
        Shared::new("CACHE".to_string(), BackendKind::SizeBounded(2), ResultPolicy::All);
    let call = |key: u8| {
        shared.call(key, || {
            runs.fetch_add(1, Ordering::SeqCst);
            key as u64
        })
    };
    call(b'A');
    call(b'B');
    call(b'C');
    assert_eq!(runs.load(Ordering::SeqCst), 3);
    call(b'B');
    call(b'C');
    assert_eq!(runs.load(Ordering::SeqCst), 3);
    call(b'A');
    assert_eq!(runs.load(Ordering::SeqCst), 4);
}

#[test]
fn shared_failure_is_not_stored() {
    let shared: Shared<u64, Result<u64, String>, Unconstrained> =
        Shared::new("CACHE".to_string(), BackendKind::Unbounded, ResultPolicy::OkOnly);
    assert_eq!(shared.call(1, || Err("down".to_string())), Err("down".to_string()));
    assert_eq!(shared.call(1, || Ok(5)), Ok(5));
    assert_eq!(shared.call(1, || Err("down".to_string())), Ok(5));
}

#[test]
fn shared_timed_wrapper_serves_within_the_lifespan() {
    let runs = AtomicUsize::new(0);
    let shared: Shared<u64, u64, Unconstrained> =
        Shared::new("CACHE".to_string(), BackendKind::TimeBounded(3600), ResultPolicy::All);
    for _ in 0..3 {
        shared.call(1, || {
            runs.fetch_add(1, Ordering::SeqCst);
            1
        });
    }
    assert_eq!(runs.load(Ordering::SeqCst), 1);
}

#[test]
fn instance_stays_ready_and_keeps_its_entries() {
    let runs = AtomicUsize::new(0);
    let shared: Shared<u64, u64, Unconstrained> =
        Shared::new("CACHE".to_string(), BackendKind::Unbounded, ResultPolicy::All);
    for round in 0..4u64 {
        for k in 0..20u64 {
            let out = shared.call(k, || {
                runs.fetch_add(1, Ordering::SeqCst);
                k + 100
            });
            assert_eq!(out, k + 100, "round {}", round);
            assert!(shared.is_ready());
        }
    }
    assert_eq!(runs.load(Ordering::SeqCst), 20);
}

#[test]
fn new_wrapper_has_what_it_was_given() {
    let shared: Shared<u64, u64, Unconstrained> =
        Shared::new("FIB".to_string(), BackendKind::TimeBounded(9), ResultPolicy::SomeOnly);
    assert_eq!(shared.name(), "FIB");
    assert_eq!(shared.kind(), BackendKind::TimeBounded(9));
    assert_eq!(shared.policy(), ResultPolicy::SomeOnly);
    assert!(!shared.is_ready());
}

#[test]
fn cached_makes_the_wrapper_of_the_configuration() {
    let mut config = Config::new();
    config.size = Some(2);
    let wrapper = cached::<u8, u64, Unconstrained>(&config, "letters", true, true).unwrap();
    assert_eq!(wrapper.name(), "LETTERS");
    assert_eq!(wrapper.kind(), BackendKind::SizeBounded(2));
    assert_eq!(wrapper.policy(), ResultPolicy::All);
    assert!(!wrapper.is_ready());
    let runs = AtomicUsize::new(0);
    let call = |key: u8| {
        wrapper.call(key, || {
            runs.fetch_add(1, Ordering::SeqCst);
            key as u64
        })
    };
    assert_eq!(call(b'A'), 65);
    assert_eq!(call(b'A'), 65);
    assert_eq!(call(b'B'), 66);
    assert_eq!(call(b'C'), 67);
    assert_eq!(runs.load(Ordering::SeqCst), 3);
    assert_eq!(call(b'A'), 65);
    assert_eq!(runs.load(Ordering::SeqCst), 4);
}

#[test]
fn cached_with_defaults_is_unbounded_and_named_after_the_computation() {
    let wrapper = cached::<u64, u64, Unconstrained>(&Config::new(), "fib", true, true).unwrap();
    assert_eq!(wrapper.name(), "FIB");
    assert_eq!(wrapper.kind(), BackendKind::Unbounded);
    assert_eq!(wrapper.policy(), ResultPolicy::All);
}

#[test]
fn cached_refuses_unbound_with_size_before_any_call() {
    let mut config = Config::new();
    config.unbound = true;
    config.size = Some(2);
    let made = cached::<u64, u64, Unconstrained>(&config, "f", true, true);
    assert_eq!(made.err(), Some(ConfigError::ConflictingBackendSpec));
}

#[test]
fn cached_refuses_key_without_convert() {
    let mut config = Config::new();
    config.key = Some("u32".to_string());
    let made = cached::<u64, u64, Unconstrained>(&config, "f", true, true);
    assert_eq!(made.err(), Some(ConfigError::IncompleteKeySpec));
}

#[test]
fn cached_refuses_result_with_option() {
    let mut config = Config::new();
    config.result = true;
    config.option = true;
    let made = cached::<u64, Option<u64>, Unconstrained>(&config, "f", true, true);
    assert_eq!(made.err(), Some(ConfigError::ConflictingResultPolicy));
}

#[test]
fn cached_with_a_custom_key_goes_by_the_syntax_answers() {
    let mut config = Config::new();
    config.key = Some("(u64, u64)".to_string());
    config.convert = Some("{ (a.min(b), a.max(b)) }".to_string());
    let wrapper = cached::<(u64, u64), u64, Unconstrained>(&config, "gcd", true, true).unwrap();
    assert_eq!(wrapper.call((4, 6), || 2), 2);
    assert_eq!(wrapper.call((4, 6), || 0), 2);
    assert_eq!(
        cached::<(u64, u64), u64, Unconstrained>(&config, "gcd", false, true).err(),
        Some(ConfigError::InvalidKeyType)
    );
    assert_eq!(
        cached::<(u64, u64), u64, Unconstrained>(&config, "gcd", true, false).err(),
        Some(ConfigError::InvalidConvert)
    );
}

fn can_cross_threads<T: Send + Sync>() {}

#[test]
fn shared_wrapper_can_be_shared_between_threads() {
    can_cross_threads::<Shared<u64, u64, Unconstrained>>();
    can_cross_threads::<Shared<(u64, u8), Result<String, String>, Unconstrained>>();
}

#[test]
fn shared_call_with_derives_the_key_from_the_inputs() {
    let runs = AtomicUsize::new(0);
    let shared: Shared<(u64, u64), u64, Unconstrained> =
        Shared::new("PAIRS".to_string(), BackendKind::Unbounded, ResultPolicy::All);
    let call = |a: u64, b: u64| {
        shared.call_with(
            (a, b),
            |inputs: &(u64, u64)| default_key(inputs),
            |inputs: (u64, u64)| {
                runs.fetch_add(1, Ordering::SeqCst);
                inputs.0 * 10 + inputs.1
            },
        )
    };
    assert_eq!(call(1, 2), 12);
    assert_eq!(call(2, 1), 21);
    assert_eq!(call(1, 2), 12);
    assert_eq!(runs.load(Ordering::SeqCst), 2);
}

#[test]
fn shared_call_with_a_custom_conversion() {
    let runs = AtomicUsize::new(0);
    let shared: Shared<u64, u64, Unconstrained> =
        Shared::new("SUMS".to_string(), BackendKind::Unbounded, ResultPolicy::All);
    let call = |a: u64, b: u64| {
        shared.call_with(
            (a, b),
            |inputs: &(u64, u64)| inputs.0 + inputs.1,
            |inputs: (u64, u64)| {
                runs.fetch_add(1, Ordering::SeqCst);
                (inputs.0 + inputs.1) * 2
            },
        )
    };
    assert_eq!(call(1, 2), 6);
    assert_eq!(call(2, 1), 6);
    assert_eq!(call(0, 3), 6);
    assert_eq!(call(0, 4), 8);
    assert_eq!(runs.load(Ordering::SeqCst), 2);
}
