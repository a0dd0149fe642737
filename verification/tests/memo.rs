use cached_core::clock::Clock;
use cached_core::config::{resolve, BackendKind, Config, ResultPolicy};
use cached_core::key::default_key;
use cached_core::memo::Memo;
use std::cell::Cell;

fn square(n: u64) -> u64 {
    n * n
}

#[test]
fn new_wrapper_is_empty() {
    let memo: Memo<u64, u64> = Memo::new(BackendKind::SizeBounded(4), ResultPolicy::OkOnly);
    assert_eq!(memo.len(), 0);
    assert_eq!(memo.kind(), BackendKind::SizeBounded(4));
    assert_eq!(memo.policy(), ResultPolicy::OkOnly);
}

#[test]
fn wrapper_follows_the_plan() {
    let mut config = Config::new();
    config.time = Some(60);
    config.option = true;
    let plan = resolve(&config, "f", true, true).unwrap();
    let memo: Memo<u64, Option<u64>> = Memo::from_plan(&plan);
    assert_eq!(memo.kind(), BackendKind::TimeBounded(60));
    assert_eq!(memo.policy(), ResultPolicy::SomeOnly);
    assert_eq!(memo.len(), 0);
}

#[test]
fn repeated_calls_return_the_value_of_the_function() {
    let clock = Clock::start();
    let mut memo: Memo<u64, u64> = Memo::new(BackendKind::Unbounded, ResultPolicy::All);
    for _ in 0..5 {
        for n in 0..10u64 {
            assert_eq!(memo.call(n, || square(n), &clock), n * n);
        }
    }
    assert_eq!(memo.len(), 10);
}

#[test]
fn a_hit_skips_the_computation() {
    let clock = Clock::start();
    let runs = Cell::new(0u32);
    let mut memo: Memo<u64, u64> = Memo::new(BackendKind::Unbounded, ResultPolicy::All);
    for _ in 0..7 {
        let out = memo.call(
            3,
            || {
                runs.set(runs.get() + 1);
                9
            },
            &clock,
        );
        assert_eq!(out, 9);
    }
    assert_eq!(runs.get(), 1);
}

#[test]
fn each_key_computes_once() {
    let clock = Clock::start();
    let runs = Cell::new(0u32);
    let mut memo: Memo<(u64, u64), u64> = Memo::new(BackendKind::Unbounded, ResultPolicy::All);
    let inputs = [(1u64, 2u64), (2, 1), (1, 2), (1, 1), (2, 1), (1, 1), (1, 2)];
    for i in inputs.iter() {
        let out = memo.call(
            default_key(i),
            || {
                runs.set(runs.get() + 1);
                i.0 * 10 + i.1
            },
            &clock,
        );
        assert_eq!(out, i.0 * 10 + i.1);
    }
    assert_eq!(runs.get(), 3);
    assert_eq!(memo.len(), 3);
}

#[test]
fn a_hit_returns_the_stored_value_not_a_new_one() {
    let mut memo: Memo<u64, u64> = Memo::new(BackendKind::Unbounded, ResultPolicy::All);
    assert_eq!(memo.call_at(1, || 10, 0), 10);
    // The computation would now give another value; the stored one is served.
    assert_eq!(memo.call_at(1, || 11, 0), 10);
}

#[test]
fn lookup_and_store_are_the_two_steps_of_a_call() {
    let mut memo: Memo<u64, u64> = Memo::new(BackendKind::Unbounded, ResultPolicy::All);
    assert_eq!(memo.lookup(&4, 0), None);
    memo.store(4, &16, 0);
    assert_eq!(memo.lookup(&4, 0), Some(16));
    assert_eq!(memo.call_at(4, || 0, 0), 16);
}

#[test]
fn size_two_recomputes_the_evicted_key() {
    let runs = Cell::new(0u32);
    let mut memo: Memo<u8, u64> = Memo::new(BackendKind::SizeBounded(2), ResultPolicy::All);
    let mut call = |key: u8, memo: &mut Memo<u8, u64>| {
        memo.call_at(
            key,
            || {
                runs.set(runs.get() + 1);
                key as u64
            },
            0,
        )
    };
    call(b'A', &mut memo);
    call(b'B', &mut memo);
    call(b'C', &mut memo);
    assert_eq!(runs.get(), 3);
    assert_eq!(memo.lookup(&b'A', 0), None);
    assert_eq!(memo.lookup(&b'B', 0), Some(b'B' as u64));
    assert_eq!(memo.lookup(&b'C', 0), Some(b'C' as u64));
    call(b'B', &mut memo);
    call(b'C', &mut memo);
    assert_eq!(runs.get(), 3);
    call(b'A', &mut memo);
    assert_eq!(runs.get(), 4);
}

#[test]
fn stale_entry_triggers_recomputation() {
    let runs = Cell::new(0u32);
    let mut memo: Memo<u64, u32> = Memo::new(BackendKind::TimeBounded(10), ResultPolicy::All);
    let mut call = |now: u64, memo: &mut Memo<u64, u32>| {
        memo.call_at(
            1,
            || {
                runs.set(runs.get() + 1);
                runs.get()
            },
            now,
        )
    };
    assert_eq!(call(0, &mut memo), 1);
    assert_eq!(call(5, &mut memo), 1);
    assert_eq!(call(9, &mut memo), 1);
    assert_eq!(call(10, &mut memo), 2);
    assert_eq!(call(19, &mut memo), 2);
    assert_eq!(call(25, &mut memo), 3);
    assert_eq!(runs.get(), 3);
}

#[test]
fn failure_is_returned_but_not_stored() {
    let runs = Cell::new(0u32);
    let mut memo: Memo<u64, Result<u64, String>> =
        Memo::new(BackendKind::Unbounded, ResultPolicy::OkOnly);
    let out = memo.call_at(
        1,
        || {
            runs.set(runs.get() + 1);
            Err("down".to_string())
        },
        0,
    );
    assert_eq!(out, Err("down".to_string()));
    assert_eq!(memo.len(), 0);
    assert_eq!(memo.lookup(&1, 0), None);
    // The next call computes again, and its success is stored.
    let out = memo.call_at(
        1,
        || {
            runs.set(runs.get() + 1);
            Ok(5)
        },
        0,
    );
    assert_eq!(out, Ok(5));
    assert_eq!(runs.get(), 2);
    let out = memo.call_at(
        1,
        || {
            runs.set(runs.get() + 1);
            Err("down again".to_string())
        },
        0,
    );
    assert_eq!(out, Ok(5));
    assert_eq!(runs.get(), 2);
}

#[test]
fn absent_value_is_returned_but_not_stored() {
    let runs = Cell::new(0u32);
    let mut memo: Memo<u64, Option<u64>> =
        Memo::new(BackendKind::Unbounded, ResultPolicy::SomeOnly);
    let out = memo.call_at(
        1,
        || {
            runs.set(runs.get() + 1);
            None
        },
        0,
    );
    assert_eq!(out, None);
    assert_eq!(memo.len(), 0);
    let out = memo.call_at(
        1,
        || {
            runs.set(runs.get() + 1);
            Some(8)
        },
        0,
    );
    assert_eq!(out, Some(8));
    assert_eq!(memo.call_at(1, || None, 0), Some(8));
    assert_eq!(runs.get(), 2);
}

#[test]
fn all_policy_stores_failures_too() {
    let mut memo: Memo<u64, Result<u64, String>> =
        Memo::new(BackendKind::Unbounded, ResultPolicy::All);
    assert_eq!(memo.call_at(1, || Err("down".to_string()), 0), Err("down".to_string()));
    assert_eq!(memo.call_at(1, || Ok(5), 0), Err("down".to_string()));
}

#[test]
fn store_goes_through_the_filter() {
    let mut memo: Memo<u64, Result<u64, u64>> =
        Memo::new(BackendKind::Unbounded, ResultPolicy::OkOnly);
    memo.store(1, &Err(3), 0);
    assert_eq!(memo.len(), 0);
    memo.store(1, &Ok(3), 0);
    assert_eq!(memo.lookup(&1, 0), Some(Ok(3)));
}

#[test]
fn timed_wrapper_serves_from_the_cache_within_the_lifespan() {
    let clock = Clock::start();
    let runs = Cell::new(0u32);
    let mut memo: Memo<u64, u64> = Memo::new(BackendKind::TimeBounded(3600), ResultPolicy::All);
    for _ in 0..3 {
        let out = memo.call(
            1,
            || {
                runs.set(runs.get() + 1);
                1
            },
            &clock,
        );
        assert_eq!(out, 1);
    }
    assert_eq!(runs.get(), 1);
}

#[test]
fn clock_does_not_run_backwards() {
    let clock = Clock::start();
    let first = clock.seconds();
    let second = clock.seconds();
    assert!(first <= second);
    assert!(second < 3600);
}

#[test]
fn two_callers_that_miss_together_leave_the_later_store() {
    // The steps of two calls for one key, interleaved as two callers of a
    // shared cache may run them: both look up and miss, both compute, both
    // store.
    let mut memo: Memo<u64, u64> = Memo::new(BackendKind::Unbounded, ResultPolicy::All);
    assert_eq!(memo.lookup(&7, 0), None);
    assert_eq!(memo.lookup(&7, 0), None);
    let first = 71u64;
    let second = 72u64;
    memo.store(7, &first, 0);
    memo.store(7, &second, 0);
    assert_eq!(memo.len(), 1);
    let found = memo.lookup(&7, 0);
    assert!(found == Some(first) || found == Some(second));
    assert_eq!(found, Some(second));
    // In a full size-bounded cache the race costs no other key its entry.
    let mut memo: Memo<u64, u64> = Memo::new(BackendKind::SizeBounded(2), ResultPolicy::All);
    memo.store(1, &10, 0);
    assert_eq!(memo.lookup(&7, 0), None);
    assert_eq!(memo.lookup(&7, 0), None);
    memo.store(7, &first, 0);
    memo.store(7, &second, 0);
    assert_eq!(memo.len(), 2);
    assert_eq!(memo.lookup(&1, 0), Some(10));
    assert_eq!(memo.lookup(&7, 0), Some(second));
}

#[test]
fn call_with_derives_the_key_from_the_inputs() {
    let clock = Clock::start();
    let runs = Cell::new(0u32);
    let mut memo: Memo<(u64, u64), u64> = Memo::new(BackendKind::Unbounded, ResultPolicy::All);
    let mut call = |a: u64, b: u64| {
        memo.call_with(
            (a, b),
            |inputs: &(u64, u64)| default_key(inputs),
            |inputs: (u64, u64)| {
                runs.set(runs.get() + 1);
                inputs.0 * 10 + inputs.1
            },
            &clock,
        )
    };
    assert_eq!(call(1, 2), 12);
    assert_eq!(call(2, 1), 21);
    assert_eq!(call(1, 2), 12);
    assert_eq!(call(2, 1), 21);
    assert_eq!(runs.get(), 2);
}

#[test]
fn call_with_a_custom_conversion_shares_entries_between_inputs() {
    let clock = Clock::start();
    let runs = Cell::new(0u32);
    // The key is the unordered pair, so (4, 6) and (6, 4) share one entry.
    let mut memo: Memo<(u64, u64), u64> = Memo::new(BackendKind::Unbounded, ResultPolicy::All);
    let mut call = |a: u64, b: u64| {
        memo.call_with(
            (a, b),
            |inputs: &(u64, u64)| (inputs.0.min(inputs.1), inputs.0.max(inputs.1)),
            |inputs: (u64, u64)| {
                runs.set(runs.get() + 1);
                inputs.0 + inputs.1
            },
            &clock,
        )
    };
    assert_eq!(call(4, 6), 10);
    assert_eq!(call(6, 4), 10);
    assert_eq!(call(4, 7), 11);
    assert_eq!(runs.get(), 2);
}

#[test]
fn call_with_hands_the_inputs_to_the_computation_as_they_were() {
    let clock = Clock::start();
    let mut memo: Memo<u64, String> = Memo::new(BackendKind::Unbounded, ResultPolicy::All);
    let text = "owned by the call".to_string();
    let out = memo.call_with(
        text,
        |inputs: &String| inputs.len() as u64,
        |inputs: String| inputs,
        &clock,
    );
    assert_eq!(out, "owned by the call");
    let out = memo.call_with(
        "another of 17 .. ".to_string(),
        |inputs: &String| inputs.len() as u64,
        |inputs: String| inputs,
        &clock,
    );
    assert_eq!(out, "owned by the call");
}
