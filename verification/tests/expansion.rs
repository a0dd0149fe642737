use cached_core::config::{BackendKind, ResultPolicy};
use cached_core::key::default_key;
use cached_core::shared::{Shared, Unconstrained};
use once_cell::sync::Lazy;
use std::sync::atomic::{AtomicUsize, Ordering};

// What the `cached` attribute makes of
//
//     #[cached(size = 2)]
//     fn weigh(a: u64, b: u64) -> u64 { .. }
//
// written out by hand: one lazily made, process-wide wrapper beside the
// function, and the function reduced to a call of it.

static RUNS: AtomicUsize = AtomicUsize::new(0);

static WEIGH: Lazy<Shared<(u64, u64), u64, Unconstrained>> = Lazy::new(|| {
    Shared::new(String::from("WEIGH"), BackendKind::SizeBounded(2), ResultPolicy::All)
});

fn weigh(a: u64, b: u64) -> u64 {
    let key = (default_key(&a), default_key(&b));
    fn inner(a: u64, b: u64) -> u64 {
        RUNS.fetch_add(1, Ordering::SeqCst);
        a * 100 + b
    }
    WEIGH.call(key, move || inner(a, b))
}

#[test]
fn written_out_attribute_memoizes_the_function() {
    assert_eq!(weigh(1, 2), 102);
    assert!(WEIGH.is_ready());
    assert_eq!(WEIGH.name(), "WEIGH");
    assert_eq!(weigh(1, 2), 102);
    assert_eq!(RUNS.load(Ordering::SeqCst), 1);
    assert_eq!(weigh(2, 1), 201);
    assert_eq!(weigh(3, 3), 303);
    assert_eq!(RUNS.load(Ordering::SeqCst), 3);
    // (1, 2) was the least recently used of three keys in a cache of two.
    assert_eq!(weigh(1, 2), 102);
    assert_eq!(RUNS.load(Ordering::SeqCst), 4);
    assert_eq!(weigh(3, 3), 303);
    assert_eq!(RUNS.load(Ordering::SeqCst), 4);
}
