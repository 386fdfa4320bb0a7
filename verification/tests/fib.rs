use rust_lab::fib::{fibonacci, fibonacci_opt};
use std::collections::HashMap;

#[test]
fn fibonacci_counts_from_one_one() {
    let firsts: Vec<u64> = (0..8).map(fibonacci).collect();
    assert_eq!(firsts, vec![1, 1, 2, 3, 5, 8, 13, 21]);
    assert_eq!(fibonacci(20), 10946);
}

#[test]
fn fibonacci_opt_agrees_and_fills_cache() {
    let mut cache = HashMap::new();
    assert_eq!(fibonacci_opt(50, &mut cache), 20365011074);
    assert_eq!(cache.get(&50), Some(&20365011074));
    assert_eq!(cache.get(&10), Some(&89));
    assert!(cache.keys().all(|&k| k <= 50));
    for n in 0..30u64 {
        assert_eq!(fibonacci_opt(n, &mut cache), fibonacci(n));
    }
}

#[test]
fn fibonacci_opt_keeps_cached_values() {
    let mut cache = HashMap::new();
    cache.insert(3u64, 3u64);
    assert_eq!(fibonacci_opt(5, &mut cache), 8);
    assert_eq!(cache.get(&3), Some(&3));
    assert_eq!(cache.get(&5), Some(&8));
}
