use std::collections::HashMap;
use vstd::prelude::*;

verus! {

broadcast use vstd::std_specs::hash::group_hash_axioms;

/// The Fibonacci numbers counted from `fib(0) == fib(1) == 1`.
pub open spec fn fib(n: nat) -> nat
    decreases n,
{
    if n <= 1 {
        1
    } else {
        fib((n - 1) as nat) + fib((n - 2) as nat)
    }
}

/// The Fibonacci recurrence: the first two numbers are one, and every later
/// number is the sum of the two before it.
pub proof fn lemma_fib_recurrence(n: nat)
    ensures
        fib(0) == 1,
        fib(1) == 1,
        n >= 2 ==> fib(n) == fib((n - 1) as nat) + fib((n - 2) as nat),
{
}

/// Each Fibonacci number is at least the one before it.
pub proof fn lemma_fib_monotonic(i: nat, j: nat)
    requires
        i <= j,
    ensures
        fib(i) <= fib(j),
    decreases j - i,
{
    if i < j {
        lemma_fib_monotonic(i, (j - 1) as nat);
    }
}

/// The `n`-th Fibonacci number, computed by plain recursion.
pub fn fibonacci(n: u64) -> (r: u64)
    requires
        fib(n as nat) <= u64::MAX,
    ensures
        r == fib(n as nat),
    decreases n,
{
    match n {
        0 => 1,
        1 => 1,
        _ => {
            proof {
                lemma_fib_monotonic((n - 2) as nat, n as nat);
                lemma_fib_monotonic((n - 1) as nat, n as nat);
            }
            fibonacci(n - 1) + fibonacci(n - 2)
        },
    }
}

/// A cache of Fibonacci numbers: every number it holds is the right one.
pub open spec fn is_fib_cache(cache: Map<u64, u64>) -> bool {
    forall|k: u64| #[trigger] cache.contains_key(k) ==> cache[k] == fib(k as nat)
}

/// An empty cache is a cache; a cache answers the right number for every
/// key it holds; recording the right number for a key keeps it a cache.
pub proof fn lemma_fib_cache(cache: Map<u64, u64>, k: u64, v: u64)
    ensures
        is_fib_cache(Map::<u64, u64>::empty()),
        is_fib_cache(cache) && cache.contains_key(k) ==> cache[k] == fib(k as nat),
        is_fib_cache(cache) && v == fib(k as nat) ==> is_fib_cache(cache.insert(k, v)),
{
}

/// The `n`-th Fibonacci number, computed by recursion that looks up and
/// records results in `cache`. The cache keeps what it held and gains
/// only numbers up to the `n`-th, the `n`-th among them.
pub fn fibonacci_opt(n: u64, cache: &mut HashMap<u64, u64>) -> (r: u64)
    requires
        fib(n as nat) <= u64::MAX,
        is_fib_cache(old(cache)@),
    ensures
        r == fib(n as nat),
        is_fib_cache(final(cache)@),
        final(cache)@.contains_key(n),
        forall|k: u64| old(cache)@.contains_key(k) ==> #[trigger] final(cache)@.contains_key(k),
        forall|k: u64| #[trigger] final(cache)@.contains_key(k) ==> old(cache)@.contains_key(k) || k <= n,
    decreases n,
{
    let cached = *cache.get(&n).unwrap_or(&0);

    if cached > 0 {
        return cached;
    }
    let res = match n {
        0 => 1,
        1 => 1,
        _ => {
            proof {
                lemma_fib_monotonic((n - 2) as nat, n as nat);
                lemma_fib_monotonic((n - 1) as nat, n as nat);
            }
            let a = fibonacci_opt(n - 1, cache);
            let b = fibonacci_opt(n - 2, cache);
            a + b
        },
    };
    cache.insert(n, res);
    res
}

} // verus!
