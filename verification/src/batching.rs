use vstd::prelude::*;
use vstd::arithmetic::div_mod::{lemma_fundamental_div_mod, lemma_mod_bound};

verus! {

/// Number of child-process invocations for `n` records at batch size `b`:
/// the ceiling of `n / b`.
pub open spec fn num_batches_spec(n: int, b: int) -> int
    recommends
        b >= 1,
{
    (n + b - 1) / b
}

/// Index of the first record of batch `i`.
pub open spec fn batch_start_spec(i: int, b: int) -> int {
    i * b
}

/// Number of records in batch `i`: the full batch size, except for a
/// possibly shorter final batch.
pub open spec fn batch_len_spec(i: int, n: int, b: int) -> int {
    if n - i * b < b {
        n - i * b
    } else {
        b
    }
}

/// The batches partition the input: there are exactly `ceil(n / b)` of
/// them, all but the last hold exactly `b` records, the last holds
/// `n % b` records (or `b` when `b` divides `n`), and together they cover
/// records `0..n` contiguously and in order.
pub proof fn lemma_batch_partition(n: int, b: int)
    requires
        n >= 0,
        b >= 1,
    ensures
        num_batches_spec(n, b) >= 0,
        num_batches_spec(n, b) <= n,
        n == 0 ==> num_batches_spec(n, b) == 0,
        n > 0 ==> n <= num_batches_spec(n, b) * b && (num_batches_spec(n, b) - 1) * b < n,
        forall|i: int|
            0 <= i < num_batches_spec(n, b) ==> 1 <= #[trigger] batch_len_spec(i, n, b) <= b,
        forall|i: int|
            0 <= i < num_batches_spec(n, b) ==> batch_start_spec(i, b) + #[trigger] batch_len_spec(
                i,
                n,
                b,
            ) <= n,
        forall|i: int|
            0 <= i < num_batches_spec(n, b) - 1 ==> #[trigger] batch_len_spec(i, n, b) == b,
        n > 0 ==> batch_start_spec(num_batches_spec(n, b) - 1, b) + batch_len_spec(
            num_batches_spec(n, b) - 1,
            n,
            b,
        ) == n,
        n > 0 && n % b == 0 ==> batch_len_spec(num_batches_spec(n, b) - 1, n, b) == b,
        n > 0 && n % b != 0 ==> batch_len_spec(num_batches_spec(n, b) - 1, n, b) == n % b,
{
    let q = num_batches_spec(n, b);
    lemma_fundamental_div_mod(n + b - 1, b);
    lemma_mod_bound(n + b - 1, b);
    assert(n + b - 1 == b * q + (n + b - 1) % b);
    if n == 0 {
        assert(b * q == b - 1 - (b - 1) % b);
        lemma_mod_bound(b - 1, b);
        lemma_fundamental_div_mod(b - 1, b);
        assert((b - 1) / b == 0 || (b - 1) / b < 0 || (b - 1) / b >= 1) by (nonlinear_arith);
        assert(q == 0) by (nonlinear_arith)
            requires
                b >= 1 && b * q + (b - 1) % b == b - 1 && 0 <= (b - 1) % b < b,
        ;
    } else {
        assert(n <= q * b && (q - 1) * b < n) by (nonlinear_arith)
            requires
                b >= 1 && n >= 1 && n + b - 1 == b * q + (n + b - 1) % b && 0 <= (n + b - 1) % b
                    < b,
        ;
        assert(q <= n) by (nonlinear_arith)
            requires
                b >= 1 && n >= 1 && n <= q * b && (q - 1) * b < n,
        ;
        assert forall|i: int| 0 <= i < q implies 1 <= #[trigger] batch_len_spec(i, n, b) <= b by {
            assert(i * b <= (q - 1) * b) by (nonlinear_arith)
                requires
                    i <= q - 1 && b >= 1,
            ;
            assert(n - i * b >= 1);
        }
        assert forall|i: int| 0 <= i < q implies batch_start_spec(i, b) + #[trigger] batch_len_spec(
            i,
            n,
            b,
        ) <= n by {
            if n - i * b < b {
            } else {
                assert((i + 1) * b <= q * b) by (nonlinear_arith)
                    requires
                        i + 1 <= q && b >= 1,
                ;
                assert(i * b + b == (i + 1) * b) by (nonlinear_arith);
            }
        }
        assert forall|i: int| 0 <= i < q - 1 implies #[trigger] batch_len_spec(i, n, b) == b by {
            assert((i + 1) * b <= (q - 1) * b) by (nonlinear_arith)
                requires
                    i + 1 <= q - 1 && b >= 1,
            ;
            assert(i * b + b == (i + 1) * b) by (nonlinear_arith);
        }
        // The final batch ends exactly at `n`.
        assert((q - 1) * b + b == q * b) by (nonlinear_arith);
        assert(n - (q - 1) * b <= b) by (nonlinear_arith)
            requires
                n <= q * b && (q - 1) * b + b == q * b,
        ;
        assert(batch_len_spec(q - 1, n, b) == n - (q - 1) * b);
        // Relate the final batch length to `n % b`.
        lemma_fundamental_div_mod(n, b);
        lemma_mod_bound(n, b);
        let d = n / b;
        assert(n == b * d + n % b);
        if n % b == 0 {
            assert(q == d) by (nonlinear_arith)
                requires
                    b >= 1 && n == b * d && n <= q * b && (q - 1) * b < n,
            ;
            assert(n - (q - 1) * b == b) by (nonlinear_arith)
                requires
                    n == b * q,
            ;
        } else {
            assert(q == d + 1) by (nonlinear_arith)
                requires
                    b >= 1 && n == b * d + n % b && 0 < n % b < b && n <= q * b && (q - 1) * b
                        < n,
            ;
            assert(n - (q - 1) * b == n % b) by (nonlinear_arith)
                requires
                    n == b * d + n % b && q == d + 1,
            ;
        }
    }
}

/// Number of batches needed for `n` records at batch size `b`.
pub fn num_batches(n: usize, b: usize) -> (r: usize)
    requires
        b >= 1,
    ensures
        r == num_batches_spec(n as int, b as int),
{
    proof {
        lemma_batch_partition(n as int, b as int);
    }
    if n == 0 {
        0
    } else {
        let r = (n - 1) / b + 1;
        proof {
            let q = num_batches_spec(n as int, b as int);
            lemma_fundamental_div_mod(n - 1, b as int);
            lemma_mod_bound(n - 1, b as int);
            let d = (n - 1) as int / b as int;
            assert(d + 1 == q) by (nonlinear_arith)
                requires
                    b >= 1 && n >= 1 && (n - 1) as int == (b as int) * d + (n - 1) as int % (
                    b as int) && 0 <= (n - 1) as int % (b as int) < b as int && n <= q * b && (q
                        - 1) * b < n,
            ;
        }
        r
    }
}

/// First record index of batch `i`; stays within the input.
pub fn batch_start(i: usize, n: usize, b: usize) -> (r: usize)
    requires
        b >= 1,
        i < num_batches_spec(n as int, b as int),
    ensures
        r == batch_start_spec(i as int, b as int),
        r < n,
{
    proof {
        lemma_batch_partition(n as int, b as int);
        assert(batch_len_spec(i as int, n as int, b as int) >= 1);
        assert(batch_start_spec(i as int, b as int) + batch_len_spec(i as int, n as int, b as int)
            <= n);
    }
    i * b
}

/// Number of records in batch `i`.
pub fn batch_len(i: usize, n: usize, b: usize) -> (r: usize)
    requires
        b >= 1,
        i < num_batches_spec(n as int, b as int),
    ensures
        r == batch_len_spec(i as int, n as int, b as int),
        1 <= r <= b,
        batch_start_spec(i as int, b as int) + r <= n,
{
    proof {
        lemma_batch_partition(n as int, b as int);
        assert(1 <= batch_len_spec(i as int, n as int, b as int) <= b);
        assert(batch_start_spec(i as int, b as int) + batch_len_spec(i as int, n as int, b as int)
            <= n);
    }
    let start = batch_start(i, n, b);
    if n - start < b {
        n - start
    } else {
        b
    }
}

} // verus!
