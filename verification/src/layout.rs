//! Row-major layout of multi-dimensional lookup tables in flat vectors.

use vstd::prelude::*;
use vstd::arithmetic::div_mod::{lemma_div_denominator, lemma_fundamental_div_mod_converse, lemma_multiply_divide_lt};

verus! {

/// Offset of cell (`i0`, `i1`, `i2`) in a row-major table whose last two
/// axes have `n1` and `n2` bins (`i2` varies fastest).
pub open spec fn flat3(n1: int, n2: int, i0: int, i1: int, i2: int) -> int {
    (i0 * n1 + i1) * n2 + i2
}

/// Offset of cell (`i0`, `i1`, `i2`, `i3`) in a row-major table whose last
/// three axes have `n1`, `n2` and `n3` bins (`i3` varies fastest).
pub open spec fn flat4(n1: int, n2: int, n3: int, i0: int, i1: int, i2: int, i3: int) -> int {
    flat3(n1, n2, i0, i1, i2) * n3 + i3
}

proof fn lemma_flat2(n0: int, n1: int, i0: int, i1: int)
    requires
        0 <= i0 < n0,
        0 <= i1 < n1,
    ensures
        0 <= i0 * n1 + i1 < n0 * n1,
{
    assert(0 <= i0 * n1 + i1 < n0 * n1) by (nonlinear_arith)
        requires
            0 <= i0 < n0,
            0 <= i1 < n1,
    ;
}

/// Every in-range cell of a three-axis table has an offset inside the table.
pub proof fn lemma_flat3_in_range(n0: int, n1: int, n2: int, i0: int, i1: int, i2: int)
    requires
        0 <= i0 < n0,
        0 <= i1 < n1,
        0 <= i2 < n2,
    ensures
        0 <= flat3(n1, n2, i0, i1, i2) < n0 * n1 * n2,
{
    lemma_flat2(n0, n1, i0, i1);
    lemma_flat2(n0 * n1, n2, i0 * n1 + i1, i2);
}

/// Distinct in-range cells of a three-axis table have distinct offsets.
pub proof fn lemma_flat3_injective(
    n1: int,
    n2: int,
    i0: int,
    i1: int,
    i2: int,
    j0: int,
    j1: int,
    j2: int,
)
    requires
        0 <= i1 < n1,
        0 <= i2 < n2,
        0 <= j1 < n1,
        0 <= j2 < n2,
        flat3(n1, n2, i0, i1, i2) == flat3(n1, n2, j0, j1, j2),
    ensures
        i0 == j0,
        i1 == j1,
        i2 == j2,
{
    let f = flat3(n1, n2, i0, i1, i2);
    lemma_fundamental_div_mod_converse(f, n2, i0 * n1 + i1, i2);
    lemma_fundamental_div_mod_converse(f, n2, j0 * n1 + j1, j2);
    lemma_fundamental_div_mod_converse(i0 * n1 + i1, n1, i0, i1);
    lemma_fundamental_div_mod_converse(j0 * n1 + j1, n1, j0, j1);
}

/// Every in-range cell of a four-axis table has an offset inside the table.
pub proof fn lemma_flat4_in_range(
    n0: int,
    n1: int,
    n2: int,
    n3: int,
    i0: int,
    i1: int,
    i2: int,
    i3: int,
)
    requires
        0 <= i0 < n0,
        0 <= i1 < n1,
        0 <= i2 < n2,
        0 <= i3 < n3,
    ensures
        0 <= flat4(n1, n2, n3, i0, i1, i2, i3) < n0 * n1 * n2 * n3,
{
    lemma_flat3_in_range(n0, n1, n2, i0, i1, i2);
    lemma_flat2(n0 * n1 * n2, n3, flat3(n1, n2, i0, i1, i2), i3);
}

/// Distinct in-range cells of a four-axis table have distinct offsets.
pub proof fn lemma_flat4_injective(
    n1: int,
    n2: int,
    n3: int,
    i0: int,
    i1: int,
    i2: int,
    i3: int,
    j0: int,
    j1: int,
    j2: int,
    j3: int,
)
    requires
        0 <= i1 < n1,
        0 <= i2 < n2,
        0 <= i3 < n3,
        0 <= j1 < n1,
        0 <= j2 < n2,
        0 <= j3 < n3,
        flat4(n1, n2, n3, i0, i1, i2, i3) == flat4(n1, n2, n3, j0, j1, j2, j3),
    ensures
        i0 == j0,
        i1 == j1,
        i2 == j2,
        i3 == j3,
{
    let f = flat4(n1, n2, n3, i0, i1, i2, i3);
    lemma_fundamental_div_mod_converse(f, n3, flat3(n1, n2, i0, i1, i2), i3);
    lemma_fundamental_div_mod_converse(f, n3, flat3(n1, n2, j0, j1, j2), j3);
    lemma_flat3_injective(n1, n2, i0, i1, i2, j0, j1, j2);
}

/// The cell stored at offset `k` of a row-major table whose last two axes
/// have `n1` and `n2` bins.
pub open spec fn unflat3(n1: int, n2: int, k: int) -> (int, int, int) {
    (k / n2 / n1, (k / n2) % n1, k % n2)
}

/// Reading back the offset of an in-range cell gives that cell.
pub proof fn lemma_unflat3(n1: int, n2: int, i0: int, i1: int, i2: int)
    requires
        0 <= i0,
        0 <= i1 < n1,
        0 <= i2 < n2,
    ensures
        unflat3(n1, n2, flat3(n1, n2, i0, i1, i2)) == (i0, i1, i2),
{
    let f = flat3(n1, n2, i0, i1, i2);
    lemma_fundamental_div_mod_converse(f, n2, i0 * n1 + i1, i2);
    lemma_fundamental_div_mod_converse(i0 * n1 + i1, n1, i0, i1);
}

/// A row-major table of `n0` x `n1` x `n2` entries, the entry of cell
/// (`i0`, `i1`, `i2`) computed by `entry_at(i0, i1, i2)`: each cell is
/// computed once and stored at its offset.
pub fn fill3<E, F: Fn(usize, usize, usize) -> E>(n0: usize, n1: usize, n2: usize, entry_at: F) -> (data:
    Vec<E>)
    requires
        n0 * n1 <= usize::MAX,
        n0 * n1 * n2 <= usize::MAX,
        forall|i0: usize, i1: usize, i2: usize|
            i0 < n0 && i1 < n1 && i2 < n2 ==> #[trigger] entry_at.requires((i0, i1, i2)),
    ensures
        data@.len() == n0 * n1 * n2,
        forall|i0: usize, i1: usize, i2: usize|
            i0 < n0 && i1 < n1 && i2 < n2 ==> entry_at.ensures(
                (i0, i1, i2),
                #[trigger] data@[flat3(n1 as int, n2 as int, i0 as int, i1 as int, i2 as int)],
            ),
{
    let total = n0 * n1 * n2;
    let mut data: Vec<E> = Vec::new();
    if n1 == 0 || n2 == 0 {
        assert(total == 0) by (nonlinear_arith)
            requires
                n1 == 0 || n2 == 0,
                total == n0 * n1 * n2,
        ;
        return data;
    }
    for k in 0..total
        invariant
            total == n0 * n1 * n2,
            n1 > 0,
            n2 > 0,
            data@.len() == k,
            forall|i0: usize, i1: usize, i2: usize|
                i0 < n0 && i1 < n1 && i2 < n2 ==> #[trigger] entry_at.requires((i0, i1, i2)),
            forall|j: int|
                0 <= j < k ==> {
                    let c = unflat3(n1 as int, n2 as int, j);
                    entry_at.ensures((c.0 as usize, c.1 as usize, c.2 as usize), #[trigger] data@[j])
                },
    {
        let i2 = k % n2;
        let i1 = (k / n2) % n1;
        let i0 = k / n2 / n1;
        proof {
            lemma_div_denominator(k as int, n2 as int, n1 as int);
            assert(k < (n2 * n1) * n0) by (nonlinear_arith)
                requires
                    k < total,
                    total == n0 * n1 * n2,
            ;
            lemma_multiply_divide_lt(k as int, n2 * n1, n0 as int);
        }
        data.push(entry_at(i0, i1, i2));
    }
    proof {
        assert forall|i0: usize, i1: usize, i2: usize|
            i0 < n0 && i1 < n1 && i2 < n2 implies entry_at.ensures(
            (i0, i1, i2),
            #[trigger] data@[flat3(n1 as int, n2 as int, i0 as int, i1 as int, i2 as int)],
        ) by {
            let f = flat3(n1 as int, n2 as int, i0 as int, i1 as int, i2 as int);
            lemma_flat3_in_range(n0 as int, n1 as int, n2 as int, i0 as int, i1 as int, i2 as int);
            lemma_unflat3(n1 as int, n2 as int, i0 as int, i1 as int, i2 as int);
            assert(n0 as int * n1 as int * n2 as int == total);
            assert(0 <= f < total);
            let c = unflat3(n1 as int, n2 as int, f);
            assert(entry_at.ensures((c.0 as usize, c.1 as usize, c.2 as usize), data@[f]));
        }
    }
    data
}

} // verus!
