//! Facts about sums over the roster.
use vstd::prelude::*;
use crate::catalog::{index_of_tile, is_model_tile, tile_of_index};
use crate::state::roster_sum;

verus! {

/// Roster tiles are distinct model tiles, and indices and tiles correspond.
pub proof fn lemma_roster_tiles()
    ensures
        forall|i: int| 0 <= i < 16 ==> #[trigger] is_model_tile(tile_of_index(i)),
        forall|i: int| 0 <= i < 16 ==> #[trigger] index_of_tile(tile_of_index(i)) == i,
        forall|t: int| #[trigger] is_model_tile(t) ==> 0 <= index_of_tile(t) < 16 && tile_of_index(
            index_of_tile(t),
        ) == t,
        forall|i: int, k: int| 0 <= i < 16 && 0 <= k < 16 && i != k ==> #[trigger] tile_of_index(i)
            != #[trigger] tile_of_index(k),
{
}

/// Changing the summand at one roster position changes the sum by the difference.
pub proof fn lemma_roster_sum_update(f: spec_fn(int) -> int, g: spec_fn(int) -> int, k: int, n: int)
    requires
        0 <= k < 16,
        0 <= n <= 16,
        forall|i: int| 0 <= i < n && i != k ==> f(#[trigger] tile_of_index(i)) == g(tile_of_index(i)),
    ensures
        roster_sum(g, n) == roster_sum(f, n) + if k < n {
            g(tile_of_index(k)) - f(tile_of_index(k))
        } else {
            0
        },
    decreases n,
{
    if n > 0 {
        lemma_roster_sum_update(f, g, k, n - 1);
    }
}

/// Sums of summands that agree on the roster are equal.
pub proof fn lemma_roster_sum_same(f: spec_fn(int) -> int, g: spec_fn(int) -> int, n: int)
    requires
        0 <= n <= 16,
        forall|i: int| 0 <= i < n ==> f(#[trigger] tile_of_index(i)) == g(tile_of_index(i)),
    ensures
        roster_sum(g, n) == roster_sum(f, n),
    decreases n,
{
    if n > 0 {
        lemma_roster_sum_same(f, g, n - 1);
    }
}

/// A sum of non-negative summands is at least each of its summands.
pub proof fn lemma_roster_sum_nonneg(f: spec_fn(int) -> int, n: int)
    requires
        0 <= n <= 16,
        forall|i: int| 0 <= i < n ==> f(#[trigger] tile_of_index(i)) >= 0,
    ensures
        roster_sum(f, n) >= 0,
        forall|k: int| 0 <= k < n ==> roster_sum(f, n) >= f(#[trigger] tile_of_index(k)),
    decreases n,
{
    if n > 0 {
        lemma_roster_sum_nonneg(f, n - 1);
    }
}

/// A sum of summands bounded by `m` is at most `n * m`.
pub proof fn lemma_roster_sum_bounded(f: spec_fn(int) -> int, n: int, m: int)
    requires
        0 <= n <= 16,
        forall|i: int| 0 <= i < n ==> f(#[trigger] tile_of_index(i)) <= m,
    ensures
        roster_sum(f, n) <= n * m,
    decreases n,
{
    if n > 0 {
        lemma_roster_sum_bounded(f, n - 1, m);
        assert(n * m == (n - 1) * m + m) by (nonlinear_arith);
    }
}

} // verus!
