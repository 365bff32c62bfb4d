//! The order in which the checklist's steps unlock.
//!
//! Every checkbox gets a number when it is created, counting up from 0.
//! A shared count grows by one each time a step's value is filled in; a step
//! whose checkbox has number `id` stays locked (its input disabled and
//! hidden) while the count is below `id`.

use vstd::prelude::*;

verus! {

/// The step numbered `id` is locked at count `checked`.
pub open spec fn is_locked(checked: u8, id: u8) -> bool {
    checked < id
}

/// The number that follows `id`: one more, wrapping from 255 to 0.
pub open spec fn following_id(id: u8) -> u8 {
    ((id + 1) % 256) as u8
}

/// The number the `n`-th checkbox after one numbered `k` gets.
pub open spec fn nth_checkbox_id(k: u8, n: nat) -> u8
    decreases n,
{
    if n == 0 {
        k
    } else {
        following_id(nth_checkbox_id(k, (n - 1) as nat))
    }
}

/// The count after one more step was filled in.
pub open spec fn count_after_fill(checked: u8) -> u8 {
    (checked + 1) as u8
}

/// The count after `n` steps were filled in, starting from `c0`.
pub open spec fn count_after_fills(c0: u8, n: nat) -> u8
    decreases n,
{
    if n == 0 {
        c0
    } else {
        count_after_fill(count_after_fills(c0, (n - 1) as nat))
    }
}

/// The number after `id` for the next checkbox; the counter wraps, as an
/// atomic `fetch_add` does.
pub fn next_checkbox_id(id: u8) -> (r: u8)
    ensures
        r == (id + 1) % 256,
        r == following_id(id),
{
    id.wrapping_add(1)
}

/// The count after one more step was filled in. The count is a `u8`
/// incremented with `+=`, which overflows (and panics) past 255.
pub fn record_filled(checked: u8) -> (r: u8)
    requires
        checked < 255,
    ensures
        r == checked + 1,
        r == count_after_fill(checked),
{
    checked + 1
}

/// Whether the step numbered `id` is locked at count `checked`.
pub fn step_locked(checked: u8, id: u8) -> (r: bool)
    ensures
        r == is_locked(checked, id),
{
    checked < id
}

/// Whether the step numbered `id` is shown at count `checked`.
pub fn step_shown(checked: u8, id: u8) -> (r: bool)
    ensures
        r == !is_locked(checked, id),
{
    checked >= id
}

/// A checkbox cannot be ticked by hand while its step's value is empty.
pub fn checkbox_locked(value: &str) -> (r: bool)
    ensures
        r == (value@.len() == 0),
{
    value.is_empty()
}

/// A step that is unlocked stays unlocked when another step is filled in.
pub proof fn lemma_filling_keeps_steps_unlocked(checked: u8, id: u8)
    requires
        checked < 255,
        !is_locked(checked, id),
    ensures
        !is_locked((checked + 1) as u8, id),
{
}

/// Steps unlock in the order of their numbers: when a step is unlocked, so
/// is every step numbered before it.
pub proof fn lemma_unlock_in_order(checked: u8, earlier: u8, later: u8)
    requires
        earlier <= later,
        !is_locked(checked, later),
    ensures
        !is_locked(checked, earlier),
{
}

/// Step `id` unlocks exactly when the count reaches `id`: it is locked at
/// count `id - 1` and unlocked at count `id`.
pub proof fn lemma_unlocks_at_its_number(id: u8)
    requires
        id > 0,
    ensures
        is_locked((id - 1) as u8, id),
        !is_locked(id, id),
{
}

/// The `n`-th checkbox after one numbered `k` is numbered `(k + n) % 256`.
pub proof fn lemma_nth_checkbox_id(k: u8, n: nat)
    ensures
        nth_checkbox_id(k, n) == (k + n) % 256,
    decreases n,
{
    if n > 0 {
        lemma_nth_checkbox_id(k, (n - 1) as nat);
        let a: int = k + n - 1;
        assert(((a % 256) + 1) % 256 == (a + 1) % 256) by (nonlinear_arith)
            requires
                a >= 0,
        {
            let q = a / 256;
            let r = a % 256;
            assert(a == 256 * q + r);
            if r < 255 {
                assert((a + 1) == 256 * q + (r + 1));
            } else {
                assert((a + 1) == 256 * (q + 1));
            }
        }
    }
}

/// Up to 256 successive checkboxes get pairwise different numbers: for
/// `i < j < 256`, the `i`-th and `j`-th numbers after `k` differ.
pub proof fn lemma_checkbox_ids_distinct(k: u8, i: nat, j: nat)
    requires
        i < j < 256,
    ensures
        nth_checkbox_id(k, i) == (k + i) % 256,
        nth_checkbox_id(k, j) == (k + j) % 256,
        nth_checkbox_id(k, i) != nth_checkbox_id(k, j),
{
    lemma_nth_checkbox_id(k, i);
    lemma_nth_checkbox_id(k, j);
    let a: int = k + i;
    let b: int = k + j;
    assert(a % 256 != b % 256) by (nonlinear_arith)
        requires
            0 <= a < b < a + 256,
    {
        let qa = a / 256;
        let qb = b / 256;
        assert(a == 256 * qa + a % 256);
        assert(b == 256 * qb + b % 256);
    }
}

/// Filling in `n` steps from count `c0` gives count `c0 + n`, as long as
/// that stays at most 255.
pub proof fn lemma_count_after_fills(c0: u8, n: nat)
    requires
        c0 + n <= 255,
    ensures
        count_after_fills(c0, n) == c0 + n,
    decreases n,
{
    if n > 0 {
        lemma_count_after_fills(c0, (n - 1) as nat);
    }
}

} // verus!
