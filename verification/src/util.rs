//! Percentages of counts.
use vstd::prelude::*;

verus! {

/// `amount` as a whole percentage of `total`, rounded down; when `total` is
/// zero, 0 for no amount and `u64::MAX` otherwise, and never above
/// `u64::MAX`.
pub open spec fn percentage(total: nat, amount: nat) -> nat {
    if total == 0 {
        if amount == 0 {
            0
        } else {
            u64::MAX as nat
        }
    } else if amount * 100 / total > u64::MAX {
        u64::MAX as nat
    } else {
        amount * 100 / total
    }
}

/// `amount` as a whole percentage of `total` (`amount.percent_of(total)`).
pub fn percent_of(amount: u64, total: u64) -> (r: u64)
    ensures
        r == percentage(total as nat, amount as nat),
{
    if total == 0 {
        if amount == 0 {
            0
        } else {
            u64::MAX
        }
    } else {
        let p = (amount as u128) * 100 / (total as u128);
        if p > u64::MAX as u128 {
            u64::MAX
        } else {
            p as u64
        }
    }
}

/// `amount` as a whole percentage of `total`, for counts of items.
pub fn percent_of_usize(amount: usize, total: usize) -> (r: usize)
    ensures
        r == (if total == 0 {
            if amount == 0 {
                0
            } else {
                usize::MAX as nat
            }
        } else if (amount * 100) as nat / (total as nat) > usize::MAX {
            usize::MAX as nat
        } else {
            (amount * 100) as nat / (total as nat)
        }),
{
    if total == 0 {
        if amount == 0 {
            0
        } else {
            usize::MAX
        }
    } else {
        let p = (amount as u128) * 100 / (total as u128);
        if p > usize::MAX as u128 {
            usize::MAX
        } else {
            p as usize
        }
    }
}

} // verus!
