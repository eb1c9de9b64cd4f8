//! Checked credits and debits of a user's collateral balance, keeping the
//! user's asset list and the position index in step with the balances.
use vstd::prelude::*;

use crate::common::{fits_i128, AccountId};
use crate::vault::errors::VaultError;
use crate::vault::storage::{swap_pop, VaultState};

verus! {

/// Accepts a strictly positive amount; `InvalidAmount` for zero or a
/// negative amount.
pub fn validate_positive_amount(amount: i128) -> (r: Result<(), VaultError>)
    ensures
        r == (if amount > 0 {
            Ok::<(), VaultError>(())
        } else {
            Err(VaultError::InvalidAmount)
        }),
{
    if amount <= 0 {
        return Err(VaultError::InvalidAmount);
    }
    Ok(())
}

/// The effect of crediting `amount` of `asset` to `user` on the state.
pub open spec fn credited(before: VaultState, after: VaultState, user: AccountId, asset: AccountId, new_balance: int) -> bool {
    &&& forall|u: AccountId, a: AccountId|
        #[trigger] after.balance(u, a) == (if u == user && a == asset {
            new_balance
        } else {
            before.balance(u, a)
        })
    &&& after.user_asset_list(user) == (if before.user_asset_list(user).contains(asset) {
        before.user_asset_list(user)
    } else {
        before.user_asset_list(user).push(asset)
    })
    &&& forall|u: AccountId| u != user ==> #[trigger] after.user_asset_list(u) == before.user_asset_list(u)
    &&& after.positions() == (if before.positions().contains(user) {
        before.positions()
    } else {
        before.positions().push(user)
    })
    &&& after.same_scalars(&before)
    &&& after.supported() == before.supported()
    &&& after.configs() == before.configs()
}

/// The effect of debiting `user`'s balance of `asset` down to `new_balance`.
pub open spec fn debited(before: VaultState, after: VaultState, user: AccountId, asset: AccountId, new_balance: int) -> bool {
    let list = if new_balance == 0 {
        swap_pop(before.user_asset_list(user), asset)
    } else {
        before.user_asset_list(user)
    };
    &&& forall|u: AccountId, a: AccountId|
        #[trigger] after.balance(u, a) == (if u == user && a == asset {
            new_balance
        } else {
            before.balance(u, a)
        })
    &&& after.user_asset_list(user) == list
    &&& forall|u: AccountId| u != user ==> #[trigger] after.user_asset_list(u) == before.user_asset_list(u)
    &&& after.positions() == (if list.len() == 0 {
        swap_pop(before.positions(), user)
    } else {
        before.positions()
    })
    &&& after.same_scalars(&before)
    &&& after.supported() == before.supported()
    &&& after.configs() == before.configs()
}

/// Adds `amount` to `user`'s balance of `asset`, lists the asset for the
/// user and the user in the position index, and returns the new balance.
///
/// Errors, leaving the state unchanged: `InvalidAmount` when `amount <= 0`
/// or when the new balance would not fit.
pub fn checked_credit(state: &mut VaultState, user: AccountId, asset: AccountId, amount: i128) -> (r: Result<i128, VaultError>)
    requires
        old(state).wf(),
    ensures
        final(state).wf(),
        match r {
            Ok(new_balance) => {
                &&& amount > 0
                &&& new_balance == old(state).balance(user, asset) + amount
                &&& credited(*old(state), *final(state), user, asset, new_balance as int)
            },
            Err(e) => {
                &&& e == VaultError::InvalidAmount
                &&& (amount <= 0 || !fits_i128(old(state).balance(user, asset) + amount))
                &&& *final(state) == *old(state)
            },
        },
        (amount > 0 && fits_i128(old(state).balance(user, asset) + amount)) ==> r is Ok,
{
    validate_positive_amount(amount)?;
    let balance = state.get_position_balance(user, asset);
    let new_balance = match balance.checked_add(amount) {
        Some(b) => b,
        None => {
            return Err(VaultError::InvalidAmount);
        },
    };
    let ghost s0 = *state;
    state.set_position_balance(user, asset, new_balance);
    let ghost s1 = *state;
    state.add_user_asset(user, asset);
    let ghost s2 = *state;
    state.add_to_position_index(user);
    proof {
        assert(state.user_asset_list(user).contains(asset)) by {
            if !s1.user_asset_list(user).contains(asset) {
                assert(state.user_asset_list(user)[s1.user_asset_list(user).len() as int] == asset);
            }
        }
        assert(state.positions().contains(user)) by {
            if !s2.positions().contains(user) {
                assert(state.positions()[s2.positions().len() as int] == user);
            }
        }
        assert forall|u: AccountId| #[trigger] state.user_asset_list(u).no_duplicates() by {
            if u != user {
                assert(state.user_asset_list(u) == s0.user_asset_list(u));
            }
        }
        assert forall|u: AccountId, a: AccountId|
            #![trigger state.balance(u, a)]
            #![trigger state.user_asset_list(u).contains(a)]
            state.balance(u, a) > 0 <==> state.user_asset_list(u).contains(a) by {
            if u == user {
                if a != asset {
                    assert(state.user_asset_list(u).contains(a) <==> s0.user_asset_list(u).contains(a)) by {
                        if !s1.user_asset_list(user).contains(asset) {
                            vstd::seq_lib::lemma_seq_contains_after_push(s1.user_asset_list(user), asset, a);
                        }
                    }
                }
            } else {
                assert(state.user_asset_list(u) == s0.user_asset_list(u));
            }
        }
        assert forall|u: AccountId|
            #![trigger state.positions().contains(u)]
            #![trigger state.user_asset_list(u)]
            state.positions().contains(u) <==> state.user_asset_list(u).len() > 0 by {
            if u != user {
                assert(state.user_asset_list(u) == s0.user_asset_list(u));
                assert(state.positions().contains(u) <==> s0.positions().contains(u)) by {
                    if !s2.positions().contains(user) {
                        vstd::seq_lib::lemma_seq_contains_after_push(s2.positions(), user, u);
                    }
                }
            }
        }
    }
    Ok(new_balance)
}

/// Subtracts `amount` from `user`'s balance of `asset` and returns the new
/// balance. A balance that reaches zero drops the asset from the user's
/// list, and a user left with no assets drops out of the position index.
///
/// Errors, leaving the state unchanged, in this order: `InvalidAmount` when
/// `amount <= 0`; `NoPosition` when `user` is not in the position index;
/// `InsufficientCollateral` when the balance is below `amount`.
pub fn checked_debit(state: &mut VaultState, user: AccountId, asset: AccountId, amount: i128) -> (r: Result<i128, VaultError>)
    requires
        old(state).wf(),
    ensures
        final(state).wf(),
        r == (if amount <= 0 {
            Err(VaultError::InvalidAmount)
        } else if !old(state).positions().contains(user) {
            Err(VaultError::NoPosition)
        } else if old(state).balance(user, asset) < amount {
            Err(VaultError::InsufficientCollateral)
        } else {
            Ok::<i128, VaultError>((old(state).balance(user, asset) - amount) as i128)
        }),
        r is Err ==> *final(state) == *old(state),
        r is Ok ==> debited(*old(state), *final(state), user, asset, r->Ok_0 as int),
{
    validate_positive_amount(amount)?;
    if !state.user_in_position_index(user) {
        return Err(VaultError::NoPosition);
    }
    let balance = state.get_position_balance(user, asset);
    if balance < amount {
        return Err(VaultError::InsufficientCollateral);
    }
    let new_balance = balance - amount;
    let ghost s0 = *state;
    state.set_position_balance(user, asset, new_balance);
    let ghost s1 = *state;
    if new_balance == 0 {
        proof {
            assert(s1.user_asset_list(user).contains(asset));
            let i = choose|i: int| 0 <= i < s1.user_asset_list(user).len() && s1.user_asset_list(user)[i] == asset;
            crate::vault::storage::lemma_swap_pop_at(s1.user_asset_list(user), asset, i);
        }
        state.remove_user_asset(user, asset);
    }
    let ghost s2 = *state;
    // A position with no listed assets holds no collateral: take the user
    // out of the index.
    if state.user_asset_count_usize(user) == 0 {
        proof {
            let i = choose|i: int| 0 <= i < s2.positions().len() && s2.positions()[i] == user;
            crate::vault::storage::lemma_swap_pop_at(s2.positions(), user, i);
        }
        state.remove_from_position_index(user);
    }
    proof {
        assert forall|u: AccountId| #[trigger] state.user_asset_list(u).no_duplicates() by {
            if u != user {
                assert(state.user_asset_list(u) == s0.user_asset_list(u));
            }
        }
        assert forall|u: AccountId, a: AccountId|
            #![trigger state.balance(u, a)]
            #![trigger state.user_asset_list(u).contains(a)]
            state.balance(u, a) > 0 <==> state.user_asset_list(u).contains(a) by {
            if u != user {
                assert(state.user_asset_list(u) == s0.user_asset_list(u));
            } else if a != asset && new_balance == 0 {
                assert(state.user_asset_list(u).contains(a) <==> s0.user_asset_list(u).contains(a));
            }
        }
        assert forall|u: AccountId|
            #![trigger state.positions().contains(u)]
            #![trigger state.user_asset_list(u)]
            state.positions().contains(u) <==> state.user_asset_list(u).len() > 0 by {
            if u != user {
                assert(state.user_asset_list(u) == s0.user_asset_list(u));
                if state.user_asset_list(user).len() == 0 {
                    assert(state.positions().contains(u) <==> s0.positions().contains(u));
                }
            }
        }
    }
    Ok(new_balance)
}

} // verus!
