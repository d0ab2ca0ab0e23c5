//! The laws the vault promises, stated over the transition functions and
//! proved once and for all.

use vstd::prelude::*;
use crate::derivation::{access_address_ok, pool_address_ok};
use crate::state::{
    access_idx, access_keys, balance_at, holder_idx, holder_keys, lemma_key_idx,
    lemma_key_idx_same, owed_at, StateV,
};
use crate::vault::{
    deposit_tr, initialize_access_tr, initialize_vault_tr, withdraw_tr, ErrorCode,
};

verus! {

/// Every error is a full rejection: a failing operation changes nothing.
pub proof fn lemma_errors_change_nothing(s: StateV, a: Seq<u8>, b: Seq<u8>, c: Seq<u8>, d: Seq<u8>, e: Seq<u8>, amount: u64)
    ensures
        initialize_vault_tr(s, a, b).1 is Err ==> initialize_vault_tr(s, a, b).0 == s,
        initialize_access_tr(s, a, b, c).1 is Err ==> initialize_access_tr(s, a, b, c).0 == s,
        deposit_tr(s, a, b, c, d, e, amount).1 is Err ==> deposit_tr(s, a, b, c, d, e, amount).0 == s,
        withdraw_tr(s, a, b, c, d, e, amount).1 is Err ==> withdraw_tr(s, a, b, c, d, e, amount).0 == s,
{
}

/// Initializing the pooled balance holder twice with identical arguments is
/// idempotent: the second call succeeds without changing anything.
pub proof fn lemma_initialize_vault_idempotent(s: StateV, vault_account: Seq<u8>, mint: Seq<u8>)
    ensures
        ({
            let first = initialize_vault_tr(s, vault_account, mint);
            let second = initialize_vault_tr(first.0, vault_account, mint);
            &&& second.0 == first.0
            &&& (first.1 is Ok ==> second.1 is Ok)
            &&& (first.1 is Err ==> second.1 == first.1)
        }),
{
    let first = initialize_vault_tr(s, vault_account, mint);
    if pool_address_ok(s.program_id, mint, vault_account) {
        match holder_idx(s.holders, vault_account) {
            Some(_) => {},
            None => {
                let holders1 = first.0.holders;
                lemma_key_idx(holder_keys(holders1), vault_account);
                assert(holder_keys(holders1)[s.holders.len() as int] == vault_account);
            },
        }
    }
}

/// Initializing an access record twice with identical arguments is
/// idempotent: the second call succeeds without changing anything, and a
/// record created by the first call holds a zero owed amount, before and
/// after the second call.
pub proof fn lemma_initialize_access_idempotent(s: StateV, vault_access: Seq<u8>, mint: Seq<u8>, authority: Seq<u8>)
    ensures
        ({
            let first = initialize_access_tr(s, vault_access, mint, authority);
            let second = initialize_access_tr(first.0, vault_access, mint, authority);
            &&& second.0 == first.0
            &&& (first.1 is Ok ==> second.1 is Ok)
            &&& (first.1 is Err ==> second.1 == first.1)
            &&& (first.1 is Ok && access_idx(s.accesses, vault_access) is None ==>
                owed_at(first.0, vault_access) == Some(0u64)
                && owed_at(second.0, vault_access) == Some(0u64))
        }),
{
    let first = initialize_access_tr(s, vault_access, mint, authority);
    if access_address_ok(s.program_id, mint, authority, vault_access) {
        match access_idx(s.accesses, vault_access) {
            Some(_) => {},
            None => {
                let accesses1 = first.0.accesses;
                let n = s.accesses.len() as int;
                lemma_key_idx(access_keys(s.accesses), vault_access);
                lemma_key_idx(access_keys(accesses1), vault_access);
                assert(access_keys(accesses1)[n] == vault_access);
                match access_idx(accesses1, vault_access) {
                    Some(i2) => {
                        if i2 < n {
                            assert(access_keys(accesses1)[i2] == access_keys(s.accesses)[i2]);
                            assert(false);
                        }
                    },
                    None => {
                        assert(false);
                    },
                }
                assert(access_idx(accesses1, vault_access) == Some(n));
            },
        }
    }
}

/// The amounts of a deposit sequence, summed.
pub open spec fn sum_of(amounts: Seq<u64>) -> int
    decreases amounts.len(),
{
    if amounts.len() == 0 {
        0
    } else {
        amounts[0] + sum_of(amounts.drop_first())
    }
}

/// The store after a whole sequence of deposits with fixed request fields.
pub open spec fn apply_deposits(s: StateV, vault_account: Seq<u8>, vault_access: Seq<u8>, owner: Seq<u8>, depositor: Seq<u8>, source: Seq<u8>, amounts: Seq<u64>) -> StateV
    decreases amounts.len(),
{
    if amounts.len() == 0 {
        s
    } else {
        apply_deposits(
            deposit_tr(s, vault_account, vault_access, owner, depositor, source, amounts[0]).0,
            vault_account,
            vault_access,
            owner,
            depositor,
            source,
            amounts.drop_first(),
        )
    }
}

/// Every deposit of the sequence succeeds.
pub open spec fn deposits_all_ok(s: StateV, vault_account: Seq<u8>, vault_access: Seq<u8>, owner: Seq<u8>, depositor: Seq<u8>, source: Seq<u8>, amounts: Seq<u64>) -> bool
    decreases amounts.len(),
{
    if amounts.len() == 0 {
        true
    } else {
        deposit_tr(s, vault_account, vault_access, owner, depositor, source, amounts[0]).1 is Ok
            && deposits_all_ok(
            deposit_tr(s, vault_account, vault_access, owner, depositor, source, amounts[0]).0,
            vault_account,
            vault_access,
            owner,
            depositor,
            source,
            amounts.drop_first(),
        )
    }
}

/// One successful deposit from a source other than the pool itself credits
/// the access record and the pool balance by exactly the deposited amount,
/// and touches no address, owner or program id.
pub proof fn lemma_deposit_step(s: StateV, vault_account: Seq<u8>, vault_access: Seq<u8>, owner: Seq<u8>, depositor: Seq<u8>, source: Seq<u8>, amount: u64)
    ensures
        ({
            let next = deposit_tr(s, vault_account, vault_access, owner, depositor, source, amount);
            (next.1 is Ok && source != vault_account) ==> {
                &&& owed_at(s, vault_access) is Some
                &&& balance_at(s, vault_account) is Some
                &&& owed_at(s, vault_access).unwrap() + amount <= u64::MAX
                &&& balance_at(s, vault_account).unwrap() + amount <= u64::MAX
                &&& owed_at(next.0, vault_access)
                    == Some((owed_at(s, vault_access).unwrap() + amount) as u64)
                &&& balance_at(next.0, vault_account)
                    == Some((balance_at(s, vault_account).unwrap() + amount) as u64)
                &&& next.0.program_id == s.program_id
                &&& holder_keys(next.0.holders) == holder_keys(s.holders)
                &&& access_keys(next.0.accesses) == access_keys(s.accesses)
            }
        }),
{
    let next = deposit_tr(s, vault_account, vault_access, owner, depositor, source, amount);
    if next.1 is Ok && source != vault_account {
        let si = holder_idx(s.holders, source).unwrap();
        let ai = access_idx(s.accesses, vault_access).unwrap();
        let pi = holder_idx(s.holders, vault_account).unwrap();
        lemma_key_idx(holder_keys(s.holders), source);
        lemma_key_idx(holder_keys(s.holders), vault_account);
        lemma_key_idx(access_keys(s.accesses), vault_access);
        assert(holder_keys(s.holders)[si] == source);
        assert(holder_keys(s.holders)[pi] == vault_account);
        assert(si != pi);
        assert(holder_keys(next.0.holders) =~= holder_keys(s.holders));
        assert(access_keys(next.0.accesses) =~= access_keys(s.accesses));
        lemma_key_idx_same(holder_keys(next.0.holders), holder_keys(s.holders), vault_account);
        lemma_key_idx_same(access_keys(next.0.accesses), access_keys(s.accesses), vault_access);
    }
}

/// After any number of successful deposits with the same request, the owed
/// amount has grown by exactly the sum of the deposited amounts, and the
/// pool balance by the same sum.
pub proof fn lemma_deposit_sequence_sums(s: StateV, vault_account: Seq<u8>, vault_access: Seq<u8>, owner: Seq<u8>, depositor: Seq<u8>, source: Seq<u8>, amounts: Seq<u64>)
    ensures
        ({
            let last = apply_deposits(s, vault_account, vault_access, owner, depositor, source, amounts);
            (deposits_all_ok(s, vault_account, vault_access, owner, depositor, source, amounts)
                && source != vault_account && amounts.len() > 0) ==> {
                &&& owed_at(s, vault_access) is Some
                &&& balance_at(s, vault_account) is Some
                &&& owed_at(s, vault_access).unwrap() + sum_of(amounts) <= u64::MAX
                &&& balance_at(s, vault_account).unwrap() + sum_of(amounts) <= u64::MAX
                &&& owed_at(last, vault_access)
                    == Some((owed_at(s, vault_access).unwrap() + sum_of(amounts)) as u64)
                &&& balance_at(last, vault_account)
                    == Some((balance_at(s, vault_account).unwrap() + sum_of(amounts)) as u64)
            }
        }),
    decreases amounts.len(),
{
    if deposits_all_ok(s, vault_account, vault_access, owner, depositor, source, amounts)
        && source != vault_account && amounts.len() > 0 {
        lemma_deposit_step(s, vault_account, vault_access, owner, depositor, source, amounts[0]);
        let s1 = deposit_tr(s, vault_account, vault_access, owner, depositor, source, amounts[0]).0;
        let rest = amounts.drop_first();
        let last = apply_deposits(s, vault_account, vault_access, owner, depositor, source, amounts);
        assert(last == apply_deposits(s1, vault_account, vault_access, owner, depositor, source, rest));
        assert(sum_of(amounts) == amounts[0] + sum_of(rest));
        assert(deposits_all_ok(s1, vault_account, vault_access, owner, depositor, source, rest));
        if rest.len() == 0 {
            assert(last == s1);
            assert(sum_of(rest) == 0);
        } else {
            lemma_deposit_sequence_sums(
                s1, vault_account, vault_access, owner, depositor, source, rest,
            );
            assert(owed_at(s1, vault_access).unwrap()
                == owed_at(s, vault_access).unwrap() + amounts[0]);
            assert(balance_at(s1, vault_account).unwrap()
                == balance_at(s, vault_account).unwrap() + amounts[0]);
        }
    }
}

/// A supplied pool address that is not the correct derivation fails
/// `initialize_vault` with `InvalidDerivedAddress` and changes nothing; so
/// does a supplied access-record address for `initialize_vault_access`.
pub proof fn lemma_initialize_bad_address(s: StateV, supplied: Seq<u8>, mint: Seq<u8>, authority: Seq<u8>)
    ensures
        !pool_address_ok(s.program_id, mint, supplied) ==>
            initialize_vault_tr(s, supplied, mint) == (s, Err::<(), ErrorCode>(ErrorCode::InvalidDerivedAddress)),
        !access_address_ok(s.program_id, mint, authority, supplied) ==>
            initialize_access_tr(s, supplied, mint, authority) == (s, Err::<(), ErrorCode>(ErrorCode::InvalidDerivedAddress)),
{
}

/// A deposit whose supplied pool or access-record address is not the correct
/// derivation for the asset on the depositor's own balance holder fails with
/// `InvalidDerivedAddress` and changes nothing.
pub proof fn lemma_deposit_bad_address(s: StateV, vault_account: Seq<u8>, vault_access: Seq<u8>, owner: Seq<u8>, depositor: Seq<u8>, source: Seq<u8>, amount: u64)
    ensures
        ({
            match holder_idx(s.holders, source) {
                Some(si) => {
                    let asset = s.holders[si].mint;
                    (!pool_address_ok(s.program_id, asset, vault_account)
                        || !access_address_ok(s.program_id, asset, owner, vault_access)) ==>
                        deposit_tr(s, vault_account, vault_access, owner, depositor, source, amount)
                            == (s, Err::<(), ErrorCode>(ErrorCode::InvalidDerivedAddress))
                },
                None => true,
            }
        }),
{
}

/// A withdrawal whose supplied pool or access-record address is not the
/// correct derivation for the asset on the destination balance holder fails
/// with `InvalidDerivedAddress` and changes nothing.
pub proof fn lemma_withdraw_bad_address(s: StateV, vault_account: Seq<u8>, vault_access: Seq<u8>, owner: Seq<u8>, to: Seq<u8>, authority: Seq<u8>, amount: u64)
    ensures
        ({
            match holder_idx(s.holders, to) {
                Some(ti) => {
                    let asset = s.holders[ti].mint;
                    (!pool_address_ok(s.program_id, asset, vault_account)
                        || !access_address_ok(s.program_id, asset, owner, vault_access)) ==>
                        withdraw_tr(s, vault_account, vault_access, owner, to, authority, amount)
                            == (s, Err::<(), ErrorCode>(ErrorCode::InvalidDerivedAddress))
                },
                None => true,
            }
        }),
{
}

/// A requester whose identity differs from the access record's owner is
/// rejected with `NotAuthorized`, for deposits and withdrawals alike; a
/// missing record and a destination the requester does not own are rejected
/// the same way. Nothing changes.
pub proof fn lemma_wrong_identity_rejected(s: StateV, vault_account: Seq<u8>, vault_access: Seq<u8>, owner: Seq<u8>, requester: Seq<u8>, account: Seq<u8>, amount: u64)
    ensures
        ({
            match holder_idx(s.holders, account) {
                Some(si) => {
                    let asset = s.holders[si].mint;
                    (pool_address_ok(s.program_id, asset, vault_account)
                        && access_address_ok(s.program_id, asset, owner, vault_access)
                        && (match access_idx(s.accesses, vault_access) {
                            Some(ai) => s.accesses[ai].authority != requester,
                            None => true,
                        })) ==>
                        deposit_tr(s, vault_account, vault_access, owner, requester, account, amount)
                            == (s, Err::<(), ErrorCode>(ErrorCode::NotAuthorized))
                },
                None => true,
            }
        }),
        ({
            match holder_idx(s.holders, account) {
                Some(ti) => {
                    let asset = s.holders[ti].mint;
                    (pool_address_ok(s.program_id, asset, vault_account)
                        && access_address_ok(s.program_id, asset, owner, vault_access)
                        && (s.holders[ti].owner != requester
                            || (match access_idx(s.accesses, vault_access) {
                                Some(ai) => s.accesses[ai].authority != requester,
                                None => true,
                            }))) ==>
                        withdraw_tr(s, vault_account, vault_access, owner, account, requester, amount)
                            == (s, Err::<(), ErrorCode>(ErrorCode::NotAuthorized))
                },
                None => true,
            }
        }),
{
}

/// A withdrawal of more than the recorded owed amount never succeeds; when
/// every other check of the request passes, it fails with exactly
/// `InsufficientLedgerBalance`. Nothing changes either way.
pub proof fn lemma_withdraw_insufficient(s: StateV, vault_account: Seq<u8>, vault_access: Seq<u8>, owner: Seq<u8>, to: Seq<u8>, authority: Seq<u8>, amount: u64)
    ensures
        ({
            let next = withdraw_tr(s, vault_account, vault_access, owner, to, authority, amount);
            (match owed_at(s, vault_access) {
                Some(owed) => amount > owed,
                None => true,
            }) ==> next.1 is Err && next.0 == s
        }),
        ({
            let next = withdraw_tr(s, vault_account, vault_access, owner, to, authority, amount);
            match holder_idx(s.holders, to) {
                Some(ti) => {
                    let asset = s.holders[ti].mint;
                    (pool_address_ok(s.program_id, asset, vault_account)
                        && access_address_ok(s.program_id, asset, owner, vault_access)
                        && s.holders[ti].owner == authority
                        && (match access_idx(s.accesses, vault_access) {
                            Some(ai) => s.accesses[ai].authority == authority
                                && amount > s.accesses[ai].amount,
                            None => false,
                        })) ==>
                        next == (s, Err::<(), ErrorCode>(ErrorCode::InsufficientLedgerBalance))
                },
                None => true,
            }
        }),
{
}

} // verus!
