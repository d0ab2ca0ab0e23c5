//! The vault's lifecycle, deposit and withdrawal rules.
//!
//! Each operation validates a request against recomputed derived addresses
//! and the ledger, then either rejects it with a typed error and no state
//! change, or commits the paired balance move and ledger update atomically.
//! The exact behaviour of every operation is its transition function, a pure
//! map from the old store and the request to the new store and the result;
//! each executable operation is proved equal to its transition.

use vstd::prelude::*;
use crate::derivation::{
    access_address_ok, bytes_eq, clone_bytes, derive_access_address, derive_vault_address,
    pool_address_ok,
};
use crate::state::{
    access_idx, holder_idx, transfer_effect, AccessEntry, AccessV, BalanceHolder, HolderV, StateV,
    TransferError, VaultAccess, VaultState,
};

verus! {

/// The well-typed rejections a request can end in.
#[derive(Clone, Copy, Debug, PartialEq, Eq, Structural)]
pub enum ErrorCode {
    /// A supplied pool or access-record address does not match its required
    /// deterministic derivation.
    InvalidDerivedAddress,
    /// The requester's identity does not match the access record's owner or
    /// the destination's owner.
    NotAuthorized,
    /// A withdrawal exceeds the recorded owed amount.
    InsufficientLedgerBalance,
    /// A deposit would overflow the owed-amount counter.
    ArithmeticOverflow,
    /// The trusted transfer primitive rejected the move; its reason is
    /// surfaced unmodified.
    Transfer(TransferError),
}

/// A request to create the pooled balance holder for an asset.
pub struct InitializeVault {
    /// The supplied pool address the holder is to live at.
    pub vault_account: Vec<u8>,
    /// The asset the pool is for.
    pub mint: Vec<u8>,
}

/// A request to create the access record for an (asset, owner) pair.
pub struct InitializeAccess {
    /// The supplied access-record address.
    pub vault_access: Vec<u8>,
    /// The asset the record is for.
    pub mint: Vec<u8>,
    /// The owner identity the record is bound to.
    pub authority: Vec<u8>,
}

/// A request to move value from a depositor's own account into the pool.
pub struct Deposit {
    /// The supplied pool address.
    pub vault_account: Vec<u8>,
    /// The supplied access-record address.
    pub vault_access: Vec<u8>,
    /// The owner whose access record is to be credited.
    pub owner: Vec<u8>,
    /// The requester's authenticated identity.
    pub depositor: Vec<u8>,
    /// The depositor's own balance holder; the asset is read from it.
    pub depositor_token_account: Vec<u8>,
}

/// A request to move value from the pool back to its depositor.
pub struct Withdraw {
    /// The supplied pool address.
    pub vault_account: Vec<u8>,
    /// The supplied access-record address.
    pub vault_access: Vec<u8>,
    /// The owner whose access record is to be debited.
    pub owner: Vec<u8>,
    /// The destination balance holder; the asset is read from it.
    pub to: Vec<u8>,
    /// The requester's authenticated identity.
    pub authority: Vec<u8>,
}

/// The transition of `initialize_vault`: create the pooled balance holder at
/// the derived pool address, idempotently. The pool is its own owner: no
/// private key controls it.
pub open spec fn initialize_vault_tr(s: StateV, vault_account: Seq<u8>, mint: Seq<u8>) -> (StateV, Result<(), ErrorCode>) {
    if !pool_address_ok(s.program_id, mint, vault_account) {
        (s, Err(ErrorCode::InvalidDerivedAddress))
    } else {
        match holder_idx(s.holders, vault_account) {
            Some(_) => (s, Ok(())),
            None => (
                StateV {
                    holders: s.holders.push(
                        HolderV { address: vault_account, mint, owner: vault_account, balance: 0 },
                    ),
                    ..s
                },
                Ok(()),
            ),
        }
    }
}

/// The transition of `initialize_vault_access`: create the access record at
/// the derived access-record address with a zero owed amount, idempotently.
/// An existing record is never reset.
pub open spec fn initialize_access_tr(s: StateV, vault_access: Seq<u8>, mint: Seq<u8>, authority: Seq<u8>) -> (StateV, Result<(), ErrorCode>) {
    if !access_address_ok(s.program_id, mint, authority, vault_access) {
        (s, Err(ErrorCode::InvalidDerivedAddress))
    } else {
        match access_idx(s.accesses, vault_access) {
            Some(_) => (s, Ok(())),
            None => (
                StateV {
                    accesses: s.accesses.push(
                        AccessV { address: vault_access, authority, amount: 0 },
                    ),
                    ..s
                },
                Ok(()),
            ),
        }
    }
}

/// The transition of `deposit`: validate the supplied addresses against the
/// derivations recomputed from the asset on the depositor's own balance
/// holder, check the requester against the record's owner, rule out ledger
/// overflow before any value moves, then move the amount into the pool and
/// credit the record.
pub open spec fn deposit_tr(s: StateV, vault_account: Seq<u8>, vault_access: Seq<u8>, owner: Seq<u8>, depositor: Seq<u8>, depositor_token_account: Seq<u8>, amount: u64) -> (StateV, Result<(), ErrorCode>) {
    match holder_idx(s.holders, depositor_token_account) {
        None => (s, Err(ErrorCode::Transfer(TransferError::UnknownSource))),
        Some(si) => {
            let asset = s.holders[si].mint;
            if !pool_address_ok(s.program_id, asset, vault_account) {
                (s, Err(ErrorCode::InvalidDerivedAddress))
            } else if !access_address_ok(s.program_id, asset, owner, vault_access) {
                (s, Err(ErrorCode::InvalidDerivedAddress))
            } else {
                match access_idx(s.accesses, vault_access) {
                    None => (s, Err(ErrorCode::NotAuthorized)),
                    Some(ai) => {
                        if s.accesses[ai].authority != depositor {
                            (s, Err(ErrorCode::NotAuthorized))
                        } else if s.accesses[ai].amount + amount > u64::MAX {
                            (s, Err(ErrorCode::ArithmeticOverflow))
                        } else if s.holders[si].owner != depositor {
                            (s, Err(ErrorCode::Transfer(TransferError::BadAuthorization)))
                        } else {
                            let moved = transfer_effect(s.holders, depositor_token_account, vault_account, amount);
                            match moved.1 {
                                Err(e) => (s, Err(ErrorCode::Transfer(e))),
                                Ok(_) => (
                                    StateV {
                                        holders: moved.0,
                                        accesses: s.accesses.update(
                                            ai,
                                            AccessV {
                                                amount: (s.accesses[ai].amount + amount) as u64,
                                                ..s.accesses[ai]
                                            },
                                        ),
                                        ..s
                                    },
                                    Ok(()),
                                ),
                            }
                        }
                    },
                }
            }
        },
    }
}

/// The transition of `withdraw`: validate the supplied addresses against the
/// derivations recomputed from the asset on the destination balance holder,
/// check that the destination and the record both belong to the requester,
/// check the amount against the recorded owed amount (not the pool's raw
/// balance), then move the amount out of the pool under the pool's own
/// derived-address authority and debit the record.
pub open spec fn withdraw_tr(s: StateV, vault_account: Seq<u8>, vault_access: Seq<u8>, owner: Seq<u8>, to: Seq<u8>, authority: Seq<u8>, amount: u64) -> (StateV, Result<(), ErrorCode>) {
    match holder_idx(s.holders, to) {
        None => (s, Err(ErrorCode::Transfer(TransferError::UnknownDestination))),
        Some(ti) => {
            let asset = s.holders[ti].mint;
            if !pool_address_ok(s.program_id, asset, vault_account) {
                (s, Err(ErrorCode::InvalidDerivedAddress))
            } else if !access_address_ok(s.program_id, asset, owner, vault_access) {
                (s, Err(ErrorCode::InvalidDerivedAddress))
            } else if s.holders[ti].owner != authority {
                (s, Err(ErrorCode::NotAuthorized))
            } else {
                match access_idx(s.accesses, vault_access) {
                    None => (s, Err(ErrorCode::NotAuthorized)),
                    Some(ai) => {
                        if s.accesses[ai].authority != authority {
                            (s, Err(ErrorCode::NotAuthorized))
                        } else if amount > s.accesses[ai].amount {
                            (s, Err(ErrorCode::InsufficientLedgerBalance))
                        } else {
                            match holder_idx(s.holders, vault_account) {
                                None => (s, Err(ErrorCode::Transfer(TransferError::UnknownSource))),
                                Some(pi) => {
                                    if s.holders[pi].owner != vault_account {
                                        (s, Err(ErrorCode::Transfer(TransferError::BadAuthorization)))
                                    } else {
                                        let moved = transfer_effect(s.holders, vault_account, to, amount);
                                        match moved.1 {
                                            Err(e) => (s, Err(ErrorCode::Transfer(e))),
                                            Ok(_) => (
                                                StateV {
                                                    holders: moved.0,
                                                    accesses: s.accesses.update(
                                                        ai,
                                                        AccessV {
                                                            amount: (s.accesses[ai].amount - amount) as u64,
                                                            ..s.accesses[ai]
                                                        },
                                                    ),
                                                    ..s
                                                },
                                                Ok(()),
                                            ),
                                        }
                                    }
                                },
                            }
                        }
                    },
                }
            }
        },
    }
}

impl VaultState {
    /// Creates the pooled balance holder for the asset at the derived pool
    /// address, controlled by that same address. Re-invocation with an
    /// already-initialized pool is a no-op success.
    pub fn initialize_vault(&mut self, req: &InitializeVault) -> (r: Result<(), ErrorCode>)
        requires
            old(self).wf(),
        ensures
            final(self).wf(),
            (final(self)@, r) == initialize_vault_tr(old(self)@, req.vault_account@, req.mint@),
    {
        let derived = derive_vault_address(self.program_id_ref(), &req.mint);
        let matches = match derived {
            Some((address, _bump)) => bytes_eq(&address, &req.vault_account),
            None => false,
        };
        if !matches {
            return Err(ErrorCode::InvalidDerivedAddress);
        }
        if self.find_holder(&req.vault_account).is_some() {
            return Ok(());
        }
        self.push_holder(BalanceHolder {
            address: clone_bytes(&req.vault_account),
            mint: clone_bytes(&req.mint),
            owner: clone_bytes(&req.vault_account),
            balance: 0,
        });
        proof {
            assert(self@ =~= initialize_vault_tr(old(self)@, req.vault_account@, req.mint@).0);
        }
        Ok(())
    }

    /// Creates the access record for the (asset, owner) pair at the derived
    /// access-record address, with the owner identity set once and the owed
    /// amount starting at zero. Re-invocation is a no-op success and never
    /// resets an existing record.
    pub fn initialize_vault_access(&mut self, req: &InitializeAccess) -> (r: Result<(), ErrorCode>)
        requires
            old(self).wf(),
        ensures
            final(self).wf(),
            (final(self)@, r) == initialize_access_tr(old(self)@, req.vault_access@, req.mint@, req.authority@),
    {
        let derived = derive_access_address(self.program_id_ref(), &req.mint, &req.authority);
        let matches = match derived {
            Some((address, _bump)) => bytes_eq(&address, &req.vault_access),
            None => false,
        };
        if !matches {
            return Err(ErrorCode::InvalidDerivedAddress);
        }
        if self.find_access(&req.vault_access).is_some() {
            return Ok(());
        }
        self.push_access(AccessEntry {
            address: clone_bytes(&req.vault_access),
            record: VaultAccess { authority: clone_bytes(&req.authority), amount: 0 },
        });
        proof {
            assert(self@ =~= initialize_access_tr(old(self)@, req.vault_access@, req.mint@, req.authority@).0);
        }
        Ok(())
    }

    /// Validates a deposit request and moves `amount` from the depositor's
    /// own balance holder into the pool, crediting the access record by the
    /// same amount. Either both the move and the credit commit, or neither:
    /// overflow of the owed amount is ruled out before any value moves, and
    /// a rejected transfer leaves the ledger untouched.
    pub fn deposit(&mut self, req: &Deposit, amount: u64) -> (r: Result<(), ErrorCode>)
        requires
            old(self).wf(),
        ensures
            final(self).wf(),
            (final(self)@, r) == deposit_tr(
                old(self)@,
                req.vault_account@,
                req.vault_access@,
                req.owner@,
                req.depositor@,
                req.depositor_token_account@,
                amount,
            ),
    {
        let si = match self.find_holder(&req.depositor_token_account) {
            Some(i) => i,
            None => {
                return Err(ErrorCode::Transfer(TransferError::UnknownSource));
            },
        };
        let asset = clone_bytes(&self.holder_at(si).mint);
        let pool_ok = match derive_vault_address(self.program_id_ref(), &asset) {
            Some((address, _bump)) => bytes_eq(&address, &req.vault_account),
            None => false,
        };
        if !pool_ok {
            return Err(ErrorCode::InvalidDerivedAddress);
        }
        let access_ok = match derive_access_address(self.program_id_ref(), &asset, &req.owner) {
            Some((address, _bump)) => bytes_eq(&address, &req.vault_access),
            None => false,
        };
        if !access_ok {
            return Err(ErrorCode::InvalidDerivedAddress);
        }
        let ai = match self.find_access(&req.vault_access) {
            Some(i) => i,
            None => {
                return Err(ErrorCode::NotAuthorized);
            },
        };
        if !bytes_eq(&self.access_at(ai).record.authority, &req.depositor) {
            return Err(ErrorCode::NotAuthorized);
        }
        let owed = self.access_at(ai).record.amount;
        if amount > u64::MAX - owed {
            return Err(ErrorCode::ArithmeticOverflow);
        }
        if !bytes_eq(&self.holder_at(si).owner, &req.depositor) {
            return Err(ErrorCode::Transfer(TransferError::BadAuthorization));
        }
        match self.apply_transfer(&req.depositor_token_account, &req.vault_account, amount) {
            Err(e) => Err(ErrorCode::Transfer(e)),
            Ok(_) => {
                self.set_access_amount(ai, owed + amount);
                proof {
                    assert(self@ =~= deposit_tr(
                        old(self)@,
                        req.vault_account@,
                        req.vault_access@,
                        req.owner@,
                        req.depositor@,
                        req.depositor_token_account@,
                        amount,
                    ).0);
                }
                Ok(())
            },
        }
    }

    /// Validates a withdrawal request against the access record's owed
    /// amount and owner identity, debits the record and moves `amount` from
    /// the pool to the requester's own destination holder, authorized by the
    /// pool's derived-address authority. A rejected transfer leaves the
    /// ledger untouched.
    pub fn withdraw(&mut self, req: &Withdraw, amount: u64) -> (r: Result<(), ErrorCode>)
        requires
            old(self).wf(),
        ensures
            final(self).wf(),
            (final(self)@, r) == withdraw_tr(
                old(self)@,
                req.vault_account@,
                req.vault_access@,
                req.owner@,
                req.to@,
                req.authority@,
                amount,
            ),
    {
        let ti = match self.find_holder(&req.to) {
            Some(i) => i,
            None => {
                return Err(ErrorCode::Transfer(TransferError::UnknownDestination));
            },
        };
        let asset = clone_bytes(&self.holder_at(ti).mint);
        let pool_ok = match derive_vault_address(self.program_id_ref(), &asset) {
            Some((address, _bump)) => bytes_eq(&address, &req.vault_account),
            None => false,
        };
        if !pool_ok {
            return Err(ErrorCode::InvalidDerivedAddress);
        }
        let access_ok = match derive_access_address(self.program_id_ref(), &asset, &req.owner) {
            Some((address, _bump)) => bytes_eq(&address, &req.vault_access),
            None => false,
        };
        if !access_ok {
            return Err(ErrorCode::InvalidDerivedAddress);
        }
        if !bytes_eq(&self.holder_at(ti).owner, &req.authority) {
            return Err(ErrorCode::NotAuthorized);
        }
        let ai = match self.find_access(&req.vault_access) {
            Some(i) => i,
            None => {
                return Err(ErrorCode::NotAuthorized);
            },
        };
        if !bytes_eq(&self.access_at(ai).record.authority, &req.authority) {
            return Err(ErrorCode::NotAuthorized);
        }
        let owed = self.access_at(ai).record.amount;
        if amount > owed {
            return Err(ErrorCode::InsufficientLedgerBalance);
        }
        let pi = match self.find_holder(&req.vault_account) {
            Some(i) => i,
            None => {
                return Err(ErrorCode::Transfer(TransferError::UnknownSource));
            },
        };
        if !bytes_eq(&self.holder_at(pi).owner, &req.vault_account) {
            return Err(ErrorCode::Transfer(TransferError::BadAuthorization));
        }
        match self.apply_transfer(&req.vault_account, &req.to, amount) {
            Err(e) => Err(ErrorCode::Transfer(e)),
            Ok(_) => {
                self.set_access_amount(ai, owed - amount);
                proof {
                    assert(self@ =~= withdraw_tr(
                        old(self)@,
                        req.vault_account@,
                        req.vault_access@,
                        req.owner@,
                        req.to@,
                        req.authority@,
                        amount,
                    ).0);
                }
                Ok(())
            },
        }
    }
}

} // verus!
