//! The vault ledger store.
//!
//! The store keeps every balance-bearing account (the pooled balance holders
//! and the depositors' own accounts) keyed by address, and every access
//! record keyed by its derived access-record address. Value moves between
//! balance holders follow the semantics of the trusted transfer primitive:
//! atomic, all-or-nothing, and authorized by the source account's owner.

use vstd::prelude::*;
use crate::derivation::bytes_eq;

verus! {

/// A balance-bearing account: it holds a balance of one asset and is
/// controlled by its owner identity.
pub struct BalanceHolder {
    /// The address the holder lives at.
    pub address: Vec<u8>,
    /// The asset the balance is denominated in.
    pub mint: Vec<u8>,
    /// The identity that authorizes outgoing transfers.
    pub owner: Vec<u8>,
    /// The current balance.
    pub balance: u64,
}

/// Mathematical view of a balance holder.
#[verifier::ext_equal]
pub ghost struct HolderV {
    pub address: Seq<u8>,
    pub mint: Seq<u8>,
    pub owner: Seq<u8>,
    pub balance: u64,
}

impl View for BalanceHolder {
    type V = HolderV;

    open spec fn view(&self) -> HolderV {
        HolderV {
            address: self.address@,
            mint: self.mint@,
            owner: self.owner@,
            balance: self.balance,
        }
    }
}

/// A per-(asset, owner) ledger entry: the owner identity is set once at
/// creation; the owed amount is the only mutable field.
pub struct VaultAccess {
    /// The owner identity bound to this record.
    pub authority: Vec<u8>,
    /// The amount owed to that owner.
    pub amount: u64,
}

/// Mathematical view of an access record, together with the derived address
/// it is stored at.
#[verifier::ext_equal]
pub ghost struct AccessV {
    pub address: Seq<u8>,
    pub authority: Seq<u8>,
    pub amount: u64,
}

/// An access record stored at its derived access-record address.
pub struct AccessEntry {
    /// The derived address the record is keyed by.
    pub address: Vec<u8>,
    /// The record itself.
    pub record: VaultAccess,
}

impl View for AccessEntry {
    type V = AccessV;

    open spec fn view(&self) -> AccessV {
        AccessV {
            address: self.address@,
            authority: self.record.authority@,
            amount: self.record.amount,
        }
    }
}

/// Mathematical view of the whole vault store.
#[verifier::ext_equal]
pub ghost struct StateV {
    pub program_id: Seq<u8>,
    pub holders: Seq<HolderV>,
    pub accesses: Seq<AccessV>,
}

/// The first position whose key equals `key`, if any.
pub open spec fn key_idx(keys: Seq<Seq<u8>>, key: Seq<u8>) -> Option<int>
    decreases keys.len(),
{
    if keys.len() == 0 {
        None
    } else if keys[0] == key {
        Some(0)
    } else {
        match key_idx(keys.drop_first(), key) {
            Some(i) => Some(i + 1),
            None => None,
        }
    }
}

/// `key_idx` finds the first occurrence of the key, and finds one exactly
/// when the key occurs.
pub proof fn lemma_key_idx(keys: Seq<Seq<u8>>, key: Seq<u8>)
    ensures
        match key_idx(keys, key) {
            Some(i) => 0 <= i < keys.len() && keys[i] == key
                && (forall|j: int| 0 <= j < i ==> keys[j] != key),
            None => forall|j: int| 0 <= j < keys.len() ==> keys[j] != key,
        },
    decreases keys.len(),
{
    if keys.len() == 0 {
    } else if keys[0] == key {
    } else {
        let sub = keys.drop_first();
        lemma_key_idx(sub, key);
        assert(forall|j: int| 0 <= j < sub.len() ==> #[trigger] sub[j] == keys[j + 1]);
        match key_idx(sub, key) {
            Some(i) => {
                assert(keys[i + 1] == key);
                assert forall|j: int| 0 <= j < i + 1 implies keys[j] != key by {
                    if j > 0 {
                        assert(sub[j - 1] != key);
                    }
                }
            },
            None => {
                assert forall|j: int| 0 <= j < keys.len() implies keys[j] != key by {
                    if j > 0 {
                        assert(sub[j - 1] != key);
                    }
                }
            },
        }
    }
}

/// Equal key sequences index identically.
pub proof fn lemma_key_idx_same(keys1: Seq<Seq<u8>>, keys2: Seq<Seq<u8>>, key: Seq<u8>)
    requires
        keys1 =~= keys2,
    ensures
        key_idx(keys1, key) == key_idx(keys2, key),
{
}

/// The addresses of a sequence of balance holders, in order.
pub open spec fn holder_keys(holders: Seq<HolderV>) -> Seq<Seq<u8>> {
    holders.map_values(|h: HolderV| h.address)
}

/// The addresses of a sequence of access records, in order.
pub open spec fn access_keys(accesses: Seq<AccessV>) -> Seq<Seq<u8>> {
    accesses.map_values(|a: AccessV| a.address)
}

/// The position of the balance holder at `address`, if one exists.
pub open spec fn holder_idx(holders: Seq<HolderV>, address: Seq<u8>) -> Option<int> {
    key_idx(holder_keys(holders), address)
}

/// The position of the access record at `address`, if one exists.
pub open spec fn access_idx(accesses: Seq<AccessV>, address: Seq<u8>) -> Option<int> {
    key_idx(access_keys(accesses), address)
}

/// The balance held at `address`, if a holder exists there.
pub open spec fn balance_at(s: StateV, address: Seq<u8>) -> Option<u64> {
    match holder_idx(s.holders, address) {
        Some(i) => Some(s.holders[i].balance),
        None => None,
    }
}

/// The owed amount recorded at the access-record address, if a record exists
/// there.
pub open spec fn owed_at(s: StateV, address: Seq<u8>) -> Option<u64> {
    match access_idx(s.accesses, address) {
        Some(i) => Some(s.accesses[i].amount),
        None => None,
    }
}

/// Reasons the trusted transfer primitive rejects a move of value.
#[derive(Clone, Copy, Debug, PartialEq, Eq, Structural)]
pub enum TransferError {
    /// The source account does not exist.
    UnknownSource,
    /// The destination account does not exist.
    UnknownDestination,
    /// Source and destination hold different assets.
    AssetMismatch,
    /// The presented authority does not control the source account.
    BadAuthorization,
    /// The source balance is smaller than the amount to move.
    InsufficientSourceBalance,
    /// The destination balance would overflow.
    DestinationOverflow,
}

/// The effect of the trusted transfer primitive on the balance holders:
/// atomic and all-or-nothing. A failed transfer moves nothing; a successful
/// transfer debits the source and credits the destination by the same amount.
/// A transfer of an account onto itself moves nothing but still requires a
/// sufficient balance. Authorization is checked by the callers before the
/// move, against the source holder's owner.
pub open spec fn transfer_effect(holders: Seq<HolderV>, from: Seq<u8>, to: Seq<u8>, amount: u64) -> (Seq<HolderV>, Result<(), TransferError>) {
    match holder_idx(holders, from) {
        None => (holders, Err(TransferError::UnknownSource)),
        Some(i) => match holder_idx(holders, to) {
            None => (holders, Err(TransferError::UnknownDestination)),
            Some(j) => {
                if holders[i].mint != holders[j].mint {
                    (holders, Err(TransferError::AssetMismatch))
                } else if holders[i].balance < amount {
                    (holders, Err(TransferError::InsufficientSourceBalance))
                } else if i == j {
                    (holders, Ok(()))
                } else if holders[j].balance + amount > u64::MAX {
                    (holders, Err(TransferError::DestinationOverflow))
                } else {
                    (
                        holders
                            .update(i, HolderV { balance: (holders[i].balance - amount) as u64, ..holders[i] })
                            .update(j, HolderV { balance: (holders[j].balance + amount) as u64, ..holders[j] }),
                        Ok(()),
                    )
                }
            },
        },
    }
}

/// The persistent vault store: balance holders keyed by address, access
/// records keyed by their derived address, and the program id that every
/// address derivation is relative to.
pub struct VaultState {
    program_id: Vec<u8>,
    holders: Vec<BalanceHolder>,
    accesses: Vec<AccessEntry>,
}

impl View for VaultState {
    type V = StateV;

    closed spec fn view(&self) -> StateV {
        StateV {
            program_id: self.program_id@,
            holders: self.holders@.map_values(|h: BalanceHolder| h@),
            accesses: self.accesses@.map_values(|a: AccessEntry| a@),
        }
    }
}

impl VaultState {
    /// The program id is a 32-byte key, as the derivation demands.
    pub closed spec fn wf(&self) -> bool {
        self.program_id@.len() == 32
    }

    /// An empty store for the given program id.
    pub fn new(program_id: Vec<u8>) -> (s: VaultState)
        requires
            program_id@.len() == 32,
        ensures
            s.wf(),
            s@.program_id == program_id@,
            s@.holders == Seq::<HolderV>::empty(),
            s@.accesses == Seq::<AccessV>::empty(),
    {
        let s = VaultState { program_id, holders: Vec::new(), accesses: Vec::new() };
        proof {
            assert(s@.holders =~= Seq::<HolderV>::empty());
            assert(s@.accesses =~= Seq::<AccessV>::empty());
        }
        s
    }

    pub(crate) fn program_id_ref(&self) -> (r: &Vec<u8>)
        ensures
            r@ == self@.program_id,
            self.wf() ==> r@.len() == 32,
    {
        &self.program_id
    }

    pub(crate) fn find_holder(&self, address: &Vec<u8>) -> (r: Option<usize>)
        ensures
            match r {
                Some(i) => holder_idx(self@.holders, address@) == Some(i as int)
                    && i < self@.holders.len() && self@.holders[i as int].address == address@,
                None => holder_idx(self@.holders, address@) is None,
            },
    {
        let ghost keys = holder_keys(self@.holders);
        let mut i: usize = 0;
        while i < self.holders.len()
            invariant
                i <= self.holders@.len(),
                keys == holder_keys(self@.holders),
                keys.len() == self.holders@.len(),
                forall|j: int| 0 <= j < i ==> keys[j] != address@,
            decreases self.holders@.len() - i,
        {
            let h = &self.holders[i];
            if bytes_eq(&h.address, address) {
                proof {
                    assert(self@.holders[i as int] == self.holders@[i as int]@);
                    assert(keys[i as int] == address@);
                    lemma_key_idx(keys, address@);
                }
                return Some(i);
            }
            i = i + 1;
        }
        proof {
            lemma_key_idx(keys, address@);
        }
        None
    }

    pub(crate) fn find_access(&self, address: &Vec<u8>) -> (r: Option<usize>)
        ensures
            match r {
                Some(i) => access_idx(self@.accesses, address@) == Some(i as int)
                    && i < self@.accesses.len() && self@.accesses[i as int].address == address@,
                None => access_idx(self@.accesses, address@) is None,
            },
    {
        let ghost keys = access_keys(self@.accesses);
        let mut i: usize = 0;
        while i < self.accesses.len()
            invariant
                i <= self.accesses@.len(),
                keys == access_keys(self@.accesses),
                keys.len() == self.accesses@.len(),
                forall|j: int| 0 <= j < i ==> keys[j] != address@,
            decreases self.accesses@.len() - i,
        {
            let a = &self.accesses[i];
            if bytes_eq(&a.address, address) {
                proof {
                    assert(self@.accesses[i as int] == self.accesses@[i as int]@);
                    assert(keys[i as int] == address@);
                    lemma_key_idx(keys, address@);
                }
                return Some(i);
            }
            i = i + 1;
        }
        proof {
            lemma_key_idx(keys, address@);
        }
        None
    }

    pub(crate) fn holder_at(&self, i: usize) -> (r: &BalanceHolder)
        requires
            i < self@.holders.len(),
        ensures
            r@ == self@.holders[i as int],
    {
        &self.holders[i]
    }

    pub(crate) fn access_at(&self, i: usize) -> (r: &AccessEntry)
        requires
            i < self@.accesses.len(),
        ensures
            r@ == self@.accesses[i as int],
    {
        &self.accesses[i]
    }

    pub(crate) fn set_access_amount(&mut self, i: usize, amount: u64)
        requires
            i < old(self)@.accesses.len(),
        ensures
            final(self)@.accesses =~= old(self)@.accesses.update(
                i as int,
                AccessV { amount, ..old(self)@.accesses[i as int] },
            ),
            final(self)@.holders == old(self)@.holders,
            final(self)@.program_id == old(self)@.program_id,
            final(self).wf() == old(self).wf(),
    {
        let mut entry = self.accesses.remove(i);
        entry.record.amount = amount;
        self.accesses.insert(i, entry);
        proof {
            assert(self@.accesses =~= old(self)@.accesses.update(
                i as int,
                AccessV { amount, ..old(self)@.accesses[i as int] },
            ));
        }
    }

    pub(crate) fn set_holder_balance(&mut self, i: usize, balance: u64)
        requires
            i < old(self)@.holders.len(),
        ensures
            final(self)@.holders =~= old(self)@.holders.update(
                i as int,
                HolderV { balance, ..old(self)@.holders[i as int] },
            ),
            final(self)@.accesses == old(self)@.accesses,
            final(self)@.program_id == old(self)@.program_id,
            final(self).wf() == old(self).wf(),
    {
        let mut entry = self.holders.remove(i);
        entry.balance = balance;
        self.holders.insert(i, entry);
        proof {
            assert(self@.holders =~= old(self)@.holders.update(
                i as int,
                HolderV { balance, ..old(self)@.holders[i as int] },
            ));
        }
    }

    pub(crate) fn push_holder(&mut self, holder: BalanceHolder)
        ensures
            final(self)@.holders =~= old(self)@.holders.push(holder@),
            final(self)@.accesses == old(self)@.accesses,
            final(self)@.program_id == old(self)@.program_id,
            final(self).wf() == old(self).wf(),
    {
        let ghost h = holder@;
        self.holders.push(holder);
        proof {
            assert(self@.holders =~= old(self)@.holders.push(h));
        }
    }

    pub(crate) fn push_access(&mut self, entry: AccessEntry)
        ensures
            final(self)@.accesses =~= old(self)@.accesses.push(entry@),
            final(self)@.holders == old(self)@.holders,
            final(self)@.program_id == old(self)@.program_id,
            final(self).wf() == old(self).wf(),
    {
        let ghost e = entry@;
        self.accesses.push(entry);
        proof {
            assert(self@.accesses =~= old(self)@.accesses.push(e));
        }
    }

    /// Moves `amount` from the holder at `from` to the holder at `to`,
    /// atomically, with the exact semantics of `transfer_effect`.
    pub(crate) fn apply_transfer(&mut self, from: &Vec<u8>, to: &Vec<u8>, amount: u64) -> (r: Result<(), TransferError>)
        ensures
            final(self)@.holders == transfer_effect(old(self)@.holders, from@, to@, amount).0,
            r == transfer_effect(old(self)@.holders, from@, to@, amount).1,
            final(self)@.accesses == old(self)@.accesses,
            final(self)@.program_id == old(self)@.program_id,
            final(self).wf() == old(self).wf(),
    {
        let i = match self.find_holder(from) {
            Some(i) => i,
            None => {
                return Err(TransferError::UnknownSource);
            },
        };
        let j = match self.find_holder(to) {
            Some(j) => j,
            None => {
                return Err(TransferError::UnknownDestination);
            },
        };
        if !bytes_eq(&self.holders[i].mint, &self.holders[j].mint) {
            return Err(TransferError::AssetMismatch);
        }
        let from_balance = self.holders[i].balance;
        if from_balance < amount {
            return Err(TransferError::InsufficientSourceBalance);
        }
        if i == j {
            return Ok(());
        }
        let to_balance = self.holders[j].balance;
        if amount > u64::MAX - to_balance {
            return Err(TransferError::DestinationOverflow);
        }
        self.set_holder_balance(i, from_balance - amount);
        self.set_holder_balance(j, to_balance + amount);
        proof {
            assert(self@.holders =~= transfer_effect(old(self)@.holders, from@, to@, amount).0);
        }
        Ok(())
    }

    /// Creates a balance holder at `address` unless one already exists there.
    /// This models account creation by the surrounding platform: the vault
    /// itself only ever creates pool holders through its lifecycle operation.
    pub fn create_token_account(&mut self, address: Vec<u8>, mint: Vec<u8>, owner: Vec<u8>, balance: u64) -> (r: bool)
        ensures
            match holder_idx(old(self)@.holders, address@) {
                Some(_) => !r && final(self)@ == old(self)@,
                None => r && final(self)@ == (StateV {
                    holders: old(self)@.holders.push(HolderV { address: address@, mint: mint@, owner: owner@, balance }),
                    ..old(self)@
                }),
            },
            final(self).wf() == old(self).wf(),
    {
        let ghost h = HolderV { address: address@, mint: mint@, owner: owner@, balance };
        if self.find_holder(&address).is_some() {
            return false;
        }
        self.push_holder(BalanceHolder { address, mint, owner, balance });
        proof {
            assert(self@ =~= (StateV { holders: old(self)@.holders.push(h), ..old(self)@ }));
        }
        true
    }

    /// The balance held at `address`, if a holder exists there.
    pub fn balance_of(&self, address: &Vec<u8>) -> (r: Option<u64>)
        ensures
            r == balance_at(self@, address@),
    {
        match self.find_holder(address) {
            Some(i) => Some(self.holders[i].balance),
            None => None,
        }
    }

    /// The owed amount recorded at the access-record address, if a record
    /// exists there.
    pub fn owed_amount(&self, address: &Vec<u8>) -> (r: Option<u64>)
        ensures
            r == owed_at(self@, address@),
    {
        match self.find_access(address) {
            Some(i) => Some(self.accesses[i].record.amount),
            None => None,
        }
    }
}

} // verus!
