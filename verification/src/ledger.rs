//! The ledger engine: account state, validation of operations and sequencing.

use std::collections::HashMap;
use vstd::prelude::*;
use vstd::std_specs::hash::spec_hash_map_iter;
use vstd::std_specs::iter::IteratorSpec;

verus! {

/// An amount of money named by an operation, in whole units.
pub type Amount = i64;

/// What an account holds, in whole units.
pub type Balance = i128;

/// An accepted operation together with the sequence number it was given.
pub type Transaction = (u32, TransactionTypes);

/// The operations a ledger can be asked to carry out.
#[derive(Debug, Clone, Copy, PartialEq, Eq)]
pub enum TransactionTypes {
    CreateAccount { id: u32, start_balance: Amount },
    Transfer { from_id: u32, to_id: u32, amount: Amount },
}

impl TransactionTypes {
    /// The amount that the operation names: what a new account starts with,
    /// or what a transfer moves.
    pub open spec fn amount(self) -> int {
        match self {
            TransactionTypes::CreateAccount { id, start_balance } => start_balance as int,
            TransactionTypes::Transfer { from_id, to_id, amount } => amount as int,
        }
    }
}

/// Why the ledger turned an operation or a query down.
#[derive(Debug, Clone, Copy, PartialEq, Eq)]
pub enum LedgerError {
    /// An account with the requested id is already there.
    DuplicateAccount,
    /// An account that the request names is not there.
    AccountNotFound,
    /// The paying account holds less than the amount to move.
    InsufficientFunds,
}

/// The ledger as a mathematical value.
pub struct LedgerState {
    /// The balance of each account, by id.
    pub balances: Map<u32, int>,
    /// The accepted operations that no cut has taken yet, oldest first.
    pub pending: Seq<Transaction>,
    /// The sequence number given to the operation accepted last; 0 before the first.
    pub sequence: nat,
}

#[derive(Debug, Clone, Copy)]
struct AccountDetails {
    balance: Balance,
}

/// The ledger engine.
pub struct Transactor {
    accounts: HashMap<u32, AccountDetails>,
    transactions: Vec<Transaction>,
    next_transaction_number: u32,
}

/// The most that any balance can be away from zero once `sequence`
/// operations have been accepted: each moves one amount of 64 bits.
pub open spec fn reach(sequence: nat) -> int {
    (sequence * 0x8000_0000_0000_0000) as int
}

impl LedgerState {
    /// The ledger before anything has happened.
    pub open spec fn initial() -> LedgerState {
        LedgerState { balances: Map::empty(), pending: Seq::empty(), sequence: 0 }
    }

    /// Whether there is an account with this id.
    pub open spec fn has_account(self, id: u32) -> bool {
        self.balances.dom().contains(id)
    }

    /// Whether the ledger accepts the operation, and why not if it does not.
    pub open spec fn check(self, op: TransactionTypes) -> Result<(), LedgerError> {
        match op {
            TransactionTypes::CreateAccount { id, start_balance } => {
                if self.has_account(id) {
                    Err(LedgerError::DuplicateAccount)
                } else {
                    Ok(())
                }
            },
            TransactionTypes::Transfer { from_id, to_id, amount } => {
                if !self.has_account(from_id) || !self.has_account(to_id) {
                    Err(LedgerError::AccountNotFound)
                } else if self.balances[from_id] < amount {
                    Err(LedgerError::InsufficientFunds)
                } else {
                    Ok(())
                }
            },
        }
    }

    /// The balances once the operation has taken effect. A transfer takes the
    /// amount from the paying account first and then adds it to the receiving
    /// one, so a transfer from an account to itself leaves it as it was.
    pub open spec fn settle(self, op: TransactionTypes) -> Map<u32, int> {
        match op {
            TransactionTypes::CreateAccount { id, start_balance } => self.balances.insert(
                id,
                start_balance as int,
            ),
            TransactionTypes::Transfer { from_id, to_id, amount } => {
                let debited = self.balances.insert(from_id, self.balances[from_id] - amount);
                debited.insert(to_id, debited[to_id] + amount)
            },
        }
    }

    /// The ledger after it has accepted the operation: the balances are
    /// settled, and the operation is logged under the next sequence number.
    pub open spec fn commit(self, op: TransactionTypes) -> LedgerState {
        LedgerState {
            balances: self.settle(op),
            pending: self.pending.push(((self.sequence + 1) as u32, op)),
            sequence: self.sequence + 1,
        }
    }

    /// The ledger after it was asked to carry out the operation: committed
    /// where the operation is accepted, unchanged where it is not.
    pub open spec fn apply(self, op: TransactionTypes) -> LedgerState {
        if self.check(op) is Ok {
            self.commit(op)
        } else {
            self
        }
    }

    /// The ledger after a cut has taken the pending operations.
    pub open spec fn drain(self) -> LedgerState {
        LedgerState { balances: self.balances, pending: Seq::empty(), sequence: self.sequence }
    }

    /// The ledger after it was asked to carry out each of `ops` in turn.
    pub open spec fn run(self, ops: Seq<TransactionTypes>) -> LedgerState
        decreases ops.len(),
    {
        if ops.len() == 0 {
            self
        } else {
            self.run(ops.drop_last()).apply(ops.last())
        }
    }

    /// Whether no account is overdrawn.
    pub open spec fn solvent(self) -> bool {
        forall|id: u32| self.has_account(id) ==> #[trigger] self.balances[id] >= 0
    }

    /// Whether the ledger has a sequence number left for the operation,
    /// should it be accepted.
    pub open spec fn has_room(self, op: TransactionTypes) -> bool {
        self.check(op) is Ok ==> self.sequence < u32::MAX
    }

    /// What holds of every ledger that was reached from the initial one: the
    /// pending operations carry consecutive sequence numbers that end with
    /// the one given last, and no balance is out of reach.
    pub open spec fn wf(self) -> bool {
        &&& self.sequence <= u32::MAX
        &&& self.pending.len() <= self.sequence
        &&& forall|i: int|
            0 <= i < self.pending.len() ==> (#[trigger] self.pending[i]).0 == self.sequence
                - self.pending.len() + 1 + i
        &&& forall|id: u32|
            self.has_account(id) ==> -reach(self.sequence) <= #[trigger] self.balances[id] <= reach(
                self.sequence,
            )
    }
}

impl View for Transactor {
    type V = LedgerState;

    closed spec fn view(&self) -> LedgerState {
        LedgerState {
            balances: Map::new(
                |id: u32| self.accounts@.contains_key(id),
                |id: u32| self.accounts@[id].balance as int,
            ),
            pending: self.transactions@,
            sequence: self.next_transaction_number as nat,
        }
    }
}

impl Default for Transactor {
    /// A ledger with no accounts and an empty log.
    fn default() -> (ledger: Transactor)
        ensures
            ledger.wf(),
            ledger@ == LedgerState::initial(),
    {
        Transactor::new()
    }
}

impl Transactor {
    /// Whether the ledger is in a state that it can have reached.
    pub open spec fn wf(&self) -> bool {
        self@.wf()
    }

    /// A ledger with no accounts and an empty log.
    pub fn new() -> (ledger: Transactor)
        ensures
            ledger.wf(),
            ledger@ == LedgerState::initial(),
    {
        let accounts = HashMap::new();
        let transactions = Vec::new();
        let ledger = Transactor { accounts, transactions, next_transaction_number: 0 };
        assert(ledger@.balances =~= Map::empty());
        ledger
    }

    /// Says whether the ledger would accept an operation, without carrying
    /// it out.
    pub fn validate(&self, transaction_type: &TransactionTypes) -> (verdict: Result<
        (),
        LedgerError,
    >)
        ensures
            verdict == self@.check(*transaction_type),
    {
        match *transaction_type {
            TransactionTypes::CreateAccount { id, start_balance } => {
                if self.accounts.contains_key(&id) {
                    Err(LedgerError::DuplicateAccount)
                } else {
                    Ok(())
                }
            },
            TransactionTypes::Transfer { from_id, to_id, amount } => {
                match self.accounts.get(&from_id) {
                    Some(source_account) => {
                        if !self.accounts.contains_key(&to_id) {
                            Err(LedgerError::AccountNotFound)
                        } else if source_account.balance >= amount as i128 {
                            Ok(())
                        } else {
                            Err(LedgerError::InsufficientFunds)
                        }
                    },
                    None => Err(LedgerError::AccountNotFound),
                }
            },
        }
    }

    /// The balance of an account, or `AccountNotFound` where there is none
    /// with this id.
    pub fn balance(&self, id: u32) -> (result: Result<Balance, LedgerError>)
        ensures
            match result {
                Ok(held) => self@.has_account(id) && held == self@.balances[id],
                Err(e) => !self@.has_account(id) && e == LedgerError::AccountNotFound,
            },
    {
        if let Some(v) = self.accounts.get(&id) {
            Ok(v.balance)
        } else {
            Err(LedgerError::AccountNotFound)
        }
    }

    /// The sequence number given to the operation that was accepted last, 0
    /// if none was.
    pub fn last_sequence_number(&self) -> (number: u32)
        ensures
            number == self@.sequence,
    {
        self.next_transaction_number
    }

    /// Carries out an operation if the ledger has a sequence number left
    /// for it, as `transact` does. Where it has none, the ledger stays as it
    /// was and `None` comes back.
    pub fn try_transact(&mut self, transaction_type: TransactionTypes) -> (result: Option<
        Result<(), LedgerError>,
    >)
        requires
            old(self).wf(),
        ensures
            final(self).wf(),
            old(self)@.has_room(transaction_type) ==> result == Some(
                old(self)@.check(transaction_type),
            ) && final(self)@ == old(self)@.apply(transaction_type),
            !old(self)@.has_room(transaction_type) ==> result.is_none() && final(self)@ == old(
                self,
            )@,
    {
        if self.next_transaction_number == u32::MAX && self.validate(&transaction_type).is_ok() {
            None
        } else {
            Some(self.transact(transaction_type))
        }
    }

    /// The pending operations, oldest first.
    pub fn pending(&self) -> (log: &Vec<Transaction>)
        ensures
            log@ == self@.pending,
    {
        &self.transactions
    }

    /// The accounts with what they hold, each once, in no particular order.
    pub fn accounts(&self) -> (listing: Vec<(u32, Balance)>)
        ensures
            listing@.len() == self@.balances.dom().len(),
            forall|i: int|
                0 <= i < listing@.len() ==> self@.has_account((#[trigger] listing@[i]).0)
                    && listing@[i].1 == self@.balances[listing@[i].0],
            forall|i: int, j: int|
                0 <= i < j < listing@.len() ==> (#[trigger] listing@[i]).0 != (
                #[trigger] listing@[j]).0,
            forall|id: u32|
                self@.has_account(id) ==> exists|i: int|
                    0 <= i < listing@.len() && (#[trigger] listing@[i]).0 == id,
    {
        let mut listing: Vec<(u32, Balance)> = Vec::new();
        for entry in it: self.accounts.iter()
            invariant
                it.seq() == spec_hash_map_iter(&self.accounts).remaining(),
                it.seq().no_duplicates(),
                listing@.len() == it.index(),
                forall|i: int|
                    0 <= i < listing@.len() ==> (#[trigger] listing@[i]).0 == *it.seq()[i].0
                        && listing@[i].1 == it.seq()[i].1.balance,
        {
            let (id, details) = entry;
            listing.push((*id, details.balance));
        }
        proof {
            let walked = spec_hash_map_iter(&self.accounts).remaining();
            assert(self@.balances.dom() =~= self.accounts@.dom());
            assert forall|i: int| 0 <= i < listing@.len() implies self@.has_account(
                (#[trigger] listing@[i]).0,
            ) && listing@[i].1 == self@.balances[listing@[i].0] by {
                assert(self.accounts@.contains_key(*walked[i].0));
            }
            assert forall|i: int, j: int| 0 <= i < j < listing@.len() implies (
            #[trigger] listing@[i]).0 != (#[trigger] listing@[j]).0 by {
                assert(self.accounts@.contains_key(*walked[i].0));
                assert(self.accounts@.contains_key(*walked[j].0));
                if listing@[i].0 == listing@[j].0 {
                    assert(walked[i] == walked[j]);
                }
            }
            assert forall|id: u32| self@.has_account(id) implies exists|i: int|
                0 <= i < listing@.len() && (#[trigger] listing@[i]).0 == id by {
                assert(self.accounts@.contains_key(id));
                let i = walked.index_of((&id, &self.accounts@[id]));
                assert(listing@[i].0 == id);
            }
        }
        listing
    }

    /// Takes the pending operations out of the ledger, oldest first, and
    /// leaves the log empty.
    pub fn cut_block(&mut self) -> (cut: Vec<Transaction>)
        requires
            old(self).wf(),
        ensures
            final(self).wf(),
            cut@ == old(self)@.pending,
            final(self)@ == old(self)@.drain(),
    {
        let mut cut: Vec<Transaction> = Vec::new();
        std::mem::swap(&mut self.transactions, &mut cut);
        proof {
            assert(self@.balances =~= old(self)@.balances);
        }
        cut
    }

    /// Carries out an operation. An accepted operation changes the balances,
    /// gets the next sequence number and joins the pending log; a rejected
    /// one leaves the ledger as it was.
    pub fn transact(&mut self, transaction_type: TransactionTypes) -> (result: Result<
        (),
        LedgerError,
    >)
        requires
            old(self).wf(),
            old(self)@.has_room(transaction_type),
        ensures
            final(self).wf(),
            result == old(self)@.check(transaction_type),
            final(self)@ == old(self)@.apply(transaction_type),
    {
        match transaction_type {
            TransactionTypes::CreateAccount { id, start_balance } => {
                match self.accounts.get(&id) {
                    None => {
                        self.accounts.insert(id, AccountDetails { balance: start_balance as i128 });
                    },
                    Some(_) => {
                        return Err(LedgerError::DuplicateAccount);
                    },
                }
            },
            TransactionTypes::Transfer { from_id, to_id, amount } => {
                match (self.accounts.get(&from_id), self.accounts.get(&to_id)) {
                    (Some(source_account), Some(destination_account)) => {
                        let source: i128 = source_account.balance;
                        let destination: i128 = destination_account.balance;
                        assert(destination == self@.balances[to_id]);
                        if source >= amount as i128 {
                            let b_source: i128 = source - amount as i128;
                            let b_dest: i128 = if to_id == from_id {
                                b_source + amount as i128
                            } else {
                                destination + amount as i128
                            };
                            self.accounts.insert(from_id, AccountDetails { balance: b_source });
                            self.accounts.insert(to_id, AccountDetails { balance: b_dest });
                        } else {
                            return Err(LedgerError::InsufficientFunds);
                        }
                    },
                    _ => {
                        return Err(LedgerError::AccountNotFound);
                    },
                }
            },
        }
        self.next_transaction_number += 1;
        self.transactions.push((self.next_transaction_number, transaction_type));
        proof {
            assert(self@.balances =~= old(self)@.settle(transaction_type));
        }
        Ok(())
    }
}

} // verus!
