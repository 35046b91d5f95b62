//! What holds of every ledger and of every chain cut from it, proved over
//! their models.

use crate::chain::{extended, genesis, BlockView};
use crate::ledger::{LedgerError, LedgerState, Transaction, TransactionTypes};
use vstd::prelude::*;

verus! {

/// What the account with this id holds; nothing where there is no such account.
pub open spec fn holding(balances: Map<u32, int>, id: u32) -> int {
    if balances.dom().contains(id) {
        balances[id]
    } else {
        0
    }
}

/// The sum of what the accounts with an id below `n` hold.
pub open spec fn total_below(balances: Map<u32, int>, n: nat) -> int
    decreases n,
{
    if n == 0 {
        0
    } else {
        total_below(balances, (n - 1) as nat) + holding(balances, (n - 1) as u32)
    }
}

/// The sum of all balances.
pub open spec fn total(balances: Map<u32, int>) -> int {
    total_below(balances, 0x1_0000_0000)
}

/// Setting the balance of one account changes the sum by the difference to
/// what the account held before.
pub proof fn lemma_total_below_insert(balances: Map<u32, int>, id: u32, held: int, n: nat)
    requires
        n <= 0x1_0000_0000,
    ensures
        total_below(balances.insert(id, held), n) == total_below(balances, n) + if id < n {
            held - holding(balances, id)
        } else {
            0
        },
    decreases n,
{
    if n > 0 {
        lemma_total_below_insert(balances, id, held, (n - 1) as nat);
    }
}

/// A transfer leaves the sum of all balances as it was, whether the ledger
/// accepts it or not.
pub proof fn lemma_transfer_conserves_total(s: LedgerState, from_id: u32, to_id: u32, amount: i64)
    ensures
        total(s.apply(TransactionTypes::Transfer { from_id, to_id, amount }).balances) == total(
            s.balances,
        ),
{
    let op = TransactionTypes::Transfer { from_id, to_id, amount };
    if s.check(op) is Ok {
        let debited = s.balances.insert(from_id, s.balances[from_id] - amount);
        lemma_total_below_insert(s.balances, from_id, s.balances[from_id] - amount, 0x1_0000_0000);
        lemma_total_below_insert(debited, to_id, debited[to_id] + amount, 0x1_0000_0000);
    }
}

/// A new account adds what it starts with to the sum of all balances; a
/// rejected creation adds nothing.
pub proof fn lemma_create_account_adds_to_total(s: LedgerState, id: u32, start_balance: i64)
    ensures
        total(s.apply(TransactionTypes::CreateAccount { id, start_balance }).balances) == total(
            s.balances,
        ) + if s.has_account(id) {
            0
        } else {
            start_balance as int
        },
{
    if !s.has_account(id) {
        lemma_total_below_insert(s.balances, id, start_balance as int, 0x1_0000_0000);
    }
}

/// Where no account is overdrawn and the operation names no negative
/// amount, no account is overdrawn afterwards.
pub proof fn lemma_apply_keeps_solvent(s: LedgerState, op: TransactionTypes)
    requires
        s.solvent(),
        op.amount() >= 0,
    ensures
        s.apply(op).solvent(),
{
}

/// From a ledger in which no account is overdrawn, a run of operations
/// that name no negative amount overdraws none; so from the outset no
/// balance is ever negative where no amount is.
pub proof fn lemma_run_keeps_solvent(s: LedgerState, ops: Seq<TransactionTypes>)
    requires
        s.solvent(),
        forall|i: int| 0 <= i < ops.len() ==> (#[trigger] ops[i]).amount() >= 0,
    ensures
        s.run(ops).solvent(),
        LedgerState::initial().solvent(),
    decreases ops.len(),
{
    if ops.len() > 0 {
        lemma_run_keeps_solvent(s, ops.drop_last());
        lemma_apply_keeps_solvent(s.run(ops.drop_last()), ops.last());
    }
}

/// Creating an account under an id that is taken fails with
/// `DuplicateAccount` and changes nothing, the balance of the account that
/// is there included.
pub proof fn lemma_duplicate_account_rejected(s: LedgerState, id: u32, start_balance: i64)
    requires
        s.has_account(id),
    ensures
        s.check(TransactionTypes::CreateAccount { id, start_balance }) == Err::<(), LedgerError>(
            LedgerError::DuplicateAccount,
        ),
        s.apply(TransactionTypes::CreateAccount { id, start_balance }) == s,
        s.apply(TransactionTypes::CreateAccount { id, start_balance }).balances[id]
            == s.balances[id],
{
}

/// A reachable ledger with room for the operation is reachable after it. An
/// accepted operation is logged under the number after the last one given; a
/// rejected one uses no number up.
pub proof fn lemma_apply_keeps_wf(s: LedgerState, op: TransactionTypes)
    requires
        s.wf(),
        s.has_room(op),
    ensures
        s.apply(op).wf(),
        s.check(op) is Ok ==> s.apply(op).sequence == s.sequence + 1 && s.apply(op).pending
            == s.pending.push(((s.sequence + 1) as u32, op)),
        s.check(op) is Err ==> s.apply(op) == s,
{
}

/// A run of operations only adds to the log: what was pending stays at the
/// front, and the log grows by one entry for each sequence number given out.
pub proof fn lemma_run_extends_log(s: LedgerState, ops: Seq<TransactionTypes>)
    ensures
        s.sequence <= s.run(ops).sequence <= s.sequence + ops.len(),
        s.run(ops).pending.len() == s.pending.len() + (s.run(ops).sequence - s.sequence),
        s.run(ops).pending.take(s.pending.len() as int) == s.pending,
    decreases ops.len(),
{
    if ops.len() == 0 {
        assert(s.pending.take(s.pending.len() as int) =~= s.pending);
    } else {
        let before = s.run(ops.drop_last());
        lemma_run_extends_log(s, ops.drop_last());
        assert(s.run(ops).pending.take(s.pending.len() as int) =~= before.pending.take(
            s.pending.len() as int,
        ));
    }
}

/// However many of the operations in a run the ledger rejects, each entry of
/// the log carries the number of the entry before it plus one, and the last
/// entry carries the number given last.
pub proof fn lemma_run_numbers_consecutively(s: LedgerState, ops: Seq<TransactionTypes>)
    requires
        s.wf(),
        s.sequence + ops.len() <= u32::MAX,
    ensures
        s.run(ops).wf(),
        forall|i: int|
            0 < i < s.run(ops).pending.len() ==> (#[trigger] s.run(ops).pending[i]).0
                == s.run(ops).pending[i - 1].0 + 1,
        s.run(ops).pending.len() > 0 ==> s.run(ops).pending.last().0 == s.run(ops).sequence,
    decreases ops.len(),
{
    if ops.len() > 0 {
        lemma_run_numbers_consecutively(s, ops.drop_last());
        lemma_run_extends_log(s, ops.drop_last());
        lemma_apply_keeps_wf(s.run(ops.drop_last()), ops.last());
    }
}

/// From the outset the entries of the log are numbered 1, 2, 3 and so on.
pub proof fn lemma_run_from_initial_numbers_from_one(ops: Seq<TransactionTypes>)
    requires
        ops.len() <= u32::MAX,
    ensures
        forall|i: int|
            0 <= i < LedgerState::initial().run(ops).pending.len() ==> (
            #[trigger] LedgerState::initial().run(ops).pending[i]).0 == i + 1,
{
    lemma_run_numbers_consecutively(LedgerState::initial(), ops);
    lemma_run_extends_log(LedgerState::initial(), ops);
}

/// A cut takes everything, so a cut right after a cut takes nothing, and
/// neither does a cut after a run in which no operation was accepted.
pub proof fn lemma_second_drain_is_empty(s: LedgerState, ops: Seq<TransactionTypes>)
    requires
        s.drain().run(ops).sequence == s.sequence,
    ensures
        s.drain().pending == Seq::<Transaction>::empty(),
        s.drain().run(ops).pending == Seq::<Transaction>::empty(),
{
    lemma_run_extends_log(s.drain(), ops);
    assert(s.drain().run(ops).pending =~= Seq::<Transaction>::empty());
}

/// What is accepted after a cut is numbered on from where the cut left off:
/// the next cut starts with the number after the last that this one took.
pub proof fn lemma_cuts_are_contiguous(s: LedgerState, ops: Seq<TransactionTypes>)
    requires
        s.wf(),
        s.sequence + ops.len() <= u32::MAX,
    ensures
        forall|i: int|
            0 <= i < s.drain().run(ops).pending.len() ==> (#[trigger] s.drain().run(
                ops,
            ).pending[i]).0 == s.sequence + 1 + i,
{
    lemma_run_numbers_consecutively(s.drain(), ops);
    lemma_run_extends_log(s.drain(), ops);
}

/// All operations that the blocks hold, in the order of the chain.
pub open spec fn entries(blocks: Seq<BlockView>) -> Seq<Transaction>
    decreases blocks.len(),
{
    if blocks.len() == 0 {
        Seq::empty()
    } else {
        entries(blocks.drop_last()) + blocks.last().transactions
    }
}

/// Whether a chain and a ledger are in step: the chain holds the operations
/// numbered 1, 2, 3 and so on, each once and none left out, up to where the
/// pending log of the ledger starts.
pub open spec fn in_step(blocks: Seq<BlockView>, s: LedgerState) -> bool {
    &&& entries(blocks).len() + s.pending.len() == s.sequence
    &&& forall|i: int| 0 <= i < entries(blocks).len() ==> (#[trigger] entries(blocks)[i]).0 == i + 1
}

/// A new chain and a new ledger are in step.
pub proof fn lemma_in_step_at_start()
    ensures
        in_step(seq![genesis()], LedgerState::initial()),
{
    assert(seq![genesis()].drop_last() =~= Seq::<BlockView>::empty());
    assert(entries(seq![genesis()].drop_last()) =~= Seq::<Transaction>::empty());
    assert(entries(seq![genesis()]) =~= Seq::<Transaction>::empty());
}

/// An operation on the ledger, accepted or not, leaves chain and ledger in
/// step.
pub proof fn lemma_apply_keeps_in_step(
    blocks: Seq<BlockView>,
    s: LedgerState,
    op: TransactionTypes,
)
    requires
        in_step(blocks, s),
    ensures
        in_step(blocks, s.apply(op)),
{
}

/// A cut that moves the pending log of the ledger into the chain leaves
/// chain and ledger in step: no entry gets into two blocks, none is skipped.
pub proof fn lemma_cut_keeps_in_step(blocks: Seq<BlockView>, s: LedgerState)
    requires
        s.wf(),
        in_step(blocks, s),
    ensures
        in_step(extended(blocks, s.pending), s.drain()),
{
    if s.pending.len() > 0 {
        let longer = extended(blocks, s.pending);
        assert(longer.drop_last() =~= blocks);
        assert(entries(longer) =~= entries(blocks) + s.pending);
    }
}

} // verus!
