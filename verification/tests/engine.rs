use simple_block::{Balance, LedgerError, Transaction, TransactionTypes, Transactor};

fn create(id: u32, start_balance: i64) -> TransactionTypes {
    TransactionTypes::CreateAccount { id, start_balance }
}

fn transfer(from_id: u32, to_id: u32, amount: i64) -> TransactionTypes {
    TransactionTypes::Transfer { from_id, to_id, amount }
}

fn sum(ledger: &Transactor) -> Balance {
    ledger.accounts().iter().map(|account| account.1).sum()
}

#[test]
fn a_new_ledger_is_empty() {
    let ledger = Transactor::new();
    assert!(ledger.accounts().is_empty());
    assert!(ledger.pending().is_empty());
    assert_eq!(ledger.last_sequence_number(), 0);
    assert_eq!(ledger.balance(0), Err(LedgerError::AccountNotFound));
}

#[test]
fn the_default_ledger_is_the_new_ledger() {
    let ledger = Transactor::default();
    assert!(ledger.accounts().is_empty());
    assert!(ledger.pending().is_empty());
    assert_eq!(ledger.last_sequence_number(), 0);
}

#[test]
fn two_transfers_move_the_amounts_and_are_logged_in_order() {
    let mut ledger = Transactor::new();
    assert_eq!(ledger.transact(create(0, 500)), Ok(()));
    assert_eq!(ledger.transact(create(1, 50)), Ok(()));
    assert_eq!(ledger.transact(transfer(0, 1, 10)), Ok(()));
    assert_eq!(ledger.transact(transfer(0, 1, 10)), Ok(()));

    assert_eq!(ledger.balance(0), Ok(480));
    assert_eq!(ledger.balance(1), Ok(70));
    let expected: Vec<Transaction> = vec![
        (1, create(0, 500)),
        (2, create(1, 50)),
        (3, transfer(0, 1, 10)),
        (4, transfer(0, 1, 10)),
    ];
    assert_eq!(ledger.pending(), &expected);
    assert_eq!(ledger.last_sequence_number(), 4);
}

#[test]
fn a_transfer_of_more_than_is_held_fails_and_changes_nothing() {
    let mut ledger = Transactor::new();
    assert_eq!(ledger.transact(create(0, 5)), Ok(()));
    assert_eq!(ledger.transact(create(1, 500)), Ok(()));

    assert_eq!(ledger.transact(transfer(0, 1, 50)), Err(LedgerError::InsufficientFunds));

    assert_eq!(ledger.balance(0), Ok(5));
    assert_eq!(ledger.balance(1), Ok(500));
    assert_eq!(ledger.pending().len(), 2);
    assert_eq!(ledger.last_sequence_number(), 2);
}

#[test]
fn a_transfer_between_accounts_that_are_not_there_fails_and_is_not_logged() {
    let mut ledger = Transactor::new();
    assert_eq!(ledger.transact(transfer(3, 4, 1)), Err(LedgerError::AccountNotFound));
    assert!(ledger.pending().is_empty());
    assert_eq!(ledger.last_sequence_number(), 0);
    assert!(ledger.accounts().is_empty());
}

#[test]
fn a_transfer_needs_both_accounts() {
    let mut ledger = Transactor::new();
    assert_eq!(ledger.transact(create(0, 100)), Ok(()));
    assert_eq!(ledger.transact(transfer(0, 1, 10)), Err(LedgerError::AccountNotFound));
    assert_eq!(ledger.transact(transfer(1, 0, 10)), Err(LedgerError::AccountNotFound));
    // A missing account is reported before a missing amount.
    assert_eq!(ledger.transact(transfer(0, 1, 1000)), Err(LedgerError::AccountNotFound));
    assert_eq!(ledger.balance(0), Ok(100));
    assert_eq!(ledger.pending().len(), 1);
}

#[test]
fn a_transfer_of_all_that_is_held_leaves_zero() {
    let mut ledger = Transactor::new();
    assert_eq!(ledger.transact(create(0, 50)), Ok(()));
    assert_eq!(ledger.transact(create(1, 0)), Ok(()));
    assert_eq!(ledger.transact(transfer(0, 1, 50)), Ok(()));
    assert_eq!(ledger.balance(0), Ok(0));
    assert_eq!(ledger.balance(1), Ok(50));
    assert_eq!(ledger.transact(transfer(0, 1, 1)), Err(LedgerError::InsufficientFunds));
}

#[test]
fn a_transfer_to_the_paying_account_leaves_it_as_it_was_and_is_logged() {
    let mut ledger = Transactor::new();
    assert_eq!(ledger.transact(create(7, 120)), Ok(()));
    assert_eq!(ledger.transact(transfer(7, 7, 100)), Ok(()));
    assert_eq!(ledger.balance(7), Ok(120));
    assert_eq!(ledger.transact(transfer(7, 7, 121)), Err(LedgerError::InsufficientFunds));
    assert_eq!(ledger.pending(), &vec![(1, create(7, 120)), (2, transfer(7, 7, 100))]);
}

#[test]
fn a_transfer_of_zero_is_accepted() {
    let mut ledger = Transactor::new();
    assert_eq!(ledger.transact(create(0, 0)), Ok(()));
    assert_eq!(ledger.transact(create(1, 0)), Ok(()));
    assert_eq!(ledger.transact(transfer(0, 1, 0)), Ok(()));
    assert_eq!(ledger.balance(0), Ok(0));
    assert_eq!(ledger.balance(1), Ok(0));
    assert_eq!(ledger.last_sequence_number(), 3);
}

#[test]
fn negative_amounts_are_not_turned_down() {
    let mut ledger = Transactor::new();
    assert_eq!(ledger.transact(create(0, -5)), Ok(()));
    assert_eq!(ledger.balance(0), Ok(-5));
    assert_eq!(ledger.transact(create(1, 10)), Ok(()));
    // Moving -3 from 1 to 0 takes 3 from account 0.
    assert_eq!(ledger.transact(transfer(1, 0, -3)), Ok(()));
    assert_eq!(ledger.balance(1), Ok(13));
    assert_eq!(ledger.balance(0), Ok(-8));
}

#[test]
fn balances_can_grow_past_sixty_four_bits() {
    let mut ledger = Transactor::new();
    assert_eq!(ledger.transact(create(0, i64::MAX)), Ok(()));
    assert_eq!(ledger.transact(create(1, i64::MAX)), Ok(()));
    assert_eq!(ledger.transact(create(2, i64::MIN)), Ok(()));
    assert_eq!(ledger.transact(transfer(0, 1, i64::MAX)), Ok(()));
    assert_eq!(ledger.balance(1), Ok(2 * (i64::MAX as i128)));
    assert_eq!(ledger.balance(0), Ok(0));
    assert_eq!(ledger.transact(transfer(1, 2, i64::MIN)), Ok(()));
    assert_eq!(ledger.balance(1), Ok(2 * (i64::MAX as i128) - (i64::MIN as i128)));
    assert_eq!(ledger.balance(2), Ok(2 * (i64::MIN as i128)));
}

#[test]
fn a_second_account_under_one_id_fails_and_leaves_the_first_alone() {
    let mut ledger = Transactor::new();
    assert_eq!(ledger.transact(create(0, 500)), Ok(()));
    assert_eq!(ledger.transact(create(0, 7)), Err(LedgerError::DuplicateAccount));
    assert_eq!(ledger.balance(0), Ok(500));
    assert_eq!(ledger.accounts(), vec![(0, 500)]);
    assert_eq!(ledger.pending(), &vec![(1, create(0, 500))]);
}

#[test]
fn transfers_keep_the_sum_of_all_balances() {
    let mut ledger = Transactor::new();
    assert_eq!(ledger.transact(create(0, 500)), Ok(()));
    assert_eq!(ledger.transact(create(1, 50)), Ok(()));
    assert_eq!(ledger.transact(create(2, 0)), Ok(()));
    assert_eq!(sum(&ledger), 550);
    assert_eq!(ledger.transact(transfer(0, 1, 120)), Ok(()));
    assert_eq!(sum(&ledger), 550);
    assert_eq!(ledger.transact(transfer(1, 2, 170)), Ok(()));
    assert_eq!(sum(&ledger), 550);
    assert_eq!(ledger.transact(transfer(2, 2, 170)), Ok(()));
    assert_eq!(sum(&ledger), 550);
    assert_eq!(ledger.transact(transfer(0, 2, 381)), Err(LedgerError::InsufficientFunds));
    assert_eq!(sum(&ledger), 550);
    assert_eq!(ledger.transact(transfer(0, 9, 1)), Err(LedgerError::AccountNotFound));
    assert_eq!(sum(&ledger), 550);
    assert_eq!(ledger.balance(0), Ok(380));
    assert_eq!(ledger.balance(1), Ok(0));
    assert_eq!(ledger.balance(2), Ok(170));
}

#[test]
fn no_balance_is_negative_after_operations_with_amounts_that_are_not() {
    let mut ledger = Transactor::new();
    let ops = [
        create(0, 30),
        create(1, 0),
        transfer(0, 1, 30),
        transfer(0, 1, 1),
        transfer(1, 0, 29),
        transfer(1, 1, 1),
        transfer(1, 0, 2),
        create(2, 9),
        transfer(2, 0, 9),
    ];
    for op in ops {
        let _ = ledger.transact(op);
        for (_, held) in ledger.accounts() {
            assert!(held >= 0);
        }
    }
    assert_eq!(ledger.balance(0), Ok(38));
    assert_eq!(ledger.balance(1), Ok(1));
    assert_eq!(ledger.balance(2), Ok(0));
}

#[test]
fn rejected_operations_use_no_sequence_number() {
    let mut ledger = Transactor::new();
    assert_eq!(ledger.transact(create(0, 10)), Ok(()));
    assert_eq!(ledger.transact(create(0, 10)), Err(LedgerError::DuplicateAccount));
    assert_eq!(ledger.transact(transfer(0, 1, 1)), Err(LedgerError::AccountNotFound));
    assert_eq!(ledger.transact(create(1, 0)), Ok(()));
    assert_eq!(ledger.transact(transfer(0, 1, 11)), Err(LedgerError::InsufficientFunds));
    assert_eq!(ledger.transact(transfer(0, 1, 10)), Ok(()));
    let numbers: Vec<u32> = ledger.pending().iter().map(|entry| entry.0).collect();
    assert_eq!(numbers, vec![1, 2, 3]);
    assert_eq!(ledger.last_sequence_number(), 3);
}

#[test]
fn a_cut_takes_all_that_is_pending_and_the_next_takes_nothing() {
    let mut ledger = Transactor::new();
    assert_eq!(ledger.transact(create(0, 10)), Ok(()));
    assert_eq!(ledger.transact(create(1, 10)), Ok(()));
    let first = ledger.cut_block();
    assert_eq!(first, vec![(1, create(0, 10)), (2, create(1, 10))]);
    assert!(ledger.pending().is_empty());
    let second = ledger.cut_block();
    assert!(second.is_empty());
    // A rejected operation in between changes nothing about that.
    assert_eq!(ledger.transact(create(1, 10)), Err(LedgerError::DuplicateAccount));
    assert!(ledger.cut_block().is_empty());
    // A cut touches neither the balances nor the numbering.
    assert_eq!(ledger.balance(0), Ok(10));
    assert_eq!(ledger.last_sequence_number(), 2);
}

#[test]
fn cuts_follow_one_another_without_a_gap() {
    let mut ledger = Transactor::new();
    assert_eq!(ledger.transact(create(0, 10)), Ok(()));
    assert_eq!(ledger.transact(create(1, 10)), Ok(()));
    assert_eq!(ledger.cut_block().last().map(|entry| entry.0), Some(2));
    assert_eq!(ledger.transact(transfer(0, 1, 4)), Ok(()));
    assert_eq!(ledger.transact(transfer(0, 1, 7)), Err(LedgerError::InsufficientFunds));
    assert_eq!(ledger.transact(transfer(1, 0, 14)), Ok(()));
    assert_eq!(ledger.cut_block(), vec![(3, transfer(0, 1, 4)), (4, transfer(1, 0, 14))]);
}

#[test]
fn validation_says_what_transact_would_say_and_changes_nothing() {
    let mut ledger = Transactor::new();
    assert_eq!(ledger.validate(&create(0, 5)), Ok(()));
    assert_eq!(ledger.transact(create(0, 5)), Ok(()));
    assert_eq!(ledger.validate(&create(0, 5)), Err(LedgerError::DuplicateAccount));
    assert_eq!(ledger.validate(&transfer(0, 1, 1)), Err(LedgerError::AccountNotFound));
    assert_eq!(ledger.validate(&transfer(1, 0, 1)), Err(LedgerError::AccountNotFound));
    assert_eq!(ledger.validate(&transfer(0, 0, 6)), Err(LedgerError::InsufficientFunds));
    assert_eq!(ledger.validate(&transfer(0, 0, 5)), Ok(()));
    assert_eq!(ledger.balance(0), Ok(5));
    assert_eq!(ledger.pending().len(), 1);
}

#[test]
fn try_transact_carries_out_what_there_is_room_for() {
    let mut ledger = Transactor::new();
    assert_eq!(ledger.try_transact(create(0, 5)), Some(Ok(())));
    assert_eq!(ledger.try_transact(create(0, 5)), Some(Err(LedgerError::DuplicateAccount)));
    assert_eq!(ledger.try_transact(transfer(0, 0, 9)), Some(Err(LedgerError::InsufficientFunds)));
    assert_eq!(ledger.balance(0), Ok(5));
    assert_eq!(ledger.pending(), &vec![(1, create(0, 5))]);
}

#[test]
fn the_listing_holds_each_account_once() {
    let mut ledger = Transactor::new();
    for id in [5u32, 3, 9, 0] {
        assert_eq!(ledger.transact(create(id, 10 * id as i64)), Ok(()));
    }
    assert_eq!(ledger.transact(transfer(9, 0, 40)), Ok(()));
    let mut listing = ledger.accounts();
    listing.sort();
    assert_eq!(listing, vec![(0, 40), (3, 30), (5, 50), (9, 50)]);
}
