use erc20::events::{Error, Event};
use erc20::ledger::Pallet;
use erc20::state::Op;

#[test]
fn approve_overwrites_previous_allowance() {
    let mut ledger = Pallet::new();
    assert_eq!(ledger.approve(1, 2, 10), Ok(()));
    assert_eq!(ledger.approve(1, 2, 3), Ok(()));
    assert_eq!(ledger.allowances(1, 2), 3);
}

#[test]
fn transfer_from_decrements_allowance() {
    let mut ledger = Pallet::new();
    assert_eq!(ledger.mint(1, 100), Ok(()));
    assert_eq!(ledger.approve(1, 2, 50), Ok(()));
    assert_eq!(ledger.transfer_from(2, 1, 3, 50), Ok(()));
    assert_eq!(ledger.allowances(1, 2), 0);
    assert_eq!(ledger.balances(3), 50);
    assert_eq!(ledger.balances(1), 50);
}

#[test]
fn rejected_transfer_leaves_fresh_ledger_unchanged() {
    let mut ledger = Pallet::new();
    assert_eq!(
        ledger.transfer(1, 2, 50),
        Err(Error::ERC20InsufficientBalance)
    );
    assert_eq!(ledger.balances(1), 0);
    assert_eq!(ledger.balances(2), 0);
    assert_eq!(ledger.total_supply(), 0);
    assert_eq!(ledger.events().len(), 0);
}

#[test]
fn mint_burn_round_trip_restores_state() {
    let mut ledger = Pallet::new();
    assert_eq!(ledger.mint(1, 100), Ok(()));
    assert_eq!(ledger.burn(1, 100), Ok(()));
    assert_eq!(ledger.total_supply(), 0);
    assert_eq!(ledger.balances(1), 0);
}

#[test]
fn events_are_logged_in_operation_order() {
    let mut ledger = Pallet::new();
    assert_eq!(ledger.mint(1, 100), Ok(()));
    assert_eq!(ledger.transfer(1, 2, 50), Ok(()));
    assert_eq!(ledger.approve(1, 2, 50), Ok(()));
    assert_eq!(ledger.transfer_from(2, 1, 3, 40), Ok(()));
    assert_eq!(ledger.burn(1, 10), Ok(()));
    let expected = vec![
        Event::Mint { account: 1, amount: 100 },
        Event::Transfer { from: 1, to: 2, amount: 50 },
        Event::Approval { owner: 1, spender: 2, amount: 50 },
        Event::Transfer { from: 1, to: 3, amount: 40 },
        Event::Burn { account: 1, amount: 10 },
    ];
    assert_eq!(*ledger.events(), expected);
}

#[test]
fn mint_overflow_is_rejected_and_mutates_nothing() {
    let mut ledger = Pallet::new();
    assert_eq!(ledger.mint(1, u64::MAX), Ok(()));
    assert_eq!(ledger.mint(2, 1), Err(Error::Overflow));
    assert_eq!(ledger.total_supply(), u64::MAX);
    assert_eq!(ledger.balances(1), u64::MAX);
    assert_eq!(ledger.balances(2), 0);
    assert_eq!(ledger.events().len(), 1);
}

#[test]
fn transfer_of_whole_supply_cannot_overflow_receiver() {
    let mut ledger = Pallet::new();
    assert_eq!(ledger.mint(1, u64::MAX), Ok(()));
    assert_eq!(ledger.transfer(1, 2, u64::MAX), Ok(()));
    assert_eq!(ledger.balances(1), 0);
    assert_eq!(ledger.balances(2), u64::MAX);
    assert_eq!(ledger.total_supply(), u64::MAX);
}

#[test]
fn self_transfer_is_a_permitted_no_op_with_event() {
    let mut ledger = Pallet::new();
    assert_eq!(ledger.mint(1, 100), Ok(()));
    assert_eq!(ledger.transfer(1, 1, 40), Ok(()));
    assert_eq!(ledger.balances(1), 100);
    assert_eq!(ledger.total_supply(), 100);
    assert_eq!(
        *ledger.events().last().unwrap(),
        Event::Transfer { from: 1, to: 1, amount: 40 }
    );
}

#[test]
fn zero_amount_transfer_succeeds_and_emits_event() {
    let mut ledger = Pallet::new();
    assert_eq!(ledger.transfer(1, 2, 0), Ok(()));
    assert_eq!(ledger.balances(1), 0);
    assert_eq!(ledger.balances(2), 0);
    assert_eq!(
        *ledger.events().last().unwrap(),
        Event::Transfer { from: 1, to: 2, amount: 0 }
    );
}

#[test]
fn self_delegated_transfer_keeps_balance_and_spends_allowance() {
    let mut ledger = Pallet::new();
    assert_eq!(ledger.mint(1, 100), Ok(()));
    assert_eq!(ledger.approve(1, 2, 60), Ok(()));
    assert_eq!(ledger.transfer_from(2, 1, 1, 60), Ok(()));
    assert_eq!(ledger.balances(1), 100);
    assert_eq!(ledger.allowances(1, 2), 0);
    assert_eq!(ledger.total_supply(), 100);
}

#[test]
fn rejected_operations_leave_all_maps_unchanged() {
    let mut ledger = Pallet::new();
    assert_eq!(ledger.mint(1, 30), Ok(()));
    assert_eq!(ledger.approve(1, 2, 5), Ok(()));
    assert_eq!(
        ledger.transfer_from(2, 1, 3, 10),
        Err(Error::ERC20InsufficientAllowance)
    );
    assert_eq!(
        ledger.burn(1, 31),
        Err(Error::ERC20InsufficientBalance)
    );
    assert_eq!(ledger.total_supply(), 30);
    assert_eq!(ledger.balances(1), 30);
    assert_eq!(ledger.balances(3), 0);
    assert_eq!(ledger.allowances(1, 2), 5);
    assert_eq!(ledger.events().len(), 2);
}

#[test]
fn supply_stays_sum_of_balances_through_a_mixed_sequence() {
    let mut ledger = Pallet::new();
    assert_eq!(ledger.mint(1, 70), Ok(()));
    assert_eq!(ledger.mint(2, 30), Ok(()));
    assert_eq!(ledger.transfer(1, 3, 20), Ok(()));
    assert_eq!(
        ledger.transfer(2, 1, 50),
        Err(Error::ERC20InsufficientBalance)
    );
    assert_eq!(ledger.burn(2, 10), Ok(()));
    let sum = ledger.balances(1) + ledger.balances(2) + ledger.balances(3);
    assert_eq!(ledger.total_supply(), sum);
    assert_eq!(ledger.total_supply(), 90);
}

#[test]
fn apply_dispatches_each_operation() {
    let mut ledger = Pallet::new();
    let ops = vec![
        Op::Mint { caller: 1, amount: 100 },
        Op::Transfer { caller: 1, to: 2, amount: 50 },
        Op::Approve { caller: 1, spender: 2, amount: 50 },
        Op::TransferFrom { caller: 2, from: 1, to: 3, amount: 40 },
        Op::Transfer { caller: 3, to: 2, amount: 99 },
        Op::Burn { caller: 1, amount: 10 },
    ];
    let mut results = Vec::new();
    for op in &ops {
        results.push(ledger.apply(op));
    }
    assert_eq!(
        results,
        vec![
            Ok(()),
            Ok(()),
            Ok(()),
            Ok(()),
            Err(Error::ERC20InsufficientBalance),
            Ok(()),
        ]
    );
    assert_eq!(ledger.total_supply(), 90);
    assert_eq!(ledger.balances(1), 0);
    assert_eq!(ledger.balances(2), 50);
    assert_eq!(ledger.balances(3), 40);
    assert_eq!(ledger.allowances(1, 2), 10);
    assert_eq!(ledger.events().len(), 5);
}
