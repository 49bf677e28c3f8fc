use erc20::events::{Error, Event};
use erc20::ledger::Pallet;

#[test]
fn total_supply_should_be_zero_upon_creation() {
    let ledger = Pallet::new();
    assert_eq!(ledger.total_supply(), 0);
}

#[test]
fn should_increase_total_supply_on_mint() {
    let mut ledger = Pallet::new();
    assert_eq!(ledger.mint(1, 100), Ok(()));
    assert_eq!(ledger.mint(2, 200), Ok(()));
    assert_eq!(ledger.total_supply(), 300);
}

#[test]
fn should_decrease_total_supply_on_burn() {
    let mut ledger = Pallet::new();
    assert_eq!(ledger.mint(1, 100), Ok(()));
    assert_eq!(ledger.burn(1, 50), Ok(()));
    assert_eq!(ledger.total_supply(), 50);
}

#[test]
fn should_transfer_tokens_between_accounts() {
    let mut ledger = Pallet::new();
    assert_eq!(ledger.mint(1, 100), Ok(()));
    assert_eq!(ledger.transfer(1, 2, 50), Ok(()));
    assert_eq!(ledger.total_supply(), 100);
    assert_eq!(ledger.balances(1), 50);
    assert_eq!(ledger.balances(2), 50);
}

#[test]
fn should_transfer_from_tokens_between_accounts_after_approval() {
    let mut ledger = Pallet::new();
    let owner = 1;
    let spender = 2;
    let target = 3;
    assert_eq!(ledger.mint(owner, 100), Ok(()));
    assert_eq!(ledger.approve(owner, spender, 50), Ok(()));
    assert_eq!(ledger.allowances(owner, spender), 50);
    assert_eq!(ledger.transfer_from(spender, owner, target, 50), Ok(()));
    assert_eq!(ledger.allowances(owner, spender), 0);
    assert_eq!(ledger.total_supply(), 100);
    assert_eq!(ledger.balances(owner), 50);
    assert_eq!(ledger.balances(target), 50);
    assert_eq!(ledger.balances(spender), 0);
}

#[test]
fn should_deposit_events() {
    let mut ledger = Pallet::new();
    assert_eq!(ledger.mint(1, 100), Ok(()));
    assert_eq!(
        *ledger.events().last().unwrap(),
        Event::Mint { account: 1, amount: 100 }
    );
    assert_eq!(ledger.transfer(1, 2, 50), Ok(()));
    assert_eq!(
        *ledger.events().last().unwrap(),
        Event::Transfer { from: 1, to: 2, amount: 50 }
    );
    assert_eq!(ledger.approve(1, 2, 50), Ok(()));
    assert_eq!(
        *ledger.events().last().unwrap(),
        Event::Approval { owner: 1, spender: 2, amount: 50 }
    );
    assert_eq!(ledger.transfer_from(2, 1, 3, 40), Ok(()));
    assert_eq!(
        *ledger.events().last().unwrap(),
        Event::Transfer { from: 1, to: 3, amount: 40 }
    );
    assert_eq!(ledger.burn(1, 10), Ok(()));
    assert_eq!(
        *ledger.events().last().unwrap(),
        Event::Burn { account: 1, amount: 10 }
    );
}

#[test]
fn should_fail_transfer_insufficient_balance() {
    let mut ledger = Pallet::new();
    assert_eq!(
        ledger.transfer(1, 1, 50),
        Err(Error::ERC20InsufficientBalance)
    );
}

#[test]
fn should_fail_transfer_from_insufficient_allowance() {
    let mut ledger = Pallet::new();
    assert_eq!(ledger.mint(1, 100), Ok(()));
    assert_eq!(ledger.approve(1, 2, 10), Ok(()));
    assert_eq!(
        ledger.transfer_from(2, 1, 3, 40),
        Err(Error::ERC20InsufficientAllowance)
    );
}

#[test]
fn should_fail_transfer_from_insufficient_balance() {
    let mut ledger = Pallet::new();
    assert_eq!(ledger.mint(1, 10), Ok(()));
    assert_eq!(ledger.approve(1, 2, 20), Ok(()));
    assert_eq!(
        ledger.transfer_from(2, 1, 3, 20),
        Err(Error::ERC20InsufficientBalance)
    );
}

#[test]
fn should_fail_burn_insufficient_balance() {
    let mut ledger = Pallet::new();
    assert_eq!(ledger.mint(1, 10), Ok(()));
    assert_eq!(ledger.burn(1, 20), Err(Error::ERC20InsufficientBalance));
}
