use ink_env::test::default_accounts;
use ink_env::DefaultEnvironment;
use ink_env::AccountId;
use token::{Token, Transfer};

fn account(byte: u8) -> AccountId {
    AccountId::from([byte; 32])
}

#[test]
fn new_contract_works() {
    let accounts = default_accounts::<DefaultEnvironment>().expect("Cannot get accounts");
    let mut events = Vec::new();

    let mut contract = Token::new(accounts.alice, 1_000, &mut events);
    assert_eq!(contract.total_supply(), 1_000);
    assert_eq!(contract.balance_of(accounts.alice), 1_000);
    assert_eq!(contract.balance_of(accounts.bob), 0);

    assert!(contract.transfer(accounts.alice, accounts.bob, 100, &mut events));
    assert_eq!(contract.balance_of(accounts.alice), 900);
    assert_eq!(contract.balance_of(accounts.bob), 100);
}

#[test]
fn construction_gives_creator_whole_supply() {
    let (a, b) = (account(1), account(2));
    let mut events = Vec::new();
    let t = Token::new(a, 1000, &mut events);
    assert_eq!(t.total_supply(), 1000);
    assert_eq!(t.balance_of(a), 1000);
    assert_eq!(t.balance_of(b), 0);
    assert_eq!(events, vec![Transfer { from: None, to: Some(a), value: 1000 }]);
}

#[test]
fn transfer_moves_value() {
    let (a, b) = (account(1), account(2));
    let mut events = Vec::new();
    let mut t = Token::new(a, 1000, &mut events);
    assert!(t.transfer(a, b, 100, &mut events));
    assert_eq!(t.balance_of(a), 900);
    assert_eq!(t.balance_of(b), 100);
    assert_eq!(t.total_supply(), 1000);
    assert_eq!(events.len(), 2);
    assert_eq!(events[1], Transfer { from: Some(a), to: Some(b), value: 100 });
}

#[test]
fn insufficient_funds_changes_nothing() {
    let (a, b, c) = (account(1), account(2), account(3));
    let mut events = Vec::new();
    let mut t = Token::new(a, 1000, &mut events);
    assert!(t.transfer(a, b, 100, &mut events));
    assert!(!t.transfer(b, c, 5000, &mut events));
    assert_eq!(t.balance_of(a), 900);
    assert_eq!(t.balance_of(b), 100);
    assert_eq!(t.balance_of(c), 0);
    assert_eq!(t.total_supply(), 1000);
    assert_eq!(events.len(), 2);
}

#[test]
fn zero_transfer_succeeds() {
    let a = account(1);
    let mut events = Vec::new();
    let mut t = Token::new(a, 1000, &mut events);
    assert!(t.transfer(a, a, 0, &mut events));
    assert_eq!(t.balance_of(a), 1000);
    assert_eq!(events[1], Transfer { from: Some(a), to: Some(a), value: 0 });
}

#[test]
fn zero_transfer_from_empty_account_succeeds() {
    let (a, b, c) = (account(1), account(2), account(3));
    let mut events = Vec::new();
    let mut t = Token::new(a, 10, &mut events);
    assert!(t.transfer(b, c, 0, &mut events));
    assert_eq!(t.balance_of(b), 0);
    assert_eq!(t.balance_of(c), 0);
    assert_eq!(t.balance_of(a), 10);
}

#[test]
fn self_transfer_is_net_zero() {
    let (a, b) = (account(1), account(2));
    let mut events = Vec::new();
    let mut t = Token::new(a, 1000, &mut events);
    assert!(t.transfer(a, b, 100, &mut events));
    assert_eq!(t.balance_of(a), 900);
    assert!(t.transfer(a, a, 300, &mut events));
    assert_eq!(t.balance_of(a), 900);
    assert_eq!(events.len(), 3);
}

#[test]
fn self_transfer_of_whole_balance() {
    let a = account(1);
    let mut events = Vec::new();
    let mut t = Token::new(a, 1000, &mut events);
    assert!(t.transfer(a, a, 1000, &mut events));
    assert_eq!(t.balance_of(a), 1000);
}

#[test]
fn zero_supply_ledger() {
    let (a, b) = (account(1), account(2));
    let mut events = Vec::new();
    let mut t = Token::new(a, 0, &mut events);
    assert_eq!(t.total_supply(), 0);
    assert_eq!(t.balance_of(a), 0);
    assert!(!t.transfer(a, b, 1, &mut events));
    assert_eq!(events, vec![Transfer { from: None, to: Some(a), value: 0 }]);
}

#[test]
fn unknown_account_has_zero() {
    let mut events = Vec::new();
    let t = Token::new(account(1), 500, &mut events);
    assert_eq!(t.balance_of(account(9)), 0);
}

#[test]
fn largest_supply_moves_without_overflow() {
    let (a, b) = (account(1), account(2));
    let mut events = Vec::new();
    let mut t = Token::new(a, u128::MAX, &mut events);
    assert!(t.transfer(a, b, u128::MAX - 1, &mut events));
    assert!(t.transfer(a, b, 1, &mut events));
    assert_eq!(t.balance_of(a), 0);
    assert_eq!(t.balance_of(b), u128::MAX);
    assert!(!t.transfer(a, b, 1, &mut events));
}

#[test]
fn transfers_keep_supply_equal_to_sum() {
    let ids: Vec<AccountId> = (1u8..=4).map(account).collect();
    let mut events = Vec::new();
    let mut t = Token::new(ids[0], 777, &mut events);
    let moves = [(0usize, 1usize, 300u128), (1, 2, 150), (2, 2, 150), (3, 0, 1), (1, 3, 150), (0, 3, 477)];
    for &(from, to, value) in moves.iter() {
        let before = t.balance_of(ids[from]) + t.balance_of(ids[to]);
        t.transfer(ids[from], ids[to], value, &mut events);
        assert_eq!(t.balance_of(ids[from]) + t.balance_of(ids[to]), before);
        let sum: u128 = ids.iter().map(|id| t.balance_of(*id)).sum();
        assert_eq!(sum, t.total_supply());
    }
    assert_eq!(t.balance_of(ids[3]), 627);
    assert_eq!(t.balance_of(ids[2]), 150);
}
