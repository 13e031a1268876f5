use lottery::contract::LotteryContract;
use lottery::token::TokenLedger;
use lottery::types::{Auth, DataKey, Identifier, LotteryError, Signature, TokenError};

const TOKEN: [u8; 32] = [7u8; 32];

fn vault_id() -> Identifier {
    Identifier::Contract(1)
}

fn user(n: u64) -> Identifier {
    Identifier::Account(n)
}

fn invoker_auth() -> Auth {
    Auth { sig: Signature::Invoker, nonce: 0 }
}

/// A ledger in which each of `users` holds 1000, and a lottery with `admin` as admin.
fn setup(admin: Identifier, users: &[Identifier], num_winners: u32, price: u64) -> (LotteryContract, TokenLedger) {
    let mut ledger = TokenLedger::new(TOKEN);
    for u in users {
        ledger.mint(*u, 1000).unwrap();
    }
    let mut lottery = LotteryContract::new(vault_id());
    lottery.initialize(admin, TOKEN, num_winners, price).unwrap();
    (lottery, ledger)
}

fn buy(lottery: &mut LotteryContract, ledger: &mut TokenLedger, buyer: Identifier, amount: u64) {
    ledger.approve(buyer, vault_id(), amount);
    lottery.buy_ticket(ledger, buyer).unwrap();
}

#[test]
fn test() {
    let user1_id = user(1);
    let user2_id = user(2);
    let (mut lottery_vault, mut usdc_token) = setup(user1_id, &[user1_id, user2_id], 1, 5);
    let lottery_vault_id = vault_id();

    let price = lottery_vault.get_price().unwrap();
    assert_eq!(price, 5);

    usdc_token.approve(user1_id, lottery_vault_id, 5);
    lottery_vault.buy_ticket(&mut usdc_token, user1_id).unwrap();

    assert_eq!(usdc_token.balance(user1_id), 995);
    assert_eq!(usdc_token.balance(lottery_vault_id), 5);

    lottery_vault.run(&mut usdc_token, user1_id, &invoker_auth()).unwrap();
    assert_eq!(usdc_token.balance(lottery_vault_id), 0);
    assert_eq!(usdc_token.balance(user1_id), 1000)
}

#[test]
fn test_sequence() {
    let users: Vec<Identifier> = (1..=9).map(user).collect();
    let (mut lottery_vault, mut usdc_token) = setup(users[0], &users, 2, 5);

    let price = lottery_vault.get_price().unwrap();
    assert_eq!(price, 5);

    for u in &users {
        buy(&mut lottery_vault, &mut usdc_token, *u, 5);
    }

    lottery_vault.run(&mut usdc_token, users[0], &invoker_auth()).unwrap();

    for u in &users {
        println!("{:?}: {}", u, usdc_token.balance(*u));
    }
}

#[test]
fn initialize_twice_fails_and_keeps_first_config() {
    let mut lottery = LotteryContract::new(vault_id());
    assert!(!lottery.has(&DataKey::Admin));
    assert_eq!(lottery.initialize(user(1), TOKEN, 3, 10), Ok(()));
    assert!(lottery.has(&DataKey::Admin));
    assert!(lottery.has(&DataKey::Ticket));
    assert_eq!(
        lottery.initialize(user(2), [9u8; 32], 5, 20),
        Err(LotteryError::AlreadyInitialized)
    );
    let c = lottery.config().unwrap();
    assert_eq!(c.admin, user(1));
    assert_eq!(c.token_id, TOKEN);
    assert_eq!(c.num_winners, 3);
    assert_eq!(c.ticket_price, 10);
    assert_eq!(lottery.get_price(), Ok(10));
}

#[test]
fn uninitialized_operations_fail() {
    let mut lottery = LotteryContract::new(vault_id());
    let mut ledger = TokenLedger::new(TOKEN);
    assert_eq!(lottery.get_price(), Err(LotteryError::NotInitialized));
    assert_eq!(lottery.nonce(), Err(LotteryError::NotInitialized));
    assert_eq!(lottery.buy_ticket(&mut ledger, user(1)), Err(LotteryError::NotInitialized));
    assert_eq!(
        lottery.run(&mut ledger, user(1), &invoker_auth()),
        Err(LotteryError::NotInitialized)
    );
}

#[test]
fn signed_run_consumes_nonce_in_sequence() {
    let admin = user(1);
    let (mut lottery, mut ledger) = setup(admin, &[admin, user(2)], 1, 5);
    buy(&mut lottery, &mut ledger, user(2), 5);
    assert_eq!(lottery.nonce(), Ok(0));
    assert!(!lottery.has(&DataKey::Nonce(admin)));

    let signed = |nonce: u64| Auth { sig: Signature::Signed(admin), nonce };
    lottery.run(&mut ledger, user(9), &signed(0)).unwrap();
    assert_eq!(lottery.nonce(), Ok(1));
    assert!(lottery.has(&DataKey::Nonce(admin)));

    assert_eq!(lottery.run(&mut ledger, user(9), &signed(0)), Err(LotteryError::IncorrectNonce));
    assert_eq!(lottery.run(&mut ledger, user(9), &signed(2)), Err(LotteryError::IncorrectNonce));
    assert_eq!(lottery.nonce(), Ok(1));

    lottery.run(&mut ledger, user(9), &signed(1)).unwrap();
    assert_eq!(lottery.nonce(), Ok(2));
}

#[test]
fn invoker_run_leaves_nonces_and_rejects_nonzero() {
    let admin = user(1);
    let (mut lottery, mut ledger) = setup(admin, &[admin], 1, 5);
    buy(&mut lottery, &mut ledger, admin, 5);
    assert_eq!(
        lottery.run(&mut ledger, admin, &Auth { sig: Signature::Invoker, nonce: 1 }),
        Err(LotteryError::InvalidInvokerNonce)
    );
    assert_eq!(ledger.balance(vault_id()), 5);
    lottery.run(&mut ledger, admin, &invoker_auth()).unwrap();
    assert_eq!(lottery.nonce(), Ok(0));
    assert_eq!(lottery.nonce_of(admin), 0);
    assert!(!lottery.has(&DataKey::Nonce(admin)));
}

#[test]
fn verify_and_consume_nonce_directly() {
    let admin = user(1);
    let (mut lottery, _) = setup(admin, &[], 1, 5);
    let auth = Auth { sig: Signature::Signed(user(4)), nonce: 0 };
    assert_eq!(lottery.verify_and_consume_nonce(&auth), Ok(()));
    assert_eq!(lottery.nonce_of(user(4)), 1);
    assert_eq!(lottery.verify_and_consume_nonce(&auth), Err(LotteryError::IncorrectNonce));
    assert_eq!(
        lottery.verify_and_consume_nonce(&Auth { sig: Signature::Invoker, nonce: 3 }),
        Err(LotteryError::InvalidInvokerNonce)
    );
    assert_eq!(lottery.verify_and_consume_nonce(&invoker_auth()), Ok(()));
    assert_eq!(lottery.nonce_of(admin), 0);
}

#[test]
fn run_by_other_principal_is_not_authorized() {
    let admin = user(1);
    let (mut lottery, mut ledger) = setup(admin, &[admin, user(2)], 1, 5);
    buy(&mut lottery, &mut ledger, user(2), 5);
    assert_eq!(
        lottery.run(&mut ledger, user(2), &invoker_auth()),
        Err(LotteryError::NotAuthorized)
    );
    assert_eq!(
        lottery.run(&mut ledger, admin, &Auth { sig: Signature::Signed(user(2)), nonce: 0 }),
        Err(LotteryError::NotAuthorized)
    );
    assert_eq!(lottery_check_admin(&lottery, admin), Ok(admin));
    assert_eq!(ledger.balance(vault_id()), 5);
}

fn lottery_check_admin(lottery: &LotteryContract, invoker: Identifier) -> Result<Identifier, LotteryError> {
    lottery::contract::check_admin(lottery, invoker, &Signature::Invoker)
}

#[test]
fn buy_ticket_moves_price_and_appends_buyer() {
    let (mut lottery, mut ledger) = setup(user(1), &[user(1), user(2)], 1, 5);
    assert!(!lottery.has(&DataKey::Candidates));
    buy(&mut lottery, &mut ledger, user(2), 5);
    buy(&mut lottery, &mut ledger, user(1), 5);
    ledger.approve(user(2), vault_id(), 10);
    lottery.buy_ticket(&mut ledger, user(2)).unwrap();
    assert_eq!(ledger.balance(vault_id()), 15);
    assert_eq!(ledger.balance(user(2)), 990);
    assert_eq!(ledger.allowance(user(2), vault_id()), 5);
    assert_eq!(lottery.candidates(), vec![user(2), user(1), user(2)]);
    assert!(lottery.has(&DataKey::Candidates));
}

#[test]
fn buy_ticket_without_approval_or_funds_fails() {
    let (mut lottery, mut ledger) = setup(user(1), &[user(1)], 1, 5);
    assert_eq!(lottery.buy_ticket(&mut ledger, user(1)), Err(LotteryError::TransferFailed));
    ledger.approve(user(3), vault_id(), 5);
    assert_eq!(lottery.buy_ticket(&mut ledger, user(3)), Err(LotteryError::TransferFailed));
    ledger.approve(user(1), vault_id(), 4);
    assert_eq!(lottery.buy_ticket(&mut ledger, user(1)), Err(LotteryError::TransferFailed));
    assert_eq!(ledger.balance(user(1)), 1000);
    assert_eq!(ledger.balance(vault_id()), 0);
    assert!(lottery.candidates().is_empty());
}

#[test]
fn run_with_no_candidates_fails() {
    let (mut lottery, mut ledger) = setup(user(1), &[user(1)], 1, 5);
    assert_eq!(
        lottery.run(&mut ledger, user(1), &invoker_auth()),
        Err(LotteryError::NoCandidates)
    );
}

#[test]
fn run_with_zero_winners_fails() {
    let (mut lottery, mut ledger) = setup(user(1), &[user(1)], 0, 5);
    buy(&mut lottery, &mut ledger, user(1), 5);
    let signed = Auth { sig: Signature::Signed(user(1)), nonce: 0 };
    assert_eq!(lottery.run(&mut ledger, user(1), &signed), Err(LotteryError::ZeroWinners));
    assert_eq!(lottery.nonce(), Ok(0));
    assert_eq!(ledger.balance(vault_id()), 5);
}

#[test]
fn single_buyer_wins_everything_back() {
    let buyer = user(2);
    let admin = user(1);
    let (mut lottery, mut ledger) = setup(admin, &[admin, buyer], 1, 5);
    buy(&mut lottery, &mut ledger, buyer, 5);
    assert_eq!(ledger.balance(buyer), 995);
    lottery.run_with_draws(&mut ledger, admin, &invoker_auth(), &vec![0]).unwrap();
    assert_eq!(ledger.balance(buyer), 1000);
    assert_eq!(ledger.balance(admin), 1000);
    assert_eq!(ledger.balance(vault_id()), 0);
}

#[test]
fn nine_buyers_two_winners_floor_payout_and_fee() {
    let admin = user(100);
    let users: Vec<Identifier> = (1..=9).map(user).collect();
    let mut all = users.clone();
    all.push(admin);
    let (mut lottery, mut ledger) = setup(admin, &all, 2, 5);
    for u in &users {
        buy(&mut lottery, &mut ledger, *u, 5);
    }
    assert_eq!(ledger.balance(vault_id()), 45);
    lottery.run_with_draws(&mut ledger, admin, &invoker_auth(), &vec![2, 6]).unwrap();
    assert_eq!(ledger.balance(user(3)), 995 + 22);
    assert_eq!(ledger.balance(user(7)), 995 + 22);
    assert_eq!(ledger.balance(user(1)), 995);
    assert_eq!(ledger.balance(admin), 1001);
    assert_eq!(ledger.balance(vault_id()), 0);
}

#[test]
fn nine_buyers_two_random_winners_empty_the_vault() {
    let admin = user(100);
    let users: Vec<Identifier> = (1..=9).map(user).collect();
    let mut all = users.clone();
    all.push(admin);
    let (mut lottery, mut ledger) = setup(admin, &all, 2, 5);
    for u in &users {
        buy(&mut lottery, &mut ledger, *u, 5);
    }
    lottery.run(&mut ledger, admin, &invoker_auth()).unwrap();
    assert_eq!(ledger.balance(vault_id()), 0);
    assert_eq!(ledger.balance(admin), 1001);
    let total: u64 = users.iter().map(|u| ledger.balance(*u)).sum();
    assert_eq!(total, 9 * 995 + 44);
}

#[test]
fn candidate_drawn_twice_is_paid_twice() {
    let admin = user(100);
    let (mut lottery, mut ledger) = setup(admin, &[user(1), user(2), admin], 2, 7);
    buy(&mut lottery, &mut ledger, user(1), 7);
    buy(&mut lottery, &mut ledger, user(2), 7);
    lottery.run_with_draws(&mut ledger, admin, &invoker_auth(), &vec![1, 1]).unwrap();
    assert_eq!(ledger.balance(user(2)), 993 + 14);
    assert_eq!(ledger.balance(user(1)), 993);
    assert_eq!(ledger.balance(admin), 1000);
    assert_eq!(ledger.balance(vault_id()), 0);
}

#[test]
fn three_winners_leave_remainder_as_fee() {
    let admin = user(100);
    let (mut lottery, mut ledger) = setup(admin, &[user(1), user(2), admin], 3, 5);
    buy(&mut lottery, &mut ledger, user(1), 5);
    buy(&mut lottery, &mut ledger, user(2), 5);
    ledger.mint(vault_id(), 1).unwrap();
    // custody 11: each of three draws pays 3, the fee is 2
    lottery.run_with_draws(&mut ledger, admin, &invoker_auth(), &vec![0, 1, 0]).unwrap();
    assert_eq!(ledger.balance(user(1)), 995 + 6);
    assert_eq!(ledger.balance(user(2)), 995 + 3);
    assert_eq!(ledger.balance(admin), 1002);
    assert_eq!(ledger.balance(vault_id()), 0);
}

#[test]
fn payout_overflow_fails_with_transfer_failed() {
    let admin = user(100);
    let (mut lottery, mut ledger) = setup(admin, &[user(1)], 1, 5);
    buy(&mut lottery, &mut ledger, user(1), 5);
    ledger.mint(user(1), u64::MAX - 995).unwrap();
    let signed = Auth { sig: Signature::Signed(admin), nonce: 0 };
    assert_eq!(
        lottery.run_with_draws(&mut ledger, admin, &signed, &vec![0]),
        Err(LotteryError::TransferFailed)
    );
    assert_eq!(lottery.nonce(), Ok(1));
    assert_eq!(ledger.balance(vault_id()), 5);
}

#[test]
fn ledger_movements_and_errors() {
    let mut ledger = TokenLedger::new(TOKEN);
    assert_eq!(ledger.balance(user(1)), 0);
    ledger.mint(user(1), 10).unwrap();
    assert_eq!(ledger.mint(user(1), u64::MAX), Err(TokenError::Overflow));
    assert_eq!(ledger.xfer(user(1), user(2), 11), Err(TokenError::InsufficientBalance));
    assert_eq!(ledger.xfer(user(1), user(2), 4), Ok(()));
    assert_eq!(ledger.balance(user(1)), 6);
    assert_eq!(ledger.balance(user(2)), 4);
    assert_eq!(ledger.xfer(user(1), user(1), 6), Ok(()));
    assert_eq!(ledger.balance(user(1)), 6);
    assert_eq!(
        ledger.xfer_from(user(3), user(1), user(3), 1),
        Err(TokenError::InsufficientAllowance)
    );
    ledger.approve(user(1), user(3), 8);
    assert_eq!(
        ledger.xfer_from(user(3), user(1), user(3), 7),
        Err(TokenError::InsufficientBalance)
    );
    assert_eq!(ledger.xfer_from(user(3), user(1), user(3), 6), Ok(()));
    assert_eq!(ledger.allowance(user(1), user(3)), 2);
    assert_eq!(ledger.balance(user(3)), 6);
    ledger.mint(user(4), u64::MAX).unwrap();
    assert_eq!(ledger.xfer(user(3), user(4), 1), Err(TokenError::Overflow));
}

#[test]
fn signature_resolves_principal() {
    assert_eq!(Signature::Invoker.identifier(user(5)), user(5));
    assert_eq!(Signature::Signed(user(6)).identifier(user(5)), user(6));
}

#[test]
fn ledger_of_another_asset_is_refused() {
    let admin = user(1);
    let (mut lottery, mut ledger) = setup(admin, &[admin], 1, 5);
    let mut other = TokenLedger::new([8u8; 32]);
    other.mint(admin, 1000).unwrap();
    other.approve(admin, vault_id(), 5);
    assert_eq!(other.id(), [8u8; 32]);
    assert_eq!(lottery.buy_ticket(&mut other, admin), Err(LotteryError::WrongAsset));
    assert!(lottery.candidates().is_empty());
    assert_eq!(other.balance(admin), 1000);
    buy(&mut lottery, &mut ledger, admin, 5);
    let signed = Auth { sig: Signature::Signed(admin), nonce: 0 };
    assert_eq!(lottery.run(&mut other, admin, &signed), Err(LotteryError::WrongAsset));
    assert_eq!(lottery.nonce(), Ok(0));
    assert_eq!(ledger.balance(vault_id()), 5);
}

#[test]
fn failed_payout_keeps_earlier_payouts_and_moves_nothing_else() {
    let admin = user(100);
    let (mut lottery, mut ledger) = setup(admin, &[user(1), user(2), admin], 2, 5);
    buy(&mut lottery, &mut ledger, user(1), 5);
    buy(&mut lottery, &mut ledger, user(2), 5);
    ledger.mint(user(2), u64::MAX - 995).unwrap();
    assert_eq!(
        lottery.run_with_draws(&mut ledger, admin, &invoker_auth(), &vec![0, 1]),
        Err(LotteryError::TransferFailed)
    );
    assert_eq!(ledger.balance(user(1)), 1000);
    assert_eq!(ledger.balance(user(2)), u64::MAX);
    assert_eq!(ledger.balance(vault_id()), 5);
    assert_eq!(ledger.balance(admin), 1000);
}
