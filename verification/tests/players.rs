//! The handlers of the oracle and of user accounts, and the program as a whole.

use indie_games::constants::{
    PaymentToken, Pubkey, AUTHORITY, NO_KEY, ORACLE_DISCRIMINATOR, PROGRAM_ID, SKR_MINT, SLICE_MINT,
    SOL_MINT, SYSTEM_PROGRAM_ID, TOKEN_PROGRAM_ID, USDC_MINT,
};
use indie_games::error::ProgramError;
use indie_games::helpers::{
    assert_authority, find_user_account_pda, load_oracle, usd_micro_to_base_units,
};
use indie_games::instruction::IndieGamesInstruction;
use indie_games::processor::oracle::{init_oracle, price_for, update_oracle_prices};
use indie_games::processor::payment::{process_payment, PaymentAccounts};
use indie_games::processor::user_account::{create_user_account, withdraw_rewards};
use indie_games::processor::Processor;
use indie_games::runtime::{Account, Effect, Effects, Invocation, RentFloors};
use indie_games::state::game::GameAccount;
use indie_games::state::oracle::OraclePriceState;
use indie_games::state::ranked_game::RankedGameState;
use indie_games::state::user_account::UserAccount;
use solana_program::instruction::Instruction as SolInstruction;
use solana_program::pubkey::Pubkey as SolKey;
use solana_program::system_instruction;

const TITLE: [u8; 32] = [b't'; 32];

fn sol(key: Pubkey) -> SolKey {
    SolKey::new_from_array(key)
}

fn key(n: u8) -> Pubkey {
    [n; 32]
}

fn floor(len: usize) -> u64 {
    (128 + len as u64) * 6_960
}

fn account(key: Pubkey, owner: Pubkey, lamports: u64, data: Vec<u8>) -> Account {
    let rent_floor = floor(data.len());
    Account { key, owner, lamports, data, is_signer: false, rent_floor }
}

fn plain(key: Pubkey) -> Account {
    account(key, SYSTEM_PROGRAM_ID, 1_000_000, vec![])
}

fn signer(key: Pubkey) -> Account {
    let mut a = plain(key);
    a.is_signer = true;
    a
}

fn invocation(accounts: Vec<Account>) -> Invocation {
    Invocation {
        accounts,
        rent: Ok(RentFloors {
            empty: floor(0),
            game: floor(GameAccount::MAX_SIZE),
            user: floor(UserAccount::MAX_SIZE),
            ranked_game: floor(RankedGameState::LEN),
            oracle: floor(OraclePriceState::LEN),
        }),
    }
}

fn program_key(seeds: &[&[u8]]) -> (Pubkey, u8) {
    let (k, b) = SolKey::find_program_address(seeds, &sol(PROGRAM_ID));
    (k.to_bytes(), b)
}

fn ata(wallet: Pubkey, mint: Pubkey) -> Pubkey {
    spl_associated_token_account::get_associated_token_address(&sol(wallet), &sol(mint)).to_bytes()
}

fn token_data(owner: Pubkey, mint: Pubkey, amount: u64) -> Vec<u8> {
    let mut data = vec![0u8; 165];
    data[..32].copy_from_slice(&mint);
    data[32..64].copy_from_slice(&owner);
    data[64..72].copy_from_slice(&amount.to_le_bytes());
    data[108] = 1;
    data
}

fn token_account(owner: Pubkey, mint: Pubkey, amount: u64) -> Account {
    account(ata(owner, mint), TOKEN_PROGRAM_ID, floor(165), token_data(owner, mint, amount))
}

fn oracle_account(sol_price: u64, skr: u64, slice: u64) -> Account {
    let (k, bump) = program_key(&[b"igp_oracle"]);
    let state = OraclePriceState {
        discriminator: ORACLE_DISCRIMINATOR,
        sol_price_usd_micro_per_lamport: sol_price,
        skr_price_usd_micro_per_atom: skr,
        slice_price_usd_micro_per_atom: slice,
        bump,
    };
    account(k, PROGRAM_ID, floor(33), state.serialize())
}

fn game_state(owner: Pubkey) -> GameAccount {
    GameAccount {
        is_initialized: true,
        version: 2,
        game_title: TITLE,
        owner,
        dev_fee_bps: 1_500,
        game_to_protocol_share_bps: 2_500,
        game_cost: 0,
        game_url: [b'u'; 64],
        total_users: 3,
        total_revenue_usd_micro: 0,
    }
}

fn game_account(state: &GameAccount) -> Account {
    account(game_key(), PROGRAM_ID, floor(154), state.serialize())
}

fn game_key() -> Pubkey {
    program_key(&[b"igp_game", &TITLE]).0
}

fn treasury_key() -> Pubkey {
    program_key(&[b"igp_game_protocol", &TITLE]).0
}

fn is_store(effect: &Effect, at: usize, bytes: &[u8]) -> bool {
    match effect {
        Effect::Store { account, data } => *account == at && data.as_slice() == bytes,
        _ => false,
    }
}

fn is_move(effect: &Effect, a: usize, b: usize, n: u64) -> bool {
    match effect {
        Effect::MoveLamports { from, to, lamports } => *from == a && *to == b && *lamports == n,
        _ => false,
    }
}

fn assert_call(effect: &Effect, theirs: &SolInstruction, at: &[usize], seeds: &[&[u8]]) {
    match effect {
        Effect::Invoke { instruction, accounts, signer_seeds } => {
            assert_eq!(instruction.program_id, theirs.program_id.to_bytes());
            assert_eq!(instruction.data, theirs.data);
            assert_eq!(instruction.accounts.len(), theirs.accounts.len());
            for (a, b) in instruction.accounts.iter().zip(theirs.accounts.iter()) {
                assert_eq!(a.pubkey, b.pubkey.to_bytes());
                assert_eq!(a.is_signer, b.is_signer);
                assert_eq!(a.is_writable, b.is_writable);
            }
            assert_eq!(accounts.as_slice(), at);
            assert_eq!(signer_seeds.len(), seeds.len());
            for (a, b) in signer_seeds.iter().zip(seeds.iter()) {
                assert_eq!(a.as_slice(), *b);
            }
        }
        _ => panic!("not a call"),
    }
}

// ---------------------------------------------------------------------------
// The oracle
// ---------------------------------------------------------------------------

fn init_accounts() -> Vec<Account> {
    vec![signer(AUTHORITY), plain(program_key(&[b"igp_oracle"]).0), plain(SYSTEM_PROGRAM_ID)]
}

fn init(accounts: Vec<Account>, prices: [u64; 3]) -> (Result<(), ProgramError>, Vec<Effect>) {
    let mut effects = Effects::new();
    let r = init_oracle(&invocation(accounts), prices[0], prices[1], prices[2], &mut effects);
    (r, effects.list)
}

#[test]
fn oracle_is_created() {
    let (r, e) = init(init_accounts(), [150, 2, 3]);
    assert_eq!(r, Ok(()));
    assert_eq!(e.len(), 2);
    let (k, bump) = program_key(&[b"igp_oracle"]);
    let theirs = system_instruction::create_account(&sol(AUTHORITY), &sol(k), floor(33), 33, &sol(PROGRAM_ID));
    assert_call(&e[0], &theirs, &[0, 1, 2], &[b"igp_oracle", &[bump]]);
    assert!(is_store(&e[1], 1, &oracle_account(150, 2, 3).data));
    match &e[0] {
        Effect::Invoke { instruction, .. } => {
            let mut data = vec![0, 0, 0, 0];
            data.extend_from_slice(&floor(33).to_le_bytes());
            data.extend_from_slice(&33u64.to_le_bytes());
            data.extend_from_slice(&PROGRAM_ID);
            assert_eq!(instruction.data, data);
            assert!(instruction.accounts.iter().all(|m| m.is_signer && m.is_writable));
        }
        _ => panic!("not a call"),
    }
}

#[test]
fn init_oracle_refusals() {
    let mut a = init_accounts();
    a.pop();
    assert_eq!(init(a, [1, 1, 1]).0, Err(ProgramError::NotEnoughAccountKeys));
    let mut a = init_accounts();
    a[0].key = key(1);
    assert_eq!(init(a, [1, 1, 1]).0, Err(ProgramError::InvalidAccountData));
    let mut a = init_accounts();
    a[0].is_signer = false;
    assert_eq!(init(a, [1, 1, 1]).0, Err(ProgramError::MissingRequiredSignature));
    let mut a = init_accounts();
    a[1].key = key(1);
    assert_eq!(init(a, [1, 1, 1]).0, Err(ProgramError::InvalidAccountData));
    let mut a = init_accounts();
    a[1].data = vec![0];
    assert_eq!(init(a, [1, 1, 1]).0, Err(ProgramError::AccountAlreadyInitialized));
    for prices in [[0, 1, 1], [1, 0, 1], [1, 1, 0]] {
        assert_eq!(init(init_accounts(), prices).0, Err(ProgramError::InvalidInstructionData));
    }
    let mut inv = invocation(init_accounts());
    inv.rent = Err(ProgramError::UnsupportedSysvar);
    assert_eq!(init_oracle(&inv, 1, 1, 1, &mut Effects::new()), Err(ProgramError::UnsupportedSysvar));
}

#[test]
fn updated_prices_are_read() {
    let inv = invocation(vec![signer(AUTHORITY), oracle_account(1, 2, 3)]);
    let mut effects = Effects::new();
    assert_eq!(update_oracle_prices(&inv, 4, 5, 6, &mut effects), Ok(()));
    let mut after = oracle_account(1, 2, 3);
    after.data = match &effects.list[0] {
        Effect::Store { account: 1, data } => data.clone(),
        _ => panic!("no store"),
    };
    let oracle = load_oracle(&after).unwrap();
    assert_eq!(price_for(&oracle, &PaymentToken::SOL), 4);
    assert_eq!(price_for(&oracle, &PaymentToken::SKR), 5);
    assert_eq!(price_for(&oracle, &PaymentToken::SLICE), 6);
    assert_eq!(price_for(&oracle, &PaymentToken::USDC), 1_000_000);
}

#[test]
fn update_prices_refusals() {
    let run = |accounts: Vec<Account>, prices: [u64; 3]| {
        update_oracle_prices(&invocation(accounts), prices[0], prices[1], prices[2], &mut Effects::new())
    };
    let oracle = || oracle_account(1, 2, 3);
    assert_eq!(run(vec![signer(AUTHORITY)], [1, 1, 1]), Err(ProgramError::NotEnoughAccountKeys));
    assert_eq!(run(vec![signer(key(1)), oracle()], [1, 1, 1]), Err(ProgramError::InvalidAccountData));
    assert_eq!(run(vec![plain(AUTHORITY), oracle()], [1, 1, 1]), Err(ProgramError::MissingRequiredSignature));
    assert_eq!(run(vec![signer(AUTHORITY), oracle()], [1, 0, 1]), Err(ProgramError::InvalidInstructionData));
}

#[test]
fn oracle_checks() {
    let mut a = oracle_account(1, 2, 3);
    a.owner = key(1);
    assert_eq!(load_oracle(&a), Err(ProgramError::IncorrectProgramId));
    let mut a = oracle_account(1, 2, 3);
    a.key = key(1);
    assert_eq!(load_oracle(&a), Err(ProgramError::InvalidSeeds));
    let mut a = oracle_account(1, 2, 3);
    a.data.pop();
    assert_eq!(load_oracle(&a), Err(ProgramError::InvalidAccountData));
    let mut a = oracle_account(1, 2, 3);
    a.data[7] = b'2';
    assert_eq!(load_oracle(&a), Err(ProgramError::InvalidAccountData));
    assert_eq!(assert_authority(&plain(AUTHORITY)), Ok(()));
    assert_eq!(assert_authority(&plain(key(1))), Err(ProgramError::InvalidAccountData));
}

// ---------------------------------------------------------------------------
// Creating a user account
// ---------------------------------------------------------------------------

const TIME: u64 = 1_700_000_000;

fn user_key() -> (Pubkey, u8) {
    program_key(&[b"igp_user", &key(4), &game_key(), &TIME.to_le_bytes()])
}

fn user_state() -> UserAccount {
    UserAccount {
        is_initialized: true,
        version: 1,
        bump: user_key().1,
        owner: key(4),
        game: game_key(),
        username: [b'n'; 32],
        current_ranked_game: NO_KEY,
        total_ranked_games_played: 0,
        total_wins: 0,
        total_usd_spent_micro: 0,
        total_usd_rewards_micro: 0,
    }
}

fn new_user_accounts(cost: u64, mint: Pubkey) -> Vec<Account> {
    let mut state = game_state(key(1));
    state.game_cost = cost;
    vec![
        signer(key(4)),
        plain(user_key().0),
        game_account(&state),
        plain(SYSTEM_PROGRAM_ID),
        plain(treasury_key()),
        oracle_account(150_000_000, 20_000, 30_000),
        plain(TOKEN_PROGRAM_ID),
        plain(key(30)),
        plain(key(31)),
        plain(key(32)),
        plain(mint),
    ]
}

fn new_user(accounts: Vec<Account>, mint: Pubkey) -> (Result<(), ProgramError>, Vec<Effect>) {
    let mut effects = Effects::new();
    let r = create_user_account(&invocation(accounts), 1, [b'n'; 32], TIME, mint, &mut effects);
    (r, effects.list)
}

fn assert_recorded(e: &[Effect], cost: u64) {
    let theirs = system_instruction::create_account(
        &sol(key(4)),
        &sol(user_key().0),
        floor(155),
        155,
        &sol(PROGRAM_ID),
    );
    let time = TIME.to_le_bytes();
    let seeds: [&[u8]; 5] = [b"igp_user", &key(4), &game_key(), &time, &[user_key().1]];
    assert_call(&e[0], &theirs, &[0, 1, 3], &seeds);
    assert!(is_store(&e[1], 1, &user_state().serialize()));
    let mut game = game_state(key(1));
    game.game_cost = cost;
    game.total_users = 4;
    assert!(is_store(&e[2], 2, &game.serialize()));
}

#[test]
fn free_account_is_created() {
    let mut a = new_user_accounts(0, USDC_MINT);
    a.truncate(4);
    // without a cost the payment token does not matter
    let (r, e) = new_user(a, key(99));
    assert_eq!(r, Ok(()));
    assert_eq!(e.len(), 3);
    assert_recorded(&e, 0);
}

#[test]
fn account_is_paid_in_sol() {
    let mut a = new_user_accounts(3_000_000, SOL_MINT);
    a.truncate(7);
    let (r, e) = new_user(a, SOL_MINT);
    assert_eq!(r, Ok(()));
    assert_eq!(e.len(), 5);
    // $3.00 at $150 per SOL, a quarter to the protocol
    let pay = |to: Pubkey, n: u64| system_instruction::transfer(&sol(key(4)), &sol(to), n);
    assert_call(&e[0], &pay(game_key(), 15_000_000), &[0, 2, 3], &[]);
    assert_call(&e[1], &pay(treasury_key(), 5_000_000), &[0, 4, 3], &[]);
    assert_recorded(&e[2..], 3_000_000);
}

#[test]
fn account_is_paid_in_tokens() {
    let (r, e) = new_user(new_user_accounts(3_000_000, USDC_MINT), USDC_MINT);
    assert_eq!(r, Ok(()));
    assert_eq!(e.len(), 5);
    let pay = |to: Pubkey, n: u64| {
        spl_token::instruction::transfer_checked(
            &spl_token::ID,
            &sol(key(30)),
            &sol(USDC_MINT),
            &sol(to),
            &sol(key(4)),
            &[],
            n,
            6,
        )
        .unwrap()
    };
    assert_call(&e[0], &pay(key(31), 2_250_000), &[7, 10, 8, 0, 6], &[]);
    assert_call(&e[1], &pay(key(32), 750_000), &[7, 10, 9, 0, 6], &[]);
}

#[test]
fn cost_is_charged_to_the_millionth() {
    for (cost, game, protocol) in [(9_999u64, 7_500u64, 2_499u64), (1, 1, 0), (3_000_001, 2_250_001, 750_000)] {
        let (r, e) = new_user(new_user_accounts(cost, USDC_MINT), USDC_MINT);
        assert_eq!(r, Ok(()));
        assert_eq!(game + protocol, cost);
        for (n, amount) in [(0usize, game), (1, protocol)] {
            match &e[n] {
                Effect::Invoke { instruction, .. } => assert_eq!(instruction.data[1..9], amount.to_le_bytes()),
                _ => panic!("not a call"),
            }
        }
    }
    assert_eq!(usd_micro_to_base_units(9_999, 1_000_000, 6), Ok(9_999));
    assert_eq!(usd_micro_to_base_units(1, 150_000_000, 9), Ok(7));
    assert_eq!(usd_micro_to_base_units(1, 0, 9), Err(ProgramError::InvalidAccountData));
    assert_eq!(usd_micro_to_base_units(u64::MAX, 1, 9), Err(ProgramError::ArithmeticOverflow));
}

#[test]
fn game_must_be_one_of_the_program() {
    let mut a = new_user_accounts(0, USDC_MINT);
    a[2].owner = key(1);
    assert_eq!(new_user(a, USDC_MINT).0, Err(ProgramError::IllegalOwner));
    let mut a = new_user_accounts(0, USDC_MINT);
    a[2].key = key(1);
    assert_eq!(new_user(a, USDC_MINT).0, Err(ProgramError::InvalidAccountData));
    // the data of a user account reads as that of a game, but stands at no game's address
    let mut a = new_user_accounts(0, USDC_MINT);
    a[2] = account(user_key().0, PROGRAM_ID, floor(155), user_state().serialize());
    assert_eq!(new_user(a, USDC_MINT).0, Err(ProgramError::InvalidAccountData));
}

#[test]
fn create_user_refusals() {
    let m = USDC_MINT;
    let mut a = new_user_accounts(0, m);
    a.truncate(3);
    assert_eq!(new_user(a, m).0, Err(ProgramError::NotEnoughAccountKeys));
    let mut a = new_user_accounts(0, m);
    a[0].is_signer = false;
    assert_eq!(new_user(a, m).0, Err(ProgramError::MissingRequiredSignature));
    let mut a = new_user_accounts(0, m);
    a[1].data = vec![0];
    assert_eq!(new_user(a, m).0, Err(ProgramError::AccountAlreadyInitialized));
    let mut a = new_user_accounts(0, m);
    a[2].data.pop();
    assert_eq!(new_user(a, m).0, Err(ProgramError::BorshIoError));
    let mut a = new_user_accounts(0, m);
    a[2].data[0] = 0;
    assert_eq!(new_user(a, m).0, Err(ProgramError::InvalidAccountData));
    assert_eq!(new_user(new_user_accounts(1, m), key(99)).0, Err(ProgramError::InvalidInstructionData));
    let mut a = new_user_accounts(1, m);
    a.truncate(6);
    assert_eq!(new_user(a, SOL_MINT).0, Err(ProgramError::NotEnoughAccountKeys));
    let mut a = new_user_accounts(1, m);
    a.truncate(10);
    assert_eq!(new_user(a, m).0, Err(ProgramError::NotEnoughAccountKeys));
    let mut a = new_user_accounts(1, m);
    a[2].data.push(0);
    assert_eq!(new_user(a, m).0, Err(ProgramError::InvalidAccountData));
    let mut a = new_user_accounts(1, m);
    a[10].key = key(1);
    assert_eq!(new_user(a, m).0, Err(ProgramError::InvalidAccountData));
    let mut a = new_user_accounts(1, m);
    a[6].key = key(1);
    assert_eq!(new_user(a, m).0, Err(ProgramError::IncorrectProgramId));
    let mut a = new_user_accounts(0, m);
    a[1].key = key(1);
    assert_eq!(new_user(a, m).0, Err(ProgramError::InvalidAccountData));
    let mut a = new_user_accounts(0, m);
    let mut state = game_state(key(1));
    state.total_users = u32::MAX;
    a[2].data = state.serialize();
    let (r, e) = new_user(a, m);
    assert_eq!(r, Err(ProgramError::ArithmeticOverflow));
    assert_eq!(e.len(), 2);
}

#[test]
fn payment_needs_token_accounts() {
    let inv = invocation(new_user_accounts(1, USDC_MINT));
    let at = PaymentAccounts {
        payer: 0,
        game: 2,
        game_protocol: 4,
        oracle: 5,
        token_program: 6,
        system_program: 3,
    };
    assert_eq!(
        process_payment(&inv, at, None, 10_000, PaymentToken::USDC, &mut Effects::new()),
        Err(ProgramError::NotEnoughAccountKeys)
    );
    let mut accounts = inv.accounts;
    accounts[0].is_signer = false;
    assert_eq!(
        process_payment(&invocation(accounts), at, None, 10_000, PaymentToken::SOL, &mut Effects::new()),
        Err(ProgramError::MissingRequiredSignature)
    );
}

#[test]
fn accounts_have_addresses_of_their_own() {
    let first = find_user_account_pda(&key(4), &game_key(), TIME);
    assert_eq!(first, Some(user_key()));
    assert_ne!(first, find_user_account_pda(&key(4), &game_key(), TIME + 1));
    assert_ne!(first, find_user_account_pda(&key(5), &game_key(), TIME));
    assert_ne!(first, find_user_account_pda(&key(4), &key(5), TIME));
}

#[test]
fn oracle_is_no_game_and_no_user_account() {
    let mut a = new_user_accounts(0, USDC_MINT);
    a[2] = oracle_account(1, 2, 3);
    let (r, e) = new_user(a, USDC_MINT);
    assert_eq!(r, Err(ProgramError::BorshIoError));
    assert_eq!(e.len(), 0);
    let mut a = new_user_accounts(0, USDC_MINT);
    a[1] = oracle_account(1, 2, 3);
    assert_eq!(new_user(a, USDC_MINT).0, Err(ProgramError::AccountAlreadyInitialized));
}

// ---------------------------------------------------------------------------
// Withdrawing
// ---------------------------------------------------------------------------

fn withdraw_accounts() -> Vec<Account> {
    let user = user_key().0;
    vec![
        signer(key(4)),
        game_account(&game_state(key(1))),
        account(user, PROGRAM_ID, floor(155) + 55, user_state().serialize()),
        plain(ata(user, SKR_MINT)),
        token_account(user, SLICE_MINT, 12),
        token_account(user, USDC_MINT, 0),
        plain(key(31)),
        plain(key(32)),
        plain(key(33)),
        plain(TOKEN_PROGRAM_ID),
    ]
}

fn withdraw(accounts: Vec<Account>, time: u64) -> (Result<(), ProgramError>, Vec<Effect>) {
    let mut effects = Effects::new();
    let r = withdraw_rewards(&invocation(accounts), time, &mut effects);
    (r, effects.list)
}

#[test]
fn rewards_are_withdrawn() {
    let (r, e) = withdraw(withdraw_accounts(), TIME);
    assert_eq!(r, Ok(()));
    assert_eq!(e.len(), 2);
    let (user, bump) = user_key();
    let theirs = spl_token::instruction::transfer(
        &spl_token::ID,
        &sol(ata(user, SLICE_MINT)),
        &sol(key(32)),
        &sol(user),
        &[],
        12,
    )
    .unwrap();
    let time = TIME.to_le_bytes();
    let seeds: [&[u8]; 5] = [b"igp_user", &key(4), &game_key(), &time, &[bump]];
    assert_call(&e[0], &theirs, &[4, 7, 2, 9], &seeds);
    assert!(is_move(&e[1], 2, 0, 55));
}

#[test]
fn uninitialized_rewards_are_skipped() {
    let mut a = withdraw_accounts();
    a[4].data = vec![0; 165];
    let (r, e) = withdraw(a, TIME);
    assert_eq!(r, Ok(()));
    assert_eq!(e.len(), 1);
    assert!(is_move(&e[0], 2, 0, 55));
}

#[test]
fn withdraw_rewards_refusals() {
    let mut a = withdraw_accounts();
    a.pop();
    assert_eq!(withdraw(a, TIME).0, Err(ProgramError::NotEnoughAccountKeys));
    let mut a = withdraw_accounts();
    a[0].is_signer = false;
    assert_eq!(withdraw(a, TIME).0, Err(ProgramError::MissingRequiredSignature));
    let mut a = withdraw_accounts();
    a[2].owner = key(1);
    assert_eq!(withdraw(a, TIME).0, Err(ProgramError::IllegalOwner));
    let mut a = withdraw_accounts();
    a[2].data.pop();
    assert_eq!(withdraw(a, TIME).0, Err(ProgramError::InvalidAccountData));
    let mut a = withdraw_accounts();
    a[2].data[0] = 0;
    assert_eq!(withdraw(a, TIME).0, Err(ProgramError::UninitializedAccount));
    let mut a = withdraw_accounts();
    a[0].key = key(5);
    assert_eq!(withdraw(a, TIME).0, Err(ProgramError::IllegalOwner));
    let mut a = withdraw_accounts();
    a[1].key = key(5);
    assert_eq!(withdraw(a, TIME).0, Err(ProgramError::InvalidAccountData));
    assert_eq!(withdraw(withdraw_accounts(), TIME + 1).0, Err(ProgramError::InvalidAccountData));
    let mut a = withdraw_accounts();
    a[3].key = key(5);
    assert_eq!(withdraw(a, TIME).0, Err(ProgramError::InvalidAccountData));
    let mut inv = invocation(withdraw_accounts());
    inv.rent = Err(ProgramError::UnsupportedSysvar);
    let mut effects = Effects::new();
    assert_eq!(withdraw_rewards(&inv, TIME, &mut effects), Err(ProgramError::UnsupportedSysvar));
    assert_eq!(effects.list.len(), 1);
}

// ---------------------------------------------------------------------------
// The program as a whole
// ---------------------------------------------------------------------------

#[test]
fn foreign_calls_are_refused() {
    let inv = invocation(vec![]);
    let mut effects = Effects::new();
    assert_eq!(
        Processor::process(&key(1), &inv, &[6], &mut effects),
        Err(ProgramError::IncorrectProgramId)
    );
    assert_eq!(
        Processor::process(&PROGRAM_ID, &inv, &[], &mut effects),
        Err(ProgramError::InvalidInstructionData)
    );
    assert_eq!(
        Processor::process(&PROGRAM_ID, &inv, &[16], &mut effects),
        Err(ProgramError::InvalidInstructionData)
    );
    assert_eq!(
        Processor::process(&PROGRAM_ID, &inv, &[6], &mut effects),
        Err(ProgramError::NotEnoughAccountKeys)
    );
    assert_eq!(effects.list.len(), 0);
}

#[test]
fn instructions_reach_their_handlers() {
    let data = IndieGamesInstruction::UpdateOraclePrices {
        sol_price_usd_micro_per_lamport: 4,
        skr_price_usd_micro_per_atom: 5,
        slice_price_usd_micro_per_atom: 6,
    }
    .serialize();
    let inv = invocation(vec![signer(AUTHORITY), oracle_account(1, 2, 3)]);
    let mut effects = Effects::new();
    assert_eq!(Processor::process(&PROGRAM_ID, &inv, &data, &mut effects), Ok(()));
    assert!(is_store(&effects.list[0], 1, &oracle_account(4, 5, 6).data));

    let data = IndieGamesInstruction::CreateUserAccount {
        username: [b'n'; 32],
        timestamp: TIME,
        payment_token: NO_KEY,
    }
    .serialize();
    let inv = invocation(new_user_accounts(0, USDC_MINT));
    let mut effects = Effects::new();
    assert_eq!(Processor::process(&PROGRAM_ID, &inv, &data, &mut effects), Ok(()));
    assert_recorded(&effects.list, 0);
}

#[test]
fn every_instruction_needs_accounts() {
    let inv = invocation(vec![]);
    let bodies = [24usize, 24, 108, 4, 8, 32, 0, 72, 16, 40, 0, 2, 8, 9, 10, 8];
    for (tag, len) in bodies.iter().enumerate() {
        let mut data = vec![tag as u8];
        data.resize(1 + len, 1);
        let mut effects = Effects::new();
        assert_eq!(
            Processor::process(&PROGRAM_ID, &inv, &data, &mut effects),
            Err(ProgramError::NotEnoughAccountKeys)
        );
        assert_eq!(effects.list.len(), 0);
    }
}
