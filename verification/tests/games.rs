//! The handlers of games.

use indie_games::constants::{
    Pubkey, ASSOCIATED_TOKEN_PROGRAM_ID, AUTHORITY, NO_KEY, ORACLE_DISCRIMINATOR, PROGRAM_ID, SKR_MINT,
    SLICE_MINT, SYSTEM_PROGRAM_ID, TOKEN_PROGRAM_ID, USDC_MINT,
};
use indie_games::error::ProgramError;
use indie_games::processor::game::{
    create_game, developer_withdraw, reward_user_account, transfer_game_ownership,
    update_fee_share, update_game_cost, upgrade_game_version,
};
use indie_games::runtime::{Account, Effect, Effects, Invocation, RentFloors};
use indie_games::state::game::GameAccount;
use indie_games::state::oracle::OraclePriceState;
use indie_games::state::ranked_game::RankedGameState;
use indie_games::state::user_account::UserAccount;
use solana_program::instruction::Instruction as SolInstruction;
use solana_program::pubkey::Pubkey as SolKey;
use solana_program::system_instruction;

const TITLE: [u8; 32] = [b't'; 32];

fn sol(key: Pubkey) -> SolKey {
    SolKey::new_from_array(key)
}

fn key(n: u8) -> Pubkey {
    [n; 32]
}

fn floor(len: usize) -> u64 {
    (128 + len as u64) * 6_960
}

fn account(key: Pubkey, owner: Pubkey, lamports: u64, data: Vec<u8>) -> Account {
    let rent_floor = floor(data.len());
    Account { key, owner, lamports, data, is_signer: false, rent_floor }
}

fn plain(key: Pubkey) -> Account {
    account(key, SYSTEM_PROGRAM_ID, 1_000_000, vec![])
}

fn signer(key: Pubkey) -> Account {
    let mut a = plain(key);
    a.is_signer = true;
    a
}

fn invocation(accounts: Vec<Account>) -> Invocation {
    Invocation {
        accounts,
        rent: Ok(RentFloors {
            empty: floor(0),
            game: floor(GameAccount::MAX_SIZE),
            user: floor(UserAccount::MAX_SIZE),
            ranked_game: floor(RankedGameState::LEN),
            oracle: floor(OraclePriceState::LEN),
        }),
    }
}

fn program_key(seeds: &[&[u8]]) -> (Pubkey, u8) {
    let (k, b) = SolKey::find_program_address(seeds, &sol(PROGRAM_ID));
    (k.to_bytes(), b)
}

fn ata(wallet: Pubkey, mint: Pubkey) -> Pubkey {
    spl_associated_token_account::get_associated_token_address(&sol(wallet), &sol(mint)).to_bytes()
}

fn token_data(owner: Pubkey, mint: Pubkey, amount: u64) -> Vec<u8> {
    let mut data = vec![0u8; 165];
    data[..32].copy_from_slice(&mint);
    data[32..64].copy_from_slice(&owner);
    data[64..72].copy_from_slice(&amount.to_le_bytes());
    data[108] = 1;
    data
}

fn token_account(owner: Pubkey, mint: Pubkey, amount: u64) -> Account {
    account(ata(owner, mint), TOKEN_PROGRAM_ID, floor(165), token_data(owner, mint, amount))
}

fn oracle_account(sol_price: u64, skr: u64, slice: u64) -> Account {
    let (k, bump) = program_key(&[b"igp_oracle"]);
    let state = OraclePriceState {
        discriminator: ORACLE_DISCRIMINATOR,
        sol_price_usd_micro_per_lamport: sol_price,
        skr_price_usd_micro_per_atom: skr,
        slice_price_usd_micro_per_atom: slice,
        bump,
    };
    account(k, PROGRAM_ID, floor(33), state.serialize())
}

fn game_state(owner: Pubkey) -> GameAccount {
    GameAccount {
        is_initialized: true,
        version: 2,
        game_title: TITLE,
        owner,
        dev_fee_bps: 1_500,
        game_to_protocol_share_bps: 2_500,
        game_cost: 0,
        game_url: [b'u'; 64],
        total_users: 3,
        total_revenue_usd_micro: 0,
    }
}

fn game_account(state: &GameAccount) -> Account {
    account(game_key(), PROGRAM_ID, floor(154), state.serialize())
}

fn game_key() -> Pubkey {
    program_key(&[b"igp_game", &TITLE]).0
}

fn treasury_key() -> Pubkey {
    program_key(&[b"igp_game_protocol", &TITLE]).0
}

fn is_store(effect: &Effect, at: usize, bytes: &[u8]) -> bool {
    match effect {
        Effect::Store { account, data } => *account == at && data.as_slice() == bytes,
        _ => false,
    }
}

fn is_move(effect: &Effect, a: usize, b: usize, n: u64) -> bool {
    match effect {
        Effect::MoveLamports { from, to, lamports } => *from == a && *to == b && *lamports == n,
        _ => false,
    }
}

fn assert_call(effect: &Effect, theirs: &SolInstruction, at: &[usize], seeds: &[&[u8]]) {
    match effect {
        Effect::Invoke { instruction, accounts, signer_seeds } => {
            assert_eq!(instruction.program_id, theirs.program_id.to_bytes());
            assert_eq!(instruction.data, theirs.data);
            assert_eq!(instruction.accounts.len(), theirs.accounts.len());
            for (a, b) in instruction.accounts.iter().zip(theirs.accounts.iter()) {
                assert_eq!(a.pubkey, b.pubkey.to_bytes());
                assert_eq!(a.is_signer, b.is_signer);
                assert_eq!(a.is_writable, b.is_writable);
            }
            assert_eq!(accounts.as_slice(), at);
            assert_eq!(signer_seeds.len(), seeds.len());
            for (a, b) in signer_seeds.iter().zip(seeds.iter()) {
                assert_eq!(a.as_slice(), *b);
            }
        }
        _ => panic!("not a call"),
    }
}

// ---------------------------------------------------------------------------
// Creating
// ---------------------------------------------------------------------------

fn create_accounts() -> Vec<Account> {
    let (game, treasury) = (game_key(), treasury_key());
    let mut game_account = plain(game);
    game_account.lamports = 0;
    let mut treasury_account = plain(treasury);
    treasury_account.lamports = 5;
    vec![
        signer(key(1)),
        game_account,
        plain(ata(game, SKR_MINT)),
        plain(ata(game, SLICE_MINT)),
        plain(ata(game, USDC_MINT)),
        treasury_account,
        plain(ata(treasury, SKR_MINT)),
        plain(ata(treasury, SLICE_MINT)),
        plain(ata(treasury, USDC_MINT)),
        plain(SKR_MINT),
        plain(SLICE_MINT),
        plain(USDC_MINT),
        plain(TOKEN_PROGRAM_ID),
        plain(key(13)),
        plain(ASSOCIATED_TOKEN_PROGRAM_ID),
        plain(SYSTEM_PROGRAM_ID),
    ]
}

fn create(inv: &Invocation, dev_fee_bps: u16) -> (Result<(), ProgramError>, Vec<Effect>) {
    let mut effects = Effects::new();
    let r = create_game(inv, 2, TITLE, dev_fee_bps, 2_500, 5_000_000, [b'u'; 64], &mut effects);
    (r, effects.list)
}

fn create_error(accounts: Vec<Account>) -> ProgramError {
    create(&invocation(accounts), 1_500).0.unwrap_err()
}

fn ata_call(wallet: Pubkey, mint: Pubkey) -> SolInstruction {
    spl_associated_token_account::instruction::create_associated_token_account_idempotent(
        &sol(key(1)),
        &sol(wallet),
        &sol(mint),
        &spl_token::ID,
    )
}

#[test]
fn new_game_is_created() {
    let (r, e) = create(&invocation(create_accounts()), 1_500);
    assert_eq!(r, Ok(()));
    assert_eq!(e.len(), 13);
    let (owner, game, treasury) = (sol(key(1)), sol(game_key()), sol(treasury_key()));
    let treasury_bump = program_key(&[b"igp_game_protocol", &TITLE]).1;
    let game_bump = program_key(&[b"igp_game", &TITLE]).1;
    let ts: [&[u8]; 3] = [b"igp_game_protocol", &TITLE, &[treasury_bump]];
    let gs: [&[u8]; 3] = [b"igp_game", &TITLE, &[game_bump]];
    assert_call(&e[0], &system_instruction::transfer(&owner, &treasury, floor(0) - 5), &[0, 5, 15], &[]);
    assert_call(&e[1], &system_instruction::allocate(&treasury, 0), &[5, 15], &ts);
    assert_call(&e[2], &system_instruction::assign(&treasury, &sol(PROGRAM_ID)), &[5, 15], &ts);
    assert_call(&e[3], &ata_call(treasury_key(), SKR_MINT), &[0, 6, 5, 9, 15, 12, 14], &[]);
    assert_call(&e[4], &ata_call(treasury_key(), SLICE_MINT), &[0, 7, 5, 10, 15, 12, 14], &[]);
    assert_call(&e[5], &ata_call(treasury_key(), USDC_MINT), &[0, 8, 5, 11, 15, 12, 14], &[]);
    assert_call(&e[6], &system_instruction::transfer(&owner, &game, floor(154)), &[0, 1, 15], &[]);
    assert_call(&e[7], &system_instruction::allocate(&game, 154), &[1, 15], &gs);
    assert_call(&e[8], &system_instruction::assign(&game, &sol(PROGRAM_ID)), &[1, 15], &gs);
    let mut state = game_state(key(1));
    state.game_cost = 5_000_000;
    state.total_users = 0;
    assert!(is_store(&e[9], 1, &state.serialize()));
    assert_call(&e[10], &ata_call(game_key(), SKR_MINT), &[0, 2, 1, 9, 15, 12, 14], &[]);
    assert_call(&e[11], &ata_call(game_key(), SLICE_MINT), &[0, 3, 1, 10, 15, 12, 14], &[]);
    assert_call(&e[12], &ata_call(game_key(), USDC_MINT), &[0, 4, 1, 11, 15, 12, 14], &[]);
}

fn call_parts(effect: &Effect) -> (Pubkey, Vec<u8>, Vec<(Pubkey, bool, bool)>) {
    match effect {
        Effect::Invoke { instruction, .. } => (
            instruction.program_id,
            instruction.data.clone(),
            instruction.accounts.iter().map(|m| (m.pubkey, m.is_signer, m.is_writable)).collect(),
        ),
        _ => panic!("not a call"),
    }
}

#[test]
fn system_calls_in_bytes() {
    let (_, e) = create(&invocation(create_accounts()), 1_500);
    let mut data = vec![2, 0, 0, 0];
    data.extend_from_slice(&(floor(0) - 5).to_le_bytes());
    assert_eq!(
        call_parts(&e[0]),
        (SYSTEM_PROGRAM_ID, data, vec![(key(1), true, true), (treasury_key(), false, true)])
    );
    let mut data = vec![8, 0, 0, 0];
    data.extend_from_slice(&154u64.to_le_bytes());
    assert_eq!(call_parts(&e[7]), (SYSTEM_PROGRAM_ID, data, vec![(game_key(), true, true)]));
    let mut data = vec![1, 0, 0, 0];
    data.extend_from_slice(&PROGRAM_ID);
    assert_eq!(call_parts(&e[8]), (SYSTEM_PROGRAM_ID, data, vec![(game_key(), true, true)]));
}

#[test]
fn funded_addresses_are_not_topped_up() {
    let mut accounts = create_accounts();
    accounts[1].lamports = floor(154);
    accounts[5].lamports = floor(0) + 1;
    let (r, e) = create(&invocation(accounts), 1_500);
    assert_eq!(r, Ok(()));
    assert_eq!(e.len(), 11);
}

#[test]
fn existing_game_is_kept() {
    let mut accounts = create_accounts();
    accounts[1] = game_account(&game_state(key(9)));
    accounts[5].owner = PROGRAM_ID;
    let (r, e) = create(&invocation(accounts), 1_500);
    assert_eq!(r, Ok(()));
    assert_eq!(e.len(), 3);
    assert_call(&e[0], &ata_call(game_key(), SKR_MINT), &[0, 2, 1, 9, 15, 12, 14], &[]);
}

#[test]
fn create_game_refusals() {
    let mut a = create_accounts();
    a.pop();
    assert_eq!(create_error(a), ProgramError::NotEnoughAccountKeys);
    let mut a = create_accounts();
    a[0].is_signer = false;
    assert_eq!(create_error(a), ProgramError::MissingRequiredSignature);
    let mut a = create_accounts();
    a[5].key = key(5);
    assert_eq!(create_error(a), ProgramError::InvalidAccountData);
    let mut a = create_accounts();
    a[1].key = key(5);
    assert_eq!(create_error(a), ProgramError::InvalidAccountData);
    let mut a = create_accounts();
    a[10].key = key(5);
    assert_eq!(create_error(a), ProgramError::InvalidAccountData);
    let mut a = create_accounts();
    a[4].key = key(5);
    assert_eq!(create_error(a), ProgramError::InvalidAccountData);
    let mut a = create_accounts();
    a[1] = game_account(&game_state(key(9)));
    a[1].owner = key(5);
    assert_eq!(create_error(a), ProgramError::IllegalOwner);
    let mut a = create_accounts();
    a[1] = game_account(&game_state(key(9)));
    a[1].data.pop();
    assert_eq!(create_error(a), ProgramError::BorshIoError);
    let mut a = create_accounts();
    a[1] = game_account(&game_state(key(9)));
    a[1].data[0] = 0;
    assert_eq!(create_error(a), ProgramError::UninitializedAccount);
}

#[test]
fn create_game_checks_the_fee_after_the_treasury() {
    let (r, e) = create(&invocation(create_accounts()), 999);
    assert_eq!(r, Err(ProgramError::InvalidInstructionData));
    assert_eq!(e.len(), 6);
}

#[test]
fn games_pay_the_minimum_share() {
    let inv = invocation(create_accounts());
    let mut effects = Effects::new();
    let r = create_game(&inv, 2, TITLE, 1_500, 999, 0, [0; 64], &mut effects);
    assert_eq!(r, Err(ProgramError::InvalidInstructionData));
    assert!(effects.list.iter().all(|e| matches!(e, Effect::Invoke { .. })));
    let mut effects = Effects::new();
    assert_eq!(create_game(&inv, 2, TITLE, 1_500, 1_000, 0, [0; 64], &mut effects), Ok(()));
    // where the game exists, nothing is stored and the share is not looked at
    let mut accounts = create_accounts();
    accounts[1] = game_account(&game_state(key(9)));
    accounts[5].owner = PROGRAM_ID;
    let inv = invocation(accounts);
    let mut effects = Effects::new();
    assert_eq!(create_game(&inv, 2, TITLE, 1_500, 999, 0, [0; 64], &mut effects), Ok(()));
    assert_eq!(effects.list.len(), 3);
    assert_call(&effects.list[2], &ata_call(game_key(), USDC_MINT), &[0, 4, 1, 11, 15, 12, 14], &[]);
    let r = create_game(&inv, 2, TITLE, 999, 2_000, 0, [0; 64], &mut effects);
    assert_eq!(r, Err(ProgramError::InvalidInstructionData));
    let inv = invocation(owner_accounts());
    let mut effects = Effects::new();
    assert_eq!(update_fee_share(&inv, 1_500, 999, &mut effects), Err(ProgramError::InvalidInstructionData));
    assert_eq!(effects.list.len(), 0);
    assert_eq!(update_fee_share(&inv, 1_500, 1_000, &mut effects), Ok(()));
}

#[test]
fn create_game_needs_rent() {
    let mut inv = invocation(create_accounts());
    inv.rent = Err(ProgramError::UnsupportedSysvar);
    let (r, e) = create(&inv, 1_500);
    assert_eq!(r, Err(ProgramError::UnsupportedSysvar));
    assert_eq!(e.len(), 0);
}

// ---------------------------------------------------------------------------
// Changing
// ---------------------------------------------------------------------------

fn owner_accounts() -> Vec<Account> {
    vec![signer(key(1)), game_account(&game_state(key(1)))]
}

#[test]
fn fees_are_updated() {
    let inv = invocation(owner_accounts());
    let mut effects = Effects::new();
    assert_eq!(update_fee_share(&inv, 2_000, 3_000, &mut effects), Ok(()));
    let mut state = game_state(key(1));
    state.dev_fee_bps = 2_000;
    state.game_to_protocol_share_bps = 3_000;
    assert_eq!(effects.list.len(), 1);
    assert!(is_store(&effects.list[0], 1, &state.serialize()));
    assert_eq!(
        update_fee_share(&inv, 999, 3_000, &mut Effects::new()),
        Err(ProgramError::InvalidInstructionData)
    );
}

#[test]
fn cost_is_updated() {
    let inv = invocation(owner_accounts());
    let mut effects = Effects::new();
    assert_eq!(update_game_cost(&inv, 77, &mut effects), Ok(()));
    let mut state = game_state(key(1));
    state.game_cost = 77;
    assert!(is_store(&effects.list[0], 1, &state.serialize()));
}

#[test]
fn ownership_passes() {
    let inv = invocation(owner_accounts());
    let mut effects = Effects::new();
    assert_eq!(transfer_game_ownership(&inv, key(2), &mut effects), Ok(()));
    let stored = match &effects.list[0] {
        Effect::Store { data, .. } => data.clone(),
        _ => panic!("no store"),
    };
    let after = account(game_key(), PROGRAM_ID, floor(154), stored);
    let old_owner = invocation(vec![signer(key(1)), after]);
    let mut effects = Effects::new();
    assert_eq!(update_game_cost(&old_owner, 1, &mut effects), Err(ProgramError::IllegalOwner));
    assert_eq!(effects.list.len(), 0);
    let mut accounts = old_owner.accounts;
    accounts[0] = signer(key(2));
    assert_eq!(update_game_cost(&invocation(accounts), 1, &mut effects), Ok(()));
}

#[test]
fn owner_instructions_refuse() {
    let mut fx = Effects::new();
    let short = invocation(vec![signer(key(1))]);
    assert_eq!(update_game_cost(&short, 1, &mut fx), Err(ProgramError::NotEnoughAccountKeys));
    let mut a = owner_accounts();
    a[0].is_signer = false;
    assert_eq!(
        transfer_game_ownership(&invocation(a), key(2), &mut fx),
        Err(ProgramError::MissingRequiredSignature)
    );
    let mut a = owner_accounts();
    a[1].data.push(0);
    assert_eq!(update_fee_share(&invocation(a), 2_000, 0, &mut fx), Err(ProgramError::InvalidAccountData));
    let mut a = owner_accounts();
    a[0].key = key(2);
    assert_eq!(update_fee_share(&invocation(a), 2_000, 0, &mut fx), Err(ProgramError::IllegalOwner));
    assert_eq!(fx.list.len(), 0);
}

// ---------------------------------------------------------------------------
// Upgrading
// ---------------------------------------------------------------------------

fn old_accounts() -> Vec<Account> {
    let mut state = game_state(key(1));
    state.version = 1;
    let data = state.serialize()[..70].to_vec();
    vec![signer(AUTHORITY), account(game_key(), PROGRAM_ID, floor(70), data), plain(SYSTEM_PROGRAM_ID)]
}

fn upgrade(accounts: Vec<Account>) -> (Result<(), ProgramError>, Vec<Effect>) {
    let mut effects = Effects::new();
    let r = upgrade_game_version(&invocation(accounts), &mut effects);
    (r, effects.list)
}

#[test]
fn old_game_is_upgraded_once() {
    let (r, e) = upgrade(old_accounts());
    assert_eq!(r, Ok(()));
    assert_eq!(e.len(), 3);
    assert_call(
        &e[0],
        &system_instruction::transfer(&sol(AUTHORITY), &sol(game_key()), floor(154) - floor(70)),
        &[0, 1],
        &[],
    );
    assert!(matches!(e[1], Effect::Resize { account: 1, len: 154 }));
    let mut state = game_state(key(1));
    state.game_cost = 0;
    state.game_url = [0; 64];
    state.total_users = 0;
    assert!(is_store(&e[2], 1, &state.serialize()));
    let mut again = old_accounts();
    again[1] = game_account(&state);
    let (r, e) = upgrade(again);
    assert_eq!(r, Ok(()));
    assert_eq!(e.len(), 0);
}

#[test]
fn upgrade_refusals() {
    let mut a = old_accounts();
    a.pop();
    assert_eq!(upgrade(a).0, Err(ProgramError::NotEnoughAccountKeys));
    let mut a = old_accounts();
    a[0].key = key(1);
    assert_eq!(upgrade(a).0, Err(ProgramError::InvalidAccountData));
    let mut a = old_accounts();
    a[0].is_signer = false;
    assert_eq!(upgrade(a).0, Err(ProgramError::MissingRequiredSignature));
    let mut a = old_accounts();
    a[1].data = vec![1];
    assert_eq!(upgrade(a).0, Err(ProgramError::InvalidAccountData));
    let mut a = old_accounts();
    a[1].data.pop();
    assert_eq!(upgrade(a).0, Err(ProgramError::InvalidAccountData));
    let mut a = old_accounts();
    a[1].lamports = floor(154) + 1;
    assert_eq!(upgrade(a).0, Err(ProgramError::Aborted));
}

// ---------------------------------------------------------------------------
// Withdrawing
// ---------------------------------------------------------------------------

fn withdraw_accounts() -> Vec<Account> {
    let game = game_key();
    let mut state = game_account(&game_state(key(1)));
    state.lamports = floor(154) + 123;
    vec![
        signer(key(1)),
        state,
        token_account(game, SKR_MINT, 11),
        plain(ata(game, SLICE_MINT)),
        token_account(game, USDC_MINT, 0),
        plain(key(21)),
        plain(key(22)),
        plain(key(23)),
        plain(TOKEN_PROGRAM_ID),
    ]
}

fn withdraw(accounts: Vec<Account>) -> (Result<(), ProgramError>, Vec<Effect>) {
    let mut effects = Effects::new();
    let r = developer_withdraw(&invocation(accounts), &mut effects);
    (r, effects.list)
}

#[test]
fn developer_gets_tokens_and_surplus() {
    let (r, e) = withdraw(withdraw_accounts());
    assert_eq!(r, Ok(()));
    assert_eq!(e.len(), 2);
    let bump = program_key(&[b"igp_game", &TITLE]).1;
    let theirs = spl_token::instruction::transfer(
        &spl_token::ID,
        &sol(ata(game_key(), SKR_MINT)),
        &sol(key(21)),
        &sol(game_key()),
        &[],
        11,
    )
    .unwrap();
    assert_call(&e[0], &theirs, &[2, 5, 1, 8], &[b"igp_game", &TITLE, &[bump]]);
    assert!(is_move(&e[1], 1, 0, 123));
}

#[test]
fn developer_gets_nothing_below_rent() {
    let mut a = withdraw_accounts();
    a[1].lamports = floor(154);
    a[2] = token_account(game_key(), SKR_MINT, 0);
    let (r, e) = withdraw(a);
    assert_eq!(r, Ok(()));
    assert_eq!(e.len(), 0);
}

#[test]
fn uninitialized_token_account_is_skipped() {
    let mut a = withdraw_accounts();
    a[2].data = vec![0; 165];
    let (r, e) = withdraw(a);
    assert_eq!(r, Ok(()));
    assert_eq!(e.len(), 1);
    assert!(is_move(&e[0], 1, 0, 123));
}

#[test]
fn developer_withdraw_refusals() {
    let mut a = withdraw_accounts();
    a.pop();
    assert_eq!(withdraw(a).0, Err(ProgramError::NotEnoughAccountKeys));
    let mut a = withdraw_accounts();
    a[0].is_signer = false;
    assert_eq!(withdraw(a).0, Err(ProgramError::MissingRequiredSignature));
    let mut a = withdraw_accounts();
    a[1].owner = key(3);
    assert_eq!(withdraw(a).0, Err(ProgramError::IllegalOwner));
    let mut a = withdraw_accounts();
    a[1].data.pop();
    assert_eq!(withdraw(a).0, Err(ProgramError::InvalidAccountData));
    let mut a = withdraw_accounts();
    a[1].data[0] = 0;
    assert_eq!(withdraw(a).0, Err(ProgramError::UninitializedAccount));
    let mut a = withdraw_accounts();
    a[0].key = key(2);
    assert_eq!(withdraw(a).0, Err(ProgramError::IllegalOwner));
    let mut a = withdraw_accounts();
    a[1].key = key(2);
    assert_eq!(withdraw(a).0, Err(ProgramError::InvalidAccountData));
    let mut a = withdraw_accounts();
    a[2].key = key(2);
    assert_eq!(withdraw(a).0, Err(ProgramError::InvalidAccountData));
    let mut a = withdraw_accounts();
    a[2].data[32] ^= 1;
    assert_eq!(withdraw(a).0, Err(ProgramError::InvalidAccountData));
    let mut a = withdraw_accounts();
    a[2].data[0] ^= 1;
    assert_eq!(withdraw(a).0, Err(ProgramError::InvalidAccountData));
    let mut a = withdraw_accounts();
    a[2].data[108] = 3;
    assert_eq!(withdraw(a).0, Err(ProgramError::InvalidAccountData));
    let mut a = withdraw_accounts();
    a[2].data.truncate(164);
    assert_eq!(withdraw(a).0, Err(ProgramError::InvalidAccountData));
    let mut a = withdraw_accounts();
    a[8].key = key(2);
    assert_eq!(withdraw(a).0, Err(ProgramError::IncorrectProgramId));
}

// ---------------------------------------------------------------------------
// Rewarding
// ---------------------------------------------------------------------------

fn user_state() -> UserAccount {
    UserAccount {
        is_initialized: true,
        version: 1,
        bump: 255,
        owner: key(4),
        game: game_key(),
        username: [b'n'; 32],
        current_ranked_game: NO_KEY,
        total_ranked_games_played: 0,
        total_wins: 0,
        total_usd_spent_micro: 0,
        total_usd_rewards_micro: 10,
    }
}

fn reward_accounts() -> Vec<Account> {
    let (treasury, user) = (treasury_key(), key(7));
    vec![
        signer(AUTHORITY),
        game_account(&game_state(key(1))),
        account(treasury, PROGRAM_ID, floor(0) + 2_000_000_000, vec![]),
        account(user, PROGRAM_ID, floor(155), user_state().serialize()),
        oracle_account(150_000_000, 20_000, 30_000),
        plain(TOKEN_PROGRAM_ID),
        token_account(treasury, USDC_MINT, 5_000_001),
        plain(ata(user, USDC_MINT)),
        token_account(treasury, SKR_MINT, 1_000_000),
        plain(ata(user, SKR_MINT)),
        plain(ata(treasury, SLICE_MINT)),
        plain(ata(user, SLICE_MINT)),
    ]
}

fn reward(accounts: Vec<Account>, bps: u16) -> (Result<(), ProgramError>, Vec<Effect>) {
    let mut effects = Effects::new();
    let r = reward_user_account(&invocation(accounts), bps, &mut effects);
    (r, effects.list)
}

#[test]
fn user_is_rewarded_from_every_pool() {
    let (r, e) = reward(reward_accounts(), 5_000);
    assert_eq!(r, Ok(()));
    assert_eq!(e.len(), 4);
    let bump = program_key(&[b"igp_game_protocol", &TITLE]).1;
    let seeds: [&[u8]; 3] = [b"igp_game_protocol", &TITLE, &[bump]];
    let usdc = spl_token::instruction::transfer(
        &spl_token::ID,
        &sol(ata(treasury_key(), USDC_MINT)),
        &sol(ata(key(7), USDC_MINT)),
        &sol(treasury_key()),
        &[],
        2_500_000,
    )
    .unwrap();
    assert_call(&e[0], &usdc, &[6, 7, 2, 5], &seeds);
    let skr = spl_token::instruction::transfer(
        &spl_token::ID,
        &sol(ata(treasury_key(), SKR_MINT)),
        &sol(ata(key(7), SKR_MINT)),
        &sol(treasury_key()),
        &[],
        500_000,
    )
    .unwrap();
    assert_call(&e[1], &skr, &[8, 9, 2, 5], &seeds);
    assert!(is_move(&e[2], 2, 3, 1_000_000_000));
    let mut state = user_state();
    // 2.5 USDC, half an SKR at $0.02, and 10^9 lamports at the price of a lamport
    state.total_usd_rewards_micro = 10 + 2_500_000 + 10_000 + 150_000_000_000_000_000;
    assert!(is_store(&e[3], 3, &state.serialize()));
}

#[test]
fn lamports_have_one_value() {
    // a winner who gets 500 lamports at a price of 3 is credited with as much
    let mut a = reward_accounts();
    a[2].lamports = floor(0) + 1_001;
    a[4] = oracle_account(3, 20_000, 30_000);
    a[6] = plain(ata(treasury_key(), USDC_MINT));
    a[8] = plain(ata(treasury_key(), SKR_MINT));
    let (r, e) = reward(a, 5_000);
    assert_eq!(r, Ok(()));
    assert!(is_move(&e[0], 2, 3, 500));
    let mut state = user_state();
    state.total_usd_rewards_micro = 10 + 1_500;
    assert!(is_store(&e[1], 3, &state.serialize()));
}

#[test]
fn empty_share_moves_nothing() {
    let (r, e) = reward(reward_accounts(), 0);
    assert_eq!(r, Ok(()));
    assert_eq!(e.len(), 1);
    assert!(is_store(&e[0], 3, &user_state().serialize()));
}

#[test]
fn whole_share_keeps_the_rent() {
    let (_, e) = reward(reward_accounts(), 10_000);
    assert!(is_move(&e[2], 2, 3, 2_000_000_000));
}

#[test]
fn reward_user_refusals() {
    let mut a = reward_accounts();
    a.pop();
    assert_eq!(reward(a, 1).0, Err(ProgramError::NotEnoughAccountKeys));
    let mut a = reward_accounts();
    a[0].key = key(1);
    assert_eq!(reward(a, 1).0, Err(ProgramError::InvalidAccountData));
    let mut a = reward_accounts();
    a[0].is_signer = false;
    assert_eq!(reward(a, 1).0, Err(ProgramError::MissingRequiredSignature));
    assert_eq!(reward(reward_accounts(), 10_001).0, Err(ProgramError::InvalidInstructionData));
    let mut a = reward_accounts();
    a[2].key = key(1);
    assert_eq!(reward(a, 1).0, Err(ProgramError::InvalidAccountData));
    let mut a = reward_accounts();
    a[2].owner = key(1);
    assert_eq!(reward(a, 1).0, Err(ProgramError::IllegalOwner));
    let mut a = reward_accounts();
    a[3].data[0] = 0;
    assert_eq!(reward(a, 1).0, Err(ProgramError::UninitializedAccount));
    let mut a = reward_accounts();
    a[1].key = key(1);
    assert_eq!(reward(a, 1).0, Err(ProgramError::InvalidAccountData));
    let mut a = reward_accounts();
    a[4].owner = key(1);
    assert_eq!(reward(a, 1).0, Err(ProgramError::IncorrectProgramId));
    let mut a = reward_accounts();
    a[4].key = key(1);
    assert_eq!(reward(a, 1).0, Err(ProgramError::InvalidSeeds));
    let mut a = reward_accounts();
    a[7].key = key(1);
    assert_eq!(reward(a, 1).0, Err(ProgramError::InvalidAccountData));
    let mut a = reward_accounts();
    a[5].key = key(1);
    assert_eq!(reward(a, 5_000).0, Err(ProgramError::IncorrectProgramId));
    let mut a = reward_accounts();
    a[3].lamports = u64::MAX;
    assert_eq!(reward(a, 5_000).0, Err(ProgramError::ArithmeticOverflow));
    let mut a = reward_accounts();
    let mut rich = user_state();
    rich.total_usd_rewards_micro = u64::MAX;
    a[3].data = rich.serialize();
    assert_eq!(reward(a, 5_000).0, Err(ProgramError::InvalidAccountData));
}
