//! The handlers of ranked games.

use indie_games::constants::{
    Pubkey, ASSOCIATED_TOKEN_PROGRAM_ID, AUTHORITY, NO_KEY, ORACLE_DISCRIMINATOR, PROGRAM_ID,
    RANKED_GAME_DISCRIMINATOR, SKR_MINT, SLICE_MINT, SOL_MINT, SYSTEM_PROGRAM_ID, TOKEN_PROGRAM_ID,
    USDC_MINT,
};
use indie_games::error::ProgramError;
use indie_games::processor::ranked_game::{
    close_ranked_game, create_ranked_game, join_ranked_game, reward_winner,
    update_ranked_game_status,
};
use indie_games::runtime::{Account, Effect, Effects, Invocation, RentFloors};
use indie_games::state::game::GameAccount;
use indie_games::state::oracle::OraclePriceState;
use indie_games::state::ranked_game::{RankedGameState, RankedGameStatus};
use indie_games::state::user_account::UserAccount;
use solana_program::instruction::Instruction as SolInstruction;
use solana_program::pubkey::Pubkey as SolKey;
use solana_program::system_instruction;

const TITLE: [u8; 32] = [b't'; 32];

fn sol(key: Pubkey) -> SolKey {
    SolKey::new_from_array(key)
}

fn key(n: u8) -> Pubkey {
    [n; 32]
}

fn floor(len: usize) -> u64 {
    (128 + len as u64) * 6_960
}

fn account(key: Pubkey, owner: Pubkey, lamports: u64, data: Vec<u8>) -> Account {
    let rent_floor = floor(data.len());
    Account { key, owner, lamports, data, is_signer: false, rent_floor }
}

fn plain(key: Pubkey) -> Account {
    account(key, SYSTEM_PROGRAM_ID, 1_000_000, vec![])
}

fn signer(key: Pubkey) -> Account {
    let mut a = plain(key);
    a.is_signer = true;
    a
}

fn invocation(accounts: Vec<Account>) -> Invocation {
    Invocation {
        accounts,
        rent: Ok(RentFloors {
            empty: floor(0),
            game: floor(GameAccount::MAX_SIZE),
            user: floor(UserAccount::MAX_SIZE),
            ranked_game: floor(RankedGameState::LEN),
            oracle: floor(OraclePriceState::LEN),
        }),
    }
}

fn program_key(seeds: &[&[u8]]) -> (Pubkey, u8) {
    let (k, b) = SolKey::find_program_address(seeds, &sol(PROGRAM_ID));
    (k.to_bytes(), b)
}

fn ata(wallet: Pubkey, mint: Pubkey) -> Pubkey {
    spl_associated_token_account::get_associated_token_address(&sol(wallet), &sol(mint)).to_bytes()
}

fn token_data(owner: Pubkey, mint: Pubkey, amount: u64) -> Vec<u8> {
    let mut data = vec![0u8; 165];
    data[..32].copy_from_slice(&mint);
    data[32..64].copy_from_slice(&owner);
    data[64..72].copy_from_slice(&amount.to_le_bytes());
    data[108] = 1;
    data
}

fn token_account(owner: Pubkey, mint: Pubkey, amount: u64) -> Account {
    account(ata(owner, mint), TOKEN_PROGRAM_ID, floor(165), token_data(owner, mint, amount))
}

fn oracle_account(sol_price: u64, skr: u64, slice: u64) -> Account {
    let (k, bump) = program_key(&[b"igp_oracle"]);
    let state = OraclePriceState {
        discriminator: ORACLE_DISCRIMINATOR,
        sol_price_usd_micro_per_lamport: sol_price,
        skr_price_usd_micro_per_atom: skr,
        slice_price_usd_micro_per_atom: slice,
        bump,
    };
    account(k, PROGRAM_ID, floor(33), state.serialize())
}

fn game_state(owner: Pubkey) -> GameAccount {
    GameAccount {
        is_initialized: true,
        version: 2,
        game_title: TITLE,
        owner,
        dev_fee_bps: 1_500,
        game_to_protocol_share_bps: 2_500,
        game_cost: 0,
        game_url: [b'u'; 64],
        total_users: 3,
        total_revenue_usd_micro: 0,
    }
}

fn game_account(state: &GameAccount) -> Account {
    account(game_key(), PROGRAM_ID, floor(154), state.serialize())
}

fn game_key() -> Pubkey {
    program_key(&[b"igp_game", &TITLE]).0
}

fn treasury_key() -> Pubkey {
    program_key(&[b"igp_game_protocol", &TITLE]).0
}

fn is_store(effect: &Effect, at: usize, bytes: &[u8]) -> bool {
    match effect {
        Effect::Store { account, data } => *account == at && data.as_slice() == bytes,
        _ => false,
    }
}

fn is_move(effect: &Effect, a: usize, b: usize, n: u64) -> bool {
    match effect {
        Effect::MoveLamports { from, to, lamports } => *from == a && *to == b && *lamports == n,
        _ => false,
    }
}

fn assert_call(effect: &Effect, theirs: &SolInstruction, at: &[usize], seeds: &[&[u8]]) {
    match effect {
        Effect::Invoke { instruction, accounts, signer_seeds } => {
            assert_eq!(instruction.program_id, theirs.program_id.to_bytes());
            assert_eq!(instruction.data, theirs.data);
            assert_eq!(instruction.accounts.len(), theirs.accounts.len());
            for (a, b) in instruction.accounts.iter().zip(theirs.accounts.iter()) {
                assert_eq!(a.pubkey, b.pubkey.to_bytes());
                assert_eq!(a.is_signer, b.is_signer);
                assert_eq!(a.is_writable, b.is_writable);
            }
            assert_eq!(accounts.as_slice(), at);
            assert_eq!(signer_seeds.len(), seeds.len());
            for (a, b) in signer_seeds.iter().zip(seeds.iter()) {
                assert_eq!(a.as_slice(), *b);
            }
        }
        _ => panic!("not a call"),
    }
}

const ID: u64 = 42;

fn ranked_key() -> Pubkey {
    program_key(&[b"igp_ranked_game", &ID.to_le_bytes()]).0
}

fn ranked_bump() -> u8 {
    program_key(&[b"igp_ranked_game", &ID.to_le_bytes()]).1
}

fn ranked_state(status: RankedGameStatus) -> RankedGameState {
    RankedGameState {
        discriminator: RANKED_GAME_DISCRIMINATOR,
        ranked_game_id: ID,
        game: game_key(),
        entry_fee: 1_000,
        participant_count: 2,
        status,
        bump: ranked_bump(),
    }
}

fn ranked_account(status: RankedGameStatus) -> Account {
    account(ranked_key(), PROGRAM_ID, floor(62), ranked_state(status).serialize())
}

fn user_state(current: Pubkey) -> UserAccount {
    UserAccount {
        is_initialized: true,
        version: 1,
        bump: 255,
        owner: key(4),
        game: game_key(),
        username: [b'n'; 32],
        current_ranked_game: current,
        total_ranked_games_played: 7,
        total_wins: 1,
        total_usd_spent_micro: 0,
        total_usd_rewards_micro: 10,
    }
}

fn user_account(current: Pubkey) -> Account {
    account(key(7), PROGRAM_ID, floor(155), user_state(current).serialize())
}

fn stored_data(effect: &Effect) -> Vec<u8> {
    match effect {
        Effect::Store { data, .. } => data.clone(),
        _ => panic!("no store"),
    }
}

// ---------------------------------------------------------------------------
// Creating
// ---------------------------------------------------------------------------

fn create_accounts() -> Vec<Account> {
    let ranked = ranked_key();
    vec![
        signer(AUTHORITY),
        plain(ranked),
        game_account(&game_state(key(1))),
        plain(SYSTEM_PROGRAM_ID),
        plain(TOKEN_PROGRAM_ID),
        plain(ASSOCIATED_TOKEN_PROGRAM_ID),
        plain(key(66)),
        plain(USDC_MINT),
        plain(ata(ranked, USDC_MINT)),
        plain(SKR_MINT),
        plain(ata(ranked, SKR_MINT)),
        plain(SLICE_MINT),
        plain(ata(ranked, SLICE_MINT)),
    ]
}

fn create(accounts: Vec<Account>) -> (Result<(), ProgramError>, Vec<Effect>) {
    let mut effects = Effects::new();
    let r = create_ranked_game(&invocation(accounts), ID, 1_000, &mut effects);
    (r, effects.list)
}

fn new_ata(funder: Pubkey, wallet: Pubkey, mint: Pubkey) -> SolInstruction {
    spl_associated_token_account::instruction::create_associated_token_account(
        &sol(funder),
        &sol(wallet),
        &sol(mint),
        &spl_token::ID,
    )
}

#[test]
fn ranked_game_is_created() {
    let mut a = create_accounts();
    a[10].data = vec![0; 165];
    let (r, e) = create(a);
    assert_eq!(r, Ok(()));
    assert_eq!(e.len(), 4);
    let theirs = system_instruction::create_account(
        &sol(AUTHORITY),
        &sol(ranked_key()),
        floor(62),
        62,
        &sol(PROGRAM_ID),
    );
    assert_call(&e[0], &theirs, &[0, 1, 3], &[b"igp_ranked_game", &ID.to_le_bytes(), &[ranked_bump()]]);
    assert_call(&e[1], &new_ata(AUTHORITY, ranked_key(), USDC_MINT), &[0, 8, 1, 7, 3, 4, 5, 6], &[]);
    assert_call(&e[2], &new_ata(AUTHORITY, ranked_key(), SLICE_MINT), &[0, 12, 1, 11, 3, 4, 5, 6], &[]);
    let mut state = ranked_state(RankedGameStatus::Open);
    state.participant_count = 0;
    assert!(is_store(&e[3], 1, &state.serialize()));
}

#[test]
fn escrow_given_twice_is_made_once() {
    let usdc_ata = ata(ranked_key(), USDC_MINT);
    let mut a = create_accounts();
    a[10].key = usdc_ata;
    a[12].key = usdc_ata;
    let (r, e) = create(a);
    assert_eq!(r, Ok(()));
    assert_eq!(e.len(), 3);
    assert_call(&e[1], &new_ata(AUTHORITY, ranked_key(), USDC_MINT), &[0, 8, 1, 7, 3, 4, 5, 6], &[]);
    assert!(matches!(e[2], Effect::Store { account: 1, .. }));
    // the ranked game itself has data once it was created
    let mut a = create_accounts();
    a[8].key = ranked_key();
    let (r, e) = create(a);
    assert_eq!(r, Ok(()));
    assert_eq!(e.len(), 4);
    assert_call(&e[1], &new_ata(AUTHORITY, ranked_key(), SKR_MINT), &[0, 10, 1, 9, 3, 4, 5, 6], &[]);
    // an account that comes later does not exist yet
    let mut a = create_accounts();
    a[8].key = ata(ranked_key(), SKR_MINT);
    assert_eq!(create(a).0, Err(ProgramError::InvalidAccountData));
}

#[test]
fn create_ranked_refusals() {
    let mut a = create_accounts();
    a.pop();
    assert_eq!(create(a).0, Err(ProgramError::NotEnoughAccountKeys));
    let mut a = create_accounts();
    a[0].is_signer = false;
    assert_eq!(create(a).0, Err(ProgramError::MissingRequiredSignature));
    let mut a = create_accounts();
    a[0].key = key(1);
    assert_eq!(create(a).0, Err(ProgramError::InvalidAccountData));
    let mut a = create_accounts();
    a[1] = ranked_account(RankedGameStatus::Open);
    assert_eq!(create(a).0, Err(ProgramError::AccountAlreadyInitialized));
    let mut a = create_accounts();
    a[2].data.pop();
    assert_eq!(create(a).0, Err(ProgramError::BorshIoError));
    let mut a = create_accounts();
    a[2].data[0] = 0;
    assert_eq!(create(a).0, Err(ProgramError::InvalidAccountData));
    for mint in [7usize, 9, 11] {
        let mut a = create_accounts();
        a[mint].key = key(1);
        assert_eq!(create(a).0, Err(ProgramError::InvalidAccountData));
    }
    let mut a = create_accounts();
    a[1].key = key(1);
    assert_eq!(create(a).0, Err(ProgramError::InvalidAccountData));
    let mut a = create_accounts();
    a[8].key = key(1);
    let (r, e) = create(a);
    assert_eq!(r, Err(ProgramError::InvalidAccountData));
    assert_eq!(e.len(), 1);
}

// ---------------------------------------------------------------------------
// Joining
// ---------------------------------------------------------------------------

fn join_accounts(mint: Pubkey) -> Vec<Account> {
    vec![
        signer(key(4)),
        ranked_account(RankedGameStatus::Open),
        game_account(&game_state(key(1))),
        plain(treasury_key()),
        oracle_account(150_000_000, 20_000, 30_000),
        plain(SYSTEM_PROGRAM_ID),
        plain(TOKEN_PROGRAM_ID),
        plain(mint),
        plain(key(8)),
        plain(ata(ranked_key(), mint)),
        plain(ata(game_key(), mint)),
        plain(ata(treasury_key(), mint)),
        user_account(NO_KEY),
    ]
}

fn join(accounts: Vec<Account>, mint: Pubkey) -> (Result<(), ProgramError>, Vec<Effect>) {
    let mut effects = Effects::new();
    let r = join_ranked_game(&invocation(accounts), ID, mint, &mut effects);
    (r, effects.list)
}

#[test]
fn player_joins_with_sol() {
    let (r, e) = join(join_accounts(SOL_MINT), SOL_MINT);
    assert_eq!(r, Ok(()));
    assert_eq!(e.len(), 5);
    // $10.00 and a fee of $1.00, of which the protocol has a quarter, at $150 per SOL
    let pay = |to: Pubkey, n: u64| system_instruction::transfer(&sol(key(4)), &sol(to), n);
    assert_call(&e[0], &pay(ranked_key(), 66_666_667), &[0, 1, 5], &[]);
    assert_call(&e[1], &pay(game_key(), 5_000_000), &[0, 2, 5], &[]);
    assert_call(&e[2], &pay(treasury_key(), 1_666_667), &[0, 3, 5], &[]);
    let mut ranked = ranked_state(RankedGameStatus::Open);
    ranked.participant_count = 3;
    assert!(is_store(&e[3], 1, &ranked.serialize()));
    let mut user = user_state(ranked_key());
    user.total_ranked_games_played = 8;
    assert!(is_store(&e[4], 12, &user.serialize()));
}

#[test]
fn player_joins_with_usdc() {
    let (r, e) = join(join_accounts(USDC_MINT), USDC_MINT);
    assert_eq!(r, Ok(()));
    assert_eq!(e.len(), 5);
    let pay = |to: Pubkey, n: u64| {
        spl_token::instruction::transfer_checked(
            &spl_token::ID,
            &sol(key(8)),
            &sol(USDC_MINT),
            &sol(ata(to, USDC_MINT)),
            &sol(key(4)),
            &[],
            n,
            6,
        )
        .unwrap()
    };
    assert_call(&e[0], &pay(ranked_key(), 10_000_000), &[8, 7, 9, 0, 6], &[]);
    assert_call(&e[1], &pay(game_key(), 750_000), &[8, 7, 10, 0, 6], &[]);
    assert_call(&e[2], &pay(treasury_key(), 250_000), &[8, 7, 11, 0, 6], &[]);
}

#[test]
fn free_entry_pays_no_cuts() {
    let mut a = join_accounts(SOL_MINT);
    let mut state = ranked_state(RankedGameStatus::Open);
    state.entry_fee = 0;
    a[1].data = state.serialize();
    let (r, e) = join(a, SOL_MINT);
    assert_eq!(r, Ok(()));
    assert_eq!(e.len(), 3);
}

#[test]
fn nobody_joins_twice() {
    let (_, e) = join(join_accounts(SOL_MINT), SOL_MINT);
    let mut a = join_accounts(SOL_MINT);
    a[1].data = stored_data(&e[3]);
    a[12].data = stored_data(&e[4]);
    let (r, e) = join(a, SOL_MINT);
    assert_eq!(r, Err(ProgramError::InvalidAccountData));
    assert_eq!(e.len(), 0);
}

#[test]
fn nobody_joins_unless_open() {
    for status in [RankedGameStatus::InProgress, RankedGameStatus::Finished] {
        let mut a = join_accounts(SOL_MINT);
        a[1] = ranked_account(status);
        let (r, e) = join(a, SOL_MINT);
        assert_eq!(r, Err(ProgramError::InvalidAccountData));
        assert_eq!(e.len(), 0);
    }
}

#[test]
fn join_refusals() {
    let m = SOL_MINT;
    let mut a = join_accounts(m);
    a.pop();
    assert_eq!(join(a, m).0, Err(ProgramError::NotEnoughAccountKeys));
    let mut a = join_accounts(m);
    a[0].is_signer = false;
    assert_eq!(join(a, m).0, Err(ProgramError::MissingRequiredSignature));
    for at in [1usize, 2, 12] {
        let mut a = join_accounts(m);
        a[at].owner = key(1);
        assert_eq!(join(a, m).0, Err(ProgramError::IllegalOwner));
        let mut a = join_accounts(m);
        a[at].data.pop();
        assert_eq!(join(a, m).0, Err(ProgramError::InvalidAccountData));
    }
    for at in [2usize, 12] {
        let mut a = join_accounts(m);
        a[at].data[0] = 0;
        assert_eq!(join(a, m).0, Err(ProgramError::UninitializedAccount));
    }
    for at in [1usize, 2, 3] {
        let mut a = join_accounts(m);
        a[at].key = key(1);
        assert_eq!(join(a, m).0, Err(ProgramError::InvalidAccountData));
    }
    let mut a = join_accounts(m);
    a[1].data[0] = b'X';
    assert_eq!(join(a, m).0, Err(ProgramError::InvalidAccountData));
    let mut a = join_accounts(m);
    a[0].key = key(5);
    assert_eq!(join(a, m).0, Err(ProgramError::IllegalOwner));
    assert_eq!(join(join_accounts(m), key(1)).0, Err(ProgramError::InvalidAccountData));
    let mut a = join_accounts(m);
    let mut state = game_state(key(1));
    state.game_to_protocol_share_bps = 10_001;
    a[2].data = state.serialize();
    assert_eq!(join(a, m).0, Err(ProgramError::InvalidInstructionData));
    let mut a = join_accounts(m);
    a[4] = oracle_account(0, 1, 1);
    assert_eq!(join(a, m).0, Err(ProgramError::InvalidAccountData));
    let mut a = join_accounts(m);
    let mut full = ranked_state(RankedGameStatus::Open);
    full.participant_count = u32::MAX;
    a[1].data = full.serialize();
    let (r, e) = join(a, m);
    assert_eq!(r, Err(ProgramError::InvalidAccountData));
    assert_eq!(e.len(), 3);
}

#[test]
fn join_with_tokens_refusals() {
    let m = SKR_MINT;
    for at in [7usize, 9, 10, 11] {
        let mut a = join_accounts(m);
        a[at].key = key(1);
        assert_eq!(join(a, m).0, Err(ProgramError::InvalidAccountData));
    }
    let mut a = join_accounts(m);
    a[6].key = key(1);
    assert_eq!(join(a, m).0, Err(ProgramError::IncorrectProgramId));
}

// ---------------------------------------------------------------------------
// Status
// ---------------------------------------------------------------------------

#[test]
fn status_is_set() {
    let inv = invocation(vec![signer(AUTHORITY), ranked_account(RankedGameStatus::Open)]);
    let mut effects = Effects::new();
    assert_eq!(update_ranked_game_status(&inv, ID, 2, &mut effects), Ok(()));
    assert!(is_store(&effects.list[0], 1, &ranked_state(RankedGameStatus::Finished).serialize()));
    assert_eq!(
        update_ranked_game_status(&inv, ID, 3, &mut Effects::new()),
        Err(ProgramError::InvalidInstructionData)
    );
    assert_eq!(
        update_ranked_game_status(&inv, ID + 1, 2, &mut Effects::new()),
        Err(ProgramError::InvalidAccountData)
    );
}

#[test]
fn status_refusals() {
    let run = |accounts: Vec<Account>| update_ranked_game_status(&invocation(accounts), ID, 1, &mut Effects::new());
    assert_eq!(run(vec![signer(AUTHORITY)]), Err(ProgramError::NotEnoughAccountKeys));
    let game = || ranked_account(RankedGameStatus::Open);
    assert_eq!(run(vec![plain(AUTHORITY), game()]), Err(ProgramError::MissingRequiredSignature));
    assert_eq!(run(vec![signer(key(1)), game()]), Err(ProgramError::InvalidAccountData));
    let mut other = game();
    other.owner = key(1);
    assert_eq!(run(vec![signer(AUTHORITY), other]), Err(ProgramError::IllegalOwner));
}

// ---------------------------------------------------------------------------
// Rewarding
// ---------------------------------------------------------------------------

fn reward_accounts() -> Vec<Account> {
    let (ranked, winner) = (ranked_key(), key(4));
    let mut ranked_game = ranked_account(RankedGameStatus::Finished);
    ranked_game.lamports = floor(62) + 1_001;
    vec![
        signer(AUTHORITY),
        ranked_game,
        plain(winner),
        user_account(ranked),
        oracle_account(3, 20_000, 30_000),
        plain(SYSTEM_PROGRAM_ID),
        plain(TOKEN_PROGRAM_ID),
        plain(ASSOCIATED_TOKEN_PROGRAM_ID),
        plain(key(66)),
        plain(USDC_MINT),
        token_account(ranked, USDC_MINT, 5_000_001),
        plain(ata(winner, USDC_MINT)),
        plain(SKR_MINT),
        token_account(ranked, SKR_MINT, 3_000_000),
        token_account(winner, SKR_MINT, 1),
        plain(SLICE_MINT),
        token_account(ranked, SLICE_MINT, 0),
        plain(ata(winner, SLICE_MINT)),
    ]
}

fn reward(accounts: Vec<Account>, bps: u16) -> (Result<(), ProgramError>, Vec<Effect>) {
    let mut effects = Effects::new();
    let r = reward_winner(&invocation(accounts), ID, bps, &mut effects);
    (r, effects.list)
}

#[test]
fn winner_is_paid_from_every_pool() {
    let (r, e) = reward(reward_accounts(), 5_000);
    assert_eq!(r, Ok(()));
    assert_eq!(e.len(), 5);
    let id = ID.to_le_bytes();
    let bump = [ranked_bump()];
    let seeds: [&[u8]; 3] = [b"igp_ranked_game", &id, &bump];
    assert!(is_move(&e[0], 1, 2, 500));
    assert_call(&e[1], &new_ata(AUTHORITY, key(4), USDC_MINT), &[0, 11, 2, 9, 5, 6, 7, 8], &[]);
    let pay = |mint: Pubkey, n: u64| {
        spl_token::instruction::transfer_checked(
            &spl_token::ID,
            &sol(ata(ranked_key(), mint)),
            &sol(mint),
            &sol(ata(key(4), mint)),
            &sol(ranked_key()),
            &[],
            n,
            6,
        )
        .unwrap()
    };
    assert_call(&e[2], &pay(USDC_MINT, 2_500_000), &[10, 9, 11, 1, 6], &seeds);
    assert_call(&e[3], &pay(SKR_MINT, 1_500_000), &[13, 12, 14, 1, 6], &seeds);
    let mut user = user_state(NO_KEY);
    user.total_wins = 2;
    // 500 lamports at 3 each, $2.50 in USDC, and 1.5 SKR at $0.02
    user.total_usd_rewards_micro = 10 + 1_500 + 2_500_000 + 30_000;
    assert!(is_store(&e[4], 3, &user.serialize()));
}

#[test]
fn whole_payout_empties_the_pools() {
    let (r, e) = reward(reward_accounts(), 10_000);
    assert_eq!(r, Ok(()));
    assert!(is_move(&e[0], 1, 2, 1_001));
}

#[test]
fn nobody_is_rewarded_twice() {
    let (_, e) = reward(reward_accounts(), 5_000);
    let mut a = reward_accounts();
    a[3].data = stored_data(&e[4]);
    let (r, e) = reward(a, 5_000);
    assert_eq!(r, Err(ProgramError::InvalidAccountData));
    assert_eq!(e.len(), 0);
}

#[test]
fn nobody_is_rewarded_before_the_end() {
    let mut a = reward_accounts();
    a[1] = ranked_account(RankedGameStatus::InProgress);
    let (r, e) = reward(a, 5_000);
    assert_eq!(r, Err(ProgramError::InvalidAccountData));
    assert_eq!(e.len(), 0);
}

#[test]
fn reward_refusals() {
    let mut a = reward_accounts();
    a.pop();
    assert_eq!(reward(a, 1).0, Err(ProgramError::NotEnoughAccountKeys));
    let mut a = reward_accounts();
    a[0].is_signer = false;
    assert_eq!(reward(a, 1).0, Err(ProgramError::MissingRequiredSignature));
    let mut a = reward_accounts();
    a[0].key = key(1);
    assert_eq!(reward(a, 1).0, Err(ProgramError::InvalidAccountData));
    assert_eq!(reward(reward_accounts(), 10_001).0, Err(ProgramError::InvalidInstructionData));
    for at in [9usize, 12, 15, 10] {
        let mut a = reward_accounts();
        a[at].key = key(1);
        assert_eq!(reward(a, 1).0, Err(ProgramError::InvalidAccountData));
    }
    for at in [1usize, 3] {
        let mut a = reward_accounts();
        a[at].owner = key(1);
        assert_eq!(reward(a, 1).0, Err(ProgramError::IllegalOwner));
    }
    let mut a = reward_accounts();
    a[3].data[0] = 0;
    assert_eq!(reward(a, 1).0, Err(ProgramError::UninitializedAccount));
    let mut a = reward_accounts();
    a[2].key = key(1);
    assert_eq!(reward(a, 1).0, Err(ProgramError::IllegalOwner));
    let mut a = reward_accounts();
    a[11].key = key(1);
    assert_eq!(reward(a, 5_000).0, Err(ProgramError::InvalidAccountData));
    let mut a = reward_accounts();
    a[6].key = key(1);
    let (r, e) = reward(a, 5_000);
    assert_eq!(r, Err(ProgramError::IncorrectProgramId));
    assert_eq!(e.len(), 2);
    let mut a = reward_accounts();
    let mut user = user_state(ranked_key());
    user.total_wins = u32::MAX;
    a[3].data = user.serialize();
    assert_eq!(reward(a, 5_000).0, Err(ProgramError::InvalidAccountData));
}

// ---------------------------------------------------------------------------
// Closing
// ---------------------------------------------------------------------------

fn close_accounts() -> Vec<Account> {
    let ranked = ranked_key();
    let mut mint_data = vec![0u8; 82];
    mint_data[44] = 6;
    vec![
        signer(AUTHORITY),
        ranked_account(RankedGameStatus::Finished),
        plain(TOKEN_PROGRAM_ID),
        account(USDC_MINT, TOKEN_PROGRAM_ID, floor(82), mint_data),
        token_account(ranked, USDC_MINT, 9),
        token_account(AUTHORITY, USDC_MINT, 0),
        plain(SKR_MINT),
        token_account(ranked, SKR_MINT, 0),
        plain(ata(AUTHORITY, SKR_MINT)),
        plain(SLICE_MINT),
        plain(ata(ranked, SLICE_MINT)),
        plain(ata(AUTHORITY, SLICE_MINT)),
    ]
}

fn close(accounts: Vec<Account>) -> (Result<(), ProgramError>, Vec<Effect>) {
    let mut effects = Effects::new();
    let r = close_ranked_game(&invocation(accounts), ID, &mut effects);
    (r, effects.list)
}

#[test]
fn ranked_game_is_closed() {
    let (r, e) = close(close_accounts());
    assert_eq!(r, Ok(()));
    assert_eq!(e.len(), 5);
    let id = ID.to_le_bytes();
    let bump = [ranked_bump()];
    let seeds: [&[u8]; 3] = [b"igp_ranked_game", &id, &bump];
    let sweep = spl_token::instruction::transfer_checked(
        &spl_token::ID,
        &sol(ata(ranked_key(), USDC_MINT)),
        &sol(USDC_MINT),
        &sol(ata(AUTHORITY, USDC_MINT)),
        &sol(ranked_key()),
        &[],
        9,
        6,
    )
    .unwrap();
    assert_call(&e[0], &sweep, &[4, 3, 5, 1, 2], &seeds);
    let shut = |mint: Pubkey| {
        spl_token::instruction::close_account(
            &spl_token::ID,
            &sol(ata(ranked_key(), mint)),
            &sol(AUTHORITY),
            &sol(ranked_key()),
            &[],
        )
        .unwrap()
    };
    assert_call(&e[1], &shut(USDC_MINT), &[4, 0, 1, 2], &seeds);
    assert_call(&e[2], &shut(SKR_MINT), &[7, 0, 1, 2], &seeds);
    assert!(matches!(e[3], Effect::ZeroData { account: 1 }));
    assert!(matches!(e[4], Effect::DrainLamports { from: 1, to: 0 }));
}

#[test]
fn escrow_given_twice_is_closed_once() {
    let mut a = close_accounts();
    a[7] = token_account(ranked_key(), USDC_MINT, 9);
    a[10] = token_account(ranked_key(), USDC_MINT, 9);
    let (r, e) = close(a);
    assert_eq!(r, Ok(()));
    assert_eq!(e.len(), 4);
    assert!(matches!(e[2], Effect::ZeroData { account: 1 }));
    let mut a = close_accounts();
    a[10] = token_account(ranked_key(), SKR_MINT, 0);
    let (r, e) = close(a);
    assert_eq!(r, Ok(()));
    assert_eq!(e.len(), 5);
    // an account that comes later is not closed yet
    let mut a = close_accounts();
    a[4] = token_account(ranked_key(), SKR_MINT, 0);
    let (r, e) = close(a);
    assert_eq!(r, Err(ProgramError::InvalidAccountData));
    assert_eq!(e.len(), 0);
}

#[test]
fn closed_game_is_gone() {
    let mut a = join_accounts(SOL_MINT);
    a[1].data = vec![0; 62];
    assert_eq!(join(a, SOL_MINT).0, Err(ProgramError::InvalidAccountData));
}

#[test]
fn close_refusals() {
    let mut a = close_accounts();
    a.pop();
    assert_eq!(close(a).0, Err(ProgramError::NotEnoughAccountKeys));
    let mut a = close_accounts();
    a[0].is_signer = false;
    assert_eq!(close(a).0, Err(ProgramError::MissingRequiredSignature));
    for at in [0usize, 1, 3, 4, 5, 6, 9] {
        let mut a = close_accounts();
        a[at].key = key(1);
        assert_eq!(close(a).0, Err(ProgramError::InvalidAccountData), "account {}", at);
    }
    let mut a = close_accounts();
    a[1].owner = key(1);
    assert_eq!(close(a).0, Err(ProgramError::IllegalOwner));
    let mut a = close_accounts();
    a[4].data.truncate(71);
    assert_eq!(close(a).0, Err(ProgramError::InvalidAccountData));
    let mut a = close_accounts();
    a[5].data.clear();
    assert_eq!(close(a).0, Err(ProgramError::UninitializedAccount));
    let mut a = close_accounts();
    a[3].data.truncate(44);
    assert_eq!(close(a).0, Err(ProgramError::InvalidAccountData));
    let mut a = close_accounts();
    a[2].key = key(1);
    assert_eq!(close(a).0, Err(ProgramError::IncorrectProgramId));
}
