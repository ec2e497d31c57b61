//! Constants, derived addresses and calls, against the crates that define them.

use indie_games::constants::{
    PaymentToken, ASSOCIATED_TOKEN_PROGRAM_ID, AUTHORITY, GAME_PROTOCOL_SEED, GAME_SEED, NO_KEY,
    ORACLE_DISCRIMINATOR, ORACLE_SEED, PROGRAM_ID, RANKED_GAME_DISCRIMINATOR, RANKED_GAME_SEED,
    SKR_MINT, SLICE_MINT, SOL_MINT, SYSTEM_PROGRAM_ID, TOKEN_PROGRAM_ID, USDC_MINT, USER_SEED,
};
use indie_games::cpi::{
    close_account, get_associated_token_address, get_associated_token_address_with_program_id,
    transfer, transfer_checked, unpack_token_account,
};
use indie_games::error::ProgramError;
use indie_games::helpers::{
    check_token_account, find_game_pda, find_game_protocol_pda, find_oracle_pda,
    find_ranked_game_pda, find_user_account_pda, token_account_call, token_account_call_idempotent,
};
use indie_games::runtime::Instruction;
use solana_program::program_option::COption;
use solana_program::program_pack::Pack;
use solana_program::pubkey::Pubkey;

fn text(key: [u8; 32]) -> String {
    Pubkey::new_from_array(key).to_string()
}

fn key(n: u8) -> [u8; 32] {
    [n; 32]
}

fn sol(key: [u8; 32]) -> Pubkey {
    Pubkey::new_from_array(key)
}

fn assert_same(ours: &Instruction, theirs: &solana_program::instruction::Instruction) {
    assert_eq!(ours.program_id, theirs.program_id.to_bytes());
    assert_eq!(ours.data, theirs.data);
    assert_eq!(ours.accounts.len(), theirs.accounts.len());
    for (a, b) in ours.accounts.iter().zip(theirs.accounts.iter()) {
        assert_eq!(a.pubkey, b.pubkey.to_bytes());
        assert_eq!(a.is_signer, b.is_signer);
        assert_eq!(a.is_writable, b.is_writable);
    }
}

#[test]
fn addresses_in_base58() {
    assert_eq!(text(PROGRAM_ID), "iGPa16mPdKghdCffhHyXs5HBUAZP7EvJohpGbQgnBiv");
    assert_eq!(text(AUTHORITY), "iGPbBHvkpLmVUWVExoGspENmjVr5As2zSRavnmR811h");
    assert_eq!(text(SKR_MINT), "SKRbvo6Gf7GondiT3BbTfuRDPqLWei4j2Qy2NPGZhW3");
    assert_eq!(text(SLICE_MINT), "SLiCEp8HFG2E3Hai7XB7UKtgbd7heUgqn5tV7zfBJNX");
    assert_eq!(text(USDC_MINT), "EPjFWdd5AufqSSqeM2qN1xzybapC8G4wEGGkZwyTDt1v");
    assert_eq!(text(SOL_MINT), "So11111111111111111111111111111111111111112");
}

#[test]
fn addresses_of_programs() {
    assert_eq!(TOKEN_PROGRAM_ID, spl_token::ID.to_bytes());
    assert_eq!(ASSOCIATED_TOKEN_PROGRAM_ID, spl_associated_token_account::ID.to_bytes());
    assert_eq!(SYSTEM_PROGRAM_ID, solana_program::system_program::ID.to_bytes());
    assert_eq!(NO_KEY, Pubkey::default().to_bytes());
}

#[test]
fn seeds_and_discriminators_in_ascii() {
    assert_eq!(&ORACLE_SEED, b"igp_oracle");
    assert_eq!(&GAME_SEED, b"igp_game");
    assert_eq!(&GAME_PROTOCOL_SEED, b"igp_game_protocol");
    assert_eq!(&USER_SEED, b"igp_user");
    assert_eq!(&RANKED_GAME_SEED, b"igp_ranked_game");
    assert_eq!(&RANKED_GAME_DISCRIMINATOR, b"RNKDGAME");
    assert_eq!(&ORACLE_DISCRIMINATOR, b"ORACLE11");
}

#[test]
fn mints_name_tokens() {
    for token in [PaymentToken::SOL, PaymentToken::SKR, PaymentToken::SLICE, PaymentToken::USDC] {
        assert_eq!(PaymentToken::from_mint(&token.mint()), Some(token));
    }
    assert_eq!(PaymentToken::SKR.mint(), SKR_MINT);
    assert_eq!(PaymentToken::from_mint(&key(1)), None);
}

#[test]
fn program_addresses() {
    let program = sol(PROGRAM_ID);
    let title = [7u8; 32];
    let expect = |seeds: &[&[u8]]| {
        let (k, b) = Pubkey::find_program_address(seeds, &program);
        Some((k.to_bytes(), b))
    };
    assert_eq!(find_oracle_pda(), expect(&[b"igp_oracle"]));
    assert_eq!(find_game_pda(&title), expect(&[b"igp_game", &title]));
    assert_eq!(find_game_protocol_pda(&title), expect(&[b"igp_game_protocol", &title]));
    assert_eq!(
        find_user_account_pda(&key(1), &key(2), 1_700_000_000),
        expect(&[b"igp_user", &key(1), &key(2), &1_700_000_000u64.to_le_bytes()])
    );
    assert_eq!(
        find_ranked_game_pda(0x0102_0304_0506_0708),
        expect(&[b"igp_ranked_game", &0x0102_0304_0506_0708u64.to_le_bytes()])
    );
}

#[test]
fn no_program_address_is_all_zeros() {
    // a derived address lies off the curve, and 32 zero bytes lie on it
    assert!(sol(NO_KEY).is_on_curve());
    for id in 0..20u64 {
        let (address, _) = find_ranked_game_pda(id).unwrap();
        assert!(!sol(address).is_on_curve());
        assert_ne!(address, NO_KEY);
    }
}

#[test]
fn token_account_addresses() {
    let wallet = sol(key(3));
    let expected = spl_associated_token_account::get_associated_token_address(&wallet, &sol(USDC_MINT));
    assert_eq!(get_associated_token_address(&key(3), &USDC_MINT), Some(expected.to_bytes()));
    let other = spl_associated_token_account::get_associated_token_address_with_program_id(
        &wallet,
        &sol(USDC_MINT),
        &sol(key(9)),
    );
    assert_eq!(
        get_associated_token_address_with_program_id(&key(3), &USDC_MINT, &key(9)),
        Some(other.to_bytes())
    );
    assert_eq!(check_token_account(&key(3), &USDC_MINT, &expected.to_bytes()), Ok(()));
    assert_eq!(
        check_token_account(&key(3), &USDC_MINT, &key(4)),
        Err(ProgramError::InvalidAccountData)
    );
}

#[test]
fn token_account_creation_calls() {
    let ours = token_account_call(&key(1), &key(2), &SKR_MINT, &TOKEN_PROGRAM_ID).ok().unwrap();
    let theirs = spl_associated_token_account::instruction::create_associated_token_account(
        &sol(key(1)),
        &sol(key(2)),
        &sol(SKR_MINT),
        &spl_token::ID,
    );
    assert_same(&ours, &theirs);
    let ours = token_account_call_idempotent(&key(1), &key(2), &SKR_MINT).ok().unwrap();
    let theirs = spl_associated_token_account::instruction::create_associated_token_account_idempotent(
        &sol(key(1)),
        &sol(key(2)),
        &sol(SKR_MINT),
        &spl_token::ID,
    );
    assert_same(&ours, &theirs);
}

#[test]
fn token_calls() {
    let ours = transfer(&TOKEN_PROGRAM_ID, &key(1), &key(2), &key(3), 77).ok().unwrap();
    let theirs =
        spl_token::instruction::transfer(&spl_token::ID, &sol(key(1)), &sol(key(2)), &sol(key(3)), &[], 77).unwrap();
    assert_same(&ours, &theirs);
    let ours =
        transfer_checked(&TOKEN_PROGRAM_ID, &key(1), &key(4), &key(2), &key(3), 0x1122_3344, 6).ok().unwrap();
    let theirs = spl_token::instruction::transfer_checked(
        &spl_token::ID,
        &sol(key(1)),
        &sol(key(4)),
        &sol(key(2)),
        &sol(key(3)),
        &[],
        0x1122_3344,
        6,
    )
    .unwrap();
    assert_same(&ours, &theirs);
    let ours = close_account(&TOKEN_PROGRAM_ID, &key(1), &key(2), &key(3)).ok().unwrap();
    let theirs =
        spl_token::instruction::close_account(&spl_token::ID, &sol(key(1)), &sol(key(2)), &sol(key(3)), &[]).unwrap();
    assert_same(&ours, &theirs);
}

fn metas(ix: &Instruction) -> Vec<([u8; 32], bool, bool)> {
    ix.accounts.iter().map(|m| (m.pubkey, m.is_signer, m.is_writable)).collect()
}

#[test]
fn token_calls_in_bytes() {
    let ix = transfer(&TOKEN_PROGRAM_ID, &key(1), &key(2), &key(3), 0x0102).ok().unwrap();
    assert_eq!(ix.program_id, TOKEN_PROGRAM_ID);
    assert_eq!(ix.data, vec![3, 2, 1, 0, 0, 0, 0, 0, 0]);
    assert_eq!(metas(&ix), vec![(key(1), false, true), (key(2), false, true), (key(3), true, false)]);
    let ix = transfer_checked(&TOKEN_PROGRAM_ID, &key(1), &key(4), &key(2), &key(3), 0x0102, 6).ok().unwrap();
    assert_eq!(ix.data, vec![12, 2, 1, 0, 0, 0, 0, 0, 0, 6]);
    assert_eq!(
        metas(&ix),
        vec![(key(1), false, true), (key(4), false, false), (key(2), false, true), (key(3), true, false)]
    );
    let ix = close_account(&TOKEN_PROGRAM_ID, &key(1), &key(2), &key(3)).ok().unwrap();
    assert_eq!(ix.data, vec![9]);
    assert_eq!(metas(&ix), vec![(key(1), false, true), (key(2), false, true), (key(3), true, false)]);
}

#[test]
fn token_account_creation_in_bytes() {
    let address = get_associated_token_address(&key(2), &SKR_MINT).unwrap();
    let expected = vec![
        (key(1), true, true),
        (address, false, true),
        (key(2), false, false),
        (SKR_MINT, false, false),
        (SYSTEM_PROGRAM_ID, false, false),
        (TOKEN_PROGRAM_ID, false, false),
    ];
    let ix = token_account_call(&key(1), &key(2), &SKR_MINT, &TOKEN_PROGRAM_ID).ok().unwrap();
    assert_eq!(ix.program_id, ASSOCIATED_TOKEN_PROGRAM_ID);
    assert_eq!(ix.data, vec![0]);
    assert_eq!(metas(&ix), expected);
    let ix = token_account_call_idempotent(&key(1), &key(2), &SKR_MINT).ok().unwrap();
    assert_eq!(ix.data, vec![1]);
    assert_eq!(metas(&ix), expected);
}

#[test]
fn token_calls_refuse_other_programs() {
    assert_eq!(
        transfer(&key(9), &key(1), &key(2), &key(3), 1).err(),
        Some(ProgramError::IncorrectProgramId)
    );
    assert_eq!(
        transfer_checked(&key(9), &key(1), &key(4), &key(2), &key(3), 1, 6).err(),
        Some(ProgramError::IncorrectProgramId)
    );
    assert_eq!(
        close_account(&key(9), &key(1), &key(2), &key(3)).err(),
        Some(ProgramError::IncorrectProgramId)
    );
}

fn token_state(state: spl_token::state::AccountState, close_authority: COption<Pubkey>) -> Vec<u8> {
    let mut data = vec![0u8; spl_token::state::Account::LEN];
    spl_token::state::Account {
        mint: sol(USDC_MINT),
        owner: sol(key(5)),
        amount: 0x0102_0304_0506_0708,
        delegate: COption::Some(sol(key(6))),
        state,
        is_native: COption::Some(3),
        delegated_amount: 9,
        close_authority,
    }
    .pack_into_slice(&mut data);
    data
}

#[test]
fn token_accounts_are_read() {
    for state in [spl_token::state::AccountState::Initialized, spl_token::state::AccountState::Frozen] {
        for authority in [COption::None, COption::Some(sol(key(8)))] {
            let t = unpack_token_account(&token_state(state, authority)).unwrap();
            assert_eq!(t.mint, USDC_MINT);
            assert_eq!(t.owner, key(5));
            assert_eq!(t.amount, 0x0102_0304_0506_0708);
        }
    }
}

#[test]
fn other_data_is_no_token_account() {
    let good = token_state(spl_token::state::AccountState::Initialized, COption::None);
    let refused = Err(ProgramError::InvalidAccountData);
    assert_eq!(
        unpack_token_account(&token_state(spl_token::state::AccountState::Uninitialized, COption::None)),
        refused
    );
    assert_eq!(unpack_token_account(&good[..164]), refused);
    assert_eq!(unpack_token_account(&[]), refused);
    for at in [72usize, 108, 109, 129] {
        let mut bad = good.clone();
        bad[at] = 3;
        assert_eq!(unpack_token_account(&bad), refused, "byte {}", at);
    }
    let mut longer = good.clone();
    longer.push(0);
    assert_eq!(unpack_token_account(&longer), refused);
}
