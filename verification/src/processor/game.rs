//! Games: their accounts, fees and income.

use crate::constants::{
    same_key, PaymentToken, Pubkey, AUTHORITY, CURRENT_GAME_STATE_VERSION, PROGRAM_ID,
    TOKEN_PROGRAM_ID,
};
use crate::cpi::{
    create_allocate, create_assign, create_transfer, is_token_account, is_unused_token_account, system_allocate,
    system_assign, system_transfer, token_amount, token_mint, token_owner, token_transfer,
    transfer, unpack_token_account,
};
use crate::error::ProgramError;
use crate::helpers::{
    add_bump, assert_authority, bump_for, check_token_account, creation_call, decimals_of,
    dev_fee_allowed, fee_floor, find_game_pda, find_game_protocol_pda, game_of,
    game_protocol_seed_list, game_protocol_seeds, game_seed_list, game_seeds, load_game,
    load_oracle, load_user, low_64, matching_bump, oracle_of, paid_with, protocol_share_allowed,
    share_floor, surplus, token_account_call_idempotent, token_account_check, token_decimals,
    usd_value, user_of, validate_dev_fee_bps, validate_protocol_share_bps, value_of, with_bump,
    BPS_DENOMINATOR,
};
use crate::processor::oracle::{price_for, price_of};
use crate::runtime::{
    accept, call, refuse, seed_bytes, signed_call, store_outcome, Effect, EffectView, Effects,
    Invocation, Outcome, Payout,
};
use crate::state::game::{GameAccount, GameAccountV1};
use crate::state::oracle::OraclePriceState;
use crate::state::user_account::UserAccount;
use vstd::prelude::*;

verus! {

// ---------------------------------------------------------------------------
// Creating a game
// ---------------------------------------------------------------------------

/// The effects of [`open_account`].
pub open spec fn open_account_effects(
    inv: Invocation,
    account: usize,
    needed: u64,
    space: u64,
    seeds: Seq<Seq<u8>>,
    log: Seq<EffectView>,
) -> Seq<EffectView> {
    let payer = inv.accounts@[0].key@;
    let key = inv.accounts@[account as int].key@;
    let current = inv.accounts@[account as int].lamports;
    let log = if current < needed {
        log.push(call(system_transfer(payer, key, (needed - current) as u64), seq![0, account, 15]))
    } else {
        log
    };
    log.push(signed_call(system_allocate(key, space), seq![account, 15], seeds)).push(
        signed_call(system_assign(key, PROGRAM_ID@), seq![account, 15], seeds),
    )
}

/// Turns the account at one of the program's addresses into one of its own: with
/// `needed` lamports at least, which the payer tops up, and `space` bytes. The
/// accounts are those of [`create_game`].
fn open_account(
    inv: &Invocation,
    account: usize,
    needed: u64,
    space: u64,
    seeds: Vec<Vec<u8>>,
    effects: &mut Effects,
)
    requires
        16 <= inv.accounts@.len(),
        account < inv.accounts@.len(),
    ensures
        final(effects)@ == open_account_effects(
            *inv,
            account,
            needed,
            space,
            seed_bytes(seeds@),
            old(effects)@,
        ),
{
    let payer = &inv.accounts[0].key;
    let key = &inv.accounts[account].key;
    let current: u64 = inv.accounts[account].lamports;
    if current < needed {
        effects.invoke(create_transfer(payer, key, needed - current), vec![0, account, 15]);
    }
    let copy = seeds.clone();
    assert(seed_bytes(copy@) =~= seed_bytes(seeds@)) by {
        assert forall|i: int| 0 <= i < seeds@.len() implies #[trigger] copy@[i]@ == seeds@[i]@ by {
            assert(cloned(seeds@[i], copy@[i]));
            assert(copy@[i]@ =~= seeds@[i]@);
        }
    }
    effects.invoke_signed(create_allocate(key, space), vec![account, 15], copy);
    effects.invoke_signed(create_assign(key, &PROGRAM_ID), vec![account, 15], seeds);
}

/// What [`ensure_token_account`] leaves behind.
pub open spec fn ensure_token_account_outcome(
    inv: Invocation,
    wallet: usize,
    token: PaymentToken,
    ata: usize,
    mint: usize,
    log: Seq<EffectView>,
) -> Outcome {
    let a = inv.accounts@;
    if a[mint as int].key@ != token.spec_mint()@ {
        refuse(log, ProgramError::InvalidAccountData)
    } else {
        match token_account_check(a[wallet as int].key@, a[mint as int].key@, a[ata as int].key@) {
            Err(e) => refuse(log, e),
            Ok(()) => match creation_call(
                a[0].key@,
                a[wallet as int].key@,
                a[mint as int].key@,
                TOKEN_PROGRAM_ID@,
                1,
            ) {
                Err(e) => refuse(log, e),
                Ok(ix) => accept(log.push(call(ix, seq![0, ata, wallet, mint, 15, 12, 14]))),
            },
        }
    }
}

/// Creates the token account of one of the program's accounts for one token,
/// unless it exists. The accounts are those of [`create_game`].
fn ensure_token_account(
    inv: &Invocation,
    wallet: usize,
    token: PaymentToken,
    ata: usize,
    mint: usize,
    effects: &mut Effects,
) -> (r: Result<(), ProgramError>)
    requires
        16 <= inv.accounts@.len(),
        wallet < 16,
        ata < 16,
        mint < 16,
    ensures
        (final(effects)@, r) == ensure_token_account_outcome(*inv, wallet, token, ata, mint, old(effects)@),
{
    let owner = &inv.accounts[0].key;
    let wallet_key = &inv.accounts[wallet].key;
    let mint_key = &inv.accounts[mint].key;
    if !same_key(mint_key, &token.mint()) {
        return Err(ProgramError::InvalidAccountData);
    }
    check_token_account(wallet_key, mint_key, &inv.accounts[ata].key)?;
    let ix = token_account_call_idempotent(owner, wallet_key, mint_key)?;
    effects.invoke(ix, vec![0, ata, wallet, mint, 15, 12, 14]);
    Ok(())
}

/// What [`ensure_token_accounts`] leaves behind.
pub open spec fn ensure_token_accounts_outcome(
    inv: Invocation,
    wallet: usize,
    log: Seq<EffectView>,
) -> Outcome {
    let skr_ata = (wallet + 1) as usize;
    let slice_ata = (wallet + 2) as usize;
    let usdc_ata = (wallet + 3) as usize;
    match ensure_token_account_outcome(inv, wallet, PaymentToken::SKR, skr_ata, 9, log) {
        (log, Err(e)) => refuse(log, e),
        (log, Ok(())) => match ensure_token_account_outcome(
            inv,
            wallet,
            PaymentToken::SLICE,
            slice_ata,
            10,
            log,
        ) {
            (log, Err(e)) => refuse(log, e),
            (log, Ok(())) => ensure_token_account_outcome(inv, wallet, PaymentToken::USDC, usdc_ata, 11, log),
        },
    }
}

/// Creates the three token accounts of one of the program's accounts, which
/// stand right behind it, unless they exist.
fn ensure_token_accounts(
    inv: &Invocation,
    wallet: usize,
    effects: &mut Effects,
) -> (r: Result<(), ProgramError>)
    requires
        16 <= inv.accounts@.len(),
        wallet <= 5,
    ensures
        (final(effects)@, r) == ensure_token_accounts_outcome(*inv, wallet, old(effects)@),
{
    ensure_token_account(inv, wallet, PaymentToken::SKR, wallet + 1, 9, effects)?;
    ensure_token_account(inv, wallet, PaymentToken::SLICE, wallet + 2, 10, effects)?;
    ensure_token_account(inv, wallet, PaymentToken::USDC, wallet + 3, 11, effects)
}

/// Making the game's protocol treasury, unless it exists: an account without
/// data, with its token accounts.
pub open spec fn treasury_outcome(
    inv: Invocation,
    game_title: [u8; 32],
    bump: u8,
    log: Seq<EffectView>,
) -> Outcome {
    if inv.accounts@[5].owner@ == PROGRAM_ID@ {
        accept(log)
    } else {
        match inv.rent {
            Err(e) => refuse(log, e),
            Ok(rent) => ensure_token_accounts_outcome(
                inv,
                5,
                open_account_effects(
                    inv,
                    5,
                    rent.empty,
                    0,
                    with_bump(game_protocol_seeds(game_title@), bump),
                    log,
                ),
            ),
        }
    }
}

/// Making the game's account, unless it exists. One that exists has to be a game
/// of this program and stays as it is.
pub open spec fn game_account_outcome(
    inv: Invocation,
    game: GameAccount,
    bump: u8,
    log: Seq<EffectView>,
) -> Outcome {
    let account = inv.accounts@[1];
    if account.data@.len() == 0 {
        match inv.rent {
            Err(e) => refuse(log, e),
            Ok(rent) => store_outcome(
                1,
                GameAccount::MAX_SIZE as nat,
                game.bytes(),
                open_account_effects(
                    inv,
                    1,
                    rent.game,
                    GameAccount::MAX_SIZE as u64,
                    with_bump(game_seeds(game.game_title@), bump),
                    log,
                ),
            ),
        }
    } else if account.owner@ != PROGRAM_ID@ {
        refuse(log, ProgramError::IllegalOwner)
    } else {
        match GameAccount::decode(account.data@) {
            None => refuse(log, ProgramError::BorshIoError),
            Some(existing) => if !existing.is_initialized {
                refuse(log, ProgramError::UninitializedAccount)
            } else {
                accept(log)
            },
        }
    }
}

/// A game as it is first stored.
pub open spec fn new_game(
    version: u8,
    game_title: [u8; 32],
    owner: Pubkey,
    dev_fee_bps: u16,
    game_to_protocol_share_bps: u16,
    game_cost: u64,
    game_url: [u8; 64],
) -> GameAccount {
    GameAccount {
        is_initialized: true,
        version,
        game_title,
        owner,
        dev_fee_bps,
        game_to_protocol_share_bps,
        game_cost,
        game_url,
        total_users: 0,
        total_revenue_usd_micro: 0,
    }
}

/// What [`create_game`] leaves behind, for a game that is stored as `game` if it
/// is new.
pub open spec fn create_game_outcome(inv: Invocation, game: GameAccount, log: Seq<EffectView>) -> Outcome {
    let a = inv.accounts@;
    if a.len() < 16 {
        refuse(log, ProgramError::NotEnoughAccountKeys)
    } else if !a[0].is_signer {
        refuse(log, ProgramError::MissingRequiredSignature)
    } else {
        match bump_for(game_protocol_seeds(game.game_title@), a[5].key@) {
            Err(e) => refuse(log, e),
            Ok(bump) => match treasury_outcome(inv, game.game_title, bump, log) {
                (log, Err(e)) => refuse(log, e),
                (log, Ok(())) => if !dev_fee_allowed(game.dev_fee_bps) || (a[1].data@.len() == 0
                    && !protocol_share_allowed(game.game_to_protocol_share_bps)) {
                    refuse(log, ProgramError::InvalidInstructionData)
                } else {
                    match bump_for(game_seeds(game.game_title@), a[1].key@) {
                        Err(e) => refuse(log, e),
                        Ok(bump) => match game_account_outcome(inv, game, bump, log) {
                            (log, Err(e)) => refuse(log, e),
                            (log, Ok(())) => ensure_token_accounts_outcome(inv, 1, log),
                        },
                    }
                },
            },
        }
    }
}

/// Makes the game's protocol treasury, unless it exists.
fn ensure_treasury(
    inv: &Invocation,
    game_title: &[u8; 32],
    bump: u8,
    effects: &mut Effects,
) -> (r: Result<(), ProgramError>)
    requires
        16 <= inv.accounts@.len(),
    ensures
        (final(effects)@, r) == treasury_outcome(*inv, *game_title, bump, old(effects)@),
{
    if same_key(&inv.accounts[5].owner, &PROGRAM_ID) {
        return Ok(());
    }
    let rent = inv.rent?;
    open_account(
        inv,
        5,
        rent.empty,
        0,
        add_bump(game_protocol_seed_list(game_title), bump),
        effects,
    );
    ensure_token_accounts(inv, 5, effects)
}

/// Makes the game's account, unless it exists.
fn ensure_game_account(
    inv: &Invocation,
    game: &GameAccount,
    bump: u8,
    effects: &mut Effects,
) -> (r: Result<(), ProgramError>)
    requires
        16 <= inv.accounts@.len(),
    ensures
        (final(effects)@, r) == game_account_outcome(*inv, *game, bump, old(effects)@),
{
    let game_account = &inv.accounts[1];
    if game_account.data.len() == 0 {
        let rent = inv.rent?;
        open_account(
            inv,
            1,
            rent.game,
            GameAccount::MAX_SIZE as u64,
            add_bump(game_seed_list(&game.game_title), bump),
            effects,
        );
        return effects.store(1, GameAccount::MAX_SIZE, game.serialize());
    }
    if !same_key(&game_account.owner, &PROGRAM_ID) {
        return Err(ProgramError::IllegalOwner);
    }
    let existing = GameAccount::try_from_slice(game_account.data.as_slice())?;
    if !existing.is_initialized {
        return Err(ProgramError::UninitializedAccount);
    }
    Ok(())
}

/// Creates a game: its protocol treasury, its account, and the token accounts of
/// both. What exists already is left as it is, so the call may be repeated; the
/// protocol's share is looked at only where a game is stored.
///
/// Accounts:
///   0. `[signer, writable]` the owner, who pays
///   1. `[writable]`         the game's address
///   2. to 4. `[writable]`   the game's token accounts, for SKR, SLICE and USDC
///   5. `[writable]`         the address of the game's protocol treasury
///   6. to 8. `[writable]`   the treasury's token accounts, for SKR, SLICE and USDC
///   9. to 11.               the mints of SKR, SLICE and USDC
///   12. to 15.              the token program, the rent sysvar, the associated token and the system program
pub fn create_game(
    inv: &Invocation,
    version: u8,
    game_title: [u8; 32],
    dev_fee_bps: u16,
    game_to_protocol_share_bps: u16,
    game_cost: u64,
    game_url: [u8; 64],
    effects: &mut Effects,
) -> (r: Result<(), ProgramError>)
    ensures
        (final(effects)@, r) == create_game_outcome(
            *inv,
            new_game(
                version,
                game_title,
                inv.accounts@[0].key,
                dev_fee_bps,
                game_to_protocol_share_bps,
                game_cost,
                game_url,
            ),
            old(effects)@,
        ),
{
    if inv.accounts.len() < 16 {
        return Err(ProgramError::NotEnoughAccountKeys);
    }
    let owner = &inv.accounts[0];
    if !owner.is_signer {
        return Err(ProgramError::MissingRequiredSignature);
    }
    let bump = matching_bump(find_game_protocol_pda(&game_title), &inv.accounts[5].key)?;
    ensure_treasury(inv, &game_title, bump, effects)?;
    validate_dev_fee_bps(dev_fee_bps)?;
    if inv.accounts[1].data.len() == 0 {
        validate_protocol_share_bps(game_to_protocol_share_bps)?;
    }
    let game_bump = matching_bump(find_game_pda(&game_title), &inv.accounts[1].key)?;
    let game = GameAccount {
        is_initialized: true,
        version,
        game_title,
        owner: owner.key,
        dev_fee_bps,
        game_to_protocol_share_bps,
        game_cost,
        game_url,
        total_users: 0,
        total_revenue_usd_micro: 0,
    };
    ensure_game_account(inv, &game, game_bump, effects)?;
    ensure_token_accounts(inv, 1, effects)
}

// ---------------------------------------------------------------------------
// Changing a game
// ---------------------------------------------------------------------------

/// What [`load_owned_game`] returns.
pub open spec fn owned_game(inv: Invocation) -> Result<GameAccount, ProgramError> {
    let a = inv.accounts@;
    if a.len() < 2 {
        Err(ProgramError::NotEnoughAccountKeys)
    } else if !a[0].is_signer {
        Err(ProgramError::MissingRequiredSignature)
    } else {
        match GameAccount::decode(a[1].data@) {
            None => Err(ProgramError::InvalidAccountData),
            Some(game) => if game.owner@ != a[0].key@ {
                Err(ProgramError::IllegalOwner)
            } else {
                Ok(game)
            },
        }
    }
}

/// Reads the game at position 1 for its owner, who stands before it and signs.
fn load_owned_game(inv: &Invocation) -> (r: Result<GameAccount, ProgramError>)
    ensures
        r == owned_game(*inv),
        r is Ok ==> inv.accounts@.len() >= 2,
{
    if inv.accounts.len() < 2 {
        return Err(ProgramError::NotEnoughAccountKeys);
    }
    let owner = &inv.accounts[0];
    if !owner.is_signer {
        return Err(ProgramError::MissingRequiredSignature);
    }
    let game_data = match GameAccount::try_from_slice(inv.accounts[1].data.as_slice()) {
        Ok(g) => g,
        Err(_) => {
            return Err(ProgramError::InvalidAccountData);
        },
    };
    if !same_key(&game_data.owner, &owner.key) {
        return Err(ProgramError::IllegalOwner);
    }
    Ok(game_data)
}

/// What [`update_fee_share`] leaves behind.
pub open spec fn update_fee_share_outcome(
    inv: Invocation,
    new_dev_fee_bps: u16,
    new_game_to_protocol_share_bps: u16,
    log: Seq<EffectView>,
) -> Outcome {
    match owned_game(inv) {
        Err(e) => refuse(log, e),
        Ok(game) => if !dev_fee_allowed(new_dev_fee_bps) || !protocol_share_allowed(new_game_to_protocol_share_bps) {
            refuse(log, ProgramError::InvalidInstructionData)
        } else {
            store_outcome(
                1,
                inv.accounts@[1].data@.len(),
                GameAccount {
                    dev_fee_bps: new_dev_fee_bps,
                    game_to_protocol_share_bps: new_game_to_protocol_share_bps,
                    ..game
                }.bytes(),
                log,
            )
        },
    }
}

/// Sets the fee and the protocol's share of a game.
///
/// Accounts:
///   0. `[signer]`   the game's owner
///   1. `[writable]` the game
pub fn update_fee_share(
    inv: &Invocation,
    new_dev_fee_bps: u16,
    new_game_to_protocol_share_bps: u16,
    effects: &mut Effects,
) -> (r: Result<(), ProgramError>)
    ensures
        (final(effects)@, r) == update_fee_share_outcome(
            *inv,
            new_dev_fee_bps,
            new_game_to_protocol_share_bps,
            old(effects)@,
        ),
{
    let mut game_data = load_owned_game(inv)?;
    validate_dev_fee_bps(new_dev_fee_bps)?;
    validate_protocol_share_bps(new_game_to_protocol_share_bps)?;
    game_data.dev_fee_bps = new_dev_fee_bps;
    game_data.game_to_protocol_share_bps = new_game_to_protocol_share_bps;
    effects.store(1, inv.accounts[1].data.len(), game_data.serialize())
}

/// What [`update_game_cost`] leaves behind.
pub open spec fn update_game_cost_outcome(
    inv: Invocation,
    new_game_cost: u64,
    log: Seq<EffectView>,
) -> Outcome {
    match owned_game(inv) {
        Err(e) => refuse(log, e),
        Ok(game) => store_outcome(
            1,
            inv.accounts@[1].data@.len(),
            GameAccount { game_cost: new_game_cost, ..game }.bytes(),
            log,
        ),
    }
}

/// Sets what a user account of a game costs, in millionths of a US dollar.
///
/// Accounts:
///   0. `[signer]`   the game's owner
///   1. `[writable]` the game
pub fn update_game_cost(
    inv: &Invocation,
    new_game_cost: u64,
    effects: &mut Effects,
) -> (r: Result<(), ProgramError>)
    ensures
        (final(effects)@, r) == update_game_cost_outcome(*inv, new_game_cost, old(effects)@),
{
    let mut game_data = load_owned_game(inv)?;
    game_data.game_cost = new_game_cost;
    effects.store(1, inv.accounts[1].data.len(), game_data.serialize())
}

/// What [`transfer_game_ownership`] leaves behind.
pub open spec fn transfer_game_ownership_outcome(
    inv: Invocation,
    new_owner: Pubkey,
    log: Seq<EffectView>,
) -> Outcome {
    match owned_game(inv) {
        Err(e) => refuse(log, e),
        Ok(game) => store_outcome(
            1,
            inv.accounts@[1].data@.len(),
            GameAccount { owner: new_owner, ..game }.bytes(),
            log,
        ),
    }
}

/// Gives a game to another owner.
///
/// Accounts:
///   0. `[signer]`   the game's owner
///   1. `[writable]` the game
pub fn transfer_game_ownership(
    inv: &Invocation,
    new_owner: Pubkey,
    effects: &mut Effects,
) -> (r: Result<(), ProgramError>)
    ensures
        (final(effects)@, r) == transfer_game_ownership_outcome(*inv, new_owner, old(effects)@),
{
    let mut game_data = load_owned_game(inv)?;
    game_data.owner = new_owner;
    effects.store(1, inv.accounts[1].data.len(), game_data.serialize())
}

// ---------------------------------------------------------------------------
// Upgrading the layout
// ---------------------------------------------------------------------------

/// A link of which every byte is zero.
pub const NO_URL: [u8; 64] = [
    0, 0, 0, 0, 0, 0, 0, 0, 0, 0, 0, 0, 0, 0, 0, 0,
    0, 0, 0, 0, 0, 0, 0, 0, 0, 0, 0, 0, 0, 0, 0, 0,
    0, 0, 0, 0, 0, 0, 0, 0, 0, 0, 0, 0, 0, 0, 0, 0,
    0, 0, 0, 0, 0, 0, 0, 0, 0, 0, 0, 0, 0, 0, 0, 0,
];

/// A game of the first layout in the current one. What the first did not hold is zero.
pub open spec fn upgraded(old_game: GameAccountV1) -> GameAccount {
    GameAccount {
        is_initialized: old_game.is_initialized,
        version: CURRENT_GAME_STATE_VERSION,
        game_title: old_game.game_title,
        owner: old_game.owner,
        dev_fee_bps: old_game.dev_fee_bps,
        game_to_protocol_share_bps: old_game.game_to_protocol_share_bps,
        game_cost: 0,
        game_url: NO_URL,
        total_users: 0,
        total_revenue_usd_micro: 0,
    }
}

/// Giving the game's account the size of the current layout, with the rent for it.
pub open spec fn grow_outcome(inv: Invocation, log: Seq<EffectView>) -> Outcome {
    let authority = inv.accounts@[0];
    let game = inv.accounts@[1];
    if game.data@.len() >= GameAccount::MAX_SIZE {
        accept(log)
    } else {
        match inv.rent {
            Err(e) => refuse(log, e),
            Ok(rent) => if rent.game < game.lamports {
                refuse(log, ProgramError::Aborted)
            } else {
                accept(
                    log.push(
                        call(
                            system_transfer(authority.key@, game.key@, (rent.game - game.lamports) as u64),
                            seq![0, 1],
                        ),
                    ).push(EffectView::Resize { account: 1, len: GameAccount::MAX_SIZE }),
                )
            },
        }
    }
}

/// What [`upgrade_game_version`] leaves behind.
pub open spec fn upgrade_game_version_outcome(inv: Invocation, log: Seq<EffectView>) -> Outcome {
    let a = inv.accounts@;
    if a.len() < 3 {
        refuse(log, ProgramError::NotEnoughAccountKeys)
    } else if a[0].key@ != AUTHORITY@ {
        refuse(log, ProgramError::InvalidAccountData)
    } else if !a[0].is_signer {
        refuse(log, ProgramError::MissingRequiredSignature)
    } else if a[1].data@.len() < 2 {
        refuse(log, ProgramError::InvalidAccountData)
    } else if a[1].data@[1] >= CURRENT_GAME_STATE_VERSION {
        accept(log)
    } else {
        match GameAccountV1::decode(a[1].data@) {
            None => refuse(log, ProgramError::InvalidAccountData),
            Some(old_game) => match grow_outcome(inv, log) {
                (log, Err(e)) => refuse(log, e),
                (log, Ok(())) => store_outcome(
                    1,
                    if a[1].data@.len() < GameAccount::MAX_SIZE {
                        GameAccount::MAX_SIZE as nat
                    } else {
                        a[1].data@.len()
                    },
                    upgraded(old_game).bytes(),
                    log,
                ),
            },
        }
    }
}

/// Brings a game of the first layout to the current one. One that has it already
/// is left as it is. Only the authority may do so, and pays the added rent.
///
/// Accounts:
///   0. `[signer, writable]` the authority
///   1. `[writable]`         the game
///   2. `[]`                 the system program
pub fn upgrade_game_version(inv: &Invocation, effects: &mut Effects) -> (r: Result<(), ProgramError>)
    ensures
        (final(effects)@, r) == upgrade_game_version_outcome(*inv, old(effects)@),
{
    if inv.accounts.len() < 3 {
        return Err(ProgramError::NotEnoughAccountKeys);
    }
    let authority = &inv.accounts[0];
    let game_account = &inv.accounts[1];
    assert_authority(authority)?;
    if !authority.is_signer {
        return Err(ProgramError::MissingRequiredSignature);
    }
    let len: usize = game_account.data.len();
    if len < 2 {
        return Err(ProgramError::InvalidAccountData);
    }
    if game_account.data[1] >= CURRENT_GAME_STATE_VERSION {
        return Ok(());
    }
    let old_game = match GameAccountV1::try_from_slice(game_account.data.as_slice()) {
        Ok(g) => g,
        Err(_) => {
            return Err(ProgramError::InvalidAccountData);
        },
    };
    let new_data = GameAccount {
        is_initialized: old_game.is_initialized,
        version: CURRENT_GAME_STATE_VERSION,
        game_title: old_game.game_title,
        owner: old_game.owner,
        dev_fee_bps: old_game.dev_fee_bps,
        game_to_protocol_share_bps: old_game.game_to_protocol_share_bps,
        game_cost: 0,
        game_url: NO_URL,
        total_users: 0,
        total_revenue_usd_micro: 0,
    };
    let new_size: usize = GameAccount::MAX_SIZE;
    let mut room: usize = len;
    if len < new_size {
        let rent = inv.rent?;
        if rent.game < game_account.lamports {
            return Err(ProgramError::Aborted);
        }
        let additional: u64 = rent.game - game_account.lamports;
        effects.invoke(create_transfer(&authority.key, &game_account.key, additional), vec![0, 1]);
        effects.record(Effect::Resize { account: 1, len: new_size });
        room = new_size;
    }
    effects.store(1, room, new_data.serialize())
}

// ---------------------------------------------------------------------------
// Withdrawing
// ---------------------------------------------------------------------------

/// What [`withdraw_pool`] leaves behind.
pub open spec fn withdraw_pool_outcome(
    inv: Invocation,
    holder: usize,
    source_ata: usize,
    destination_ata: usize,
    token: PaymentToken,
    token_program: usize,
    seeds: Seq<Seq<u8>>,
    log: Seq<EffectView>,
) -> Outcome {
    let a = inv.accounts@;
    let key = a[holder as int].key@;
    let mint = token.spec_mint()@;
    let source = a[source_ata as int];
    match token_account_check(key, mint, source.key@) {
        Err(e) => refuse(log, e),
        Ok(()) => if source.data@.len() == 0 || is_unused_token_account(source.data@) {
            accept(log)
        } else if !is_token_account(source.data@) || token_owner(source.data@) != key || token_mint(source.data@)
            != mint {
            refuse(log, ProgramError::InvalidAccountData)
        } else if token_amount(source.data@) == 0 {
            accept(log)
        } else if a[token_program as int].key@ != TOKEN_PROGRAM_ID@ {
            refuse(log, ProgramError::IncorrectProgramId)
        } else {
            accept(
                log.push(
                    signed_call(
                        token_transfer(
                            source.key@,
                            a[destination_ata as int].key@,
                            key,
                            token_amount(source.data@) as u64,
                        ),
                        seq![source_ata, destination_ata, holder, token_program],
                        seeds,
                    ),
                ),
            )
        },
    }
}

/// Transfers all tokens of one mint that one of the program's accounts holds.
/// Does nothing if there are none, or if the token account does not exist or was
/// not initialized. The accounts are named by position.
pub(crate) fn withdraw_pool(
    inv: &Invocation,
    holder: usize,
    source_ata: usize,
    destination_ata: usize,
    token: &PaymentToken,
    token_program: usize,
    signer_seeds: Vec<Vec<u8>>,
    effects: &mut Effects,
) -> (r: Result<(), ProgramError>)
    requires
        holder < inv.accounts@.len(),
        source_ata < inv.accounts@.len(),
        destination_ata < inv.accounts@.len(),
        token_program < inv.accounts@.len(),
    ensures
        (final(effects)@, r) == withdraw_pool_outcome(
            *inv,
            holder,
            source_ata,
            destination_ata,
            *token,
            token_program,
            seed_bytes(signer_seeds@),
            old(effects)@,
        ),
{
    let mint = token.mint();
    let key = &inv.accounts[holder].key;
    let source = &inv.accounts[source_ata];
    check_token_account(key, &mint, &source.key)?;
    if source.data.len() == 0 {
        return Ok(());
    }
    if source.data.len() == 165 && source.data[108] == 0 {
        return Ok(());
    }
    let state = unpack_token_account(source.data.as_slice())?;
    if !same_key(&state.owner, key) {
        return Err(ProgramError::InvalidAccountData);
    }
    if !same_key(&state.mint, &mint) {
        return Err(ProgramError::InvalidAccountData);
    }
    let amount: u64 = state.amount;
    if amount == 0 {
        return Ok(());
    }
    let ix = transfer(
        &inv.accounts[token_program].key,
        &source.key,
        &inv.accounts[destination_ata].key,
        key,
        amount,
    )?;
    effects.invoke_signed(ix, vec![source_ata, destination_ata, holder, token_program], signer_seeds);
    Ok(())
}

/// What [`sweep_sol`] leaves behind.
pub open spec fn sweep_sol_outcome(
    inv: Invocation,
    holder: usize,
    wallet: usize,
    log: Seq<EffectView>,
) -> Outcome {
    let account = inv.accounts@[holder as int];
    match inv.rent {
        Err(e) => refuse(log, e),
        Ok(_) => {
            let lamports = surplus(account.lamports, account.rent_floor);
            if lamports == 0 {
                accept(log)
            } else {
                accept(log.push(EffectView::MoveLamports { from: holder, to: wallet, lamports }))
            }
        },
    }
}

/// Moves the lamports that one of the program's accounts holds above its rent to
/// a wallet. The accounts are named by position.
pub(crate) fn sweep_sol(
    inv: &Invocation,
    holder: usize,
    wallet: usize,
    effects: &mut Effects,
) -> (r: Result<(), ProgramError>)
    requires
        holder < inv.accounts@.len(),
    ensures
        (final(effects)@, r) == sweep_sol_outcome(*inv, holder, wallet, old(effects)@),
{
    let account = &inv.accounts[holder];
    let _ = inv.rent?;
    let lamports: u64 = account.lamports.saturating_sub(account.rent_floor);
    if lamports > 0 {
        effects.record(Effect::MoveLamports { from: holder, to: wallet, lamports });
    }
    Ok(())
}

/// The first refusal of [`developer_withdraw`] that comes before any effect, or
/// the game and the bump seed of its address.
pub open spec fn developer_withdraw_check(inv: Invocation) -> Result<(GameAccount, u8), ProgramError> {
    let a = inv.accounts@;
    if a.len() < 9 {
        Err(ProgramError::NotEnoughAccountKeys)
    } else if !a[0].is_signer {
        Err(ProgramError::MissingRequiredSignature)
    } else {
        match game_of(a[1]) {
            Err(e) => Err(e),
            Ok(game) => if game.owner@ != a[0].key@ {
                Err(ProgramError::IllegalOwner)
            } else {
                match bump_for(game_seeds(game.game_title@), a[1].key@) {
                    Err(e) => Err(e),
                    Ok(bump) => Ok((game, bump)),
                }
            },
        }
    }
}

/// What [`developer_withdraw`] leaves behind.
pub open spec fn developer_withdraw_outcome(inv: Invocation, log: Seq<EffectView>) -> Outcome {
    match developer_withdraw_check(inv) {
        Err(e) => refuse(log, e),
        Ok((game, bump)) => {
            let seeds = with_bump(game_seeds(game.game_title@), bump);
            match withdraw_pool_outcome(inv, 1, 2, 5, PaymentToken::SKR, 8, seeds, log) {
                (log, Err(e)) => refuse(log, e),
                (log, Ok(())) => match withdraw_pool_outcome(inv, 1, 3, 6, PaymentToken::SLICE, 8, seeds, log) {
                    (log, Err(e)) => refuse(log, e),
                    (log, Ok(())) => match withdraw_pool_outcome(
                        inv,
                        1,
                        4,
                        7,
                        PaymentToken::USDC,
                        8,
                        seeds,
                        log,
                    ) {
                        (log, Err(e)) => refuse(log, e),
                        (log, Ok(())) => sweep_sol_outcome(inv, 1, 0, log),
                    },
                },
            }
        },
    }
}

/// Pays a game's income to its owner: all of its tokens, and the lamports above
/// its rent.
///
/// Accounts:
///   0. `[signer, writable]` the game's owner
///   1. `[writable]`         the game
///   2. to 4. `[writable]`   the game's token accounts, for SKR, SLICE and USDC
///   5. to 7. `[writable]`   the token accounts that receive, in the same order
///   8. `[]`                 the token program
pub fn developer_withdraw(inv: &Invocation, effects: &mut Effects) -> (r: Result<(), ProgramError>)
    ensures
        (final(effects)@, r) == developer_withdraw_outcome(*inv, old(effects)@),
{
    if inv.accounts.len() < 9 {
        return Err(ProgramError::NotEnoughAccountKeys);
    }
    let dev_wallet = &inv.accounts[0];
    let game_account = &inv.accounts[1];
    if !dev_wallet.is_signer {
        return Err(ProgramError::MissingRequiredSignature);
    }
    let game_data = load_game(game_account)?;
    if !same_key(&game_data.owner, &dev_wallet.key) {
        return Err(ProgramError::IllegalOwner);
    }
    let title = &game_data.game_title;
    let bump = matching_bump(find_game_pda(title), &game_account.key)?;
    withdraw_pool(inv, 1, 2, 5, &PaymentToken::SKR, 8, add_bump(game_seed_list(title), bump), effects)?;
    withdraw_pool(inv, 1, 3, 6, &PaymentToken::SLICE, 8, add_bump(game_seed_list(title), bump), effects)?;
    withdraw_pool(inv, 1, 4, 7, &PaymentToken::USDC, 8, add_bump(game_seed_list(title), bump), effects)?;
    sweep_sol(inv, 1, 0, effects)
}

// ---------------------------------------------------------------------------
// Rewarding a user account
// ---------------------------------------------------------------------------

/// What [`reward_from_protocol_pool`] leaves behind.
pub open spec fn reward_from_protocol_pool_outcome(
    inv: Invocation,
    source_ata: usize,
    dest_ata: usize,
    oracle: OraclePriceState,
    token: PaymentToken,
    seeds: Seq<Seq<u8>>,
    bps: u16,
    log: Seq<EffectView>,
) -> Payout {
    let a = inv.accounts@;
    let mint = token.spec_mint()@;
    let source = a[source_ata as int];
    match token_account_check(a[2].key@, mint, source.key@) {
        Err(e) => (log, Err(e)),
        Ok(()) => match token_account_check(a[3].key@, mint, a[dest_ata as int].key@) {
            Err(e) => (log, Err(e)),
            Ok(()) => if source.data@.len() == 0 {
                (log, Ok(0))
            } else if !is_token_account(source.data@) {
                (log, Err(ProgramError::InvalidAccountData))
            } else {
                let amount = low_64(share_floor(token_amount(source.data@) as u64, bps));
                if amount == 0 {
                    (log, Ok(0))
                } else if a[5].key@ != TOKEN_PROGRAM_ID@ {
                    (log, Err(ProgramError::IncorrectProgramId))
                } else {
                    (
                        log.push(
                            signed_call(
                                token_transfer(source.key@, a[dest_ata as int].key@, a[2].key@, amount),
                                seq![source_ata, dest_ata, 2, 5],
                                seeds,
                            ),
                        ),
                        Ok(value_of(amount, price_of(oracle, token), decimals_of(token))),
                    )
                }
            },
        },
    }
}

/// Transfers a part of the protocol treasury's tokens of one mint to the user
/// account's, and returns what they are worth. The accounts are those of
/// [`reward_user_account`].
fn reward_from_protocol_pool(
    inv: &Invocation,
    source_ata: usize,
    dest_ata: usize,
    oracle: &OraclePriceState,
    token: PaymentToken,
    signer_seeds: Vec<Vec<u8>>,
    bps: u16,
    effects: &mut Effects,
) -> (r: Result<u64, ProgramError>)
    requires
        6 <= inv.accounts@.len(),
        source_ata < inv.accounts@.len(),
        dest_ata < inv.accounts@.len(),
    ensures
        (final(effects)@, r) == reward_from_protocol_pool_outcome(
            *inv,
            source_ata,
            dest_ata,
            *oracle,
            token,
            seed_bytes(signer_seeds@),
            bps,
            old(effects)@,
        ),
{
    let mint = token.mint();
    let game_protocol = &inv.accounts[2].key;
    let source = &inv.accounts[source_ata];
    let dest = &inv.accounts[dest_ata];
    check_token_account(game_protocol, &mint, &source.key)?;
    check_token_account(&inv.accounts[3].key, &mint, &dest.key)?;
    if source.data.len() == 0 {
        return Ok(0);
    }
    let state = unpack_token_account(source.data.as_slice())?;
    if state.amount == 0 {
        assert(0 * bps as nat == 0) by (nonlinear_arith);
        return Ok(0);
    }
    let amount: u64 = fee_floor(state.amount, bps);
    if amount == 0 {
        return Ok(0);
    }
    let ix = transfer(&inv.accounts[5].key, &source.key, &dest.key, game_protocol, amount)?;
    effects.invoke_signed(ix, vec![source_ata, dest_ata, 2, 5], signer_seeds);
    Ok(usd_value(amount, price_for(oracle, &token), token_decimals(&token)))
}

/// What [`reward_native_sol`] leaves behind.
pub open spec fn reward_native_sol_outcome(
    inv: Invocation,
    oracle: OraclePriceState,
    bps: u16,
    log: Seq<EffectView>,
) -> Payout {
    let treasury = inv.accounts@[2];
    match inv.rent {
        Err(e) => (log, Err(e)),
        Ok(_) => {
            let spendable = surplus(treasury.lamports, treasury.rent_floor);
            let lamports = low_64(share_floor(spendable, bps));
            if lamports == 0 {
                (log, Ok(0))
            } else if treasury.rent_floor + lamports > treasury.lamports {
                (log, Err(ProgramError::InsufficientFunds))
            } else if inv.accounts@[3].lamports + lamports > u64::MAX {
                (log, Err(ProgramError::ArithmeticOverflow))
            } else {
                (
                    log.push(EffectView::MoveLamports { from: 2, to: 3, lamports }),
                    Ok(value_of(lamports, price_of(oracle, PaymentToken::SOL), 0)),
                )
            }
        },
    }
}

/// Moves a part of the lamports that the protocol treasury holds above its rent
/// to the user account, and returns what they are worth; the price of SOL is for
/// one lamport. The treasury never drops below its rent: a share for which it
/// would is refused. The accounts are those of [`reward_user_account`].
fn reward_native_sol(
    inv: &Invocation,
    oracle: &OraclePriceState,
    bps: u16,
    effects: &mut Effects,
) -> (r: Result<u64, ProgramError>)
    requires
        4 <= inv.accounts@.len(),
    ensures
        (final(effects)@, r) == reward_native_sol_outcome(*inv, *oracle, bps, old(effects)@),
{
    let game_protocol = &inv.accounts[2];
    let _ = inv.rent?;
    let spendable: u64 = game_protocol.lamports.saturating_sub(game_protocol.rent_floor);
    if spendable == 0 {
        return Ok(0);
    }
    let amount: u64 = fee_floor(spendable, bps);
    if amount == 0 {
        return Ok(0);
    }
    if amount > spendable {
        return Err(ProgramError::InsufficientFunds);
    }
    if inv.accounts[3].lamports.checked_add(amount).is_none() {
        return Err(ProgramError::ArithmeticOverflow);
    }
    effects.record(Effect::MoveLamports { from: 2, to: 3, lamports: amount });
    Ok(usd_value(amount, price_for(oracle, &PaymentToken::SOL), 0))
}

/// The first refusal of [`reward_user_account`] that comes before any effect, or
/// the game, the bump seed of its protocol treasury, the user account and the
/// oracle.
pub open spec fn reward_user_check(
    inv: Invocation,
    bps: u16,
) -> Result<(GameAccount, u8, UserAccount, OraclePriceState), ProgramError> {
    let a = inv.accounts@;
    if a.len() < 12 {
        Err(ProgramError::NotEnoughAccountKeys)
    } else if a[0].key@ != AUTHORITY@ {
        Err(ProgramError::InvalidAccountData)
    } else if !a[0].is_signer {
        Err(ProgramError::MissingRequiredSignature)
    } else if bps > BPS_DENOMINATOR {
        Err(ProgramError::InvalidInstructionData)
    } else {
        match game_of(a[1]) {
            Err(e) => Err(e),
            Ok(game) => match bump_for(game_protocol_seeds(game.game_title@), a[2].key@) {
                Err(e) => Err(e),
                Ok(bump) => if a[2].owner@ != PROGRAM_ID@ {
                    Err(ProgramError::IllegalOwner)
                } else {
                    match user_of(a[3]) {
                        Err(e) => Err(e),
                        Ok(user) => if user.game@ != a[1].key@ {
                            Err(ProgramError::InvalidAccountData)
                        } else {
                            match oracle_of(a[4]) {
                                Err(e) => Err(e),
                                Ok(oracle) => Ok((game, bump, user, oracle)),
                            }
                        },
                    }
                },
            },
        }
    }
}

/// What [`reward_from_pools`] leaves behind.
pub open spec fn reward_from_pools_outcome(
    inv: Invocation,
    oracle: OraclePriceState,
    seeds: Seq<Seq<u8>>,
    bps: u16,
    log: Seq<EffectView>,
) -> Payout {
    match reward_from_protocol_pool_outcome(inv, 6, 7, oracle, PaymentToken::USDC, seeds, bps, log) {
        (log, Err(e)) => (log, Err(e)),
        (log, Ok(paid)) => match paid_with(
            paid,
            reward_from_protocol_pool_outcome(inv, 8, 9, oracle, PaymentToken::SKR, seeds, bps, log),
        ) {
            (log, Err(e)) => (log, Err(e)),
            (log, Ok(paid)) => match paid_with(
                paid,
                reward_from_protocol_pool_outcome(inv, 10, 11, oracle, PaymentToken::SLICE, seeds, bps, log),
            ) {
                (log, Err(e)) => (log, Err(e)),
                (log, Ok(paid)) => paid_with(paid, reward_native_sol_outcome(inv, oracle, bps, log)),
            },
        },
    }
}

/// Moves the same part of every pool of the protocol treasury to the user
/// account, SOL last, and returns what was paid in millionths of a US dollar.
fn reward_from_pools(
    inv: &Invocation,
    oracle: &OraclePriceState,
    game_title: &[u8; 32],
    bump: u8,
    bps: u16,
    effects: &mut Effects,
) -> (r: Result<u64, ProgramError>)
    requires
        12 <= inv.accounts@.len(),
        bps <= 10_000,
    ensures
        (final(effects)@, r) == reward_from_pools_outcome(
            *inv,
            *oracle,
            with_bump(game_protocol_seeds(game_title@), bump),
            bps,
            old(effects)@,
        ),
{
    let usdc_seeds = add_bump(game_protocol_seed_list(game_title), bump);
    let usdc = reward_from_protocol_pool(inv, 6, 7, oracle, PaymentToken::USDC, usdc_seeds, bps, effects)?;
    let skr_seeds = add_bump(game_protocol_seed_list(game_title), bump);
    let skr = reward_from_protocol_pool(inv, 8, 9, oracle, PaymentToken::SKR, skr_seeds, bps, effects)?;
    let slice_seeds = add_bump(game_protocol_seed_list(game_title), bump);
    let slice = reward_from_protocol_pool(inv, 10, 11, oracle, PaymentToken::SLICE, slice_seeds, bps, effects)?;
    let sol = reward_native_sol(inv, oracle, bps, effects)?;
    Ok(usdc.saturating_add(skr).saturating_add(slice).saturating_add(sol))
}

/// What [`reward_user_account`] leaves behind.
pub open spec fn reward_user_account_outcome(inv: Invocation, bps: u16, log: Seq<EffectView>) -> Outcome {
    match reward_user_check(inv, bps) {
        Err(e) => refuse(log, e),
        Ok((game, bump, user, oracle)) => match reward_from_pools_outcome(
            inv,
            oracle,
            with_bump(game_protocol_seeds(game.game_title@), bump),
            bps,
            log,
        ) {
            (log, Err(e)) => refuse(log, e),
            (log, Ok(paid)) => if user.total_usd_rewards_micro + paid > u64::MAX {
                refuse(log, ProgramError::InvalidAccountData)
            } else {
                store_outcome(
                    3,
                    inv.accounts@[3].data@.len(),
                    UserAccount {
                        total_usd_rewards_micro: (user.total_usd_rewards_micro + paid) as u64,
                        ..user
                    }.bytes(),
                    log,
                )
            },
        },
    }
}

/// Gives a part of every pool of a game's protocol treasury to one of the game's
/// user accounts, in basis points, and adds its worth to the account's rewards.
/// Only the authority may do so.
///
/// Accounts:
///   0. `[signer]`         the authority
///   1. `[]`               the game
///   2. `[writable]`       the game's protocol treasury
///   3. `[writable]`       the user account
///   4. `[]`               the oracle
///   5. `[]`               the token program
///   6. to 11. `[writable]` the treasury's and the user account's token account, for USDC, SKR and SLICE
pub fn reward_user_account(
    inv: &Invocation,
    percentage_of_the_pool: u16,
    effects: &mut Effects,
) -> (r: Result<(), ProgramError>)
    ensures
        (final(effects)@, r) == reward_user_account_outcome(*inv, percentage_of_the_pool, old(effects)@),
{
    if inv.accounts.len() < 12 {
        return Err(ProgramError::NotEnoughAccountKeys);
    }
    let authority = &inv.accounts[0];
    let game_account = &inv.accounts[1];
    let game_protocol = &inv.accounts[2];
    assert_authority(authority)?;
    if !authority.is_signer {
        return Err(ProgramError::MissingRequiredSignature);
    }
    if percentage_of_the_pool as u64 > BPS_DENOMINATOR {
        return Err(ProgramError::InvalidInstructionData);
    }
    let game_data = load_game(game_account)?;
    let bump = matching_bump(find_game_protocol_pda(&game_data.game_title), &game_protocol.key)?;
    if !same_key(&game_protocol.owner, &PROGRAM_ID) {
        return Err(ProgramError::IllegalOwner);
    }
    let mut user_data = load_user(&inv.accounts[3])?;
    if !same_key(&user_data.game, &game_account.key) {
        return Err(ProgramError::InvalidAccountData);
    }
    let oracle = load_oracle(&inv.accounts[4])?;
    let paid: u64 = reward_from_pools(
        inv,
        &oracle,
        &game_data.game_title,
        bump,
        percentage_of_the_pool,
        effects,
    )?;
    user_data.total_usd_rewards_micro = match user_data.total_usd_rewards_micro.checked_add(paid) {
        Some(v) => v,
        None => {
            return Err(ProgramError::InvalidAccountData);
        },
    };
    effects.store(3, inv.accounts[3].data.len(), user_data.serialize())
}

} // verus!
