//! User accounts: their creation and their rewards.

use crate::constants::{same_key, PaymentToken, Pubkey, NO_KEY, PROGRAM_ID};
use crate::cpi::{create_account_creation, system_create_account};
use crate::error::ProgramError;
use crate::helpers::{
    add_bump, bump_for, find_game_pda, find_user_account_pda, game_seeds, load_user,
    matching_bump, user_of, user_seed_list, user_seeds, with_bump,
};
use crate::processor::game::{sweep_sol, sweep_sol_outcome, withdraw_pool, withdraw_pool_outcome};
use crate::processor::payment::{
    process_payment, process_payment_outcome, PaymentAccounts, SplPaymentAccounts,
};
use crate::runtime::{
    accept, refuse, seed_bytes, signed_call, store_outcome, EffectView, Effects, Invocation,
    Outcome,
};
use crate::state::game::GameAccount;
use crate::state::user_account::UserAccount;
use vstd::prelude::*;

verus! {

// ---------------------------------------------------------------------------
// Creating a user account
// ---------------------------------------------------------------------------

/// Where the accounts of the payment stand in [`create_user_account`].
pub open spec fn user_payment_accounts() -> PaymentAccounts {
    PaymentAccounts { payer: 0, game: 2, game_protocol: 4, oracle: 5, token_program: 6, system_program: 3 }
}

/// Where the token accounts of the payment stand in [`create_user_account`].
pub open spec fn user_token_accounts(token: PaymentToken) -> Option<SplPaymentAccounts> {
    if token == PaymentToken::SOL {
        None
    } else {
        Some(SplPaymentAccounts { payer_ata: 7, game_ata: 8, protocol_ata: 9, mint: 10 })
    }
}

/// What [`charge_user`] leaves behind.
pub open spec fn charge_user_outcome(
    inv: Invocation,
    game_cost: u64,
    payment_token: Pubkey,
    log: Seq<EffectView>,
) -> Outcome {
    if game_cost == 0 {
        accept(log)
    } else {
        match PaymentToken::spec_from_mint(payment_token) {
            None => refuse(log, ProgramError::InvalidInstructionData),
            Some(token) => if inv.accounts@.len() < 7 || (token != PaymentToken::SOL && inv.accounts@.len() < 11) {
                refuse(log, ProgramError::NotEnoughAccountKeys)
            } else {
                process_payment_outcome(
                    inv,
                    user_payment_accounts(),
                    user_token_accounts(token),
                    game_cost,
                    token,
                    log,
                )
            },
        }
    }
}

/// Charges what a user account costs, unless it is free.
fn charge_user(
    inv: &Invocation,
    game_cost: u64,
    payment_token: &Pubkey,
    effects: &mut Effects,
) -> (r: Result<(), ProgramError>)
    requires
        4 <= inv.accounts@.len(),
    ensures
        (final(effects)@, r) == charge_user_outcome(*inv, game_cost, *payment_token, old(effects)@),
{
    if game_cost == 0 {
        return Ok(());
    }
    let token = match PaymentToken::from_mint(payment_token) {
        Some(t) => t,
        None => {
            return Err(ProgramError::InvalidInstructionData);
        },
    };
    if inv.accounts.len() < 7 {
        return Err(ProgramError::NotEnoughAccountKeys);
    }
    let spl_accounts = if token == PaymentToken::SOL {
        None
    } else {
        if inv.accounts.len() < 11 {
            return Err(ProgramError::NotEnoughAccountKeys);
        }
        Some(SplPaymentAccounts { payer_ata: 7, game_ata: 8, protocol_ata: 9, mint: 10 })
    };
    let at = PaymentAccounts {
        payer: 0,
        game: 2,
        game_protocol: 4,
        oracle: 5,
        token_program: 6,
        system_program: 3,
    };
    process_payment(inv, at, spl_accounts, game_cost, token, effects)
}

/// The first refusal of [`create_user_account`] that comes before any effect, or
/// the game: it belongs to this program and stands at the address of its title.
pub open spec fn create_user_check(inv: Invocation) -> Result<GameAccount, ProgramError> {
    let a = inv.accounts@;
    if a.len() < 4 {
        Err(ProgramError::NotEnoughAccountKeys)
    } else if !a[0].is_signer {
        Err(ProgramError::MissingRequiredSignature)
    } else if a[1].data@.len() != 0 {
        Err(ProgramError::AccountAlreadyInitialized)
    } else if a[2].owner@ != PROGRAM_ID@ {
        Err(ProgramError::IllegalOwner)
    } else {
        match GameAccount::decode_front(a[2].data@) {
            None => Err(ProgramError::BorshIoError),
            Some(game) => if !game.is_initialized {
                Err(ProgramError::InvalidAccountData)
            } else {
                match bump_for(game_seeds(game.game_title@), a[2].key@) {
                    Err(e) => Err(e),
                    Ok(_) => Ok(game),
                }
            },
        }
    }
}

/// A user account as it is first stored.
pub open spec fn new_user(
    version: u8,
    bump: u8,
    owner: Pubkey,
    game: Pubkey,
    username: [u8; 32],
) -> UserAccount {
    UserAccount {
        is_initialized: true,
        version,
        bump,
        owner,
        game,
        username,
        current_ranked_game: NO_KEY,
        total_ranked_games_played: 0,
        total_wins: 0,
        total_usd_spent_micro: 0,
        total_usd_rewards_micro: 0,
    }
}

/// A game with one more user.
pub open spec fn with_user(game: GameAccount) -> GameAccount {
    GameAccount { total_users: (game.total_users + 1) as u32, ..game }
}

/// Writing down a new user account and counting it.
pub open spec fn record_user_outcome(
    inv: Invocation,
    user: UserAccount,
    game: GameAccount,
    log: Seq<EffectView>,
) -> Outcome {
    match store_outcome(1, UserAccount::MAX_SIZE as nat, user.bytes(), log) {
        (log, Err(e)) => refuse(log, e),
        (log, Ok(())) => if game.total_users == u32::MAX {
            refuse(log, ProgramError::ArithmeticOverflow)
        } else {
            store_outcome(2, inv.accounts@[2].data@.len(), with_user(game).bytes(), log)
        },
    }
}

/// What [`create_user_account`] leaves behind.
pub open spec fn create_user_account_outcome(
    inv: Invocation,
    version: u8,
    username: [u8; 32],
    timestamp: u64,
    payment_token: Pubkey,
    log: Seq<EffectView>,
) -> Outcome {
    let a = inv.accounts@;
    let seeds = user_seeds(a[0].key@, a[2].key@, timestamp);
    match create_user_check(inv) {
        Err(e) => refuse(log, e),
        Ok(game) => match charge_user_outcome(inv, game.game_cost, payment_token, log) {
            (log, Err(e)) => refuse(log, e),
            (log, Ok(())) => match bump_for(seeds, a[1].key@) {
                Err(e) => refuse(log, e),
                Ok(bump) => match inv.rent {
                    Err(e) => refuse(log, e),
                    Ok(rent) => record_user_outcome(
                        inv,
                        new_user(version, bump, a[0].key, a[2].key, username),
                        game,
                        log.push(
                            signed_call(
                                system_create_account(
                                    a[0].key@,
                                    a[1].key@,
                                    rent.user,
                                    UserAccount::MAX_SIZE as u64,
                                    PROGRAM_ID@,
                                ),
                                seq![0, 1, 3],
                                with_bump(seeds, bump),
                            ),
                        ),
                    ),
                },
            },
        },
    }
}

/// Creates a user account in a game, charges what the game asks for it, and
/// counts the user. With other timestamps a user may have any number of accounts.
///
/// Accounts:
///   0. `[signer, writable]` the user's wallet
///   1. `[writable]`         the user account's address
///   2. `[writable]`         the game
///   3. `[]`                 the system program
/// and if the game has a cost:
///   4. `[writable]`         the game's protocol treasury
///   5. `[]`                 the oracle
///   6. `[]`                 the token program
/// and if it is paid in SPL tokens:
///   7. to 9. `[writable]`   the token accounts of the user, the game and the treasury
///   10. `[]`                the mint
pub fn create_user_account(
    inv: &Invocation,
    version: u8,
    username: [u8; 32],
    timestamp: u64,
    payment_token: Pubkey,
    effects: &mut Effects,
) -> (r: Result<(), ProgramError>)
    ensures
        (final(effects)@, r) == create_user_account_outcome(
            *inv,
            version,
            username,
            timestamp,
            payment_token,
            old(effects)@,
        ),
{
    if inv.accounts.len() < 4 {
        return Err(ProgramError::NotEnoughAccountKeys);
    }
    let owner = &inv.accounts[0];
    let user_account = &inv.accounts[1];
    let game_account = &inv.accounts[2];
    if !owner.is_signer {
        return Err(ProgramError::MissingRequiredSignature);
    }
    if user_account.data.len() != 0 {
        return Err(ProgramError::AccountAlreadyInitialized);
    }
    if !same_key(&game_account.owner, &PROGRAM_ID) {
        return Err(ProgramError::IllegalOwner);
    }
    let mut game_data = GameAccount::deserialize(game_account.data.as_slice())?;
    if !game_data.is_initialized {
        return Err(ProgramError::InvalidAccountData);
    }
    let _ = matching_bump(find_game_pda(&game_data.game_title), &game_account.key)?;
    charge_user(inv, game_data.game_cost, &payment_token, effects)?;
    let bump = matching_bump(
        find_user_account_pda(&owner.key, &game_account.key, timestamp),
        &user_account.key,
    )?;
    let rent = inv.rent?;
    effects.invoke_signed(
        create_account_creation(
            &owner.key,
            &user_account.key,
            rent.user,
            UserAccount::MAX_SIZE as u64,
            &PROGRAM_ID,
        ),
        vec![0, 1, 3],
        add_bump(user_seed_list(&owner.key, &game_account.key, timestamp), bump),
    );
    let user_data = UserAccount {
        is_initialized: true,
        version,
        bump,
        owner: owner.key,
        game: game_account.key,
        username,
        current_ranked_game: NO_KEY,
        total_ranked_games_played: 0,
        total_wins: 0,
        total_usd_spent_micro: 0,
        total_usd_rewards_micro: 0,
    };
    effects.store(1, UserAccount::MAX_SIZE, user_data.serialize())?;
    game_data.total_users = match game_data.total_users.checked_add(1) {
        Some(v) => v,
        None => {
            return Err(ProgramError::ArithmeticOverflow);
        },
    };
    effects.store(2, game_account.data.len(), game_data.serialize())
}

// ---------------------------------------------------------------------------
// Withdrawing rewards
// ---------------------------------------------------------------------------

/// What [`withdraw_user_rewards`] leaves behind.
pub open spec fn withdraw_user_rewards_outcome(
    inv: Invocation,
    source_ata: usize,
    destination_ata: usize,
    token: PaymentToken,
    seeds: Seq<Seq<u8>>,
    with_sol: bool,
    log: Seq<EffectView>,
) -> Outcome {
    match withdraw_pool_outcome(inv, 2, source_ata, destination_ata, token, 9, seeds, log) {
        (log, Err(e)) => refuse(log, e),
        (log, Ok(())) => if with_sol {
            sweep_sol_outcome(inv, 2, 0, log)
        } else {
            accept(log)
        },
    }
}

/// Transfers all tokens of one mint that the user account holds, and on demand
/// the lamports above its rent. The accounts are those of [`withdraw_rewards`].
fn withdraw_user_rewards(
    inv: &Invocation,
    source_ata: usize,
    destination_ata: usize,
    token: &PaymentToken,
    signer_seeds: Vec<Vec<u8>>,
    with_sol: bool,
    effects: &mut Effects,
) -> (r: Result<(), ProgramError>)
    requires
        10 <= inv.accounts@.len(),
        source_ata < inv.accounts@.len(),
        destination_ata < inv.accounts@.len(),
    ensures
        (final(effects)@, r) == withdraw_user_rewards_outcome(
            *inv,
            source_ata,
            destination_ata,
            *token,
            seed_bytes(signer_seeds@),
            with_sol,
            old(effects)@,
        ),
{
    withdraw_pool(inv, 2, source_ata, destination_ata, token, 9, signer_seeds, effects)?;
    if with_sol {
        sweep_sol(inv, 2, 0, effects)
    } else {
        Ok(())
    }
}

/// The first refusal of [`withdraw_rewards`] that comes before any effect, or the
/// seeds with which the program signs for the user account.
pub open spec fn withdraw_rewards_check(
    inv: Invocation,
    timestamp: u64,
) -> Result<Seq<Seq<u8>>, ProgramError> {
    let a = inv.accounts@;
    if a.len() < 10 {
        Err(ProgramError::NotEnoughAccountKeys)
    } else if !a[0].is_signer {
        Err(ProgramError::MissingRequiredSignature)
    } else {
        match user_of(a[2]) {
            Err(e) => Err(e),
            Ok(user) => if user.owner@ != a[0].key@ {
                Err(ProgramError::IllegalOwner)
            } else if user.game@ != a[1].key@ {
                Err(ProgramError::InvalidAccountData)
            } else {
                let seeds = user_seeds(user.owner@, user.game@, timestamp);
                match bump_for(seeds, a[2].key@) {
                    Err(e) => Err(e),
                    Ok(bump) => Ok(with_bump(seeds, bump)),
                }
            },
        }
    }
}

/// What [`withdraw_rewards`] leaves behind.
pub open spec fn withdraw_rewards_outcome(inv: Invocation, timestamp: u64, log: Seq<EffectView>) -> Outcome {
    match withdraw_rewards_check(inv, timestamp) {
        Err(e) => refuse(log, e),
        Ok(seeds) => match withdraw_user_rewards_outcome(inv, 3, 6, PaymentToken::SKR, seeds, false, log) {
            (log, Err(e)) => refuse(log, e),
            (log, Ok(())) => match withdraw_user_rewards_outcome(
                inv,
                4,
                7,
                PaymentToken::SLICE,
                seeds,
                false,
                log,
            ) {
                (log, Err(e)) => refuse(log, e),
                (log, Ok(())) => withdraw_user_rewards_outcome(inv, 5, 8, PaymentToken::USDC, seeds, true, log),
            },
        },
    }
}

/// Pays the rewards of a user account to its owner: all of its tokens, and the
/// lamports above its rent. `timestamp` is the one with which the account was
/// created.
///
/// Accounts:
///   0. `[signer, writable]` the user's wallet
///   1. `[]`                 the game
///   2. `[writable]`         the user account
///   3. to 5. `[writable]`   the user account's token accounts, for SKR, SLICE and USDC
///   6. to 8. `[writable]`   the token accounts that receive, in the same order
///   9. `[]`                 the token program
pub fn withdraw_rewards(
    inv: &Invocation,
    timestamp: u64,
    effects: &mut Effects,
) -> (r: Result<(), ProgramError>)
    ensures
        (final(effects)@, r) == withdraw_rewards_outcome(*inv, timestamp, old(effects)@),
{
    if inv.accounts.len() < 10 {
        return Err(ProgramError::NotEnoughAccountKeys);
    }
    let user_wallet = &inv.accounts[0];
    let user_account = &inv.accounts[2];
    if !user_wallet.is_signer {
        return Err(ProgramError::MissingRequiredSignature);
    }
    let user_data = load_user(user_account)?;
    if !same_key(&user_data.owner, &user_wallet.key) {
        return Err(ProgramError::IllegalOwner);
    }
    if !same_key(&user_data.game, &inv.accounts[1].key) {
        return Err(ProgramError::InvalidAccountData);
    }
    let bump = matching_bump(
        find_user_account_pda(&user_data.owner, &user_data.game, timestamp),
        &user_account.key,
    )?;
    let skr_seeds = add_bump(user_seed_list(&user_data.owner, &user_data.game, timestamp), bump);
    withdraw_user_rewards(inv, 3, 6, &PaymentToken::SKR, skr_seeds, false, effects)?;
    let slice_seeds = add_bump(user_seed_list(&user_data.owner, &user_data.game, timestamp), bump);
    withdraw_user_rewards(inv, 4, 7, &PaymentToken::SLICE, slice_seeds, false, effects)?;
    let usdc_seeds = add_bump(user_seed_list(&user_data.owner, &user_data.game, timestamp), bump);
    withdraw_user_rewards(inv, 5, 8, &PaymentToken::USDC, usdc_seeds, true, effects)
}

} // verus!
