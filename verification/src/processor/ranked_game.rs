//! Ranked games: their escrow, entries, payouts and closing.

use crate::codec::u64_from_le;
use crate::constants::{
    same_bytes, same_key, PaymentToken, Pubkey, AUTHORITY, NO_KEY, PROGRAM_ID,
    RANKED_GAME_DISCRIMINATOR, SKR_MINT, SLICE_MINT, TOKEN_PROGRAM_ID, USDC_MINT,
};
use crate::cpi::{
    close_account, create_account_creation, system_create_account, token_amount,
    token_close_account, token_transfer_checked, transfer_checked,
};
use crate::error::ProgramError;
use crate::helpers::{
    add_bump, bump_for, check_token_account, creation_call, decimals_of, fee_floor,
    find_game_protocol_pda, find_ranked_game_pda, game_of, game_protocol_seeds, load_game,
    load_oracle, load_user, low_64, matching_bump, oracle_of, paid_with, ranked_game_seed_list,
    ranked_game_seeds, share_floor, surplus, token_account_call, token_account_check,
    token_decimals, usd_value, user_of, value_of, with_bump, BPS_DENOMINATOR,
};
use crate::laws::access::refused_outright;
use crate::laws::sequences::{last_stored, law_no_second_reward, not_rewarded_again, same_call};
use crate::processor::oracle::{price_for, price_of};
use crate::processor::payment::{
    process_ranked_entry_payment, process_ranked_entry_payment_outcome, RankedPaymentAccounts,
    RankedSplPaymentAccounts,
};
use crate::runtime::{
    accept, call, refuse, signed_call, store_outcome, Effect, EffectView, Effects, Invocation,
    Outcome, Payout,
};
use crate::state::game::GameAccount;
use crate::state::oracle::OraclePriceState;
use crate::state::ranked_game::{RankedGameState, RankedGameStatus};
use crate::state::user_account::UserAccount;
use vstd::prelude::*;

verus! {

// ---------------------------------------------------------------------------
// One account at several positions
// ---------------------------------------------------------------------------

/// Whether the account at `position` stands at one of `others` as well.
pub open spec fn stands_at(inv: Invocation, others: Seq<usize>, position: usize) -> bool {
    exists|k: int|
        0 <= k < others.len() && inv.accounts@[#[trigger] others[k] as int].key@
            == inv.accounts@[position as int].key@
}

/// Looks for the account at `position` at the positions `others`.
fn find_account(inv: &Invocation, others: &Vec<usize>, position: usize) -> (r: bool)
    requires
        position < inv.accounts@.len(),
        forall|k: int| 0 <= k < others@.len() ==> #[trigger] others@[k] < inv.accounts@.len(),
    ensures
        r == stands_at(*inv, others@, position),
{
    for k in 0..others.len()
        invariant
            position < inv.accounts@.len(),
            forall|j: int| 0 <= j < others@.len() ==> #[trigger] others@[j] < inv.accounts@.len(),
            forall|j: int|
                0 <= j < k ==> inv.accounts@[#[trigger] others@[j] as int].key@
                    != inv.accounts@[position as int].key@,
    {
        if same_key(&inv.accounts[others[k]].key, &inv.accounts[position].key) {
            return true;
        }
    }
    false
}

// ---------------------------------------------------------------------------
// Creating a ranked game
// ---------------------------------------------------------------------------

/// What [`create_escrow_ata`] leaves behind.
pub open spec fn create_escrow_ata_outcome(
    inv: Invocation,
    mint: usize,
    escrow_ata: usize,
    made: Seq<usize>,
    log: Seq<EffectView>,
) -> Outcome {
    let a = inv.accounts@;
    if a[escrow_ata as int].data@.len() != 0 || stands_at(inv, made, escrow_ata) {
        accept(log)
    } else {
        match token_account_check(a[1].key@, a[mint as int].key@, a[escrow_ata as int].key@) {
            Err(e) => refuse(log, e),
            Ok(()) => match creation_call(a[0].key@, a[1].key@, a[mint as int].key@, a[4].key@, 0) {
                Err(e) => refuse(log, e),
                Ok(ix) => accept(log.push(call(ix, seq![0, escrow_ata, 1, mint, 3, 4, 5, 6]))),
            },
        }
    }
}

/// Creates the token account of the ranked game for one mint, unless it exists.
/// An account that stands at one of the positions `made` too exists by now: what
/// was listed for them has created it. The accounts are those of
/// [`create_ranked_game`].
fn create_escrow_ata(
    inv: &Invocation,
    mint: usize,
    escrow_ata: usize,
    made: &Vec<usize>,
    effects: &mut Effects,
) -> (r: Result<(), ProgramError>)
    requires
        7 <= inv.accounts@.len(),
        mint < inv.accounts@.len(),
        escrow_ata < inv.accounts@.len(),
        forall|k: int| 0 <= k < made@.len() ==> #[trigger] made@[k] < inv.accounts@.len(),
    ensures
        (final(effects)@, r) == create_escrow_ata_outcome(*inv, mint, escrow_ata, made@, old(effects)@),
{
    if inv.accounts[escrow_ata].data.len() != 0 || find_account(inv, made, escrow_ata) {
        return Ok(());
    }
    let payer = &inv.accounts[0].key;
    let ranked_game = &inv.accounts[1].key;
    check_token_account(ranked_game, &inv.accounts[mint].key, &inv.accounts[escrow_ata].key)?;
    let ix = token_account_call(payer, ranked_game, &inv.accounts[mint].key, &inv.accounts[4].key)?;
    effects.invoke(ix, vec![0, escrow_ata, 1, mint, 3, 4, 5, 6]);
    Ok(())
}

/// A ranked game as it is first stored.
pub open spec fn new_ranked_game(
    ranked_game_id: u64,
    game: Pubkey,
    entry_fee: u64,
    bump: u8,
) -> RankedGameState {
    RankedGameState {
        discriminator: RANKED_GAME_DISCRIMINATOR,
        ranked_game_id,
        game,
        entry_fee,
        participant_count: 0,
        status: RankedGameStatus::Open,
        bump,
    }
}

/// The first refusal of [`create_ranked_game`] that comes before any effect, or
/// the bump seed of the ranked game's address.
pub open spec fn create_ranked_game_check(inv: Invocation, ranked_game_id: u64) -> Result<u8, ProgramError> {
    let a = inv.accounts@;
    if a.len() < 13 {
        Err(ProgramError::NotEnoughAccountKeys)
    } else if !a[0].is_signer {
        Err(ProgramError::MissingRequiredSignature)
    } else if a[0].key@ != AUTHORITY@ {
        Err(ProgramError::InvalidAccountData)
    } else if a[1].data@.len() != 0 {
        Err(ProgramError::AccountAlreadyInitialized)
    } else {
        match GameAccount::decode_front(a[2].data@) {
            None => Err(ProgramError::BorshIoError),
            Some(game) => if !game.is_initialized {
                Err(ProgramError::InvalidAccountData)
            } else if a[7].key@ != USDC_MINT@ || a[9].key@ != SKR_MINT@ || a[11].key@ != SLICE_MINT@ {
                Err(ProgramError::InvalidAccountData)
            } else {
                bump_for(ranked_game_seeds(ranked_game_id), a[1].key@)
            },
        }
    }
}

/// What [`create_ranked_game`] leaves behind.
pub open spec fn create_ranked_game_outcome(
    inv: Invocation,
    ranked_game_id: u64,
    entry_fee: u64,
    log: Seq<EffectView>,
) -> Outcome {
    let a = inv.accounts@;
    match create_ranked_game_check(inv, ranked_game_id) {
        Err(e) => refuse(log, e),
        Ok(bump) => match inv.rent {
            Err(e) => refuse(log, e),
            Ok(rent) => {
                let log = log.push(
                    signed_call(
                        system_create_account(
                            a[0].key@,
                            a[1].key@,
                            rent.ranked_game,
                            RankedGameState::LEN as u64,
                            PROGRAM_ID@,
                        ),
                        seq![0, 1, 3],
                        with_bump(ranked_game_seeds(ranked_game_id), bump),
                    ),
                );
                match create_escrow_ata_outcome(inv, 7, 8, seq![1], log) {
                    (log, Err(e)) => refuse(log, e),
                    (log, Ok(())) => match create_escrow_ata_outcome(inv, 9, 10, seq![1, 8], log) {
                        (log, Err(e)) => refuse(log, e),
                        (log, Ok(())) => match create_escrow_ata_outcome(inv, 11, 12, seq![1, 8, 10], log) {
                            (log, Err(e)) => refuse(log, e),
                            (log, Ok(())) => store_outcome(
                                1,
                                RankedGameState::LEN as nat,
                                new_ranked_game(ranked_game_id, a[2].key, entry_fee, bump).bytes(),
                                log,
                            ),
                        },
                    },
                }
            },
        },
    }
}

/// Creates a ranked game of a game, with a token account for each SPL token in
/// which entries are pooled. Only the authority may do so.
///
/// Accounts:
///   0. `[signer, writable]` the authority, which pays the rent
///   1. `[writable]`         the ranked game's address
///   2. `[]`                 the game
///   3. to 6.                the system, token and associated token programs and the rent sysvar
///   7. to 12.               the mint and the ranked game's token account, for USDC, SKR and SLICE
pub fn create_ranked_game(
    inv: &Invocation,
    ranked_game_id: u64,
    entry_fee: u64,
    effects: &mut Effects,
) -> (r: Result<(), ProgramError>)
    ensures
        (final(effects)@, r) == create_ranked_game_outcome(*inv, ranked_game_id, entry_fee, old(effects)@),
{
    if inv.accounts.len() < 13 {
        return Err(ProgramError::NotEnoughAccountKeys);
    }
    let owner = &inv.accounts[0];
    let ranked_game_account = &inv.accounts[1];
    let game_account = &inv.accounts[2];
    if !owner.is_signer {
        return Err(ProgramError::MissingRequiredSignature);
    }
    if !same_key(&owner.key, &AUTHORITY) {
        return Err(ProgramError::InvalidAccountData);
    }
    if ranked_game_account.data.len() != 0 {
        return Err(ProgramError::AccountAlreadyInitialized);
    }
    let game_data = GameAccount::deserialize(game_account.data.as_slice())?;
    if !game_data.is_initialized {
        return Err(ProgramError::InvalidAccountData);
    }
    if !same_key(&inv.accounts[7].key, &USDC_MINT) {
        return Err(ProgramError::InvalidAccountData);
    }
    if !same_key(&inv.accounts[9].key, &SKR_MINT) {
        return Err(ProgramError::InvalidAccountData);
    }
    if !same_key(&inv.accounts[11].key, &SLICE_MINT) {
        return Err(ProgramError::InvalidAccountData);
    }
    let bump = matching_bump(find_ranked_game_pda(ranked_game_id), &ranked_game_account.key)?;
    let rent = inv.rent?;
    effects.invoke_signed(
        create_account_creation(
            &owner.key,
            &ranked_game_account.key,
            rent.ranked_game,
            RankedGameState::LEN as u64,
            &PROGRAM_ID,
        ),
        vec![0, 1, 3],
        add_bump(ranked_game_seed_list(ranked_game_id), bump),
    );
    let mut made: Vec<usize> = vec![1];
    assert(made@ =~= seq![1]);
    create_escrow_ata(inv, 7, 8, &made, effects)?;
    made.push(8);
    assert(made@ =~= seq![1, 8]);
    create_escrow_ata(inv, 9, 10, &made, effects)?;
    made.push(10);
    assert(made@ =~= seq![1, 8, 10]);
    create_escrow_ata(inv, 11, 12, &made, effects)?;
    let state = RankedGameState {
        discriminator: RANKED_GAME_DISCRIMINATOR,
        ranked_game_id,
        game: game_account.key,
        entry_fee,
        participant_count: 0,
        status: RankedGameStatus::Open,
        bump,
    };
    effects.store(1, RankedGameState::LEN, state.serialize())
}

// ---------------------------------------------------------------------------
// Reading a ranked game
// ---------------------------------------------------------------------------

/// What [`load_ranked_game`] returns.
pub open spec fn ranked_game_of(
    inv: Invocation,
    ranked_game_id: u64,
) -> Result<(RankedGameState, u8), ProgramError> {
    let account = inv.accounts@[1];
    if account.owner@ != PROGRAM_ID@ {
        Err(ProgramError::IllegalOwner)
    } else {
        match bump_for(ranked_game_seeds(ranked_game_id), account.key@) {
            Err(e) => Err(e),
            Ok(bump) => match RankedGameState::decode(account.data@) {
                None => Err(ProgramError::InvalidAccountData),
                Some(state) => if state.discriminator@ != RANKED_GAME_DISCRIMINATOR@ {
                    Err(ProgramError::InvalidAccountData)
                } else {
                    Ok((state, bump))
                },
            },
        }
    }
}

/// Reads the ranked game at position 1, with the bump seed of its address: it
/// belongs to this program, stands at the address of its number, and its data
/// is that of a ranked game.
fn load_ranked_game(inv: &Invocation, ranked_game_id: u64) -> (r: Result<(RankedGameState, u8), ProgramError>)
    requires
        2 <= inv.accounts@.len(),
    ensures
        r == ranked_game_of(*inv, ranked_game_id),
        r is Ok ==> inv.accounts@[1].key@ != NO_KEY@,
{
    let account = &inv.accounts[1];
    if !same_key(&account.owner, &PROGRAM_ID) {
        return Err(ProgramError::IllegalOwner);
    }
    let bump = matching_bump(find_ranked_game_pda(ranked_game_id), &account.key)?;
    let state = match RankedGameState::try_from_slice(account.data.as_slice()) {
        Ok(s) => s,
        Err(_) => {
            return Err(ProgramError::InvalidAccountData);
        },
    };
    if !same_bytes(&state.discriminator, &RANKED_GAME_DISCRIMINATOR) {
        return Err(ProgramError::InvalidAccountData);
    }
    Ok((state, bump))
}

// ---------------------------------------------------------------------------
// Joining
// ---------------------------------------------------------------------------

/// The user account of a player who may join: initialized, owned by the player,
/// of the ranked game's game, and not in this ranked game already.
pub open spec fn joining_user(inv: Invocation) -> Result<UserAccount, ProgramError> {
    let a = inv.accounts@;
    match user_of(a[12]) {
        Err(e) => Err(e),
        Ok(user) => if user.owner@ != a[0].key@ {
            Err(ProgramError::IllegalOwner)
        } else if user.game@ != a[2].key@ {
            Err(ProgramError::InvalidAccountData)
        } else if user.current_ranked_game@ == a[1].key@ {
            Err(ProgramError::InvalidAccountData)
        } else {
            Ok(user)
        },
    }
}

/// Reads the user account of a player who may join.
fn load_joining_user(inv: &Invocation) -> (r: Result<UserAccount, ProgramError>)
    requires
        13 <= inv.accounts@.len(),
    ensures
        r == joining_user(*inv),
{
    let user_data = load_user(&inv.accounts[12])?;
    if !same_key(&user_data.owner, &inv.accounts[0].key) {
        return Err(ProgramError::IllegalOwner);
    }
    if !same_key(&user_data.game, &inv.accounts[2].key) {
        return Err(ProgramError::InvalidAccountData);
    }
    if same_key(&user_data.current_ranked_game, &inv.accounts[1].key) {
        return Err(ProgramError::InvalidAccountData);
    }
    Ok(user_data)
}

/// The game that a ranked game belongs to, with the protocol treasury checked.
pub open spec fn joined_game(inv: Invocation) -> Result<GameAccount, ProgramError> {
    let a = inv.accounts@;
    match game_of(a[2]) {
        Err(e) => Err(e),
        Ok(game) => match bump_for(game_protocol_seeds(game.game_title@), a[3].key@) {
            Err(e) => Err(e),
            Ok(_) => Ok(game),
        },
    }
}

/// Reads the game that a ranked game belongs to and checks its protocol treasury.
fn load_joined_game(inv: &Invocation) -> (r: Result<GameAccount, ProgramError>)
    requires
        4 <= inv.accounts@.len(),
    ensures
        r == joined_game(*inv),
{
    let game_data = load_game(&inv.accounts[2])?;
    let _ = matching_bump(find_game_protocol_pda(&game_data.game_title), &inv.accounts[3].key)?;
    Ok(game_data)
}

/// The first refusal of [`join_ranked_game`] that comes before any effect, or
/// the ranked game, the game, the user account and the token.
pub open spec fn join_check(
    inv: Invocation,
    ranked_game_id: u64,
    payment_token: Pubkey,
) -> Result<(RankedGameState, GameAccount, UserAccount, PaymentToken), ProgramError> {
    let a = inv.accounts@;
    if a.len() < 13 {
        Err(ProgramError::NotEnoughAccountKeys)
    } else if !a[0].is_signer {
        Err(ProgramError::MissingRequiredSignature)
    } else {
        match ranked_game_of(inv, ranked_game_id) {
            Err(e) => Err(e),
            Ok((ranked, _)) => if ranked.status != RankedGameStatus::Open {
                Err(ProgramError::InvalidAccountData)
            } else if ranked.game@ != a[2].key@ {
                Err(ProgramError::InvalidAccountData)
            } else {
                match joined_game(inv) {
                    Err(e) => Err(e),
                    Ok(game) => match joining_user(inv) {
                        Err(e) => Err(e),
                        Ok(user) => match PaymentToken::spec_from_mint(payment_token) {
                            None => Err(ProgramError::InvalidAccountData),
                            Some(token) => if game.game_to_protocol_share_bps > BPS_DENOMINATOR {
                                Err(ProgramError::InvalidInstructionData)
                            } else {
                                Ok((ranked, game, user, token))
                            },
                        },
                    },
                }
            },
        }
    }
}

/// Where the accounts of an entry's payment stand in [`join_ranked_game`].
pub open spec fn join_payment_accounts() -> RankedPaymentAccounts {
    RankedPaymentAccounts {
        payer: 0,
        ranked_game: 1,
        game: 2,
        game_protocol: 3,
        oracle: 4,
        token_program: 6,
        system_program: 5,
    }
}

/// Where the token accounts of an entry's payment stand in [`join_ranked_game`].
pub open spec fn join_token_accounts(token: PaymentToken) -> Option<RankedSplPaymentAccounts> {
    if token == PaymentToken::SOL {
        None
    } else {
        Some(
            RankedSplPaymentAccounts {
                payer_ata: 8,
                ranked_game_ata: 9,
                game_ata: 10,
                protocol_ata: 11,
                mint: 7,
            },
        )
    }
}

/// A ranked game with one more participant.
pub open spec fn with_participant(ranked: RankedGameState) -> RankedGameState {
    RankedGameState { participant_count: (ranked.participant_count + 1) as u32, ..ranked }
}

/// A user account that takes part in a ranked game.
pub open spec fn with_ranked_game(user: UserAccount, ranked_game: Pubkey) -> UserAccount {
    UserAccount {
        current_ranked_game: ranked_game,
        total_ranked_games_played: (user.total_ranked_games_played + 1) as u32,
        ..user
    }
}

/// Writing down that a player has joined.
pub open spec fn join_record_outcome(
    inv: Invocation,
    ranked: RankedGameState,
    user: UserAccount,
    log: Seq<EffectView>,
) -> Outcome {
    let a = inv.accounts@;
    if ranked.participant_count == u32::MAX {
        refuse(log, ProgramError::InvalidAccountData)
    } else {
        match store_outcome(1, a[1].data@.len(), with_participant(ranked).bytes(), log) {
            (log, Err(e)) => refuse(log, e),
            (log, Ok(())) => if user.total_ranked_games_played == u32::MAX {
                refuse(log, ProgramError::InvalidAccountData)
            } else {
                store_outcome(12, a[12].data@.len(), with_ranked_game(user, a[1].key).bytes(), log)
            },
        }
    }
}

/// What [`join_ranked_game`] leaves behind.
pub open spec fn join_ranked_game_outcome(
    inv: Invocation,
    ranked_game_id: u64,
    payment_token: Pubkey,
    log: Seq<EffectView>,
) -> Outcome {
    match join_check(inv, ranked_game_id, payment_token) {
        Err(e) => refuse(log, e),
        Ok((ranked, game, user, token)) => match process_ranked_entry_payment_outcome(
            inv,
            join_payment_accounts(),
            join_token_accounts(token),
            ranked.entry_fee,
            (BPS_DENOMINATOR - game.game_to_protocol_share_bps) as u16,
            game.game_to_protocol_share_bps,
            token,
            log,
        ) {
            (log, Err(e)) => refuse(log, e),
            (log, Ok(())) => join_record_outcome(inv, ranked, user, log),
        },
    }
}

/// Enters a player into a ranked game that is open: charges the entry and its
/// fee, counts the participant, and notes the ranked game in the user account.
///
/// Accounts:
///   0. `[signer, writable]` the player
///   1. `[writable]`         the ranked game
///   2. `[writable]`         the game
///   3. `[writable]`         the game's protocol treasury
///   4. `[]`                 the oracle
///   5. and 6.               the system and token programs
///   7. to 11.               for SPL tokens: the mint, and the token accounts of the player, the ranked game, the game and the treasury
///   12. `[writable]`        the player's user account
pub fn join_ranked_game(
    inv: &Invocation,
    ranked_game_id: u64,
    payment_token: Pubkey,
    effects: &mut Effects,
) -> (r: Result<(), ProgramError>)
    ensures
        (final(effects)@, r) == join_ranked_game_outcome(*inv, ranked_game_id, payment_token, old(effects)@),
{
    if inv.accounts.len() < 13 {
        return Err(ProgramError::NotEnoughAccountKeys);
    }
    if !inv.accounts[0].is_signer {
        return Err(ProgramError::MissingRequiredSignature);
    }
    let (mut ranked_game_data, _) = load_ranked_game(inv, ranked_game_id)?;
    if ranked_game_data.status != RankedGameStatus::Open {
        return Err(ProgramError::InvalidAccountData);
    }
    if !same_key(&ranked_game_data.game, &inv.accounts[2].key) {
        return Err(ProgramError::InvalidAccountData);
    }
    let game_data = load_joined_game(inv)?;
    let mut user_data = load_joining_user(inv)?;
    let token = match PaymentToken::from_mint(&payment_token) {
        Some(t) => t,
        None => {
            return Err(ProgramError::InvalidAccountData);
        },
    };
    let protocol_share: u16 = game_data.game_to_protocol_share_bps;
    if protocol_share > 10_000 {
        return Err(ProgramError::InvalidInstructionData);
    }
    let dev_share: u16 = 10_000 - protocol_share;
    let at = RankedPaymentAccounts {
        payer: 0,
        ranked_game: 1,
        game: 2,
        game_protocol: 3,
        oracle: 4,
        token_program: 6,
        system_program: 5,
    };
    let spl_accounts = if token == PaymentToken::SOL {
        None
    } else {
        Some(
            RankedSplPaymentAccounts {
                payer_ata: 8,
                ranked_game_ata: 9,
                game_ata: 10,
                protocol_ata: 11,
                mint: 7,
            },
        )
    };
    process_ranked_entry_payment(
        inv,
        at,
        spl_accounts,
        ranked_game_data.entry_fee,
        dev_share,
        protocol_share,
        token,
        effects,
    )?;
    if ranked_game_data.participant_count == u32::MAX {
        return Err(ProgramError::InvalidAccountData);
    }
    ranked_game_data.participant_count = ranked_game_data.participant_count + 1;
    effects.store(1, inv.accounts[1].data.len(), ranked_game_data.serialize())?;
    user_data.current_ranked_game = inv.accounts[1].key;
    if user_data.total_ranked_games_played == u32::MAX {
        return Err(ProgramError::InvalidAccountData);
    }
    user_data.total_ranked_games_played = user_data.total_ranked_games_played + 1;
    effects.store(12, inv.accounts[12].data.len(), user_data.serialize())
}

// ---------------------------------------------------------------------------
// Status
// ---------------------------------------------------------------------------

/// What [`update_ranked_game_status`] leaves behind.
pub open spec fn update_ranked_game_status_outcome(
    inv: Invocation,
    ranked_game_id: u64,
    new_status: u8,
    log: Seq<EffectView>,
) -> Outcome {
    let a = inv.accounts@;
    if a.len() < 2 {
        refuse(log, ProgramError::NotEnoughAccountKeys)
    } else if !a[0].is_signer {
        refuse(log, ProgramError::MissingRequiredSignature)
    } else if a[0].key@ != AUTHORITY@ {
        refuse(log, ProgramError::InvalidAccountData)
    } else {
        match ranked_game_of(inv, ranked_game_id) {
            Err(e) => refuse(log, e),
            Ok((ranked, _)) => match RankedGameStatus::spec_from_tag(new_status) {
                None => refuse(log, ProgramError::InvalidInstructionData),
                Some(status) => store_outcome(
                    1,
                    a[1].data@.len(),
                    RankedGameState { status, ..ranked }.bytes(),
                    log,
                ),
            },
        }
    }
}

/// Sets the status of a ranked game: 0 for open, 1 for in progress, 2 for
/// finished. Only the authority may do so.
///
/// Accounts:
///   0. `[signer]`   the authority
///   1. `[writable]` the ranked game
pub fn update_ranked_game_status(
    inv: &Invocation,
    ranked_game_id: u64,
    new_status: u8,
    effects: &mut Effects,
) -> (r: Result<(), ProgramError>)
    ensures
        (final(effects)@, r) == update_ranked_game_status_outcome(
            *inv,
            ranked_game_id,
            new_status,
            old(effects)@,
        ),
{
    if inv.accounts.len() < 2 {
        return Err(ProgramError::NotEnoughAccountKeys);
    }
    let authority = &inv.accounts[0];
    if !authority.is_signer {
        return Err(ProgramError::MissingRequiredSignature);
    }
    if !same_key(&authority.key, &AUTHORITY) {
        return Err(ProgramError::InvalidAccountData);
    }
    let (mut ranked_game_data, _) = load_ranked_game(inv, ranked_game_id)?;
    ranked_game_data.status = match RankedGameStatus::from_tag(new_status) {
        Some(s) => s,
        None => {
            return Err(ProgramError::InvalidInstructionData);
        },
    };
    effects.store(1, inv.accounts[1].data.len(), ranked_game_data.serialize())
}

// ---------------------------------------------------------------------------
// Rewarding
// ---------------------------------------------------------------------------

/// What [`pay_sol_pool`] leaves behind.
pub open spec fn pay_sol_pool_outcome(
    inv: Invocation,
    oracle: OraclePriceState,
    payout_bps: u16,
    log: Seq<EffectView>,
) -> Payout {
    match inv.rent {
        Err(e) => (log, Err(e)),
        Ok(rent) => {
            let available = surplus(inv.accounts@[1].lamports, rent.ranked_game);
            let lamports = share_floor(available, payout_bps) as u64;
            if lamports == 0 {
                (log, Ok(0))
            } else {
                (
                    log.push(EffectView::MoveLamports { from: 1, to: 2, lamports }),
                    Ok(value_of(lamports, price_of(oracle, PaymentToken::SOL), 0)),
                )
            }
        },
    }
}

/// Pays a part of the lamports that the ranked game holds above its rent to the
/// winner, and returns what they are worth; the price of SOL is for one lamport.
/// The accounts are those of [`reward_winner`].
fn pay_sol_pool(
    inv: &Invocation,
    oracle: &OraclePriceState,
    payout_bps: u16,
    effects: &mut Effects,
) -> (r: Result<u64, ProgramError>)
    requires
        3 <= inv.accounts@.len(),
        payout_bps <= 10_000,
    ensures
        (final(effects)@, r) == pay_sol_pool_outcome(*inv, *oracle, payout_bps, old(effects)@),
{
    let rent = inv.rent?;
    let available: u64 = inv.accounts[1].lamports.saturating_sub(rent.ranked_game);
    if available == 0 {
        return Ok(0);
    }
    let lamports: u64 = fee_floor(available, payout_bps);
    if lamports == 0 {
        return Ok(0);
    }
    effects.record(Effect::MoveLamports { from: 1, to: 2, lamports });
    Ok(usd_value(lamports, price_for(oracle, &PaymentToken::SOL), 0))
}

/// The accounts of one token's pool in [`reward_winner`], by position.
#[derive(Clone, Copy, Debug, PartialEq, Eq, Structural)]
pub struct PoolAccounts {
    pub mint: usize,
    /// The token account of the ranked game.
    pub escrow_ata: usize,
    /// The token account of the winner.
    pub winner_ata: usize,
}

/// The balance of a token account, as far as its data holds one.
pub open spec fn pool_balance(data: Seq<u8>) -> u64 {
    if data.len() < 72 {
        0
    } else {
        token_amount(data) as u64
    }
}

/// Creating the winner's token account, unless it exists.
pub open spec fn winner_ata_outcome(inv: Invocation, at: PoolAccounts, log: Seq<EffectView>) -> Outcome {
    let a = inv.accounts@;
    if a[at.winner_ata as int].data@.len() != 0 {
        accept(log)
    } else {
        match creation_call(a[0].key@, a[2].key@, a[at.mint as int].key@, a[6].key@, 0) {
            Err(e) => refuse(log, e),
            Ok(ix) => accept(log.push(call(ix, seq![0, at.winner_ata, 2, at.mint, 5, 6, 7, 8]))),
        }
    }
}

/// The effect of paying tokens from the ranked game's pool to the winner.
pub open spec fn pool_payment(
    inv: Invocation,
    at: PoolAccounts,
    units: u64,
    decimals: u8,
    seeds: Seq<Seq<u8>>,
) -> EffectView {
    let a = inv.accounts@;
    signed_call(
        token_transfer_checked(
            a[at.escrow_ata as int].key@,
            a[at.mint as int].key@,
            a[at.winner_ata as int].key@,
            a[1].key@,
            units,
            decimals,
        ),
        seq![at.escrow_ata, at.mint, at.winner_ata, 1, 6],
        seeds,
    )
}

/// What [`pay_spl_pool`] leaves behind.
pub open spec fn pay_spl_pool_outcome(
    inv: Invocation,
    at: PoolAccounts,
    oracle: OraclePriceState,
    token: PaymentToken,
    ranked_game_id: u64,
    bump: u8,
    payout_bps: u16,
    log: Seq<EffectView>,
) -> Payout {
    let a = inv.accounts@;
    let mint = a[at.mint as int].key@;
    let units = low_64(share_floor(pool_balance(a[at.escrow_ata as int].data@), payout_bps));
    match token_account_check(a[1].key@, mint, a[at.escrow_ata as int].key@) {
        Err(e) => (log, Err(e)),
        Ok(()) => if units == 0 {
            (log, Ok(0))
        } else {
            match token_account_check(a[2].key@, mint, a[at.winner_ata as int].key@) {
                Err(e) => (log, Err(e)),
                Ok(()) => match winner_ata_outcome(inv, at, log) {
                    (log, Err(e)) => (log, Err(e)),
                    (log, Ok(())) => if a[6].key@ != TOKEN_PROGRAM_ID@ {
                        (log, Err(ProgramError::IncorrectProgramId))
                    } else {
                        (
                            log.push(
                                pool_payment(
                                    inv,
                                    at,
                                    units,
                                    decimals_of(token),
                                    with_bump(ranked_game_seeds(ranked_game_id), bump),
                                ),
                            ),
                            Ok(value_of(units, price_of(oracle, token), decimals_of(token))),
                        )
                    },
                },
            }
        },
    }
}

/// Pays a part of the ranked game's tokens of one mint to the winner, whose
/// token account is created if it is missing, and returns what they are worth.
/// The accounts are those of [`reward_winner`].
fn pay_spl_pool(
    inv: &Invocation,
    at: PoolAccounts,
    oracle: &OraclePriceState,
    token: PaymentToken,
    ranked_game_id: u64,
    bump: u8,
    payout_bps: u16,
    effects: &mut Effects,
) -> (r: Result<u64, ProgramError>)
    requires
        9 <= inv.accounts@.len(),
        at.mint < inv.accounts@.len(),
        at.escrow_ata < inv.accounts@.len(),
        at.winner_ata < inv.accounts@.len(),
    ensures
        (final(effects)@, r) == pay_spl_pool_outcome(
            *inv,
            at,
            *oracle,
            token,
            ranked_game_id,
            bump,
            payout_bps,
            old(effects)@,
        ),
{
    let ranked_game = &inv.accounts[1].key;
    let winner = &inv.accounts[2].key;
    let token_program = &inv.accounts[6].key;
    let mint = &inv.accounts[at.mint].key;
    let escrow_ata = &inv.accounts[at.escrow_ata];
    let winner_ata = &inv.accounts[at.winner_ata];
    check_token_account(ranked_game, mint, &escrow_ata.key)?;
    if escrow_ata.data.len() < 72 {
        return Ok(0);
    }
    let balance: u64 = u64_from_le(&escrow_ata.data, 64);
    if balance == 0 {
        assert(0 * payout_bps as nat == 0) by (nonlinear_arith);
        return Ok(0);
    }
    let units: u64 = fee_floor(balance, payout_bps);
    if units == 0 {
        return Ok(0);
    }
    check_token_account(winner, mint, &winner_ata.key)?;
    if winner_ata.data.len() == 0 {
        let ix = token_account_call(&inv.accounts[0].key, winner, mint, token_program)?;
        effects.invoke(ix, vec![0, at.winner_ata, 2, at.mint, 5, 6, 7, 8]);
    }
    let decimals = token_decimals(&token);
    let ix = transfer_checked(
        token_program,
        &escrow_ata.key,
        mint,
        &winner_ata.key,
        ranked_game,
        units,
        decimals,
    )?;
    effects.invoke_signed(
        ix,
        vec![at.escrow_ata, at.mint, at.winner_ata, 1, 6],
        add_bump(ranked_game_seed_list(ranked_game_id), bump),
    );
    Ok(usd_value(units, price_for(oracle, &token), decimals))
}

/// Where the accounts of the USDC pool stand in [`reward_winner`].
pub open spec fn usdc_pool() -> PoolAccounts {
    PoolAccounts { mint: 9, escrow_ata: 10, winner_ata: 11 }
}

/// Where the accounts of the SKR pool stand in [`reward_winner`].
pub open spec fn skr_pool() -> PoolAccounts {
    PoolAccounts { mint: 12, escrow_ata: 13, winner_ata: 14 }
}

/// Where the accounts of the SLICE pool stand in [`reward_winner`].
pub open spec fn slice_pool() -> PoolAccounts {
    PoolAccounts { mint: 15, escrow_ata: 16, winner_ata: 17 }
}

/// What [`pay_pools`] leaves behind.
pub open spec fn pay_pools_outcome(
    inv: Invocation,
    oracle: OraclePriceState,
    ranked_game_id: u64,
    bump: u8,
    payout_bps: u16,
    log: Seq<EffectView>,
) -> Payout {
    match pay_sol_pool_outcome(inv, oracle, payout_bps, log) {
        (log, Err(e)) => (log, Err(e)),
        (log, Ok(paid)) => match paid_with(
            paid,
            pay_spl_pool_outcome(
                inv,
                usdc_pool(),
                oracle,
                PaymentToken::USDC,
                ranked_game_id,
                bump,
                payout_bps,
                log,
            ),
        ) {
            (log, Err(e)) => (log, Err(e)),
            (log, Ok(paid)) => match paid_with(
                paid,
                pay_spl_pool_outcome(
                    inv,
                    skr_pool(),
                    oracle,
                    PaymentToken::SKR,
                    ranked_game_id,
                    bump,
                    payout_bps,
                    log,
                ),
            ) {
                (log, Err(e)) => (log, Err(e)),
                (log, Ok(paid)) => paid_with(
                    paid,
                    pay_spl_pool_outcome(
                        inv,
                        slice_pool(),
                        oracle,
                        PaymentToken::SLICE,
                        ranked_game_id,
                        bump,
                        payout_bps,
                        log,
                    ),
                ),
            },
        },
    }
}

/// Pays the same part of every pool to the winner, SOL first, and returns what
/// was paid in millionths of a US dollar.
fn pay_pools(
    inv: &Invocation,
    oracle: &OraclePriceState,
    ranked_game_id: u64,
    bump: u8,
    payout_bps: u16,
    effects: &mut Effects,
) -> (r: Result<u64, ProgramError>)
    requires
        18 <= inv.accounts@.len(),
        payout_bps <= 10_000,
    ensures
        (final(effects)@, r) == pay_pools_outcome(
            *inv,
            *oracle,
            ranked_game_id,
            bump,
            payout_bps,
            old(effects)@,
        ),
{
    let sol = pay_sol_pool(inv, oracle, payout_bps, effects)?;
    let usdc_at = PoolAccounts { mint: 9, escrow_ata: 10, winner_ata: 11 };
    let usdc = pay_spl_pool(
        inv,
        usdc_at,
        oracle,
        PaymentToken::USDC,
        ranked_game_id,
        bump,
        payout_bps,
        effects,
    )?;
    let skr_at = PoolAccounts { mint: 12, escrow_ata: 13, winner_ata: 14 };
    let skr = pay_spl_pool(inv, skr_at, oracle, PaymentToken::SKR, ranked_game_id, bump, payout_bps, effects)?;
    let slice_at = PoolAccounts { mint: 15, escrow_ata: 16, winner_ata: 17 };
    let slice = pay_spl_pool(
        inv,
        slice_at,
        oracle,
        PaymentToken::SLICE,
        ranked_game_id,
        bump,
        payout_bps,
        effects,
    )?;
    Ok(sol.saturating_add(usdc).saturating_add(skr).saturating_add(slice))
}

/// The user account of a winner: initialized, owned by the winner, and in this
/// ranked game.
pub open spec fn winning_user(inv: Invocation) -> Result<UserAccount, ProgramError> {
    let a = inv.accounts@;
    match user_of(a[3]) {
        Err(e) => Err(e),
        Ok(user) => if user.owner@ != a[2].key@ {
            Err(ProgramError::IllegalOwner)
        } else if user.current_ranked_game@ != a[1].key@ {
            Err(ProgramError::InvalidAccountData)
        } else {
            Ok(user)
        },
    }
}

/// Reads the user account of a winner.
fn load_winning_user(inv: &Invocation) -> (r: Result<UserAccount, ProgramError>)
    requires
        4 <= inv.accounts@.len(),
    ensures
        r == winning_user(*inv),
{
    let user_data = load_user(&inv.accounts[3])?;
    if !same_key(&user_data.owner, &inv.accounts[2].key) {
        return Err(ProgramError::IllegalOwner);
    }
    if !same_key(&user_data.current_ranked_game, &inv.accounts[1].key) {
        return Err(ProgramError::InvalidAccountData);
    }
    Ok(user_data)
}

/// The first refusal of [`reward_winner`] that comes before any effect, or the
/// winner's user account, the oracle and the bump seed of the ranked game.
pub open spec fn reward_winner_check(
    inv: Invocation,
    ranked_game_id: u64,
    payout_bps: u16,
) -> Result<(UserAccount, OraclePriceState, u8), ProgramError> {
    let a = inv.accounts@;
    if a.len() < 18 {
        Err(ProgramError::NotEnoughAccountKeys)
    } else if !a[0].is_signer {
        Err(ProgramError::MissingRequiredSignature)
    } else if a[0].key@ != AUTHORITY@ {
        Err(ProgramError::InvalidAccountData)
    } else if payout_bps > BPS_DENOMINATOR {
        Err(ProgramError::InvalidInstructionData)
    } else if a[9].key@ != USDC_MINT@ || a[12].key@ != SKR_MINT@ || a[15].key@ != SLICE_MINT@ {
        Err(ProgramError::InvalidAccountData)
    } else {
        match ranked_game_of(inv, ranked_game_id) {
            Err(e) => Err(e),
            Ok((ranked, bump)) => if ranked.status != RankedGameStatus::Finished {
                Err(ProgramError::InvalidAccountData)
            } else {
                match winning_user(inv) {
                    Err(e) => Err(e),
                    Ok(user) => match oracle_of(a[4]) {
                        Err(e) => Err(e),
                        Ok(oracle) => Ok((user, oracle, bump)),
                    },
                }
            },
        }
    }
}

/// A user account that won `paid` millionths of a US dollar and left its ranked game.
pub open spec fn with_win(user: UserAccount, paid: u64) -> UserAccount {
    UserAccount {
        total_usd_rewards_micro: (user.total_usd_rewards_micro + paid) as u64,
        total_wins: (user.total_wins + 1) as u32,
        current_ranked_game: NO_KEY,
        ..user
    }
}

/// What [`reward_winner`] leaves behind.
pub open spec fn reward_winner_outcome(
    inv: Invocation,
    ranked_game_id: u64,
    payout_bps: u16,
    log: Seq<EffectView>,
) -> Outcome {
    match reward_winner_check(inv, ranked_game_id, payout_bps) {
        Err(e) => refuse(log, e),
        Ok((user, oracle, bump)) => match pay_pools_outcome(
            inv,
            oracle,
            ranked_game_id,
            bump,
            payout_bps,
            log,
        ) {
            (log, Err(e)) => refuse(log, e),
            (
                log,
                Ok(paid),
            ) => if user.total_usd_rewards_micro + paid > u64::MAX || user.total_wins == u32::MAX {
                refuse(log, ProgramError::InvalidAccountData)
            } else {
                store_outcome(3, inv.accounts@[3].data@.len(), with_win(user, paid).bytes(), log)
            },
        },
    }
}

/// Pays `payout_bps` basis points of every pool of a finished ranked game to one
/// of its participants, counts the win, and takes the participant out of the
/// game, so that nobody is rewarded twice for it. Only the authority may do so.
///
/// Accounts:
///   0. `[signer, writable]` the authority
///   1. `[writable]`         the ranked game
///   2. `[writable]`         the winner's wallet
///   3. `[writable]`         the winner's user account
///   4. `[]`                 the oracle
///   5. to 8.                the system, token and associated token programs and the rent sysvar
///   9. to 17.               the mint, the ranked game's and the winner's token account, for USDC, SKR and SLICE
pub fn reward_winner(
    inv: &Invocation,
    ranked_game_id: u64,
    payout_bps: u16,
    effects: &mut Effects,
) -> (r: Result<(), ProgramError>)
    ensures
        (final(effects)@, r) == reward_winner_outcome(*inv, ranked_game_id, payout_bps, old(effects)@),
        r is Ok ==> not_rewarded_again(*inv, ranked_game_id, final(effects)@),
{
    let ghost log = effects@;
    if inv.accounts.len() < 18 {
        return Err(ProgramError::NotEnoughAccountKeys);
    }
    let authority = &inv.accounts[0];
    if !authority.is_signer {
        return Err(ProgramError::MissingRequiredSignature);
    }
    if !same_key(&authority.key, &AUTHORITY) {
        return Err(ProgramError::InvalidAccountData);
    }
    if payout_bps as u64 > BPS_DENOMINATOR {
        return Err(ProgramError::InvalidInstructionData);
    }
    if !same_key(&inv.accounts[9].key, &USDC_MINT) {
        return Err(ProgramError::InvalidAccountData);
    }
    if !same_key(&inv.accounts[12].key, &SKR_MINT) {
        return Err(ProgramError::InvalidAccountData);
    }
    if !same_key(&inv.accounts[15].key, &SLICE_MINT) {
        return Err(ProgramError::InvalidAccountData);
    }
    let (ranked_game_data, bump) = load_ranked_game(inv, ranked_game_id)?;
    if ranked_game_data.status != RankedGameStatus::Finished {
        return Err(ProgramError::InvalidAccountData);
    }
    let mut user_data = load_winning_user(inv)?;
    let oracle = load_oracle(&inv.accounts[4])?;
    let paid: u64 = pay_pools(inv, &oracle, ranked_game_id, bump, payout_bps, effects)?;
    user_data.total_usd_rewards_micro = match user_data.total_usd_rewards_micro.checked_add(paid) {
        Some(v) => v,
        None => {
            return Err(ProgramError::InvalidAccountData);
        },
    };
    user_data.total_wins = match user_data.total_wins.checked_add(1) {
        Some(v) => v,
        None => {
            return Err(ProgramError::InvalidAccountData);
        },
    };
    user_data.current_ranked_game = NO_KEY;
    let result = effects.store(3, inv.accounts[3].data.len(), user_data.serialize());
    proof {
        if result is Ok {
            let after = reward_winner_outcome(*inv, ranked_game_id, payout_bps, log);
            assert((effects@, result) == after);
            assert forall|next: Invocation, next_bps: u16, next_log: Seq<EffectView>|
                next.accounts@.len() >= 18 && next.accounts@[1].key@ == inv.accounts@[1].key@ && last_stored(
                    effects@,
                    3,
                    inv.accounts@[3],
                    next.accounts@[3],
                ) implies {
                let out = #[trigger] reward_winner_outcome(next, ranked_game_id, next_bps, next_log);
                &&& refused_outright(out, next_log)
                &&& same_call(*inv, next) && next_bps <= BPS_DENOMINATOR ==> out == refuse(
                    next_log,
                    ProgramError::InvalidAccountData,
                )
            } by {
                law_no_second_reward(*inv, ranked_game_id, payout_bps, log, next, next_bps, next_log);
            }
        }
    }
    result
}

// ---------------------------------------------------------------------------
// Closing
// ---------------------------------------------------------------------------

/// Sweeping what is left of one pool to the authority.
pub open spec fn sweep_outcome(
    inv: Invocation,
    mint: usize,
    escrow_ata: usize,
    authority_ata: usize,
    seeds: Seq<Seq<u8>>,
    log: Seq<EffectView>,
) -> Outcome {
    let a = inv.accounts@;
    let balance = token_amount(a[escrow_ata as int].data@) as u64;
    if balance == 0 {
        accept(log)
    } else {
        match token_account_check(a[0].key@, a[mint as int].key@, a[authority_ata as int].key@) {
            Err(e) => refuse(log, e),
            Ok(()) => if a[authority_ata as int].data@.len() == 0 {
                refuse(log, ProgramError::UninitializedAccount)
            } else if a[mint as int].data@.len() < 45 {
                refuse(log, ProgramError::InvalidAccountData)
            } else if a[2].key@ != TOKEN_PROGRAM_ID@ {
                refuse(log, ProgramError::IncorrectProgramId)
            } else {
                accept(
                    log.push(
                        signed_call(
                            token_transfer_checked(
                                a[escrow_ata as int].key@,
                                a[mint as int].key@,
                                a[authority_ata as int].key@,
                                a[1].key@,
                                balance,
                                a[mint as int].data@[44],
                            ),
                            seq![escrow_ata, mint, authority_ata, 1, 2],
                            seeds,
                        ),
                    ),
                )
            },
        }
    }
}

/// What [`close_escrow_ata`] leaves behind.
pub open spec fn close_escrow_ata_outcome(
    inv: Invocation,
    mint: usize,
    escrow_ata: usize,
    authority_ata: usize,
    closed: Seq<usize>,
    seeds: Seq<Seq<u8>>,
    log: Seq<EffectView>,
) -> Outcome {
    let a = inv.accounts@;
    if a[escrow_ata as int].data@.len() == 0 || stands_at(inv, closed, escrow_ata) {
        accept(log)
    } else {
        match token_account_check(a[1].key@, a[mint as int].key@, a[escrow_ata as int].key@) {
            Err(e) => refuse(log, e),
            Ok(()) => if a[escrow_ata as int].data@.len() < 72 {
                refuse(log, ProgramError::InvalidAccountData)
            } else {
                match sweep_outcome(inv, mint, escrow_ata, authority_ata, seeds, log) {
                    (log, Err(e)) => refuse(log, e),
                    (log, Ok(())) => if a[2].key@ != TOKEN_PROGRAM_ID@ {
                        refuse(log, ProgramError::IncorrectProgramId)
                    } else {
                        accept(
                            log.push(
                                signed_call(
                                    token_close_account(a[escrow_ata as int].key@, a[0].key@, a[1].key@),
                                    seq![escrow_ata, 0, 1, 2],
                                    seeds,
                                ),
                            ),
                        )
                    },
                }
            },
        }
    }
}

/// Sweeps what is left in one token account of the ranked game to the authority's
/// and closes it; its rent goes to the authority. Does nothing if the account does
/// not exist. One that stands at one of the positions `closed` too exists no more:
/// what was listed for them has closed it. The accounts are those of
/// [`close_ranked_game`].
fn close_escrow_ata(
    inv: &Invocation,
    mint: usize,
    escrow_ata: usize,
    authority_ata: usize,
    closed: &Vec<usize>,
    ranked_game_id: u64,
    bump: u8,
    effects: &mut Effects,
) -> (r: Result<(), ProgramError>)
    requires
        3 <= inv.accounts@.len(),
        mint < inv.accounts@.len(),
        escrow_ata < inv.accounts@.len(),
        authority_ata < inv.accounts@.len(),
        forall|k: int| 0 <= k < closed@.len() ==> #[trigger] closed@[k] < inv.accounts@.len(),
    ensures
        (final(effects)@, r) == close_escrow_ata_outcome(
            *inv,
            mint,
            escrow_ata,
            authority_ata,
            closed@,
            with_bump(ranked_game_seeds(ranked_game_id), bump),
            old(effects)@,
        ),
{
    let authority = &inv.accounts[0].key;
    let ranked_game = &inv.accounts[1].key;
    let token_program = &inv.accounts[2].key;
    let mint_account = &inv.accounts[mint];
    let escrow = &inv.accounts[escrow_ata];
    let destination = &inv.accounts[authority_ata];
    if escrow.data.len() == 0 || find_account(inv, closed, escrow_ata) {
        return Ok(());
    }
    check_token_account(ranked_game, &mint_account.key, &escrow.key)?;
    if escrow.data.len() < 72 {
        return Err(ProgramError::InvalidAccountData);
    }
    let balance: u64 = u64_from_le(&escrow.data, 64);
    if balance > 0 {
        check_token_account(authority, &mint_account.key, &destination.key)?;
        if destination.data.len() == 0 {
            return Err(ProgramError::UninitializedAccount);
        }
        if mint_account.data.len() < 45 {
            return Err(ProgramError::InvalidAccountData);
        }
        let decimals: u8 = mint_account.data[44];
        let ix = transfer_checked(
            token_program,
            &escrow.key,
            &mint_account.key,
            &destination.key,
            ranked_game,
            balance,
            decimals,
        )?;
        effects.invoke_signed(
            ix,
            vec![escrow_ata, mint, authority_ata, 1, 2],
            add_bump(ranked_game_seed_list(ranked_game_id), bump),
        );
    }
    let ix = close_account(token_program, &escrow.key, authority, ranked_game)?;
    effects.invoke_signed(
        ix,
        vec![escrow_ata, 0, 1, 2],
        add_bump(ranked_game_seed_list(ranked_game_id), bump),
    );
    Ok(())
}

/// The first refusal of [`close_ranked_game`] that comes before any effect, or
/// the bump seed of the ranked game's address.
pub open spec fn close_ranked_game_check(inv: Invocation, ranked_game_id: u64) -> Result<u8, ProgramError> {
    let a = inv.accounts@;
    if a.len() < 12 {
        Err(ProgramError::NotEnoughAccountKeys)
    } else if !a[0].is_signer {
        Err(ProgramError::MissingRequiredSignature)
    } else if a[0].key@ != AUTHORITY@ {
        Err(ProgramError::InvalidAccountData)
    } else if a[3].key@ != USDC_MINT@ || a[6].key@ != SKR_MINT@ || a[9].key@ != SLICE_MINT@ {
        Err(ProgramError::InvalidAccountData)
    } else if a[1].owner@ != PROGRAM_ID@ {
        Err(ProgramError::IllegalOwner)
    } else {
        bump_for(ranked_game_seeds(ranked_game_id), a[1].key@)
    }
}

/// What [`close_ranked_game`] leaves behind.
pub open spec fn close_ranked_game_outcome(
    inv: Invocation,
    ranked_game_id: u64,
    log: Seq<EffectView>,
) -> Outcome {
    match close_ranked_game_check(inv, ranked_game_id) {
        Err(e) => refuse(log, e),
        Ok(bump) => {
            let seeds = with_bump(ranked_game_seeds(ranked_game_id), bump);
            match close_escrow_ata_outcome(inv, 3, 4, 5, seq![], seeds, log) {
                (log, Err(e)) => refuse(log, e),
                (log, Ok(())) => match close_escrow_ata_outcome(inv, 6, 7, 8, seq![4], seeds, log) {
                    (log, Err(e)) => refuse(log, e),
                    (log, Ok(())) => match close_escrow_ata_outcome(inv, 9, 10, 11, seq![4, 7], seeds, log) {
                        (log, Err(e)) => refuse(log, e),
                        (log, Ok(())) => accept(
                            log.push(EffectView::ZeroData { account: 1 }).push(
                                EffectView::DrainLamports { from: 1, to: 0 },
                            ),
                        ),
                    },
                },
            }
        },
    }
}

/// Closes a ranked game: its token accounts are swept and closed, its data is
/// cleared, and all its lamports go to the authority, who alone may do so.
///
/// Accounts:
///   0. `[signer, writable]` the authority
///   1. `[writable]`         the ranked game
///   2. `[]`                 the token program
///   3. to 11.               the mint, the ranked game's and the authority's token account, for USDC, SKR and SLICE
pub fn close_ranked_game(
    inv: &Invocation,
    ranked_game_id: u64,
    effects: &mut Effects,
) -> (r: Result<(), ProgramError>)
    ensures
        (final(effects)@, r) == close_ranked_game_outcome(*inv, ranked_game_id, old(effects)@),
{
    if inv.accounts.len() < 12 {
        return Err(ProgramError::NotEnoughAccountKeys);
    }
    let authority = &inv.accounts[0];
    let ranked_game_account = &inv.accounts[1];
    if !authority.is_signer {
        return Err(ProgramError::MissingRequiredSignature);
    }
    if !same_key(&authority.key, &AUTHORITY) {
        return Err(ProgramError::InvalidAccountData);
    }
    if !same_key(&inv.accounts[3].key, &USDC_MINT) {
        return Err(ProgramError::InvalidAccountData);
    }
    if !same_key(&inv.accounts[6].key, &SKR_MINT) {
        return Err(ProgramError::InvalidAccountData);
    }
    if !same_key(&inv.accounts[9].key, &SLICE_MINT) {
        return Err(ProgramError::InvalidAccountData);
    }
    if !same_key(&ranked_game_account.owner, &PROGRAM_ID) {
        return Err(ProgramError::IllegalOwner);
    }
    let bump = matching_bump(find_ranked_game_pda(ranked_game_id), &ranked_game_account.key)?;
    let mut closed: Vec<usize> = Vec::new();
    assert(closed@ =~= seq![]);
    close_escrow_ata(inv, 3, 4, 5, &closed, ranked_game_id, bump, effects)?;
    closed.push(4);
    assert(closed@ =~= seq![4]);
    close_escrow_ata(inv, 6, 7, 8, &closed, ranked_game_id, bump, effects)?;
    closed.push(7);
    assert(closed@ =~= seq![4, 7]);
    close_escrow_ata(inv, 9, 10, 11, &closed, ranked_game_id, bump, effects)?;
    effects.record(Effect::ZeroData { account: 1 });
    effects.record(Effect::DrainLamports { from: 1, to: 0 });
    Ok(())
}

} // verus!
