//! With which error an instruction is refused.
//!
//! Each law names the conditions of an instruction in the order in which they are
//! looked at; the first that fails gives the error, and if none does, there is none.

use crate::codec::le_bytes;
use crate::constants::{
    PaymentToken, Pubkey, AUTHORITY, GAME_PROTOCOL_SEED, GAME_SEED, ORACLE_DISCRIMINATOR, ORACLE_SEED,
    PROGRAM_ID, RANKED_GAME_DISCRIMINATOR, RANKED_GAME_SEED, SKR_MINT, SLICE_MINT, SOL_MINT,
    TOKEN_PROGRAM_ID, USDC_MINT, USER_SEED,
};
use crate::cpi::{is_token_account, program_address, system_create_account};
use crate::error::ProgramError;
use crate::helpers::{
    bump_for, charge, decimals_of, game_of, game_protocol_seeds, game_seeds, oracle_of,
    ranked_game_seeds, surplus, user_of, user_seeds, with_bump,
};
use crate::instruction::IndieGamesInstruction;
use crate::laws::deeds::{
    above, balance, capped, held, is_derived, keeps_tokens, part, tokens_address,
};
use crate::laws::payments::{
    can_charge, developer_cut, law_mints_and_tokens, lemma_charge, lemma_cuts, lemma_front,
    lemma_token, mint_of, protocol_cut, quoted,
};
use crate::laws::payouts::{
    given_worth, in_use, kept, lemma_given_from_pools, lemma_held, lemma_may_be_given, lemma_may_win,
    lemma_part, lemma_won_from_pools, to_close, won_worth,
};
use crate::laws::records::{
    law_cost_is_set, law_fees_are_set, law_game_is_given_away, law_old_game_is_upgraded,
    law_oracle_is_made, law_prices_are_set, law_status_is_set, to_make,
};
use crate::processor::game::{
    developer_withdraw_check, reward_from_pools_outcome, reward_from_protocol_pool_outcome,
    reward_user_check, withdraw_pool_outcome,
};
use crate::processor::instruction_outcome;
use crate::processor::oracle::price_of;
use crate::processor::payment::{
    process_payment_outcome, process_ranked_entry_payment_outcome, PaymentAccounts,
    RankedPaymentAccounts, RankedSplPaymentAccounts, SplPaymentAccounts,
};
use crate::processor::ranked_game::{
    close_escrow_ata_outcome, close_ranked_game_check, create_escrow_ata_outcome,
    create_ranked_game_check, join_check, join_payment_accounts, join_token_accounts,
    new_ranked_game, pay_pools_outcome, pay_sol_pool_outcome, pay_spl_pool_outcome,
    reward_winner_check, skr_pool, slice_pool, stands_at, usdc_pool, with_participant,
    with_ranked_game, with_win, PoolAccounts,
};
use crate::processor::user_account::{
    charge_user_outcome, create_user_check, new_user, with_user, withdraw_rewards_check,
};
use crate::runtime::{signed_call, Account, EffectView, Invocation};
use crate::state::game::{GameAccount, GameAccountV1};
use crate::state::oracle::OraclePriceState;
use crate::state::ranked_game::{RankedGameState, RankedGameStatus};
use crate::state::user_account::UserAccount;
use vstd::prelude::*;

verus! {

// ---------------------------------------------------------------------------
// Conditions in order
// ---------------------------------------------------------------------------

/// The error so far, or `error` if there is none so far and `condition` fails.
pub open spec fn need(so_far: Option<ProgramError>, condition: bool, error: ProgramError) -> Option<ProgramError> {
    if so_far is None && !condition {
        Some(error)
    } else {
        so_far
    }
}

/// The error so far, or the one that comes next.
pub open spec fn or_next(so_far: Option<ProgramError>, next: Option<ProgramError>) -> Option<ProgramError> {
    if so_far is None {
        next
    } else {
        so_far
    }
}

/// The result to which an error, or none, leads.
pub open spec fn ending(error: Option<ProgramError>) -> Result<(), ProgramError> {
    match error {
        Some(e) => Err(e),
        None => Ok(()),
    }
}

/// What is wrong with an account that should stand at the address that the program
/// derives from `seeds`.
pub open spec fn wrong_address(key: Seq<u8>, seeds: Seq<Seq<u8>>) -> Option<ProgramError> {
    let e = need(None, program_address(seeds, PROGRAM_ID@) is Some, ProgramError::Aborted);
    need(e, is_derived(key, seeds), ProgramError::InvalidAccountData)
}

/// What is wrong with an account that should be a wallet's token account for a mint.
pub open spec fn wrong_tokens(key: Seq<u8>, wallet: Seq<u8>, mint: Seq<u8>) -> Option<ProgramError> {
    let e = need(None, tokens_address(wallet, mint, TOKEN_PROGRAM_ID@) is Some, ProgramError::Aborted);
    need(e, keeps_tokens(key, wallet, mint), ProgramError::InvalidAccountData)
}

/// What is wrong with an account that should be the oracle's.
pub open spec fn wrong_oracle(account: Account) -> Option<ProgramError> {
    let e = need(None, account.owner@ == PROGRAM_ID@, ProgramError::IncorrectProgramId);
    let e = need(e, program_address(seq![ORACLE_SEED@], PROGRAM_ID@) is Some, ProgramError::Aborted);
    let e = need(e, is_derived(account.key@, seq![ORACLE_SEED@]), ProgramError::InvalidSeeds);
    let e = need(e, OraclePriceState::decode(account.data@) is Some, ProgramError::InvalidAccountData);
    need(
        e,
        OraclePriceState::decode(account.data@)->0.discriminator@ == ORACLE_DISCRIMINATOR@,
        ProgramError::InvalidAccountData,
    )
}

/// What is wrong with an account that should be a game's.
pub open spec fn wrong_game(account: Account) -> Option<ProgramError> {
    let e = need(None, account.owner@ == PROGRAM_ID@, ProgramError::IllegalOwner);
    let e = need(e, GameAccount::decode(account.data@) is Some, ProgramError::InvalidAccountData);
    need(e, GameAccount::decode(account.data@)->0.is_initialized, ProgramError::UninitializedAccount)
}

/// What is wrong with an account that should be a user's.
pub open spec fn wrong_user(account: Account) -> Option<ProgramError> {
    let e = need(None, account.owner@ == PROGRAM_ID@, ProgramError::IllegalOwner);
    let e = need(e, UserAccount::decode(account.data@) is Some, ProgramError::InvalidAccountData);
    need(e, UserAccount::decode(account.data@)->0.is_initialized, ProgramError::UninitializedAccount)
}

/// What is wrong with an account that should be that of the ranked game with a number.
pub open spec fn wrong_ranked(account: Account, ranked_game_id: u64) -> Option<ProgramError> {
    let e = need(None, account.owner@ == PROGRAM_ID@, ProgramError::IllegalOwner);
    let e = or_next(e, wrong_address(account.key@, seq![RANKED_GAME_SEED@, le_bytes(ranked_game_id as nat, 8)]));
    let e = need(e, RankedGameState::decode(account.data@) is Some, ProgramError::InvalidAccountData);
    need(
        e,
        RankedGameState::decode(account.data@)->0.discriminator@ == RANKED_GAME_DISCRIMINATOR@,
        ProgramError::InvalidAccountData,
    )
}

/// What is wrong with the rent sysvar.
pub open spec fn wrong_rent(inv: Invocation) -> Option<ProgramError> {
    match inv.rent {
        Ok(_) => None,
        Err(e) => Some(e),
    }
}

/// The accounts of the oracle, of games and of user accounts are read if nothing is wrong
/// with them, and give what they hold; else the error is the first thing that is wrong.
pub proof fn law_what_reading_needs(account: Account)
    ensures
        match oracle_of(account) {
            Ok(oracle) => wrong_oracle(account) is None && OraclePriceState::decode(account.data@) == Some(oracle),
            Err(e) => wrong_oracle(account) == Some(e),
        },
        match game_of(account) {
            Ok(game) => wrong_game(account) is None && GameAccount::decode(account.data@) == Some(game),
            Err(e) => wrong_game(account) == Some(e),
        },
        match user_of(account) {
            Ok(user) => wrong_user(account) is None && UserAccount::decode(account.data@) == Some(user),
            Err(e) => wrong_user(account) == Some(e),
        },
{
}

// ---------------------------------------------------------------------------
// The oracle
// ---------------------------------------------------------------------------

/// What making the oracle and setting its prices need.
pub proof fn law_what_the_oracle_needs(inv: Invocation, sol: u64, skr: u64, slice: u64, log: Seq<EffectView>)
    ensures
        ({
            let init = IndieGamesInstruction::InitOracle {
                sol_price_usd_micro_per_lamport: sol,
                skr_price_usd_micro_per_atom: skr,
                slice_price_usd_micro_per_atom: slice,
            };
            let update = IndieGamesInstruction::UpdateOraclePrices {
                sol_price_usd_micro_per_lamport: sol,
                skr_price_usd_micro_per_atom: skr,
                slice_price_usd_micro_per_atom: slice,
            };
            let a = inv.accounts@;
            let e = need(None, a.len() >= 3, ProgramError::NotEnoughAccountKeys);
            let e = need(e, a[0].key@ == AUTHORITY@, ProgramError::InvalidAccountData);
            let e = need(e, a[0].is_signer, ProgramError::MissingRequiredSignature);
            let e = or_next(e, wrong_address(a[1].key@, seq![ORACLE_SEED@]));
            let e = need(e, a[1].data@.len() == 0, ProgramError::AccountAlreadyInitialized);
            let e = need(e, sol > 0 && skr > 0 && slice > 0, ProgramError::InvalidInstructionData);
            let e = or_next(e, wrong_rent(inv));
            let f = need(None, a.len() >= 2, ProgramError::NotEnoughAccountKeys);
            let f = need(f, a[0].key@ == AUTHORITY@, ProgramError::InvalidAccountData);
            let f = need(f, a[0].is_signer, ProgramError::MissingRequiredSignature);
            let f = need(f, sol > 0 && skr > 0 && slice > 0, ProgramError::InvalidInstructionData);
            let f = or_next(f, wrong_oracle(a[1]));
            &&& instruction_outcome(inv, init, log).1 == ending(e)
            &&& instruction_outcome(inv, update, log).1 == ending(f)
        }),
{
    law_oracle_is_made(inv, sol, skr, slice, log);
    law_prices_are_set(inv, sol, skr, slice, log);
}

// ---------------------------------------------------------------------------
// Changing a game
// ---------------------------------------------------------------------------

/// What changing a game needs: its owner, and for its fees that they are allowed.
pub proof fn law_what_changing_a_game_needs(
    inv: Invocation,
    new_dev_fees_bps: u16,
    new_share_bps: u16,
    new_game_cost: u64,
    new_owner: Pubkey,
    log: Seq<EffectView>,
)
    ensures
        ({
            let fees = IndieGamesInstruction::UpdateFeeShare {
                new_dev_fees_bps,
                new_game_to_protocol_share_bps: new_share_bps,
            };
            let cost = IndieGamesInstruction::UpdateGameCost { new_game_cost };
            let owner = IndieGamesInstruction::TransferGameOwnership { new_owner };
            let a = inv.accounts@;
            let e = need(None, a.len() >= 2, ProgramError::NotEnoughAccountKeys);
            let e = need(e, a[0].is_signer, ProgramError::MissingRequiredSignature);
            let e = need(e, GameAccount::decode(a[1].data@) is Some, ProgramError::InvalidAccountData);
            let e = need(
                e,
                GameAccount::decode(a[1].data@)->0.owner@ == a[0].key@,
                ProgramError::IllegalOwner,
            );
            let f = need(
                e,
                1_000 <= new_dev_fees_bps <= 10_000 && 1_000 <= new_share_bps,
                ProgramError::InvalidInstructionData,
            );
            &&& instruction_outcome(inv, fees, log).1 == ending(f)
            &&& instruction_outcome(inv, cost, log).1 == ending(e)
            &&& instruction_outcome(inv, owner, log).1 == ending(e)
        }),
{
    law_fees_are_set(inv, new_dev_fees_bps, new_share_bps, log);
    law_cost_is_set(inv, new_game_cost, log);
    law_game_is_given_away(inv, new_owner, log);
}

/// What bringing a game to the current layout needs.
pub proof fn law_what_an_upgrade_needs(inv: Invocation, log: Seq<EffectView>)
    ensures
        ({
            let a = inv.accounts@;
            let data = a[1].data@;
            let e = need(None, a.len() >= 3, ProgramError::NotEnoughAccountKeys);
            let e = need(e, a[0].key@ == AUTHORITY@, ProgramError::InvalidAccountData);
            let e = need(e, a[0].is_signer, ProgramError::MissingRequiredSignature);
            let e = need(e, data.len() >= 2, ProgramError::InvalidAccountData);
            let f = need(None, GameAccountV1::decode(data) is Some, ProgramError::InvalidAccountData);
            let f = or_next(f, wrong_rent(inv));
            let f = need(f, a[1].lamports <= inv.rent->Ok_0.game, ProgramError::Aborted);
            instruction_outcome(inv, IndieGamesInstruction::UpgradeGameStateVersion, log).1 == ending(
                if data[1] >= 2 { e } else { or_next(e, f) },
            )
        }),
{
    law_old_game_is_upgraded(inv, log);
    let data = inv.accounts@[1].data@;
    if let Some(first) = GameAccountV1::decode(data) {
        assert(first.bytes() == data);
        first.law_decode_bytes();
    }
}

// ---------------------------------------------------------------------------
// Creating a game
// ---------------------------------------------------------------------------

/// What is wrong with the token accounts of an account of the program.
pub open spec fn wrong_pools(a: Seq<Account>, wallet: int) -> Option<ProgramError> {
    let key = a[wallet].key@;
    let e = need(None, a[9].key@ == SKR_MINT@, ProgramError::InvalidAccountData);
    let e = or_next(e, wrong_tokens(a[wallet + 1].key@, key, SKR_MINT@));
    let e = need(e, a[10].key@ == SLICE_MINT@, ProgramError::InvalidAccountData);
    let e = or_next(e, wrong_tokens(a[wallet + 2].key@, key, SLICE_MINT@));
    let e = need(e, a[11].key@ == USDC_MINT@, ProgramError::InvalidAccountData);
    or_next(e, wrong_tokens(a[wallet + 3].key@, key, USDC_MINT@))
}

/// What making a game needs.
pub proof fn law_what_a_game_needs(
    inv: Invocation,
    title: [u8; 32],
    dev_fee_bps: u16,
    game_to_protocol_share_bps: u16,
    game_cost: u64,
    game_url: [u8; 64],
    log: Seq<EffectView>,
)
    ensures
        ({
            let create = IndieGamesInstruction::CreateGame {
                title,
                dev_fee_bps,
                game_to_protocol_share_bps,
                game_cost,
                game_url,
            };
            let a = inv.accounts@;
            let existing = GameAccount::decode(a[1].data@);
            let e = need(None, a.len() >= 16, ProgramError::NotEnoughAccountKeys);
            let e = need(e, a[0].is_signer, ProgramError::MissingRequiredSignature);
            let e = or_next(e, wrong_address(a[5].key@, seq![GAME_PROTOCOL_SEED@, title@]));
            let e = if a[5].owner@ == PROGRAM_ID@ {
                e
            } else {
                or_next(or_next(e, wrong_rent(inv)), wrong_pools(a, 5))
            };
            let e = need(
                e,
                1_000 <= dev_fee_bps <= 10_000 && (a[1].data@.len() == 0 ==> 1_000 <= game_to_protocol_share_bps),
                ProgramError::InvalidInstructionData,
            );
            let e = or_next(e, wrong_address(a[1].key@, seq![GAME_SEED@, title@]));
            let e = if a[1].data@.len() == 0 {
                or_next(e, wrong_rent(inv))
            } else {
                let f = need(e, a[1].owner@ == PROGRAM_ID@, ProgramError::IllegalOwner);
                let f = need(f, existing is Some, ProgramError::BorshIoError);
                need(f, existing->0.is_initialized, ProgramError::UninitializedAccount)
            };
            let e = or_next(e, wrong_pools(a, 1));
            instruction_outcome(inv, create, log).1 == ending(e)
        }),
{
    let game = GameAccount {
        is_initialized: true,
        version: 2,
        game_title: title,
        owner: inv.accounts@[0].key,
        dev_fee_bps,
        game_to_protocol_share_bps,
        game_cost,
        game_url,
        total_users: 0,
        total_revenue_usd_micro: 0,
    };
    game.law_decode_bytes();
}

// ---------------------------------------------------------------------------
// Payments
// ---------------------------------------------------------------------------

/// What is wrong with charging so many millionths of a US dollar in the token of a mint.
pub open spec fn wrong_charge(usd_micro: nat, oracle: OraclePriceState, mint: Seq<u8>) -> Option<ProgramError> {
    let e = match quoted(oracle, mint) {
        Some((price, _)) => need(None, price > 0, ProgramError::InvalidAccountData),
        None => None,
    };
    need(e, can_charge(usd_micro, oracle, mint), ProgramError::ArithmeticOverflow)
}

/// Whether the program takes the token of a mint.
pub open spec fn is_taken(mint: Seq<u8>) -> bool {
    mint == SOL_MINT@ || mint == SKR_MINT@ || mint == SLICE_MINT@ || mint == USDC_MINT@
}

/// What paying the cost of a user account needs.
pub open spec fn wrong_cost(a: Seq<Account>, cost: u64, mint: Seq<u8>) -> Option<ProgramError> {
    let e = need(None, is_taken(mint), ProgramError::InvalidInstructionData);
    let e = need(
        e,
        a.len() >= 7 && (mint != SOL_MINT@ ==> a.len() >= 11),
        ProgramError::NotEnoughAccountKeys,
    );
    let e = need(e, a[2].data@.len() == 154, ProgramError::InvalidAccountData);
    let e = or_next(e, wrong_oracle(a[5]));
    let e = or_next(e, wrong_charge(cost as nat, OraclePriceState::decode(a[5].data@)->0, mint));
    if mint == SOL_MINT@ {
        e
    } else {
        let e = need(e, a[10].key@ == mint, ProgramError::InvalidAccountData);
        need(e, a[6].key@ == TOKEN_PROGRAM_ID@, ProgramError::IncorrectProgramId)
    }
}

proof fn lemma_wrong_charge(usd_micro: nat, oracle: OraclePriceState, mint: Pubkey, token: PaymentToken)
    requires
        PaymentToken::spec_from_mint(mint) == Some(token),
    ensures
        match charge(usd_micro, price_of(oracle, token), decimals_of(token)) {
            Ok(_) => wrong_charge(usd_micro, oracle, mint@) is None,
            Err(e) => wrong_charge(usd_micro, oracle, mint@) == Some(e),
        },
{
    lemma_charge(usd_micro, oracle, mint, token);
    lemma_token(mint, oracle);
}

proof fn lemma_wrong_cost(inv: Invocation, game: GameAccount, payment_token: Pubkey, log: Seq<EffectView>)
    requires
        create_user_check(inv) == Ok::<GameAccount, ProgramError>(game),
        game.game_cost > 0,
    ensures
        charge_user_outcome(inv, game.game_cost, payment_token, log).1 == ending(
            wrong_cost(inv.accounts@, game.game_cost, payment_token@),
        ),
{
    let a = inv.accounts@;
    let oracle = OraclePriceState::decode(a[5].data@)->0;
    lemma_front(a[2].data@);
    lemma_token(payment_token, oracle);
    if let Some(token) = PaymentToken::spec_from_mint(payment_token) {
        lemma_wrong_charge(game.game_cost as nat, oracle, payment_token, token);
    }
}

/// What making a user account needs.
pub proof fn law_what_a_user_account_needs(
    inv: Invocation,
    username: [u8; 32],
    timestamp: u64,
    payment_token: Pubkey,
    log: Seq<EffectView>,
)
    ensures
        ({
            let create = IndieGamesInstruction::CreateUserAccount { username, timestamp, payment_token };
            let a = inv.accounts@;
            let game = GameAccount::decode_front(a[2].data@);
            let e = need(None, a.len() >= 4, ProgramError::NotEnoughAccountKeys);
            let e = need(e, a[0].is_signer, ProgramError::MissingRequiredSignature);
            let e = need(e, a[1].data@.len() == 0, ProgramError::AccountAlreadyInitialized);
            let e = need(e, a[2].owner@ == PROGRAM_ID@, ProgramError::IllegalOwner);
            let e = need(e, game is Some, ProgramError::BorshIoError);
            let e = need(e, game->0.is_initialized, ProgramError::InvalidAccountData);
            let e = or_next(e, wrong_address(a[2].key@, seq![GAME_SEED@, game->0.game_title@]));
            let e = if game->0.game_cost == 0 {
                e
            } else {
                or_next(e, wrong_cost(a, game->0.game_cost, payment_token@))
            };
            let e = or_next(
                e,
                wrong_address(
                    a[1].key@,
                    seq![USER_SEED@, a[0].key@, a[2].key@, le_bytes(timestamp as nat, 8)],
                ),
            );
            let e = or_next(e, wrong_rent(inv));
            let e = need(e, game->0.total_users < u32::MAX, ProgramError::ArithmeticOverflow);
            instruction_outcome(inv, create, log).1 == ending(e)
        }),
{
    let a = inv.accounts@;
    lemma_front(a[2].data@);
    if let Ok(game) = create_user_check(inv) {
        if game.game_cost > 0 {
            lemma_wrong_cost(inv, game, payment_token, log);
        }
        with_user(game).law_decode_bytes();
        let bump = bump_for(user_seeds(a[0].key@, a[2].key@, timestamp), a[1].key@)->Ok_0;
        new_user(1, bump, a[0].key, a[2].key, username).law_decode_bytes();
    }
}

/// What paying an entry needs.
pub open spec fn wrong_entry(a: Seq<Account>, entry: u64, share_bps: u16, mint: Seq<u8>) -> Option<ProgramError> {
    let oracle = OraclePriceState::decode(a[4].data@)->0;
    let e = need(None, entry * 1_000 <= u64::MAX, ProgramError::ArithmeticOverflow);
    let e = or_next(e, wrong_oracle(a[4]));
    let e = or_next(e, wrong_charge(entry as nat * 10_000, oracle, mint));
    let e = or_next(e, wrong_charge(developer_cut(entry, share_bps) * 10_000, oracle, mint));
    let e = or_next(e, wrong_charge(protocol_cut(entry, share_bps) * 10_000, oracle, mint));
    if mint == SOL_MINT@ {
        e
    } else {
        let e = need(e, a[7].key@ == mint, ProgramError::InvalidAccountData);
        let e = or_next(e, wrong_tokens(a[9].key@, a[1].key@, mint));
        let e = or_next(e, wrong_tokens(a[10].key@, a[2].key@, mint));
        let e = or_next(e, wrong_tokens(a[11].key@, a[3].key@, mint));
        need(e, a[6].key@ == TOKEN_PROGRAM_ID@, ProgramError::IncorrectProgramId)
    }
}

proof fn lemma_wrong_entry(
    inv: Invocation,
    entry: u64,
    share_bps: u16,
    payment_token: Pubkey,
    token: PaymentToken,
    log: Seq<EffectView>,
)
    requires
        share_bps <= 10_000,
        PaymentToken::spec_from_mint(payment_token) == Some(token),
    ensures
        process_ranked_entry_payment_outcome(
            inv,
            join_payment_accounts(),
            join_token_accounts(token),
            entry,
            (10_000 - share_bps) as u16,
            share_bps,
            token,
            log,
        ).1 == ending(wrong_entry(inv.accounts@, entry, share_bps, payment_token@)),
{
    let oracle = OraclePriceState::decode(inv.accounts@[4].data@)->0;
    lemma_token(payment_token, oracle);
    if entry * 1_000 <= u64::MAX {
        lemma_cuts(entry, share_bps);
        lemma_wrong_charge(entry as nat * 10_000, oracle, payment_token, token);
        lemma_wrong_charge(developer_cut(entry, share_bps) * 10_000, oracle, payment_token, token);
        lemma_wrong_charge(protocol_cut(entry, share_bps) * 10_000, oracle, payment_token, token);
    }
}

/// What joining a ranked game needs.
pub proof fn law_what_joining_needs(
    inv: Invocation,
    ranked_game_id: u64,
    payment_token: Pubkey,
    log: Seq<EffectView>,
)
    ensures
        ({
            let join = IndieGamesInstruction::JoinRankedGame { ranked_game_id, payment_token };
            let a = inv.accounts@;
            let ranked = RankedGameState::decode(a[1].data@)->0;
            let game = GameAccount::decode(a[2].data@)->0;
            let user = UserAccount::decode(a[12].data@)->0;
            let share_bps = game.game_to_protocol_share_bps;
            let e = need(None, a.len() >= 13, ProgramError::NotEnoughAccountKeys);
            let e = need(e, a[0].is_signer, ProgramError::MissingRequiredSignature);
            let e = or_next(e, wrong_ranked(a[1], ranked_game_id));
            let e = need(e, ranked.status == RankedGameStatus::Open, ProgramError::InvalidAccountData);
            let e = need(e, ranked.game@ == a[2].key@, ProgramError::InvalidAccountData);
            let e = or_next(e, wrong_game(a[2]));
            let e = or_next(e, wrong_address(a[3].key@, seq![GAME_PROTOCOL_SEED@, game.game_title@]));
            let e = or_next(e, wrong_user(a[12]));
            let e = need(e, user.owner@ == a[0].key@, ProgramError::IllegalOwner);
            let e = need(e, user.game@ == a[2].key@, ProgramError::InvalidAccountData);
            let e = need(e, user.current_ranked_game@ != a[1].key@, ProgramError::InvalidAccountData);
            let e = need(e, is_taken(payment_token@), ProgramError::InvalidAccountData);
            let e = need(e, share_bps <= 10_000, ProgramError::InvalidInstructionData);
            let e = or_next(e, wrong_entry(a, ranked.entry_fee, share_bps, payment_token@));
            let e = need(
                e,
                ranked.participant_count < u32::MAX && user.total_ranked_games_played < u32::MAX,
                ProgramError::InvalidAccountData,
            );
            instruction_outcome(inv, join, log).1 == ending(e)
        }),
{
    let a = inv.accounts@;
    lemma_token(payment_token, OraclePriceState::decode(a[4].data@)->0);
    if let Ok((ranked, game, user, token)) = join_check(inv, ranked_game_id, payment_token) {
        lemma_wrong_entry(inv, ranked.entry_fee, game.game_to_protocol_share_bps, payment_token, token, log);
        ranked.law_decode_bytes();
        assert(ranked.bytes() == a[1].data@);
        user.law_decode_bytes();
        assert(user.bytes() == a[12].data@);
        with_participant(ranked).law_decode_bytes();
        with_ranked_game(user, a[1].key).law_decode_bytes();
    }
}

/// What charging a cost needs, wherever the accounts stand.
pub proof fn law_what_a_cost_needs(
    inv: Invocation,
    at: PaymentAccounts,
    spl: Option<SplPaymentAccounts>,
    cost_usd_micro: u64,
    token: PaymentToken,
    log: Seq<EffectView>,
)
    ensures
        ({
            let a = inv.accounts@;
            let mint = mint_of(token);
            let game = GameAccount::decode(a[at.game as int].data@);
            let oracle = a[at.oracle as int];
            let e = need(None, a[at.payer as int].is_signer, ProgramError::MissingRequiredSignature);
            let e = need(e, game is Some, ProgramError::InvalidAccountData);
            let e = need(e, game->0.is_initialized, ProgramError::UninitializedAccount);
            let e = or_next(e, wrong_oracle(oracle));
            let e = or_next(
                e,
                wrong_charge(cost_usd_micro as nat, OraclePriceState::decode(oracle.data@)->0, mint),
            );
            let e = if token == PaymentToken::SOL {
                e
            } else {
                let e = need(e, spl is Some, ProgramError::NotEnoughAccountKeys);
                let e = need(e, a[spl->0.mint as int].key@ == mint, ProgramError::InvalidAccountData);
                need(e, a[at.token_program as int].key@ == TOKEN_PROGRAM_ID@, ProgramError::IncorrectProgramId)
            };
            process_payment_outcome(inv, at, spl, cost_usd_micro, token, log).1 == ending(e)
        }),
{
    let mint = token.spec_mint();
    let oracle = OraclePriceState::decode(inv.accounts@[at.oracle as int].data@)->0;
    law_mints_and_tokens(mint, token);
    lemma_wrong_charge(cost_usd_micro as nat, oracle, mint, token);
}

/// What charging an entry needs, wherever the accounts stand.
pub proof fn law_what_an_entry_needs(
    inv: Invocation,
    at: RankedPaymentAccounts,
    spl: Option<RankedSplPaymentAccounts>,
    entry: u64,
    dev_fee_bps: u16,
    share_bps: u16,
    token: PaymentToken,
    log: Seq<EffectView>,
)
    ensures
        ({
            let a = inv.accounts@;
            let mint = mint_of(token);
            let oracle = OraclePriceState::decode(a[at.oracle as int].data@)->0;
            let e = need(None, dev_fee_bps + share_bps <= u16::MAX, ProgramError::ArithmeticOverflow);
            let e = need(e, dev_fee_bps + share_bps == 10_000, ProgramError::InvalidInstructionData);
            let e = need(e, entry * 1_000 <= u64::MAX, ProgramError::ArithmeticOverflow);
            let e = or_next(e, wrong_oracle(a[at.oracle as int]));
            let e = or_next(e, wrong_charge(entry as nat * 10_000, oracle, mint));
            let e = or_next(e, wrong_charge(developer_cut(entry, share_bps) * 10_000, oracle, mint));
            let e = or_next(e, wrong_charge(protocol_cut(entry, share_bps) * 10_000, oracle, mint));
            let e = if token == PaymentToken::SOL {
                e
            } else {
                let pool = a[spl->0.ranked_game_ata as int].key@;
                let e = need(e, spl is Some, ProgramError::NotEnoughAccountKeys);
                let e = need(e, a[spl->0.mint as int].key@ == mint, ProgramError::InvalidAccountData);
                let e = or_next(e, wrong_tokens(pool, a[at.ranked_game as int].key@, mint));
                let e = or_next(
                    e,
                    wrong_tokens(a[spl->0.game_ata as int].key@, a[at.game as int].key@, mint),
                );
                let e = or_next(
                    e,
                    wrong_tokens(a[spl->0.protocol_ata as int].key@, a[at.game_protocol as int].key@, mint),
                );
                need(e, a[at.token_program as int].key@ == TOKEN_PROGRAM_ID@, ProgramError::IncorrectProgramId)
            };
            process_ranked_entry_payment_outcome(inv, at, spl, entry, dev_fee_bps, share_bps, token, log).1
                == ending(e)
        }),
{
    let mint = token.spec_mint();
    let oracle = OraclePriceState::decode(inv.accounts@[at.oracle as int].data@)->0;
    law_mints_and_tokens(mint, token);
    if dev_fee_bps + share_bps == 10_000 && entry * 1_000 <= u64::MAX {
        assert(dev_fee_bps == (10_000 - share_bps) as u16);
        lemma_cuts(entry, share_bps);
        lemma_wrong_charge(entry as nat * 10_000, oracle, mint, token);
        lemma_wrong_charge(developer_cut(entry, share_bps) * 10_000, oracle, mint, token);
        lemma_wrong_charge(protocol_cut(entry, share_bps) * 10_000, oracle, mint, token);
    }
}

// ---------------------------------------------------------------------------
// Withdrawals
// ---------------------------------------------------------------------------

/// What withdrawing one kind of tokens needs.
pub open spec fn wrong_withdrawal(
    a: Seq<Account>,
    holder: int,
    source: int,
    mint: Seq<u8>,
    token_program: int,
) -> Option<ProgramError> {
    let data = a[source].data@;
    let e = wrong_tokens(a[source].key@, a[holder].key@, mint);
    if !in_use(a[source]) {
        e
    } else {
        let e = need(
            e,
            is_token_account(data) && data.subrange(0, 32) == mint && data.subrange(32, 64) == a[holder].key@,
            ProgramError::InvalidAccountData,
        );
        need(
            e,
            balance(data) == 0 || a[token_program].key@ == TOKEN_PROGRAM_ID@,
            ProgramError::IncorrectProgramId,
        )
    }
}

/// What withdrawing everything needs.
pub open spec fn wrong_withdrawals(inv: Invocation, holder: int, token_program: int) -> Option<ProgramError> {
    let a = inv.accounts@;
    let e = wrong_withdrawal(a, holder, holder + 1, SKR_MINT@, token_program);
    let e = or_next(e, wrong_withdrawal(a, holder, holder + 2, SLICE_MINT@, token_program));
    let e = or_next(e, wrong_withdrawal(a, holder, holder + 3, USDC_MINT@, token_program));
    or_next(e, wrong_rent(inv))
}

proof fn lemma_wrong_withdrawal(
    inv: Invocation,
    holder: usize,
    source: usize,
    destination: usize,
    token: PaymentToken,
    token_program: usize,
    seeds: Seq<Seq<u8>>,
    log: Seq<EffectView>,
)
    ensures
        withdraw_pool_outcome(inv, holder, source, destination, token, token_program, seeds, log).1 == ending(
            wrong_withdrawal(
                inv.accounts@,
                holder as int,
                source as int,
                token.spec_mint()@,
                token_program as int,
            ),
        ),
{
}

/// What the withdrawal of a game's income needs.
pub proof fn law_what_a_developer_needs(inv: Invocation, log: Seq<EffectView>)
    ensures
        ({
            let a = inv.accounts@;
            let game = GameAccount::decode(a[1].data@)->0;
            let e = need(None, a.len() >= 9, ProgramError::NotEnoughAccountKeys);
            let e = need(e, a[0].is_signer, ProgramError::MissingRequiredSignature);
            let e = or_next(e, wrong_game(a[1]));
            let e = need(e, game.owner@ == a[0].key@, ProgramError::IllegalOwner);
            let e = or_next(e, wrong_address(a[1].key@, seq![GAME_SEED@, game.game_title@]));
            let e = or_next(e, wrong_withdrawals(inv, 1, 8));
            instruction_outcome(inv, IndieGamesInstruction::DeveloperWithdraw, log).1 == ending(e)
        }),
{
    if let Ok((game, bump)) = developer_withdraw_check(inv) {
        let seeds = with_bump(game_seeds(game.game_title@), bump);
        lemma_wrong_withdrawal(inv, 1, 2, 5, PaymentToken::SKR, 8, seeds, log);
        let log1 = withdraw_pool_outcome(inv, 1, 2, 5, PaymentToken::SKR, 8, seeds, log).0;
        lemma_wrong_withdrawal(inv, 1, 3, 6, PaymentToken::SLICE, 8, seeds, log1);
        let log2 = withdraw_pool_outcome(inv, 1, 3, 6, PaymentToken::SLICE, 8, seeds, log1).0;
        lemma_wrong_withdrawal(inv, 1, 4, 7, PaymentToken::USDC, 8, seeds, log2);
    }
}

/// What the withdrawal of a user account's rewards needs.
pub proof fn law_what_a_winner_needs(inv: Invocation, timestamp: u64, log: Seq<EffectView>)
    ensures
        ({
            let a = inv.accounts@;
            let user = UserAccount::decode(a[2].data@)->0;
            let e = need(None, a.len() >= 10, ProgramError::NotEnoughAccountKeys);
            let e = need(e, a[0].is_signer, ProgramError::MissingRequiredSignature);
            let e = or_next(e, wrong_user(a[2]));
            let e = need(e, user.owner@ == a[0].key@, ProgramError::IllegalOwner);
            let e = need(e, user.game@ == a[1].key@, ProgramError::InvalidAccountData);
            let e = or_next(
                e,
                wrong_address(
                    a[2].key@,
                    seq![USER_SEED@, user.owner@, user.game@, le_bytes(timestamp as nat, 8)],
                ),
            );
            let e = or_next(e, wrong_withdrawals(inv, 2, 9));
            instruction_outcome(inv, IndieGamesInstruction::WithdrawRewards { timestamp }, log).1 == ending(e)
        }),
{
    if let Ok(seeds) = withdraw_rewards_check(inv, timestamp) {
        lemma_wrong_withdrawal(inv, 2, 3, 6, PaymentToken::SKR, 9, seeds, log);
        let log1 = withdraw_pool_outcome(inv, 2, 3, 6, PaymentToken::SKR, 9, seeds, log).0;
        lemma_wrong_withdrawal(inv, 2, 4, 7, PaymentToken::SLICE, 9, seeds, log1);
        let log2 = withdraw_pool_outcome(inv, 2, 4, 7, PaymentToken::SLICE, 9, seeds, log1).0;
        lemma_wrong_withdrawal(inv, 2, 5, 8, PaymentToken::USDC, 9, seeds, log2);
    }
}

// ---------------------------------------------------------------------------
// Rewards
// ---------------------------------------------------------------------------

/// What paying a winner from one pool of tokens needs.
pub open spec fn wrong_pool(a: Seq<Account>, mint: int, escrow: int, winner_ata: int, bps: u16) -> Option<ProgramError> {
    let e = wrong_tokens(a[escrow].key@, a[1].key@, a[mint].key@);
    if part(held(a[escrow]), bps) == 0 {
        e
    } else {
        let e = or_next(e, wrong_tokens(a[winner_ata].key@, a[2].key@, a[mint].key@));
        let e = need(
            e,
            a[winner_ata].data@.len() != 0 || tokens_address(a[2].key@, a[mint].key@, a[6].key@) is Some,
            ProgramError::Aborted,
        );
        need(e, a[6].key@ == TOKEN_PROGRAM_ID@, ProgramError::IncorrectProgramId)
    }
}

proof fn lemma_wrong_pool(
    inv: Invocation,
    at: PoolAccounts,
    oracle: OraclePriceState,
    token: PaymentToken,
    ranked_game_id: u64,
    bump: u8,
    bps: u16,
    log: Seq<EffectView>,
)
    requires
        bps <= 10_000,
    ensures
        match pay_spl_pool_outcome(inv, at, oracle, token, ranked_game_id, bump, bps, log).1 {
            Ok(_) => wrong_pool(
                inv.accounts@,
                at.mint as int,
                at.escrow_ata as int,
                at.winner_ata as int,
                bps,
            ) is None,
            Err(e) => wrong_pool(
                inv.accounts@,
                at.mint as int,
                at.escrow_ata as int,
                at.winner_ata as int,
                bps,
            ) == Some(e),
        },
{
    lemma_held(inv.accounts@[at.escrow_ata as int]);
    lemma_part(held(inv.accounts@[at.escrow_ata as int]), bps);
}

/// What paying a winner from all pools needs.
pub open spec fn wrong_winnings(inv: Invocation, bps: u16) -> Option<ProgramError> {
    let a = inv.accounts@;
    let e = wrong_rent(inv);
    let e = or_next(e, wrong_pool(a, 9, 10, 11, bps));
    let e = or_next(e, wrong_pool(a, 12, 13, 14, bps));
    or_next(e, wrong_pool(a, 15, 16, 17, bps))
}

#[verifier::rlimit(40)]
#[verifier::spinoff_prover]
proof fn lemma_wrong_winnings(
    inv: Invocation,
    oracle: OraclePriceState,
    ranked_game_id: u64,
    bump: u8,
    bps: u16,
    log: Seq<EffectView>,
)
    requires
        bps <= 10_000,
    ensures
        match pay_pools_outcome(inv, oracle, ranked_game_id, bump, bps, log).1 {
            Ok(_) => wrong_winnings(inv, bps) is None,
            Err(e) => wrong_winnings(inv, bps) == Some(e),
        },
{
    let log0 = pay_sol_pool_outcome(inv, oracle, bps, log).0;
    let (usdc, skr, slice) = (PaymentToken::USDC, PaymentToken::SKR, PaymentToken::SLICE);
    lemma_wrong_pool(inv, usdc_pool(), oracle, usdc, ranked_game_id, bump, bps, log0);
    let log1 = pay_spl_pool_outcome(inv, usdc_pool(), oracle, usdc, ranked_game_id, bump, bps, log0).0;
    lemma_wrong_pool(inv, skr_pool(), oracle, skr, ranked_game_id, bump, bps, log1);
    let log2 = pay_spl_pool_outcome(inv, skr_pool(), oracle, skr, ranked_game_id, bump, bps, log1).0;
    lemma_wrong_pool(inv, slice_pool(), oracle, slice, ranked_game_id, bump, bps, log2);
}

/// What rewarding a winner needs.
pub proof fn law_what_a_win_needs(inv: Invocation, ranked_game_id: u64, payout_bps: u16, log: Seq<EffectView>)
    ensures
        ({
            let reward = IndieGamesInstruction::RewardWinner { ranked_game_id, amount_usd_micro: payout_bps };
            let a = inv.accounts@;
            let ranked = RankedGameState::decode(a[1].data@)->0;
            let user = UserAccount::decode(a[3].data@)->0;
            let oracle = OraclePriceState::decode(a[4].data@)->0;
            let won = capped(won_worth(a, inv.rent->Ok_0.ranked_game, oracle, payout_bps));
            let e = need(None, a.len() >= 18, ProgramError::NotEnoughAccountKeys);
            let e = need(e, a[0].is_signer, ProgramError::MissingRequiredSignature);
            let e = need(e, a[0].key@ == AUTHORITY@, ProgramError::InvalidAccountData);
            let e = need(e, payout_bps <= 10_000, ProgramError::InvalidInstructionData);
            let e = need(
                e,
                a[9].key@ == USDC_MINT@ && a[12].key@ == SKR_MINT@ && a[15].key@ == SLICE_MINT@,
                ProgramError::InvalidAccountData,
            );
            let e = or_next(e, wrong_ranked(a[1], ranked_game_id));
            let e = need(e, ranked.status == RankedGameStatus::Finished, ProgramError::InvalidAccountData);
            let e = or_next(e, wrong_user(a[3]));
            let e = need(e, user.owner@ == a[2].key@, ProgramError::IllegalOwner);
            let e = need(e, user.current_ranked_game@ == a[1].key@, ProgramError::InvalidAccountData);
            let e = or_next(e, wrong_oracle(a[4]));
            let e = or_next(e, wrong_winnings(inv, payout_bps));
            let e = need(
                e,
                user.total_usd_rewards_micro + won <= u64::MAX && user.total_wins < u32::MAX,
                ProgramError::InvalidAccountData,
            );
            instruction_outcome(inv, reward, log).1 == ending(e)
        }),
{
    lemma_may_win(inv, ranked_game_id, payout_bps);
    if let Ok((user, oracle, bump)) = reward_winner_check(inv, ranked_game_id, payout_bps) {
        lemma_won_from_pools(inv, oracle, ranked_game_id, bump, payout_bps, log);
        lemma_wrong_winnings(inv, oracle, ranked_game_id, bump, payout_bps, log);
        let won = capped(won_worth(inv.accounts@, inv.rent->Ok_0.ranked_game, oracle, payout_bps));
        with_win(user, won).law_decode_bytes();
    }
}

/// What paying a user account from one pool of the protocol treasury needs.
pub open spec fn wrong_gift(
    a: Seq<Account>,
    source: int,
    destination: int,
    mint: Seq<u8>,
    bps: u16,
) -> Option<ProgramError> {
    let e = wrong_tokens(a[source].key@, a[2].key@, mint);
    let e = or_next(e, wrong_tokens(a[destination].key@, a[3].key@, mint));
    let e = need(
        e,
        a[source].data@.len() == 0 || is_token_account(a[source].data@),
        ProgramError::InvalidAccountData,
    );
    need(
        e,
        part(kept(a[source]), bps) == 0 || a[5].key@ == TOKEN_PROGRAM_ID@,
        ProgramError::IncorrectProgramId,
    )
}

proof fn lemma_wrong_gift(
    inv: Invocation,
    source: usize,
    destination: usize,
    oracle: OraclePriceState,
    token: PaymentToken,
    seeds: Seq<Seq<u8>>,
    bps: u16,
    log: Seq<EffectView>,
)
    requires
        bps <= 10_000,
    ensures
        ({
            let wrong = wrong_gift(
                inv.accounts@,
                source as int,
                destination as int,
                token.spec_mint()@,
                bps,
            );
            match reward_from_protocol_pool_outcome(inv, source, destination, oracle, token, seeds, bps, log).1 {
                Ok(_) => wrong is None,
                Err(e) => wrong == Some(e),
            }
        }),
{
    let account = inv.accounts@[source as int];
    lemma_held(account);
    assert(0 * bps as nat == 0) by (nonlinear_arith);
    if account.data@.len() == 0 || is_token_account(account.data@) {
        lemma_part(held(account), bps);
    }
}

/// What paying a user account from all pools of the protocol treasury needs.
pub open spec fn wrong_gifts(inv: Invocation, bps: u16) -> Option<ProgramError> {
    let a = inv.accounts@;
    let lamports = part(above(a[2].lamports, a[2].rent_floor), bps);
    let e = wrong_gift(a, 6, 7, USDC_MINT@, bps);
    let e = or_next(e, wrong_gift(a, 8, 9, SKR_MINT@, bps));
    let e = or_next(e, wrong_gift(a, 10, 11, SLICE_MINT@, bps));
    let e = or_next(e, wrong_rent(inv));
    need(e, lamports == 0 || a[3].lamports + lamports <= u64::MAX, ProgramError::ArithmeticOverflow)
}

#[verifier::rlimit(40)]
#[verifier::spinoff_prover]
proof fn lemma_wrong_gifts(
    inv: Invocation,
    oracle: OraclePriceState,
    seeds: Seq<Seq<u8>>,
    bps: u16,
    log: Seq<EffectView>,
)
    requires
        bps <= 10_000,
    ensures
        match reward_from_pools_outcome(inv, oracle, seeds, bps, log).1 {
            Ok(_) => wrong_gifts(inv, bps) is None,
            Err(e) => wrong_gifts(inv, bps) == Some(e),
        },
{
    let a = inv.accounts@;
    let (usdc, skr, slice) = (PaymentToken::USDC, PaymentToken::SKR, PaymentToken::SLICE);
    lemma_wrong_gift(inv, 6, 7, oracle, usdc, seeds, bps, log);
    let log1 = reward_from_protocol_pool_outcome(inv, 6, 7, oracle, usdc, seeds, bps, log).0;
    lemma_wrong_gift(inv, 8, 9, oracle, skr, seeds, bps, log1);
    let log2 = reward_from_protocol_pool_outcome(inv, 8, 9, oracle, skr, seeds, bps, log1).0;
    lemma_wrong_gift(inv, 10, 11, oracle, slice, seeds, bps, log2);
    lemma_part(above(a[2].lamports, a[2].rent_floor), bps);
    assert(surplus(a[2].lamports, a[2].rent_floor) == above(a[2].lamports, a[2].rent_floor));
}

/// What rewarding a user account needs.
pub proof fn law_what_a_reward_needs(inv: Invocation, percentage_of_the_pool: u16, log: Seq<EffectView>)
    ensures
        ({
            let reward = IndieGamesInstruction::RewardUserAccount { percentage_of_the_pool };
            let a = inv.accounts@;
            let game = GameAccount::decode(a[1].data@)->0;
            let user = UserAccount::decode(a[3].data@)->0;
            let oracle = OraclePriceState::decode(a[4].data@)->0;
            let won = capped(given_worth(a, oracle, percentage_of_the_pool));
            let e = need(None, a.len() >= 12, ProgramError::NotEnoughAccountKeys);
            let e = need(e, a[0].key@ == AUTHORITY@, ProgramError::InvalidAccountData);
            let e = need(e, a[0].is_signer, ProgramError::MissingRequiredSignature);
            let e = need(e, percentage_of_the_pool <= 10_000, ProgramError::InvalidInstructionData);
            let e = or_next(e, wrong_game(a[1]));
            let e = or_next(e, wrong_address(a[2].key@, seq![GAME_PROTOCOL_SEED@, game.game_title@]));
            let e = need(e, a[2].owner@ == PROGRAM_ID@, ProgramError::IllegalOwner);
            let e = or_next(e, wrong_user(a[3]));
            let e = need(e, user.game@ == a[1].key@, ProgramError::InvalidAccountData);
            let e = or_next(e, wrong_oracle(a[4]));
            let e = or_next(e, wrong_gifts(inv, percentage_of_the_pool));
            let e = need(e, user.total_usd_rewards_micro + won <= u64::MAX, ProgramError::InvalidAccountData);
            instruction_outcome(inv, reward, log).1 == ending(e)
        }),
{
    let bps = percentage_of_the_pool;
    lemma_may_be_given(inv, bps);
    if let Ok((game, bump, user, oracle)) = reward_user_check(inv, bps) {
        let seeds = with_bump(game_protocol_seeds(game.game_title@), bump);
        lemma_given_from_pools(inv, oracle, seeds, bps, log);
        lemma_wrong_gifts(inv, oracle, seeds, bps, log);
        let won = capped(given_worth(inv.accounts@, oracle, bps));
        UserAccount {
            total_usd_rewards_micro: (user.total_usd_rewards_micro + won) as u64,
            ..user
        }.law_decode_bytes();
    }
}

// ---------------------------------------------------------------------------
// Ranked games
// ---------------------------------------------------------------------------

/// What setting the status of a ranked game needs.
pub proof fn law_what_a_status_needs(inv: Invocation, ranked_game_id: u64, new_status: u8, log: Seq<EffectView>)
    ensures
        ({
            let update = IndieGamesInstruction::UpdateRankedGameStatus { ranked_game_id, new_status };
            let a = inv.accounts@;
            let e = need(None, a.len() >= 2, ProgramError::NotEnoughAccountKeys);
            let e = need(e, a[0].is_signer, ProgramError::MissingRequiredSignature);
            let e = need(e, a[0].key@ == AUTHORITY@, ProgramError::InvalidAccountData);
            let e = or_next(e, wrong_ranked(a[1], ranked_game_id));
            let e = need(e, new_status <= 2, ProgramError::InvalidInstructionData);
            instruction_outcome(inv, update, log).1 == ending(e)
        }),
{
    law_status_is_set(inv, ranked_game_id, new_status, log);
}

/// What making one pool of a ranked game needs.
pub open spec fn wrong_making(a: Seq<Account>, mint: int, escrow: int, made: Seq<int>) -> Option<ProgramError> {
    if !to_make(a, escrow, made) {
        None
    } else {
        need(
            wrong_tokens(a[escrow].key@, a[1].key@, a[mint].key@),
            tokens_address(a[1].key@, a[mint].key@, a[4].key@) is Some,
            ProgramError::Aborted,
        )
    }
}

proof fn lemma_wrong_making(
    inv: Invocation,
    mint: usize,
    escrow: usize,
    made: Seq<usize>,
    before: Seq<int>,
    log: Seq<EffectView>,
)
    requires
        made.len() == before.len(),
        forall|k: int| 0 <= k < made.len() ==> #[trigger] made[k] as int == #[trigger] before[k],
    ensures
        create_escrow_ata_outcome(inv, mint, escrow, made, log).1 == ending(
            wrong_making(inv.accounts@, mint as int, escrow as int, before),
        ),
{
    let a = inv.accounts@;
    if stands_at(inv, made, escrow) {
        let k = choose|k: int| 0 <= k < made.len() && a[#[trigger] made[k] as int].key@ == a[escrow as int].key@;
        assert(a[before[k]].key@ == a[escrow as int].key@);
        assert(!to_make(a, escrow as int, before));
    } else {
        assert forall|k: int| 0 <= k < before.len() implies a[#[trigger] before[k]].key@ != a[escrow as int].key@ by {
            assert(made[k] as int == before[k]);
        }
    }
}

/// What making a ranked game needs.
#[verifier::rlimit(40)]
#[verifier::spinoff_prover]
pub proof fn law_what_a_ranked_game_needs(
    inv: Invocation,
    ranked_game_id: u64,
    entry_fee_usd_micro: u64,
    log: Seq<EffectView>,
)
    ensures
        ({
            let create = IndieGamesInstruction::CreateRankedGame { ranked_game_id, entry_fee_usd_micro };
            let a = inv.accounts@;
            let game = GameAccount::decode_front(a[2].data@);
            let e = need(None, a.len() >= 13, ProgramError::NotEnoughAccountKeys);
            let e = need(e, a[0].is_signer, ProgramError::MissingRequiredSignature);
            let e = need(e, a[0].key@ == AUTHORITY@, ProgramError::InvalidAccountData);
            let e = need(e, a[1].data@.len() == 0, ProgramError::AccountAlreadyInitialized);
            let e = need(e, game is Some, ProgramError::BorshIoError);
            let e = need(e, game->0.is_initialized, ProgramError::InvalidAccountData);
            let e = need(
                e,
                a[7].key@ == USDC_MINT@ && a[9].key@ == SKR_MINT@ && a[11].key@ == SLICE_MINT@,
                ProgramError::InvalidAccountData,
            );
            let e = or_next(
                e,
                wrong_address(a[1].key@, seq![RANKED_GAME_SEED@, le_bytes(ranked_game_id as nat, 8)]),
            );
            let e = or_next(e, wrong_rent(inv));
            let e = or_next(e, wrong_making(a, 7, 8, seq![1]));
            let e = or_next(e, wrong_making(a, 9, 10, seq![1, 8]));
            let e = or_next(e, wrong_making(a, 11, 12, seq![1, 8, 10]));
            instruction_outcome(inv, create, log).1 == ending(e)
        }),
{
    let a = inv.accounts@;
    if let Ok(bump) = create_ranked_game_check(inv, ranked_game_id) {
        if let Ok(rent) = inv.rent {
            new_ranked_game(ranked_game_id, a[2].key, entry_fee_usd_micro, bump).law_decode_bytes();
            let log0 = log.push(
                signed_call(
                    system_create_account(
                        a[0].key@,
                        a[1].key@,
                        rent.ranked_game,
                        RankedGameState::LEN as u64,
                        PROGRAM_ID@,
                    ),
                    seq![0, 1, 3],
                    with_bump(ranked_game_seeds(ranked_game_id), bump),
                ),
            );
            lemma_wrong_making(inv, 7, 8, seq![1], seq![1], log0);
            let log1 = create_escrow_ata_outcome(inv, 7, 8, seq![1], log0).0;
            lemma_wrong_making(inv, 9, 10, seq![1, 8], seq![1, 8], log1);
            let log2 = create_escrow_ata_outcome(inv, 9, 10, seq![1, 8], log1).0;
            lemma_wrong_making(inv, 11, 12, seq![1, 8, 10], seq![1, 8, 10], log2);
        }
    }
}

/// What closing one pool of a ranked game needs.
pub open spec fn wrong_closing(
    a: Seq<Account>,
    mint: int,
    escrow: int,
    authority_ata: int,
    before: Seq<int>,
) -> Option<ProgramError> {
    if !to_close(a, escrow, before) {
        None
    } else {
        let e = wrong_tokens(a[escrow].key@, a[1].key@, a[mint].key@);
        let e = need(e, a[escrow].data@.len() >= 72, ProgramError::InvalidAccountData);
        let e = if balance(a[escrow].data@) == 0 {
            e
        } else {
            let f = or_next(e, wrong_tokens(a[authority_ata].key@, a[0].key@, a[mint].key@));
            let f = need(f, a[authority_ata].data@.len() != 0, ProgramError::UninitializedAccount);
            need(f, a[mint].data@.len() >= 45, ProgramError::InvalidAccountData)
        };
        need(e, a[2].key@ == TOKEN_PROGRAM_ID@, ProgramError::IncorrectProgramId)
    }
}

proof fn lemma_wrong_closing(
    inv: Invocation,
    mint: usize,
    escrow: usize,
    authority_ata: usize,
    closed: Seq<usize>,
    before: Seq<int>,
    seeds: Seq<Seq<u8>>,
    log: Seq<EffectView>,
)
    requires
        closed.len() == before.len(),
        forall|k: int| 0 <= k < closed.len() ==> #[trigger] closed[k] as int == #[trigger] before[k],
    ensures
        close_escrow_ata_outcome(inv, mint, escrow, authority_ata, closed, seeds, log).1 == ending(
            wrong_closing(inv.accounts@, mint as int, escrow as int, authority_ata as int, before),
        ),
{
    let a = inv.accounts@;
    lemma_held(a[escrow as int]);
    if stands_at(inv, closed, escrow) {
        let k = choose|k: int|
            0 <= k < closed.len() && a[#[trigger] closed[k] as int].key@ == a[escrow as int].key@;
        assert(a[before[k]].key@ == a[escrow as int].key@);
        assert(!to_close(a, escrow as int, before));
    } else {
        assert forall|k: int| 0 <= k < before.len() implies a[#[trigger] before[k]].key@ != a[escrow as int].key@ by {
            assert(closed[k] as int == before[k]);
        }
    }
}

/// What closing a ranked game needs.
#[verifier::rlimit(40)]
#[verifier::spinoff_prover]
pub proof fn law_what_closing_needs(inv: Invocation, ranked_game_id: u64, log: Seq<EffectView>)
    ensures
        ({
            let a = inv.accounts@;
            let e = need(None, a.len() >= 12, ProgramError::NotEnoughAccountKeys);
            let e = need(e, a[0].is_signer, ProgramError::MissingRequiredSignature);
            let e = need(e, a[0].key@ == AUTHORITY@, ProgramError::InvalidAccountData);
            let e = need(
                e,
                a[3].key@ == USDC_MINT@ && a[6].key@ == SKR_MINT@ && a[9].key@ == SLICE_MINT@,
                ProgramError::InvalidAccountData,
            );
            let e = need(e, a[1].owner@ == PROGRAM_ID@, ProgramError::IllegalOwner);
            let e = or_next(
                e,
                wrong_address(a[1].key@, seq![RANKED_GAME_SEED@, le_bytes(ranked_game_id as nat, 8)]),
            );
            let e = or_next(e, wrong_closing(a, 3, 4, 5, seq![]));
            let e = or_next(e, wrong_closing(a, 6, 7, 8, seq![4]));
            let e = or_next(e, wrong_closing(a, 9, 10, 11, seq![4, 7]));
            instruction_outcome(inv, IndieGamesInstruction::CloseRankedGame { ranked_game_id }, log).1 == ending(e)
        }),
{
    if let Ok(bump) = close_ranked_game_check(inv, ranked_game_id) {
        let seeds = with_bump(ranked_game_seeds(ranked_game_id), bump);
        lemma_wrong_closing(inv, 3, 4, 5, seq![], seq![], seeds, log);
        let log1 = close_escrow_ata_outcome(inv, 3, 4, 5, seq![], seeds, log).0;
        lemma_wrong_closing(inv, 6, 7, 8, seq![4], seq![4], seeds, log1);
        let log2 = close_escrow_ata_outcome(inv, 6, 7, 8, seq![4], seeds, log1).0;
        lemma_wrong_closing(inv, 9, 10, 11, seq![4, 7], seq![4, 7], seeds, log2);
    }
}

} // verus!
