//! The handlers of the instructions, and which instruction goes to which.

pub mod game;
pub mod oracle;
pub mod payment;
pub mod ranked_game;
pub mod user_account;

use crate::constants::{same_key, Pubkey, PROGRAM_ID};
use crate::error::ProgramError;
use crate::instruction::IndieGamesInstruction;
use crate::laws::sequences::not_rewarded_again;
use crate::processor::game::{
    create_game, create_game_outcome, developer_withdraw, developer_withdraw_outcome, new_game,
    reward_user_account, reward_user_account_outcome, transfer_game_ownership,
    transfer_game_ownership_outcome, update_fee_share, update_fee_share_outcome, update_game_cost,
    update_game_cost_outcome, upgrade_game_version, upgrade_game_version_outcome,
};
use crate::processor::oracle::{
    init_oracle, init_oracle_outcome, update_oracle_prices, update_oracle_prices_outcome,
};
use crate::processor::ranked_game::{
    close_ranked_game, close_ranked_game_outcome, create_ranked_game, create_ranked_game_outcome,
    join_ranked_game, join_ranked_game_outcome, reward_winner, reward_winner_outcome,
    update_ranked_game_status, update_ranked_game_status_outcome,
};
use crate::processor::user_account::{
    create_user_account, create_user_account_outcome, withdraw_rewards, withdraw_rewards_outcome,
};
use crate::runtime::{refuse, EffectView, Effects, Invocation, Outcome};
use vstd::prelude::*;

verus! {

/// The layout version with which games are created.
pub const NEW_GAME_VERSION: u8 = 2;

/// The layout version with which user accounts are created.
pub const NEW_USER_VERSION: u8 = 1;

/// What carrying out an instruction leaves behind.
pub open spec fn instruction_outcome(
    inv: Invocation,
    instruction: IndieGamesInstruction,
    log: Seq<EffectView>,
) -> Outcome {
    match instruction {
        IndieGamesInstruction::InitOracle {
            sol_price_usd_micro_per_lamport: sol,
            skr_price_usd_micro_per_atom: skr,
            slice_price_usd_micro_per_atom: slice,
        } => init_oracle_outcome(inv, sol, skr, slice, log),
        IndieGamesInstruction::UpdateOraclePrices {
            sol_price_usd_micro_per_lamport: sol,
            skr_price_usd_micro_per_atom: skr,
            slice_price_usd_micro_per_atom: slice,
        } => update_oracle_prices_outcome(inv, sol, skr, slice, log),
        IndieGamesInstruction::CreateGame {
            title,
            dev_fee_bps,
            game_to_protocol_share_bps,
            game_cost,
            game_url,
        } => {
            create_game_outcome(
                inv,
                new_game(
                    NEW_GAME_VERSION,
                    title,
                    inv.accounts@[0].key,
                    dev_fee_bps,
                    game_to_protocol_share_bps,
                    game_cost,
                    game_url,
                ),
                log,
            )
        },
        IndieGamesInstruction::UpdateFeeShare { new_dev_fees_bps, new_game_to_protocol_share_bps } => {
            update_fee_share_outcome(inv, new_dev_fees_bps, new_game_to_protocol_share_bps, log)
        },
        IndieGamesInstruction::UpdateGameCost { new_game_cost } => {
            update_game_cost_outcome(inv, new_game_cost, log)
        },
        IndieGamesInstruction::TransferGameOwnership { new_owner } => {
            transfer_game_ownership_outcome(inv, new_owner, log)
        },
        IndieGamesInstruction::UpgradeGameStateVersion => upgrade_game_version_outcome(inv, log),
        IndieGamesInstruction::DeveloperWithdraw => developer_withdraw_outcome(inv, log),
        IndieGamesInstruction::RewardUserAccount { percentage_of_the_pool } => {
            reward_user_account_outcome(inv, percentage_of_the_pool, log)
        },
        IndieGamesInstruction::CreateUserAccount { username, timestamp, payment_token } => {
            create_user_account_outcome(inv, NEW_USER_VERSION, username, timestamp, payment_token, log)
        },
        IndieGamesInstruction::WithdrawRewards { timestamp } => withdraw_rewards_outcome(inv, timestamp, log),
        IndieGamesInstruction::CreateRankedGame { ranked_game_id, entry_fee_usd_micro } => {
            create_ranked_game_outcome(inv, ranked_game_id, entry_fee_usd_micro, log)
        },
        IndieGamesInstruction::JoinRankedGame { ranked_game_id, payment_token } => {
            join_ranked_game_outcome(inv, ranked_game_id, payment_token, log)
        },
        IndieGamesInstruction::UpdateRankedGameStatus { ranked_game_id, new_status } => {
            update_ranked_game_status_outcome(inv, ranked_game_id, new_status, log)
        },
        IndieGamesInstruction::RewardWinner { ranked_game_id, amount_usd_micro } => {
            reward_winner_outcome(inv, ranked_game_id, amount_usd_micro, log)
        },
        IndieGamesInstruction::CloseRankedGame { ranked_game_id } => {
            close_ranked_game_outcome(inv, ranked_game_id, log)
        },
    }
}

/// What [`Processor::process`] leaves behind.
pub open spec fn process_outcome(
    program_id: Pubkey,
    inv: Invocation,
    data: Seq<u8>,
    log: Seq<EffectView>,
) -> Outcome {
    if program_id@ != PROGRAM_ID@ {
        refuse(log, ProgramError::IncorrectProgramId)
    } else {
        match IndieGamesInstruction::decode(data) {
            None => refuse(log, ProgramError::InvalidInstructionData),
            Some(instruction) => instruction_outcome(inv, instruction, log),
        }
    }
}

/// The program.
pub struct Processor;

impl Processor {
    /// Carries out one instruction: reads it from its data and hands it to its
    /// handler. Refuses another program's id and data that is no instruction.
    pub fn process(
        program_id: &Pubkey,
        inv: &Invocation,
        instruction_data: &[u8],
        effects: &mut Effects,
    ) -> (r: Result<(), ProgramError>)
        ensures
            (final(effects)@, r) == process_outcome(*program_id, *inv, instruction_data@, old(effects)@),
            r is Ok ==> match IndieGamesInstruction::decode(instruction_data@) {
                Some(IndieGamesInstruction::RewardWinner { ranked_game_id, .. }) => {
                    not_rewarded_again(*inv, ranked_game_id, final(effects)@)
                },
                _ => true,
            },
    {
        if !same_key(program_id, &PROGRAM_ID) {
            return Err(ProgramError::IncorrectProgramId);
        }
        let instruction = match IndieGamesInstruction::try_from_slice(instruction_data) {
            Ok(i) => i,
            Err(_) => {
                return Err(ProgramError::InvalidInstructionData);
            },
        };
        match instruction {
            IndieGamesInstruction::InitOracle {
                sol_price_usd_micro_per_lamport: sol,
                skr_price_usd_micro_per_atom: skr,
                slice_price_usd_micro_per_atom: slice,
            } => init_oracle(inv, sol, skr, slice, effects),
            IndieGamesInstruction::UpdateOraclePrices {
                sol_price_usd_micro_per_lamport: sol,
                skr_price_usd_micro_per_atom: skr,
                slice_price_usd_micro_per_atom: slice,
            } => update_oracle_prices(inv, sol, skr, slice, effects),
            IndieGamesInstruction::CreateGame {
                title,
                dev_fee_bps,
                game_to_protocol_share_bps,
                game_cost,
                game_url,
            } => create_game(
                inv,
                NEW_GAME_VERSION,
                title,
                dev_fee_bps,
                game_to_protocol_share_bps,
                game_cost,
                game_url,
                effects,
            ),
            IndieGamesInstruction::UpdateFeeShare { new_dev_fees_bps, new_game_to_protocol_share_bps } => {
                update_fee_share(inv, new_dev_fees_bps, new_game_to_protocol_share_bps, effects)
            },
            IndieGamesInstruction::UpdateGameCost { new_game_cost } => {
                update_game_cost(inv, new_game_cost, effects)
            },
            IndieGamesInstruction::TransferGameOwnership { new_owner } => {
                transfer_game_ownership(inv, new_owner, effects)
            },
            IndieGamesInstruction::UpgradeGameStateVersion => upgrade_game_version(inv, effects),
            IndieGamesInstruction::DeveloperWithdraw => developer_withdraw(inv, effects),
            IndieGamesInstruction::RewardUserAccount { percentage_of_the_pool } => {
                reward_user_account(inv, percentage_of_the_pool, effects)
            },
            IndieGamesInstruction::CreateUserAccount { username, timestamp, payment_token } => {
                create_user_account(inv, NEW_USER_VERSION, username, timestamp, payment_token, effects)
            },
            IndieGamesInstruction::WithdrawRewards { timestamp } => withdraw_rewards(inv, timestamp, effects),
            IndieGamesInstruction::CreateRankedGame { ranked_game_id, entry_fee_usd_micro } => {
                create_ranked_game(inv, ranked_game_id, entry_fee_usd_micro, effects)
            },
            IndieGamesInstruction::JoinRankedGame { ranked_game_id, payment_token } => {
                join_ranked_game(inv, ranked_game_id, payment_token, effects)
            },
            IndieGamesInstruction::UpdateRankedGameStatus { ranked_game_id, new_status } => {
                update_ranked_game_status(inv, ranked_game_id, new_status, effects)
            },
            IndieGamesInstruction::RewardWinner { ranked_game_id, amount_usd_micro } => {
                reward_winner(inv, ranked_game_id, amount_usd_micro, effects)
            },
            IndieGamesInstruction::CloseRankedGame { ranked_game_id } => {
                close_ranked_game(inv, ranked_game_id, effects)
            },
        }
    }
}

} // verus!
