//! Who may do what.

use crate::constants::{Pubkey, AUTHORITY, PROGRAM_ID};
use crate::error::ProgramError;
use crate::instruction::IndieGamesInstruction;
use crate::processor::ranked_game::join_ranked_game_outcome;
use crate::processor::user_account::withdraw_rewards_outcome;
use crate::processor::{instruction_outcome, process_outcome};
use crate::runtime::{refuse, EffectView, Invocation, Outcome};
use crate::state::game::GameAccount;
use crate::state::user_account::UserAccount;
use vstd::prelude::*;

verus! {

/// Whether nothing happened but a refusal.
pub open spec fn refused_outright(out: Outcome, log: Seq<EffectView>) -> bool {
    out.0 == log && out.1 is Err
}

/// A call under another program's id, or with data that is no instruction, is
/// refused with the error for it, and nothing happens.
pub proof fn law_foreign_calls_are_refused(
    program_id: Pubkey,
    inv: Invocation,
    data: Seq<u8>,
    log: Seq<EffectView>,
)
    ensures
        program_id@ != PROGRAM_ID@ ==> process_outcome(program_id, inv, data, log) == refuse(
            log,
            ProgramError::IncorrectProgramId,
        ),
        program_id@ == PROGRAM_ID@ && IndieGamesInstruction::decode(data) is None ==> process_outcome(
            program_id,
            inv,
            data,
            log,
        ) == refuse(log, ProgramError::InvalidInstructionData),
{
}

/// The program does with the stored form of an instruction what the instruction says.
pub proof fn law_instruction_is_carried_out(
    inv: Invocation,
    instruction: IndieGamesInstruction,
    log: Seq<EffectView>,
)
    ensures
        process_outcome(
            PROGRAM_ID,
            inv,
            instruction.bytes(),
            log,
        ) == instruction_outcome(inv, instruction, log),
{
    instruction.law_decode_bytes();
}

/// Every instruction needs the signature of its first account. Without it,
/// nothing happens.
pub proof fn law_first_account_signs(
    inv: Invocation,
    instruction: IndieGamesInstruction,
    log: Seq<EffectView>,
)
    requires
        inv.accounts@.len() == 0 || !inv.accounts@[0].is_signer,
    ensures
        refused_outright(instruction_outcome(inv, instruction, log), log),
{
}

/// Whether an instruction is for the authority alone.
pub open spec fn for_authority(instruction: IndieGamesInstruction) -> bool {
    match instruction {
        IndieGamesInstruction::InitOracle { .. } => true,
        IndieGamesInstruction::UpdateOraclePrices { .. } => true,
        IndieGamesInstruction::UpgradeGameStateVersion => true,
        IndieGamesInstruction::RewardUserAccount { .. } => true,
        IndieGamesInstruction::CreateRankedGame { .. } => true,
        IndieGamesInstruction::UpdateRankedGameStatus { .. } => true,
        IndieGamesInstruction::RewardWinner { .. } => true,
        IndieGamesInstruction::CloseRankedGame { .. } => true,
        _ => false,
    }
}

/// What is for the authority alone is refused to everybody else, and nothing
/// happens.
pub proof fn law_only_authority(inv: Invocation, instruction: IndieGamesInstruction, log: Seq<EffectView>)
    requires
        for_authority(instruction),
        inv.accounts@.len() == 0 || inv.accounts@[0].key@ != AUTHORITY@,
    ensures
        refused_outright(instruction_outcome(inv, instruction, log), log),
{
}

/// Whether an instruction is for a game's owner alone.
pub open spec fn for_game_owner(instruction: IndieGamesInstruction) -> bool {
    match instruction {
        IndieGamesInstruction::UpdateFeeShare { .. } => true,
        IndieGamesInstruction::UpdateGameCost { .. } => true,
        IndieGamesInstruction::TransferGameOwnership { .. } => true,
        IndieGamesInstruction::DeveloperWithdraw => true,
        _ => false,
    }
}

/// Whether the first account is the owner of the game in the second.
pub open spec fn owns_game(inv: Invocation) -> bool {
    match GameAccount::decode(inv.accounts@[1].data@) {
        Some(game) => game.owner@ == inv.accounts@[0].key@,
        None => false,
    }
}

/// What is for a game's owner alone is refused to everybody else, and nothing
/// happens.
pub proof fn law_only_game_owner(inv: Invocation, instruction: IndieGamesInstruction, log: Seq<EffectView>)
    requires
        for_game_owner(instruction),
        inv.accounts@.len() < 2 || !owns_game(inv),
    ensures
        refused_outright(instruction_outcome(inv, instruction, log), log),
{
}

/// Whether the first account is the owner of the user account at `position`.
pub open spec fn owns_user_account(inv: Invocation, position: int) -> bool {
    match UserAccount::decode(inv.accounts@[position].data@) {
        Some(user) => user.owner@ == inv.accounts@[0].key@,
        None => false,
    }
}

/// Rewards are paid, and ranked games are joined, only for the owner of the user
/// account. To others it is refused, and nothing happens.
pub proof fn law_only_user_account_owner(
    inv: Invocation,
    timestamp: u64,
    ranked_game_id: u64,
    payment_token: Pubkey,
    log: Seq<EffectView>,
)
    ensures
        inv.accounts@.len() < 10 || !owns_user_account(inv, 2) ==> refused_outright(
            withdraw_rewards_outcome(inv, timestamp, log),
            log,
        ),
        inv.accounts@.len() < 13 || !owns_user_account(inv, 12) ==> refused_outright(
            join_ranked_game_outcome(inv, ranked_game_id, payment_token, log),
            log,
        ),
{
}

} // verus!
