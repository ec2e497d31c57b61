//! Where the fields stand in stored data.

use crate::codec::{i64_bits, law_le_value, le_bytes, le_value, lemma_le_len, lemma_le_limits};
use crate::instruction::IndieGamesInstruction;
use crate::state::character::CharacterView;
use crate::state::game::{GameAccount, GameAccountV1};
use crate::state::oracle::OraclePriceState;
use crate::state::ranked_game::{RankedGameState, RankedGameStatus};
use crate::state::user_account::UserAccount;
use vstd::prelude::*;
use vstd::utf8::encode_utf8;

verus! {

/// Where the fields of a game's account stand.
pub proof fn law_game_account_layout(x: GameAccount)
    ensures
        ({
            let d = x.bytes();
            &&& d.len() == 154
            &&& d[0] == (if x.is_initialized { 1u8 } else { 0u8 })
            &&& d[1] == x.version
            &&& d.subrange(2, 34) == x.game_title@
            &&& d.subrange(34, 66) == x.owner@
            &&& le_value(d.subrange(66, 68)) == x.dev_fee_bps
            &&& le_value(d.subrange(68, 70)) == x.game_to_protocol_share_bps
            &&& le_value(d.subrange(70, 78)) == x.game_cost
            &&& d.subrange(78, 142) == x.game_url@
            &&& le_value(d.subrange(142, 146)) == x.total_users
            &&& le_value(d.subrange(146, 154)) == x.total_revenue_usd_micro
        }),
{
    reveal(GameAccount::encode);
    lemma_le_limits();
    lemma_le_len(x.dev_fee_bps as nat, 2);
    law_le_value(x.dev_fee_bps as nat, 2);
    lemma_le_len(x.game_to_protocol_share_bps as nat, 2);
    law_le_value(x.game_to_protocol_share_bps as nat, 2);
    lemma_le_len(x.game_cost as nat, 8);
    law_le_value(x.game_cost as nat, 8);
    lemma_le_len(x.total_users as nat, 4);
    law_le_value(x.total_users as nat, 4);
    lemma_le_len(x.total_revenue_usd_micro as nat, 8);
    law_le_value(x.total_revenue_usd_micro as nat, 8);
    let d = x.bytes();
    assert(d.subrange(2, 34) =~= x.game_title@);
    assert(d.subrange(34, 66) =~= x.owner@);
    assert(d.subrange(66, 68) =~= le_bytes(x.dev_fee_bps as nat, 2));
    assert(d.subrange(68, 70) =~= le_bytes(x.game_to_protocol_share_bps as nat, 2));
    assert(d.subrange(70, 78) =~= le_bytes(x.game_cost as nat, 8));
    assert(d.subrange(78, 142) =~= x.game_url@);
    assert(d.subrange(142, 146) =~= le_bytes(x.total_users as nat, 4));
    assert(d.subrange(146, 154) =~= le_bytes(x.total_revenue_usd_micro as nat, 8));
}

/// Where the fields of a game's account in the first layout stand.
pub proof fn law_first_game_account_layout(x: GameAccountV1)
    ensures
        ({
            let d = x.bytes();
            &&& d.len() == 70
            &&& d[0] == (if x.is_initialized { 1u8 } else { 0u8 })
            &&& d[1] == x.version
            &&& d.subrange(2, 34) == x.game_title@
            &&& d.subrange(34, 66) == x.owner@
            &&& le_value(d.subrange(66, 68)) == x.dev_fee_bps
            &&& le_value(d.subrange(68, 70)) == x.game_to_protocol_share_bps
        }),
{
    reveal(GameAccountV1::encode);
    lemma_le_limits();
    lemma_le_len(x.dev_fee_bps as nat, 2);
    law_le_value(x.dev_fee_bps as nat, 2);
    lemma_le_len(x.game_to_protocol_share_bps as nat, 2);
    law_le_value(x.game_to_protocol_share_bps as nat, 2);
    let d = x.bytes();
    assert(d.subrange(2, 34) =~= x.game_title@);
    assert(d.subrange(34, 66) =~= x.owner@);
    assert(d.subrange(66, 68) =~= le_bytes(x.dev_fee_bps as nat, 2));
    assert(d.subrange(68, 70) =~= le_bytes(x.game_to_protocol_share_bps as nat, 2));
}

/// Where the fields of a user's account stand.
pub proof fn law_user_account_layout(x: UserAccount)
    ensures
        ({
            let d = x.bytes();
            &&& d.len() == 155
            &&& d[0] == (if x.is_initialized { 1u8 } else { 0u8 })
            &&& d[1] == x.version
            &&& d[2] == x.bump
            &&& d.subrange(3, 35) == x.owner@
            &&& d.subrange(35, 67) == x.game@
            &&& d.subrange(67, 99) == x.username@
            &&& d.subrange(99, 131) == x.current_ranked_game@
            &&& le_value(d.subrange(131, 135)) == x.total_ranked_games_played
            &&& le_value(d.subrange(135, 139)) == x.total_wins
            &&& le_value(d.subrange(139, 147)) == x.total_usd_spent_micro
            &&& le_value(d.subrange(147, 155)) == x.total_usd_rewards_micro
        }),
{
    reveal(UserAccount::encode);
    lemma_le_limits();
    lemma_le_len(x.total_ranked_games_played as nat, 4);
    law_le_value(x.total_ranked_games_played as nat, 4);
    lemma_le_len(x.total_wins as nat, 4);
    law_le_value(x.total_wins as nat, 4);
    lemma_le_len(x.total_usd_spent_micro as nat, 8);
    law_le_value(x.total_usd_spent_micro as nat, 8);
    lemma_le_len(x.total_usd_rewards_micro as nat, 8);
    law_le_value(x.total_usd_rewards_micro as nat, 8);
    let d = x.bytes();
    assert(d.subrange(3, 35) =~= x.owner@);
    assert(d.subrange(35, 67) =~= x.game@);
    assert(d.subrange(67, 99) =~= x.username@);
    assert(d.subrange(99, 131) =~= x.current_ranked_game@);
    assert(d.subrange(131, 135) =~= le_bytes(x.total_ranked_games_played as nat, 4));
    assert(d.subrange(135, 139) =~= le_bytes(x.total_wins as nat, 4));
    assert(d.subrange(139, 147) =~= le_bytes(x.total_usd_spent_micro as nat, 8));
    assert(d.subrange(147, 155) =~= le_bytes(x.total_usd_rewards_micro as nat, 8));
}

/// Where the fields of the oracle's account stand.
pub proof fn law_oracle_account_layout(x: OraclePriceState)
    ensures
        ({
            let d = x.bytes();
            &&& d.len() == 33
            &&& d.subrange(0, 8) == x.discriminator@
            &&& le_value(d.subrange(8, 16)) == x.sol_price_usd_micro_per_lamport
            &&& le_value(d.subrange(16, 24)) == x.skr_price_usd_micro_per_atom
            &&& le_value(d.subrange(24, 32)) == x.slice_price_usd_micro_per_atom
            &&& d[32] == x.bump
        }),
{
    reveal(OraclePriceState::encode);
    lemma_le_limits();
    lemma_le_len(x.sol_price_usd_micro_per_lamport as nat, 8);
    law_le_value(x.sol_price_usd_micro_per_lamport as nat, 8);
    lemma_le_len(x.skr_price_usd_micro_per_atom as nat, 8);
    law_le_value(x.skr_price_usd_micro_per_atom as nat, 8);
    lemma_le_len(x.slice_price_usd_micro_per_atom as nat, 8);
    law_le_value(x.slice_price_usd_micro_per_atom as nat, 8);
    let d = x.bytes();
    assert(d.subrange(0, 8) =~= x.discriminator@);
    assert(d.subrange(8, 16) =~= le_bytes(x.sol_price_usd_micro_per_lamport as nat, 8));
    assert(d.subrange(16, 24) =~= le_bytes(x.skr_price_usd_micro_per_atom as nat, 8));
    assert(d.subrange(24, 32) =~= le_bytes(x.slice_price_usd_micro_per_atom as nat, 8));
}

/// Where the fields of a ranked game's account stand.
pub proof fn law_ranked_game_account_layout(x: RankedGameState)
    ensures
        ({
            let d = x.bytes();
            &&& d.len() == 62
            &&& d.subrange(0, 8) == x.discriminator@
            &&& le_value(d.subrange(8, 16)) == x.ranked_game_id
            &&& d.subrange(16, 48) == x.game@
            &&& le_value(d.subrange(48, 56)) == x.entry_fee
            &&& le_value(d.subrange(56, 60)) == x.participant_count
            &&& d[60] == (match x.status {
                RankedGameStatus::Open => 0u8,
                RankedGameStatus::InProgress => 1u8,
                RankedGameStatus::Finished => 2u8,
            })
            &&& d[61] == x.bump
        }),
{
    reveal(RankedGameState::encode);
    lemma_le_limits();
    lemma_le_len(x.ranked_game_id as nat, 8);
    law_le_value(x.ranked_game_id as nat, 8);
    lemma_le_len(x.entry_fee as nat, 8);
    law_le_value(x.entry_fee as nat, 8);
    lemma_le_len(x.participant_count as nat, 4);
    law_le_value(x.participant_count as nat, 4);
    let d = x.bytes();
    assert(d.subrange(0, 8) =~= x.discriminator@);
    assert(d.subrange(8, 16) =~= le_bytes(x.ranked_game_id as nat, 8));
    assert(d.subrange(16, 48) =~= x.game@);
    assert(d.subrange(48, 56) =~= le_bytes(x.entry_fee as nat, 8));
    assert(d.subrange(56, 60) =~= le_bytes(x.participant_count as nat, 4));
}

/// Where the fields of a character's account stand: behind the name they move with its
/// length.
pub proof fn law_character_account_layout(x: CharacterView)
    requires
        x.fits(),
    ensures
        ({
            let d = x.bytes();
            let name = encode_utf8(x.character_name);
            let end = 46 + name.len() as int;
            &&& d.len() == (if x.current_ranked_game is Some { end + 45 } else { end + 13 })
            &&& d[0] == (if x.is_initialized { 1u8 } else { 0u8 })
            &&& d[1] == x.version
            &&& d.subrange(2, 34) == x.owner_wallet@
            &&& le_value(d.subrange(34, 42)) == (if x.creation_date >= 0 {
                x.creation_date as int
            } else {
                x.creation_date + 0x1_0000_0000_0000_0000
            })
            &&& le_value(d.subrange(42, 46)) == name.len()
            &&& d.subrange(46, end) == name
            &&& le_value(d.subrange(end, end + 4)) == x.level
            &&& le_value(d.subrange(end + 4, end + 8)) == x.ranked_games_played
            &&& le_value(d.subrange(end + 8, end + 12)) == x.ranked_games_won
            &&& match x.current_ranked_game {
                None => d[end + 12] == 0,
                Some(key) => d[end + 12] == 1 && d.subrange(end + 13, end + 45) == key@,
            }
        }),
{
    reveal(CharacterView::encode);
    reveal(CharacterView::front);
    reveal(CharacterView::counts);
    lemma_le_limits();
    let d = x.bytes();
    let name = encode_utf8(x.character_name);
    let end = 46 + name.len() as int;
    lemma_le_len(i64_bits(x.creation_date), 8);
    lemma_le_len(name.len(), 4);
    lemma_le_len(x.level as nat, 4);
    lemma_le_len(x.ranked_games_played as nat, 4);
    lemma_le_len(x.ranked_games_won as nat, 4);
    law_le_value(i64_bits(x.creation_date), 8);
    law_le_value(name.len(), 4);
    law_le_value(x.level as nat, 4);
    law_le_value(x.ranked_games_played as nat, 4);
    law_le_value(x.ranked_games_won as nat, 4);
    assert(d.subrange(2, 34) =~= x.owner_wallet@);
    assert(d.subrange(34, 42) =~= le_bytes(i64_bits(x.creation_date), 8));
    assert(d.subrange(42, 46) =~= le_bytes(name.len(), 4));
    assert(d.subrange(46, end) =~= name);
    assert(d.subrange(end, end + 4) =~= le_bytes(x.level as nat, 4));
    assert(d.subrange(end + 4, end + 8) =~= le_bytes(x.ranked_games_played as nat, 4));
    assert(d.subrange(end + 8, end + 12) =~= le_bytes(x.ranked_games_won as nat, 4));
    if let Some(key) = x.current_ranked_game {
        assert(d.subrange(end + 13, end + 45) =~= key@);
    }
}

/// Where the fields of an instruction stand in its data, behind the number of the
/// instruction.
pub proof fn law_instruction_layout(x: IndieGamesInstruction)
    ensures
        ({
            let d = x.bytes();
            match x {
                IndieGamesInstruction::InitOracle {
                    sol_price_usd_micro_per_lamport,
                    skr_price_usd_micro_per_atom,
                    slice_price_usd_micro_per_atom,
                } => {
                    &&& d[0] == 0
                    &&& d.len() == 25
                    &&& le_value(d.subrange(1, 9)) == sol_price_usd_micro_per_lamport
                    &&& le_value(d.subrange(9, 17)) == skr_price_usd_micro_per_atom
                    &&& le_value(d.subrange(17, 25)) == slice_price_usd_micro_per_atom
                },
                IndieGamesInstruction::UpdateOraclePrices {
                    sol_price_usd_micro_per_lamport,
                    skr_price_usd_micro_per_atom,
                    slice_price_usd_micro_per_atom,
                } => {
                    &&& d[0] == 1
                    &&& d.len() == 25
                    &&& le_value(d.subrange(1, 9)) == sol_price_usd_micro_per_lamport
                    &&& le_value(d.subrange(9, 17)) == skr_price_usd_micro_per_atom
                    &&& le_value(d.subrange(17, 25)) == slice_price_usd_micro_per_atom
                },
                IndieGamesInstruction::CreateGame {
                    title,
                    dev_fee_bps,
                    game_to_protocol_share_bps,
                    game_cost,
                    game_url,
                } => {
                    &&& d[0] == 2
                    &&& d.len() == 109
                    &&& d.subrange(1, 33) == title@
                    &&& le_value(d.subrange(33, 35)) == dev_fee_bps
                    &&& le_value(d.subrange(35, 37)) == game_to_protocol_share_bps
                    &&& le_value(d.subrange(37, 45)) == game_cost
                    &&& d.subrange(45, 109) == game_url@
                },
                IndieGamesInstruction::UpdateFeeShare {
                    new_dev_fees_bps,
                    new_game_to_protocol_share_bps,
                } => {
                    &&& d[0] == 3
                    &&& d.len() == 5
                    &&& le_value(d.subrange(1, 3)) == new_dev_fees_bps
                    &&& le_value(d.subrange(3, 5)) == new_game_to_protocol_share_bps
                },
                IndieGamesInstruction::UpdateGameCost { new_game_cost } => {
                    &&& d[0] == 4
                    &&& d.len() == 9
                    &&& le_value(d.subrange(1, 9)) == new_game_cost
                },
                IndieGamesInstruction::TransferGameOwnership { new_owner } => {
                    &&& d[0] == 5
                    &&& d.len() == 33
                    &&& d.subrange(1, 33) == new_owner@
                },
                IndieGamesInstruction::UpgradeGameStateVersion => {
                    &&& d[0] == 6
                    &&& d.len() == 1
                },
                IndieGamesInstruction::CreateUserAccount { username, timestamp, payment_token } => {
                    &&& d[0] == 7
                    &&& d.len() == 73
                    &&& d.subrange(1, 33) == username@
                    &&& le_value(d.subrange(33, 41)) == timestamp
                    &&& d.subrange(41, 73) == payment_token@
                },
                IndieGamesInstruction::CreateRankedGame { ranked_game_id, entry_fee_usd_micro } => {
                    &&& d[0] == 8
                    &&& d.len() == 17
                    &&& le_value(d.subrange(1, 9)) == ranked_game_id
                    &&& le_value(d.subrange(9, 17)) == entry_fee_usd_micro
                },
                IndieGamesInstruction::JoinRankedGame { ranked_game_id, payment_token } => {
                    &&& d[0] == 9
                    &&& d.len() == 41
                    &&& le_value(d.subrange(1, 9)) == ranked_game_id
                    &&& d.subrange(9, 41) == payment_token@
                },
                IndieGamesInstruction::DeveloperWithdraw => {
                    &&& d[0] == 10
                    &&& d.len() == 1
                },
                IndieGamesInstruction::RewardUserAccount { percentage_of_the_pool } => {
                    &&& d[0] == 11
                    &&& d.len() == 3
                    &&& le_value(d.subrange(1, 3)) == percentage_of_the_pool
                },
                IndieGamesInstruction::WithdrawRewards { timestamp } => {
                    &&& d[0] == 12
                    &&& d.len() == 9
                    &&& le_value(d.subrange(1, 9)) == timestamp
                },
                IndieGamesInstruction::UpdateRankedGameStatus { ranked_game_id, new_status } => {
                    &&& d[0] == 13
                    &&& d.len() == 10
                    &&& le_value(d.subrange(1, 9)) == ranked_game_id
                    &&& d[9] == new_status
                },
                IndieGamesInstruction::RewardWinner { ranked_game_id, amount_usd_micro } => {
                    &&& d[0] == 14
                    &&& d.len() == 11
                    &&& le_value(d.subrange(1, 9)) == ranked_game_id
                    &&& le_value(d.subrange(9, 11)) == amount_usd_micro
                },
                IndieGamesInstruction::CloseRankedGame { ranked_game_id } => {
                    &&& d[0] == 15
                    &&& d.len() == 9
                    &&& le_value(d.subrange(1, 9)) == ranked_game_id
                },
            }
        }),
{
    reveal(IndieGamesInstruction::fields);
    lemma_le_limits();
    let d = x.bytes();
    match x {
        IndieGamesInstruction::InitOracle {
            sol_price_usd_micro_per_lamport,
            skr_price_usd_micro_per_atom,
            slice_price_usd_micro_per_atom,
        } => {
            lemma_le_len(sol_price_usd_micro_per_lamport as nat, 8);
            law_le_value(sol_price_usd_micro_per_lamport as nat, 8);
            lemma_le_len(skr_price_usd_micro_per_atom as nat, 8);
            law_le_value(skr_price_usd_micro_per_atom as nat, 8);
            lemma_le_len(slice_price_usd_micro_per_atom as nat, 8);
            law_le_value(slice_price_usd_micro_per_atom as nat, 8);
            assert(d.subrange(1, 9) =~= le_bytes(sol_price_usd_micro_per_lamport as nat, 8));
            assert(d.subrange(9, 17) =~= le_bytes(skr_price_usd_micro_per_atom as nat, 8));
            assert(d.subrange(17, 25) =~= le_bytes(slice_price_usd_micro_per_atom as nat, 8));
        },
        IndieGamesInstruction::UpdateOraclePrices {
            sol_price_usd_micro_per_lamport,
            skr_price_usd_micro_per_atom,
            slice_price_usd_micro_per_atom,
        } => {
            lemma_le_len(sol_price_usd_micro_per_lamport as nat, 8);
            law_le_value(sol_price_usd_micro_per_lamport as nat, 8);
            lemma_le_len(skr_price_usd_micro_per_atom as nat, 8);
            law_le_value(skr_price_usd_micro_per_atom as nat, 8);
            lemma_le_len(slice_price_usd_micro_per_atom as nat, 8);
            law_le_value(slice_price_usd_micro_per_atom as nat, 8);
            assert(d.subrange(1, 9) =~= le_bytes(sol_price_usd_micro_per_lamport as nat, 8));
            assert(d.subrange(9, 17) =~= le_bytes(skr_price_usd_micro_per_atom as nat, 8));
            assert(d.subrange(17, 25) =~= le_bytes(slice_price_usd_micro_per_atom as nat, 8));
        },
        IndieGamesInstruction::CreateGame {
            title,
            dev_fee_bps,
            game_to_protocol_share_bps,
            game_cost,
            game_url,
        } => {
            lemma_le_len(dev_fee_bps as nat, 2);
            law_le_value(dev_fee_bps as nat, 2);
            lemma_le_len(game_to_protocol_share_bps as nat, 2);
            law_le_value(game_to_protocol_share_bps as nat, 2);
            lemma_le_len(game_cost as nat, 8);
            law_le_value(game_cost as nat, 8);
            assert(d.subrange(1, 33) =~= title@);
            assert(d.subrange(33, 35) =~= le_bytes(dev_fee_bps as nat, 2));
            assert(d.subrange(35, 37) =~= le_bytes(game_to_protocol_share_bps as nat, 2));
            assert(d.subrange(37, 45) =~= le_bytes(game_cost as nat, 8));
            assert(d.subrange(45, 109) =~= game_url@);
        },
        IndieGamesInstruction::UpdateFeeShare { new_dev_fees_bps, new_game_to_protocol_share_bps } => {
            lemma_le_len(new_dev_fees_bps as nat, 2);
            law_le_value(new_dev_fees_bps as nat, 2);
            lemma_le_len(new_game_to_protocol_share_bps as nat, 2);
            law_le_value(new_game_to_protocol_share_bps as nat, 2);
            assert(d.subrange(1, 3) =~= le_bytes(new_dev_fees_bps as nat, 2));
            assert(d.subrange(3, 5) =~= le_bytes(new_game_to_protocol_share_bps as nat, 2));
        },
        IndieGamesInstruction::UpdateGameCost { new_game_cost } => {
            lemma_le_len(new_game_cost as nat, 8);
            law_le_value(new_game_cost as nat, 8);
            assert(d.subrange(1, 9) =~= le_bytes(new_game_cost as nat, 8));
        },
        IndieGamesInstruction::TransferGameOwnership { new_owner } => {
            assert(d.subrange(1, 33) =~= new_owner@);
        },
        IndieGamesInstruction::UpgradeGameStateVersion => {
        },
        IndieGamesInstruction::CreateUserAccount { username, timestamp, payment_token } => {
            lemma_le_len(timestamp as nat, 8);
            law_le_value(timestamp as nat, 8);
            assert(d.subrange(1, 33) =~= username@);
            assert(d.subrange(33, 41) =~= le_bytes(timestamp as nat, 8));
            assert(d.subrange(41, 73) =~= payment_token@);
        },
        IndieGamesInstruction::CreateRankedGame { ranked_game_id, entry_fee_usd_micro } => {
            lemma_le_len(ranked_game_id as nat, 8);
            law_le_value(ranked_game_id as nat, 8);
            lemma_le_len(entry_fee_usd_micro as nat, 8);
            law_le_value(entry_fee_usd_micro as nat, 8);
            assert(d.subrange(1, 9) =~= le_bytes(ranked_game_id as nat, 8));
            assert(d.subrange(9, 17) =~= le_bytes(entry_fee_usd_micro as nat, 8));
        },
        IndieGamesInstruction::JoinRankedGame { ranked_game_id, payment_token } => {
            lemma_le_len(ranked_game_id as nat, 8);
            law_le_value(ranked_game_id as nat, 8);
            assert(d.subrange(1, 9) =~= le_bytes(ranked_game_id as nat, 8));
            assert(d.subrange(9, 41) =~= payment_token@);
        },
        IndieGamesInstruction::DeveloperWithdraw => {
        },
        IndieGamesInstruction::RewardUserAccount { percentage_of_the_pool } => {
            lemma_le_len(percentage_of_the_pool as nat, 2);
            law_le_value(percentage_of_the_pool as nat, 2);
            assert(d.subrange(1, 3) =~= le_bytes(percentage_of_the_pool as nat, 2));
        },
        IndieGamesInstruction::WithdrawRewards { timestamp } => {
            lemma_le_len(timestamp as nat, 8);
            law_le_value(timestamp as nat, 8);
            assert(d.subrange(1, 9) =~= le_bytes(timestamp as nat, 8));
        },
        IndieGamesInstruction::UpdateRankedGameStatus { ranked_game_id, new_status } => {
            lemma_le_len(ranked_game_id as nat, 8);
            law_le_value(ranked_game_id as nat, 8);
            assert(d.subrange(1, 9) =~= le_bytes(ranked_game_id as nat, 8));
        },
        IndieGamesInstruction::RewardWinner { ranked_game_id, amount_usd_micro } => {
            lemma_le_len(ranked_game_id as nat, 8);
            law_le_value(ranked_game_id as nat, 8);
            lemma_le_len(amount_usd_micro as nat, 2);
            law_le_value(amount_usd_micro as nat, 2);
            assert(d.subrange(1, 9) =~= le_bytes(ranked_game_id as nat, 8));
            assert(d.subrange(9, 11) =~= le_bytes(amount_usd_micro as nat, 2));
        },
        IndieGamesInstruction::CloseRankedGame { ranked_game_id } => {
            lemma_le_len(ranked_game_id as nat, 8);
            law_le_value(ranked_game_id as nat, 8);
            assert(d.subrange(1, 9) =~= le_bytes(ranked_game_id as nat, 8));
        },
    }
}

} // verus!
