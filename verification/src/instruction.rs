//! The instructions that the program accepts.

use crate::codec::{
    le_bytes, lemma_le_len, lemma_split, lemma_split_array, lemma_split_u16, lemma_split_u64,
    read_array, read_u16, read_u64, read_u8, write_array, write_u16, write_u64, write_u8,
};
use crate::constants::Pubkey;
use crate::error::ProgramError;
use vstd::prelude::*;

verus! {

/// An instruction of the program. Its data is the number of the variant in one
/// byte, counted from 0, and the fields in the order of declaration.
#[derive(Clone, Copy, Debug, PartialEq, Eq)]
pub enum IndieGamesInstruction {
    /// Creates the oracle.
    InitOracle {
        sol_price_usd_micro_per_lamport: u64,
        skr_price_usd_micro_per_atom: u64,
        slice_price_usd_micro_per_atom: u64,
    },
    /// Sets the prices of the oracle.
    UpdateOraclePrices {
        sol_price_usd_micro_per_lamport: u64,
        skr_price_usd_micro_per_atom: u64,
        slice_price_usd_micro_per_atom: u64,
    },
    /// Creates a game, or the token accounts that it lacks.
    CreateGame {
        title: [u8; 32],
        dev_fee_bps: u16,
        game_to_protocol_share_bps: u16,
        game_cost: u64,
        game_url: [u8; 64],
    },
    /// Changes the fees of a game.
    UpdateFeeShare { new_dev_fees_bps: u16, new_game_to_protocol_share_bps: u16 },
    /// Changes what a user account of a game costs.
    UpdateGameCost { new_game_cost: u64 },
    /// Gives a game to another wallet.
    TransferGameOwnership { new_owner: Pubkey },
    /// Rewrites a game account of an earlier layout in the current one.
    UpgradeGameStateVersion,
    /// Creates a user account in a game. The timestamp, in seconds, lets one wallet
    /// have any number of accounts; the payment token is the mint of the token to pay
    /// with.
    CreateUserAccount { username: [u8; 32], timestamp: u64, payment_token: Pubkey },
    /// Creates a ranked game.
    CreateRankedGame { ranked_game_id: u64, entry_fee_usd_micro: u64 },
    /// Enters a ranked game.
    JoinRankedGame { ranked_game_id: u64, payment_token: Pubkey },
    /// Pays a game's income to its owner.
    DeveloperWithdraw,
    /// Pays a part of the protocol treasury of a game to a user account.
    RewardUserAccount { percentage_of_the_pool: u16 },
    /// Pays what a user account holds to its owner.
    WithdrawRewards { timestamp: u64 },
    /// Sets the status of a ranked game.
    UpdateRankedGameStatus { ranked_game_id: u64, new_status: u8 },
    /// Pays a part of the pools of a ranked game to a winner; the amount is in basis
    /// points of each pool.
    RewardWinner { ranked_game_id: u64, amount_usd_micro: u16 },
    /// Closes a ranked game.
    CloseRankedGame { ranked_game_id: u64 },
}

/// How many bytes the fields of the variant with this number take.
pub open spec fn body_len(tag: u8) -> Option<nat> {
    if tag == 0 {
        Some(24)
    } else if tag == 1 {
        Some(24)
    } else if tag == 2 {
        Some(108)
    } else if tag == 3 {
        Some(4)
    } else if tag == 4 {
        Some(8)
    } else if tag == 5 {
        Some(32)
    } else if tag == 6 {
        Some(0)
    } else if tag == 7 {
        Some(72)
    } else if tag == 8 {
        Some(16)
    } else if tag == 9 {
        Some(40)
    } else if tag == 10 {
        Some(0)
    } else if tag == 11 {
        Some(2)
    } else if tag == 12 {
        Some(8)
    } else if tag == 13 {
        Some(9)
    } else if tag == 14 {
        Some(10)
    } else if tag == 15 {
        Some(8)
    } else {
        None
    }
}

impl IndieGamesInstruction {
    /// The number of the variant.
    pub open spec fn tag(self) -> u8 {
        match self {
            IndieGamesInstruction::InitOracle { .. } => 0,
            IndieGamesInstruction::UpdateOraclePrices { .. } => 1,
            IndieGamesInstruction::CreateGame { .. } => 2,
            IndieGamesInstruction::UpdateFeeShare { .. } => 3,
            IndieGamesInstruction::UpdateGameCost { .. } => 4,
            IndieGamesInstruction::TransferGameOwnership { .. } => 5,
            IndieGamesInstruction::UpgradeGameStateVersion => 6,
            IndieGamesInstruction::CreateUserAccount { .. } => 7,
            IndieGamesInstruction::CreateRankedGame { .. } => 8,
            IndieGamesInstruction::JoinRankedGame { .. } => 9,
            IndieGamesInstruction::DeveloperWithdraw => 10,
            IndieGamesInstruction::RewardUserAccount { .. } => 11,
            IndieGamesInstruction::WithdrawRewards { .. } => 12,
            IndieGamesInstruction::UpdateRankedGameStatus { .. } => 13,
            IndieGamesInstruction::RewardWinner { .. } => 14,
            IndieGamesInstruction::CloseRankedGame { .. } => 15,
        }
    }

    /// The fields, followed by `tail`.
    #[verifier::opaque]
    pub open spec fn fields(self, tail: Seq<u8>) -> Seq<u8> {
        match self {
            IndieGamesInstruction::InitOracle {
                sol_price_usd_micro_per_lamport,
                skr_price_usd_micro_per_atom,
                slice_price_usd_micro_per_atom,
            } => {
                le_bytes(sol_price_usd_micro_per_lamport as nat, 8) + (
                le_bytes(skr_price_usd_micro_per_atom as nat, 8) + (
                le_bytes(slice_price_usd_micro_per_atom as nat, 8) + tail))
            },
            IndieGamesInstruction::UpdateOraclePrices {
                sol_price_usd_micro_per_lamport,
                skr_price_usd_micro_per_atom,
                slice_price_usd_micro_per_atom,
            } => {
                le_bytes(sol_price_usd_micro_per_lamport as nat, 8) + (
                le_bytes(skr_price_usd_micro_per_atom as nat, 8) + (
                le_bytes(slice_price_usd_micro_per_atom as nat, 8) + tail))
            },
            IndieGamesInstruction::CreateGame {
                title,
                dev_fee_bps,
                game_to_protocol_share_bps,
                game_cost,
                game_url,
            } => {
                title@ + (
                le_bytes(dev_fee_bps as nat, 2) + (
                le_bytes(game_to_protocol_share_bps as nat, 2) + (
                le_bytes(game_cost as nat, 8) + (
                game_url@ + tail))))
            },
            IndieGamesInstruction::UpdateFeeShare { new_dev_fees_bps, new_game_to_protocol_share_bps } => {
                le_bytes(new_dev_fees_bps as nat, 2) + (
                le_bytes(new_game_to_protocol_share_bps as nat, 2) + tail)
            },
            IndieGamesInstruction::UpdateGameCost { new_game_cost } => le_bytes(new_game_cost as nat, 8) + tail,
            IndieGamesInstruction::TransferGameOwnership { new_owner } => new_owner@ + tail,
            IndieGamesInstruction::UpgradeGameStateVersion => tail,
            IndieGamesInstruction::CreateUserAccount { username, timestamp, payment_token } => {
                username@ + (le_bytes(timestamp as nat, 8) + (payment_token@ + tail))
            },
            IndieGamesInstruction::CreateRankedGame { ranked_game_id, entry_fee_usd_micro } => {
                le_bytes(ranked_game_id as nat, 8) + (le_bytes(entry_fee_usd_micro as nat, 8) + tail)
            },
            IndieGamesInstruction::JoinRankedGame { ranked_game_id, payment_token } => {
                le_bytes(ranked_game_id as nat, 8) + (payment_token@ + tail)
            },
            IndieGamesInstruction::DeveloperWithdraw => tail,
            IndieGamesInstruction::RewardUserAccount { percentage_of_the_pool } => {
                le_bytes(percentage_of_the_pool as nat, 2) + tail
            },
            IndieGamesInstruction::WithdrawRewards { timestamp } => le_bytes(timestamp as nat, 8) + tail,
            IndieGamesInstruction::UpdateRankedGameStatus { ranked_game_id, new_status } => {
                le_bytes(ranked_game_id as nat, 8) + (seq![new_status] + tail)
            },
            IndieGamesInstruction::RewardWinner { ranked_game_id, amount_usd_micro } => {
                le_bytes(ranked_game_id as nat, 8) + (le_bytes(amount_usd_micro as nat, 2) + tail)
            },
            IndieGamesInstruction::CloseRankedGame { ranked_game_id } => {
                le_bytes(ranked_game_id as nat, 8) + tail
            },
        }
    }

    /// The data of the instruction.
    pub open spec fn bytes(self) -> Seq<u8> {
        seq![self.tag()] + self.fields(Seq::empty())
    }

    /// The instruction of which `data` is the data.
    pub open spec fn decode(data: Seq<u8>) -> Option<IndieGamesInstruction> {
        if exists|x: IndieGamesInstruction| #[trigger] x.bytes() == data {
            Some(choose|x: IndieGamesInstruction| #[trigger] x.bytes() == data)
        } else {
            None
        }
    }

    pub proof fn lemma_fields_len(self, tail: Seq<u8>)
        ensures
            body_len(self.tag()) is Some,
            self.fields(tail).len() == body_len(self.tag())->0 + tail.len(),
    {
        reveal(IndieGamesInstruction::fields);
        match self {
            IndieGamesInstruction::InitOracle {
                sol_price_usd_micro_per_lamport,
                skr_price_usd_micro_per_atom,
                slice_price_usd_micro_per_atom,
            } => {
                lemma_le_len(sol_price_usd_micro_per_lamport as nat, 8);
                lemma_le_len(skr_price_usd_micro_per_atom as nat, 8);
                lemma_le_len(slice_price_usd_micro_per_atom as nat, 8);
            },
            IndieGamesInstruction::UpdateOraclePrices {
                sol_price_usd_micro_per_lamport,
                skr_price_usd_micro_per_atom,
                slice_price_usd_micro_per_atom,
            } => {
                lemma_le_len(sol_price_usd_micro_per_lamport as nat, 8);
                lemma_le_len(skr_price_usd_micro_per_atom as nat, 8);
                lemma_le_len(slice_price_usd_micro_per_atom as nat, 8);
            },
            IndieGamesInstruction::CreateGame { dev_fee_bps, game_to_protocol_share_bps, game_cost, .. } => {
                lemma_le_len(dev_fee_bps as nat, 2);
                lemma_le_len(game_to_protocol_share_bps as nat, 2);
                lemma_le_len(game_cost as nat, 8);
            },
            IndieGamesInstruction::UpdateFeeShare { new_dev_fees_bps, new_game_to_protocol_share_bps } => {
                lemma_le_len(new_dev_fees_bps as nat, 2);
                lemma_le_len(new_game_to_protocol_share_bps as nat, 2);
            },
            IndieGamesInstruction::UpdateGameCost { new_game_cost } => {
                lemma_le_len(new_game_cost as nat, 8);
            },
            IndieGamesInstruction::TransferGameOwnership { .. } => {
            },
            IndieGamesInstruction::UpgradeGameStateVersion => {
            },
            IndieGamesInstruction::CreateUserAccount { timestamp, .. } => {
                lemma_le_len(timestamp as nat, 8);
            },
            IndieGamesInstruction::CreateRankedGame { ranked_game_id, entry_fee_usd_micro } => {
                lemma_le_len(ranked_game_id as nat, 8);
                lemma_le_len(entry_fee_usd_micro as nat, 8);
            },
            IndieGamesInstruction::JoinRankedGame { ranked_game_id, .. } => {
                lemma_le_len(ranked_game_id as nat, 8);
            },
            IndieGamesInstruction::DeveloperWithdraw => {
            },
            IndieGamesInstruction::RewardUserAccount { percentage_of_the_pool } => {
                lemma_le_len(percentage_of_the_pool as nat, 2);
            },
            IndieGamesInstruction::WithdrawRewards { timestamp } => {
                lemma_le_len(timestamp as nat, 8);
            },
            IndieGamesInstruction::UpdateRankedGameStatus { ranked_game_id, .. } => {
                lemma_le_len(ranked_game_id as nat, 8);
            },
            IndieGamesInstruction::RewardWinner { ranked_game_id, amount_usd_micro } => {
                lemma_le_len(ranked_game_id as nat, 8);
                lemma_le_len(amount_usd_micro as nat, 2);
            },
            IndieGamesInstruction::CloseRankedGame { ranked_game_id } => {
                lemma_le_len(ranked_game_id as nat, 8);
            },
        }
    }

    /// Different instructions have different data.
    pub proof fn law_bytes_injective(self, other: IndieGamesInstruction)
        requires
            self.bytes() == other.bytes(),
        ensures
            self == other,
    {
        let tail = Seq::<u8>::empty();
        lemma_split(seq![self.tag()], self.fields(tail), seq![other.tag()], other.fields(tail));
        assert(seq![self.tag()][0] == seq![other.tag()][0]);
        reveal(IndieGamesInstruction::fields);
        match (self, other) {
            (
                IndieGamesInstruction::InitOracle {
                    sol_price_usd_micro_per_lamport: a0,
                    skr_price_usd_micro_per_atom: a1,
                    slice_price_usd_micro_per_atom: a2,
                },
                IndieGamesInstruction::InitOracle {
                    sol_price_usd_micro_per_lamport: b0,
                    skr_price_usd_micro_per_atom: b1,
                    slice_price_usd_micro_per_atom: b2,
                },
            ) => {
                lemma_split_u64(
                    a0,
                    le_bytes(a1 as nat, 8) + (le_bytes(a2 as nat, 8) + tail),
                    b0,
                    le_bytes(b1 as nat, 8) + (le_bytes(b2 as nat, 8) + tail),
                );
                lemma_split_u64(a1, le_bytes(a2 as nat, 8) + tail, b1, le_bytes(b2 as nat, 8) + tail);
                lemma_split_u64(a2, tail, b2, tail);
            },
            (
                IndieGamesInstruction::UpdateOraclePrices {
                    sol_price_usd_micro_per_lamport: a0,
                    skr_price_usd_micro_per_atom: a1,
                    slice_price_usd_micro_per_atom: a2,
                },
                IndieGamesInstruction::UpdateOraclePrices {
                    sol_price_usd_micro_per_lamport: b0,
                    skr_price_usd_micro_per_atom: b1,
                    slice_price_usd_micro_per_atom: b2,
                },
            ) => {
                lemma_split_u64(
                    a0,
                    le_bytes(a1 as nat, 8) + (le_bytes(a2 as nat, 8) + tail),
                    b0,
                    le_bytes(b1 as nat, 8) + (le_bytes(b2 as nat, 8) + tail),
                );
                lemma_split_u64(a1, le_bytes(a2 as nat, 8) + tail, b1, le_bytes(b2 as nat, 8) + tail);
                lemma_split_u64(a2, tail, b2, tail);
            },
            (
                IndieGamesInstruction::CreateGame {
                    title: a0,
                    dev_fee_bps: a1,
                    game_to_protocol_share_bps: a2,
                    game_cost: a3,
                    game_url: a4,
                },
                IndieGamesInstruction::CreateGame {
                    title: b0,
                    dev_fee_bps: b1,
                    game_to_protocol_share_bps: b2,
                    game_cost: b3,
                    game_url: b4,
                },
            ) => {
                lemma_split_array(
                    a0,
                    le_bytes(a1 as nat, 2) + (le_bytes(a2 as nat, 2) + (le_bytes(a3 as nat, 8) + (a4@ + tail))),
                    b0,
                    le_bytes(b1 as nat, 2) + (le_bytes(b2 as nat, 2) + (le_bytes(b3 as nat, 8) + (b4@ + tail))),
                );
                lemma_split_u16(
                    a1,
                    le_bytes(a2 as nat, 2) + (le_bytes(a3 as nat, 8) + (a4@ + tail)),
                    b1,
                    le_bytes(b2 as nat, 2) + (le_bytes(b3 as nat, 8) + (b4@ + tail)),
                );
                lemma_split_u16(
                    a2,
                    le_bytes(a3 as nat, 8) + (a4@ + tail),
                    b2,
                    le_bytes(b3 as nat, 8) + (b4@ + tail),
                );
                lemma_split_u64(a3, a4@ + tail, b3, b4@ + tail);
                lemma_split_array(a4, tail, b4, tail);
            },
            (
                IndieGamesInstruction::UpdateFeeShare {
                    new_dev_fees_bps: a0,
                    new_game_to_protocol_share_bps: a1,
                },
                IndieGamesInstruction::UpdateFeeShare {
                    new_dev_fees_bps: b0,
                    new_game_to_protocol_share_bps: b1,
                },
            ) => {
                lemma_split_u16(a0, le_bytes(a1 as nat, 2) + tail, b0, le_bytes(b1 as nat, 2) + tail);
                lemma_split_u16(a1, tail, b1, tail);
            },
            (
                IndieGamesInstruction::UpdateGameCost { new_game_cost: a0 },
                IndieGamesInstruction::UpdateGameCost { new_game_cost: b0 },
            ) => {
                lemma_split_u64(a0, tail, b0, tail);
            },
            (
                IndieGamesInstruction::TransferGameOwnership { new_owner: a0 },
                IndieGamesInstruction::TransferGameOwnership { new_owner: b0 },
            ) => {
                lemma_split_array(a0, tail, b0, tail);
            },
            (
                IndieGamesInstruction::CreateUserAccount { username: a0, timestamp: a1, payment_token: a2 },
                IndieGamesInstruction::CreateUserAccount { username: b0, timestamp: b1, payment_token: b2 },
            ) => {
                lemma_split_array(
                    a0,
                    le_bytes(a1 as nat, 8) + (a2@ + tail),
                    b0,
                    le_bytes(b1 as nat, 8) + (b2@ + tail),
                );
                lemma_split_u64(a1, a2@ + tail, b1, b2@ + tail);
                lemma_split_array(a2, tail, b2, tail);
            },
            (
                IndieGamesInstruction::CreateRankedGame { ranked_game_id: a0, entry_fee_usd_micro: a1 },
                IndieGamesInstruction::CreateRankedGame { ranked_game_id: b0, entry_fee_usd_micro: b1 },
            ) => {
                lemma_split_u64(a0, le_bytes(a1 as nat, 8) + tail, b0, le_bytes(b1 as nat, 8) + tail);
                lemma_split_u64(a1, tail, b1, tail);
            },
            (
                IndieGamesInstruction::JoinRankedGame { ranked_game_id: a0, payment_token: a1 },
                IndieGamesInstruction::JoinRankedGame { ranked_game_id: b0, payment_token: b1 },
            ) => {
                lemma_split_u64(a0, a1@ + tail, b0, b1@ + tail);
                lemma_split_array(a1, tail, b1, tail);
            },
            (
                IndieGamesInstruction::RewardUserAccount { percentage_of_the_pool: a0 },
                IndieGamesInstruction::RewardUserAccount { percentage_of_the_pool: b0 },
            ) => {
                lemma_split_u16(a0, tail, b0, tail);
            },
            (
                IndieGamesInstruction::WithdrawRewards { timestamp: a0 },
                IndieGamesInstruction::WithdrawRewards { timestamp: b0 },
            ) => {
                lemma_split_u64(a0, tail, b0, tail);
            },
            (
                IndieGamesInstruction::UpdateRankedGameStatus { ranked_game_id: a0, new_status: a1 },
                IndieGamesInstruction::UpdateRankedGameStatus { ranked_game_id: b0, new_status: b1 },
            ) => {
                lemma_split_u64(a0, seq![a1] + tail, b0, seq![b1] + tail);
                lemma_split(seq![a1], tail, seq![b1], tail);
                assert(seq![a1][0] == seq![b1][0]);
            },
            (
                IndieGamesInstruction::RewardWinner { ranked_game_id: a0, amount_usd_micro: a1 },
                IndieGamesInstruction::RewardWinner { ranked_game_id: b0, amount_usd_micro: b1 },
            ) => {
                lemma_split_u64(a0, le_bytes(a1 as nat, 2) + tail, b0, le_bytes(b1 as nat, 2) + tail);
                lemma_split_u16(a1, tail, b1, tail);
            },
            (
                IndieGamesInstruction::CloseRankedGame { ranked_game_id: a0 },
                IndieGamesInstruction::CloseRankedGame { ranked_game_id: b0 },
            ) => {
                lemma_split_u64(a0, tail, b0, tail);
            },
            _ => {},
        }
    }

    /// The data of an instruction gives the instruction back.
    pub proof fn law_decode_bytes(self)
        ensures
            IndieGamesInstruction::decode(self.bytes()) == Some(self),
    {
        let back = choose|x: IndieGamesInstruction| #[trigger] x.bytes() == self.bytes();
        assert(self.bytes() == self.bytes());
        back.law_bytes_injective(self);
    }

    /// The data of the instruction.
    pub fn serialize(&self) -> (r: Vec<u8>)
        ensures
            r@ == self.bytes(),
    {
        let mut out: Vec<u8> = Vec::new();
        proof {
            reveal(IndieGamesInstruction::fields);
        }
        match self {
            IndieGamesInstruction::InitOracle {
                sol_price_usd_micro_per_lamport,
                skr_price_usd_micro_per_atom,
                slice_price_usd_micro_per_atom,
            } => {
                write_u8(&mut out, 0);
                write_u64(&mut out, *sol_price_usd_micro_per_lamport);
                write_u64(&mut out, *skr_price_usd_micro_per_atom);
                write_u64(&mut out, *slice_price_usd_micro_per_atom);
            },
            IndieGamesInstruction::UpdateOraclePrices {
                sol_price_usd_micro_per_lamport,
                skr_price_usd_micro_per_atom,
                slice_price_usd_micro_per_atom,
            } => {
                write_u8(&mut out, 1);
                write_u64(&mut out, *sol_price_usd_micro_per_lamport);
                write_u64(&mut out, *skr_price_usd_micro_per_atom);
                write_u64(&mut out, *slice_price_usd_micro_per_atom);
            },
            IndieGamesInstruction::CreateGame {
                title,
                dev_fee_bps,
                game_to_protocol_share_bps,
                game_cost,
                game_url,
            } => {
                write_u8(&mut out, 2);
                write_array(&mut out, title);
                write_u16(&mut out, *dev_fee_bps);
                write_u16(&mut out, *game_to_protocol_share_bps);
                write_u64(&mut out, *game_cost);
                write_array(&mut out, game_url);
            },
            IndieGamesInstruction::UpdateFeeShare { new_dev_fees_bps, new_game_to_protocol_share_bps } => {
                write_u8(&mut out, 3);
                write_u16(&mut out, *new_dev_fees_bps);
                write_u16(&mut out, *new_game_to_protocol_share_bps);
            },
            IndieGamesInstruction::UpdateGameCost { new_game_cost } => {
                write_u8(&mut out, 4);
                write_u64(&mut out, *new_game_cost);
            },
            IndieGamesInstruction::TransferGameOwnership { new_owner } => {
                write_u8(&mut out, 5);
                write_array(&mut out, new_owner);
            },
            IndieGamesInstruction::UpgradeGameStateVersion => {
                write_u8(&mut out, 6);
            },
            IndieGamesInstruction::CreateUserAccount { username, timestamp, payment_token } => {
                write_u8(&mut out, 7);
                write_array(&mut out, username);
                write_u64(&mut out, *timestamp);
                write_array(&mut out, payment_token);
            },
            IndieGamesInstruction::CreateRankedGame { ranked_game_id, entry_fee_usd_micro } => {
                write_u8(&mut out, 8);
                write_u64(&mut out, *ranked_game_id);
                write_u64(&mut out, *entry_fee_usd_micro);
            },
            IndieGamesInstruction::JoinRankedGame { ranked_game_id, payment_token } => {
                write_u8(&mut out, 9);
                write_u64(&mut out, *ranked_game_id);
                write_array(&mut out, payment_token);
            },
            IndieGamesInstruction::DeveloperWithdraw => {
                write_u8(&mut out, 10);
            },
            IndieGamesInstruction::RewardUserAccount { percentage_of_the_pool } => {
                write_u8(&mut out, 11);
                write_u16(&mut out, *percentage_of_the_pool);
            },
            IndieGamesInstruction::WithdrawRewards { timestamp } => {
                write_u8(&mut out, 12);
                write_u64(&mut out, *timestamp);
            },
            IndieGamesInstruction::UpdateRankedGameStatus { ranked_game_id, new_status } => {
                write_u8(&mut out, 13);
                write_u64(&mut out, *ranked_game_id);
                write_u8(&mut out, *new_status);
            },
            IndieGamesInstruction::RewardWinner { ranked_game_id, amount_usd_micro } => {
                write_u8(&mut out, 14);
                write_u64(&mut out, *ranked_game_id);
                write_u16(&mut out, *amount_usd_micro);
            },
            IndieGamesInstruction::CloseRankedGame { ranked_game_id } => {
                write_u8(&mut out, 15);
                write_u64(&mut out, *ranked_game_id);
            },
        }
        assert(out@ =~= self.bytes());
        out
    }

    /// Reads an instruction from its data.
    pub fn try_from_slice(data: &[u8]) -> (r: Result<IndieGamesInstruction, ProgramError>)
        ensures
            match r {
                Ok(x) => IndieGamesInstruction::decode(data@) == Some(x),
                Err(e) => IndieGamesInstruction::decode(data@) is None && e == ProgramError::BorshIoError,
            },
    {
        let (tag, rest) = match read_u8(data) {
            Ok(x) => x,
            Err(e) => {
                return Err(e);
            },
        };
        proof {
            assert forall|x: IndieGamesInstruction| #[trigger] x.bytes() == data@ implies x.tag() == tag && body_len(
                tag,
            ) == Some(rest@.len()) by {
                lemma_split(seq![x.tag()], x.fields(Seq::empty()), seq![tag], rest@);
                assert(seq![x.tag()][0] == seq![tag][0]);
                x.lemma_fields_len(Seq::empty());
            }
        }
        match Self::read_fields(tag, rest) {
            Ok(x) => {
                proof {
                    x.law_decode_bytes();
                }
                Ok(x)
            },
            Err(e) => Err(e),
        }
    }

    /// Reads the fields of the variant with the number `tag` from `rest`, which
    /// holds nothing else.
    fn read_fields(tag: u8, rest: &[u8]) -> (r: Result<IndieGamesInstruction, ProgramError>)
        ensures
            match r {
                Ok(x) => x.tag() == tag && x.fields(Seq::empty()) == rest@,
                Err(e) => body_len(tag) != Some(rest@.len()) && e == ProgramError::BorshIoError,
            },
    {
        proof {
            reveal(IndieGamesInstruction::fields);
        }
        let len: usize = rest.len();
        if tag == 0 && len == 24 {
            let (sol_price_usd_micro_per_lamport, rest) = read_u64(rest)?;
            proof { lemma_le_len(sol_price_usd_micro_per_lamport as nat, 8); }
            let (skr_price_usd_micro_per_atom, rest) = read_u64(rest)?;
            proof { lemma_le_len(skr_price_usd_micro_per_atom as nat, 8); }
            let (slice_price_usd_micro_per_atom, rest) = read_u64(rest)?;
            proof { lemma_le_len(slice_price_usd_micro_per_atom as nat, 8); }
            assert(rest@ =~= Seq::<u8>::empty());
            return Ok(
                IndieGamesInstruction::InitOracle {
                    sol_price_usd_micro_per_lamport,
                    skr_price_usd_micro_per_atom,
                    slice_price_usd_micro_per_atom,
                },
            );
        }
        if tag == 1 && len == 24 {
            let (sol_price_usd_micro_per_lamport, rest) = read_u64(rest)?;
            proof { lemma_le_len(sol_price_usd_micro_per_lamport as nat, 8); }
            let (skr_price_usd_micro_per_atom, rest) = read_u64(rest)?;
            proof { lemma_le_len(skr_price_usd_micro_per_atom as nat, 8); }
            let (slice_price_usd_micro_per_atom, rest) = read_u64(rest)?;
            proof { lemma_le_len(slice_price_usd_micro_per_atom as nat, 8); }
            assert(rest@ =~= Seq::<u8>::empty());
            return Ok(
                IndieGamesInstruction::UpdateOraclePrices {
                    sol_price_usd_micro_per_lamport,
                    skr_price_usd_micro_per_atom,
                    slice_price_usd_micro_per_atom,
                },
            );
        }
        if tag == 2 && len == 108 {
            let (title, rest) = read_array::<32>(rest)?;
            let (dev_fee_bps, rest) = read_u16(rest)?;
            proof { lemma_le_len(dev_fee_bps as nat, 2); }
            let (game_to_protocol_share_bps, rest) = read_u16(rest)?;
            proof { lemma_le_len(game_to_protocol_share_bps as nat, 2); }
            let (game_cost, rest) = read_u64(rest)?;
            proof { lemma_le_len(game_cost as nat, 8); }
            let (game_url, rest) = read_array::<64>(rest)?;
            assert(rest@ =~= Seq::<u8>::empty());
            return Ok(
                IndieGamesInstruction::CreateGame {
                    title,
                    dev_fee_bps,
                    game_to_protocol_share_bps,
                    game_cost,
                    game_url,
                },
            );
        }
        if tag == 3 && len == 4 {
            let (new_dev_fees_bps, rest) = read_u16(rest)?;
            proof { lemma_le_len(new_dev_fees_bps as nat, 2); }
            let (new_game_to_protocol_share_bps, rest) = read_u16(rest)?;
            proof { lemma_le_len(new_game_to_protocol_share_bps as nat, 2); }
            assert(rest@ =~= Seq::<u8>::empty());
            return Ok(
                IndieGamesInstruction::UpdateFeeShare { new_dev_fees_bps, new_game_to_protocol_share_bps },
            );
        }
        if tag == 4 && len == 8 {
            let (new_game_cost, rest) = read_u64(rest)?;
            proof { lemma_le_len(new_game_cost as nat, 8); }
            assert(rest@ =~= Seq::<u8>::empty());
            return Ok(IndieGamesInstruction::UpdateGameCost { new_game_cost });
        }
        if tag == 5 && len == 32 {
            let (new_owner, rest) = read_array::<32>(rest)?;
            assert(rest@ =~= Seq::<u8>::empty());
            return Ok(IndieGamesInstruction::TransferGameOwnership { new_owner });
        }
        if tag == 6 && len == 0 {
            assert(rest@ =~= Seq::<u8>::empty());
            return Ok(IndieGamesInstruction::UpgradeGameStateVersion);
        }
        if tag == 7 && len == 72 {
            let (username, rest) = read_array::<32>(rest)?;
            let (timestamp, rest) = read_u64(rest)?;
            proof { lemma_le_len(timestamp as nat, 8); }
            let (payment_token, rest) = read_array::<32>(rest)?;
            assert(rest@ =~= Seq::<u8>::empty());
            return Ok(IndieGamesInstruction::CreateUserAccount { username, timestamp, payment_token });
        }
        if tag == 8 && len == 16 {
            let (ranked_game_id, rest) = read_u64(rest)?;
            proof { lemma_le_len(ranked_game_id as nat, 8); }
            let (entry_fee_usd_micro, rest) = read_u64(rest)?;
            proof { lemma_le_len(entry_fee_usd_micro as nat, 8); }
            assert(rest@ =~= Seq::<u8>::empty());
            return Ok(IndieGamesInstruction::CreateRankedGame { ranked_game_id, entry_fee_usd_micro });
        }
        if tag == 9 && len == 40 {
            let (ranked_game_id, rest) = read_u64(rest)?;
            proof { lemma_le_len(ranked_game_id as nat, 8); }
            let (payment_token, rest) = read_array::<32>(rest)?;
            assert(rest@ =~= Seq::<u8>::empty());
            return Ok(IndieGamesInstruction::JoinRankedGame { ranked_game_id, payment_token });
        }
        if tag == 10 && len == 0 {
            assert(rest@ =~= Seq::<u8>::empty());
            return Ok(IndieGamesInstruction::DeveloperWithdraw);
        }
        if tag == 11 && len == 2 {
            let (percentage_of_the_pool, rest) = read_u16(rest)?;
            proof { lemma_le_len(percentage_of_the_pool as nat, 2); }
            assert(rest@ =~= Seq::<u8>::empty());
            return Ok(IndieGamesInstruction::RewardUserAccount { percentage_of_the_pool });
        }
        if tag == 12 && len == 8 {
            let (timestamp, rest) = read_u64(rest)?;
            proof { lemma_le_len(timestamp as nat, 8); }
            assert(rest@ =~= Seq::<u8>::empty());
            return Ok(IndieGamesInstruction::WithdrawRewards { timestamp });
        }
        if tag == 13 && len == 9 {
            let (ranked_game_id, rest) = read_u64(rest)?;
            proof { lemma_le_len(ranked_game_id as nat, 8); }
            let (new_status, rest) = read_u8(rest)?;
            assert(rest@ =~= Seq::<u8>::empty());
            return Ok(IndieGamesInstruction::UpdateRankedGameStatus { ranked_game_id, new_status });
        }
        if tag == 14 && len == 10 {
            let (ranked_game_id, rest) = read_u64(rest)?;
            proof { lemma_le_len(ranked_game_id as nat, 8); }
            let (amount_usd_micro, rest) = read_u16(rest)?;
            proof { lemma_le_len(amount_usd_micro as nat, 2); }
            assert(rest@ =~= Seq::<u8>::empty());
            return Ok(IndieGamesInstruction::RewardWinner { ranked_game_id, amount_usd_micro });
        }
        if tag == 15 && len == 8 {
            let (ranked_game_id, rest) = read_u64(rest)?;
            proof { lemma_le_len(ranked_game_id as nat, 8); }
            assert(rest@ =~= Seq::<u8>::empty());
            return Ok(IndieGamesInstruction::CloseRankedGame { ranked_game_id });
        }
        Err(ProgramError::BorshIoError)
    }
}

} // verus!
