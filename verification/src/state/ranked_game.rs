//! The account of a ranked game.

use crate::codec::{
    le_bytes, lemma_le_len, lemma_split, lemma_split_array, lemma_split_u32, lemma_split_u64,
    read_array, read_u32, read_u64, read_u8, write_array, write_u32, write_u64, write_u8,
};
use crate::constants::Pubkey;
use crate::error::ProgramError;
use vstd::prelude::*;

verus! {

/// Where a ranked game stands.
#[derive(Clone, Copy, Debug, PartialEq, Eq, Structural)]
pub enum RankedGameStatus {
    /// Accepting new participants.
    Open,
    /// No more joins; the match is in progress.
    InProgress,
    /// The match is over; payouts may be processed.
    Finished,
}

impl RankedGameStatus {
    /// The byte that stands for the status.
    pub open spec fn tag(self) -> u8 {
        match self {
            RankedGameStatus::Open => 0,
            RankedGameStatus::InProgress => 1,
            RankedGameStatus::Finished => 2,
        }
    }

    /// The status that a byte stands for.
    pub open spec fn spec_from_tag(tag: u8) -> Option<RankedGameStatus> {
        if tag == 0 {
            Some(RankedGameStatus::Open)
        } else if tag == 1 {
            Some(RankedGameStatus::InProgress)
        } else if tag == 2 {
            Some(RankedGameStatus::Finished)
        } else {
            None
        }
    }

    /// The byte that stands for the status.
    pub fn to_tag(&self) -> (r: u8)
        ensures
            r == self.tag(),
    {
        match self {
            RankedGameStatus::Open => 0,
            RankedGameStatus::InProgress => 1,
            RankedGameStatus::Finished => 2,
        }
    }

    /// The status that a byte stands for.
    pub fn from_tag(tag: u8) -> (r: Option<RankedGameStatus>)
        ensures
            r == Self::spec_from_tag(tag),
    {
        if tag == 0 {
            Some(RankedGameStatus::Open)
        } else if tag == 1 {
            Some(RankedGameStatus::InProgress)
        } else if tag == 2 {
            Some(RankedGameStatus::Finished)
        } else {
            None
        }
    }
}

/// The data of a ranked game's account.
#[derive(Clone, Copy, Debug, PartialEq, Eq)]
pub struct RankedGameState {
    /// `RANKED_GAME_DISCRIMINATOR`.
    pub discriminator: [u8; 8],
    /// The number of the ranked game, a seed of its address.
    pub ranked_game_id: u64,
    /// The game that the ranked game belongs to.
    pub game: Pubkey,
    /// What a participant pays into the pool, in US cents; the fee of the protocol
    /// is charged on top of it.
    pub entry_fee: u64,
    pub participant_count: u32,
    pub status: RankedGameStatus,
    /// The bump seed of the ranked game's address.
    pub bump: u8,
}

impl RankedGameState {
    /// How many bytes the account takes.
    pub const LEN: usize = 8 + 8 + 32 + 8 + 4 + 1 + 1;
}

impl RankedGameState {
    /// The stored form of a ranked game account, followed by `tail`: the fields in the order of
    /// declaration.
    #[verifier::opaque]
    pub open spec fn encode(self, tail: Seq<u8>) -> Seq<u8> {
        self.discriminator@ + (
        le_bytes(self.ranked_game_id as nat, 8) + (
        self.game@ + (
        le_bytes(self.entry_fee as nat, 8) + (
        le_bytes(self.participant_count as nat, 4) + (
        seq![self.status.tag()] + (
        seq![self.bump] + tail))))))
    }

    /// The stored form of a ranked game account.
    pub open spec fn bytes(self) -> Seq<u8> {
        self.encode(Seq::empty())
    }

    /// What `data` is the stored form of.
    pub open spec fn decode(data: Seq<u8>) -> Option<RankedGameState> {
        if exists|x: RankedGameState| #[trigger] x.bytes() == data {
            Some(choose|x: RankedGameState| #[trigger] x.bytes() == data)
        } else {
            None
        }
    }

    pub proof fn lemma_encode_len(self, tail: Seq<u8>)
        ensures
            self.encode(tail).len() == 62 + tail.len(),
    {
        reveal(RankedGameState::encode);
        lemma_le_len(self.ranked_game_id as nat, 8);
        lemma_le_len(self.entry_fee as nat, 8);
        lemma_le_len(self.participant_count as nat, 4);
    }

    /// Data that begins with a ranked game account says which one, and what follows it.
    pub proof fn law_encode_injective(self, tail: Seq<u8>, other: RankedGameState, other_tail: Seq<u8>)
        requires
            self.encode(tail) == other.encode(other_tail),
        ensures
            self == other,
            tail == other_tail,
    {
        reveal(RankedGameState::encode);
        let a6 = seq![self.bump] + tail;
        let a5 = seq![self.status.tag()] + a6;
        let a4 = le_bytes(self.participant_count as nat, 4) + a5;
        let a3 = le_bytes(self.entry_fee as nat, 8) + a4;
        let a2 = self.game@ + a3;
        let a1 = le_bytes(self.ranked_game_id as nat, 8) + a2;
        let b6 = seq![other.bump] + other_tail;
        let b5 = seq![other.status.tag()] + b6;
        let b4 = le_bytes(other.participant_count as nat, 4) + b5;
        let b3 = le_bytes(other.entry_fee as nat, 8) + b4;
        let b2 = other.game@ + b3;
        let b1 = le_bytes(other.ranked_game_id as nat, 8) + b2;
        lemma_split_array(self.discriminator, a1, other.discriminator, b1);
        lemma_split_u64(self.ranked_game_id, a2, other.ranked_game_id, b2);
        lemma_split_array(self.game, a3, other.game, b3);
        lemma_split_u64(self.entry_fee, a4, other.entry_fee, b4);
        lemma_split_u32(self.participant_count, a5, other.participant_count, b5);
        lemma_split(seq![self.status.tag()], a6, seq![other.status.tag()], b6);
        assert(seq![self.status.tag()][0] == seq![other.status.tag()][0]);
        lemma_split(seq![self.bump], tail, seq![other.bump], other_tail);
        assert(seq![self.bump][0] == seq![other.bump][0]);
    }

    /// Reading a ranked game account back gives what was stored.
    pub proof fn law_decode_bytes(self)
        ensures
            RankedGameState::decode(self.bytes()) == Some(self),
            self.bytes().len() == 62,
    {
        let back = choose|x: RankedGameState| #[trigger] x.bytes() == self.bytes();
        assert(self.bytes() == self.bytes());
        back.law_encode_injective(Seq::empty(), self, Seq::empty());
        self.lemma_encode_len(Seq::empty());
    }

    /// The stored form of a ranked game account.
    pub fn serialize(&self) -> (r: Vec<u8>)
        ensures
            r@ == self.bytes(),
    {
        let mut out: Vec<u8> = Vec::new();
        write_array(&mut out, &self.discriminator);
        write_u64(&mut out, self.ranked_game_id);
        write_array(&mut out, &self.game);
        write_u64(&mut out, self.entry_fee);
        write_u32(&mut out, self.participant_count);
        write_u8(&mut out, self.status.to_tag());
        write_u8(&mut out, self.bump);
        proof {
            reveal(RankedGameState::encode);
            assert(out@ =~= self.bytes());
        }
        out
    }

    /// Reads a ranked game account off the front of `data`, with what follows it.
    pub fn read<'a>(data: &'a [u8]) -> (r: Result<(RankedGameState, &'a [u8]), ProgramError>)
        ensures
            match r {
                Ok((x, rest)) => data@ == x.encode(rest@),
                Err(e) => e == ProgramError::BorshIoError && forall|x: RankedGameState, tail: Seq<u8>|
                    data@ != #[trigger] x.encode(tail),
            },
    {
        proof {
            reveal(RankedGameState::encode);
            assert forall|x: RankedGameState, tail: Seq<u8>| data@.len() < 62 implies data@ != #[trigger] x.encode(tail) by {
                x.lemma_encode_len(tail);
            }
        }
        if data.len() < 62 {
            return Err(ProgramError::BorshIoError);
        }
        let (discriminator, rest) = read_array::<8>(data)?;
        let (ranked_game_id, rest) = read_u64(rest)?;
        proof { lemma_le_len(ranked_game_id as nat, 8); }
        let (game, rest) = read_array::<32>(rest)?;
        let (entry_fee, rest) = read_u64(rest)?;
        proof { lemma_le_len(entry_fee as nat, 8); }
        let (participant_count, rest) = read_u32(rest)?;
        proof { lemma_le_len(participant_count as nat, 4); }
        let (tag, rest) = read_u8(rest)?;
        let status = match RankedGameStatus::from_tag(tag) {
            Some(s) => s,
            None => {
                proof {
                    assert forall|x: RankedGameState, tail: Seq<u8>| data@ != #[trigger] x.encode(tail) by {
                        assert(data@[60] == tag);
                        lemma_le_len(x.ranked_game_id as nat, 8);
                        lemma_le_len(x.entry_fee as nat, 8);
                        lemma_le_len(x.participant_count as nat, 4);
                        assert(x.encode(tail)[60] == x.status.tag());
                    }
                }
                return Err(ProgramError::BorshIoError);
            },
        };
        let (bump, rest) = read_u8(rest)?;
        Ok(
            (
                RankedGameState {
                    discriminator,
                    ranked_game_id,
                    game,
                    entry_fee,
                    participant_count,
                    status,
                    bump,
                },
                rest,
            ),
        )
    }

    /// Reads a ranked game account from `data` that holds nothing else.
    pub fn try_from_slice(data: &[u8]) -> (r: Result<RankedGameState, ProgramError>)
        ensures
            match r {
                Ok(x) => RankedGameState::decode(data@) == Some(x),
                Err(e) => RankedGameState::decode(data@) is None && e == ProgramError::BorshIoError,
            },
    {
        match RankedGameState::read(data) {
            Ok((x, rest)) => {
                if rest.len() == 0 {
                    proof {
                        assert(rest@ =~= Seq::<u8>::empty());
                        x.law_decode_bytes();
                    }
                    Ok(x)
                } else {
                    proof {
                        assert forall|y: RankedGameState| #[trigger] y.bytes() != data@ by {
                            if y.bytes() == data@ {
                                x.law_encode_injective(rest@, y, Seq::empty());
                            }
                        }
                    }
                    Err(ProgramError::BorshIoError)
                }
            },
            Err(e) => Err(e),
        }
    }
}

} // verus!
