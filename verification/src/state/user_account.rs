//! The account of a user in a game.

use crate::codec::{
    flag_byte, le_bytes, lemma_le_len, lemma_split, lemma_split_array, lemma_split_u32,
    lemma_split_u64, read_array, read_bool, read_u32, read_u64, read_u8, write_array,
    write_bool, write_u32, write_u64, write_u8,
};
use crate::constants::Pubkey;
use crate::error::ProgramError;
use vstd::prelude::*;

verus! {

/// The length of a user's name.
pub const USERNAME_MAX_LEN: usize = 32;

/// The data of a user's account.
#[derive(Clone, Copy, Debug, PartialEq, Eq)]
pub struct UserAccount {
    pub is_initialized: bool,
    pub version: u8,
    /// The bump seed of the account's address.
    pub bump: u8,
    /// The wallet of the user.
    pub owner: Pubkey,
    /// The game that the account belongs to.
    pub game: Pubkey,
    pub username: [u8; 32],
    /// The ranked game in which the user takes part, or all zeros.
    pub current_ranked_game: Pubkey,
    pub total_ranked_games_played: u32,
    pub total_wins: u32,
    pub total_usd_spent_micro: u64,
    pub total_usd_rewards_micro: u64,
}

impl UserAccount {
    /// How many bytes the account takes.
    pub const MAX_SIZE: usize = 1 + 1 + 1 + 32 + 32 + 32 + 32 + 4 + 4 + 8 + 8;
}

impl UserAccount {
    /// The stored form of a user account, followed by `tail`: the fields in the order of
    /// declaration.
    #[verifier::opaque]
    pub open spec fn encode(self, tail: Seq<u8>) -> Seq<u8> {
        seq![flag_byte(self.is_initialized)] + (
        seq![self.version] + (
        seq![self.bump] + (
        self.owner@ + (
        self.game@ + (
        self.username@ + (
        self.current_ranked_game@ + (
        le_bytes(self.total_ranked_games_played as nat, 4) + (
        le_bytes(self.total_wins as nat, 4) + (
        le_bytes(self.total_usd_spent_micro as nat, 8) + (
        le_bytes(self.total_usd_rewards_micro as nat, 8) + tail))))))))))
    }

    /// The stored form of a user account.
    pub open spec fn bytes(self) -> Seq<u8> {
        self.encode(Seq::empty())
    }

    /// What `data` is the stored form of.
    pub open spec fn decode(data: Seq<u8>) -> Option<UserAccount> {
        if exists|x: UserAccount| #[trigger] x.bytes() == data {
            Some(choose|x: UserAccount| #[trigger] x.bytes() == data)
        } else {
            None
        }
    }

    pub proof fn lemma_encode_len(self, tail: Seq<u8>)
        ensures
            self.encode(tail).len() == 155 + tail.len(),
    {
        reveal(UserAccount::encode);
        lemma_le_len(self.total_ranked_games_played as nat, 4);
        lemma_le_len(self.total_wins as nat, 4);
        lemma_le_len(self.total_usd_spent_micro as nat, 8);
        lemma_le_len(self.total_usd_rewards_micro as nat, 8);
    }

    /// Data that begins with a user account says which one, and what follows it.
    pub proof fn law_encode_injective(self, tail: Seq<u8>, other: UserAccount, other_tail: Seq<u8>)
        requires
            self.encode(tail) == other.encode(other_tail),
        ensures
            self == other,
            tail == other_tail,
    {
        reveal(UserAccount::encode);
        let a10 = le_bytes(self.total_usd_rewards_micro as nat, 8) + tail;
        let a9 = le_bytes(self.total_usd_spent_micro as nat, 8) + a10;
        let a8 = le_bytes(self.total_wins as nat, 4) + a9;
        let a7 = le_bytes(self.total_ranked_games_played as nat, 4) + a8;
        let a6 = self.current_ranked_game@ + a7;
        let a5 = self.username@ + a6;
        let a4 = self.game@ + a5;
        let a3 = self.owner@ + a4;
        let a2 = seq![self.bump] + a3;
        let a1 = seq![self.version] + a2;
        let b10 = le_bytes(other.total_usd_rewards_micro as nat, 8) + other_tail;
        let b9 = le_bytes(other.total_usd_spent_micro as nat, 8) + b10;
        let b8 = le_bytes(other.total_wins as nat, 4) + b9;
        let b7 = le_bytes(other.total_ranked_games_played as nat, 4) + b8;
        let b6 = other.current_ranked_game@ + b7;
        let b5 = other.username@ + b6;
        let b4 = other.game@ + b5;
        let b3 = other.owner@ + b4;
        let b2 = seq![other.bump] + b3;
        let b1 = seq![other.version] + b2;
        lemma_split(seq![flag_byte(self.is_initialized)], a1, seq![flag_byte(other.is_initialized)], b1);
        assert(seq![flag_byte(self.is_initialized)][0] == seq![flag_byte(other.is_initialized)][0]);
        lemma_split(seq![self.version], a2, seq![other.version], b2);
        assert(seq![self.version][0] == seq![other.version][0]);
        lemma_split(seq![self.bump], a3, seq![other.bump], b3);
        assert(seq![self.bump][0] == seq![other.bump][0]);
        lemma_split_array(self.owner, a4, other.owner, b4);
        lemma_split_array(self.game, a5, other.game, b5);
        lemma_split_array(self.username, a6, other.username, b6);
        lemma_split_array(self.current_ranked_game, a7, other.current_ranked_game, b7);
        lemma_split_u32(self.total_ranked_games_played, a8, other.total_ranked_games_played, b8);
        lemma_split_u32(self.total_wins, a9, other.total_wins, b9);
        lemma_split_u64(self.total_usd_spent_micro, a10, other.total_usd_spent_micro, b10);
        lemma_split_u64(self.total_usd_rewards_micro, tail, other.total_usd_rewards_micro, other_tail);
    }

    /// Reading a user account back gives what was stored.
    pub proof fn law_decode_bytes(self)
        ensures
            UserAccount::decode(self.bytes()) == Some(self),
            self.bytes().len() == 155,
    {
        let back = choose|x: UserAccount| #[trigger] x.bytes() == self.bytes();
        assert(self.bytes() == self.bytes());
        back.law_encode_injective(Seq::empty(), self, Seq::empty());
        self.lemma_encode_len(Seq::empty());
    }

    /// The stored form of a user account.
    pub fn serialize(&self) -> (r: Vec<u8>)
        ensures
            r@ == self.bytes(),
    {
        let mut out: Vec<u8> = Vec::new();
        write_bool(&mut out, self.is_initialized);
        write_u8(&mut out, self.version);
        write_u8(&mut out, self.bump);
        write_array(&mut out, &self.owner);
        write_array(&mut out, &self.game);
        write_array(&mut out, &self.username);
        write_array(&mut out, &self.current_ranked_game);
        write_u32(&mut out, self.total_ranked_games_played);
        write_u32(&mut out, self.total_wins);
        write_u64(&mut out, self.total_usd_spent_micro);
        write_u64(&mut out, self.total_usd_rewards_micro);
        proof {
            reveal(UserAccount::encode);
            assert(out@ =~= self.bytes());
        }
        out
    }

    /// Reads a user account off the front of `data`, with what follows it.
    pub fn read<'a>(data: &'a [u8]) -> (r: Result<(UserAccount, &'a [u8]), ProgramError>)
        ensures
            match r {
                Ok((x, rest)) => data@ == x.encode(rest@),
                Err(e) => e == ProgramError::BorshIoError && forall|x: UserAccount, tail: Seq<u8>|
                    data@ != #[trigger] x.encode(tail),
            },
    {
        proof {
            reveal(UserAccount::encode);
            assert forall|x: UserAccount, tail: Seq<u8>| data@.len() < 155 implies data@ != #[trigger] x.encode(tail) by {
                x.lemma_encode_len(tail);
            }
        }
        if data.len() < 155 {
            return Err(ProgramError::BorshIoError);
        }
        let (is_initialized, rest) = match read_bool(data) {
            Ok(x) => x,
            Err(e) => {
                assert forall|x: UserAccount, tail: Seq<u8>| data@ != #[trigger] x.encode(tail) by {
                    assert(x.encode(tail)[0] == flag_byte(x.is_initialized));
                }
                return Err(e);
            },
        };
        let (version, rest) = read_u8(rest)?;
        let (bump, rest) = read_u8(rest)?;
        let (owner, rest) = read_array::<32>(rest)?;
        let (game, rest) = read_array::<32>(rest)?;
        let (username, rest) = read_array::<32>(rest)?;
        let (current_ranked_game, rest) = read_array::<32>(rest)?;
        let (total_ranked_games_played, rest) = read_u32(rest)?;
        proof { lemma_le_len(total_ranked_games_played as nat, 4); }
        let (total_wins, rest) = read_u32(rest)?;
        proof { lemma_le_len(total_wins as nat, 4); }
        let (total_usd_spent_micro, rest) = read_u64(rest)?;
        proof { lemma_le_len(total_usd_spent_micro as nat, 8); }
        let (total_usd_rewards_micro, rest) = read_u64(rest)?;
        proof { lemma_le_len(total_usd_rewards_micro as nat, 8); }
        Ok(
            (
                UserAccount {
                    is_initialized,
                    version,
                    bump,
                    owner,
                    game,
                    username,
                    current_ranked_game,
                    total_ranked_games_played,
                    total_wins,
                    total_usd_spent_micro,
                    total_usd_rewards_micro,
                },
                rest,
            ),
        )
    }

    /// Reads a user account from `data` that holds nothing else.
    pub fn try_from_slice(data: &[u8]) -> (r: Result<UserAccount, ProgramError>)
        ensures
            match r {
                Ok(x) => UserAccount::decode(data@) == Some(x),
                Err(e) => UserAccount::decode(data@) is None && e == ProgramError::BorshIoError,
            },
    {
        match UserAccount::read(data) {
            Ok((x, rest)) => {
                if rest.len() == 0 {
                    proof {
                        assert(rest@ =~= Seq::<u8>::empty());
                        x.law_decode_bytes();
                    }
                    Ok(x)
                } else {
                    proof {
                        assert forall|y: UserAccount| #[trigger] y.bytes() != data@ by {
                            if y.bytes() == data@ {
                                x.law_encode_injective(rest@, y, Seq::empty());
                            }
                        }
                    }
                    Err(ProgramError::BorshIoError)
                }
            },
            Err(e) => Err(e),
        }
    }
}

} // verus!
