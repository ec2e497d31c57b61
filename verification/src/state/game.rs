//! The account of a game.

use crate::codec::{
    flag_byte, le_bytes, lemma_le_len, lemma_split, lemma_split_array, lemma_split_u16,
    lemma_split_u32, lemma_split_u64, read_array, read_bool, read_u16, read_u32, read_u64,
    read_u8, write_array, write_bool, write_u16, write_u32, write_u64, write_u8,
};
use crate::constants::Pubkey;
use crate::error::ProgramError;
use vstd::prelude::*;

verus! {

/// The length of a game's title.
pub const GAME_TITLE_MAX_LEN: usize = 32;

/// The length of a game's link.
pub const GAME_URL_MAX_LEN: usize = 64;

/// The data of a game's account.
#[derive(Clone, Copy, Debug, PartialEq, Eq)]
pub struct GameAccount {
    pub is_initialized: bool,
    /// The version of the layout.
    pub version: u8,
    /// The title, padded with zeros; it is a seed of the game's address.
    pub game_title: [u8; 32],
    /// The wallet that may change the game and withdraw its income.
    pub owner: Pubkey,
    pub dev_fee_bps: u16,
    /// The part of each payment that goes to the protocol, in basis points.
    pub game_to_protocol_share_bps: u16,
    /// What a user account costs, in millionths of a US dollar.
    pub game_cost: u64,
    pub game_url: [u8; 64],
    /// How many user accounts were created for the game.
    pub total_users: u32,
    pub total_revenue_usd_micro: u64,
}

impl GameAccount {
    /// How many bytes the account takes.
    pub const MAX_SIZE: usize = 1 + 1 + 32 + 32 + 2 + 2 + 8 + 64 + 4 + 8;
}

impl GameAccount {
    /// The stored form of a game account, followed by `tail`: the fields in the order of
    /// declaration.
    #[verifier::opaque]
    pub open spec fn encode(self, tail: Seq<u8>) -> Seq<u8> {
        seq![flag_byte(self.is_initialized)] + (
        seq![self.version] + (
        self.game_title@ + (
        self.owner@ + (
        le_bytes(self.dev_fee_bps as nat, 2) + (
        le_bytes(self.game_to_protocol_share_bps as nat, 2) + (
        le_bytes(self.game_cost as nat, 8) + (
        self.game_url@ + (
        le_bytes(self.total_users as nat, 4) + (
        le_bytes(self.total_revenue_usd_micro as nat, 8) + tail)))))))))
    }

    /// The stored form of a game account.
    pub open spec fn bytes(self) -> Seq<u8> {
        self.encode(Seq::empty())
    }

    /// What `data` is the stored form of.
    pub open spec fn decode(data: Seq<u8>) -> Option<GameAccount> {
        if exists|x: GameAccount| #[trigger] x.bytes() == data {
            Some(choose|x: GameAccount| #[trigger] x.bytes() == data)
        } else {
            None
        }
    }

    /// Whether `data` begins with the stored form of a game account.
    pub open spec fn leads(self, data: Seq<u8>) -> bool {
        exists|tail: Seq<u8>| #[trigger] self.encode(tail) == data
    }

    /// What `data` begins with the stored form of.
    pub open spec fn decode_front(data: Seq<u8>) -> Option<GameAccount> {
        if exists|x: GameAccount| #[trigger] x.leads(data) {
            Some(choose|x: GameAccount| #[trigger] x.leads(data))
        } else {
            None
        }
    }

    pub proof fn lemma_encode_len(self, tail: Seq<u8>)
        ensures
            self.encode(tail).len() == 154 + tail.len(),
    {
        reveal(GameAccount::encode);
        lemma_le_len(self.dev_fee_bps as nat, 2);
        lemma_le_len(self.game_to_protocol_share_bps as nat, 2);
        lemma_le_len(self.game_cost as nat, 8);
        lemma_le_len(self.total_users as nat, 4);
        lemma_le_len(self.total_revenue_usd_micro as nat, 8);
    }

    pub proof fn lemma_encode_tail(self, tail: Seq<u8>)
        ensures
            self.encode(tail) == self.bytes() + tail,
    {
        reveal(GameAccount::encode);
        assert(self.encode(tail) =~= self.bytes() + tail);
    }

    /// Data that begins with a game account says which one, and what follows it.
    pub proof fn law_encode_injective(self, tail: Seq<u8>, other: GameAccount, other_tail: Seq<u8>)
        requires
            self.encode(tail) == other.encode(other_tail),
        ensures
            self == other,
            tail == other_tail,
    {
        reveal(GameAccount::encode);
        let a9 = le_bytes(self.total_revenue_usd_micro as nat, 8) + tail;
        let a8 = le_bytes(self.total_users as nat, 4) + a9;
        let a7 = self.game_url@ + a8;
        let a6 = le_bytes(self.game_cost as nat, 8) + a7;
        let a5 = le_bytes(self.game_to_protocol_share_bps as nat, 2) + a6;
        let a4 = le_bytes(self.dev_fee_bps as nat, 2) + a5;
        let a3 = self.owner@ + a4;
        let a2 = self.game_title@ + a3;
        let a1 = seq![self.version] + a2;
        let b9 = le_bytes(other.total_revenue_usd_micro as nat, 8) + other_tail;
        let b8 = le_bytes(other.total_users as nat, 4) + b9;
        let b7 = other.game_url@ + b8;
        let b6 = le_bytes(other.game_cost as nat, 8) + b7;
        let b5 = le_bytes(other.game_to_protocol_share_bps as nat, 2) + b6;
        let b4 = le_bytes(other.dev_fee_bps as nat, 2) + b5;
        let b3 = other.owner@ + b4;
        let b2 = other.game_title@ + b3;
        let b1 = seq![other.version] + b2;
        lemma_split(seq![flag_byte(self.is_initialized)], a1, seq![flag_byte(other.is_initialized)], b1);
        assert(seq![flag_byte(self.is_initialized)][0] == seq![flag_byte(other.is_initialized)][0]);
        lemma_split(seq![self.version], a2, seq![other.version], b2);
        assert(seq![self.version][0] == seq![other.version][0]);
        lemma_split_array(self.game_title, a3, other.game_title, b3);
        lemma_split_array(self.owner, a4, other.owner, b4);
        lemma_split_u16(self.dev_fee_bps, a5, other.dev_fee_bps, b5);
        lemma_split_u16(self.game_to_protocol_share_bps, a6, other.game_to_protocol_share_bps, b6);
        lemma_split_u64(self.game_cost, a7, other.game_cost, b7);
        lemma_split_array(self.game_url, a8, other.game_url, b8);
        lemma_split_u32(self.total_users, a9, other.total_users, b9);
        lemma_split_u64(self.total_revenue_usd_micro, tail, other.total_revenue_usd_micro, other_tail);
    }

    /// Reading a game account back gives what was stored.
    pub proof fn law_decode_bytes(self)
        ensures
            GameAccount::decode(self.bytes()) == Some(self),
            self.bytes().len() == 154,
    {
        let back = choose|x: GameAccount| #[trigger] x.bytes() == self.bytes();
        assert(self.bytes() == self.bytes());
        back.law_encode_injective(Seq::empty(), self, Seq::empty());
        self.lemma_encode_len(Seq::empty());
    }

    /// Reading the front of data that begins with a game account gives it back.
    pub proof fn law_decode_front(self, tail: Seq<u8>)
        ensures
            GameAccount::decode_front(self.encode(tail)) == Some(self),
    {
        let data = self.encode(tail);
        assert(self.leads(data));
        let back = choose|x: GameAccount| #[trigger] x.leads(data);
        let t = choose|t: Seq<u8>| #[trigger] back.encode(t) == data;
        back.law_encode_injective(t, self, tail);
    }

    /// The stored form of a game account.
    pub fn serialize(&self) -> (r: Vec<u8>)
        ensures
            r@ == self.bytes(),
    {
        let mut out: Vec<u8> = Vec::new();
        write_bool(&mut out, self.is_initialized);
        write_u8(&mut out, self.version);
        write_array(&mut out, &self.game_title);
        write_array(&mut out, &self.owner);
        write_u16(&mut out, self.dev_fee_bps);
        write_u16(&mut out, self.game_to_protocol_share_bps);
        write_u64(&mut out, self.game_cost);
        write_array(&mut out, &self.game_url);
        write_u32(&mut out, self.total_users);
        write_u64(&mut out, self.total_revenue_usd_micro);
        proof {
            reveal(GameAccount::encode);
            assert(out@ =~= self.bytes());
        }
        out
    }

    /// Reads a game account off the front of `data`, with what follows it.
    pub fn read<'a>(data: &'a [u8]) -> (r: Result<(GameAccount, &'a [u8]), ProgramError>)
        ensures
            match r {
                Ok((x, rest)) => data@ == x.encode(rest@),
                Err(e) => e == ProgramError::BorshIoError && forall|x: GameAccount, tail: Seq<u8>|
                    data@ != #[trigger] x.encode(tail),
            },
    {
        proof {
            reveal(GameAccount::encode);
            assert forall|x: GameAccount, tail: Seq<u8>| data@.len() < 154 implies data@ != #[trigger] x.encode(tail) by {
                x.lemma_encode_len(tail);
            }
        }
        if data.len() < 154 {
            return Err(ProgramError::BorshIoError);
        }
        let (is_initialized, rest) = match read_bool(data) {
            Ok(x) => x,
            Err(e) => {
                assert forall|x: GameAccount, tail: Seq<u8>| data@ != #[trigger] x.encode(tail) by {
                    assert(x.encode(tail)[0] == flag_byte(x.is_initialized));
                }
                return Err(e);
            },
        };
        let (version, rest) = read_u8(rest)?;
        let (game_title, rest) = read_array::<32>(rest)?;
        let (owner, rest) = read_array::<32>(rest)?;
        let (dev_fee_bps, rest) = read_u16(rest)?;
        proof { lemma_le_len(dev_fee_bps as nat, 2); }
        let (game_to_protocol_share_bps, rest) = read_u16(rest)?;
        proof { lemma_le_len(game_to_protocol_share_bps as nat, 2); }
        let (game_cost, rest) = read_u64(rest)?;
        proof { lemma_le_len(game_cost as nat, 8); }
        let (game_url, rest) = read_array::<64>(rest)?;
        let (total_users, rest) = read_u32(rest)?;
        proof { lemma_le_len(total_users as nat, 4); }
        let (total_revenue_usd_micro, rest) = read_u64(rest)?;
        proof { lemma_le_len(total_revenue_usd_micro as nat, 8); }
        Ok(
            (
                GameAccount {
                    is_initialized,
                    version,
                    game_title,
                    owner,
                    dev_fee_bps,
                    game_to_protocol_share_bps,
                    game_cost,
                    game_url,
                    total_users,
                    total_revenue_usd_micro,
                },
                rest,
            ),
        )
    }

    /// Reads a game account from `data` that holds nothing else.
    pub fn try_from_slice(data: &[u8]) -> (r: Result<GameAccount, ProgramError>)
        ensures
            match r {
                Ok(x) => GameAccount::decode(data@) == Some(x),
                Err(e) => GameAccount::decode(data@) is None && e == ProgramError::BorshIoError,
            },
    {
        match GameAccount::read(data) {
            Ok((x, rest)) => {
                if rest.len() == 0 {
                    proof {
                        assert(rest@ =~= Seq::<u8>::empty());
                        x.law_decode_bytes();
                    }
                    Ok(x)
                } else {
                    proof {
                        assert forall|y: GameAccount| #[trigger] y.bytes() != data@ by {
                            if y.bytes() == data@ {
                                x.law_encode_injective(rest@, y, Seq::empty());
                            }
                        }
                    }
                    Err(ProgramError::BorshIoError)
                }
            },
            Err(e) => Err(e),
        }
    }

    /// Reads a game account off the front of `data`.
    pub fn deserialize(data: &[u8]) -> (r: Result<GameAccount, ProgramError>)
        ensures
            match r {
                Ok(x) => GameAccount::decode_front(data@) == Some(x),
                Err(e) => GameAccount::decode_front(data@) is None && e == ProgramError::BorshIoError,
            },
    {
        match GameAccount::read(data) {
            Ok((x, rest)) => {
                proof {
                    x.law_decode_front(rest@);
                }
                Ok(x)
            },
            Err(e) => Err(e),
        }
    }
}

/// The data of a game's account in the first layout, before games had a cost.
#[derive(Clone, Copy, Debug, PartialEq, Eq)]
pub struct GameAccountV1 {
    pub is_initialized: bool,
    /// The version of the layout.
    pub version: u8,
    /// The title, padded with zeros; it is a seed of the game's address.
    pub game_title: [u8; 32],
    /// The wallet that may change the game and withdraw its income.
    pub owner: Pubkey,
    pub dev_fee_bps: u16,
    /// The part of each payment that goes to the protocol, in basis points.
    pub game_to_protocol_share_bps: u16,
}

impl GameAccountV1 {
    /// The stored form of a game account of the first layout, followed by `tail`: the fields in the order of
    /// declaration.
    #[verifier::opaque]
    pub open spec fn encode(self, tail: Seq<u8>) -> Seq<u8> {
        seq![flag_byte(self.is_initialized)] + (
        seq![self.version] + (
        self.game_title@ + (
        self.owner@ + (
        le_bytes(self.dev_fee_bps as nat, 2) + (
        le_bytes(self.game_to_protocol_share_bps as nat, 2) + tail)))))
    }

    /// The stored form of a game account of the first layout.
    pub open spec fn bytes(self) -> Seq<u8> {
        self.encode(Seq::empty())
    }

    /// What `data` is the stored form of.
    pub open spec fn decode(data: Seq<u8>) -> Option<GameAccountV1> {
        if exists|x: GameAccountV1| #[trigger] x.bytes() == data {
            Some(choose|x: GameAccountV1| #[trigger] x.bytes() == data)
        } else {
            None
        }
    }

    pub proof fn lemma_encode_len(self, tail: Seq<u8>)
        ensures
            self.encode(tail).len() == 70 + tail.len(),
    {
        reveal(GameAccountV1::encode);
        lemma_le_len(self.dev_fee_bps as nat, 2);
        lemma_le_len(self.game_to_protocol_share_bps as nat, 2);
    }

    /// Data that begins with a game account of the first layout says which one, and what follows it.
    pub proof fn law_encode_injective(self, tail: Seq<u8>, other: GameAccountV1, other_tail: Seq<u8>)
        requires
            self.encode(tail) == other.encode(other_tail),
        ensures
            self == other,
            tail == other_tail,
    {
        reveal(GameAccountV1::encode);
        let a5 = le_bytes(self.game_to_protocol_share_bps as nat, 2) + tail;
        let a4 = le_bytes(self.dev_fee_bps as nat, 2) + a5;
        let a3 = self.owner@ + a4;
        let a2 = self.game_title@ + a3;
        let a1 = seq![self.version] + a2;
        let b5 = le_bytes(other.game_to_protocol_share_bps as nat, 2) + other_tail;
        let b4 = le_bytes(other.dev_fee_bps as nat, 2) + b5;
        let b3 = other.owner@ + b4;
        let b2 = other.game_title@ + b3;
        let b1 = seq![other.version] + b2;
        lemma_split(seq![flag_byte(self.is_initialized)], a1, seq![flag_byte(other.is_initialized)], b1);
        assert(seq![flag_byte(self.is_initialized)][0] == seq![flag_byte(other.is_initialized)][0]);
        lemma_split(seq![self.version], a2, seq![other.version], b2);
        assert(seq![self.version][0] == seq![other.version][0]);
        lemma_split_array(self.game_title, a3, other.game_title, b3);
        lemma_split_array(self.owner, a4, other.owner, b4);
        lemma_split_u16(self.dev_fee_bps, a5, other.dev_fee_bps, b5);
        lemma_split_u16(self.game_to_protocol_share_bps, tail, other.game_to_protocol_share_bps, other_tail);
    }

    /// Reading a game account of the first layout back gives what was stored.
    pub proof fn law_decode_bytes(self)
        ensures
            GameAccountV1::decode(self.bytes()) == Some(self),
            self.bytes().len() == 70,
    {
        let back = choose|x: GameAccountV1| #[trigger] x.bytes() == self.bytes();
        assert(self.bytes() == self.bytes());
        back.law_encode_injective(Seq::empty(), self, Seq::empty());
        self.lemma_encode_len(Seq::empty());
    }

    /// Reads a game account of the first layout off the front of `data`, with what follows it.
    pub fn read<'a>(data: &'a [u8]) -> (r: Result<(GameAccountV1, &'a [u8]), ProgramError>)
        ensures
            match r {
                Ok((x, rest)) => data@ == x.encode(rest@),
                Err(e) => e == ProgramError::BorshIoError && forall|x: GameAccountV1, tail: Seq<u8>|
                    data@ != #[trigger] x.encode(tail),
            },
    {
        proof {
            reveal(GameAccountV1::encode);
            assert forall|x: GameAccountV1, tail: Seq<u8>| data@.len() < 70 implies data@ != #[trigger] x.encode(tail) by {
                x.lemma_encode_len(tail);
            }
        }
        if data.len() < 70 {
            return Err(ProgramError::BorshIoError);
        }
        let (is_initialized, rest) = match read_bool(data) {
            Ok(x) => x,
            Err(e) => {
                assert forall|x: GameAccountV1, tail: Seq<u8>| data@ != #[trigger] x.encode(tail) by {
                    assert(x.encode(tail)[0] == flag_byte(x.is_initialized));
                }
                return Err(e);
            },
        };
        let (version, rest) = read_u8(rest)?;
        let (game_title, rest) = read_array::<32>(rest)?;
        let (owner, rest) = read_array::<32>(rest)?;
        let (dev_fee_bps, rest) = read_u16(rest)?;
        proof { lemma_le_len(dev_fee_bps as nat, 2); }
        let (game_to_protocol_share_bps, rest) = read_u16(rest)?;
        proof { lemma_le_len(game_to_protocol_share_bps as nat, 2); }
        Ok(
            (
                GameAccountV1 {
                    is_initialized,
                    version,
                    game_title,
                    owner,
                    dev_fee_bps,
                    game_to_protocol_share_bps,
                },
                rest,
            ),
        )
    }

    /// Reads a game account of the first layout from `data` that holds nothing else.
    pub fn try_from_slice(data: &[u8]) -> (r: Result<GameAccountV1, ProgramError>)
        ensures
            match r {
                Ok(x) => GameAccountV1::decode(data@) == Some(x),
                Err(e) => GameAccountV1::decode(data@) is None && e == ProgramError::BorshIoError,
            },
    {
        match GameAccountV1::read(data) {
            Ok((x, rest)) => {
                if rest.len() == 0 {
                    proof {
                        assert(rest@ =~= Seq::<u8>::empty());
                        x.law_decode_bytes();
                    }
                    Ok(x)
                } else {
                    proof {
                        assert forall|y: GameAccountV1| #[trigger] y.bytes() != data@ by {
                            if y.bytes() == data@ {
                                x.law_encode_injective(rest@, y, Seq::empty());
                            }
                        }
                    }
                    Err(ProgramError::BorshIoError)
                }
            },
            Err(e) => Err(e),
        }
    }
}

} // verus!
