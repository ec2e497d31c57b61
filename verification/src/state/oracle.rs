//! The account of the price oracle.

use crate::codec::{
    le_bytes, lemma_le_len, lemma_split, lemma_split_array, lemma_split_u64, read_array,
    read_u64, read_u8, write_array, write_u64, write_u8,
};
use crate::error::ProgramError;
use vstd::prelude::*;

verus! {

/// The data of the oracle's account: prices in millionths of a US dollar.
#[derive(Clone, Copy, Debug, PartialEq, Eq)]
pub struct OraclePriceState {
    /// `ORACLE_DISCRIMINATOR`.
    pub discriminator: [u8; 8],
    pub sol_price_usd_micro_per_lamport: u64,
    pub skr_price_usd_micro_per_atom: u64,
    pub slice_price_usd_micro_per_atom: u64,
    /// The bump seed of the oracle's address.
    pub bump: u8,
}

impl OraclePriceState {
    /// How many bytes the account takes.
    pub const LEN: usize = 8 + 8 + 8 + 8 + 1;
}

impl OraclePriceState {
    /// The stored form of the oracle account, followed by `tail`: the fields in the order of
    /// declaration.
    #[verifier::opaque]
    pub open spec fn encode(self, tail: Seq<u8>) -> Seq<u8> {
        self.discriminator@ + (
        le_bytes(self.sol_price_usd_micro_per_lamport as nat, 8) + (
        le_bytes(self.skr_price_usd_micro_per_atom as nat, 8) + (
        le_bytes(self.slice_price_usd_micro_per_atom as nat, 8) + (
        seq![self.bump] + tail))))
    }

    /// The stored form of the oracle account.
    pub open spec fn bytes(self) -> Seq<u8> {
        self.encode(Seq::empty())
    }

    /// What `data` is the stored form of.
    pub open spec fn decode(data: Seq<u8>) -> Option<OraclePriceState> {
        if exists|x: OraclePriceState| #[trigger] x.bytes() == data {
            Some(choose|x: OraclePriceState| #[trigger] x.bytes() == data)
        } else {
            None
        }
    }

    pub proof fn lemma_encode_len(self, tail: Seq<u8>)
        ensures
            self.encode(tail).len() == 33 + tail.len(),
    {
        reveal(OraclePriceState::encode);
        lemma_le_len(self.sol_price_usd_micro_per_lamport as nat, 8);
        lemma_le_len(self.skr_price_usd_micro_per_atom as nat, 8);
        lemma_le_len(self.slice_price_usd_micro_per_atom as nat, 8);
    }

    /// Data that begins with the oracle account says which one, and what follows it.
    pub proof fn law_encode_injective(self, tail: Seq<u8>, other: OraclePriceState, other_tail: Seq<u8>)
        requires
            self.encode(tail) == other.encode(other_tail),
        ensures
            self == other,
            tail == other_tail,
    {
        reveal(OraclePriceState::encode);
        let a4 = seq![self.bump] + tail;
        let a3 = le_bytes(self.slice_price_usd_micro_per_atom as nat, 8) + a4;
        let a2 = le_bytes(self.skr_price_usd_micro_per_atom as nat, 8) + a3;
        let a1 = le_bytes(self.sol_price_usd_micro_per_lamport as nat, 8) + a2;
        let b4 = seq![other.bump] + other_tail;
        let b3 = le_bytes(other.slice_price_usd_micro_per_atom as nat, 8) + b4;
        let b2 = le_bytes(other.skr_price_usd_micro_per_atom as nat, 8) + b3;
        let b1 = le_bytes(other.sol_price_usd_micro_per_lamport as nat, 8) + b2;
        lemma_split_array(self.discriminator, a1, other.discriminator, b1);
        lemma_split_u64(self.sol_price_usd_micro_per_lamport, a2, other.sol_price_usd_micro_per_lamport, b2);
        lemma_split_u64(self.skr_price_usd_micro_per_atom, a3, other.skr_price_usd_micro_per_atom, b3);
        lemma_split_u64(self.slice_price_usd_micro_per_atom, a4, other.slice_price_usd_micro_per_atom, b4);
        lemma_split(seq![self.bump], tail, seq![other.bump], other_tail);
        assert(seq![self.bump][0] == seq![other.bump][0]);
    }

    /// Reading the oracle account back gives what was stored.
    pub proof fn law_decode_bytes(self)
        ensures
            OraclePriceState::decode(self.bytes()) == Some(self),
            self.bytes().len() == 33,
    {
        let back = choose|x: OraclePriceState| #[trigger] x.bytes() == self.bytes();
        assert(self.bytes() == self.bytes());
        back.law_encode_injective(Seq::empty(), self, Seq::empty());
        self.lemma_encode_len(Seq::empty());
    }

    /// The stored form of the oracle account.
    pub fn serialize(&self) -> (r: Vec<u8>)
        ensures
            r@ == self.bytes(),
    {
        let mut out: Vec<u8> = Vec::new();
        write_array(&mut out, &self.discriminator);
        write_u64(&mut out, self.sol_price_usd_micro_per_lamport);
        write_u64(&mut out, self.skr_price_usd_micro_per_atom);
        write_u64(&mut out, self.slice_price_usd_micro_per_atom);
        write_u8(&mut out, self.bump);
        proof {
            reveal(OraclePriceState::encode);
            assert(out@ =~= self.bytes());
        }
        out
    }

    /// Reads the oracle account off the front of `data`, with what follows it.
    pub fn read<'a>(data: &'a [u8]) -> (r: Result<(OraclePriceState, &'a [u8]), ProgramError>)
        ensures
            match r {
                Ok((x, rest)) => data@ == x.encode(rest@),
                Err(e) => e == ProgramError::BorshIoError && forall|x: OraclePriceState, tail: Seq<u8>|
                    data@ != #[trigger] x.encode(tail),
            },
    {
        proof {
            reveal(OraclePriceState::encode);
            assert forall|x: OraclePriceState, tail: Seq<u8>| data@.len() < 33 implies data@ != #[trigger] x.encode(tail) by {
                x.lemma_encode_len(tail);
            }
        }
        if data.len() < 33 {
            return Err(ProgramError::BorshIoError);
        }
        let (discriminator, rest) = read_array::<8>(data)?;
        let (sol_price_usd_micro_per_lamport, rest) = read_u64(rest)?;
        proof { lemma_le_len(sol_price_usd_micro_per_lamport as nat, 8); }
        let (skr_price_usd_micro_per_atom, rest) = read_u64(rest)?;
        proof { lemma_le_len(skr_price_usd_micro_per_atom as nat, 8); }
        let (slice_price_usd_micro_per_atom, rest) = read_u64(rest)?;
        proof { lemma_le_len(slice_price_usd_micro_per_atom as nat, 8); }
        let (bump, rest) = read_u8(rest)?;
        Ok(
            (
                OraclePriceState {
                    discriminator,
                    sol_price_usd_micro_per_lamport,
                    skr_price_usd_micro_per_atom,
                    slice_price_usd_micro_per_atom,
                    bump,
                },
                rest,
            ),
        )
    }

    /// Reads the oracle account from `data` that holds nothing else.
    pub fn try_from_slice(data: &[u8]) -> (r: Result<OraclePriceState, ProgramError>)
        ensures
            match r {
                Ok(x) => OraclePriceState::decode(data@) == Some(x),
                Err(e) => OraclePriceState::decode(data@) is None && e == ProgramError::BorshIoError,
            },
    {
        match OraclePriceState::read(data) {
            Ok((x, rest)) => {
                if rest.len() == 0 {
                    proof {
                        assert(rest@ =~= Seq::<u8>::empty());
                        x.law_decode_bytes();
                    }
                    Ok(x)
                } else {
                    proof {
                        assert forall|y: OraclePriceState| #[trigger] y.bytes() != data@ by {
                            if y.bytes() == data@ {
                                x.law_encode_injective(rest@, y, Seq::empty());
                            }
                        }
                    }
                    Err(ProgramError::BorshIoError)
                }
            },
            Err(e) => Err(e),
        }
    }
}

} // verus!
