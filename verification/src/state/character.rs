//! The account of a character.

use crate::codec::{
    flag_byte, i64_bits, le_bytes, lemma_le_len, lemma_split, lemma_split_array, lemma_split_i64,
    lemma_split_option_key, lemma_split_text, lemma_split_u32, option_key_bytes, read_array,
    read_bool, read_i64, read_option_key, read_text, read_u32, read_u8, text_bytes, text_fits,
    write_array, write_bool, write_i64, write_option_key, write_text, write_u32, write_u8,
};
use crate::constants::Pubkey;
use crate::error::ProgramError;
use vstd::prelude::*;
use vstd::utf8::encode_utf8;

verus! {

/// The length of a character's name.
pub const CHARACTER_NAME_MAX_LEN: usize = 32;

/// The data of a character's account, at the address derived from
/// `"character"`, the owner's wallet and the character's name.
#[derive(Clone, Debug)]
pub struct CharacterAccount {
    pub is_initialized: bool,
    pub version: u8,
    pub owner_wallet: Pubkey,
    /// Unix timestamp set at creation.
    pub creation_date: i64,
    pub character_name: String,
    pub level: u32,
    pub ranked_games_played: u32,
    pub ranked_games_won: u32,
    /// The ranked game while the character is enrolled in one.
    pub current_ranked_game: Option<Pubkey>,
}

impl CharacterAccount {
    /// How many bytes the account takes at most: the flag, the version, the
    /// wallet, the date, the name with the four bytes of its length, the level,
    /// the two counts, and the ranked game with the tag of its option.
    pub const MAX_SIZE: usize = 1 + 1 + 32 + 8 + 4 + CHARACTER_NAME_MAX_LEN + 4 + 4 + 4 + 1 + 32;
}

/// Model of [`CharacterAccount`].
#[verifier::ext_equal]
pub struct CharacterView {
    pub is_initialized: bool,
    pub version: u8,
    pub owner_wallet: Pubkey,
    pub creation_date: i64,
    pub character_name: Seq<char>,
    pub level: u32,
    pub ranked_games_played: u32,
    pub ranked_games_won: u32,
    pub current_ranked_game: Option<Pubkey>,
}

impl View for CharacterAccount {
    type V = CharacterView;

    open spec fn view(&self) -> CharacterView {
        CharacterView {
            is_initialized: self.is_initialized,
            version: self.version,
            owner_wallet: self.owner_wallet,
            creation_date: self.creation_date,
            character_name: self.character_name@,
            level: self.level,
            ranked_games_played: self.ranked_games_played,
            ranked_games_won: self.ranked_games_won,
            current_ranked_game: self.current_ranked_game,
        }
    }
}

impl CharacterView {
    /// Whether the character has a stored form: the length of its name can be
    /// written down.
    pub open spec fn fits(self) -> bool {
        text_fits(self.character_name)
    }

    /// The fields in front of the name, in the order of declaration.
    #[verifier::opaque]
    pub open spec fn front(self) -> Seq<u8> {
        seq![flag_byte(self.is_initialized)] + (
        seq![self.version] + (
        self.owner_wallet@ + le_bytes(i64_bits(self.creation_date), 8)))
    }

    /// The numbers behind the name, in the order of declaration.
    #[verifier::opaque]
    pub open spec fn counts(self) -> Seq<u8> {
        le_bytes(self.level as nat, 4) + (
        le_bytes(self.ranked_games_played as nat, 4) +
        le_bytes(self.ranked_games_won as nat, 4))
    }

    /// The stored form of a character, followed by `tail`: the fields in the order of
    /// declaration.
    #[verifier::opaque]
    pub open spec fn encode(self, tail: Seq<u8>) -> Seq<u8> {
        self.front() + (
        text_bytes(self.character_name) + (
        self.counts() + (
        option_key_bytes(self.current_ranked_game) + tail)))
    }

    /// The stored form of a character.
    pub open spec fn bytes(self) -> Seq<u8> {
        self.encode(Seq::empty())
    }

    /// What `data` is the stored form of.
    pub open spec fn decode(data: Seq<u8>) -> Option<CharacterView> {
        if exists|x: CharacterView| x.fits() && #[trigger] x.bytes() == data {
            Some(choose|x: CharacterView| x.fits() && #[trigger] x.bytes() == data)
        } else {
            None
        }
    }

    pub proof fn lemma_front_len(self)
        ensures
            self.front().len() == 42,
            self.front()[0] == flag_byte(self.is_initialized),
    {
        reveal(CharacterView::front);
        lemma_le_len(i64_bits(self.creation_date), 8);
    }

    pub proof fn lemma_counts_len(self)
        ensures
            self.counts().len() == 12,
    {
        reveal(CharacterView::counts);
        lemma_le_len(self.level as nat, 4);
        lemma_le_len(self.ranked_games_played as nat, 4);
        lemma_le_len(self.ranked_games_won as nat, 4);
    }

    pub proof fn lemma_front_injective(self, other: CharacterView)
        requires
            self.front() == other.front(),
        ensures
            self.is_initialized == other.is_initialized,
            self.version == other.version,
            self.owner_wallet == other.owner_wallet,
            self.creation_date == other.creation_date,
    {
        reveal(CharacterView::front);
        let none = Seq::<u8>::empty();
        let a3 = le_bytes(i64_bits(self.creation_date), 8);
        let a2 = self.owner_wallet@ + a3;
        let a1 = seq![self.version] + a2;
        let b3 = le_bytes(i64_bits(other.creation_date), 8);
        let b2 = other.owner_wallet@ + b3;
        let b1 = seq![other.version] + b2;
        lemma_split(seq![flag_byte(self.is_initialized)], a1, seq![flag_byte(other.is_initialized)], b1);
        assert(seq![flag_byte(self.is_initialized)][0] == seq![flag_byte(other.is_initialized)][0]);
        lemma_split(seq![self.version], a2, seq![other.version], b2);
        assert(seq![self.version][0] == seq![other.version][0]);
        lemma_split_array(self.owner_wallet, a3, other.owner_wallet, b3);
        assert(a3 + none =~= b3 + none);
        lemma_split_i64(self.creation_date, none, other.creation_date, none);
    }

    pub proof fn lemma_counts_injective(self, other: CharacterView)
        requires
            self.counts() == other.counts(),
        ensures
            self.level == other.level,
            self.ranked_games_played == other.ranked_games_played,
            self.ranked_games_won == other.ranked_games_won,
    {
        reveal(CharacterView::counts);
        let none = Seq::<u8>::empty();
        let a2 = le_bytes(self.ranked_games_won as nat, 4);
        let a1 = le_bytes(self.ranked_games_played as nat, 4) + a2;
        let b2 = le_bytes(other.ranked_games_won as nat, 4);
        let b1 = le_bytes(other.ranked_games_played as nat, 4) + b2;
        lemma_split_u32(self.level, a1, other.level, b1);
        lemma_split_u32(self.ranked_games_played, a2, other.ranked_games_played, b2);
        assert(a2 + none =~= b2 + none);
        lemma_split_u32(self.ranked_games_won, none, other.ranked_games_won, none);
    }

    /// Data that begins with a character says which one, and what follows it.
    pub proof fn law_encode_injective(self, tail: Seq<u8>, other: CharacterView, other_tail: Seq<u8>)
        requires
            self.fits(),
            other.fits(),
            self.encode(tail) == other.encode(other_tail),
        ensures
            self == other,
            tail == other_tail,
    {
        reveal(CharacterView::encode);
        let a3 = option_key_bytes(self.current_ranked_game) + tail;
        let a2 = self.counts() + a3;
        let a1 = text_bytes(self.character_name) + a2;
        let b3 = option_key_bytes(other.current_ranked_game) + other_tail;
        let b2 = other.counts() + b3;
        let b1 = text_bytes(other.character_name) + b2;
        self.lemma_front_len();
        other.lemma_front_len();
        lemma_split(self.front(), a1, other.front(), b1);
        self.lemma_front_injective(other);
        lemma_split_text(self.character_name, a2, other.character_name, b2);
        self.lemma_counts_len();
        other.lemma_counts_len();
        lemma_split(self.counts(), a3, other.counts(), b3);
        self.lemma_counts_injective(other);
        lemma_split_option_key(self.current_ranked_game, tail, other.current_ranked_game, other_tail);
    }

    /// Reading a character back gives what was stored.
    pub proof fn law_decode_bytes(self)
        requires
            self.fits(),
        ensures
            CharacterView::decode(self.bytes()) == Some(self),
    {
        assert(self.bytes() == self.bytes());
        let back = choose|x: CharacterView| x.fits() && #[trigger] x.bytes() == self.bytes();
        back.law_encode_injective(Seq::empty(), self, Seq::empty());
    }

    /// A character whose name is no longer than a name may be takes no more bytes
    /// than its account has, and all of them if the name is that long and the
    /// character is enrolled.
    pub proof fn law_size(self)
        ensures
            self.bytes().len() == 59 + encode_utf8(self.character_name).len() + (
            if self.current_ranked_game is Some { 32int } else { 0 }),
            encode_utf8(self.character_name).len() <= CHARACTER_NAME_MAX_LEN ==> self.bytes().len()
                <= CharacterAccount::MAX_SIZE,
    {
        reveal(CharacterView::encode);
        self.lemma_front_len();
        self.lemma_counts_len();
        lemma_le_len(encode_utf8(self.character_name).len(), 4);
    }
}

impl CharacterAccount {
    /// The stored form of a character. There is none if the length of the name
    /// does not fit in four bytes.
    pub fn serialize(&self) -> (r: Result<Vec<u8>, ProgramError>)
        ensures
            match r {
                Ok(bytes) => self@.fits() && bytes@ == self@.bytes(),
                Err(e) => !self@.fits() && e == ProgramError::BorshIoError,
            },
    {
        let mut out: Vec<u8> = Vec::new();
        write_bool(&mut out, self.is_initialized);
        write_u8(&mut out, self.version);
        write_array(&mut out, &self.owner_wallet);
        write_i64(&mut out, self.creation_date);
        proof {
            reveal(CharacterView::front);
            assert(out@ =~= self@.front());
        }
        write_text(&mut out, &self.character_name)?;
        write_u32(&mut out, self.level);
        write_u32(&mut out, self.ranked_games_played);
        write_u32(&mut out, self.ranked_games_won);
        write_option_key(&mut out, &self.current_ranked_game);
        proof {
            reveal(CharacterView::counts);
            reveal(CharacterView::encode);
            assert(out@ =~= self@.bytes());
        }
        Ok(out)
    }

    /// Reads a character off the front of `data`, with what follows it.
    pub fn read<'a>(data: &'a [u8]) -> (r: Result<(CharacterAccount, &'a [u8]), ProgramError>)
        ensures
            match r {
                Ok((x, rest)) => x@.fits() && data@ == x@.encode(rest@),
                Err(e) => e == ProgramError::BorshIoError && forall|x: CharacterView, tail: Seq<u8>|
                    x.fits() ==> data@ != #[trigger] x.encode(tail),
            },
    {
        proof {
            reveal(CharacterView::encode);
            assert forall|x: CharacterView, tail: Seq<u8>| data@ == #[trigger] x.encode(tail) implies data@.len()
                >= 42 && data@[0] <= 1 by {
                x.lemma_front_len();
            }
        }
        if data.len() < 42 {
            return Err(ProgramError::BorshIoError);
        }
        let (is_initialized, rest) = read_bool(data)?;
        let (version, rest) = read_u8(rest)?;
        let (owner_wallet, rest) = read_array::<32>(rest)?;
        let (creation_date, rest) = read_i64(rest)?;
        let ghost front = seq![flag_byte(is_initialized)] + (seq![version] + (owner_wallet@ + le_bytes(
            i64_bits(creation_date),
            8,
        )));
        let ghost named = rest@;
        proof {
            lemma_le_len(i64_bits(creation_date), 8);
            assert(data@ =~= front + named);
            assert forall|x: CharacterView, tail: Seq<u8>| data@ == #[trigger] x.encode(tail) implies named
                == text_bytes(x.character_name) + (x.counts() + (option_key_bytes(x.current_ranked_game) + tail)) by {
                x.lemma_front_len();
                lemma_split(
                    front,
                    named,
                    x.front(),
                    text_bytes(x.character_name) + (x.counts() + (option_key_bytes(x.current_ranked_game) + tail)),
                );
            }
        }
        let (character_name, rest) = read_text(rest)?;
        let ghost counted = rest@;
        proof {
            assert forall|x: CharacterView, tail: Seq<u8>|
                x.fits() && data@ == #[trigger] x.encode(tail) implies counted == x.counts() + (option_key_bytes(
                x.current_ranked_game,
            ) + tail) && counted.len() >= 12 by {
                x.lemma_counts_len();
                lemma_split_text(
                    character_name@,
                    counted,
                    x.character_name,
                    x.counts() + (option_key_bytes(x.current_ranked_game) + tail),
                );
            }
        }
        if rest.len() < 12 {
            return Err(ProgramError::BorshIoError);
        }
        let (level, rest) = read_u32(rest)?;
        proof { lemma_le_len(level as nat, 4); }
        let (ranked_games_played, rest) = read_u32(rest)?;
        proof { lemma_le_len(ranked_games_played as nat, 4); }
        let (ranked_games_won, rest) = read_u32(rest)?;
        let ghost counts = le_bytes(level as nat, 4) + (le_bytes(ranked_games_played as nat, 4) + le_bytes(
            ranked_games_won as nat,
            4,
        ));
        let ghost enrolled = rest@;
        proof {
            lemma_le_len(ranked_games_won as nat, 4);
            assert(counted =~= counts + enrolled);
            assert forall|x: CharacterView, tail: Seq<u8>|
                x.fits() && data@ == #[trigger] x.encode(tail) implies enrolled == option_key_bytes(
                x.current_ranked_game,
            ) + tail by {
                x.lemma_counts_len();
                lemma_split(counts, enrolled, x.counts(), option_key_bytes(x.current_ranked_game) + tail);
            }
        }
        let (current_ranked_game, rest) = read_option_key(rest)?;
        let x = CharacterAccount {
            is_initialized,
            version,
            owner_wallet,
            creation_date,
            character_name,
            level,
            ranked_games_played,
            ranked_games_won,
            current_ranked_game,
        };
        proof {
            reveal(CharacterView::front);
            reveal(CharacterView::counts);
            assert(data@ =~= x@.encode(rest@));
        }
        Ok((x, rest))
    }

    /// Reads a character from `data` that holds nothing else.
    pub fn try_from_slice(data: &[u8]) -> (r: Result<CharacterAccount, ProgramError>)
        ensures
            match r {
                Ok(x) => x@.fits() && CharacterView::decode(data@) == Some(x@),
                Err(e) => CharacterView::decode(data@) is None && e == ProgramError::BorshIoError,
            },
    {
        match CharacterAccount::read(data) {
            Ok((x, rest)) => {
                if rest.len() == 0 {
                    proof {
                        assert(rest@ =~= Seq::<u8>::empty());
                        x@.law_decode_bytes();
                    }
                    Ok(x)
                } else {
                    proof {
                        assert forall|y: CharacterView| y.fits() implies #[trigger] y.bytes() != data@ by {
                            if y.bytes() == data@ {
                                x@.law_encode_injective(rest@, y, Seq::empty());
                            }
                        }
                    }
                    Err(ProgramError::BorshIoError)
                }
            },
            Err(e) => Err(e),
        }
    }
}

} // verus!
