//! What the runtime hands to the program, and what the program asks of it.
//!
//! A handler reads the accounts as they stand when the instruction starts and
//! lists what is to be done. Where one account stands at several positions and an
//! effect listed before has created or closed it, the handler goes by that. The
//! effects are carried out in order; if one of them fails, its error is the
//! instruction's error, and if none does, the handler's own result is. An instruction that ends in an error changes
//! nothing on the chain.

use crate::constants::Pubkey;
use crate::error::ProgramError;
use vstd::prelude::*;

verus! {

/// An account as it stands when the instruction starts.
pub struct Account {
    pub key: Pubkey,
    /// The program that owns the account.
    pub owner: Pubkey,
    pub lamports: u64,
    pub data: Vec<u8>,
    pub is_signer: bool,
    /// What the rent sysvar asks for an account with as many bytes as `data`.
    pub rent_floor: u64,
}

/// What the rent sysvar asks for accounts that the program creates.
#[derive(Clone, Copy, Debug, PartialEq, Eq, Structural)]
pub struct RentFloors {
    /// For an account without data.
    pub empty: u64,
    /// For `GameAccount::MAX_SIZE` bytes.
    pub game: u64,
    /// For `UserAccount::MAX_SIZE` bytes.
    pub user: u64,
    /// For `RankedGameState::LEN` bytes.
    pub ranked_game: u64,
    /// For `OraclePriceState::LEN` bytes.
    pub oracle: u64,
}

/// What the runtime hands to the program beside the instruction's data.
pub struct Invocation {
    /// The accounts, in the order in which the instruction names them.
    pub accounts: Vec<Account>,
    /// What reading the rent sysvar gives. Where it fails, the `rent_floor` of
    /// the accounts means nothing.
    pub rent: Result<RentFloors, ProgramError>,
}

/// How an account takes part in a call to another program.
#[derive(Clone, Copy, Debug, PartialEq, Eq)]
pub struct AccountMeta {
    pub pubkey: Pubkey,
    pub is_signer: bool,
    pub is_writable: bool,
}

/// A call to another program.
pub struct Instruction {
    pub program_id: Pubkey,
    pub accounts: Vec<AccountMeta>,
    pub data: Vec<u8>,
}

/// Something that the program asks the runtime to do. Accounts are named by
/// their position in the invocation.
pub enum Effect {
    /// Call another program with the given accounts. The program signs for the
    /// address that `signer_seeds` derive; without seeds it signs for none.
    Invoke { instruction: Instruction, accounts: Vec<usize>, signer_seeds: Vec<Vec<u8>> },
    /// Overwrite the front of the account's data.
    Store { account: usize, data: Vec<u8> },
    /// Give the account's data another length.
    Resize { account: usize, len: usize },
    /// Set every byte of the account's data to zero.
    ZeroData { account: usize },
    /// Take lamports from one account and give them to another.
    MoveLamports { from: usize, to: usize, lamports: u64 },
    /// Give all lamports that one account holds to another.
    DrainLamports { from: usize, to: usize },
}

/// The effects that a handler has listed so far.
pub struct Effects {
    pub list: Vec<Effect>,
}

/// Model of [`AccountMeta`].
#[verifier::ext_equal]
pub struct MetaView {
    pub pubkey: Seq<u8>,
    pub is_signer: bool,
    pub is_writable: bool,
}

/// Model of [`Instruction`].
#[verifier::ext_equal]
pub struct InstructionView {
    pub program_id: Seq<u8>,
    pub accounts: Seq<MetaView>,
    pub data: Seq<u8>,
}

/// Model of [`Effect`].
#[verifier::ext_equal]
pub enum EffectView {
    Invoke { instruction: InstructionView, accounts: Seq<usize>, signer_seeds: Seq<Seq<u8>> },
    Store { account: usize, data: Seq<u8> },
    Resize { account: usize, len: usize },
    ZeroData { account: usize },
    MoveLamports { from: usize, to: usize, lamports: u64 },
    DrainLamports { from: usize, to: usize },
}

/// What a handler leaves behind: the effects listed, and its result.
pub type Outcome = (Seq<EffectView>, Result<(), ProgramError>);

/// What paying from a pool leaves behind: the effects listed, and what was paid
/// in millionths of a US dollar.
pub type Payout = (Seq<EffectView>, Result<u64, ProgramError>);

impl View for AccountMeta {
    type V = MetaView;

    open spec fn view(&self) -> MetaView {
        MetaView { pubkey: self.pubkey@, is_signer: self.is_signer, is_writable: self.is_writable }
    }
}

impl View for Instruction {
    type V = InstructionView;

    open spec fn view(&self) -> InstructionView {
        InstructionView {
            program_id: self.program_id@,
            accounts: self.accounts@.map_values(|m: AccountMeta| m@),
            data: self.data@,
        }
    }
}

/// The bytes of each seed.
pub open spec fn seed_bytes(seeds: Seq<Vec<u8>>) -> Seq<Seq<u8>> {
    seeds.map_values(|s: Vec<u8>| s@)
}

impl View for Effect {
    type V = EffectView;

    open spec fn view(&self) -> EffectView {
        match *self {
            Effect::Invoke { instruction, accounts, signer_seeds } => EffectView::Invoke {
                instruction: instruction@,
                accounts: accounts@,
                signer_seeds: seed_bytes(signer_seeds@),
            },
            Effect::Store { account, data } => EffectView::Store { account, data: data@ },
            Effect::Resize { account, len } => EffectView::Resize { account, len },
            Effect::ZeroData { account } => EffectView::ZeroData { account },
            Effect::MoveLamports { from, to, lamports } => EffectView::MoveLamports { from, to, lamports },
            Effect::DrainLamports { from, to } => EffectView::DrainLamports { from, to },
        }
    }
}

impl View for Effects {
    type V = Seq<EffectView>;

    open spec fn view(&self) -> Seq<EffectView> {
        self.list@.map_values(|e: Effect| e@)
    }
}

/// The effect of an unsigned call.
pub open spec fn call(instruction: InstructionView, accounts: Seq<usize>) -> EffectView {
    EffectView::Invoke { instruction, accounts, signer_seeds: Seq::empty() }
}

/// The effect of a call that the program signs with `signer_seeds`.
pub open spec fn signed_call(
    instruction: InstructionView,
    accounts: Seq<usize>,
    signer_seeds: Seq<Seq<u8>>,
) -> EffectView {
    EffectView::Invoke { instruction, accounts, signer_seeds }
}

/// A refusal after the effects `log`.
pub open spec fn refuse(log: Seq<EffectView>, e: ProgramError) -> Outcome {
    (log, Err(e))
}

/// Success after the effects `log`.
pub open spec fn accept(log: Seq<EffectView>) -> Outcome {
    (log, Ok(()))
}

/// Writing `bytes` to an account with room for `room` bytes: refused if they
/// do not fit.
pub open spec fn store_outcome(account: usize, room: nat, bytes: Seq<u8>, log: Seq<EffectView>) -> Outcome {
    if bytes.len() > room {
        refuse(log, ProgramError::BorshIoError)
    } else {
        accept(log.push(EffectView::Store { account, data: bytes }))
    }
}

/// The data of an account after `bytes` were stored over its front.
pub open spec fn stored(data: Seq<u8>, bytes: Seq<u8>) -> Seq<u8> {
    bytes + data.skip(bytes.len() as int)
}

impl Effects {
    /// No effects.
    pub fn new() -> (r: Effects)
        ensures
            r@ == Seq::<EffectView>::empty(),
    {
        let r = Effects { list: Vec::new() };
        assert(r@ =~= Seq::<EffectView>::empty());
        r
    }

    /// Lists one more effect.
    pub fn record(&mut self, effect: Effect)
        ensures
            final(self)@ == old(self)@.push(effect@),
    {
        self.list.push(effect);
        assert(self@ =~= old(self)@.push(effect@));
    }

    /// Lists an unsigned call.
    pub fn invoke(&mut self, instruction: Instruction, accounts: Vec<usize>)
        ensures
            final(self)@ == old(self)@.push(call(instruction@, accounts@)),
    {
        let signer_seeds: Vec<Vec<u8>> = Vec::new();
        assert(seed_bytes(signer_seeds@) =~= Seq::<Seq<u8>>::empty());
        self.record(Effect::Invoke { instruction, accounts, signer_seeds });
    }

    /// Lists a call that the program signs.
    pub fn invoke_signed(
        &mut self,
        instruction: Instruction,
        accounts: Vec<usize>,
        signer_seeds: Vec<Vec<u8>>,
    )
        ensures
            final(self)@ == old(self)@.push(signed_call(instruction@, accounts@, seed_bytes(signer_seeds@))),
    {
        self.record(Effect::Invoke { instruction, accounts, signer_seeds });
    }

    /// Lists a write to an account with room for `room` bytes.
    pub fn store(&mut self, account: usize, room: usize, bytes: Vec<u8>) -> (r: Result<(), ProgramError>)
        ensures
            (final(self)@, r) == store_outcome(account, room as nat, bytes@, old(self)@),
    {
        if bytes.len() > room {
            return Err(ProgramError::BorshIoError);
        }
        self.record(Effect::Store { account, data: bytes });
        Ok(())
    }
}

} // verus!
