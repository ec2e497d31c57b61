//! Address derivation and the calls to other programs.

use crate::codec::{le_bytes, le_value};
use crate::constants::{
    Pubkey, ASSOCIATED_TOKEN_PROGRAM_ID, NO_KEY, SYSTEM_PROGRAM_ID, TOKEN_PROGRAM_ID,
};
use crate::error::ProgramError;
use crate::runtime::{seed_bytes, AccountMeta, Instruction, InstructionView, MetaView};
use solana_program::program_pack::Pack;
use vstd::prelude::*;

verus! {

// ---------------------------------------------------------------------------
// Derived addresses
// ---------------------------------------------------------------------------

/// The address that a program derives from seeds, with the bump seed that
/// makes it one: what `Pubkey::try_find_program_address` returns.
pub uninterp spec fn program_address(seeds: Seq<Seq<u8>>, program_id: Seq<u8>) -> Option<(Seq<u8>, u8)>;

/// `Pubkey::try_find_program_address` of the Solana SDK: the first bump seed,
/// from 255 down, with which the seeds hash to a point off the curve, and that
/// point. There is none if no bump seed does it, or if there are more than 15
/// seeds, or one of more than 32 bytes. What the address is, is not said here:
/// it is a hash. Off the curve it is never the address of 32 zero bytes, which
/// encode the point of the curve whose y coordinate is 0.
#[verifier::external_body]
pub(crate) fn try_find_program_address(seeds: &Vec<Vec<u8>>, program_id: &Pubkey) -> (r: Option<(Pubkey, u8)>)
    ensures
        match r {
            Some((key, bump)) => program_address(seed_bytes(seeds@), program_id@) == Some((key@, bump)) && key@
                != NO_KEY@,
            None => program_address(seed_bytes(seeds@), program_id@) is None,
        },
{
    let parts: Vec<&[u8]> = seeds.iter().map(|s| s.as_slice()).collect();
    let program = solana_program::pubkey::Pubkey::new_from_array(*program_id);
    solana_program::pubkey::Pubkey::try_find_program_address(
        &parts,
        &program,
    ).map(|(key, bump)| (key.to_bytes(), bump))
}

/// The address at which `token_program` keeps the tokens of one mint for one wallet.
pub open spec fn token_account_address(
    wallet: Seq<u8>,
    mint: Seq<u8>,
    token_program: Seq<u8>,
) -> Option<Seq<u8>> {
    match program_address(seq![wallet, token_program, mint], ASSOCIATED_TOKEN_PROGRAM_ID@) {
        Some((key, _)) => Some(key),
        None => None,
    }
}

/// The address at which the SPL Token program keeps the tokens of one mint for one wallet.
pub open spec fn associated_address(wallet: Seq<u8>, mint: Seq<u8>) -> Option<Seq<u8>> {
    token_account_address(wallet, mint, TOKEN_PROGRAM_ID@)
}

/// The bytes of `a` as a vector.
pub fn to_vec<const N: usize>(a: &[u8; N]) -> (r: Vec<u8>)
    ensures
        r@ == a@,
{
    let mut r: Vec<u8> = Vec::new();
    let mut i: usize = 0;
    while i < N
        invariant
            i <= N,
            r@ == a@.take(i as int),
        decreases N - i,
    {
        r.push(a[i]);
        assert(r@ =~= a@.take(i + 1));
        i += 1;
    }
    assert(a@.take(N as int) =~= a@);
    r
}

/// The address at which `token_program` keeps the tokens of one mint for one wallet.
pub fn get_associated_token_address_with_program_id(
    wallet: &Pubkey,
    mint: &Pubkey,
    token_program: &Pubkey,
) -> (r: Option<Pubkey>)
    ensures
        match r {
            Some(key) => token_account_address(wallet@, mint@, token_program@) == Some(key@),
            None => token_account_address(wallet@, mint@, token_program@) is None,
        },
{
    let seeds = vec![to_vec(wallet), to_vec(token_program), to_vec(mint)];
    assert(seed_bytes(seeds@) =~= seq![wallet@, token_program@, mint@]);
    match try_find_program_address(&seeds, &ASSOCIATED_TOKEN_PROGRAM_ID) {
        Some((key, _)) => Some(key),
        None => None,
    }
}

/// The address at which the SPL Token program keeps the tokens of one mint for one wallet.
pub fn get_associated_token_address(wallet: &Pubkey, mint: &Pubkey) -> (r: Option<Pubkey>)
    ensures
        match r {
            Some(key) => associated_address(wallet@, mint@) == Some(key@),
            None => associated_address(wallet@, mint@) is None,
        },
{
    get_associated_token_address_with_program_id(wallet, mint, &TOKEN_PROGRAM_ID)
}

// ---------------------------------------------------------------------------
// What the calls consist of
// ---------------------------------------------------------------------------

/// An account that a call may change.
pub open spec fn writable(pubkey: Seq<u8>, is_signer: bool) -> MetaView {
    MetaView { pubkey, is_signer, is_writable: true }
}

/// An account that a call only reads.
pub open spec fn readonly(pubkey: Seq<u8>, is_signer: bool) -> MetaView {
    MetaView { pubkey, is_signer, is_writable: false }
}

/// Moves lamports out of an account that signs.
pub open spec fn system_transfer(from: Seq<u8>, to: Seq<u8>, lamports: u64) -> InstructionView {
    InstructionView {
        program_id: SYSTEM_PROGRAM_ID@,
        accounts: seq![writable(from, true), writable(to, false)],
        data: le_bytes(2, 4) + le_bytes(lamports as nat, 8),
    }
}

/// Creates an account with data and an owner, paid by `from`.
pub open spec fn system_create_account(
    from: Seq<u8>,
    to: Seq<u8>,
    lamports: u64,
    space: u64,
    owner: Seq<u8>,
) -> InstructionView {
    InstructionView {
        program_id: SYSTEM_PROGRAM_ID@,
        accounts: seq![writable(from, true), writable(to, true)],
        data: le_bytes(0, 4) + le_bytes(lamports as nat, 8) + le_bytes(space as nat, 8) + owner,
    }
}

/// Gives an account data.
pub open spec fn system_allocate(key: Seq<u8>, space: u64) -> InstructionView {
    InstructionView {
        program_id: SYSTEM_PROGRAM_ID@,
        accounts: seq![writable(key, true)],
        data: le_bytes(8, 4) + le_bytes(space as nat, 8),
    }
}

/// Gives an account an owner.
pub open spec fn system_assign(key: Seq<u8>, owner: Seq<u8>) -> InstructionView {
    InstructionView {
        program_id: SYSTEM_PROGRAM_ID@,
        accounts: seq![writable(key, true)],
        data: le_bytes(1, 4) + owner,
    }
}

/// Moves tokens between token accounts, signed for by `authority`.
pub open spec fn token_transfer(
    source: Seq<u8>,
    destination: Seq<u8>,
    authority: Seq<u8>,
    amount: u64,
) -> InstructionView {
    InstructionView {
        program_id: TOKEN_PROGRAM_ID@,
        accounts: seq![writable(source, false), writable(destination, false), readonly(authority, true)],
        data: seq![3u8] + le_bytes(amount as nat, 8),
    }
}

/// Moves tokens between token accounts of a mint with the given decimals.
pub open spec fn token_transfer_checked(
    source: Seq<u8>,
    mint: Seq<u8>,
    destination: Seq<u8>,
    authority: Seq<u8>,
    amount: u64,
    decimals: u8,
) -> InstructionView {
    InstructionView {
        program_id: TOKEN_PROGRAM_ID@,
        accounts: seq![
            writable(source, false),
            readonly(mint, false),
            writable(destination, false),
            readonly(authority, true),
        ],
        data: seq![12u8] + le_bytes(amount as nat, 8) + seq![decimals],
    }
}

/// Closes a token account; its lamports go to `destination`.
pub open spec fn token_close_account(
    account: Seq<u8>,
    destination: Seq<u8>,
    owner: Seq<u8>,
) -> InstructionView {
    InstructionView {
        program_id: TOKEN_PROGRAM_ID@,
        accounts: seq![writable(account, false), writable(destination, false), readonly(owner, true)],
        data: seq![9u8],
    }
}

/// Creates the token account of `wallet` for `mint`, paid by `funder`; `tag` is
/// 0 to fail where it exists and 1 to leave it then.
pub open spec fn token_account_creation(
    funder: Seq<u8>,
    address: Seq<u8>,
    wallet: Seq<u8>,
    mint: Seq<u8>,
    token_program: Seq<u8>,
    tag: u8,
) -> InstructionView {
    InstructionView {
        program_id: ASSOCIATED_TOKEN_PROGRAM_ID@,
        accounts: seq![
            writable(funder, true),
            writable(address, false),
            readonly(wallet, false),
            readonly(mint, false),
            readonly(SYSTEM_PROGRAM_ID@, false),
            readonly(token_program, false),
        ],
        data: seq![tag],
    }
}

// ---------------------------------------------------------------------------
// Building the calls
// ---------------------------------------------------------------------------

/// `system_instruction::transfer` of the Solana SDK. The data is the number 2
/// of the system instruction in four bytes and the lamports in eight.
#[verifier::external_body]
pub(crate) fn create_transfer(from: &Pubkey, to: &Pubkey, lamports: u64) -> (r: Instruction)
    ensures
        r@ == system_transfer(from@, to@, lamports),
{
    let ix = solana_program::system_instruction::transfer(&(*from).into(), &(*to).into(), lamports);
    Instruction {
        program_id: ix.program_id.to_bytes(),
        accounts: ix.accounts.iter().map(
            |m| AccountMeta { pubkey: m.pubkey.to_bytes(), is_signer: m.is_signer, is_writable: m.is_writable },
        ).collect(),
        data: ix.data,
    }
}

/// `system_instruction::create_account` of the Solana SDK. The data is the
/// number 0 of the system instruction in four bytes, the lamports and the space
/// in eight each, and the owner.
#[verifier::external_body]
pub(crate) fn create_account_creation(
    from: &Pubkey,
    to: &Pubkey,
    lamports: u64,
    space: u64,
    owner: &Pubkey,
) -> (r: Instruction)
    ensures
        r@ == system_create_account(from@, to@, lamports, space, owner@),
{
    let ix = solana_program::system_instruction::create_account(
        &(*from).into(),
        &(*to).into(),
        lamports,
        space,
        &(*owner).into(),
    );
    Instruction {
        program_id: ix.program_id.to_bytes(),
        accounts: ix.accounts.iter().map(
            |m| AccountMeta { pubkey: m.pubkey.to_bytes(), is_signer: m.is_signer, is_writable: m.is_writable },
        ).collect(),
        data: ix.data,
    }
}

/// `system_instruction::allocate` of the Solana SDK. The data is the number 8 of
/// the system instruction in four bytes and the space in eight.
#[verifier::external_body]
pub(crate) fn create_allocate(key: &Pubkey, space: u64) -> (r: Instruction)
    ensures
        r@ == system_allocate(key@, space),
{
    let ix = solana_program::system_instruction::allocate(&(*key).into(), space);
    Instruction {
        program_id: ix.program_id.to_bytes(),
        accounts: ix.accounts.iter().map(
            |m| AccountMeta { pubkey: m.pubkey.to_bytes(), is_signer: m.is_signer, is_writable: m.is_writable },
        ).collect(),
        data: ix.data,
    }
}

/// `system_instruction::assign` of the Solana SDK. The data is the number 1 of
/// the system instruction in four bytes and the owner.
#[verifier::external_body]
pub(crate) fn create_assign(key: &Pubkey, owner: &Pubkey) -> (r: Instruction)
    ensures
        r@ == system_assign(key@, owner@),
{
    let ix = solana_program::system_instruction::assign(&(*key).into(), &(*owner).into());
    Instruction {
        program_id: ix.program_id.to_bytes(),
        accounts: ix.accounts.iter().map(
            |m| AccountMeta { pubkey: m.pubkey.to_bytes(), is_signer: m.is_signer, is_writable: m.is_writable },
        ).collect(),
        data: ix.data,
    }
}

/// `create_associated_token_account` of the associated token account
/// crate. It derives the address itself and panics where there is none, so the
/// address has to exist; the data is the one byte 0.
#[verifier::external_body]
pub(crate) fn create_token_account(
    funder: &Pubkey,
    wallet: &Pubkey,
    mint: &Pubkey,
    token_program: &Pubkey,
) -> (r: Instruction)
    requires
        token_account_address(wallet@, mint@, token_program@) is Some,
    ensures
        r@ == token_account_creation(
            funder@,
            token_account_address(wallet@, mint@, token_program@)->0,
            wallet@,
            mint@,
            token_program@,
            0,
        ),
{
    let ix = spl_associated_token_account::instruction::create_associated_token_account(
        &(*funder).into(),
        &(*wallet).into(),
        &(*mint).into(),
        &(*token_program).into(),
    );
    Instruction {
        program_id: ix.program_id.to_bytes(),
        accounts: ix.accounts.iter().map(
            |m| AccountMeta { pubkey: m.pubkey.to_bytes(), is_signer: m.is_signer, is_writable: m.is_writable },
        ).collect(),
        data: ix.data,
    }
}

/// `create_associated_token_account_idempotent` of the associated token account
/// crate. It derives the address itself and panics where there is none, so the
/// address has to exist; the data is the one byte 1.
#[verifier::external_body]
pub(crate) fn create_token_account_idempotent(
    funder: &Pubkey,
    wallet: &Pubkey,
    mint: &Pubkey,
    token_program: &Pubkey,
) -> (r: Instruction)
    requires
        token_account_address(wallet@, mint@, token_program@) is Some,
    ensures
        r@ == token_account_creation(
            funder@,
            token_account_address(wallet@, mint@, token_program@)->0,
            wallet@,
            mint@,
            token_program@,
            1,
        ),
{
    let ix = spl_associated_token_account::instruction::create_associated_token_account_idempotent(
        &(*funder).into(),
        &(*wallet).into(),
        &(*mint).into(),
        &(*token_program).into(),
    );
    Instruction {
        program_id: ix.program_id.to_bytes(),
        accounts: ix.accounts.iter().map(
            |m| AccountMeta { pubkey: m.pubkey.to_bytes(), is_signer: m.is_signer, is_writable: m.is_writable },
        ).collect(),
        data: ix.data,
    }
}

/// `transfer` of the SPL Token crate, without further signers. The data is the
/// byte 3 and the amount in eight bytes. It fails on any token program but the
/// SPL Token program and on nothing else; the error is left out.
#[verifier::external_body]
fn spl_transfer(
    token_program: &Pubkey,
    source: &Pubkey,
    destination: &Pubkey,
    authority: &Pubkey,
    amount: u64,
) -> (r: Option<Instruction>)
    ensures
        match r {
            Some(ix) => {
                token_program@ == TOKEN_PROGRAM_ID@ && ix@ == token_transfer(
                    source@,
                    destination@,
                    authority@,
                    amount,
                )
            },
            None => token_program@ != TOKEN_PROGRAM_ID@,
        },
{
    let ix = spl_token::instruction::transfer(
        &(*token_program).into(), &(*source).into(), &(*destination).into(), &(*authority).into(), &[], amount,
    ).ok()?;
    Some(Instruction {
        program_id: ix.program_id.to_bytes(),
        accounts: ix.accounts.iter().map(
            |m| AccountMeta { pubkey: m.pubkey.to_bytes(), is_signer: m.is_signer, is_writable: m.is_writable },
        ).collect(),
        data: ix.data,
    })
}

/// `transfer_checked` of the SPL Token crate, without further signers. The data
/// is the byte 12, the amount in eight bytes and the decimals. It fails on any
/// token program but the SPL Token program and on nothing else; the error is left out.
#[verifier::external_body]
fn spl_transfer_checked(
    token_program: &Pubkey,
    source: &Pubkey,
    mint: &Pubkey,
    destination: &Pubkey,
    authority: &Pubkey,
    amount: u64,
    decimals: u8,
) -> (r: Option<Instruction>)
    ensures
        match r {
            Some(ix) => {
                token_program@ == TOKEN_PROGRAM_ID@ && ix@ == token_transfer_checked(
                    source@,
                    mint@,
                    destination@,
                    authority@,
                    amount,
                    decimals,
                )
            },
            None => token_program@ != TOKEN_PROGRAM_ID@,
        },
{
    let ix = spl_token::instruction::transfer_checked(
        &(*token_program).into(), &(*source).into(), &(*mint).into(), &(*destination).into(),
        &(*authority).into(), &[], amount, decimals,
    ).ok()?;
    Some(Instruction {
        program_id: ix.program_id.to_bytes(),
        accounts: ix.accounts.iter().map(
            |m| AccountMeta { pubkey: m.pubkey.to_bytes(), is_signer: m.is_signer, is_writable: m.is_writable },
        ).collect(),
        data: ix.data,
    })
}

/// `close_account` of the SPL Token crate, without further signers. The data is
/// the byte 9. It fails on any token program but the SPL Token program and on
/// nothing else; the error is left out.
#[verifier::external_body]
fn spl_close_account(
    token_program: &Pubkey,
    account: &Pubkey,
    destination: &Pubkey,
    owner: &Pubkey,
) -> (r: Option<Instruction>)
    ensures
        match r {
            Some(ix) => {
                token_program@ == TOKEN_PROGRAM_ID@ && ix@ == token_close_account(
                    account@,
                    destination@,
                    owner@,
                )
            },
            None => token_program@ != TOKEN_PROGRAM_ID@,
        },
{
    let ix = spl_token::instruction::close_account(
        &(*token_program).into(),
        &(*account).into(),
        &(*destination).into(),
        &(*owner).into(),
        &[],
    ).ok()?;
    Some(Instruction {
        program_id: ix.program_id.to_bytes(),
        accounts: ix.accounts.iter().map(
            |m| AccountMeta { pubkey: m.pubkey.to_bytes(), is_signer: m.is_signer, is_writable: m.is_writable },
        ).collect(),
        data: ix.data,
    })
}

/// A transfer of tokens. Refused for any token program but the SPL Token program.
pub fn transfer(
    token_program: &Pubkey,
    source: &Pubkey,
    destination: &Pubkey,
    authority: &Pubkey,
    amount: u64,
) -> (r: Result<Instruction, ProgramError>)
    ensures
        match r {
            Ok(ix) => {
                token_program@ == TOKEN_PROGRAM_ID@ && ix@ == token_transfer(
                    source@,
                    destination@,
                    authority@,
                    amount,
                )
            },
            Err(e) => token_program@ != TOKEN_PROGRAM_ID@ && e == ProgramError::IncorrectProgramId,
        },
{
    match spl_transfer(token_program, source, destination, authority, amount) {
        Some(ix) => Ok(ix),
        None => Err(ProgramError::IncorrectProgramId),
    }
}

/// A transfer of tokens that names the mint and its decimals. Refused for any token program but the SPL Token program.
pub fn transfer_checked(
    token_program: &Pubkey,
    source: &Pubkey,
    mint: &Pubkey,
    destination: &Pubkey,
    authority: &Pubkey,
    amount: u64,
    decimals: u8,
) -> (r: Result<Instruction, ProgramError>)
    ensures
        match r {
            Ok(ix) => {
                token_program@ == TOKEN_PROGRAM_ID@ && ix@ == token_transfer_checked(
                    source@,
                    mint@,
                    destination@,
                    authority@,
                    amount,
                    decimals,
                )
            },
            Err(e) => token_program@ != TOKEN_PROGRAM_ID@ && e == ProgramError::IncorrectProgramId,
        },
{
    match spl_transfer_checked(token_program, source, mint, destination, authority, amount, decimals) {
        Some(ix) => Ok(ix),
        None => Err(ProgramError::IncorrectProgramId),
    }
}

/// The closing of a token account. Refused for any token program but the SPL Token program.
pub fn close_account(
    token_program: &Pubkey,
    account: &Pubkey,
    destination: &Pubkey,
    owner: &Pubkey,
) -> (r: Result<Instruction, ProgramError>)
    ensures
        match r {
            Ok(ix) => {
                token_program@ == TOKEN_PROGRAM_ID@ && ix@ == token_close_account(
                    account@,
                    destination@,
                    owner@,
                )
            },
            Err(e) => token_program@ != TOKEN_PROGRAM_ID@ && e == ProgramError::IncorrectProgramId,
        },
{
    match spl_close_account(token_program, account, destination, owner) {
        Some(ix) => Ok(ix),
        None => Err(ProgramError::IncorrectProgramId),
    }
}

// ---------------------------------------------------------------------------
// Token accounts
// ---------------------------------------------------------------------------

/// What the program reads of an SPL token account.
#[derive(Clone, Copy, Debug, PartialEq, Eq)]
pub struct TokenAccount {
    pub mint: Pubkey,
    pub owner: Pubkey,
    pub amount: u64,
}

/// Whether the four bytes from `at` on say that an optional field is absent or present.
pub open spec fn option_tag(data: Seq<u8>, at: int) -> bool {
    data[at] <= 1 && data[at + 1] == 0 && data[at + 2] == 0 && data[at + 3] == 0
}

/// Whether `data` is that of an SPL token account in use: of 165 bytes, with
/// proper tags for the delegate, the native reserve and the close authority,
/// and in a state that is initialized or frozen.
pub open spec fn is_token_account(data: Seq<u8>) -> bool {
    &&& data.len() == 165
    &&& option_tag(data, 72)
    &&& (data[108] == 1 || data[108] == 2)
    &&& option_tag(data, 109)
    &&& option_tag(data, 129)
}

/// Whether `data` is that of an SPL token account that was not initialized.
pub open spec fn is_unused_token_account(data: Seq<u8>) -> bool {
    data.len() == 165 && data[108] == 0
}

/// The mint in the data of a token account.
pub open spec fn token_mint(data: Seq<u8>) -> Seq<u8> {
    data.subrange(0, 32)
}

/// The owner in the data of a token account.
pub open spec fn token_owner(data: Seq<u8>) -> Seq<u8> {
    data.subrange(32, 64)
}

/// The amount in the data of a token account.
pub open spec fn token_amount(data: Seq<u8>) -> nat {
    le_value(data.subrange(64, 72))
}

/// `Account::unpack` of the SPL Token crate: it reads the mint, the owner and
/// the amount from their places and fails on data that is not of a token
/// account in use.
#[verifier::external_body]
fn spl_unpack(data: &[u8]) -> (r: Option<TokenAccount>)
    ensures
        match r {
            Some(t) => is_token_account(data@) && t.mint@ == token_mint(data@) && t.owner@ == token_owner(data@)
                && t.amount == token_amount(data@),
            None => !is_token_account(data@),
        },
{
    let state = spl_token::state::Account::unpack(data).ok()?;
    Some(TokenAccount { mint: state.mint.to_bytes(), owner: state.owner.to_bytes(), amount: state.amount })
}

/// Reads the data of a token account.
pub fn unpack_token_account(data: &[u8]) -> (r: Result<TokenAccount, ProgramError>)
    ensures
        match r {
            Ok(t) => is_token_account(data@) && t.mint@ == token_mint(data@) && t.owner@ == token_owner(data@)
                && t.amount == token_amount(data@),
            Err(e) => !is_token_account(data@) && e == ProgramError::InvalidAccountData,
        },
{
    match spl_unpack(data) {
        Some(t) => Ok(t),
        None => Err(ProgramError::InvalidAccountData),
    }
}

} // verus!
