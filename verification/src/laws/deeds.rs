//! What the effects on the list amount to: who gives what to whom.
//!
//! A call to another program is read from its bytes, as that program reads it.

use crate::codec::{law_le_value, le_bytes, le_value, lemma_le_len, lemma_le_limits};
use crate::constants::{
    ASSOCIATED_TOKEN_PROGRAM_ID, ORACLE_DISCRIMINATOR, ORACLE_SEED, PROGRAM_ID,
    RANKED_GAME_DISCRIMINATOR, RANKED_GAME_SEED, SYSTEM_PROGRAM_ID, TOKEN_PROGRAM_ID,
};
use crate::cpi::{
    program_address, system_allocate, system_assign, system_create_account, system_transfer,
    token_account_creation, token_close_account, token_transfer, token_transfer_checked,
};
use crate::runtime::{Account, EffectView, InstructionView};
use crate::state::game::GameAccount;
use crate::state::oracle::OraclePriceState;
use crate::state::ranked_game::RankedGameState;
use crate::state::user_account::UserAccount;
use vstd::prelude::*;

verus! {

// ---------------------------------------------------------------------------
// Deeds
// ---------------------------------------------------------------------------

/// What one effect does. Addresses are bytes; the program's own accounts are
/// named by their position.
#[verifier::ext_equal]
pub enum Deed {
    /// Tokens go from one token account to another, on the authority of the owner
    /// of the first. Where the call names a mint and its decimals, they are given.
    Tokens {
        source: Seq<u8>,
        destination: Seq<u8>,
        authority: Seq<u8>,
        amount: nat,
        checked: Option<(Seq<u8>, u8)>,
    },
    /// A token account is closed; its lamports go to `rent_to`.
    CloseTokens { account: Seq<u8>, rent_to: Seq<u8>, authority: Seq<u8> },
    /// A token account is made; where there is one, the call fails, unless it is `lenient`.
    NewTokens {
        payer: Seq<u8>,
        address: Seq<u8>,
        wallet: Seq<u8>,
        mint: Seq<u8>,
        token_program: Seq<u8>,
        lenient: bool,
    },
    /// Lamports go from an account that signs to another.
    Lamports { from: Seq<u8>, to: Seq<u8>, lamports: nat },
    /// An account is made.
    NewAccount { payer: Seq<u8>, key: Seq<u8>, lamports: nat, space: nat, owner: Seq<u8> },
    /// An account gets `space` bytes.
    Allocate { key: Seq<u8>, space: nat },
    /// An account gets an owner.
    Assign { key: Seq<u8>, owner: Seq<u8> },
    /// The front of an account's data is overwritten.
    Write { at: usize, data: Seq<u8> },
    /// An account's data gets another length.
    Resize { at: usize, len: nat },
    /// An account's data is set to zero.
    Clear { at: usize },
    /// The program moves lamports out of an account of its own.
    Move { out_of: usize, into: usize, lamports: nat },
    /// The program moves all lamports out of an account of its own.
    Drain { out_of: usize, into: usize },
    /// A call of another kind.
    Other,
}

/// The number in eight bytes of `data` from `at` on.
pub open spec fn number_at(data: Seq<u8>, at: int) -> nat {
    le_value(data.subrange(at, at + 8))
}

/// What a call to the SPL Token program does.
pub open spec fn token_deed(ix: InstructionView) -> Deed {
    let a = ix.accounts;
    let d = ix.data;
    if d.len() == 9 && d[0] == 3 && a.len() == 3 && a[2].is_signer {
        Deed::Tokens {
            source: a[0].pubkey,
            destination: a[1].pubkey,
            authority: a[2].pubkey,
            amount: number_at(d, 1),
            checked: None,
        }
    } else if d.len() == 10 && d[0] == 12 && a.len() == 4 && a[3].is_signer {
        Deed::Tokens {
            source: a[0].pubkey,
            destination: a[2].pubkey,
            authority: a[3].pubkey,
            amount: number_at(d, 1),
            checked: Some((a[1].pubkey, d[9])),
        }
    } else if d.len() == 1 && d[0] == 9 && a.len() == 3 && a[2].is_signer {
        Deed::CloseTokens { account: a[0].pubkey, rent_to: a[1].pubkey, authority: a[2].pubkey }
    } else {
        Deed::Other
    }
}

/// What a call to the system program does.
pub open spec fn system_deed(ix: InstructionView) -> Deed {
    let a = ix.accounts;
    let d = ix.data;
    let kind = le_value(d.take(4));
    if kind == 2 && d.len() == 12 && a.len() == 2 && a[0].is_signer {
        Deed::Lamports { from: a[0].pubkey, to: a[1].pubkey, lamports: number_at(d, 4) }
    } else if kind == 0 && d.len() == 52 && a.len() == 2 && a[0].is_signer && a[1].is_signer {
        Deed::NewAccount {
            payer: a[0].pubkey,
            key: a[1].pubkey,
            lamports: number_at(d, 4),
            space: number_at(d, 12),
            owner: d.skip(20),
        }
    } else if kind == 8 && d.len() == 12 && a.len() == 1 && a[0].is_signer {
        Deed::Allocate { key: a[0].pubkey, space: number_at(d, 4) }
    } else if kind == 1 && d.len() == 36 && a.len() == 1 && a[0].is_signer {
        Deed::Assign { key: a[0].pubkey, owner: d.skip(4) }
    } else {
        Deed::Other
    }
}

/// What a call to the associated token account program does.
pub open spec fn associated_deed(ix: InstructionView) -> Deed {
    let a = ix.accounts;
    let d = ix.data;
    if d.len() == 1 && d[0] <= 1 && a.len() == 6 && a[0].is_signer {
        Deed::NewTokens {
            payer: a[0].pubkey,
            address: a[1].pubkey,
            wallet: a[2].pubkey,
            mint: a[3].pubkey,
            token_program: a[5].pubkey,
            lenient: d[0] == 1,
        }
    } else {
        Deed::Other
    }
}

/// What a call does.
pub open spec fn call_deed(ix: InstructionView) -> Deed {
    if ix.program_id == TOKEN_PROGRAM_ID@ {
        token_deed(ix)
    } else if ix.program_id == SYSTEM_PROGRAM_ID@ {
        system_deed(ix)
    } else if ix.program_id == ASSOCIATED_TOKEN_PROGRAM_ID@ {
        associated_deed(ix)
    } else {
        Deed::Other
    }
}

/// What an effect does.
#[verifier::opaque]
pub open spec fn deed(effect: EffectView) -> Deed {
    match effect {
        EffectView::Invoke { instruction, .. } => call_deed(instruction),
        EffectView::Store { account, data } => Deed::Write { at: account, data },
        EffectView::Resize { account, len } => Deed::Resize { at: account, len: len as nat },
        EffectView::ZeroData { account } => Deed::Clear { at: account },
        EffectView::MoveLamports { from, to, lamports } => Deed::Move {
                out_of: from,
                into: to,
                lamports: lamports as nat,
            },
        EffectView::DrainLamports { from, to } => Deed::Drain { out_of: from, into: to },
    }
}

/// What the effects on a list do, in order.
#[verifier::opaque]
pub open spec fn deeds(log: Seq<EffectView>) -> Seq<Deed> {
    log.map_values(|e: EffectView| deed(e))
}

/// Whether `after` is `before` with effects added that do just this, in this order.
pub open spec fn adds(before: Seq<EffectView>, after: Seq<EffectView>, done: Seq<Deed>) -> bool {
    deeds(after) == deeds(before) + done
}

pub broadcast proof fn lemma_deeds_push(log: Seq<EffectView>, e: EffectView)
    ensures
        #[trigger] deeds(log.push(e)) == deeds(log).push(deed(e)),
{
    reveal(deeds);
    assert(deeds(log.push(e)) =~= deeds(log).push(deed(e)));
}

proof fn lemma_number_at(front: Seq<u8>, n: u64, tail: Seq<u8>)
    ensures
        number_at(front + le_bytes(n as nat, 8) + tail, front.len() as int) == n,
{
    lemma_le_len(n as nat, 8);
    lemma_le_limits();
    law_le_value(n as nat, 8);
    let data = front + le_bytes(n as nat, 8) + tail;
    assert(data.subrange(front.len() as int, front.len() + 8int) =~= le_bytes(n as nat, 8));
}

proof fn lemma_kind(kind: nat, tail: Seq<u8>)
    requires
        kind < 256,
    ensures
        le_bytes(kind, 4).len() == 4,
        le_value((le_bytes(kind, 4) + tail).take(4)) == kind,
{
    lemma_le_len(kind, 4);
    lemma_le_limits();
    law_le_value(kind, 4);
    assert((le_bytes(kind, 4) + tail).take(4) =~= le_bytes(kind, 4));
}

proof fn lemma_programs_differ()
    ensures
        SYSTEM_PROGRAM_ID@ != TOKEN_PROGRAM_ID@,
        ASSOCIATED_TOKEN_PROGRAM_ID@ != TOKEN_PROGRAM_ID@,
        ASSOCIATED_TOKEN_PROGRAM_ID@ != SYSTEM_PROGRAM_ID@,
{
    assert(SYSTEM_PROGRAM_ID@[0] == 0 && TOKEN_PROGRAM_ID@[0] == 6 && ASSOCIATED_TOKEN_PROGRAM_ID@[0] == 140);
}

pub broadcast proof fn lemma_token_transfer(
    source: Seq<u8>,
    destination: Seq<u8>,
    authority: Seq<u8>,
    amount: u64,
    accounts: Seq<usize>,
    signer_seeds: Seq<Seq<u8>>,
)
    ensures
        #[trigger] deed(
            EffectView::Invoke {
                instruction: token_transfer(source, destination, authority, amount),
                accounts,
                signer_seeds,
            },
        ) == (Deed::Tokens { source, destination, authority, amount: amount as nat, checked: None }),
{
    reveal(deed);
    lemma_le_len(amount as nat, 8);
    lemma_number_at(seq![3u8], amount, Seq::empty());
    assert(seq![3u8] + le_bytes(amount as nat, 8) + Seq::empty() =~= seq![3u8] + le_bytes(amount as nat, 8));
}

pub broadcast proof fn lemma_token_transfer_checked(
    source: Seq<u8>,
    mint: Seq<u8>,
    destination: Seq<u8>,
    authority: Seq<u8>,
    amount: u64,
    decimals: u8,
    accounts: Seq<usize>,
    signer_seeds: Seq<Seq<u8>>,
)
    ensures
        #[trigger] deed(
            EffectView::Invoke {
                instruction: token_transfer_checked(source, mint, destination, authority, amount, decimals),
                accounts,
                signer_seeds,
            },
        ) == (Deed::Tokens {
            source,
            destination,
            authority,
            amount: amount as nat,
            checked: Some((mint, decimals)),
        }),
{
    reveal(deed);
    lemma_le_len(amount as nat, 8);
    lemma_number_at(seq![12u8], amount, seq![decimals]);
}

pub broadcast proof fn lemma_token_close(
    account: Seq<u8>,
    rent_to: Seq<u8>,
    authority: Seq<u8>,
    accounts: Seq<usize>,
    signer_seeds: Seq<Seq<u8>>,
)
    ensures
        #[trigger] deed(
            EffectView::Invoke {
                instruction: token_close_account(account, rent_to, authority),
                accounts,
                signer_seeds,
            },
        ) == (Deed::CloseTokens { account, rent_to, authority }),
{
    reveal(deed);
}

pub broadcast proof fn lemma_token_account_creation(
    payer: Seq<u8>,
    address: Seq<u8>,
    wallet: Seq<u8>,
    mint: Seq<u8>,
    token_program: Seq<u8>,
    tag: u8,
    accounts: Seq<usize>,
    signer_seeds: Seq<Seq<u8>>,
)
    requires
        tag <= 1,
    ensures
        #[trigger] deed(
            EffectView::Invoke {
                instruction: token_account_creation(payer, address, wallet, mint, token_program, tag),
                accounts,
                signer_seeds,
            },
        ) == (Deed::NewTokens { payer, address, wallet, mint, token_program, lenient: tag == 1 }),
{
    reveal(deed);
    lemma_programs_differ();
}

pub broadcast proof fn lemma_system_transfer(
    from: Seq<u8>,
    to: Seq<u8>,
    lamports: u64,
    accounts: Seq<usize>,
    signer_seeds: Seq<Seq<u8>>,
)
    ensures
        #[trigger] deed(
            EffectView::Invoke { instruction: system_transfer(from, to, lamports), accounts, signer_seeds },
        ) == (Deed::Lamports { from, to, lamports: lamports as nat }),
{
    reveal(deed);
    lemma_programs_differ();
    lemma_le_len(lamports as nat, 8);
    lemma_kind(2, le_bytes(lamports as nat, 8));
    lemma_number_at(le_bytes(2, 4), lamports, Seq::empty());
    assert(le_bytes(2, 4) + le_bytes(lamports as nat, 8) + Seq::empty() =~= le_bytes(2, 4) + le_bytes(
        lamports as nat,
        8,
    ));
}

pub broadcast proof fn lemma_system_create_account(
    payer: Seq<u8>,
    key: Seq<u8>,
    lamports: u64,
    space: u64,
    accounts: Seq<usize>,
    signer_seeds: Seq<Seq<u8>>,
)
    ensures
        #[trigger] deed(
            EffectView::Invoke {
                instruction: system_create_account(payer, key, lamports, space, PROGRAM_ID@),
                accounts,
                signer_seeds,
            },
        ) == (Deed::NewAccount {
            payer,
            key,
            lamports: lamports as nat,
            space: space as nat,
            owner: PROGRAM_ID@,
        }),
{
    reveal(deed);
    lemma_programs_differ();
    lemma_le_len(lamports as nat, 8);
    lemma_le_len(space as nat, 8);
    let ix = system_create_account(payer, key, lamports, space, PROGRAM_ID@);
    let kind = le_bytes(0, 4);
    let first = le_bytes(lamports as nat, 8);
    let second = le_bytes(space as nat, 8);
    lemma_kind(0, first + second + PROGRAM_ID@);
    assert(ix.data =~= kind + (first + second + PROGRAM_ID@));
    assert(ix.data =~= kind + first + (second + PROGRAM_ID@));
    lemma_number_at(kind, lamports, second + PROGRAM_ID@);
    lemma_number_at(kind + first, space, PROGRAM_ID@);
    assert(ix.data.skip(20) =~= PROGRAM_ID@);
}

pub broadcast proof fn lemma_system_allocate(
    key: Seq<u8>,
    space: u64,
    accounts: Seq<usize>,
    signer_seeds: Seq<Seq<u8>>,
)
    ensures
        #[trigger] deed(
            EffectView::Invoke { instruction: system_allocate(key, space), accounts, signer_seeds },
        ) == (Deed::Allocate { key, space: space as nat }),
{
    reveal(deed);
    lemma_programs_differ();
    lemma_le_len(space as nat, 8);
    lemma_kind(8, le_bytes(space as nat, 8));
    lemma_number_at(le_bytes(8, 4), space, Seq::empty());
    assert(le_bytes(8, 4) + le_bytes(space as nat, 8) + Seq::empty() =~= le_bytes(8, 4) + le_bytes(
        space as nat,
        8,
    ));
}

pub broadcast proof fn lemma_system_assign(key: Seq<u8>, accounts: Seq<usize>, signer_seeds: Seq<Seq<u8>>)
    ensures
        #[trigger] deed(
            EffectView::Invoke { instruction: system_assign(key, PROGRAM_ID@), accounts, signer_seeds },
        ) == (Deed::Assign { key, owner: PROGRAM_ID@ }),
{
    reveal(deed);
    lemma_programs_differ();
    lemma_kind(1, PROGRAM_ID@);
    assert((le_bytes(1, 4) + PROGRAM_ID@).skip(4) =~= PROGRAM_ID@);
}

pub broadcast proof fn lemma_own_deeds(effect: EffectView)
    requires
        !(effect is Invoke),
    ensures
        #[trigger] deed(effect) == (match effect {
            EffectView::Invoke { .. } => Deed::Other,
            EffectView::Store { account, data } => Deed::Write { at: account, data },
            EffectView::Resize { account, len } => Deed::Resize { at: account, len: len as nat },
            EffectView::ZeroData { account } => Deed::Clear { at: account },
            EffectView::MoveLamports { from, to, lamports } => Deed::Move {
                out_of: from,
                into: to,
                lamports: lamports as nat,
            },
            EffectView::DrainLamports { from, to } => Deed::Drain { out_of: from, into: to },
        }),
{
    reveal(deed);
}

pub broadcast group group_deeds {
    lemma_deeds_push,
    lemma_token_transfer,
    lemma_token_transfer_checked,
    lemma_token_close,
    lemma_token_account_creation,
    lemma_system_transfer,
    lemma_system_create_account,
    lemma_system_allocate,
    lemma_system_assign,
    lemma_own_deeds,
}

// ---------------------------------------------------------------------------
// Amounts
// ---------------------------------------------------------------------------

/// The part of `whole` that `bps` ten-thousandths make, without the rest.
pub open spec fn part(whole: nat, bps: u16) -> nat {
    whole * bps as nat / 10_000
}

/// What `lamports` are more than `floor`.
pub open spec fn above(lamports: u64, floor: u64) -> nat {
    if lamports > floor {
        (lamports - floor) as nat
    } else {
        0
    }
}

/// A number, or the largest of 64 bits if it is larger.
pub open spec fn capped(n: nat) -> u64 {
    if n <= u64::MAX {
        n as u64
    } else {
        u64::MAX
    }
}

/// The tokens that the data of a token account says it holds.
pub open spec fn balance(data: Seq<u8>) -> nat {
    number_at(data, 64)
}

/// The tokens that a token account holds; data too short to say so holds none.
pub open spec fn held(account: Account) -> nat {
    if account.data@.len() < 72 {
        0
    } else {
        balance(account.data@)
    }
}

/// What `amount` units are worth in millionths of a US dollar, where `one` units are
/// worth `price` of them, without the rest.
pub open spec fn worth(amount: nat, price: u64, one: nat) -> nat {
    amount * price as nat / one
}

/// The least number of units that are worth `usd_micro` millionths of a US dollar,
/// where `one` units are worth `price` of them.
pub open spec fn least_units(usd_micro: nat, price: nat, one: nat) -> nat {
    if usd_micro * one % price == 0 {
        usd_micro * one / price
    } else {
        usd_micro * one / price + 1
    }
}

/// `deed`, if the amount is not zero.
pub open spec fn unless_zero(amount: nat, deed: Deed) -> Seq<Deed> {
    if amount == 0 {
        Seq::empty()
    } else {
        seq![deed]
    }
}

// ---------------------------------------------------------------------------
// Addresses
// ---------------------------------------------------------------------------

/// Whether `key` is the address that the program derives from `seeds`.
pub open spec fn is_derived(key: Seq<u8>, seeds: Seq<Seq<u8>>) -> bool {
    match program_address(seeds, PROGRAM_ID@) {
        Some((address, _)) => address == key,
        None => false,
    }
}

/// The bump seed of the address that the program derives from `seeds`.
pub open spec fn derived_bump(seeds: Seq<Seq<u8>>) -> u8 {
    match program_address(seeds, PROGRAM_ID@) {
        Some((_, bump)) => bump,
        None => 0,
    }
}

/// The address of a wallet's token account for a mint, at a token program.
pub open spec fn tokens_address(wallet: Seq<u8>, mint: Seq<u8>, token_program: Seq<u8>) -> Option<Seq<u8>> {
    match program_address(seq![wallet, token_program, mint], ASSOCIATED_TOKEN_PROGRAM_ID@) {
        Some((address, _)) => Some(address),
        None => None,
    }
}

/// Whether `key` is a wallet's token account for a mint at the SPL Token program.
pub open spec fn keeps_tokens(key: Seq<u8>, wallet: Seq<u8>, mint: Seq<u8>) -> bool {
    tokens_address(wallet, mint, TOKEN_PROGRAM_ID@) == Some(key)
}

/// Whether an account is the oracle's and holds `oracle`.
pub open spec fn holds_oracle(account: Account, oracle: OraclePriceState) -> bool {
    &&& account.owner@ == PROGRAM_ID@
    &&& is_derived(account.key@, seq![ORACLE_SEED@])
    &&& OraclePriceState::decode(account.data@) == Some(oracle)
    &&& oracle.discriminator@ == ORACLE_DISCRIMINATOR@
}

/// Whether an account is a user's, in use, and holds `user`.
pub open spec fn holds_user(account: Account, user: UserAccount) -> bool {
    &&& account.owner@ == PROGRAM_ID@
    &&& UserAccount::decode(account.data@) == Some(user)
    &&& user.is_initialized
}

/// Whether an account is a game's, in use, and holds `game`.
pub open spec fn holds_game(account: Account, game: GameAccount) -> bool {
    &&& account.owner@ == PROGRAM_ID@
    &&& GameAccount::decode(account.data@) == Some(game)
    &&& game.is_initialized
}

/// Whether an account is that of the ranked game with this number and holds `ranked`.
pub open spec fn holds_ranked(account: Account, ranked_game_id: u64, ranked: RankedGameState) -> bool {
    &&& account.owner@ == PROGRAM_ID@
    &&& is_derived(account.key@, seq![RANKED_GAME_SEED@, le_bytes(ranked_game_id as nat, 8)])
    &&& RankedGameState::decode(account.data@) == Some(ranked)
    &&& ranked.discriminator@ == RANKED_GAME_DISCRIMINATOR@
}

/// Whether the first account is `key` and signs.
pub open spec fn signed_by(accounts: Seq<Account>, key: Seq<u8>) -> bool {
    accounts.len() > 0 && accounts[0].key@ == key && accounts[0].is_signer
}

} // verus!
