//! Address derivation, fee arithmetic and the checks that handlers share.

use crate::codec::{le_bytes, lemma_le_injective, lemma_le_limits, u64_to_le};
use crate::constants::{
    same_bytes, same_key, PaymentToken, Pubkey, AUTHORITY, GAME_PROTOCOL_SEED, GAME_SEED,
    MIN_GAME_TO_PROTOCOL_SHARE_BPS, NO_KEY, ORACLE_DISCRIMINATOR, ORACLE_SEED, PROGRAM_ID, RANKED_GAME_SEED,
    TOKEN_PROGRAM_ID, USER_SEED,
};
use crate::cpi::{
    associated_address, create_token_account, create_token_account_idempotent,
    get_associated_token_address, get_associated_token_address_with_program_id, program_address,
    to_vec, token_account_address, token_account_creation, try_find_program_address,
};
use crate::error::ProgramError;
use crate::runtime::{seed_bytes, Account, Instruction, InstructionView, Payout};
use crate::state::game::GameAccount;
use crate::state::oracle::OraclePriceState;
use crate::state::user_account::UserAccount;
use vstd::arithmetic::power::pow;
use vstd::prelude::*;

verus! {

// ---------------------------------------------------------------------------
// Derived addresses
// ---------------------------------------------------------------------------

/// The seeds of the oracle's address.
pub open spec fn oracle_seeds() -> Seq<Seq<u8>> {
    seq![ORACLE_SEED@]
}

/// The seeds of a game's address.
pub open spec fn game_seeds(title: Seq<u8>) -> Seq<Seq<u8>> {
    seq![GAME_SEED@, title]
}

/// The seeds of the address of a game's protocol treasury.
pub open spec fn game_protocol_seeds(title: Seq<u8>) -> Seq<Seq<u8>> {
    seq![GAME_PROTOCOL_SEED@, title]
}

/// The seeds of a user account's address.
pub open spec fn user_seeds(owner: Seq<u8>, game: Seq<u8>, timestamp: u64) -> Seq<Seq<u8>> {
    seq![USER_SEED@, owner, game, le_bytes(timestamp as nat, 8)]
}

/// The seeds of a ranked game's address.
pub open spec fn ranked_game_seeds(ranked_game_id: u64) -> Seq<Seq<u8>> {
    seq![RANKED_GAME_SEED@, le_bytes(ranked_game_id as nat, 8)]
}

/// The address that this program derives from `seeds`, and its bump seed.
pub open spec fn own_address(seeds: Seq<Seq<u8>>) -> Option<(Seq<u8>, u8)> {
    program_address(seeds, PROGRAM_ID@)
}

/// The address of [`own_address`], where there is one.
pub open spec fn own_key(seeds: Seq<Seq<u8>>) -> Seq<u8> {
    match own_address(seeds) {
        Some((key, _)) => key,
        None => Seq::empty(),
    }
}

/// The seeds with which the program signs for the address with this bump seed.
pub open spec fn with_bump(seeds: Seq<Seq<u8>>, bump: u8) -> Seq<Seq<u8>> {
    seeds.push(seq![bump])
}

/// Whether `r` is the address that this program derives from `seeds`.
pub open spec fn is_own_address(r: Option<(Pubkey, u8)>, seeds: Seq<Seq<u8>>) -> bool {
    match r {
        Some((key, bump)) => own_address(seeds) == Some((key@, bump)),
        None => own_address(seeds) is None,
    }
}

/// The seeds of a game's address.
pub fn game_seed_list(title: &[u8; 32]) -> (r: Vec<Vec<u8>>)
    ensures
        seed_bytes(r@) == game_seeds(title@),
{
    let r = vec![to_vec(&GAME_SEED), to_vec(title)];
    assert(seed_bytes(r@) =~= game_seeds(title@));
    r
}

/// The seeds of the address of a game's protocol treasury.
pub fn game_protocol_seed_list(title: &[u8; 32]) -> (r: Vec<Vec<u8>>)
    ensures
        seed_bytes(r@) == game_protocol_seeds(title@),
{
    let r = vec![to_vec(&GAME_PROTOCOL_SEED), to_vec(title)];
    assert(seed_bytes(r@) =~= game_protocol_seeds(title@));
    r
}

/// The seeds of a user account's address.
pub fn user_seed_list(owner: &Pubkey, game: &Pubkey, timestamp: u64) -> (r: Vec<Vec<u8>>)
    ensures
        seed_bytes(r@) == user_seeds(owner@, game@, timestamp),
{
    let r = vec![to_vec(&USER_SEED), to_vec(owner), to_vec(game), u64_to_le(timestamp)];
    assert(seed_bytes(r@) =~= user_seeds(owner@, game@, timestamp));
    r
}

/// The seeds of a ranked game's address.
pub fn ranked_game_seed_list(ranked_game_id: u64) -> (r: Vec<Vec<u8>>)
    ensures
        seed_bytes(r@) == ranked_game_seeds(ranked_game_id),
{
    let r = vec![to_vec(&RANKED_GAME_SEED), u64_to_le(ranked_game_id)];
    assert(seed_bytes(r@) =~= ranked_game_seeds(ranked_game_id));
    r
}

/// The seeds of the oracle's address.
pub fn oracle_seed_list() -> (r: Vec<Vec<u8>>)
    ensures
        seed_bytes(r@) == oracle_seeds(),
{
    let r = vec![to_vec(&ORACLE_SEED)];
    assert(seed_bytes(r@) =~= oracle_seeds());
    r
}

/// Adds the bump seed to the seeds of an address.
pub fn add_bump(seeds: Vec<Vec<u8>>, bump: u8) -> (r: Vec<Vec<u8>>)
    ensures
        seed_bytes(r@) == with_bump(seed_bytes(seeds@), bump),
{
    let mut r = seeds;
    let last = vec![bump];
    assert(last@ =~= seq![bump]);
    r.push(last);
    assert(seed_bytes(r@) =~= with_bump(seed_bytes(seeds@), bump));
    r
}

/// The address of the oracle, and its bump seed.
pub fn find_oracle_pda() -> (r: Option<(Pubkey, u8)>)
    ensures
        is_own_address(r, oracle_seeds()),
{
    try_find_program_address(&oracle_seed_list(), &PROGRAM_ID)
}

/// The address of the game with this title, and its bump seed.
pub fn find_game_pda(game_title: &[u8; 32]) -> (r: Option<(Pubkey, u8)>)
    ensures
        is_own_address(r, game_seeds(game_title@)),
{
    try_find_program_address(&game_seed_list(game_title), &PROGRAM_ID)
}

/// The address of a user's account in a game, and its bump seed.
pub fn find_user_account_pda(owner: &Pubkey, game: &Pubkey, timestamp: u64) -> (r: Option<(Pubkey, u8)>)
    ensures
        is_own_address(r, user_seeds(owner@, game@, timestamp)),
{
    try_find_program_address(&user_seed_list(owner, game, timestamp), &PROGRAM_ID)
}

/// The address of the protocol treasury of the game with this title, and its bump seed.
pub fn find_game_protocol_pda(game_title: &[u8; 32]) -> (r: Option<(Pubkey, u8)>)
    ensures
        is_own_address(r, game_protocol_seeds(game_title@)),
{
    try_find_program_address(&game_protocol_seed_list(game_title), &PROGRAM_ID)
}

/// The address of a ranked game, and its bump seed.
pub fn find_ranked_game_pda(ranked_game_id: u64) -> (r: Option<(Pubkey, u8)>)
    ensures
        is_own_address(r, ranked_game_seeds(ranked_game_id)),
        r matches Some((key, _)) ==> key@ != NO_KEY@,
{
    try_find_program_address(&ranked_game_seed_list(ranked_game_id), &PROGRAM_ID)
}

/// The bump seed of the address that this program derives from `seeds`, if
/// `key` is that address.
pub open spec fn bump_for(seeds: Seq<Seq<u8>>, key: Seq<u8>) -> Result<u8, ProgramError> {
    match own_address(seeds) {
        None => Err(ProgramError::Aborted),
        Some((address, bump)) => if address == key {
            Ok(bump)
        } else {
            Err(ProgramError::InvalidAccountData)
        },
    }
}

/// The bump seed of the address that was found, if `key` is that address.
pub fn matching_bump(found: Option<(Pubkey, u8)>, key: &Pubkey) -> (r: Result<u8, ProgramError>)
    ensures
        r == (match found {
            Some((address, bump)) => if address@ == key@ {
                Ok::<u8, ProgramError>(bump)
            } else {
                Err(ProgramError::InvalidAccountData)
            },
            None => Err(ProgramError::Aborted),
        }),
        forall|seeds: Seq<Seq<u8>>| #[trigger] is_own_address(found, seeds) ==> r == bump_for(seeds, key@),
{
    match found {
        Some((address, bump)) => if same_key(&address, key) {
            Ok(bump)
        } else {
            Err(ProgramError::InvalidAccountData)
        },
        None => Err(ProgramError::Aborted),
    }
}

/// Whether `key` is the token account of `wallet` for `mint`.
pub open spec fn token_account_check(
    wallet: Seq<u8>,
    mint: Seq<u8>,
    key: Seq<u8>,
) -> Result<(), ProgramError> {
    match associated_address(wallet, mint) {
        None => Err(ProgramError::Aborted),
        Some(address) => if address == key {
            Ok(())
        } else {
            Err(ProgramError::InvalidAccountData)
        },
    }
}

/// Refuses a `key` that is not the token account of `wallet` for `mint`.
pub fn check_token_account(wallet: &Pubkey, mint: &Pubkey, key: &Pubkey) -> (r: Result<(), ProgramError>)
    ensures
        r == token_account_check(wallet@, mint@, key@),
{
    match get_associated_token_address(wallet, mint) {
        Some(address) => if same_key(&address, key) {
            Ok(())
        } else {
            Err(ProgramError::InvalidAccountData)
        },
        None => Err(ProgramError::Aborted),
    }
}

/// The call that creates the token account of `wallet` for `mint`.
pub open spec fn creation_call(
    funder: Seq<u8>,
    wallet: Seq<u8>,
    mint: Seq<u8>,
    token_program: Seq<u8>,
    tag: u8,
) -> Result<InstructionView, ProgramError> {
    match token_account_address(wallet, mint, token_program) {
        None => Err(ProgramError::Aborted),
        Some(address) => Ok(token_account_creation(funder, address, wallet, mint, token_program, tag)),
    }
}

/// The call that creates the token account of `wallet` for `mint`, and fails
/// where it exists.
pub fn token_account_call(
    funder: &Pubkey,
    wallet: &Pubkey,
    mint: &Pubkey,
    token_program: &Pubkey,
) -> (r: Result<Instruction, ProgramError>)
    ensures
        match r {
            Ok(ix) => {
                creation_call(
                    funder@,
                    wallet@,
                    mint@,
                    token_program@,
                    0,
                ) == Ok::<InstructionView, ProgramError>(ix@)
            },
            Err(e) => {
                creation_call(
                    funder@,
                    wallet@,
                    mint@,
                    token_program@,
                    0,
                ) == Err::<InstructionView, ProgramError>(e)
            },
        },
{
    match get_associated_token_address_with_program_id(wallet, mint, token_program) {
        Some(_) => Ok(create_token_account(funder, wallet, mint, token_program)),
        None => Err(ProgramError::Aborted),
    }
}

/// The call that creates the token account of `wallet` for `mint` with the SPL
/// Token program, and leaves one that exists.
pub fn token_account_call_idempotent(
    funder: &Pubkey,
    wallet: &Pubkey,
    mint: &Pubkey,
) -> (r: Result<Instruction, ProgramError>)
    ensures
        match r {
            Ok(ix) => {
                creation_call(
                    funder@,
                    wallet@,
                    mint@,
                    TOKEN_PROGRAM_ID@,
                    1,
                ) == Ok::<InstructionView, ProgramError>(ix@)
            },
            Err(e) => {
                creation_call(
                    funder@,
                    wallet@,
                    mint@,
                    TOKEN_PROGRAM_ID@,
                    1,
                ) == Err::<InstructionView, ProgramError>(e)
            },
        },
{
    match get_associated_token_address_with_program_id(wallet, mint, &TOKEN_PROGRAM_ID) {
        Some(_) => Ok(create_token_account_idempotent(funder, wallet, mint, &TOKEN_PROGRAM_ID)),
        None => Err(ProgramError::Aborted),
    }
}

// ---------------------------------------------------------------------------
// From US dollars to tokens
// ---------------------------------------------------------------------------

/// `a` divided by `b`, rounded up.
pub open spec fn ceil_div(a: nat, b: nat) -> nat {
    ((a + b - 1) / b as int) as nat
}

/// The power of ten with this exponent.
pub open spec fn ten_to(decimals: u8) -> nat {
    pow(10, decimals as nat) as nat
}

/// What `usd_micro` millionths of a US dollar cost in base units of a token with
/// this price and these decimals, rounded up.
pub open spec fn micro_units(usd_micro: nat, price: u64, decimals: u8) -> nat {
    ceil_div(usd_micro * ten_to(decimals), price as nat)
}

/// What `usd_cents` cost in base units of a token with this price and these
/// decimals, rounded up.
pub open spec fn base_units(usd_cents: u64, price: u64, decimals: u8) -> nat {
    micro_units(usd_cents as nat * 10_000, price, decimals)
}

/// What is charged for `usd_micro` millionths of a US dollar, if there is a price
/// and the base units fit in 64 bits.
pub open spec fn charge(usd_micro: nat, price: u64, decimals: u8) -> Result<u64, ProgramError> {
    if price == 0 {
        Err(ProgramError::InvalidAccountData)
    } else if micro_units(usd_micro, price, decimals) > u64::MAX {
        Err(ProgramError::ArithmeticOverflow)
    } else {
        Ok(micro_units(usd_micro, price, decimals) as u64)
    }
}

/// What [`usd_cents_to_base_units`] returns.
pub open spec fn conversion(usd_cents: u64, price: u64, decimals: u8) -> Result<u64, ProgramError> {
    charge(usd_cents as nat * 10_000, price, decimals)
}

/// The power of ten with this exponent.
pub fn power_of_ten(decimals: u8) -> (r: u128)
    requires
        decimals <= 38,
    ensures
        r == ten_to(decimals),
        r > 0,
{
    let mut r: u128 = 1;
    let mut i: u8 = 0;
    proof {
        reveal(pow);
    }
    while i < decimals
        invariant
            i <= decimals <= 38,
            r == pow(10, i as nat),
            1 <= r,
        decreases decimals - i,
    {
        proof {
            reveal(pow);
            lemma_ten_to_bound((i + 1) as nat);
        }
        r = r * 10;
        i += 1;
    }
    r
}

proof fn lemma_ten_to_bound(n: nat)
    requires
        n <= 38,
    ensures
        1 <= pow(10, n) <= 100_000_000_000_000_000_000_000_000_000_000_000_000,
{
    vstd::arithmetic::power::lemma_pow_positive(10, n);
    vstd::arithmetic::power::lemma_pow_increases(10, n, 38);
    assert(pow(10, 38) == 100_000_000_000_000_000_000_000_000_000_000_000_000) by {
        reveal(pow);
        reveal_with_fuel(pow, 39);
    }
}

/// Dividing more than `m` times `d` by `d` gives more than `m` when rounded up.
proof fn lemma_ceil_exceeds(n: nat, d: nat, m: nat)
    requires
        0 < d,
        n > m * d,
    ensures
        ceil_div(n, d) > m,
{
    assert((n + d - 1) / d as int >= m + 1) by (nonlinear_arith)
        requires
            0 < d,
            n >= m * d + 1,
    ;
}

/// Converts millionths of a US dollar to base units of a token, rounded up.
fn micro_to_base_units(usd_micro: u128, price: u64, decimals: u8) -> (r: Result<u64, ProgramError>)
    requires
        decimals <= 38,
    ensures
        r == charge(usd_micro as nat, price, decimals),
{
    if price == 0 {
        return Err(ProgramError::InvalidAccountData);
    }
    let base: u128 = power_of_ten(decimals);
    let denominator: u128 = price as u128;
    let ghost n = usd_micro as nat * ten_to(decimals);
    let ghost d = denominator as nat;
    proof {
        assert(n == usd_micro * base);
        // more than 2^128 - 2^64 base units cannot be few when divided by less than 2^64
        assert(0xFFFF_FFFF_FFFF_FFFF * d <= 0xFFFF_FFFF_FFFF_FFFF * 0xFFFF_FFFF_FFFF_FFFF) by (nonlinear_arith)
            requires
                d <= 0xFFFF_FFFF_FFFF_FFFF,
        ;
        if n > 0xFFFF_FFFF_FFFF_FFFF * 0xFFFF_FFFF_FFFF_FFFF {
            lemma_ceil_exceeds(n, d, 0xFFFF_FFFF_FFFF_FFFF);
        }
    }
    let numerator: u128 = match usd_micro.checked_mul(base) {
        Some(v) => v,
        None => {
            return Err(ProgramError::ArithmeticOverflow);
        },
    };
    let rounded: u128 = match numerator.checked_add(denominator - 1) {
        Some(v) => v,
        None => {
            return Err(ProgramError::ArithmeticOverflow);
        },
    };
    let result: u128 = rounded / denominator;
    assert(result == ceil_div(n, d));
    if result > u64::MAX as u128 {
        return Err(ProgramError::ArithmeticOverflow);
    }
    Ok(result as u64)
}

/// Converts US cents to base units of a token, rounded up:
/// `ceil(usd_cents * 10_000 * 10^decimals / price)`.
///
/// `price_micro_usd_per_token` is the oracle's price, in millionths of a US
/// dollar; `decimals` is the precision of the token, 9 for SOL and 6 for the
/// SPL tokens.
pub fn usd_cents_to_base_units(
    usd_cents: u64,
    price_micro_usd_per_token: u64,
    decimals: u8,
) -> (r: Result<u64, ProgramError>)
    requires
        decimals <= 38,
    ensures
        r == conversion(usd_cents, price_micro_usd_per_token, decimals),
{
    micro_to_base_units(usd_cents as u128 * 10_000, price_micro_usd_per_token, decimals)
}

/// Converts millionths of a US dollar to base units of a token, rounded up:
/// `ceil(usd_micro * 10^decimals / price)`.
pub fn usd_micro_to_base_units(
    usd_micro: u64,
    price_micro_usd_per_token: u64,
    decimals: u8,
) -> (r: Result<u64, ProgramError>)
    requires
        decimals <= 38,
    ensures
        r == charge(usd_micro as nat, price_micro_usd_per_token, decimals),
{
    micro_to_base_units(usd_micro as u128, price_micro_usd_per_token, decimals)
}

// ---------------------------------------------------------------------------
// From tokens to US dollars
// ---------------------------------------------------------------------------

/// What `amount` base units are worth at a price for `10^decimals` of them,
/// rounded down, as far as 64 bits can say it.
pub open spec fn value_of(amount: u64, price: u64, decimals: u8) -> u64 {
    let value = amount as nat * price as nat / ten_to(decimals);
    if value > u64::MAX {
        u64::MAX
    } else {
        value as u64
    }
}

/// What `amount` base units are worth at a price for `10^decimals` of them.
pub fn usd_value(amount: u64, price: u64, decimals: u8) -> (r: u64)
    requires
        decimals <= 38,
    ensures
        r == value_of(amount, price, decimals),
{
    assert(amount as nat * price as nat <= 0xFFFF_FFFF_FFFF_FFFF * 0xFFFF_FFFF_FFFF_FFFF) by (nonlinear_arith)
        requires
            amount <= 0xFFFF_FFFF_FFFF_FFFF,
            price <= 0xFFFF_FFFF_FFFF_FFFF,
    ;
    let value: u128 = amount as u128 * price as u128 / power_of_ten(decimals);
    if value > u64::MAX as u128 {
        u64::MAX
    } else {
        value as u64
    }
}

/// The sum of two amounts, as far as 64 bits can say it.
pub open spec fn capped_sum(a: u64, b: u64) -> u64 {
    if a + b > u64::MAX {
        u64::MAX
    } else {
        (a + b) as u64
    }
}

/// Paying from one pool after others that were worth `paid`.
pub open spec fn paid_with(paid: u64, payout: Payout) -> Payout {
    match payout {
        (log, Err(e)) => (log, Err(e)),
        (log, Ok(more)) => (log, Ok(capped_sum(paid, more))),
    }
}

/// The part of `lamports` above the `floor`.
pub open spec fn surplus(lamports: u64, floor: u64) -> u64 {
    if lamports > floor {
        (lamports - floor) as u64
    } else {
        0
    }
}

// ---------------------------------------------------------------------------
// The oracle
// ---------------------------------------------------------------------------

/// What [`load_oracle`] returns.
pub open spec fn oracle_of(account: Account) -> Result<OraclePriceState, ProgramError> {
    if account.owner@ != PROGRAM_ID@ {
        Err(ProgramError::IncorrectProgramId)
    } else if own_address(oracle_seeds()) is None {
        Err(ProgramError::Aborted)
    } else if account.key@ != own_key(oracle_seeds()) {
        Err(ProgramError::InvalidSeeds)
    } else {
        match OraclePriceState::decode(account.data@) {
            None => Err(ProgramError::InvalidAccountData),
            Some(state) => if state.discriminator@ != ORACLE_DISCRIMINATOR@ {
                Err(ProgramError::InvalidAccountData)
            } else {
                Ok(state)
            },
        }
    }
}

/// Reads the oracle's account: it belongs to this program, stands at the
/// oracle's address, and its data is that of an oracle.
pub fn load_oracle(oracle_acct: &Account) -> (r: Result<OraclePriceState, ProgramError>)
    ensures
        r == oracle_of(*oracle_acct),
{
    if !same_key(&oracle_acct.owner, &PROGRAM_ID) {
        return Err(ProgramError::IncorrectProgramId);
    }
    let expected_pda = match find_oracle_pda() {
        Some((key, _)) => key,
        None => {
            return Err(ProgramError::Aborted);
        },
    };
    if !same_key(&oracle_acct.key, &expected_pda) {
        return Err(ProgramError::InvalidSeeds);
    }
    let state = match OraclePriceState::try_from_slice(oracle_acct.data.as_slice()) {
        Ok(s) => s,
        Err(_) => {
            return Err(ProgramError::InvalidAccountData);
        },
    };
    if !same_bytes(&state.discriminator, &ORACLE_DISCRIMINATOR) {
        return Err(ProgramError::InvalidAccountData);
    }
    Ok(state)
}

// ---------------------------------------------------------------------------
// Games and user accounts
// ---------------------------------------------------------------------------

/// What [`load_game`] returns.
pub open spec fn game_of(account: Account) -> Result<GameAccount, ProgramError> {
    if account.owner@ != PROGRAM_ID@ {
        Err(ProgramError::IllegalOwner)
    } else {
        match GameAccount::decode(account.data@) {
            None => Err(ProgramError::InvalidAccountData),
            Some(game) => if !game.is_initialized {
                Err(ProgramError::UninitializedAccount)
            } else {
                Ok(game)
            },
        }
    }
}

/// Reads a game's account: it belongs to this program, and its data is that of
/// a game in use.
pub fn load_game(account: &Account) -> (r: Result<GameAccount, ProgramError>)
    ensures
        r == game_of(*account),
{
    if !same_key(&account.owner, &PROGRAM_ID) {
        return Err(ProgramError::IllegalOwner);
    }
    let game = match GameAccount::try_from_slice(account.data.as_slice()) {
        Ok(g) => g,
        Err(_) => {
            return Err(ProgramError::InvalidAccountData);
        },
    };
    if !game.is_initialized {
        return Err(ProgramError::UninitializedAccount);
    }
    Ok(game)
}

/// What [`load_user`] returns.
pub open spec fn user_of(account: Account) -> Result<UserAccount, ProgramError> {
    if account.owner@ != PROGRAM_ID@ {
        Err(ProgramError::IllegalOwner)
    } else {
        match UserAccount::decode(account.data@) {
            None => Err(ProgramError::InvalidAccountData),
            Some(user) => if !user.is_initialized {
                Err(ProgramError::UninitializedAccount)
            } else {
                Ok(user)
            },
        }
    }
}

/// Reads a user's account: it belongs to this program, and its data is that of
/// a user account in use.
pub fn load_user(account: &Account) -> (r: Result<UserAccount, ProgramError>)
    ensures
        r == user_of(*account),
{
    if !same_key(&account.owner, &PROGRAM_ID) {
        return Err(ProgramError::IllegalOwner);
    }
    let user = match UserAccount::try_from_slice(account.data.as_slice()) {
        Ok(u) => u,
        Err(_) => {
            return Err(ProgramError::InvalidAccountData);
        },
    };
    if !user.is_initialized {
        return Err(ProgramError::UninitializedAccount);
    }
    Ok(user)
}

// ---------------------------------------------------------------------------
// Fees
// ---------------------------------------------------------------------------

/// The fee of a ranked entry on top of it, in basis points: 10 %.
pub const RANKED_FEE_BPS: u64 = 1_000;

/// How many basis points make the whole.
pub const BPS_DENOMINATOR: u64 = 10_000;

/// The part of `amount` that `bps` basis points make, rounded up.
pub open spec fn share_ceil(amount: u64, bps: u16) -> nat {
    ceil_div(amount as nat * bps as nat, 10_000)
}

/// The part of `amount` that `bps` basis points make, rounded down.
pub open spec fn share_floor(amount: u64, bps: u16) -> nat {
    (amount as nat * bps as nat) / 10_000
}

/// The lowest 64 bits of a number.
pub open spec fn low_64(n: nat) -> u64 {
    (n % 0x1_0000_0000_0000_0000) as u64
}

/// The part of a fee that goes to the protocol: `share` basis points of it,
/// rounded down, and never more than all of it.
pub open spec fn protocol_part(total_fee: u64, share: u16) -> nat {
    if share_floor(total_fee, share) > total_fee {
        total_fee as nat
    } else {
        share_floor(total_fee, share)
    }
}

/// `ceil(amount * bps / 10_000)`; of a result of more than 64 bits, the lowest 64.
pub fn fee_ceil(amount: u64, bps: u16) -> (r: u64)
    ensures
        r == share_ceil(amount, bps) % 0x1_0000_0000_0000_0000,
        bps <= 10_000 ==> r == share_ceil(amount, bps) && r <= amount,
{
    assert(amount as u128 * bps as u128 <= 0xFFFF_FFFF_FFFF_FFFF * 0xFFFF) by (nonlinear_arith)
        requires
            amount <= 0xFFFF_FFFF_FFFF_FFFF,
            bps <= 0xFFFF,
    ;
    let v: u128 = (amount as u128 * bps as u128 + 9_999) / 10_000;
    assert(v as u64 == v % 0x1_0000_0000_0000_0000) by (bit_vector);
    proof {
        if bps <= 10_000 {
            law_share_within_amount(amount, bps);
        }
    }
    #[verifier::truncate]
    let r: u64 = v as u64;
    r
}

/// `floor(amount * bps / 10_000)`; of a result of more than 64 bits, the lowest 64.
pub fn fee_floor(amount: u64, bps: u16) -> (r: u64)
    ensures
        r == share_floor(amount, bps) % 0x1_0000_0000_0000_0000,
        bps <= 10_000 ==> r == share_floor(amount, bps) && r <= amount,
{
    assert(amount as u128 * bps as u128 <= 0xFFFF_FFFF_FFFF_FFFF * 0xFFFF) by (nonlinear_arith)
        requires
            amount <= 0xFFFF_FFFF_FFFF_FFFF,
            bps <= 0xFFFF,
    ;
    let v: u128 = (amount as u128 * bps as u128) / 10_000;
    assert(v as u64 == v % 0x1_0000_0000_0000_0000) by (bit_vector);
    proof {
        if bps <= 10_000 {
            law_share_within_amount(amount, bps);
        }
    }
    #[verifier::truncate]
    let r: u64 = v as u64;
    r
}

/// The fee on an entry amount, at the game's rate in basis points, rounded up.
pub fn protocol_fee(game_fee_amount: u16, entry_amount: u64) -> (r: u64)
    ensures
        r == share_ceil(entry_amount, game_fee_amount) % 0x1_0000_0000_0000_0000,
        game_fee_amount <= 10_000 ==> r == share_ceil(entry_amount, game_fee_amount) && r <= entry_amount,
{
    fee_ceil(entry_amount, game_fee_amount)
}

/// Splits a fee between the game developer and the protocol treasury.
///
/// `share_to_protocol` is the protocol's share in basis points; the developer
/// keeps the remainder, with the dust of the division. The two amounts,
/// developer first, always sum to `total_fee`.
pub fn split_protocol_fee(total_fee: u64, share_to_protocol: u16) -> (r: (u64, u64))
    ensures
        r.1 == protocol_part(total_fee, share_to_protocol),
        r.0 + r.1 == total_fee,
{
    let protocol_amount: u64 = if share_to_protocol >= 10_000 {
        proof {
            assert((total_fee as nat * share_to_protocol as nat) / 10_000 >= total_fee) by (nonlinear_arith)
                requires
                    share_to_protocol >= 10_000,
            ;
        }
        total_fee
    } else {
        fee_floor(total_fee, share_to_protocol)
    };
    (total_fee - protocol_amount, protocol_amount)
}

/// Whether a developer fee is allowed: at least the protocol's minimum and at
/// most everything.
pub open spec fn dev_fee_allowed(dev_fee_bps: u16) -> bool {
    MIN_GAME_TO_PROTOCOL_SHARE_BPS <= dev_fee_bps <= 10_000
}

/// Refuses a developer fee outside
/// `MIN_GAME_TO_PROTOCOL_SHARE_BPS..=10_000` basis points.
pub fn validate_dev_fee_bps(dev_fee_bps: u16) -> (r: Result<(), ProgramError>)
    ensures
        r == (if dev_fee_allowed(dev_fee_bps) {
            Ok::<(), ProgramError>(())
        } else {
            Err(ProgramError::InvalidInstructionData)
        }),
{
    if dev_fee_bps < MIN_GAME_TO_PROTOCOL_SHARE_BPS {
        return Err(ProgramError::InvalidInstructionData);
    }
    if dev_fee_bps > 10_000 {
        return Err(ProgramError::InvalidInstructionData);
    }
    Ok(())
}

/// Whether the protocol's share of a game's payments is allowed: at least the
/// protocol's minimum.
pub open spec fn protocol_share_allowed(share_bps: u16) -> bool {
    MIN_GAME_TO_PROTOCOL_SHARE_BPS <= share_bps
}

/// Refuses a share of the protocol below `MIN_GAME_TO_PROTOCOL_SHARE_BPS` basis
/// points: games may pay more, but not less.
pub fn validate_protocol_share_bps(share_bps: u16) -> (r: Result<(), ProgramError>)
    ensures
        r == (if protocol_share_allowed(share_bps) {
            Ok::<(), ProgramError>(())
        } else {
            Err(ProgramError::InvalidInstructionData)
        }),
{
    if share_bps < MIN_GAME_TO_PROTOCOL_SHARE_BPS {
        return Err(ProgramError::InvalidInstructionData);
    }
    Ok(())
}

/// How many decimals a token has: 9 for SOL, 6 for the SPL tokens.
pub open spec fn decimals_of(token: PaymentToken) -> u8 {
    match token {
        PaymentToken::SOL => 9,
        PaymentToken::SKR | PaymentToken::SLICE | PaymentToken::USDC => 6,
    }
}

/// How many decimals a token has: 9 for SOL, 6 for the SPL tokens.
pub fn token_decimals(token: &PaymentToken) -> (r: u8)
    ensures
        r == decimals_of(*token),
{
    match token {
        PaymentToken::SOL => 9,
        PaymentToken::SKR | PaymentToken::SLICE | PaymentToken::USDC => 6,
    }
}

// ---------------------------------------------------------------------------
// The authority
// ---------------------------------------------------------------------------

/// Refuses an account that is not the protocol authority's.
pub fn assert_authority(account: &Account) -> (r: Result<(), ProgramError>)
    ensures
        r == (if account.key@ == AUTHORITY@ {
            Ok::<(), ProgramError>(())
        } else {
            Err(ProgramError::InvalidAccountData)
        }),
{
    if !same_key(&account.key, &AUTHORITY) {
        return Err(ProgramError::InvalidAccountData);
    }
    Ok(())
}

// ---------------------------------------------------------------------------
// Laws
// ---------------------------------------------------------------------------

/// A share of at most 100 % is no more than the amount, whichever way it is rounded.
pub proof fn law_share_within_amount(amount: u64, bps: u16)
    requires
        bps <= 10_000,
    ensures
        share_floor(amount, bps) <= share_ceil(amount, bps) <= amount,
{
    assert((amount as nat * bps as nat) / 10_000 <= (amount as nat * bps as nat + 9_999) / 10_000 <= amount)
        by (nonlinear_arith)
        requires
            bps <= 10_000,
    ;
}

/// All of an amount is 10 000 basis points of it, and none of it is 0.
pub proof fn law_whole_share(amount: u64)
    ensures
        share_floor(amount, 10_000) == amount,
        share_floor(amount, 0) == 0,
{
    assert(amount as nat * 0 == 0) by (nonlinear_arith);
}

/// A larger share of an amount, or the same share of a larger amount, is no less.
pub proof fn law_share_monotone(amount: u64, bps: u16, more: u64, more_bps: u16)
    requires
        amount <= more,
        bps <= more_bps,
    ensures
        share_floor(amount, bps) <= share_floor(more, more_bps),
{
    assert(amount as nat * bps as nat <= more as nat * more_bps as nat) by (nonlinear_arith)
        requires
            amount <= more,
            bps <= more_bps,
    ;
}

/// What the developer keeps of a fee is the developer's own share of it rounded
/// up: the dust of the split goes to the developer, and nothing is created or lost.
pub proof fn law_split_gives_dust_to_developer(total_fee: u64, share: u16)
    requires
        share <= 10_000,
    ensures
        total_fee - protocol_part(total_fee, share) == share_ceil(total_fee, (10_000 - share) as u16),
{
    law_share_within_amount(total_fee, share);
    let rest = (10_000 - share) as nat;
    assert(total_fee as nat * rest == 10_000 * total_fee - total_fee as nat * share as nat) by (nonlinear_arith)
        requires
            rest == 10_000 - share,
    ;
}

/// The charge in base units is the least one that is worth the price: it covers
/// the cost, and one unit less would not.
pub proof fn law_charge_covers_cost(usd_micro: nat, price: u64, decimals: u8)
    requires
        price > 0,
    ensures
        micro_units(usd_micro, price, decimals) * price >= usd_micro * ten_to(decimals),
        micro_units(usd_micro, price, decimals) > 0 ==> (micro_units(usd_micro, price, decimals) - 1) * price
            < usd_micro * ten_to(decimals),
{
    lemma_ceil_div(usd_micro * ten_to(decimals), price as nat);
}

/// The charge for US cents is the least one that is worth the price: it covers
/// the cost, and one unit less would not.
pub proof fn law_conversion_covers_cost(usd_cents: u64, price: u64, decimals: u8)
    requires
        price > 0,
    ensures
        base_units(usd_cents, price, decimals) * price >= usd_cents * 10_000 * ten_to(decimals),
        base_units(usd_cents, price, decimals) > 0 ==> (base_units(usd_cents, price, decimals) - 1) * price
            < usd_cents * 10_000 * ten_to(decimals),
{
    law_charge_covers_cost(usd_cents as nat * 10_000, price, decimals);
}

/// `a` divided by `b` and rounded up is the least number that reaches `a` when
/// multiplied by `b`.
proof fn lemma_ceil_div(a: nat, b: nat)
    requires
        b > 0,
    ensures
        ceil_div(a, b) * b >= a,
        (ceil_div(a, b) - 1) * b < a,
{
    let q = (a + b - 1) / b as int;
    vstd::arithmetic::div_mod::lemma_fundamental_div_mod(a + b - 1, b as int);
    assert(b as int * q == q * b && (q - 1) * b == q * b - b) by (nonlinear_arith);
    assert(q >= 0) by (nonlinear_arith)
        requires
            q == (a + b - 1) / b as int,
            b > 0,
    ;
}

/// Whatever costs no less, at a price no higher, takes no fewer base units.
pub proof fn law_conversion_monotone(
    usd_cents: u64,
    price: u64,
    more_cents: u64,
    lower_price: u64,
    decimals: u8,
)
    requires
        usd_cents <= more_cents,
        0 < lower_price <= price,
    ensures
        base_units(usd_cents, price, decimals) <= base_units(more_cents, lower_price, decimals),
{
    let units = base_units(usd_cents, price, decimals);
    let more = base_units(more_cents, lower_price, decimals);
    let t = ten_to(decimals);
    lemma_ceil_div(usd_cents as nat * 10_000 * t, price as nat);
    lemma_ceil_div(more_cents as nat * 10_000 * t, lower_price as nat);
    assert(units <= more) by (nonlinear_arith)
        requires
            (units - 1) * price < usd_cents as nat * 10_000 * t,
            more * lower_price >= more_cents as nat * 10_000 * t,
            usd_cents <= more_cents,
            0 < lower_price <= price,
    ;
}

/// How many base units one whole token has: a million of an SPL token, and a
/// thousand millions of SOL.
pub proof fn law_base_units_of_one_token()
    ensures
        ten_to(0) == 1,
        ten_to(6) == 1_000_000,
        ten_to(9) == 1_000_000_000,
{
    reveal(pow);
    reveal_with_fuel(pow, 10);
}

/// A millionth of a US dollar is one base unit of USDC, without rounding.
pub proof fn law_usdc_charge(usd_micro: nat)
    ensures
        micro_units(usd_micro, 1_000_000, 6) == usd_micro,
{
    law_base_units_of_one_token();
}

/// A cent is 10 000 base units of USDC, without rounding.
pub proof fn law_usdc_conversion(usd_cents: u64)
    ensures
        base_units(usd_cents, 1_000_000, 6) == usd_cents * 10_000,
{
    law_usdc_charge(usd_cents as nat * 10_000);
}

/// What is charged for a cost is worth at least the cost at the same price.
pub proof fn law_charge_is_worth_cost(usd_cents: u64, price: u64, decimals: u8)
    requires
        conversion(usd_cents, price, decimals) is Ok,
        usd_cents * 10_000 <= u64::MAX,
    ensures
        value_of(conversion(usd_cents, price, decimals)->Ok_0, price, decimals) >= usd_cents * 10_000,
{
    let t = ten_to(decimals);
    let units = base_units(usd_cents, price, decimals);
    vstd::arithmetic::power::lemma_pow_positive(10, decimals as nat);
    lemma_ceil_div(usd_cents as nat * 10_000 * t, price as nat);
    assert(units * price as nat / t >= usd_cents * 10_000) by (nonlinear_arith)
        requires
            units * price >= usd_cents as nat * 10_000 * t,
            t > 0,
    ;
}

/// Costs that are charged one by one come to no less than their sum charged at
/// once, and for three of them to at most two base units more.
pub proof fn law_charges_add_up(a: u64, b: u64, c: u64, total: u64, price: u64, decimals: u8)
    requires
        price > 0,
        a + b + c == total,
    ensures
        base_units(total, price, decimals) <= base_units(a, price, decimals) + base_units(b, price, decimals)
            + base_units(c, price, decimals) <= base_units(total, price, decimals) + 2,
{
    let t = ten_to(decimals);
    let p = price as nat;
    let x = a as nat * 10_000 * t;
    let y = b as nat * 10_000 * t;
    let z = c as nat * 10_000 * t;
    let w = total as nat * 10_000 * t;
    assert(w == x + y + z) by (nonlinear_arith)
        requires
            x == a as nat * 10_000 * t,
            y == b as nat * 10_000 * t,
            z == c as nat * 10_000 * t,
            w == total as nat * 10_000 * t,
            a + b + c == total,
    ;
    lemma_ceil_div(x, p);
    lemma_ceil_div(y, p);
    lemma_ceil_div(z, p);
    lemma_ceil_div(w, p);
    let (u, v, k, m) = (ceil_div(x, p), ceil_div(y, p), ceil_div(z, p), ceil_div(w, p));
    assert(m <= u + v + k <= m + 2) by (nonlinear_arith)
        requires
            u * p >= x,
            v * p >= y,
            k * p >= z,
            m * p >= w,
            (u - 1) * p < x,
            (v - 1) * p < y,
            (k - 1) * p < z,
            (m - 1) * p < w,
            w == x + y + z,
            p > 0,
    ;
}

/// Paying out a share of what an account holds above its rent leaves the rent,
/// and paying out all of it leaves the rent exactly.
pub proof fn law_payout_keeps_rent(lamports: u64, floor: u64, bps: u16)
    requires
        bps <= 10_000,
        floor <= lamports,
    ensures
        lamports - share_floor(surplus(lamports, floor), bps) >= floor,
        lamports - surplus(lamports, floor) == floor,
{
    law_share_within_amount(surplus(lamports, floor), bps);
}

/// User accounts with another owner, game or timestamp, and ranked games with
/// another number, have addresses derived from other seeds: one wallet may have
/// any number of user accounts in one game.
pub proof fn law_seeds_tell_apart(
    owner: Pubkey,
    game: Pubkey,
    timestamp: u64,
    other_owner: Pubkey,
    other_game: Pubkey,
    other_timestamp: u64,
)
    ensures
        user_seeds(owner@, game@, timestamp) == user_seeds(other_owner@, other_game@, other_timestamp) ==> owner@
            == other_owner@ && game@ == other_game@ && timestamp == other_timestamp,
        ranked_game_seeds(timestamp) == ranked_game_seeds(other_timestamp) ==> timestamp == other_timestamp,
{
    lemma_le_limits();
    let seeds = user_seeds(owner@, game@, timestamp);
    let other = user_seeds(other_owner@, other_game@, other_timestamp);
    if seeds == other {
        assert(seeds[1] == other[1] && seeds[2] == other[2] && seeds[3] == other[3]);
        lemma_le_injective(timestamp as nat, other_timestamp as nat, 8);
    }
    let ranked = ranked_game_seeds(timestamp);
    let other_ranked = ranked_game_seeds(other_timestamp);
    if ranked == other_ranked {
        assert(ranked[1] == other_ranked[1]);
        lemma_le_injective(timestamp as nat, other_timestamp as nat, 8);
    }
}

} // verus!
