//! What the arithmetic of fees, prices and shares comes to.

use crate::constants::PaymentToken;
use crate::error::{IndieGamesError, ProgramError};
use crate::helpers::{
    capped_sum, charge, conversion, decimals_of, dev_fee_allowed, law_charge_covers_cost,
    law_share_within_amount, low_64, micro_units, protocol_part, protocol_share_allowed, share_ceil,
    share_floor, surplus, ten_to, value_of,
};
use crate::processor::oracle::price_of;
use crate::processor::payment::ranked_fee_split;
use crate::state::oracle::OraclePriceState;
use crate::state::ranked_game::RankedGameStatus;
use vstd::arithmetic::power::{lemma_pow_positive, pow};
use vstd::prelude::*;
use vstd::std_specs::convert::FromSpec;

verus! {

/// A share rounded down is the most that is not too much, and one rounded up the least
/// that is not too little.
pub proof fn law_shares_are_exact(amount: u64, bps: u16)
    ensures
        share_floor(amount, bps) * 10_000 <= amount * bps < (share_floor(amount, bps) + 1) * 10_000,
        share_ceil(amount, bps) * 10_000 >= amount * bps,
        share_ceil(amount, bps) > 0 ==> (share_ceil(amount, bps) - 1) * 10_000 < amount * bps,
{
    assert(0 <= amount * bps) by (nonlinear_arith);
}

/// The lowest 64 bits of a number that has no more are the number; of another, they are
/// what whole multiples of 2^64 leave.
pub proof fn law_low_bits(n: nat)
    ensures
        n <= u64::MAX ==> low_64(n) == n,
        (n - low_64(n)) % 0x1_0000_0000_0000_0000 == 0,
        low_64(n) <= n,
{
}

/// Ten to the power of zero is one, and each power is ten times the one before.
pub proof fn law_powers_of_ten(decimals: u8)
    ensures
        ten_to(0) == 1,
        decimals < u8::MAX ==> ten_to((decimals + 1) as u8) == 10 * ten_to(decimals),
        ten_to(decimals) > 0,
{
    lemma_pow_positive(10, decimals as nat);
    lemma_pow_positive(10, decimals as nat + 1);
    reveal(pow);
    assert(pow(10, decimals as nat + 1) == 10 * pow(10, decimals as nat));
}

/// A charge is the least number of units that are worth the cost. There is none without
/// a price, and none of more than 64 bits.
pub proof fn law_charge_is_exact(usd_micro: nat, price: u64, decimals: u8)
    ensures
        match charge(usd_micro, price, decimals) {
            Ok(units) => {
                &&& price > 0
                &&& units * price >= usd_micro * ten_to(decimals)
                &&& units > 0 ==> (units - 1) * price < usd_micro * ten_to(decimals)
            },
            Err(e) => if price == 0 {
                e == ProgramError::InvalidAccountData
            } else {
                e == ProgramError::ArithmeticOverflow && u64::MAX * price < usd_micro * ten_to(decimals)
            },
        },
{
    if price > 0 {
        law_charge_covers_cost(usd_micro, price, decimals);
        let units = micro_units(usd_micro, price, decimals);
        if units > u64::MAX {
            assert((units - 1) * price >= u64::MAX * price) by (nonlinear_arith)
                requires
                    units - 1 >= u64::MAX,
                    price > 0,
            ;
        }
    }
}

/// A cent is ten thousand millionths of a US dollar.
pub proof fn law_cents_are_ten_thousand(usd_cents: u64, price: u64, decimals: u8)
    ensures
        match conversion(usd_cents, price, decimals) {
            Ok(units) => {
                &&& price > 0
                &&& units * price >= usd_cents * 10_000 * ten_to(decimals)
                &&& units > 0 ==> (units - 1) * price < usd_cents * 10_000 * ten_to(decimals)
            },
            Err(e) => if price == 0 {
                e == ProgramError::InvalidAccountData
            } else {
                e == ProgramError::ArithmeticOverflow && u64::MAX * price < usd_cents * 10_000 * ten_to(decimals)
            },
        },
{
    law_charge_is_exact(usd_cents as nat * 10_000, price, decimals);
}

/// What units are worth is the most that is not too much, as far as 64 bits can say it.
pub proof fn law_value_is_exact(amount: u64, price: u64, decimals: u8)
    ensures
        value_of(amount, price, decimals) * ten_to(decimals) <= amount * price,
        value_of(amount, price, decimals) < u64::MAX ==> amount * price < (value_of(amount, price, decimals) + 1)
            * ten_to(decimals),
{
    law_powers_of_ten(decimals);
    let t = ten_to(decimals);
    let n = amount as nat * price as nat;
    let q = n / t;
    vstd::arithmetic::div_mod::lemma_fundamental_div_mod(n as int, t as int);
    assert(t as int * q == q * t && (q + 1) * t == q * t + t) by (nonlinear_arith);
    if q > u64::MAX {
        assert(u64::MAX * t <= q * t) by (nonlinear_arith)
            requires
                q > u64::MAX,
        ;
    }
}

/// Adding what was paid never loses any of it, and stops at what 64 bits can say.
pub proof fn law_payments_add_up(a: u64, b: u64)
    ensures
        capped_sum(a, b) == a + b || (capped_sum(a, b) == u64::MAX && a + b > u64::MAX),
        capped_sum(a, b) >= a && capped_sum(a, b) >= b,
{
}

/// What lies above a floor and the floor make up the whole; below it there is nothing.
pub proof fn law_surplus(lamports: u64, floor: u64)
    ensures
        lamports >= floor ==> floor + surplus(lamports, floor) == lamports,
        lamports < floor ==> surplus(lamports, floor) == 0,
{
}

/// The protocol's part of a fee is its share rounded down; from 100 % on it is all of it.
pub proof fn law_protocol_part(total_fee: u64, share: u16)
    ensures
        protocol_part(total_fee, share) <= total_fee,
        share < 10_000 ==> protocol_part(total_fee, share) * 10_000 <= total_fee * share < (protocol_part(
            total_fee,
            share,
        ) + 1) * 10_000,
        share >= 10_000 ==> protocol_part(total_fee, share) == total_fee,
{
    if share >= 10_000 {
        assert(total_fee as nat * share as nat / 10_000 >= total_fee) by (nonlinear_arith)
            requires
                share >= 10_000,
        ;
    } else {
        law_share_within_amount(total_fee, share);
        assert(0 <= total_fee * share) by (nonlinear_arith);
    }
}

/// The fee on an entry is a tenth of it, in whole cents. The developer gets the share of
/// it, in whole cents, and the protocol the rest. The shares have to make up the whole.
pub proof fn law_ranked_fee(entry: u64, dev_fee_bps: u16, share_bps: u16)
    ensures
        match ranked_fee_split(entry, dev_fee_bps, share_bps) {
            Ok(f) => {
                &&& dev_fee_bps + share_bps == 10_000
                &&& entry * 1_000 <= u64::MAX
                &&& f.fee * 10 <= entry < f.fee * 10 + 10
                &&& f.dev_cut * 10_000 <= f.fee * dev_fee_bps < (f.dev_cut + 1) * 10_000
                &&& f.dev_cut + f.protocol_cut == f.fee
            },
            Err(e) => if dev_fee_bps + share_bps > u16::MAX {
                e == ProgramError::ArithmeticOverflow
            } else if dev_fee_bps + share_bps != 10_000 {
                e == ProgramError::InvalidInstructionData
            } else {
                e == ProgramError::ArithmeticOverflow && entry * 1_000 > u64::MAX
            },
        },
{
    let fee = entry as int / 10;
    assert(entry * 1_000 / 10_000 == fee);
    if dev_fee_bps + share_bps == 10_000 {
        assert(0 <= fee * dev_fee_bps <= fee * 10_000) by (nonlinear_arith)
            requires
                0 <= dev_fee_bps <= 10_000,
                fee >= 0,
        ;
    }
}

/// A fee of the developer is allowed from a tenth to the whole, and a share of the
/// protocol from a tenth.
pub proof fn law_allowed_fees(bps: u16)
    ensures
        dev_fee_allowed(bps) <==> 1_000 <= bps <= 10_000,
        protocol_share_allowed(bps) <==> 1_000 <= bps,
{
}

/// The units of the tokens, and which price of the oracle is whose.
pub proof fn law_tokens_and_prices(oracle: OraclePriceState)
    ensures
        decimals_of(PaymentToken::SOL) == 9,
        decimals_of(PaymentToken::SKR) == 6,
        decimals_of(PaymentToken::SLICE) == 6,
        decimals_of(PaymentToken::USDC) == 6,
        price_of(oracle, PaymentToken::SOL) == oracle.sol_price_usd_micro_per_lamport,
        price_of(oracle, PaymentToken::SKR) == oracle.skr_price_usd_micro_per_atom,
        price_of(oracle, PaymentToken::SLICE) == oracle.slice_price_usd_micro_per_atom,
        price_of(oracle, PaymentToken::USDC) == 1_000_000,
{
}

/// The bytes that stand for the statuses, and for which statuses bytes stand.
pub proof fn law_status_bytes(status: RankedGameStatus, tag: u8)
    ensures
        RankedGameStatus::spec_from_tag(tag) == Some(status) <==> status.tag() == tag,
        RankedGameStatus::spec_from_tag(tag) is None <==> tag > 2,
        RankedGameStatus::Open.tag() == 0,
        RankedGameStatus::InProgress.tag() == 1,
        RankedGameStatus::Finished.tag() == 2,
{
}

/// The program's errors have codes of their own, counted from 0.
pub proof fn law_error_codes(error: IndieGamesError, other: IndieGamesError)
    ensures
        error.code() <= 12,
        error.code() == other.code() ==> error == other,
        IndieGamesError::InvalidInstruction.code() == 0,
        IndieGamesError::AlreadyInitialized.code() == 1,
        IndieGamesError::RankedGameNotCreated.code() == 2,
        IndieGamesError::RankedGameNotRunning.code() == 3,
        IndieGamesError::RankedGameNotFinished.code() == 4,
        IndieGamesError::CharacterAlreadyInGame.code() == 5,
        IndieGamesError::Unauthorized.code() == 6,
        IndieGamesError::InvalidPDA.code() == 7,
        IndieGamesError::ArithmeticOverflow.code() == 8,
        IndieGamesError::InsufficientFunds.code() == 9,
        IndieGamesError::PayoutExceedsPot.code() == 10,
        IndieGamesError::StringTooLong.code() == 11,
        IndieGamesError::MaxParticipantsReached.code() == 12,
{
}

/// An error that is handed on keeps its code, and tells the program's errors apart.
pub proof fn law_error_is_kept(error: IndieGamesError, other: IndieGamesError)
    ensures
        <ProgramError as FromSpec<IndieGamesError>>::from_spec(error) == ProgramError::Custom(error.code()),
        <ProgramError as FromSpec<IndieGamesError>>::from_spec(error) == <ProgramError as FromSpec<
            IndieGamesError,
        >>::from_spec(other) ==> error == other,
{
}

} // verus!
