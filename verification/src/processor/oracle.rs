//! The price oracle.

use crate::constants::{
    PaymentToken, AUTHORITY, ORACLE_DISCRIMINATOR, PROGRAM_ID,
};
use crate::cpi::{create_account_creation, system_create_account};
use crate::error::ProgramError;
use crate::helpers::{
    add_bump, assert_authority, bump_for, find_oracle_pda, load_oracle, matching_bump, oracle_of,
    oracle_seed_list, oracle_seeds, with_bump,
};
use crate::runtime::{
    refuse, signed_call, store_outcome, EffectView, Effects, Invocation, Outcome,
};
use crate::state::oracle::OraclePriceState;
use vstd::prelude::*;

verus! {

/// The oracle's price for a token; USDC is worth one US dollar.
pub open spec fn price_of(oracle: OraclePriceState, token: PaymentToken) -> u64 {
    match token {
        PaymentToken::SOL => oracle.sol_price_usd_micro_per_lamport,
        PaymentToken::SKR => oracle.skr_price_usd_micro_per_atom,
        PaymentToken::SLICE => oracle.slice_price_usd_micro_per_atom,
        PaymentToken::USDC => 1_000_000,
    }
}

/// The oracle's price for a token; USDC is worth one US dollar.
pub fn price_for(oracle: &OraclePriceState, token: &PaymentToken) -> (r: u64)
    ensures
        r == price_of(*oracle, *token),
{
    match token {
        PaymentToken::SOL => oracle.sol_price_usd_micro_per_lamport,
        PaymentToken::SKR => oracle.skr_price_usd_micro_per_atom,
        PaymentToken::SLICE => oracle.slice_price_usd_micro_per_atom,
        PaymentToken::USDC => 1_000_000,
    }
}

/// The oracle as it is first stored.
pub open spec fn first_prices(sol: u64, skr: u64, slice: u64, bump: u8) -> OraclePriceState {
    OraclePriceState {
        discriminator: ORACLE_DISCRIMINATOR,
        sol_price_usd_micro_per_lamport: sol,
        skr_price_usd_micro_per_atom: skr,
        slice_price_usd_micro_per_atom: slice,
        bump,
    }
}

/// The oracle with other prices.
pub open spec fn with_prices(oracle: OraclePriceState, sol: u64, skr: u64, slice: u64) -> OraclePriceState {
    OraclePriceState {
        sol_price_usd_micro_per_lamport: sol,
        skr_price_usd_micro_per_atom: skr,
        slice_price_usd_micro_per_atom: slice,
        ..oracle
    }
}

/// What [`init_oracle`] leaves behind.
pub open spec fn init_oracle_outcome(
    inv: Invocation,
    sol: u64,
    skr: u64,
    slice: u64,
    log: Seq<EffectView>,
) -> Outcome {
    let authority = inv.accounts@[0];
    let oracle = inv.accounts@[1];
    if inv.accounts@.len() < 3 {
        refuse(log, ProgramError::NotEnoughAccountKeys)
    } else if authority.key@ != AUTHORITY@ {
        refuse(log, ProgramError::InvalidAccountData)
    } else if !authority.is_signer {
        refuse(log, ProgramError::MissingRequiredSignature)
    } else {
        match bump_for(oracle_seeds(), oracle.key@) {
            Err(e) => refuse(log, e),
            Ok(bump) => if oracle.data@.len() != 0 {
                refuse(log, ProgramError::AccountAlreadyInitialized)
            } else if sol == 0 || skr == 0 || slice == 0 {
                refuse(log, ProgramError::InvalidInstructionData)
            } else {
                match inv.rent {
                    Err(e) => refuse(log, e),
                    Ok(rent) => store_outcome(
                        1,
                        OraclePriceState::LEN as nat,
                        first_prices(sol, skr, slice, bump).bytes(),
                        log.push(
                            signed_call(
                                system_create_account(
                                    authority.key@,
                                    oracle.key@,
                                    rent.oracle,
                                    OraclePriceState::LEN as u64,
                                    PROGRAM_ID@,
                                ),
                                seq![0, 1, 2],
                                with_bump(oracle_seeds(), bump),
                            ),
                        ),
                    ),
                }
            },
        }
    }
}

/// Creates the oracle's account with its first prices, none of which is zero.
///
/// Accounts:
///   0. `[signer, writable]` the authority
///   1. `[writable]`         the oracle's address
///   2. `[]`                 the system program
pub fn init_oracle(
    inv: &Invocation,
    sol_price_usd_micro_per_lamport: u64,
    skr_price_usd_micro_per_atom: u64,
    slice_price_usd_micro_per_atom: u64,
    effects: &mut Effects,
) -> (r: Result<(), ProgramError>)
    ensures
        (final(effects)@, r) == init_oracle_outcome(
            *inv,
            sol_price_usd_micro_per_lamport,
            skr_price_usd_micro_per_atom,
            slice_price_usd_micro_per_atom,
            old(effects)@,
        ),
{
    if inv.accounts.len() < 3 {
        return Err(ProgramError::NotEnoughAccountKeys);
    }
    let authority = &inv.accounts[0];
    let oracle_acct = &inv.accounts[1];
    assert_authority(authority)?;
    if !authority.is_signer {
        return Err(ProgramError::MissingRequiredSignature);
    }
    let bump = matching_bump(find_oracle_pda(), &oracle_acct.key)?;
    if oracle_acct.data.len() != 0 {
        return Err(ProgramError::AccountAlreadyInitialized);
    }
    if sol_price_usd_micro_per_lamport == 0 || skr_price_usd_micro_per_atom == 0 || slice_price_usd_micro_per_atom == 0 {
        return Err(ProgramError::InvalidInstructionData);
    }
    let rent = inv.rent?;
    effects.invoke_signed(
        create_account_creation(
            &authority.key,
            &oracle_acct.key,
            rent.oracle,
            OraclePriceState::LEN as u64,
            &PROGRAM_ID,
        ),
        vec![0, 1, 2],
        add_bump(oracle_seed_list(), bump),
    );
    let state = OraclePriceState {
        discriminator: ORACLE_DISCRIMINATOR,
        sol_price_usd_micro_per_lamport,
        skr_price_usd_micro_per_atom,
        slice_price_usd_micro_per_atom,
        bump,
    };
    effects.store(1, OraclePriceState::LEN, state.serialize())
}

/// What [`update_oracle_prices`] leaves behind.
pub open spec fn update_oracle_prices_outcome(
    inv: Invocation,
    sol: u64,
    skr: u64,
    slice: u64,
    log: Seq<EffectView>,
) -> Outcome {
    let authority = inv.accounts@[0];
    let oracle = inv.accounts@[1];
    if inv.accounts@.len() < 2 {
        refuse(log, ProgramError::NotEnoughAccountKeys)
    } else if authority.key@ != AUTHORITY@ {
        refuse(log, ProgramError::InvalidAccountData)
    } else if !authority.is_signer {
        refuse(log, ProgramError::MissingRequiredSignature)
    } else if sol == 0 || skr == 0 || slice == 0 {
        refuse(log, ProgramError::InvalidInstructionData)
    } else {
        match oracle_of(oracle) {
            Err(e) => refuse(log, e),
            Ok(state) => store_outcome(1, oracle.data@.len(), with_prices(state, sol, skr, slice).bytes(), log),
        }
    }
}

/// Sets all three prices of the oracle, none of which is zero. Only the
/// authority may do so; the next join uses the new prices.
///
/// Accounts:
///   0. `[signer]`   the authority
///   1. `[writable]` the oracle's account
pub fn update_oracle_prices(
    inv: &Invocation,
    sol_price_usd_micro_per_lamport: u64,
    skr_price_usd_micro_per_atom: u64,
    slice_price_usd_micro_per_atom: u64,
    effects: &mut Effects,
) -> (r: Result<(), ProgramError>)
    ensures
        (final(effects)@, r) == update_oracle_prices_outcome(
            *inv,
            sol_price_usd_micro_per_lamport,
            skr_price_usd_micro_per_atom,
            slice_price_usd_micro_per_atom,
            old(effects)@,
        ),
{
    if inv.accounts.len() < 2 {
        return Err(ProgramError::NotEnoughAccountKeys);
    }
    let authority = &inv.accounts[0];
    let oracle_acct = &inv.accounts[1];
    assert_authority(authority)?;
    if !authority.is_signer {
        return Err(ProgramError::MissingRequiredSignature);
    }
    if sol_price_usd_micro_per_lamport == 0 || skr_price_usd_micro_per_atom == 0 || slice_price_usd_micro_per_atom == 0 {
        return Err(ProgramError::InvalidInstructionData);
    }
    let mut state = load_oracle(oracle_acct)?;
    state.sol_price_usd_micro_per_lamport = sol_price_usd_micro_per_lamport;
    state.skr_price_usd_micro_per_atom = skr_price_usd_micro_per_atom;
    state.slice_price_usd_micro_per_atom = slice_price_usd_micro_per_atom;
    effects.store(1, oracle_acct.data.len(), state.serialize())
}

} // verus!
