//! Payments for user accounts and for entries to ranked games.

use crate::constants::{same_key, PaymentToken, TOKEN_PROGRAM_ID};
use crate::cpi::{create_transfer, system_transfer, token_transfer_checked, transfer_checked};
use crate::error::ProgramError;
use crate::helpers::{
    charge, check_token_account, conversion, decimals_of, load_oracle, oracle_of, protocol_part,
    split_protocol_fee, token_account_check, token_decimals, usd_cents_to_base_units,
    usd_micro_to_base_units, BPS_DENOMINATOR, RANKED_FEE_BPS,
};
use crate::processor::oracle::{price_for, price_of};
use crate::runtime::{accept, call, refuse, EffectView, Effects, Invocation, Outcome};
use crate::state::game::GameAccount;
use vstd::prelude::*;

verus! {

// ---------------------------------------------------------------------------
// Single transfers
// ---------------------------------------------------------------------------

/// The effect of paying lamports; accounts are named by position.
pub open spec fn sol_payment(
    inv: Invocation,
    from: usize,
    to: usize,
    system_program: usize,
    lamports: u64,
) -> EffectView {
    call(
        system_transfer(inv.accounts@[from as int].key@, inv.accounts@[to as int].key@, lamports),
        seq![from, to, system_program],
    )
}

/// Lists a payment of lamports.
pub fn pay_sol(
    inv: &Invocation,
    from: usize,
    to: usize,
    system_program: usize,
    lamports: u64,
    effects: &mut Effects,
)
    requires
        from < inv.accounts@.len(),
        to < inv.accounts@.len(),
    ensures
        final(effects)@ == old(effects)@.push(sol_payment(*inv, from, to, system_program, lamports)),
{
    effects.invoke(
        create_transfer(&inv.accounts[from].key, &inv.accounts[to].key, lamports),
        vec![from, to, system_program],
    );
}

/// The accounts of a payment in SPL tokens, by position: whose tokens they are,
/// where they come from, and their mint.
#[derive(Clone, Copy, Debug, PartialEq, Eq, Structural)]
pub struct TokenSource {
    pub payer: usize,
    pub payer_ata: usize,
    pub mint: usize,
    pub token_program: usize,
    pub decimals: u8,
}

impl TokenSource {
    /// Whether every position is one of the invocation's.
    pub open spec fn within(self, inv: Invocation) -> bool {
        &&& self.payer < inv.accounts@.len()
        &&& self.payer_ata < inv.accounts@.len()
        &&& self.mint < inv.accounts@.len()
        &&& self.token_program < inv.accounts@.len()
    }
}

/// The effect of paying tokens to the token account at position `to`.
pub open spec fn token_payment(inv: Invocation, from: TokenSource, to: usize, amount: u64) -> EffectView {
    call(
        token_transfer_checked(
            inv.accounts@[from.payer_ata as int].key@,
            inv.accounts@[from.mint as int].key@,
            inv.accounts@[to as int].key@,
            inv.accounts@[from.payer as int].key@,
            amount,
            from.decimals,
        ),
        seq![from.payer_ata, from.mint, to, from.payer, from.token_program],
    )
}

/// Paying tokens: refused if the token program is not the SPL Token program.
pub open spec fn token_payment_outcome(
    inv: Invocation,
    from: TokenSource,
    to: usize,
    amount: u64,
    log: Seq<EffectView>,
) -> Outcome {
    if inv.accounts@[from.token_program as int].key@ != TOKEN_PROGRAM_ID@ {
        refuse(log, ProgramError::IncorrectProgramId)
    } else {
        accept(log.push(token_payment(inv, from, to, amount)))
    }
}

/// Lists a payment of tokens.
pub fn pay_tokens(
    inv: &Invocation,
    from: TokenSource,
    to: usize,
    amount: u64,
    effects: &mut Effects,
) -> (r: Result<(), ProgramError>)
    requires
        from.within(*inv),
        to < inv.accounts@.len(),
    ensures
        (final(effects)@, r) == token_payment_outcome(*inv, from, to, amount, old(effects)@),
{
    let ix = transfer_checked(
        &inv.accounts[from.token_program].key,
        &inv.accounts[from.payer_ata].key,
        &inv.accounts[from.mint].key,
        &inv.accounts[to].key,
        &inv.accounts[from.payer].key,
        amount,
        from.decimals,
    )?;
    effects.invoke(ix, vec![from.payer_ata, from.mint, to, from.payer, from.token_program]);
    Ok(())
}

// ---------------------------------------------------------------------------
// Payment for a user account
// ---------------------------------------------------------------------------

/// The accounts that a payment for a user account needs, by position.
#[derive(Clone, Copy, Debug, PartialEq, Eq, Structural)]
pub struct PaymentAccounts {
    pub payer: usize,
    pub game: usize,
    pub game_protocol: usize,
    pub oracle: usize,
    pub token_program: usize,
    pub system_program: usize,
}

impl PaymentAccounts {
    /// Whether every position is one of the invocation's.
    pub open spec fn within(self, inv: Invocation) -> bool {
        &&& self.payer < inv.accounts@.len()
        &&& self.game < inv.accounts@.len()
        &&& self.game_protocol < inv.accounts@.len()
        &&& self.oracle < inv.accounts@.len()
        &&& self.token_program < inv.accounts@.len()
        &&& self.system_program < inv.accounts@.len()
    }
}

/// The accounts that a payment in SPL tokens needs besides, by position.
#[derive(Clone, Copy, Debug, PartialEq, Eq, Structural)]
pub struct SplPaymentAccounts {
    pub payer_ata: usize,
    pub game_ata: usize,
    pub protocol_ata: usize,
    pub mint: usize,
}

impl SplPaymentAccounts {
    /// Whether every position is one of the invocation's.
    pub open spec fn within(self, inv: Invocation) -> bool {
        &&& self.payer_ata < inv.accounts@.len()
        &&& self.game_ata < inv.accounts@.len()
        &&& self.protocol_ata < inv.accounts@.len()
        &&& self.mint < inv.accounts@.len()
    }
}

/// Paying `total` base units of `token`, of which the protocol gets
/// `protocol_amount` and the game the rest.
pub open spec fn split_payment_outcome(
    inv: Invocation,
    at: PaymentAccounts,
    spl: Option<SplPaymentAccounts>,
    token: PaymentToken,
    game_amount: u64,
    protocol_amount: u64,
    log: Seq<EffectView>,
) -> Outcome {
    if token == PaymentToken::SOL {
        accept(
            log.push(sol_payment(inv, at.payer, at.game, at.system_program, game_amount)).push(
                sol_payment(inv, at.payer, at.game_protocol, at.system_program, protocol_amount),
            ),
        )
    } else {
        match spl {
            None => refuse(log, ProgramError::NotEnoughAccountKeys),
            Some(spl) => {
                let from = TokenSource {
                    payer: at.payer,
                    payer_ata: spl.payer_ata,
                    mint: spl.mint,
                    token_program: at.token_program,
                    decimals: decimals_of(token),
                };
                if inv.accounts@[spl.mint as int].key@ != token.spec_mint()@ {
                    refuse(log, ProgramError::InvalidAccountData)
                } else {
                    match token_payment_outcome(inv, from, spl.game_ata, game_amount, log) {
                        (log, Err(e)) => refuse(log, e),
                        (log, Ok(())) => {
                            token_payment_outcome(inv, from, spl.protocol_ata, protocol_amount, log)
                        },
                    }
                }
            },
        }
    }
}

/// What [`process_payment`] leaves behind.
pub open spec fn process_payment_outcome(
    inv: Invocation,
    at: PaymentAccounts,
    spl: Option<SplPaymentAccounts>,
    cost_usd_micro: u64,
    token: PaymentToken,
    log: Seq<EffectView>,
) -> Outcome {
    if !inv.accounts@[at.payer as int].is_signer {
        refuse(log, ProgramError::MissingRequiredSignature)
    } else {
        match GameAccount::decode(inv.accounts@[at.game as int].data@) {
            None => refuse(log, ProgramError::InvalidAccountData),
            Some(game) => if !game.is_initialized {
                refuse(log, ProgramError::UninitializedAccount)
            } else {
                match oracle_of(inv.accounts@[at.oracle as int]) {
                    Err(e) => refuse(log, e),
                    Ok(oracle) => match charge(
                        cost_usd_micro as nat,
                        price_of(oracle, token),
                        decimals_of(token),
                    ) {
                        Err(e) => refuse(log, e),
                        Ok(total) => {
                            let protocol_amount = protocol_part(total, game.game_to_protocol_share_bps) as u64;
                            split_payment_outcome(
                                inv,
                                at,
                                spl,
                                token,
                                (total - protocol_amount) as u64,
                                protocol_amount,
                                log,
                            )
                        },
                    },
                }
            },
        }
    }
}

/// Charges `cost_usd_micro`, in millionths of a US dollar, to the payer and
/// splits it between the game and the protocol treasury by the game's
/// `game_to_protocol_share_bps`.
///
/// SOL is paid by system transfers; for an SPL token the token accounts have to
/// be given. The cost is converted to base units by the oracle, rounded up.
pub fn process_payment(
    inv: &Invocation,
    at: PaymentAccounts,
    spl_accounts: Option<SplPaymentAccounts>,
    cost_usd_micro: u64,
    payment_token: PaymentToken,
    effects: &mut Effects,
) -> (r: Result<(), ProgramError>)
    requires
        at.within(*inv),
        spl_accounts is Some ==> spl_accounts->0.within(*inv),
    ensures
        (final(effects)@, r) == process_payment_outcome(
            *inv,
            at,
            spl_accounts,
            cost_usd_micro,
            payment_token,
            old(effects)@,
        ),
{
    if !inv.accounts[at.payer].is_signer {
        return Err(ProgramError::MissingRequiredSignature);
    }
    let game = match GameAccount::try_from_slice(inv.accounts[at.game].data.as_slice()) {
        Ok(g) => g,
        Err(_) => {
            return Err(ProgramError::InvalidAccountData);
        },
    };
    if !game.is_initialized {
        return Err(ProgramError::UninitializedAccount);
    }
    let oracle = load_oracle(&inv.accounts[at.oracle])?;
    let price = price_for(&oracle, &payment_token);
    let decimals = token_decimals(&payment_token);
    let total = usd_micro_to_base_units(cost_usd_micro, price, decimals)?;
    let (game_amount, protocol_amount) = split_protocol_fee(total, game.game_to_protocol_share_bps);
    if payment_token == PaymentToken::SOL {
        pay_sol(inv, at.payer, at.game, at.system_program, game_amount, effects);
        pay_sol(inv, at.payer, at.game_protocol, at.system_program, protocol_amount, effects);
        Ok(())
    } else {
        let spl = match spl_accounts {
            Some(s) => s,
            None => {
                return Err(ProgramError::NotEnoughAccountKeys);
            },
        };
        if !same_key(&inv.accounts[spl.mint].key, &payment_token.mint()) {
            return Err(ProgramError::InvalidAccountData);
        }
        let from = TokenSource {
            payer: at.payer,
            payer_ata: spl.payer_ata,
            mint: spl.mint,
            token_program: at.token_program,
            decimals,
        };
        pay_tokens(inv, from, spl.game_ata, game_amount, effects)?;
        pay_tokens(inv, from, spl.protocol_ata, protocol_amount, effects)
    }
}

// ---------------------------------------------------------------------------
// Payment for an entry to a ranked game
// ---------------------------------------------------------------------------

/// The accounts that an entry to a ranked game needs, by position.
#[derive(Clone, Copy, Debug, PartialEq, Eq, Structural)]
pub struct RankedPaymentAccounts {
    pub payer: usize,
    pub ranked_game: usize,
    pub game: usize,
    pub game_protocol: usize,
    pub oracle: usize,
    pub token_program: usize,
    pub system_program: usize,
}

impl RankedPaymentAccounts {
    /// Whether every position is one of the invocation's.
    pub open spec fn within(self, inv: Invocation) -> bool {
        &&& self.payer < inv.accounts@.len()
        &&& self.ranked_game < inv.accounts@.len()
        &&& self.game < inv.accounts@.len()
        &&& self.game_protocol < inv.accounts@.len()
        &&& self.oracle < inv.accounts@.len()
        &&& self.token_program < inv.accounts@.len()
        &&& self.system_program < inv.accounts@.len()
    }
}

/// The token accounts of an entry that is paid in SPL tokens, by position.
#[derive(Clone, Copy, Debug, PartialEq, Eq, Structural)]
pub struct RankedSplPaymentAccounts {
    pub payer_ata: usize,
    /// Receives the net entry.
    pub ranked_game_ata: usize,
    /// Receives the developer's cut of the fee.
    pub game_ata: usize,
    /// Receives the protocol's cut of the fee.
    pub protocol_ata: usize,
    pub mint: usize,
}

impl RankedSplPaymentAccounts {
    /// Whether every position is one of the invocation's.
    pub open spec fn within(self, inv: Invocation) -> bool {
        &&& self.payer_ata < inv.accounts@.len()
        &&& self.ranked_game_ata < inv.accounts@.len()
        &&& self.game_ata < inv.accounts@.len()
        &&& self.protocol_ata < inv.accounts@.len()
        &&& self.mint < inv.accounts@.len()
    }
}

/// The fee on an entry, in US cents: 10 % of it, rounded down.
pub open spec fn ranked_fee(entry_fee: u64) -> int {
    entry_fee * RANKED_FEE_BPS / BPS_DENOMINATOR as int
}

/// The developer's cut of the fee on an entry, rounded down.
pub open spec fn ranked_dev_cut(entry_fee: u64, dev_fee_bps: u16) -> int {
    ranked_fee(entry_fee) * dev_fee_bps / BPS_DENOMINATOR as int
}

/// The protocol's cut of the fee on an entry: the rest, with the dust.
pub open spec fn ranked_protocol_cut(entry_fee: u64, dev_fee_bps: u16) -> int {
    ranked_fee(entry_fee) - ranked_dev_cut(entry_fee, dev_fee_bps)
}

/// The fee on an entry and its two cuts, in US cents.
#[derive(Clone, Copy, Debug, PartialEq, Eq, Structural)]
pub struct RankedFee {
    pub fee: u64,
    pub dev_cut: u64,
    pub protocol_cut: u64,
}

/// What [`split_ranked_fee`] returns.
pub open spec fn ranked_fee_split(
    entry_fee: u64,
    dev_fee_bps: u16,
    share_bps: u16,
) -> Result<RankedFee, ProgramError> {
    if dev_fee_bps + share_bps > u16::MAX {
        Err(ProgramError::ArithmeticOverflow)
    } else if dev_fee_bps + share_bps != BPS_DENOMINATOR {
        Err(ProgramError::InvalidInstructionData)
    } else if entry_fee * RANKED_FEE_BPS > u64::MAX {
        Err(ProgramError::ArithmeticOverflow)
    } else {
        Ok(
            RankedFee {
                fee: ranked_fee(entry_fee) as u64,
                dev_cut: ranked_dev_cut(entry_fee, dev_fee_bps) as u64,
                protocol_cut: ranked_protocol_cut(entry_fee, dev_fee_bps) as u64,
            },
        )
    }
}

/// Computes the fee on an entry and splits it between the developer and the
/// protocol, whose shares of it are `dev_fee_bps` and `share_bps` and make up
/// the whole.
pub fn split_ranked_fee(
    entry_fee: u64,
    dev_fee_bps: u16,
    share_bps: u16,
) -> (r: Result<RankedFee, ProgramError>)
    ensures
        r == ranked_fee_split(entry_fee, dev_fee_bps, share_bps),
        r matches Ok(f) ==> f.fee == ranked_fee(entry_fee) && f.dev_cut + f.protocol_cut == f.fee && f.dev_cut
            == ranked_dev_cut(entry_fee, dev_fee_bps) && entry_fee + f.fee <= u64::MAX,
{
    let shares: u16 = match dev_fee_bps.checked_add(share_bps) {
        Some(v) => v,
        None => {
            return Err(ProgramError::ArithmeticOverflow);
        },
    };
    if shares != 10_000 {
        return Err(ProgramError::InvalidInstructionData);
    }
    let scaled: u64 = match entry_fee.checked_mul(RANKED_FEE_BPS) {
        Some(v) => v,
        None => {
            return Err(ProgramError::ArithmeticOverflow);
        },
    };
    let fee: u64 = scaled / BPS_DENOMINATOR;
    proof {
        assert(fee * dev_fee_bps <= fee * 10_000) by (nonlinear_arith)
            requires
                dev_fee_bps <= 10_000,
        ;
        assert(0 <= fee * dev_fee_bps) by (nonlinear_arith);
    }
    let dev_cut: u64 = fee * dev_fee_bps as u64 / BPS_DENOMINATOR;
    Ok(RankedFee { fee, dev_cut, protocol_cut: fee - dev_cut })
}

/// What an entry costs in base units of a token: the net entry, the developer's
/// cut and the protocol's cut.
pub open spec fn ranked_amounts(
    entry_fee: u64,
    f: RankedFee,
    price: u64,
    decimals: u8,
) -> Result<(u64, u64, u64), ProgramError> {
    match conversion(entry_fee, price, decimals) {
        Err(e) => Err(e),
        Ok(net) => match conversion(f.dev_cut, price, decimals) {
            Err(e) => Err(e),
            Ok(dev) => match conversion(f.protocol_cut, price, decimals) {
                Err(e) => Err(e),
                Ok(protocol) => Ok((net, dev, protocol)),
            },
        },
    }
}

/// Paying an entry in SOL: the net entry always, the cuts where there is one.
pub open spec fn ranked_sol_effects(
    inv: Invocation,
    at: RankedPaymentAccounts,
    net: u64,
    dev: u64,
    protocol: u64,
    log: Seq<EffectView>,
) -> Seq<EffectView> {
    let log = log.push(sol_payment(inv, at.payer, at.ranked_game, at.system_program, net));
    let log = if dev > 0 {
        log.push(sol_payment(inv, at.payer, at.game, at.system_program, dev))
    } else {
        log
    };
    if protocol > 0 {
        log.push(sol_payment(inv, at.payer, at.game_protocol, at.system_program, protocol))
    } else {
        log
    }
}

/// Paying an entry in SPL tokens: the net entry always, the cuts where there is one.
pub open spec fn ranked_token_effects(
    inv: Invocation,
    from: TokenSource,
    spl: RankedSplPaymentAccounts,
    net: u64,
    dev: u64,
    protocol: u64,
    log: Seq<EffectView>,
) -> Seq<EffectView> {
    let log = log.push(token_payment(inv, from, spl.ranked_game_ata, net));
    let log = if dev > 0 {
        log.push(token_payment(inv, from, spl.game_ata, dev))
    } else {
        log
    };
    if protocol > 0 {
        log.push(token_payment(inv, from, spl.protocol_ata, protocol))
    } else {
        log
    }
}

/// Paying an entry in SPL tokens: refused if the mint or a destination is not
/// the right one.
pub open spec fn ranked_token_outcome(
    inv: Invocation,
    at: RankedPaymentAccounts,
    spl: Option<RankedSplPaymentAccounts>,
    token: PaymentToken,
    net: u64,
    dev: u64,
    protocol: u64,
    log: Seq<EffectView>,
) -> Outcome {
    match spl {
        None => refuse(log, ProgramError::NotEnoughAccountKeys),
        Some(spl) => {
            let mint = inv.accounts@[spl.mint as int].key@;
            let from = TokenSource {
                payer: at.payer,
                payer_ata: spl.payer_ata,
                mint: spl.mint,
                token_program: at.token_program,
                decimals: decimals_of(token),
            };
            if mint != token.spec_mint()@ {
                refuse(log, ProgramError::InvalidAccountData)
            } else {
                match token_account_check(
                    inv.accounts@[at.ranked_game as int].key@,
                    mint,
                    inv.accounts@[spl.ranked_game_ata as int].key@,
                ) {
                    Err(e) => refuse(log, e),
                    Ok(()) => match token_account_check(
                        inv.accounts@[at.game as int].key@,
                        mint,
                        inv.accounts@[spl.game_ata as int].key@,
                    ) {
                        Err(e) => refuse(log, e),
                        Ok(()) => match token_account_check(
                            inv.accounts@[at.game_protocol as int].key@,
                            mint,
                            inv.accounts@[spl.protocol_ata as int].key@,
                        ) {
                            Err(e) => refuse(log, e),
                            Ok(()) => if inv.accounts@[at.token_program as int].key@ != TOKEN_PROGRAM_ID@ {
                                refuse(log, ProgramError::IncorrectProgramId)
                            } else {
                                accept(ranked_token_effects(inv, from, spl, net, dev, protocol, log))
                            },
                        },
                    },
                }
            }
        },
    }
}

/// What [`process_ranked_entry_payment`] leaves behind.
pub open spec fn process_ranked_entry_payment_outcome(
    inv: Invocation,
    at: RankedPaymentAccounts,
    spl: Option<RankedSplPaymentAccounts>,
    entry_fee: u64,
    dev_fee_bps: u16,
    share_bps: u16,
    token: PaymentToken,
    log: Seq<EffectView>,
) -> Outcome {
    match ranked_fee_split(entry_fee, dev_fee_bps, share_bps) {
        Err(e) => refuse(log, e),
        Ok(f) => match oracle_of(inv.accounts@[at.oracle as int]) {
            Err(e) => refuse(log, e),
            Ok(oracle) => match ranked_amounts(entry_fee, f, price_of(oracle, token), decimals_of(token)) {
                Err(e) => refuse(log, e),
                Ok((net, dev, protocol)) => if token == PaymentToken::SOL {
                    accept(ranked_sol_effects(inv, at, net, dev, protocol, log))
                } else {
                    ranked_token_outcome(inv, at, spl, token, net, dev, protocol, log)
                },
            },
        },
    }
}

/// Charges an entry to a ranked game: the net entry, in US cents, goes to the
/// ranked game, and a fee of 10 % on top of it is split between the developer
/// and the protocol. Each part is converted to base units by the oracle.
pub fn process_ranked_entry_payment(
    inv: &Invocation,
    at: RankedPaymentAccounts,
    spl_accounts: Option<RankedSplPaymentAccounts>,
    entry_fee: u64,
    dev_fee_bps: u16,
    game_to_protocol_share_bps: u16,
    payment_token: PaymentToken,
    effects: &mut Effects,
) -> (r: Result<(), ProgramError>)
    requires
        at.within(*inv),
        spl_accounts is Some ==> spl_accounts->0.within(*inv),
    ensures
        (final(effects)@, r) == process_ranked_entry_payment_outcome(
            *inv,
            at,
            spl_accounts,
            entry_fee,
            dev_fee_bps,
            game_to_protocol_share_bps,
            payment_token,
            old(effects)@,
        ),
{
    let f = split_ranked_fee(entry_fee, dev_fee_bps, game_to_protocol_share_bps)?;
    let decimals = token_decimals(&payment_token);
    let oracle = load_oracle(&inv.accounts[at.oracle])?;
    let price = price_for(&oracle, &payment_token);
    let net_tok = usd_cents_to_base_units(entry_fee, price, decimals)?;
    let dev_tok = usd_cents_to_base_units(f.dev_cut, price, decimals)?;
    let protocol_tok = usd_cents_to_base_units(f.protocol_cut, price, decimals)?;
    if payment_token == PaymentToken::SOL {
        pay_sol(inv, at.payer, at.ranked_game, at.system_program, net_tok, effects);
        if dev_tok > 0 {
            pay_sol(inv, at.payer, at.game, at.system_program, dev_tok, effects);
        }
        if protocol_tok > 0 {
            pay_sol(inv, at.payer, at.game_protocol, at.system_program, protocol_tok, effects);
        }
        Ok(())
    } else {
        let spl = match spl_accounts {
            Some(s) => s,
            None => {
                return Err(ProgramError::NotEnoughAccountKeys);
            },
        };
        let mint = &inv.accounts[spl.mint].key;
        if !same_key(mint, &payment_token.mint()) {
            return Err(ProgramError::InvalidAccountData);
        }
        check_token_account(&inv.accounts[at.ranked_game].key, mint, &inv.accounts[spl.ranked_game_ata].key)?;
        check_token_account(&inv.accounts[at.game].key, mint, &inv.accounts[spl.game_ata].key)?;
        check_token_account(&inv.accounts[at.game_protocol].key, mint, &inv.accounts[spl.protocol_ata].key)?;
        let from = TokenSource {
            payer: at.payer,
            payer_ata: spl.payer_ata,
            mint: spl.mint,
            token_program: at.token_program,
            decimals,
        };
        pay_tokens(inv, from, spl.ranked_game_ata, net_tok, effects)?;
        if dev_tok > 0 {
            pay_tokens(inv, from, spl.game_ata, dev_tok, effects)?;
        }
        if protocol_tok > 0 {
            pay_tokens(inv, from, spl.protocol_ata, protocol_tok, effects)?;
        }
        Ok(())
    }
}

} // verus!
