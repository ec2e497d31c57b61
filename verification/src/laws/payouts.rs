//! What is paid out of the program's accounts.

use crate::codec::{le_bytes, lemma_le_limits, lemma_le_value_bound};
use crate::constants::{
    PaymentToken, AUTHORITY, GAME_PROTOCOL_SEED, GAME_SEED, NO_KEY, PROGRAM_ID, RANKED_GAME_SEED,
    SKR_MINT, SLICE_MINT, TOKEN_PROGRAM_ID, USDC_MINT, USER_SEED,
};
use crate::cpi::is_token_account;
use crate::error::ProgramError;
use crate::helpers::{
    game_protocol_seeds, game_seeds, law_base_units_of_one_token, law_share_within_amount, low_64,
    ranked_game_seeds, share_floor, surplus, with_bump,
};
use crate::instruction::IndieGamesInstruction;
use crate::laws::deeds::{
    above, adds, balance, capped, deeds, group_deeds, held, holds_game, holds_oracle, holds_ranked,
    holds_user, is_derived, keeps_tokens, part, signed_by, unless_zero, worth, Deed,
};
use crate::processor::game::{
    developer_withdraw_check, developer_withdraw_outcome, reward_from_pools_outcome,
    reward_from_protocol_pool_outcome, reward_native_sol_outcome, reward_user_account_outcome,
    reward_user_check, sweep_sol_outcome, withdraw_pool_outcome,
};
use crate::processor::instruction_outcome;
use crate::processor::oracle::price_of;
use crate::processor::ranked_game::{
    close_escrow_ata_outcome, close_ranked_game_check, close_ranked_game_outcome, pay_pools_outcome,
    pay_sol_pool_outcome, pay_spl_pool_outcome, pool_balance, reward_winner_check,
    reward_winner_outcome, skr_pool, slice_pool, stands_at, usdc_pool, PoolAccounts,
};
use crate::processor::user_account::{withdraw_rewards_check, withdraw_rewards_outcome};
use crate::runtime::{Account, EffectView, Invocation};
use crate::state::game::GameAccount;
use crate::state::oracle::OraclePriceState;
use crate::state::ranked_game::{RankedGameState, RankedGameStatus};
use crate::state::user_account::UserAccount;
use vstd::prelude::*;

verus! {

// ---------------------------------------------------------------------------
// The winner of a ranked game
// ---------------------------------------------------------------------------

/// A winner's part of one pool of tokens: nothing where it comes to nothing, else
/// one transfer of it, before which the winner gets the token account that may be
/// missing.
pub open spec fn won_tokens(a: Seq<Account>, mint: int, escrow: int, winner_ata: int, bps: u16) -> Seq<Deed> {
    let amount = part(held(a[escrow]), bps);
    if amount == 0 {
        Seq::empty()
    } else {
        unless_zero(
            if a[winner_ata].data@.len() == 0 { 1 } else { 0 },
            Deed::NewTokens {
                payer: a[0].key@,
                address: a[winner_ata].key@,
                wallet: a[2].key@,
                mint: a[mint].key@,
                token_program: TOKEN_PROGRAM_ID@,
                lenient: false,
            },
        ).push(
            Deed::Tokens {
                source: a[escrow].key@,
                destination: a[winner_ata].key@,
                authority: a[1].key@,
                amount,
                checked: Some((a[mint].key@, 6)),
            },
        )
    }
}

/// Whether one pool of tokens can pay a winner: it is the ranked game's, and where
/// something is due, it goes to the winner's own token account.
pub open spec fn pool_can_pay(a: Seq<Account>, mint: int, escrow: int, winner_ata: int, bps: u16) -> bool {
    &&& keeps_tokens(a[escrow].key@, a[1].key@, a[mint].key@)
    &&& part(held(a[escrow]), bps) > 0 ==> keeps_tokens(a[winner_ata].key@, a[2].key@, a[mint].key@) && a[6].key@
        == TOKEN_PROGRAM_ID@
}

/// What the winner's parts of all pools are worth together, at the oracle's prices:
/// that of a lamport, and those of a million units of SKR and of SLICE.
pub open spec fn won_worth(a: Seq<Account>, rent: u64, oracle: OraclePriceState, bps: u16) -> nat {
    worth(part(above(a[1].lamports, rent), bps), oracle.sol_price_usd_micro_per_lamport, 1) + part(held(a[10]), bps)
        + worth(part(held(a[13]), bps), oracle.skr_price_usd_micro_per_atom, 1_000_000) + worth(
        part(held(a[16]), bps),
        oracle.slice_price_usd_micro_per_atom,
        1_000_000,
    )
}

pub proof fn lemma_part(whole: nat, bps: u16)
    requires
        bps <= 10_000,
        whole <= u64::MAX,
    ensures
        part(whole, bps) <= whole,
        low_64(share_floor(whole as u64, bps)) == part(whole, bps),
        share_floor(whole as u64, bps) == part(whole, bps),
{
    law_share_within_amount(whole as u64, bps);
}

pub proof fn lemma_held(account: Account)
    ensures
        held(account) <= u64::MAX,
        pool_balance(account.data@) == held(account),
{
    lemma_le_limits();
    if account.data@.len() >= 72 {
        lemma_le_value_bound(account.data@.subrange(64, 72));
    }
}

proof fn lemma_won_tokens(
    inv: Invocation,
    at: PoolAccounts,
    oracle: OraclePriceState,
    token: PaymentToken,
    ranked_game_id: u64,
    bump: u8,
    bps: u16,
    log: Seq<EffectView>,
)
    requires
        bps <= 10_000,
        token != PaymentToken::SOL,
    ensures
        ({
            let out = pay_spl_pool_outcome(inv, at, oracle, token, ranked_game_id, bump, bps, log);
            let (mint, escrow, winner) = (at.mint as int, at.escrow_ata as int, at.winner_ata as int);
            let a = inv.accounts@;
            &&& out.1 is Ok <==> pool_can_pay(a, mint, escrow, winner, bps)
            &&& out.1 matches Ok(paid) ==> adds(log, out.0, won_tokens(a, mint, escrow, winner, bps)) && paid
                == capped(worth(part(held(a[escrow]), bps), price_of(oracle, token), 1_000_000))
        }),
{
    broadcast use group_deeds;
    let escrow = inv.accounts@[at.escrow_ata as int];
    lemma_held(escrow);
    lemma_part(held(escrow), bps);
    law_base_units_of_one_token();
    let out = pay_spl_pool_outcome(inv, at, oracle, token, ranked_game_id, bump, bps, log);
    let done = won_tokens(inv.accounts@, at.mint as int, at.escrow_ata as int, at.winner_ata as int, bps);
    assert(0 * price_of(oracle, token) as nat == 0) by (nonlinear_arith);
    if out.1 is Ok {
        assert(deeds(out.0) =~= deeds(log) + done);
    }
}

/// Whether a winner can be rewarded with `bps` of every pool, as far as the accounts
/// go: the authority signs, the ranked game is finished, and the user account is the
/// winner's and takes part in it.
pub open spec fn may_win(inv: Invocation, ranked_game_id: u64, bps: u16) -> bool {
    let a = inv.accounts@;
    let ranked = RankedGameState::decode(a[1].data@)->0;
    let user = UserAccount::decode(a[3].data@)->0;
    &&& a.len() >= 18
    &&& signed_by(a, AUTHORITY@)
    &&& bps <= 10_000
    &&& a[9].key@ == USDC_MINT@ && a[12].key@ == SKR_MINT@ && a[15].key@ == SLICE_MINT@
    &&& holds_ranked(a[1], ranked_game_id, ranked)
    &&& ranked.status == RankedGameStatus::Finished
    &&& holds_user(a[3], user)
    &&& user.owner@ == a[2].key@
    &&& user.current_ranked_game@ == a[1].key@
    &&& holds_oracle(a[4], OraclePriceState::decode(a[4].data@)->0)
}

/// Whether all pools can pay a winner.
pub open spec fn pools_can_pay(inv: Invocation, bps: u16) -> bool {
    let a = inv.accounts@;
    &&& inv.rent is Ok
    &&& pool_can_pay(a, 9, 10, 11, bps)
    &&& pool_can_pay(a, 12, 13, 14, bps)
    &&& pool_can_pay(a, 15, 16, 17, bps)
}

/// The winner's parts of all pools.
pub open spec fn won_from_pools(inv: Invocation, bps: u16) -> Seq<Deed> {
    let a = inv.accounts@;
    let lamports = part(above(a[1].lamports, inv.rent->Ok_0.ranked_game), bps);
    unless_zero(lamports, Deed::Move { out_of: 1, into: 2, lamports }) + won_tokens(a, 9, 10, 11, bps) + won_tokens(
        a,
        12,
        13,
        14,
        bps,
    ) + won_tokens(a, 15, 16, 17, bps)
}

pub proof fn lemma_may_win(inv: Invocation, ranked_game_id: u64, bps: u16)
    ensures
        reward_winner_check(inv, ranked_game_id, bps) is Ok <==> may_win(inv, ranked_game_id, bps),
        reward_winner_check(inv, ranked_game_id, bps) matches Ok((user, oracle, _)) ==> UserAccount::decode(
            inv.accounts@[3].data@,
        ) == Some(user) && OraclePriceState::decode(inv.accounts@[4].data@) == Some(oracle)
            && inv.accounts@[3].data@.len() == 155,
{
    if let Ok((user, oracle, bump)) = reward_winner_check(inv, ranked_game_id, bps) {
        user.law_decode_bytes();
        assert(user.bytes() == inv.accounts@[3].data@);
    }
}

proof fn lemma_won_sol(inv: Invocation, oracle: OraclePriceState, bps: u16, log: Seq<EffectView>)
    requires
        bps <= 10_000,
        inv.rent is Ok,
    ensures
        ({
            let lamports = part(above(inv.accounts@[1].lamports, inv.rent->Ok_0.ranked_game), bps);
            let out = pay_sol_pool_outcome(inv, oracle, bps, log);
            &&& adds(log, out.0, unless_zero(lamports, Deed::Move { out_of: 1, into: 2, lamports }))
            &&& out.1 == Ok::<u64, ProgramError>(
                capped(worth(lamports, oracle.sol_price_usd_micro_per_lamport, 1)),
            )
        }),
{
    broadcast use group_deeds;
    let a = inv.accounts@;
    let rent = inv.rent->Ok_0.ranked_game;
    law_base_units_of_one_token();
    assert(0 * oracle.sol_price_usd_micro_per_lamport as nat == 0) by (nonlinear_arith);
    lemma_part(above(a[1].lamports, rent), bps);
    assert(surplus(a[1].lamports, rent) == above(a[1].lamports, rent));
    let lamports = part(above(a[1].lamports, rent), bps);
    assert(deeds(pay_sol_pool_outcome(inv, oracle, bps, log).0) =~= deeds(log) + unless_zero(
        lamports,
        Deed::Move { out_of: 1, into: 2, lamports },
    ));
}

#[verifier::rlimit(40)]
#[verifier::spinoff_prover]
pub proof fn lemma_won_from_pools(
    inv: Invocation,
    oracle: OraclePriceState,
    ranked_game_id: u64,
    bump: u8,
    bps: u16,
    log: Seq<EffectView>,
)
    requires
        bps <= 10_000,
    ensures
        ({
            let out = pay_pools_outcome(inv, oracle, ranked_game_id, bump, bps, log);
            &&& out.1 is Ok <==> pools_can_pay(inv, bps)
            &&& out.1 matches Ok(paid) ==> adds(log, out.0, won_from_pools(inv, bps)) && paid == capped(
                won_worth(inv.accounts@, inv.rent->Ok_0.ranked_game, oracle, bps),
            )
        }),
{
    lemma_held(inv.accounts@[10]);
    lemma_part(held(inv.accounts@[10]), bps);
    if inv.rent is Ok {
        lemma_won_sol(inv, oracle, bps, log);
        let log0 = pay_sol_pool_outcome(inv, oracle, bps, log).0;
        lemma_won_tokens(inv, usdc_pool(), oracle, PaymentToken::USDC, ranked_game_id, bump, bps, log0);
        let out1 = pay_spl_pool_outcome(
            inv,
            usdc_pool(),
            oracle,
            PaymentToken::USDC,
            ranked_game_id,
            bump,
            bps,
            log0,
        );
        lemma_won_tokens(inv, skr_pool(), oracle, PaymentToken::SKR, ranked_game_id, bump, bps, out1.0);
        let out2 = pay_spl_pool_outcome(
            inv,
            skr_pool(),
            oracle,
            PaymentToken::SKR,
            ranked_game_id,
            bump,
            bps,
            out1.0,
        );
        lemma_won_tokens(inv, slice_pool(), oracle, PaymentToken::SLICE, ranked_game_id, bump, bps, out2.0);
        let out3 = pay_spl_pool_outcome(
            inv,
            slice_pool(),
            oracle,
            PaymentToken::SLICE,
            ranked_game_id,
            bump,
            bps,
            out2.0,
        );
        if out1.1 is Ok && out2.1 is Ok && out3.1 is Ok {
            assert(deeds(out3.0) =~= deeds(log) + won_from_pools(inv, bps));
        }
    }
}

/// A winner gets the same part of every pool, and nothing else happens: of the
/// lamports above the rent, and of each kind of tokens, `payout_bps` ten-thousandths,
/// the whole pool at 10 000. What that is worth is added to what the account has won.
/// This is what happens whenever it can, and only then.
pub proof fn law_winner_is_paid_from_every_pool(
    inv: Invocation,
    ranked_game_id: u64,
    payout_bps: u16,
    log: Seq<EffectView>,
)
    ensures
        ({
            let reward = IndieGamesInstruction::RewardWinner { ranked_game_id, amount_usd_micro: payout_bps };
            let out = instruction_outcome(inv, reward, log);
            let a = inv.accounts@;
            let rent = inv.rent->Ok_0.ranked_game;
            let user = UserAccount::decode(a[3].data@)->0;
            let oracle = OraclePriceState::decode(a[4].data@)->0;
            let won = capped(won_worth(a, rent, oracle, payout_bps));
            let after = UserAccount {
                total_usd_rewards_micro: (user.total_usd_rewards_micro + won) as u64,
                total_wins: (user.total_wins + 1) as u32,
                current_ranked_game: NO_KEY,
                ..user
            };
            &&& out.1 is Ok <==> may_win(inv, ranked_game_id, payout_bps) && pools_can_pay(inv, payout_bps)
                && user.total_usd_rewards_micro + won <= u64::MAX && user.total_wins < u32::MAX
            &&& out.1 is Ok ==> adds(
                log,
                out.0,
                won_from_pools(inv, payout_bps).push(Deed::Write { at: 3, data: after.bytes() }),
            )
        }),
{
    broadcast use group_deeds;
    lemma_may_win(inv, ranked_game_id, payout_bps);
    if let Ok((user, oracle, bump)) = reward_winner_check(inv, ranked_game_id, payout_bps) {
        lemma_won_from_pools(inv, oracle, ranked_game_id, bump, payout_bps, log);
        let won = capped(won_worth(inv.accounts@, inv.rent->Ok_0.ranked_game, oracle, payout_bps));
        let after = UserAccount {
            total_usd_rewards_micro: (user.total_usd_rewards_micro + won) as u64,
            total_wins: (user.total_wins + 1) as u32,
            current_ranked_game: NO_KEY,
            ..user
        };
        after.law_decode_bytes();
        let out = reward_winner_outcome(inv, ranked_game_id, payout_bps, log).0;
        let paid_out = pay_pools_outcome(inv, oracle, ranked_game_id, bump, payout_bps, log).0;
        if reward_winner_outcome(inv, ranked_game_id, payout_bps, log).1 is Ok {
            assert(out == paid_out.push(EffectView::Store { account: 3, data: after.bytes() }));
            assert(deeds(out) =~= deeds(log) + won_from_pools(inv, payout_bps).push(
                Deed::Write { at: 3, data: after.bytes() },
            ));
        }
    }
}

/// A part grows with the pool and with the share; all of a pool is 10 000 parts of
/// ten thousand, and what is left of it after a part is never less than nothing.
pub proof fn law_part(whole: nat, bps: u16)
    requires
        bps <= 10_000,
    ensures
        part(whole, 10_000) == whole,
        part(whole, 0) == 0,
        part(whole, bps) * 10_000 <= whole * bps < (part(whole, bps) + 1) * 10_000,
        part(whole, bps) <= whole,
{
    assert(whole * 0 == 0) by (nonlinear_arith);
    assert(whole * bps <= whole * 10_000) by (nonlinear_arith)
        requires
            bps <= 10_000,
    ;
}

// ---------------------------------------------------------------------------
// A user account
// ---------------------------------------------------------------------------

/// The tokens that a token account holds of which there may be none yet.
pub open spec fn kept(account: Account) -> nat {
    if account.data@.len() == 0 {
        0
    } else {
        balance(account.data@)
    }
}

/// A user account's part of one pool of the protocol treasury: nothing where it comes
/// to nothing, else one transfer of it.
pub open spec fn given_tokens(a: Seq<Account>, source: int, destination: int, bps: u16) -> Seq<Deed> {
    let amount = part(kept(a[source]), bps);
    unless_zero(
        amount,
        Deed::Tokens {
            source: a[source].key@,
            destination: a[destination].key@,
            authority: a[2].key@,
            amount,
            checked: None,
        },
    )
}

/// Whether one pool of the protocol treasury can pay a user account: the token
/// accounts are those of the two, and that of the treasury, if it exists, is in use.
pub open spec fn treasury_can_give(a: Seq<Account>, source: int, destination: int, mint: Seq<u8>, bps: u16) -> bool {
    &&& keeps_tokens(a[source].key@, a[2].key@, mint)
    &&& keeps_tokens(a[destination].key@, a[3].key@, mint)
    &&& a[source].data@.len() == 0 || is_token_account(a[source].data@)
    &&& part(kept(a[source]), bps) > 0 ==> a[5].key@ == TOKEN_PROGRAM_ID@
}

/// Whether a user account may be rewarded, as far as the accounts go: the authority
/// signs, the treasury is the game's, and the user account is one of the game's.
pub open spec fn may_be_given(inv: Invocation, bps: u16) -> bool {
    let a = inv.accounts@;
    let game = GameAccount::decode(a[1].data@)->0;
    let user = UserAccount::decode(a[3].data@)->0;
    &&& a.len() >= 12
    &&& signed_by(a, AUTHORITY@)
    &&& bps <= 10_000
    &&& holds_game(a[1], game)
    &&& is_derived(a[2].key@, seq![GAME_PROTOCOL_SEED@, game.game_title@])
    &&& a[2].owner@ == PROGRAM_ID@
    &&& holds_user(a[3], user)
    &&& user.game@ == a[1].key@
    &&& holds_oracle(a[4], OraclePriceState::decode(a[4].data@)->0)
}

/// Whether all pools of the protocol treasury can pay a user account.
pub open spec fn treasury_can_pay(inv: Invocation, bps: u16) -> bool {
    let a = inv.accounts@;
    &&& treasury_can_give(a, 6, 7, USDC_MINT@, bps)
    &&& treasury_can_give(a, 8, 9, SKR_MINT@, bps)
    &&& treasury_can_give(a, 10, 11, SLICE_MINT@, bps)
    &&& inv.rent is Ok
    &&& part(above(a[2].lamports, a[2].rent_floor), bps) == 0 || a[3].lamports + part(
        above(a[2].lamports, a[2].rent_floor),
        bps,
    ) <= u64::MAX
}

/// A user account's parts of all pools of the protocol treasury.
pub open spec fn given_from_pools(a: Seq<Account>, bps: u16) -> Seq<Deed> {
    let lamports = part(above(a[2].lamports, a[2].rent_floor), bps);
    given_tokens(a, 6, 7, bps) + given_tokens(a, 8, 9, bps) + given_tokens(a, 10, 11, bps) + unless_zero(
        lamports,
        Deed::Move { out_of: 2, into: 3, lamports },
    )
}

/// What a user account's parts of all pools are worth together, at the oracle's
/// prices: that of a lamport, and those of a million units of SKR and of SLICE.
pub open spec fn given_worth(a: Seq<Account>, oracle: OraclePriceState, bps: u16) -> nat {
    part(kept(a[6]), bps) + worth(part(kept(a[8]), bps), oracle.skr_price_usd_micro_per_atom, 1_000_000) + worth(
        part(kept(a[10]), bps),
        oracle.slice_price_usd_micro_per_atom,
        1_000_000,
    ) + worth(part(above(a[2].lamports, a[2].rent_floor), bps), oracle.sol_price_usd_micro_per_lamport, 1)
}

proof fn lemma_given_tokens(
    inv: Invocation,
    source: usize,
    destination: usize,
    oracle: OraclePriceState,
    token: PaymentToken,
    seeds: Seq<Seq<u8>>,
    bps: u16,
    log: Seq<EffectView>,
)
    requires
        bps <= 10_000,
        token != PaymentToken::SOL,
    ensures
        ({
            let out = reward_from_protocol_pool_outcome(inv, source, destination, oracle, token, seeds, bps, log);
            let a = inv.accounts@;
            &&& out.1 is Ok <==> treasury_can_give(a, source as int, destination as int, token.spec_mint()@, bps)
            &&& out.1 matches Ok(paid) ==> adds(log, out.0, given_tokens(a, source as int, destination as int, bps))
                && paid == capped(worth(part(kept(a[source as int]), bps), price_of(oracle, token), 1_000_000))
        }),
{
    broadcast use group_deeds;
    let account = inv.accounts@[source as int];
    lemma_held(account);
    law_base_units_of_one_token();
    assert(0 * price_of(oracle, token) as nat == 0) by (nonlinear_arith);
    assert(0 * bps as nat == 0) by (nonlinear_arith);
    if account.data@.len() == 0 || is_token_account(account.data@) {
        assert(kept(account) == held(account));
        lemma_part(held(account), bps);
    }
    let out = reward_from_protocol_pool_outcome(inv, source, destination, oracle, token, seeds, bps, log);
    if out.1 is Ok {
        assert(deeds(out.0) =~= deeds(log) + given_tokens(inv.accounts@, source as int, destination as int, bps));
    }
}

pub proof fn lemma_may_be_given(inv: Invocation, bps: u16)
    ensures
        reward_user_check(inv, bps) is Ok <==> may_be_given(inv, bps),
        reward_user_check(inv, bps) matches Ok((_, _, user, oracle)) ==> UserAccount::decode(
            inv.accounts@[3].data@,
        ) == Some(user) && OraclePriceState::decode(inv.accounts@[4].data@) == Some(oracle)
            && inv.accounts@[3].data@.len() == 155,
{
    if let Ok((game, bump, user, oracle)) = reward_user_check(inv, bps) {
        user.law_decode_bytes();
        assert(user.bytes() == inv.accounts@[3].data@);
    }
}

pub proof fn lemma_given_from_pools(
    inv: Invocation,
    oracle: OraclePriceState,
    seeds: Seq<Seq<u8>>,
    bps: u16,
    log: Seq<EffectView>,
)
    requires
        bps <= 10_000,
    ensures
        ({
            let out = reward_from_pools_outcome(inv, oracle, seeds, bps, log);
            &&& out.1 is Ok <==> treasury_can_pay(inv, bps)
            &&& out.1 matches Ok(paid) ==> adds(log, out.0, given_from_pools(inv.accounts@, bps)) && paid == capped(
                given_worth(inv.accounts@, oracle, bps),
            )
        }),
{
    broadcast use group_deeds;
    let a = inv.accounts@;
    law_base_units_of_one_token();
    lemma_given_tokens(inv, 6, 7, oracle, PaymentToken::USDC, seeds, bps, log);
    let out1 = reward_from_protocol_pool_outcome(inv, 6, 7, oracle, PaymentToken::USDC, seeds, bps, log);
    lemma_given_tokens(inv, 8, 9, oracle, PaymentToken::SKR, seeds, bps, out1.0);
    let out2 = reward_from_protocol_pool_outcome(inv, 8, 9, oracle, PaymentToken::SKR, seeds, bps, out1.0);
    lemma_given_tokens(inv, 10, 11, oracle, PaymentToken::SLICE, seeds, bps, out2.0);
    let out3 = reward_from_protocol_pool_outcome(inv, 10, 11, oracle, PaymentToken::SLICE, seeds, bps, out2.0);
    assert(0 * oracle.sol_price_usd_micro_per_lamport as nat == 0) by (nonlinear_arith);
    let spendable = above(a[2].lamports, a[2].rent_floor);
    assert(surplus(a[2].lamports, a[2].rent_floor) == spendable);
    lemma_part(spendable, bps);
    let out4 = reward_native_sol_outcome(inv, oracle, bps, out3.0);
    let lamports = part(spendable, bps);
    if out4.1 is Ok {
        assert(deeds(out4.0) =~= deeds(out3.0) + unless_zero(lamports, Deed::Move { out_of: 2, into: 3, lamports }));
        assert(out4.1 == Ok::<u64, ProgramError>(
            capped(worth(lamports, oracle.sol_price_usd_micro_per_lamport, 1)),
        ));
    }
    if out1.1 is Ok && out2.1 is Ok && out3.1 is Ok && out4.1 is Ok {
        assert(deeds(out4.0) =~= deeds(log) + given_from_pools(a, bps));
    }
}

/// A user account gets the same part of every pool of its game's protocol treasury,
/// and nothing else happens: of each kind of tokens, and of the lamports above the
/// rent, `percentage_of_the_pool` ten-thousandths. What that is worth is added to what
/// the account has won. This is what happens whenever it can, and only then.
pub proof fn law_user_account_is_paid_from_every_pool(
    inv: Invocation,
    percentage_of_the_pool: u16,
    log: Seq<EffectView>,
)
    ensures
        ({
            let out = instruction_outcome(
                inv,
                IndieGamesInstruction::RewardUserAccount { percentage_of_the_pool },
                log,
            );
            let a = inv.accounts@;
            let user = UserAccount::decode(a[3].data@)->0;
            let oracle = OraclePriceState::decode(a[4].data@)->0;
            let won = capped(given_worth(a, oracle, percentage_of_the_pool));
            let after = UserAccount {
                total_usd_rewards_micro: (user.total_usd_rewards_micro + won) as u64,
                ..user
            };
            &&& out.1 is Ok <==> may_be_given(inv, percentage_of_the_pool) && treasury_can_pay(
                inv,
                percentage_of_the_pool,
            ) && user.total_usd_rewards_micro + won <= u64::MAX
            &&& out.1 is Ok ==> adds(
                log,
                out.0,
                given_from_pools(a, percentage_of_the_pool).push(Deed::Write { at: 3, data: after.bytes() }),
            )
        }),
{
    broadcast use group_deeds;
    let bps = percentage_of_the_pool;
    lemma_may_be_given(inv, bps);
    if let Ok((game, bump, user, oracle)) = reward_user_check(inv, bps) {
        let seeds = with_bump(game_protocol_seeds(game.game_title@), bump);
        lemma_given_from_pools(inv, oracle, seeds, bps, log);
        let won = capped(given_worth(inv.accounts@, oracle, bps));
        let after = UserAccount {
            total_usd_rewards_micro: (user.total_usd_rewards_micro + won) as u64,
            ..user
        };
        after.law_decode_bytes();
        let out = reward_user_account_outcome(inv, bps, log);
        let paid_out = reward_from_pools_outcome(inv, oracle, seeds, bps, log).0;
        if out.1 is Ok {
            assert(out.0 == paid_out.push(EffectView::Store { account: 3, data: after.bytes() }));
            assert(deeds(out.0) =~= deeds(log) + given_from_pools(inv.accounts@, bps).push(
                Deed::Write { at: 3, data: after.bytes() },
            ));
        }
    }
}

// ---------------------------------------------------------------------------
// Withdrawals
// ---------------------------------------------------------------------------

/// Whether a token account is in use: it has data, and was initialized.
pub open spec fn in_use(account: Account) -> bool {
    account.data@.len() != 0 && !(account.data@.len() == 165 && account.data@[108] == 0)
}

/// All tokens of one kind that an account of the program holds.
pub open spec fn all_tokens(a: Seq<Account>, holder: int, source: int, destination: int) -> Seq<Deed> {
    let amount = if in_use(a[source]) {
        balance(a[source].data@)
    } else {
        0
    };
    unless_zero(
        amount,
        Deed::Tokens {
            source: a[source].key@,
            destination: a[destination].key@,
            authority: a[holder].key@,
            amount,
            checked: None,
        },
    )
}

/// Whether one kind of tokens can be withdrawn: the token account is the holder's,
/// and if it is in use, it says so of itself.
pub open spec fn can_withdraw(a: Seq<Account>, holder: int, source: int, mint: Seq<u8>, token_program: int) -> bool {
    let data = a[source].data@;
    &&& keeps_tokens(a[source].key@, a[holder].key@, mint)
    &&& in_use(a[source]) ==> {
        &&& is_token_account(data)
        &&& data.subrange(0, 32) == mint
        &&& data.subrange(32, 64) == a[holder].key@
        &&& balance(data) > 0 ==> a[token_program].key@ == TOKEN_PROGRAM_ID@
    }
}

/// Whether everything that the account at `holder` has can be withdrawn. The token
/// accounts for SKR, SLICE and USDC stand right behind it.
pub open spec fn can_withdraw_all(inv: Invocation, holder: int, token_program: int) -> bool {
    let a = inv.accounts@;
    &&& can_withdraw(a, holder, holder + 1, SKR_MINT@, token_program)
    &&& can_withdraw(a, holder, holder + 2, SLICE_MINT@, token_program)
    &&& can_withdraw(a, holder, holder + 3, USDC_MINT@, token_program)
    &&& inv.rent is Ok
}

/// Everything that the account at `holder` has: all of its tokens, to the token
/// accounts that stand behind its own, and the lamports above its rent, to the first
/// account.
pub open spec fn all_that_is_held(a: Seq<Account>, holder: usize) -> Seq<Deed> {
    let lamports = above(a[holder as int].lamports, a[holder as int].rent_floor);
    all_tokens(a, holder as int, holder + 1, holder + 4) + all_tokens(a, holder as int, holder + 2, holder + 5)
        + all_tokens(a, holder as int, holder + 3, holder + 6) + unless_zero(
        lamports,
        Deed::Move { out_of: holder, into: 0, lamports },
    )
}

proof fn lemma_all_tokens(
    inv: Invocation,
    holder: usize,
    source: usize,
    destination: usize,
    token: PaymentToken,
    token_program: usize,
    seeds: Seq<Seq<u8>>,
    log: Seq<EffectView>,
)
    ensures
        ({
            let out = withdraw_pool_outcome(inv, holder, source, destination, token, token_program, seeds, log);
            let a = inv.accounts@;
            let mint = token.spec_mint()@;
            &&& out.1 is Ok <==> can_withdraw(a, holder as int, source as int, mint, token_program as int)
            &&& out.1 is Ok ==> adds(log, out.0, all_tokens(a, holder as int, source as int, destination as int))
        }),
{
    broadcast use group_deeds;
    let a = inv.accounts@;
    lemma_held(a[source as int]);
    let out = withdraw_pool_outcome(inv, holder, source, destination, token, token_program, seeds, log);
    if out.1 is Ok {
        assert(deeds(out.0) =~= deeds(log) + all_tokens(a, holder as int, source as int, destination as int));
    }
}

proof fn lemma_all_lamports(inv: Invocation, holder: usize, log: Seq<EffectView>)
    ensures
        ({
            let out = sweep_sol_outcome(inv, holder, 0, log);
            let account = inv.accounts@[holder as int];
            let lamports = above(account.lamports, account.rent_floor);
            &&& out.1 is Ok <==> inv.rent is Ok
            &&& out.1 is Ok ==> adds(
                log,
                out.0,
                unless_zero(lamports, Deed::Move { out_of: holder, into: 0, lamports }),
            )
        }),
{
    broadcast use group_deeds;
    let account = inv.accounts@[holder as int];
    let lamports = above(account.lamports, account.rent_floor);
    assert(surplus(account.lamports, account.rent_floor) == lamports);
    assert(inv.rent is Ok ==> deeds(sweep_sol_outcome(inv, holder, 0, log).0) =~= deeds(log) + unless_zero(
        lamports,
        Deed::Move { out_of: holder, into: 0, lamports },
    ));
}

/// A game's income goes to its owner, all of it, and nothing else happens: every token
/// of each kind, and the lamports above the rent. This is what happens whenever the
/// owner asks for it and the token accounts are the game's, and only then.
pub proof fn law_developer_gets_everything(inv: Invocation, log: Seq<EffectView>)
    ensures
        ({
            let out = instruction_outcome(inv, IndieGamesInstruction::DeveloperWithdraw, log);
            let a = inv.accounts@;
            let game = GameAccount::decode(a[1].data@)->0;
            &&& out.1 is Ok <==> a.len() >= 9 && holds_game(a[1], game) && signed_by(a, game.owner@) && is_derived(
                a[1].key@,
                seq![GAME_SEED@, game.game_title@],
            ) && can_withdraw_all(inv, 1, 8)
            &&& out.1 is Ok ==> adds(log, out.0, all_that_is_held(a, 1))
        }),
{
    let a = inv.accounts@;
    if let Ok((game, bump)) = developer_withdraw_check(inv) {
        let seeds = with_bump(game_seeds(game.game_title@), bump);
        lemma_all_tokens(inv, 1, 2, 5, PaymentToken::SKR, 8, seeds, log);
        let log1 = withdraw_pool_outcome(inv, 1, 2, 5, PaymentToken::SKR, 8, seeds, log).0;
        lemma_all_tokens(inv, 1, 3, 6, PaymentToken::SLICE, 8, seeds, log1);
        let log2 = withdraw_pool_outcome(inv, 1, 3, 6, PaymentToken::SLICE, 8, seeds, log1).0;
        lemma_all_tokens(inv, 1, 4, 7, PaymentToken::USDC, 8, seeds, log2);
        let log3 = withdraw_pool_outcome(inv, 1, 4, 7, PaymentToken::USDC, 8, seeds, log2).0;
        lemma_all_lamports(inv, 1, log3);
        let out = developer_withdraw_outcome(inv, log);
        if out.1 is Ok {
            assert(deeds(out.0) =~= deeds(log) + all_that_is_held(a, 1));
        }
    }
}

/// What a user account has won goes to its owner, all of it, and nothing else happens:
/// every token of each kind, and the lamports above the rent. This is what happens
/// whenever the owner asks for it with the timestamp of the account and the token
/// accounts are the user account's, and only then.
pub proof fn law_user_gets_everything(inv: Invocation, timestamp: u64, log: Seq<EffectView>)
    ensures
        ({
            let out = instruction_outcome(inv, IndieGamesInstruction::WithdrawRewards { timestamp }, log);
            let a = inv.accounts@;
            let user = UserAccount::decode(a[2].data@)->0;
            &&& out.1 is Ok <==> a.len() >= 10 && holds_user(a[2], user) && signed_by(a, user.owner@) && a[1].key@
                == user.game@ && is_derived(
                a[2].key@,
                seq![USER_SEED@, user.owner@, user.game@, le_bytes(timestamp as nat, 8)],
            ) && can_withdraw_all(inv, 2, 9)
            &&& out.1 is Ok ==> adds(log, out.0, all_that_is_held(a, 2))
        }),
{
    let a = inv.accounts@;
    if let Ok(seeds) = withdraw_rewards_check(inv, timestamp) {
        lemma_all_tokens(inv, 2, 3, 6, PaymentToken::SKR, 9, seeds, log);
        let log1 = withdraw_pool_outcome(inv, 2, 3, 6, PaymentToken::SKR, 9, seeds, log).0;
        lemma_all_tokens(inv, 2, 4, 7, PaymentToken::SLICE, 9, seeds, log1);
        let log2 = withdraw_pool_outcome(inv, 2, 4, 7, PaymentToken::SLICE, 9, seeds, log1).0;
        lemma_all_tokens(inv, 2, 5, 8, PaymentToken::USDC, 9, seeds, log2);
        let log3 = withdraw_pool_outcome(inv, 2, 5, 8, PaymentToken::USDC, 9, seeds, log2).0;
        lemma_all_lamports(inv, 2, log3);
        let out = withdraw_rewards_outcome(inv, timestamp, log);
        if out.1 is Ok {
            assert(deeds(out.0) =~= deeds(log) + all_that_is_held(a, 2));
        }
    }
}

// ---------------------------------------------------------------------------
// Closing a ranked game
// ---------------------------------------------------------------------------

/// Whether the token account at `escrow` has to be closed: it exists, and does not
/// stand at one of the positions `before` as well.
pub open spec fn to_close(a: Seq<Account>, escrow: int, before: Seq<int>) -> bool {
    a[escrow].data@.len() != 0 && forall|k: int|
        0 <= k < before.len() ==> a[#[trigger] before[k]].key@ != a[escrow].key@
}

/// The end of one pool of a ranked game: what it holds goes to the authority, and the
/// token account is closed, its rent going to the authority as well.
pub open spec fn closed_pool(
    a: Seq<Account>,
    mint: int,
    escrow: int,
    authority_ata: int,
    before: Seq<int>,
) -> Seq<Deed> {
    let amount = balance(a[escrow].data@);
    if !to_close(a, escrow, before) {
        Seq::empty()
    } else {
        unless_zero(
            amount,
            Deed::Tokens {
                source: a[escrow].key@,
                destination: a[authority_ata].key@,
                authority: a[1].key@,
                amount,
                checked: Some((a[mint].key@, a[mint].data@[44])),
            },
        ).push(Deed::CloseTokens { account: a[escrow].key@, rent_to: a[0].key@, authority: a[1].key@ })
    }
}

/// Whether one pool of a ranked game can be closed: there is nothing to close, or it is
/// the ranked game's, and what it holds can go to the authority's own token account.
pub open spec fn can_close(
    a: Seq<Account>,
    mint: int,
    escrow: int,
    authority_ata: int,
    before: Seq<int>,
) -> bool {
    to_close(a, escrow, before) ==> {
        &&& keeps_tokens(a[escrow].key@, a[1].key@, a[mint].key@)
        &&& a[escrow].data@.len() >= 72
        &&& a[2].key@ == TOKEN_PROGRAM_ID@
        &&& balance(a[escrow].data@) > 0 ==> {
            &&& keeps_tokens(a[authority_ata].key@, a[0].key@, a[mint].key@)
            &&& a[authority_ata].data@.len() != 0
            &&& a[mint].data@.len() >= 45
        }
    }
}

proof fn lemma_closed_pool(
    inv: Invocation,
    mint: usize,
    escrow: usize,
    authority_ata: usize,
    closed: Seq<usize>,
    before: Seq<int>,
    seeds: Seq<Seq<u8>>,
    log: Seq<EffectView>,
)
    requires
        closed.len() == before.len(),
        forall|k: int| 0 <= k < closed.len() ==> #[trigger] closed[k] as int == #[trigger] before[k],
    ensures
        ({
            let out = close_escrow_ata_outcome(inv, mint, escrow, authority_ata, closed, seeds, log);
            let a = inv.accounts@;
            &&& out.1 is Ok <==> can_close(a, mint as int, escrow as int, authority_ata as int, before)
            &&& out.1 is Ok ==> adds(
                log,
                out.0,
                closed_pool(a, mint as int, escrow as int, authority_ata as int, before),
            )
        }),
{
    broadcast use group_deeds;
    let a = inv.accounts@;
    lemma_held(a[escrow as int]);
    if stands_at(inv, closed, escrow) {
        let k = choose|k: int|
            0 <= k < closed.len() && a[#[trigger] closed[k] as int].key@ == a[escrow as int].key@;
        assert(a[before[k]].key@ == a[escrow as int].key@);
        assert(!to_close(a, escrow as int, before));
    } else {
        assert forall|k: int| 0 <= k < before.len() implies a[#[trigger] before[k]].key@ != a[escrow as int].key@ by {
            assert(closed[k] as int == before[k]);
        }
    }
    let out = close_escrow_ata_outcome(inv, mint, escrow, authority_ata, closed, seeds, log);
    if out.1 is Ok {
        assert(deeds(out.0) =~= deeds(log) + closed_pool(
            a,
            mint as int,
            escrow as int,
            authority_ata as int,
            before,
        ));
    }
}

/// When a ranked game is closed, each of its token accounts that exists is emptied and
/// closed to the authority, once, and only then its data is cleared and its lamports go
/// to the authority; nothing else happens. This is what happens whenever the authority
/// asks for it and the token accounts are the right ones, and only then.
#[verifier::rlimit(60)]
#[verifier::spinoff_prover]
pub proof fn law_close_leaves_nothing(inv: Invocation, ranked_game_id: u64, log: Seq<EffectView>)
    ensures
        ({
            let out = instruction_outcome(inv, IndieGamesInstruction::CloseRankedGame { ranked_game_id }, log);
            let a = inv.accounts@;
            &&& out.1 is Ok <==> a.len() >= 12 && signed_by(a, AUTHORITY@) && a[3].key@ == USDC_MINT@ && a[6].key@
                == SKR_MINT@ && a[9].key@ == SLICE_MINT@ && a[1].owner@ == PROGRAM_ID@ && is_derived(
                a[1].key@,
                seq![RANKED_GAME_SEED@, le_bytes(ranked_game_id as nat, 8)],
            ) && can_close(a, 3, 4, 5, seq![]) && can_close(a, 6, 7, 8, seq![4]) && can_close(
                a,
                9,
                10,
                11,
                seq![4, 7],
            )
            &&& out.1 is Ok ==> adds(
                log,
                out.0,
                closed_pool(a, 3, 4, 5, seq![]) + closed_pool(a, 6, 7, 8, seq![4]) + closed_pool(
                    a,
                    9,
                    10,
                    11,
                    seq![4, 7],
                ) + seq![Deed::Clear { at: 1 }, Deed::Drain { out_of: 1, into: 0 }],
            )
        }),
{
    broadcast use group_deeds;
    let a = inv.accounts@;
    if let Ok(bump) = close_ranked_game_check(inv, ranked_game_id) {
        let seeds = with_bump(ranked_game_seeds(ranked_game_id), bump);
        lemma_closed_pool(inv, 3, 4, 5, seq![], seq![], seeds, log);
        let log1 = close_escrow_ata_outcome(inv, 3, 4, 5, seq![], seeds, log).0;
        lemma_closed_pool(inv, 6, 7, 8, seq![4], seq![4], seeds, log1);
        let log2 = close_escrow_ata_outcome(inv, 6, 7, 8, seq![4], seeds, log1).0;
        lemma_closed_pool(inv, 9, 10, 11, seq![4, 7], seq![4, 7], seeds, log2);
        let log3 = close_escrow_ata_outcome(inv, 9, 10, 11, seq![4, 7], seeds, log2).0;
        let out = close_ranked_game_outcome(inv, ranked_game_id, log);
        if out.1 is Ok {
            let pools = closed_pool(a, 3, 4, 5, seq![]) + closed_pool(a, 6, 7, 8, seq![4]) + closed_pool(
                a,
                9,
                10,
                11,
                seq![4, 7],
            );
            assert(out.0 == log3.push(EffectView::ZeroData { account: 1 }).push(
                EffectView::DrainLamports { from: 1, to: 0 },
            ));
            assert(deeds(log3) =~= deeds(log) + pools);
            assert(deeds(out.0) =~= deeds(log) + (pools + seq![
                Deed::Clear { at: 1 },
                Deed::Drain { out_of: 1, into: 0 },
            ]));
        }
    }
}

} // verus!
