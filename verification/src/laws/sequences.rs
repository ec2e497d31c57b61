//! What one instruction leaves for the next.

use crate::constants::{
    PaymentToken, Pubkey, AUTHORITY, CURRENT_GAME_STATE_VERSION, NO_KEY, PROGRAM_ID,
    RANKED_GAME_DISCRIMINATOR,
};
use crate::error::ProgramError;
use crate::helpers::{
    base_units, bump_for, charge, decimals_of, law_charges_add_up, law_share_within_amount,
    law_usdc_charge, low_64, oracle_of, oracle_seeds, protocol_part, share_floor, surplus, user_of,
    user_seeds, BPS_DENOMINATOR,
};
use crate::laws::access::refused_outright;
use crate::processor::game::{
    owned_game, reward_native_sol_outcome, transfer_game_ownership_outcome, update_fee_share_outcome,
    update_game_cost_outcome, upgrade_game_version_outcome, upgraded,
};
use crate::processor::oracle::{
    first_prices, init_oracle_outcome, price_of, update_oracle_prices_outcome, with_prices,
};
use crate::processor::payment::{
    process_payment_outcome, ranked_amounts, ranked_fee, ranked_fee_split, split_payment_outcome,
    PaymentAccounts, SplPaymentAccounts,
};
use crate::processor::ranked_game::{
    create_ranked_game_check, create_ranked_game_outcome, join_check, join_ranked_game_outcome,
    new_ranked_game, pay_pools_outcome, pay_sol_pool_outcome, ranked_game_of, reward_winner_check,
    reward_winner_outcome, update_ranked_game_status_outcome, with_participant, with_ranked_game,
    with_win,
};
use crate::processor::user_account::{create_user_account_outcome, new_user, with_user};
use crate::runtime::{accept, refuse, stored, Account, EffectView, Invocation};
use crate::state::game::{GameAccount, GameAccountV1};
use crate::state::oracle::OraclePriceState;
use crate::state::ranked_game::{RankedGameState, RankedGameStatus};
use crate::state::user_account::UserAccount;
use vstd::prelude::*;

verus! {

/// Whether `after` is the account `before` once `data` was stored over its front.
pub open spec fn holds(before: Account, data: Seq<u8>, after: Account) -> bool {
    &&& after.key@ == before.key@
    &&& after.owner@ == before.owner@
    &&& after.data@ == stored(before.data@, data)
}

/// Whether the last effect is a store to an account, of which `after` is the outcome.
pub open spec fn last_stored(log: Seq<EffectView>, account: usize, before: Account, after: Account) -> bool {
    log.len() > 0 && match log.last() {
        EffectView::Store { account: stored_to, data } => stored_to == account && holds(before, data, after),
        _ => false,
    }
}

/// Whether an account that the program creates with `len` bytes is `after`, once
/// the last effect, a store to it, is carried out.
pub open spec fn created_with(
    log: Seq<EffectView>,
    account: usize,
    key: Pubkey,
    len: nat,
    after: Account,
) -> bool {
    &&& after.key@ == key@
    &&& after.owner@ == PROGRAM_ID@
    &&& after.data@.len() == len
    &&& log.len() > 0
    &&& match log.last() {
        EffectView::Store {
            account: stored_to,
            data,
        } => stored_to == account && after.data@.take(data.len() as int)
            == data,
        _ => false,
    }
}

// ---------------------------------------------------------------------------
// The oracle
// ---------------------------------------------------------------------------

/// Whether an account is the oracle's and gives these prices.
pub open spec fn gives_prices(account: Account, sol: u64, skr: u64, slice: u64) -> bool {
    match oracle_of(account) {
        Ok(oracle) => {
            &&& price_of(oracle, PaymentToken::SOL) == sol
            &&& price_of(oracle, PaymentToken::SKR) == skr
            &&& price_of(oracle, PaymentToken::SLICE) == slice
            &&& price_of(oracle, PaymentToken::USDC) == 1_000_000
        },
        Err(_) => false,
    }
}

/// Once the prices were updated, whoever reads the oracle gets the new prices.
pub proof fn law_updated_prices_are_read(
    inv: Invocation,
    sol: u64,
    skr: u64,
    slice: u64,
    log: Seq<EffectView>,
    after: Account,
)
    requires
        update_oracle_prices_outcome(inv, sol, skr, slice, log).1 is Ok,
        last_stored(update_oracle_prices_outcome(inv, sol, skr, slice, log).0, 1, inv.accounts@[1], after),
    ensures
        gives_prices(after, sol, skr, slice),
{
    let state = oracle_of(inv.accounts@[1])->Ok_0;
    let new_state = with_prices(state, sol, skr, slice);
    state.law_decode_bytes();
    new_state.law_decode_bytes();
    assert(after.data@ =~= new_state.bytes());
}

/// Once the oracle was created, whoever reads it gets its first prices.
pub proof fn law_first_prices_are_read(
    inv: Invocation,
    sol: u64,
    skr: u64,
    slice: u64,
    log: Seq<EffectView>,
    after: Account,
)
    requires
        init_oracle_outcome(inv, sol, skr, slice, log).1 is Ok,
        created_with(
            init_oracle_outcome(inv, sol, skr, slice, log).0,
            1,
            inv.accounts@[1].key,
            OraclePriceState::LEN as nat,
            after,
        ),
    ensures
        gives_prices(after, sol, skr, slice),
{
    let bump = bump_for(oracle_seeds(), inv.accounts@[1].key@)->Ok_0;
    let state = first_prices(sol, skr, slice, bump);
    state.law_decode_bytes();
    assert(after.data@ =~= state.bytes());
}

/// The oracle never gets a price of zero.
pub proof fn law_prices_are_never_zero(inv: Invocation, sol: u64, skr: u64, slice: u64, log: Seq<EffectView>)
    requires
        sol == 0 || skr == 0 || slice == 0,
    ensures
        refused_outright(init_oracle_outcome(inv, sol, skr, slice, log), log),
        refused_outright(update_oracle_prices_outcome(inv, sol, skr, slice, log), log),
{
}

/// An oracle that exists is not created again.
pub proof fn law_oracle_is_created_once(inv: Invocation, sol: u64, skr: u64, slice: u64, log: Seq<EffectView>)
    requires
        inv.accounts@[1].data@.len() > 0,
    ensures
        refused_outright(init_oracle_outcome(inv, sol, skr, slice, log), log),
{
}

// ---------------------------------------------------------------------------
// Games
// ---------------------------------------------------------------------------

proof fn lemma_game_is_read(game: GameAccount, before: Account, new_data: GameAccount, after: Account)
    requires
        GameAccount::decode(before.data@) == Some(game),
        holds(before, new_data.bytes(), after),
    ensures
        GameAccount::decode(after.data@) == Some(new_data),
{
    game.law_decode_bytes();
    new_data.law_decode_bytes();
    assert(exists|x: GameAccount| #[trigger] x.bytes() == before.data@);
    assert(after.data@ =~= new_data.bytes());
}

/// Setting the fees of a game changes the fees and nothing else.
pub proof fn law_fee_share_is_read(
    inv: Invocation,
    dev_fee_bps: u16,
    share_bps: u16,
    log: Seq<EffectView>,
    after: Account,
)
    requires
        update_fee_share_outcome(inv, dev_fee_bps, share_bps, log).1 is Ok,
        last_stored(update_fee_share_outcome(inv, dev_fee_bps, share_bps, log).0, 1, inv.accounts@[1], after),
    ensures
        GameAccount::decode(after.data@) == Some(
            GameAccount {
                dev_fee_bps,
                game_to_protocol_share_bps: share_bps,
                ..GameAccount::decode(inv.accounts@[1].data@)->0
            },
        ),
{
    let game = owned_game(inv)->Ok_0;
    let new_data = GameAccount { dev_fee_bps, game_to_protocol_share_bps: share_bps, ..game };
    lemma_game_is_read(game, inv.accounts@[1], new_data, after);
}

/// Setting the cost of a game changes the cost and nothing else.
pub proof fn law_game_cost_is_read(inv: Invocation, game_cost: u64, log: Seq<EffectView>, after: Account)
    requires
        update_game_cost_outcome(inv, game_cost, log).1 is Ok,
        last_stored(update_game_cost_outcome(inv, game_cost, log).0, 1, inv.accounts@[1], after),
    ensures
        GameAccount::decode(after.data@) == Some(
            GameAccount { game_cost, ..GameAccount::decode(inv.accounts@[1].data@)->0 },
        ),
{
    let game = owned_game(inv)->Ok_0;
    lemma_game_is_read(game, inv.accounts@[1], GameAccount { game_cost, ..game }, after);
}

/// Once a game was given away, it is its new owner's and nobody else's, and all
/// else about it is as before.
pub proof fn law_ownership_passes(inv: Invocation, new_owner: Pubkey, log: Seq<EffectView>, next: Invocation)
    requires
        transfer_game_ownership_outcome(inv, new_owner, log).1 is Ok,
        next.accounts@.len() >= 2,
        next.accounts@[0].is_signer,
        last_stored(
            transfer_game_ownership_outcome(inv, new_owner, log).0,
            1,
            inv.accounts@[1],
            next.accounts@[1],
        ),
    ensures
        next.accounts@[0].key@ == new_owner@ ==> owned_game(next) == Ok::<GameAccount, ProgramError>(
            GameAccount { owner: new_owner, ..GameAccount::decode(inv.accounts@[1].data@)->0 },
        ),
        next.accounts@[0].key@ != new_owner@ ==> owned_game(next) == Err::<GameAccount, ProgramError>(
            ProgramError::IllegalOwner,
        ),
{
    let game = owned_game(inv)->Ok_0;
    lemma_game_is_read(game, inv.accounts@[1], GameAccount { owner: new_owner, ..game }, next.accounts@[1]);
}

/// An upgrade keeps what the first layout held, and a second one changes nothing.
pub proof fn law_upgrade_keeps_the_game(
    inv: Invocation,
    log: Seq<EffectView>,
    next: Invocation,
    next_log: Seq<EffectView>,
)
    requires
        upgrade_game_version_outcome(inv, log).1 is Ok,
        inv.accounts@[1].data@[1] < CURRENT_GAME_STATE_VERSION,
        next.accounts@.len() >= 3,
        next.accounts@[0].key@ == AUTHORITY@,
        next.accounts@[0].is_signer,
        created_with(
            upgrade_game_version_outcome(inv, log).0,
            1,
            inv.accounts@[1].key,
            GameAccount::MAX_SIZE as nat,
            next.accounts@[1],
        ),
    ensures
        GameAccount::decode(next.accounts@[1].data@) == Some(
            upgraded(GameAccountV1::decode(inv.accounts@[1].data@)->0),
        ),
        upgrade_game_version_outcome(next, next_log) == accept(next_log),
{
    let old_game = GameAccountV1::decode(inv.accounts@[1].data@)->0;
    let game = upgraded(old_game);
    game.law_decode_bytes();
    let data = next.accounts@[1].data@;
    assert(data =~= game.bytes());
    assert(data[1] == game.version) by {
        reveal(GameAccount::encode);
    }
}

// ---------------------------------------------------------------------------
// User accounts
// ---------------------------------------------------------------------------

/// A new user account is stored as it is asked for, and the game counts it and
/// changes in nothing else.
pub proof fn law_new_user_is_counted(
    inv: Invocation,
    version: u8,
    username: [u8; 32],
    timestamp: u64,
    payment_token: Pubkey,
    log: Seq<EffectView>,
    after: Account,
)
    requires
        create_user_account_outcome(inv, version, username, timestamp, payment_token, log).1 is Ok,
        last_stored(
            create_user_account_outcome(inv, version, username, timestamp, payment_token, log).0,
            2,
            inv.accounts@[2],
            after,
        ),
    ensures
        GameAccount::decode_front(inv.accounts@[2].data@) is Some,
        GameAccount::decode_front(after.data@) == Some(
            GameAccount {
                total_users: (GameAccount::decode_front(inv.accounts@[2].data@)->0.total_users + 1) as u32,
                ..GameAccount::decode_front(inv.accounts@[2].data@)->0
            },
        ),
        GameAccount::decode_front(inv.accounts@[2].data@)->0.total_users < u32::MAX,
        after.data@.len() == inv.accounts@[2].data@.len(),
{
    let before = inv.accounts@[2].data@;
    let game = GameAccount::decode_front(before)->0;
    let counted = with_user(game);
    assert(game.leads(before));
    let tail = choose|tail: Seq<u8>| #[trigger] game.encode(tail) == before;
    game.lemma_encode_len(tail);
    game.lemma_encode_tail(tail);
    counted.law_decode_bytes();
    counted.lemma_encode_tail(tail);
    game.law_decode_bytes();
    assert(after.data@ =~= counted.encode(tail));
    counted.law_decode_front(tail);
}

/// What is written down of a new user account: its owner, its game and its name,
/// in no ranked game and with nothing won or spent.
pub proof fn law_new_user_is_read(
    inv: Invocation,
    version: u8,
    username: [u8; 32],
    timestamp: u64,
    payment_token: Pubkey,
    log: Seq<EffectView>,
)
    requires
        create_user_account_outcome(inv, version, username, timestamp, payment_token, log).1 is Ok,
    ensures
        ({
            let out = create_user_account_outcome(inv, version, username, timestamp, payment_token, log).0;
            let a = inv.accounts@;
            let bump = bump_for(user_seeds(a[0].key@, a[2].key@, timestamp), a[1].key@)->Ok_0;
            let user = new_user(version, bump, a[0].key, a[2].key, username);
            out.len() >= 2 && out[out.len() - 2] == (EffectView::Store { account: 1, data: user.bytes() })
                && UserAccount::decode(user.bytes()) == Some(user)
        }),
{
    let a = inv.accounts@;
    let bump = bump_for(user_seeds(a[0].key@, a[2].key@, timestamp), a[1].key@)->Ok_0;
    new_user(version, bump, a[0].key, a[2].key, username).law_decode_bytes();
}

/// A user account that exists is not created again.
pub proof fn law_user_is_created_once(
    inv: Invocation,
    version: u8,
    username: [u8; 32],
    timestamp: u64,
    payment_token: Pubkey,
    log: Seq<EffectView>,
)
    requires
        inv.accounts@[1].data@.len() > 0,
    ensures
        refused_outright(
            create_user_account_outcome(inv, version, username, timestamp, payment_token, log),
            log,
        ),
{
}

// ---------------------------------------------------------------------------
// Payments
// ---------------------------------------------------------------------------

/// A payment for a user account is split without gain or loss: what the game and
/// the protocol get comes to the cost in base units, rounded up; in USDC that is
/// the cost in millionths of a US dollar itself.
pub proof fn law_payment_is_split(
    inv: Invocation,
    at: PaymentAccounts,
    spl: Option<SplPaymentAccounts>,
    cost_usd_micro: u64,
    token: PaymentToken,
    log: Seq<EffectView>,
)
    requires
        process_payment_outcome(inv, at, spl, cost_usd_micro, token, log).1 is Ok,
    ensures
        ({
            let game = GameAccount::decode(inv.accounts@[at.game as int].data@)->0;
            let oracle = oracle_of(inv.accounts@[at.oracle as int])->Ok_0;
            let charged = charge(cost_usd_micro as nat, price_of(oracle, token), decimals_of(token));
            let total = charged->Ok_0;
            let protocol = protocol_part(total, game.game_to_protocol_share_bps) as u64;
            let rest = (total - protocol) as u64;
            &&& charged is Ok
            &&& rest + protocol == total
            &&& token == PaymentToken::USDC ==> total == cost_usd_micro
            &&& process_payment_outcome(inv, at, spl, cost_usd_micro, token, log) == split_payment_outcome(
                inv,
                at,
                spl,
                token,
                rest,
                protocol,
                log,
            )
        }),
{
    law_usdc_charge(cost_usd_micro as nat);
}

/// An entry to a ranked game costs the entry and a tenth of it: the two cuts of
/// the fee come to the fee, and what is paid in base units is what both are worth
/// together, rounded up, or at most two units more.
pub proof fn law_entry_is_paid_in_full(
    entry_fee: u64,
    dev_fee_bps: u16,
    share_bps: u16,
    price: u64,
    decimals: u8,
)
    requires
        ranked_fee_split(entry_fee, dev_fee_bps, share_bps) is Ok,
        ranked_amounts(
            entry_fee,
            ranked_fee_split(entry_fee, dev_fee_bps, share_bps)->Ok_0,
            price,
            decimals,
        ) is Ok,
    ensures
        ({
            let f = ranked_fee_split(entry_fee, dev_fee_bps, share_bps)->Ok_0;
            let (net, dev, protocol) = ranked_amounts(entry_fee, f, price, decimals)->Ok_0;
            let due = (entry_fee + f.fee) as u64;
            &&& f.fee == entry_fee / 10
            &&& f.dev_cut + f.protocol_cut == f.fee
            &&& due == entry_fee + f.fee
            &&& base_units(due, price, decimals) <= net + dev + protocol <= base_units(due, price, decimals) + 2
        }),
{
    let f = ranked_fee_split(entry_fee, dev_fee_bps, share_bps)->Ok_0;
    let fee = ranked_fee(entry_fee);
    assert(0 <= fee * dev_fee_bps <= fee * 10_000) by (nonlinear_arith)
        requires
            dev_fee_bps <= 10_000,
            fee >= 0,
    ;
    law_charges_add_up(entry_fee, f.dev_cut, f.protocol_cut, (entry_fee + f.fee) as u64, price, decimals);
}

// ---------------------------------------------------------------------------
// Rewards in SOL
// ---------------------------------------------------------------------------

/// Lamports have one value: the same number of them, at the prices of the same
/// oracle, is worth the same as a winner's reward and as a user account's.
pub proof fn law_lamports_have_one_value(
    oracle: OraclePriceState,
    lamports: u64,
    won: Invocation,
    won_bps: u16,
    won_log: Seq<EffectView>,
    given: Invocation,
    given_bps: u16,
    given_log: Seq<EffectView>,
)
    requires
        pay_sol_pool_outcome(won, oracle, won_bps, won_log).1 is Ok,
        pay_sol_pool_outcome(won, oracle, won_bps, won_log).0 == won_log.push(
            EffectView::MoveLamports { from: 1, to: 2, lamports },
        ),
        reward_native_sol_outcome(given, oracle, given_bps, given_log).1 is Ok,
        reward_native_sol_outcome(given, oracle, given_bps, given_log).0 == given_log.push(
            EffectView::MoveLamports { from: 2, to: 3, lamports },
        ),
    ensures
        pay_sol_pool_outcome(won, oracle, won_bps, won_log).1 == reward_native_sol_outcome(
            given,
            oracle,
            given_bps,
            given_log,
        ).1,
{
    let moved = EffectView::MoveLamports { from: 1, to: 2, lamports };
    let given_moved = EffectView::MoveLamports { from: 2, to: 3, lamports };
    assert(won_log.push(moved).len() == won_log.len() + 1);
    assert(won_log.push(moved).last() == moved);
    assert(given_log.push(given_moved).len() == given_log.len() + 1);
    assert(given_log.push(given_moved).last() == given_moved);
}

/// A reward in SOL never takes the protocol treasury below its rent, whatever the
/// share. Up to 100 % it is exactly the share of what lies above the rent, rounded
/// down; where nothing lies above it, nothing is moved.
pub proof fn law_native_reward_keeps_rent(inv: Invocation, oracle: OraclePriceState, bps: u16, log: Seq<EffectView>)
    requires
        inv.rent is Ok,
    ensures
        ({
            let out = reward_native_sol_outcome(inv, oracle, bps, log);
            let treasury = inv.accounts@[2];
            let spendable = surplus(treasury.lamports, treasury.rent_floor);
            &&& out.1 is Ok ==> out.0 == log || exists|lamports: u64|
                treasury.rent_floor + lamports <= treasury.lamports && out.0 == log.push(
                    #[trigger] treasury_reward(lamports),
                )
            &&& out.1 is Err ==> out.0 == log
            &&& spendable == 0 ==> out == (log, Ok::<u64, ProgramError>(0))
            &&& bps <= 10_000 ==> share_floor(spendable, bps) <= spendable && out.1
                != Err::<u64, ProgramError>(ProgramError::InsufficientFunds)
            &&& bps <= 10_000 && out.1 is Ok ==> out.0 == (if share_floor(spendable, bps) == 0 {
                log
            } else {
                log.push(treasury_reward(share_floor(spendable, bps) as u64))
            })
        }),
{
    let treasury = inv.accounts@[2];
    let spendable = surplus(treasury.lamports, treasury.rent_floor);
    let moved = low_64(share_floor(spendable, bps));
    assert(treasury_reward(moved) == EffectView::MoveLamports { from: 2, to: 3, lamports: moved });
    if bps <= 10_000 {
        law_share_within_amount(spendable, bps);
    }
    if spendable == 0 {
        assert(0 * bps as nat == 0) by (nonlinear_arith);
    }
}

/// The effect of a reward in SOL from the protocol treasury.
pub open spec fn treasury_reward(lamports: u64) -> EffectView {
    EffectView::MoveLamports { from: 2, to: 3, lamports }
}

// ---------------------------------------------------------------------------
// Ranked games
// ---------------------------------------------------------------------------

/// Players join only while a ranked game is open, and winners are rewarded only
/// once it is finished. Otherwise it is refused, and nothing happens.
pub proof fn law_status_gates(
    inv: Invocation,
    ranked_game_id: u64,
    payment_token: Pubkey,
    payout_bps: u16,
    log: Seq<EffectView>,
)
    ensures
        match ranked_game_of(inv, ranked_game_id) {
            Ok((ranked, _)) => {
                &&& ranked.status != RankedGameStatus::Open ==> refused_outright(
                    join_ranked_game_outcome(inv, ranked_game_id, payment_token, log),
                    log,
                )
                &&& ranked.status != RankedGameStatus::Finished ==> refused_outright(
                    reward_winner_outcome(inv, ranked_game_id, payout_bps, log),
                    log,
                )
            },
            Err(_) => {
                &&& refused_outright(join_ranked_game_outcome(inv, ranked_game_id, payment_token, log), log)
                &&& refused_outright(reward_winner_outcome(inv, ranked_game_id, payout_bps, log), log)
            },
        },
{
}

/// A new ranked game is open, without participants, and belongs to its game.
pub proof fn law_new_ranked_game_is_open(
    inv: Invocation,
    ranked_game_id: u64,
    entry_fee: u64,
    log: Seq<EffectView>,
    next: Invocation,
)
    requires
        create_ranked_game_outcome(inv, ranked_game_id, entry_fee, log).1 is Ok,
        next.accounts@.len() >= 2,
        created_with(
            create_ranked_game_outcome(inv, ranked_game_id, entry_fee, log).0,
            1,
            inv.accounts@[1].key,
            RankedGameState::LEN as nat,
            next.accounts@[1],
        ),
    ensures
        match ranked_game_of(next, ranked_game_id) {
            Ok((ranked, bump)) => {
                ranked == new_ranked_game(ranked_game_id, inv.accounts@[2].key, entry_fee, bump)
            },
            Err(_) => false,
        },
{
    let bump = create_ranked_game_check(inv, ranked_game_id)->Ok_0;
    let ranked = new_ranked_game(ranked_game_id, inv.accounts@[2].key, entry_fee, bump);
    ranked.law_decode_bytes();
    assert(next.accounts@[1].data@ =~= ranked.bytes());
}

/// Setting the status of a ranked game changes the status and nothing else.
pub proof fn law_status_is_read(
    inv: Invocation,
    ranked_game_id: u64,
    new_status: u8,
    log: Seq<EffectView>,
    next: Invocation,
)
    requires
        update_ranked_game_status_outcome(inv, ranked_game_id, new_status, log).1 is Ok,
        next.accounts@.len() >= 2,
        last_stored(
            update_ranked_game_status_outcome(inv, ranked_game_id, new_status, log).0,
            1,
            inv.accounts@[1],
            next.accounts@[1],
        ),
    ensures
        match (ranked_game_of(inv, ranked_game_id), ranked_game_of(next, ranked_game_id)) {
            (Ok((before, _)), Ok((after, _))) => after == (RankedGameState { status: after.status, ..before })
                && after.status.tag() == new_status,
            _ => false,
        },
{
    let before = ranked_game_of(inv, ranked_game_id)->Ok_0;
    let status = RankedGameStatus::spec_from_tag(new_status)->0;
    let after = RankedGameState { status, ..before.0 };
    before.0.law_decode_bytes();
    after.law_decode_bytes();
    assert(next.accounts@[1].data@ =~= after.bytes());
}

/// Who joined a ranked game is counted in it, and is in it.
pub proof fn law_join_is_recorded(
    inv: Invocation,
    ranked_game_id: u64,
    payment_token: Pubkey,
    log: Seq<EffectView>,
)
    requires
        join_ranked_game_outcome(inv, ranked_game_id, payment_token, log).1 is Ok,
    ensures
        ({
            let out = join_ranked_game_outcome(inv, ranked_game_id, payment_token, log).0;
            let (ranked, _, user, _) = join_check(inv, ranked_game_id, payment_token)->Ok_0;
            let ranked_after = with_participant(ranked);
            let user_after = with_ranked_game(user, inv.accounts@[1].key);
            &&& out.len() >= 2
            &&& out[out.len() - 2] == (EffectView::Store { account: 1, data: ranked_after.bytes() })
            &&& out[out.len() - 1] == (EffectView::Store { account: 12, data: user_after.bytes() })
            &&& ranked_after.participant_count == ranked.participant_count + 1
            &&& user_after.total_ranked_games_played == user.total_ranked_games_played + 1
            &&& user_after.current_ranked_game@ == inv.accounts@[1].key@
            &&& RankedGameState::decode(ranked_after.bytes()) == Some(ranked_after)
            &&& UserAccount::decode(user_after.bytes()) == Some(user_after)
        }),
{
    let (ranked, _, user, _) = join_check(inv, ranked_game_id, payment_token)->Ok_0;
    with_participant(ranked).law_decode_bytes();
    with_ranked_game(user, inv.accounts@[1].key).law_decode_bytes();
}

/// Who is in a ranked game cannot join it again with the same user account.
pub proof fn law_no_second_join(
    inv: Invocation,
    ranked_game_id: u64,
    payment_token: Pubkey,
    log: Seq<EffectView>,
    next: Invocation,
    next_token: Pubkey,
    next_log: Seq<EffectView>,
)
    requires
        join_ranked_game_outcome(inv, ranked_game_id, payment_token, log).1 is Ok,
        next.accounts@.len() >= 13,
        next.accounts@[1].key@ == inv.accounts@[1].key@,
        last_stored(
            join_ranked_game_outcome(inv, ranked_game_id, payment_token, log).0,
            12,
            inv.accounts@[12],
            next.accounts@[12],
        ),
    ensures
        refused_outright(join_ranked_game_outcome(next, ranked_game_id, next_token, next_log), next_log),
{
    law_join_is_recorded(inv, ranked_game_id, payment_token, log);
    let user = user_of(inv.accounts@[12])->Ok_0;
    let user_after = with_ranked_game(user, inv.accounts@[1].key);
    user.law_decode_bytes();
    user_after.law_decode_bytes();
    assert(next.accounts@[12].data@ =~= user_after.bytes());
}

/// Whether `next` is a call with the same accounts, of which the ranked game in
/// the second has the same data.
pub open spec fn same_call(inv: Invocation, next: Invocation) -> bool {
    &&& next.accounts@.len() == inv.accounts@.len()
    &&& forall|n: int|
        0 <= n < inv.accounts@.len() ==> (#[trigger] next.accounts@[n]).key@ == inv.accounts@[n].key@
            && next.accounts@[n].owner@ == inv.accounts@[n].owner@ && next.accounts@[n].is_signer
            == inv.accounts@[n].is_signer
    &&& next.accounts@[1].data@ == inv.accounts@[1].data@
}

/// Whether after the effects `after` of a reward every further reward of the same
/// user account for the same ranked game is refused, and nothing happens; where
/// the accounts are the same, the error is that the account data is invalid.
pub open spec fn not_rewarded_again(inv: Invocation, ranked_game_id: u64, after: Seq<EffectView>) -> bool {
    forall|next: Invocation, next_bps: u16, next_log: Seq<EffectView>|
        next.accounts@.len() >= 18 && next.accounts@[1].key@ == inv.accounts@[1].key@ && last_stored(
            after,
            3,
            inv.accounts@[3],
            next.accounts@[3],
        ) ==> {
            let out = #[trigger] reward_winner_outcome(next, ranked_game_id, next_bps, next_log);
            &&& refused_outright(out, next_log)
            &&& same_call(inv, next) && next_bps <= BPS_DENOMINATOR ==> out == refuse(
                next_log,
                ProgramError::InvalidAccountData,
            )
        }
}

/// Who was rewarded for a ranked game has one win more and is in no ranked game,
/// so a second reward for it is refused, and nothing happens. The address of a
/// ranked game is never all zeros: [`reward_winner`] gives this law for every
/// ranked game.
///
/// [`reward_winner`]: crate::processor::ranked_game::reward_winner
pub proof fn law_no_second_reward(
    inv: Invocation,
    ranked_game_id: u64,
    payout_bps: u16,
    log: Seq<EffectView>,
    next: Invocation,
    next_bps: u16,
    next_log: Seq<EffectView>,
)
    requires
        reward_winner_outcome(inv, ranked_game_id, payout_bps, log).1 is Ok,
        inv.accounts@[1].key@ != NO_KEY@,
        next.accounts@.len() >= 18,
        next.accounts@[1].key@ == inv.accounts@[1].key@,
        last_stored(
            reward_winner_outcome(inv, ranked_game_id, payout_bps, log).0,
            3,
            inv.accounts@[3],
            next.accounts@[3],
        ),
    ensures
        match (user_of(inv.accounts@[3]), user_of(next.accounts@[3])) {
            (Ok(before), Ok(after)) => {
                &&& after.total_wins == before.total_wins + 1
                &&& after.total_usd_rewards_micro >= before.total_usd_rewards_micro
                &&& after == (UserAccount {
                    total_wins: after.total_wins,
                    total_usd_rewards_micro: after.total_usd_rewards_micro,
                    current_ranked_game: NO_KEY,
                    ..before
                })
            },
            _ => false,
        },
        refused_outright(reward_winner_outcome(next, ranked_game_id, next_bps, next_log), next_log),
        same_call(inv, next) && next_bps <= BPS_DENOMINATOR ==> reward_winner_outcome(
            next,
            ranked_game_id,
            next_bps,
            next_log,
        ) == refuse(next_log, ProgramError::InvalidAccountData),
{
    let (user, oracle, bump) = reward_winner_check(inv, ranked_game_id, payout_bps)->Ok_0;
    let paid = pay_pools_outcome(
        inv,
        oracle,
        ranked_game_id,
        bump,
        payout_bps,
        log,
    ).1->Ok_0;
    let after = with_win(user, paid);
    user.law_decode_bytes();
    after.law_decode_bytes();
    assert(next.accounts@[3].data@ =~= after.bytes());
    if same_call(inv, next) {
        assert(next.accounts@[0].key@ == inv.accounts@[0].key@ && next.accounts@[9].key@ == inv.accounts@[9].key@
            && next.accounts@[12].key@ == inv.accounts@[12].key@ && next.accounts@[15].key@
            == inv.accounts@[15].key@);
    }
}

/// A ranked game that was closed is no more: nobody can join it, be rewarded for
/// it, or change its status.
pub proof fn law_closed_game_is_gone(
    next: Invocation,
    ranked_game_id: u64,
    payment_token: Pubkey,
    payout_bps: u16,
    new_status: u8,
    log: Seq<EffectView>,
)
    requires
        next.accounts@.len() >= 2,
        forall|k: int| 0 <= k < next.accounts@[1].data@.len() ==> #[trigger] next.accounts@[1].data@[k] == 0,
    ensures
        refused_outright(join_ranked_game_outcome(next, ranked_game_id, payment_token, log), log),
        refused_outright(reward_winner_outcome(next, ranked_game_id, payout_bps, log), log),
        refused_outright(update_ranked_game_status_outcome(next, ranked_game_id, new_status, log), log),
{
    let data = next.accounts@[1].data@;
    if let Some(state) = RankedGameState::decode(data) {
        state.law_decode_bytes();
        assert(state.bytes() == data);
        assert(state.discriminator@[0] == data[0]) by {
            reveal(RankedGameState::encode);
        }
        assert(state.discriminator@[0] != RANKED_GAME_DISCRIMINATOR@[0]);
    }
}

} // verus!
