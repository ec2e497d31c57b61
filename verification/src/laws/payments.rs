//! What players pay, in which token, and to whom.

use crate::codec::le_bytes;
use crate::constants::{
    law_mint_names_token, PaymentToken, Pubkey, GAME_PROTOCOL_SEED, GAME_SEED, NO_KEY, PROGRAM_ID, SKR_MINT,
    SLICE_MINT, SOL_MINT, TOKEN_PROGRAM_ID, USDC_MINT, USER_SEED,
};
use crate::error::ProgramError;
use crate::helpers::{
    ceil_div, charge, decimals_of, law_base_units_of_one_token, law_share_within_amount,
    protocol_part, ten_to, user_seeds,
};
use crate::instruction::IndieGamesInstruction;
use crate::laws::deeds::{
    adds, deeds, derived_bump, group_deeds, holds_game, holds_oracle, holds_ranked, holds_user, is_derived,
    keeps_tokens, least_units, part, unless_zero, Deed,
};
use crate::processor::instruction_outcome;
use crate::processor::oracle::price_of;
use crate::processor::payment::{
    process_payment_outcome, process_ranked_entry_payment_outcome, ranked_fee_split, PaymentAccounts,
    RankedFee, RankedPaymentAccounts, RankedSplPaymentAccounts, SplPaymentAccounts,
};
use crate::processor::ranked_game::{
    join_check, join_payment_accounts, join_ranked_game_outcome, join_token_accounts, with_participant,
    with_ranked_game,
};
use crate::processor::user_account::{
    charge_user_outcome, create_user_account_outcome, create_user_check, new_user, with_user,
};
use crate::runtime::{Account, EffectView, Invocation};
use crate::state::game::GameAccount;
use crate::state::oracle::OraclePriceState;
use crate::state::ranked_game::{RankedGameState, RankedGameStatus};
use crate::state::user_account::UserAccount;
use vstd::prelude::*;

verus! {

// ---------------------------------------------------------------------------
// Prices
// ---------------------------------------------------------------------------

/// What the token of a mint costs: so many units are worth so many millionths of a US
/// dollar. It is a thousand million lamports, and a million units of the others.
pub open spec fn quoted(oracle: OraclePriceState, mint: Seq<u8>) -> Option<(nat, nat)> {
    if mint == SOL_MINT@ {
        Some((oracle.sol_price_usd_micro_per_lamport as nat, 1_000_000_000))
    } else if mint == SKR_MINT@ {
        Some((oracle.skr_price_usd_micro_per_atom as nat, 1_000_000))
    } else if mint == SLICE_MINT@ {
        Some((oracle.slice_price_usd_micro_per_atom as nat, 1_000_000))
    } else if mint == USDC_MINT@ {
        Some((1_000_000, 1_000_000))
    } else {
        None
    }
}

/// How many units of the token of a mint are due for `usd_micro` millionths of a US
/// dollar: the least that are worth as much.
pub open spec fn due(usd_micro: nat, oracle: OraclePriceState, mint: Seq<u8>) -> nat {
    match quoted(oracle, mint) {
        Some((price, one)) => least_units(usd_micro, price, one),
        None => 0,
    }
}

/// Whether `usd_micro` millionths of a US dollar can be charged in the token of a mint:
/// it has a price, and the units fit in 64 bits.
pub open spec fn can_charge(usd_micro: nat, oracle: OraclePriceState, mint: Seq<u8>) -> bool {
    match quoted(oracle, mint) {
        Some((price, _)) => price > 0 && due(usd_micro, oracle, mint) <= u64::MAX,
        None => false,
    }
}

/// The least units that are worth a cost cover it, and one unit less does not.
pub proof fn law_least_units(usd_micro: nat, price: nat, one: nat)
    requires
        price > 0,
    ensures
        least_units(usd_micro, price, one) * price >= usd_micro * one,
        least_units(usd_micro, price, one) > 0 ==> (least_units(usd_micro, price, one) - 1) * price < usd_micro * one,
        least_units(usd_micro, price, one) == ceil_div(usd_micro * one, price),
{
    let n = usd_micro * one;
    let q = n / price;
    let m = n % price;
    vstd::arithmetic::div_mod::lemma_fundamental_div_mod(n as int, price as int);
    assert(price as int * q == q * price && (q + 1) * price == q * price + price && (q - 1) * price == q * price - price)
        by (nonlinear_arith);
    assert((n + price - 1) / price as int == (if m == 0 {
        q as int
    } else {
        q + 1int
    })) by (nonlinear_arith)
        requires
            n == q * price + m,
            0 <= m < price,
    ;
}

pub proof fn lemma_token(mint: Pubkey, oracle: OraclePriceState)
    ensures
        match PaymentToken::spec_from_mint(mint) {
            Some(token) => {
                &&& token.spec_mint()@ == mint@
                &&& token == PaymentToken::SOL <==> mint@ == SOL_MINT@
                &&& quoted(oracle, mint@) == Some((price_of(oracle, token) as nat, ten_to(decimals_of(token))))
                &&& mint@ != SOL_MINT@ ==> decimals_of(token) == 6
            },
            None => quoted(oracle, mint@) is None,
        },
{
    law_base_units_of_one_token();
    law_mint_names_token(PaymentToken::SOL);
    law_mint_names_token(PaymentToken::SKR);
    law_mint_names_token(PaymentToken::SLICE);
    law_mint_names_token(PaymentToken::USDC);
}

pub proof fn lemma_charge(usd_micro: nat, oracle: OraclePriceState, mint: Pubkey, token: PaymentToken)
    requires
        PaymentToken::spec_from_mint(mint) == Some(token),
    ensures
        charge(usd_micro, price_of(oracle, token), decimals_of(token)) is Ok <==> can_charge(usd_micro, oracle, mint@),
        charge(usd_micro, price_of(oracle, token), decimals_of(token)) matches Ok(units) ==> units == due(
            usd_micro,
            oracle,
            mint@,
        ),
{
    lemma_token(mint, oracle);
    if price_of(oracle, token) > 0 {
        law_least_units(usd_micro, price_of(oracle, token) as nat, ten_to(decimals_of(token)));
    }
}

// ---------------------------------------------------------------------------
// User accounts
// ---------------------------------------------------------------------------

/// What the protocol gets of a payment: its share, and never more than all of it.
pub open spec fn protocol_gets(total: nat, share_bps: u16) -> nat {
    if share_bps > 10_000 {
        total
    } else {
        part(total, share_bps)
    }
}

/// The payment for a user account, in the token of the mint that the user names: one
/// part to the game and one to its protocol treasury.
pub open spec fn user_pays(a: Seq<Account>, mint: Seq<u8>, to_game: nat, to_protocol: nat) -> Seq<Deed> {
    if mint == SOL_MINT@ {
        seq![
            Deed::Lamports { from: a[0].key@, to: a[2].key@, lamports: to_game },
            Deed::Lamports { from: a[0].key@, to: a[4].key@, lamports: to_protocol },
        ]
    } else {
        seq![
            Deed::Tokens {
                source: a[7].key@,
                destination: a[8].key@,
                authority: a[0].key@,
                amount: to_game,
                checked: Some((mint, 6)),
            },
            Deed::Tokens {
                source: a[7].key@,
                destination: a[9].key@,
                authority: a[0].key@,
                amount: to_protocol,
                checked: Some((mint, 6)),
            },
        ]
    }
}

/// Whether the cost of a user account can be paid in the token of a mint.
pub open spec fn can_pay_cost(a: Seq<Account>, cost: u64, mint: Seq<u8>) -> bool {
    let oracle = OraclePriceState::decode(a[5].data@)->0;
    &&& a.len() >= 7
    &&& a[2].data@.len() == 154
    &&& holds_oracle(a[5], oracle)
    &&& can_charge(cost as nat, oracle, mint)
    &&& mint != SOL_MINT@ ==> a.len() >= 11 && a[10].key@ == mint && a[6].key@ == TOKEN_PROGRAM_ID@
}

/// Whether a wallet can have a user account in a game, the cost set aside: the wallet
/// signs, the account is new, and the game is one.
pub open spec fn may_have_account(inv: Invocation, timestamp: u64) -> bool {
    let a = inv.accounts@;
    let game = GameAccount::decode_front(a[2].data@)->0;
    &&& a.len() >= 4
    &&& a[0].is_signer
    &&& a[1].data@.len() == 0
    &&& is_derived(a[1].key@, seq![USER_SEED@, a[0].key@, a[2].key@, le_bytes(timestamp as nat, 8)])
    &&& a[2].owner@ == PROGRAM_ID@
    &&& GameAccount::decode_front(a[2].data@) is Some
    &&& game.is_initialized
    &&& is_derived(a[2].key@, seq![GAME_SEED@, game.game_title@])
    &&& game.total_users < u32::MAX
    &&& inv.rent is Ok
}

pub proof fn lemma_front(data: Seq<u8>)
    ensures
        GameAccount::decode(data) is Some <==> GameAccount::decode_front(data) is Some && data.len() == 154,
        GameAccount::decode(data) is Some ==> GameAccount::decode(data) == GameAccount::decode_front(data),
        GameAccount::decode_front(data) is Some ==> data.len() >= 154,
{
    if let Some(game) = GameAccount::decode(data) {
        assert(game.bytes() == data);
        game.law_decode_bytes();
        game.law_decode_front(Seq::empty());
    }
    if let Some(game) = GameAccount::decode_front(data) {
        assert(game.leads(data));
        let tail = choose|tail: Seq<u8>| #[trigger] game.encode(tail) == data;
        game.lemma_encode_len(tail);
        if data.len() == 154 {
            assert(tail =~= Seq::empty());
            assert(game.bytes() == data);
            game.law_decode_bytes();
        }
    }
}

proof fn lemma_protocol_gets(total: u64, share_bps: u16)
    ensures
        protocol_part(total, share_bps) == protocol_gets(total as nat, share_bps),
        protocol_gets(total as nat, share_bps) <= total,
{
    if share_bps > 10_000 {
        assert(total as nat * share_bps as nat / 10_000 >= total) by (nonlinear_arith)
            requires
                share_bps > 10_000,
        ;
    } else {
        law_share_within_amount(total, share_bps);
    }
}

proof fn lemma_user_pays(inv: Invocation, game: GameAccount, payment_token: Pubkey, log: Seq<EffectView>)
    requires
        create_user_check(inv) == Ok::<GameAccount, ProgramError>(game),
        game.game_cost > 0,
    ensures
        ({
            let out = charge_user_outcome(inv, game.game_cost, payment_token, log);
            let a = inv.accounts@;
            let oracle = OraclePriceState::decode(a[5].data@)->0;
            let total = due(game.game_cost as nat, oracle, payment_token@);
            let to_protocol = protocol_gets(total, game.game_to_protocol_share_bps);
            &&& out.1 is Ok <==> can_pay_cost(a, game.game_cost, payment_token@)
            &&& out.1 is Ok ==> to_protocol <= total && adds(
                log,
                out.0,
                user_pays(a, payment_token@, (total - to_protocol) as nat, to_protocol),
            )
        }),
{
    broadcast use group_deeds;
    let a = inv.accounts@;
    let oracle = OraclePriceState::decode(a[5].data@)->0;
    lemma_front(a[2].data@);
    lemma_token(payment_token, oracle);
    if let Some(token) = PaymentToken::spec_from_mint(payment_token) {
        lemma_charge(game.game_cost as nat, oracle, payment_token, token);
        if let Ok(total) = charge(game.game_cost as nat, price_of(oracle, token), decimals_of(token)) {
            lemma_protocol_gets(total, game.game_to_protocol_share_bps);
            let out = charge_user_outcome(inv, game.game_cost, payment_token, log);
            let to_protocol = protocol_gets(total as nat, game.game_to_protocol_share_bps);
            if out.1 is Ok {
                assert(deeds(out.0) =~= deeds(log) + user_pays(
                    a,
                    payment_token@,
                    (total - to_protocol) as nat,
                    to_protocol,
                ));
            }
        }
    }
}

/// Who gets a user account pays what the game asks for it, in the token whose mint is
/// named and in no other, all of it to the game and its protocol treasury; a free
/// account costs nothing. The account is made for the wallet and the game, with the name
/// given, and the game counts one user more; nothing else happens. This is what happens
/// whenever it can, and only then.
pub proof fn law_user_pays_in_the_named_token(
    inv: Invocation,
    username: [u8; 32],
    timestamp: u64,
    payment_token: Pubkey,
    log: Seq<EffectView>,
)
    ensures
        ({
            let create = IndieGamesInstruction::CreateUserAccount { username, timestamp, payment_token };
            let out = instruction_outcome(inv, create, log);
            user_account_is_made(inv, 1, username, timestamp, payment_token, log, out.0, out.1 is Ok)
        }),
{
    law_user_account_of_any_version(inv, 1, username, timestamp, payment_token, log);
}

/// What making a user account comes to: on success, which is owed whenever the account
/// may be had and paid, `after` is `log` with the payment, the new account with what is
/// written down in it, and the count of the game's users added.
pub open spec fn user_account_is_made(
    inv: Invocation,
    version: u8,
    username: [u8; 32],
    timestamp: u64,
    payment_token: Pubkey,
    log: Seq<EffectView>,
    after: Seq<EffectView>,
    success: bool,
) -> bool {
    let a = inv.accounts@;
    let game = GameAccount::decode_front(a[2].data@)->0;
    let oracle = OraclePriceState::decode(a[5].data@)->0;
    let total = due(game.game_cost as nat, oracle, payment_token@);
    let to_protocol = protocol_gets(total, game.game_to_protocol_share_bps);
    let payment = if game.game_cost == 0 {
        Seq::empty()
    } else {
        user_pays(a, payment_token@, (total - to_protocol) as nat, to_protocol)
    };
    let user = UserAccount {
        is_initialized: true,
        version,
        bump: derived_bump(seq![USER_SEED@, a[0].key@, a[2].key@, le_bytes(timestamp as nat, 8)]),
        owner: a[0].key,
        game: a[2].key,
        username,
        current_ranked_game: NO_KEY,
        total_ranked_games_played: 0,
        total_wins: 0,
        total_usd_spent_micro: 0,
        total_usd_rewards_micro: 0,
    };
    let counted = GameAccount { total_users: (game.total_users + 1) as u32, ..game };
    &&& success <==> may_have_account(inv, timestamp) && (game.game_cost == 0 || can_pay_cost(
        a,
        game.game_cost,
        payment_token@,
    ))
    &&& success && game.game_cost > 0 ==> to_protocol <= total
    &&& success ==> adds(
        log,
        after,
        payment + seq![
            Deed::NewAccount {
                payer: a[0].key@,
                key: a[1].key@,
                lamports: inv.rent->Ok_0.user as nat,
                space: 155,
                owner: PROGRAM_ID@,
            },
            Deed::Write { at: 1, data: user.bytes() },
            Deed::Write { at: 2, data: counted.bytes() },
        ],
    )
}

/// The law of [`law_user_pays_in_the_named_token`], for a user account of any version.
pub proof fn law_user_account_of_any_version(
    inv: Invocation,
    version: u8,
    username: [u8; 32],
    timestamp: u64,
    payment_token: Pubkey,
    log: Seq<EffectView>,
)
    ensures
        ({
            let out = create_user_account_outcome(inv, version, username, timestamp, payment_token, log);
            user_account_is_made(inv, version, username, timestamp, payment_token, log, out.0, out.1 is Ok)
        }),
{
    broadcast use group_deeds;
    let a = inv.accounts@;
    if let Ok(game) = create_user_check(inv) {
        lemma_front(a[2].data@);
        let log1 = charge_user_outcome(inv, game.game_cost, payment_token, log).0;
        let oracle = OraclePriceState::decode(a[5].data@)->0;
        let total = due(game.game_cost as nat, oracle, payment_token@);
        let to_protocol = protocol_gets(total, game.game_to_protocol_share_bps);
        let payment = if game.game_cost == 0 {
            Seq::empty()
        } else {
            user_pays(a, payment_token@, (total - to_protocol) as nat, to_protocol)
        };
        if game.game_cost > 0 {
            lemma_user_pays(inv, game, payment_token, log);
        } else {
            assert(deeds(log) + payment =~= deeds(log));
        }
        let out = create_user_account_outcome(inv, version, username, timestamp, payment_token, log);
        let seeds = user_seeds(a[0].key@, a[2].key@, timestamp);
        let user = new_user(version, derived_bump(seeds), a[0].key, a[2].key, username);
        let counted = with_user(game);
        user.law_decode_bytes();
        counted.law_decode_bytes();
        if out.1 is Ok {
            assert(deeds(out.0) =~= deeds(log1) + seq![
                Deed::NewAccount {
                    payer: a[0].key@,
                    key: a[1].key@,
                    lamports: inv.rent->Ok_0.user as nat,
                    space: 155,
                    owner: PROGRAM_ID@,
                },
                Deed::Write { at: 1, data: user.bytes() },
                Deed::Write { at: 2, data: counted.bytes() },
            ]);
            assert(deeds(log1) == deeds(log) + payment);
            assert(deeds(out.0) =~= deeds(log) + (payment + seq![
                Deed::NewAccount {
                    payer: a[0].key@,
                    key: a[1].key@,
                    lamports: inv.rent->Ok_0.user as nat,
                    space: 155,
                    owner: PROGRAM_ID@,
                },
                Deed::Write { at: 1, data: user.bytes() },
                Deed::Write { at: 2, data: counted.bytes() },
            ]));
        }
    }
}

// ---------------------------------------------------------------------------
// Entries to ranked games
// ---------------------------------------------------------------------------

/// The fee on an entry, in cents: a tenth of it.
pub open spec fn entry_fee_due(entry: u64) -> nat {
    entry as nat / 10
}

/// The developer's cut of the fee on an entry: what the protocol's share leaves.
pub open spec fn developer_cut(entry: u64, share_bps: u16) -> nat {
    part(entry_fee_due(entry), (10_000 - share_bps) as u16)
}

/// The protocol's cut of the fee on an entry: the rest.
pub open spec fn protocol_cut(entry: u64, share_bps: u16) -> nat {
    (entry_fee_due(entry) - developer_cut(entry, share_bps)) as nat
}

/// How many units are due for so many cents.
pub open spec fn due_cents(cents: nat, oracle: OraclePriceState, mint: Seq<u8>) -> nat {
    due(cents * 10_000, oracle, mint)
}

/// One payment of a player who joins, in the token of the mint that the player names:
/// lamports to `wallet`, or tokens to `tokens`.
pub open spec fn player_pays(a: Seq<Account>, mint: Seq<u8>, wallet: int, tokens: int, amount: nat) -> Deed {
    if mint == SOL_MINT@ {
        Deed::Lamports { from: a[0].key@, to: a[wallet].key@, lamports: amount }
    } else {
        Deed::Tokens {
            source: a[8].key@,
            destination: a[tokens].key@,
            authority: a[0].key@,
            amount,
            checked: Some((mint, 6)),
        }
    }
}

/// What a player pays to join: the entry to the ranked game, and on top of it the cuts
/// of the fee, if there are any, to the game and its protocol treasury.
pub open spec fn entry_payments(
    a: Seq<Account>,
    entry: u64,
    share_bps: u16,
    oracle: OraclePriceState,
    mint: Seq<u8>,
) -> Seq<Deed> {
    let net = due_cents(entry as nat, oracle, mint);
    let developer = due_cents(developer_cut(entry, share_bps), oracle, mint);
    let protocol = due_cents(protocol_cut(entry, share_bps), oracle, mint);
    seq![player_pays(a, mint, 1, 9, net)] + unless_zero(developer, player_pays(a, mint, 2, 10, developer))
        + unless_zero(protocol, player_pays(a, mint, 3, 11, protocol))
}

/// Whether an entry can be paid in the token of a mint.
pub open spec fn can_pay_entry(a: Seq<Account>, entry: u64, share_bps: u16, mint: Seq<u8>) -> bool {
    let oracle = OraclePriceState::decode(a[4].data@)->0;
    &&& share_bps <= 10_000
    &&& entry * 1_000 <= u64::MAX
    &&& holds_oracle(a[4], oracle)
    &&& can_charge(entry as nat * 10_000, oracle, mint)
    &&& can_charge(developer_cut(entry, share_bps) * 10_000, oracle, mint)
    &&& can_charge(protocol_cut(entry, share_bps) * 10_000, oracle, mint)
    &&& mint != SOL_MINT@ ==> {
        &&& a[7].key@ == mint
        &&& keeps_tokens(a[9].key@, a[1].key@, mint)
        &&& keeps_tokens(a[10].key@, a[2].key@, mint)
        &&& keeps_tokens(a[11].key@, a[3].key@, mint)
        &&& a[6].key@ == TOKEN_PROGRAM_ID@
    }
}

/// Whether a player may join a ranked game, the payment set aside: it is open, and the
/// user account is the player's, of the same game, and not in the ranked game already.
pub open spec fn may_join(inv: Invocation, ranked_game_id: u64) -> bool {
    let a = inv.accounts@;
    let ranked = RankedGameState::decode(a[1].data@)->0;
    let game = GameAccount::decode(a[2].data@)->0;
    let user = UserAccount::decode(a[12].data@)->0;
    &&& a.len() >= 13
    &&& a[0].is_signer
    &&& holds_ranked(a[1], ranked_game_id, ranked)
    &&& ranked.status == RankedGameStatus::Open
    &&& ranked.game@ == a[2].key@
    &&& holds_game(a[2], game)
    &&& is_derived(a[3].key@, seq![GAME_PROTOCOL_SEED@, game.game_title@])
    &&& holds_user(a[12], user)
    &&& user.owner@ == a[0].key@
    &&& user.game@ == a[2].key@
    &&& user.current_ranked_game@ != a[1].key@
}

pub proof fn lemma_cuts(entry: u64, share_bps: u16)
    requires
        share_bps <= 10_000,
        entry * 1_000 <= u64::MAX,
    ensures
        ranked_fee_split(entry, (10_000 - share_bps) as u16, share_bps) == Ok::<RankedFee, ProgramError>(
            RankedFee {
                fee: entry_fee_due(entry) as u64,
                dev_cut: developer_cut(entry, share_bps) as u64,
                protocol_cut: protocol_cut(entry, share_bps) as u64,
            },
        ),
        developer_cut(entry, share_bps) + protocol_cut(entry, share_bps) == entry_fee_due(entry),
        entry_fee_due(entry) <= u64::MAX,
{
    let fee = entry_fee_due(entry);
    assert(entry * 1_000 / 10_000 == fee);
    assert(fee * (10_000 - share_bps) <= fee * 10_000) by (nonlinear_arith)
        requires
            0 <= share_bps <= 10_000,
    ;
}

proof fn lemma_entry_payments(
    inv: Invocation,
    entry: u64,
    share_bps: u16,
    payment_token: Pubkey,
    token: PaymentToken,
    log: Seq<EffectView>,
)
    requires
        share_bps <= 10_000,
        PaymentToken::spec_from_mint(payment_token) == Some(token),
    ensures
        ({
            let out = process_ranked_entry_payment_outcome(
                inv,
                join_payment_accounts(),
                join_token_accounts(token),
                entry,
                (10_000 - share_bps) as u16,
                share_bps,
                token,
                log,
            );
            let a = inv.accounts@;
            let oracle = OraclePriceState::decode(a[4].data@)->0;
            &&& out.1 is Ok <==> can_pay_entry(a, entry, share_bps, payment_token@)
            &&& out.1 is Ok ==> adds(log, out.0, entry_payments(a, entry, share_bps, oracle, payment_token@))
        }),
{
    broadcast use group_deeds;
    let a = inv.accounts@;
    let oracle = OraclePriceState::decode(a[4].data@)->0;
    let mint = payment_token@;
    lemma_token(payment_token, oracle);
    if entry * 1_000 <= u64::MAX {
        lemma_cuts(entry, share_bps);
        lemma_charge(entry as nat * 10_000, oracle, payment_token, token);
        lemma_charge(developer_cut(entry, share_bps) * 10_000, oracle, payment_token, token);
        lemma_charge(protocol_cut(entry, share_bps) * 10_000, oracle, payment_token, token);
        let out = process_ranked_entry_payment_outcome(
            inv,
            join_payment_accounts(),
            join_token_accounts(token),
            entry,
            (10_000 - share_bps) as u16,
            share_bps,
            token,
            log,
        );
        if out.1 is Ok {
            assert(deeds(out.0) =~= deeds(log) + entry_payments(a, entry, share_bps, oracle, mint));
        }
    }
}

/// Who joins a ranked game pays the entry to it, and a tenth of it on top, of which the
/// game and its protocol treasury get their cuts: in the token whose mint is named, and
/// in no other. The ranked game counts one participant more, and the user account is in
/// it; nothing else happens. This is what happens whenever it can, and only then.
pub proof fn law_player_pays_entry_and_fee(
    inv: Invocation,
    ranked_game_id: u64,
    payment_token: Pubkey,
    log: Seq<EffectView>,
)
    ensures
        ({
            let join = IndieGamesInstruction::JoinRankedGame { ranked_game_id, payment_token };
            let out = instruction_outcome(inv, join, log);
            let a = inv.accounts@;
            let ranked = RankedGameState::decode(a[1].data@)->0;
            let game = GameAccount::decode(a[2].data@)->0;
            let oracle = OraclePriceState::decode(a[4].data@)->0;
            let user = UserAccount::decode(a[12].data@)->0;
            let share_bps = game.game_to_protocol_share_bps;
            let ranked_after = RankedGameState { participant_count: (ranked.participant_count + 1) as u32, ..ranked };
            let user_after = UserAccount {
                current_ranked_game: a[1].key,
                total_ranked_games_played: (user.total_ranked_games_played + 1) as u32,
                ..user
            };
            &&& out.1 is Ok <==> may_join(inv, ranked_game_id) && can_pay_entry(
                a,
                ranked.entry_fee,
                share_bps,
                payment_token@,
            ) && ranked.participant_count < u32::MAX && user.total_ranked_games_played < u32::MAX
            &&& out.1 is Ok ==> adds(
                log,
                out.0,
                entry_payments(a, ranked.entry_fee, share_bps, oracle, payment_token@) + seq![
                    Deed::Write { at: 1, data: ranked_after.bytes() },
                    Deed::Write { at: 12, data: user_after.bytes() },
                ],
            )
        }),
{
    broadcast use group_deeds;
    let a = inv.accounts@;
    let out = join_ranked_game_outcome(inv, ranked_game_id, payment_token, log);
    let oracle = OraclePriceState::decode(a[4].data@)->0;
    lemma_token(payment_token, oracle);
    if let Ok((ranked, game, user, token)) = join_check(inv, ranked_game_id, payment_token) {
        let share_bps = game.game_to_protocol_share_bps;
        lemma_entry_payments(inv, ranked.entry_fee, share_bps, payment_token, token, log);
        ranked.law_decode_bytes();
        assert(ranked.bytes() == a[1].data@);
        user.law_decode_bytes();
        assert(user.bytes() == a[12].data@);
        let ranked_after = with_participant(ranked);
        let user_after = with_ranked_game(user, a[1].key);
        ranked_after.law_decode_bytes();
        user_after.law_decode_bytes();
        let log1 = process_ranked_entry_payment_outcome(
            inv,
            join_payment_accounts(),
            join_token_accounts(token),
            ranked.entry_fee,
            (10_000 - share_bps) as u16,
            share_bps,
            token,
            log,
        ).0;
        if out.1 is Ok {
            assert(out.0 == log1.push(EffectView::Store { account: 1, data: ranked_after.bytes() }).push(
                EffectView::Store { account: 12, data: user_after.bytes() },
            ));
            assert(deeds(out.0) =~= deeds(log) + (entry_payments(
                a,
                ranked.entry_fee,
                share_bps,
                oracle,
                payment_token@,
            ) + seq![
                Deed::Write { at: 1, data: ranked_after.bytes() },
                Deed::Write { at: 12, data: user_after.bytes() },
            ]));
        }
    }
}

// ---------------------------------------------------------------------------
// Payments with the accounts anywhere
// ---------------------------------------------------------------------------

/// The mint that stands for a token.
pub open spec fn mint_of(token: PaymentToken) -> Seq<u8> {
    match token {
        PaymentToken::SOL => SOL_MINT@,
        PaymentToken::SKR => SKR_MINT@,
        PaymentToken::SLICE => SLICE_MINT@,
        PaymentToken::USDC => USDC_MINT@,
    }
}

/// A mint stands for at most one token, and the tokens for different mints.
pub proof fn law_mints_and_tokens(mint: Pubkey, token: PaymentToken)
    ensures
        PaymentToken::spec_from_mint(mint) == Some(token) <==> mint@ == mint_of(token),
        token.spec_mint()@ == mint_of(token),
{
    law_mint_names_token(PaymentToken::SOL);
    law_mint_names_token(PaymentToken::SKR);
    law_mint_names_token(PaymentToken::SLICE);
    law_mint_names_token(PaymentToken::USDC);
}

/// Lamports from one account to another, or tokens from the payer's token account.
pub open spec fn paid(
    a: Seq<Account>,
    token: PaymentToken,
    payer: int,
    wallet: int,
    payer_ata: int,
    wallet_ata: int,
    amount: nat,
) -> Deed {
    if token == PaymentToken::SOL {
        Deed::Lamports { from: a[payer].key@, to: a[wallet].key@, lamports: amount }
    } else {
        Deed::Tokens {
            source: a[payer_ata].key@,
            destination: a[wallet_ata].key@,
            authority: a[payer].key@,
            amount,
            checked: Some((mint_of(token), 6)),
        }
    }
}

/// A cost is charged in the token asked for, wherever the accounts stand: the least units
/// that are worth it, of which the protocol gets the game's share and the game the rest.
/// This is what happens whenever it can, and only then.
pub proof fn law_cost_is_charged(
    inv: Invocation,
    at: PaymentAccounts,
    spl: Option<SplPaymentAccounts>,
    cost_usd_micro: u64,
    token: PaymentToken,
    log: Seq<EffectView>,
)
    ensures
        ({
            let out = process_payment_outcome(inv, at, spl, cost_usd_micro, token, log);
            let a = inv.accounts@;
            let (payer, wallet, treasury) = (at.payer as int, at.game as int, at.game_protocol as int);
            let game = GameAccount::decode(a[wallet].data@)->0;
            let oracle = OraclePriceState::decode(a[at.oracle as int].data@)->0;
            let total = due(cost_usd_micro as nat, oracle, mint_of(token));
            let to_protocol = protocol_gets(total, game.game_to_protocol_share_bps);
            let (from, to, to_treasury) = (
                spl->0.payer_ata as int,
                spl->0.game_ata as int,
                spl->0.protocol_ata as int,
            );
            &&& out.1 is Ok <==> a[payer].is_signer && GameAccount::decode(a[wallet].data@) is Some
                && game.is_initialized && holds_oracle(a[at.oracle as int], oracle) && can_charge(
                cost_usd_micro as nat,
                oracle,
                mint_of(token),
            ) && (token == PaymentToken::SOL || (spl is Some && a[spl->0.mint as int].key@ == mint_of(token)
                && a[at.token_program as int].key@ == TOKEN_PROGRAM_ID@))
            &&& out.1 is Ok ==> to_protocol <= total && adds(
                log,
                out.0,
                seq![
                    paid(a, token, payer, wallet, from, to, (total - to_protocol) as nat),
                    paid(a, token, payer, treasury, from, to_treasury, to_protocol),
                ],
            )
        }),
{
    broadcast use group_deeds;
    let a = inv.accounts@;
    let out = process_payment_outcome(inv, at, spl, cost_usd_micro, token, log);
    let game = GameAccount::decode(a[at.game as int].data@)->0;
    let oracle = OraclePriceState::decode(a[at.oracle as int].data@)->0;
    let mint = token.spec_mint();
    law_mints_and_tokens(mint, token);
    lemma_token(mint, oracle);
    lemma_charge(cost_usd_micro as nat, oracle, mint, token);
    if let Ok(total) = charge(cost_usd_micro as nat, price_of(oracle, token), decimals_of(token)) {
        lemma_protocol_gets(total, game.game_to_protocol_share_bps);
        let to_protocol = protocol_gets(total as nat, game.game_to_protocol_share_bps);
        if out.1 is Ok {
            assert(deeds(out.0) =~= deeds(log) + seq![
                paid(
                    a,
                    token,
                    at.payer as int,
                    at.game as int,
                    spl->0.payer_ata as int,
                    spl->0.game_ata as int,
                    (total - to_protocol) as nat,
                ),
                paid(
                    a,
                    token,
                    at.payer as int,
                    at.game_protocol as int,
                    spl->0.payer_ata as int,
                    spl->0.protocol_ata as int,
                    to_protocol,
                ),
            ]);
        }
    }
}

/// An entry is charged in the token asked for, wherever the accounts stand: the entry, and
/// the cuts of the fee of a tenth on top of it, each in the least units that are worth it.
/// The shares of the developer and the protocol make up the whole of the fee. This is what
/// happens whenever it can, and only then.
pub proof fn law_entry_is_charged(
    inv: Invocation,
    at: RankedPaymentAccounts,
    spl: Option<RankedSplPaymentAccounts>,
    entry: u64,
    dev_fee_bps: u16,
    share_bps: u16,
    token: PaymentToken,
    log: Seq<EffectView>,
)
    ensures
        ({
            let out = process_ranked_entry_payment_outcome(
                inv,
                at,
                spl,
                entry,
                dev_fee_bps,
                share_bps,
                token,
                log,
            );
            let a = inv.accounts@;
            let mint = mint_of(token);
            let oracle = OraclePriceState::decode(a[at.oracle as int].data@)->0;
            let net = due_cents(entry as nat, oracle, mint);
            let developer = due_cents(developer_cut(entry, share_bps), oracle, mint);
            let protocol = due_cents(protocol_cut(entry, share_bps), oracle, mint);
            let payer = at.payer as int;
            let from = spl->0.payer_ata as int;
            &&& out.1 is Ok <==> dev_fee_bps + share_bps == 10_000 && entry * 1_000 <= u64::MAX && holds_oracle(
                a[at.oracle as int],
                oracle,
            ) && can_charge(entry as nat * 10_000, oracle, mint) && can_charge(
                developer_cut(entry, share_bps) * 10_000,
                oracle,
                mint,
            ) && can_charge(protocol_cut(entry, share_bps) * 10_000, oracle, mint) && (token == PaymentToken::SOL || (spl
                is Some && a[spl->0.mint as int].key@ == mint && keeps_tokens(
                a[spl->0.ranked_game_ata as int].key@,
                a[at.ranked_game as int].key@,
                mint,
            ) && keeps_tokens(a[spl->0.game_ata as int].key@, a[at.game as int].key@, mint) && keeps_tokens(
                a[spl->0.protocol_ata as int].key@,
                a[at.game_protocol as int].key@,
                mint,
            ) && a[at.token_program as int].key@ == TOKEN_PROGRAM_ID@))
            &&& out.1 is Ok ==> adds(
                log,
                out.0,
                seq![
                    paid(a, token, payer, at.ranked_game as int, from, spl->0.ranked_game_ata as int, net),
                ] + unless_zero(
                    developer,
                    paid(a, token, payer, at.game as int, from, spl->0.game_ata as int, developer),
                ) + unless_zero(
                    protocol,
                    paid(a, token, payer, at.game_protocol as int, from, spl->0.protocol_ata as int, protocol),
                ),
            )
        }),
{
    broadcast use group_deeds;
    let a = inv.accounts@;
    let oracle = OraclePriceState::decode(a[at.oracle as int].data@)->0;
    let mint = token.spec_mint();
    law_mints_and_tokens(mint, token);
    lemma_token(mint, oracle);
    if dev_fee_bps + share_bps == 10_000 && entry * 1_000 <= u64::MAX {
        assert(dev_fee_bps == (10_000 - share_bps) as u16);
        lemma_cuts(entry, share_bps);
        lemma_charge(entry as nat * 10_000, oracle, mint, token);
        lemma_charge(developer_cut(entry, share_bps) * 10_000, oracle, mint, token);
        lemma_charge(protocol_cut(entry, share_bps) * 10_000, oracle, mint, token);
        let net = due_cents(entry as nat, oracle, mint@);
        let developer = due_cents(developer_cut(entry, share_bps), oracle, mint@);
        let protocol = due_cents(protocol_cut(entry, share_bps), oracle, mint@);
        let payer = at.payer as int;
        let from = spl->0.payer_ata as int;
        let out = process_ranked_entry_payment_outcome(inv, at, spl, entry, dev_fee_bps, share_bps, token, log);
        if out.1 is Ok {
            assert(deeds(out.0) =~= deeds(log) + (seq![
                paid(a, token, payer, at.ranked_game as int, from, spl->0.ranked_game_ata as int, net),
            ] + unless_zero(
                developer,
                paid(a, token, payer, at.game as int, from, spl->0.game_ata as int, developer),
            ) + unless_zero(
                protocol,
                paid(a, token, payer, at.game_protocol as int, from, spl->0.protocol_ata as int, protocol),
            )));
        }
    }
}

} // verus!
