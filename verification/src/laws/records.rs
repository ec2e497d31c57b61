//! What is made and written down.

use crate::codec::le_bytes;
use crate::constants::{
    Pubkey, AUTHORITY, GAME_PROTOCOL_SEED, GAME_SEED, ORACLE_DISCRIMINATOR, ORACLE_SEED, PROGRAM_ID,
    RANKED_GAME_DISCRIMINATOR, RANKED_GAME_SEED, SKR_MINT, SLICE_MINT, TOKEN_PROGRAM_ID, USDC_MINT,
};
use crate::cpi::system_create_account;
use crate::helpers::{bump_for, game_protocol_seeds, game_seeds, ranked_game_seeds, with_bump};
use crate::instruction::IndieGamesInstruction;
use crate::laws::deeds::{
    adds, deeds, derived_bump, group_deeds, holds_game, holds_oracle, holds_ranked, is_derived,
    keeps_tokens, signed_by, tokens_address, unless_zero, Deed,
};
use crate::processor::game::{
    create_game_outcome, ensure_token_accounts_outcome, game_account_outcome, open_account_effects,
    treasury_outcome, upgraded,
};
use crate::processor::instruction_outcome;
use crate::processor::ranked_game::{
    create_escrow_ata_outcome, create_ranked_game_check, create_ranked_game_outcome,
    new_ranked_game, stands_at,
};
use crate::runtime::{signed_call, Account, EffectView, Invocation};
use crate::state::game::{GameAccount, GameAccountV1};
use crate::state::oracle::OraclePriceState;
use crate::state::ranked_game::{RankedGameState, RankedGameStatus};
use vstd::prelude::*;

verus! {

// ---------------------------------------------------------------------------
// The oracle
// ---------------------------------------------------------------------------

/// The oracle is made once, by the authority, with the prices given, none of which is
/// zero; nothing else happens.
pub proof fn law_oracle_is_made(inv: Invocation, sol: u64, skr: u64, slice: u64, log: Seq<EffectView>)
    ensures
        ({
            let init = IndieGamesInstruction::InitOracle {
                sol_price_usd_micro_per_lamport: sol,
                skr_price_usd_micro_per_atom: skr,
                slice_price_usd_micro_per_atom: slice,
            };
            let out = instruction_outcome(inv, init, log);
            let a = inv.accounts@;
            let oracle = OraclePriceState {
                discriminator: ORACLE_DISCRIMINATOR,
                sol_price_usd_micro_per_lamport: sol,
                skr_price_usd_micro_per_atom: skr,
                slice_price_usd_micro_per_atom: slice,
                bump: derived_bump(seq![ORACLE_SEED@]),
            };
            &&& out.1 is Ok <==> a.len() >= 3 && signed_by(a, AUTHORITY@) && is_derived(
                a[1].key@,
                seq![ORACLE_SEED@],
            ) && a[1].data@.len() == 0 && sol > 0 && skr > 0 && slice > 0 && inv.rent is Ok
            &&& out.1 is Ok ==> adds(
                log,
                out.0,
                seq![
                    Deed::NewAccount {
                        payer: a[0].key@,
                        key: a[1].key@,
                        lamports: inv.rent->Ok_0.oracle as nat,
                        space: 33,
                        owner: PROGRAM_ID@,
                    },
                    Deed::Write { at: 1, data: oracle.bytes() },
                ],
            )
        }),
{
    broadcast use group_deeds;
    let init = IndieGamesInstruction::InitOracle {
        sol_price_usd_micro_per_lamport: sol,
        skr_price_usd_micro_per_atom: skr,
        slice_price_usd_micro_per_atom: slice,
    };
    let out = instruction_outcome(inv, init, log);
    let a = inv.accounts@;
    let oracle = OraclePriceState {
        discriminator: ORACLE_DISCRIMINATOR,
        sol_price_usd_micro_per_lamport: sol,
        skr_price_usd_micro_per_atom: skr,
        slice_price_usd_micro_per_atom: slice,
        bump: derived_bump(seq![ORACLE_SEED@]),
    };
    oracle.law_decode_bytes();
    if out.1 is Ok {
        assert(deeds(out.0) =~= deeds(log) + seq![
            Deed::NewAccount {
                payer: a[0].key@,
                key: a[1].key@,
                lamports: inv.rent->Ok_0.oracle as nat,
                space: 33,
                owner: PROGRAM_ID@,
            },
            Deed::Write { at: 1, data: oracle.bytes() },
        ]);
    }
}

/// The authority sets all prices of the oracle, none of which is zero, and nothing else.
pub proof fn law_prices_are_set(inv: Invocation, sol: u64, skr: u64, slice: u64, log: Seq<EffectView>)
    ensures
        ({
            let update = IndieGamesInstruction::UpdateOraclePrices {
                sol_price_usd_micro_per_lamport: sol,
                skr_price_usd_micro_per_atom: skr,
                slice_price_usd_micro_per_atom: slice,
            };
            let out = instruction_outcome(inv, update, log);
            let a = inv.accounts@;
            let before = OraclePriceState::decode(a[1].data@)->0;
            let after = OraclePriceState {
                sol_price_usd_micro_per_lamport: sol,
                skr_price_usd_micro_per_atom: skr,
                slice_price_usd_micro_per_atom: slice,
                ..before
            };
            &&& out.1 is Ok <==> a.len() >= 2 && signed_by(a, AUTHORITY@) && sol > 0 && skr > 0 && slice > 0
                && holds_oracle(a[1], before)
            &&& out.1 is Ok ==> adds(log, out.0, seq![Deed::Write { at: 1, data: after.bytes() }])
        }),
{
    broadcast use group_deeds;
    let a = inv.accounts@;
    let before = OraclePriceState::decode(a[1].data@)->0;
    let after = OraclePriceState {
        sol_price_usd_micro_per_lamport: sol,
        skr_price_usd_micro_per_atom: skr,
        slice_price_usd_micro_per_atom: slice,
        ..before
    };
    after.law_decode_bytes();
    if OraclePriceState::decode(a[1].data@) is Some {
        assert(before.bytes() == a[1].data@);
        before.law_decode_bytes();
    }
    lemma_one_write(log, 1, after.bytes());
}

proof fn lemma_one_write(log: Seq<EffectView>, account: usize, data: Seq<u8>)
    ensures
        adds(
            log,
            log.push(EffectView::Store { account, data }),
            seq![Deed::Write { at: account, data }],
        ),
{
    broadcast use group_deeds;
    assert(deeds(log.push(EffectView::Store { account, data })) =~= deeds(log) + seq![
        Deed::Write { at: account, data },
    ]);
}

// ---------------------------------------------------------------------------
// Changing a game
// ---------------------------------------------------------------------------

/// Whether the owner of the game in the second account asks.
pub open spec fn owner_asks(inv: Invocation) -> bool {
    let a = inv.accounts@;
    &&& a.len() >= 2
    &&& GameAccount::decode(a[1].data@) is Some
    &&& signed_by(a, GameAccount::decode(a[1].data@)->0.owner@)
}

proof fn lemma_game_room(inv: Invocation, after: GameAccount, log: Seq<EffectView>)
    ensures
        GameAccount::decode(inv.accounts@[1].data@) is Some ==> inv.accounts@[1].data@.len() == 154,
        after.bytes().len() == 154,
        adds(
            log,
            log.push(EffectView::Store { account: 1, data: after.bytes() }),
            seq![Deed::Write { at: 1, data: after.bytes() }],
        ),
{
    let data = inv.accounts@[1].data@;
    after.law_decode_bytes();
    if let Some(game) = GameAccount::decode(data) {
        assert(game.bytes() == data);
        game.law_decode_bytes();
    }
    lemma_one_write(log, 1, after.bytes());
}

/// The owner of a game sets its fees, the developer's from a tenth to the whole and the
/// protocol's share a tenth at least, and nothing else.
pub proof fn law_fees_are_set(inv: Invocation, new_dev_fees_bps: u16, new_share_bps: u16, log: Seq<EffectView>)
    ensures
        ({
            let update = IndieGamesInstruction::UpdateFeeShare {
                new_dev_fees_bps,
                new_game_to_protocol_share_bps: new_share_bps,
            };
            let out = instruction_outcome(inv, update, log);
            let game = GameAccount::decode(inv.accounts@[1].data@)->0;
            let after = GameAccount {
                dev_fee_bps: new_dev_fees_bps,
                game_to_protocol_share_bps: new_share_bps,
                ..game
            };
            &&& out.1 is Ok <==> owner_asks(inv) && 1_000 <= new_dev_fees_bps <= 10_000 && 1_000 <= new_share_bps
            &&& out.1 is Ok ==> adds(log, out.0, seq![Deed::Write { at: 1, data: after.bytes() }])
        }),
{
    let game = GameAccount::decode(inv.accounts@[1].data@)->0;
    let after = GameAccount { dev_fee_bps: new_dev_fees_bps, game_to_protocol_share_bps: new_share_bps, ..game };
    lemma_game_room(inv, after, log);
}

/// The owner of a game sets what a user account costs, and nothing else.
pub proof fn law_cost_is_set(inv: Invocation, new_game_cost: u64, log: Seq<EffectView>)
    ensures
        ({
            let out = instruction_outcome(inv, IndieGamesInstruction::UpdateGameCost { new_game_cost }, log);
            let game = GameAccount::decode(inv.accounts@[1].data@)->0;
            let after = GameAccount { game_cost: new_game_cost, ..game };
            &&& out.1 is Ok <==> owner_asks(inv)
            &&& out.1 is Ok ==> adds(log, out.0, seq![Deed::Write { at: 1, data: after.bytes() }])
        }),
{
    let game = GameAccount::decode(inv.accounts@[1].data@)->0;
    lemma_game_room(inv, GameAccount { game_cost: new_game_cost, ..game }, log);
}

/// The owner of a game gives it to another wallet, and nothing else happens.
pub proof fn law_game_is_given_away(inv: Invocation, new_owner: Pubkey, log: Seq<EffectView>)
    ensures
        ({
            let out = instruction_outcome(inv, IndieGamesInstruction::TransferGameOwnership { new_owner }, log);
            let game = GameAccount::decode(inv.accounts@[1].data@)->0;
            let after = GameAccount { owner: new_owner, ..game };
            &&& out.1 is Ok <==> owner_asks(inv)
            &&& out.1 is Ok ==> adds(log, out.0, seq![Deed::Write { at: 1, data: after.bytes() }])
        }),
{
    let game = GameAccount::decode(inv.accounts@[1].data@)->0;
    lemma_game_room(inv, GameAccount { owner: new_owner, ..game }, log);
}

/// The authority brings a game of the first layout to the current one: the account gets
/// the rent that it lacks and the size of the current layout, and what the first layout
/// held is kept; what it did not hold is zero. One of the current layout is left alone.
pub proof fn law_old_game_is_upgraded(inv: Invocation, log: Seq<EffectView>)
    ensures
        ({
            let out = instruction_outcome(inv, IndieGamesInstruction::UpgradeGameStateVersion, log);
            let a = inv.accounts@;
            let data = a[1].data@;
            let first = GameAccountV1::decode(data)->0;
            let rent = inv.rent->Ok_0.game;
            &&& out.1 is Ok <==> a.len() >= 3 && signed_by(a, AUTHORITY@) && data.len() >= 2 && (data[1] >= 2 || (
            GameAccountV1::decode(data) is Some && inv.rent is Ok && a[1].lamports <= rent))
            &&& out.1 is Ok && data[1] >= 2 ==> out.0 == log
            &&& out.1 is Ok && data[1] < 2 ==> exists|after: GameAccount|
                {
                    &&& after.is_initialized == first.is_initialized
                    &&& after.version == 2
                    &&& after.game_title == first.game_title
                    &&& after.owner == first.owner
                    &&& after.dev_fee_bps == first.dev_fee_bps
                    &&& after.game_to_protocol_share_bps == first.game_to_protocol_share_bps
                    &&& after.game_cost == 0
                    &&& forall|i: int| 0 <= i < 64 ==> #[trigger] after.game_url@[i] == 0
                    &&& after.total_users == 0
                    &&& after.total_revenue_usd_micro == 0
                    &&& adds(
                        log,
                        out.0,
                        seq![
                            Deed::Lamports {
                                from: a[0].key@,
                                to: a[1].key@,
                                lamports: (rent - a[1].lamports) as nat,
                            },
                            Deed::Resize { at: 1, len: 154 },
                            Deed::Write { at: 1, data: #[trigger] after.bytes() },
                        ],
                    )
                }
        }),
{
    broadcast use group_deeds;
    let out = instruction_outcome(inv, IndieGamesInstruction::UpgradeGameStateVersion, log);
    let a = inv.accounts@;
    let data = a[1].data@;
    let rent = inv.rent->Ok_0.game;
    if let Some(first) = GameAccountV1::decode(data) {
        assert(first.bytes() == data);
        first.law_decode_bytes();
        let after = upgraded(first);
        after.law_decode_bytes();
        if out.1 is Ok && data[1] < 2 {
            assert(deeds(out.0) =~= deeds(log) + seq![
                Deed::Lamports { from: a[0].key@, to: a[1].key@, lamports: (rent - a[1].lamports) as nat },
                Deed::Resize { at: 1, len: 154 },
                Deed::Write { at: 1, data: after.bytes() },
            ]);
        }
    }
}

// ---------------------------------------------------------------------------
// Ranked games
// ---------------------------------------------------------------------------

/// The authority sets the status of a ranked game, and nothing else: 0 is open, 1 is in
/// progress, 2 is finished, and there is no other.
pub proof fn law_status_is_set(inv: Invocation, ranked_game_id: u64, new_status: u8, log: Seq<EffectView>)
    ensures
        ({
            let update = IndieGamesInstruction::UpdateRankedGameStatus { ranked_game_id, new_status };
            let out = instruction_outcome(inv, update, log);
            let a = inv.accounts@;
            let ranked = RankedGameState::decode(a[1].data@)->0;
            let status = if new_status == 0 {
                RankedGameStatus::Open
            } else if new_status == 1 {
                RankedGameStatus::InProgress
            } else {
                RankedGameStatus::Finished
            };
            let after = RankedGameState { status, ..ranked };
            &&& out.1 is Ok <==> a.len() >= 2 && signed_by(a, AUTHORITY@) && holds_ranked(
                a[1],
                ranked_game_id,
                ranked,
            ) && new_status <= 2
            &&& out.1 is Ok ==> adds(log, out.0, seq![Deed::Write { at: 1, data: after.bytes() }])
        }),
{
    let a = inv.accounts@;
    let ranked = RankedGameState::decode(a[1].data@)->0;
    let status = RankedGameStatus::spec_from_tag(new_status)->0;
    let after = RankedGameState { status, ..ranked };
    after.law_decode_bytes();
    if RankedGameState::decode(a[1].data@) is Some {
        assert(ranked.bytes() == a[1].data@);
        ranked.law_decode_bytes();
    }
    lemma_one_write(log, 1, after.bytes());
}

/// Whether the token account at `escrow` has to be made: it does not exist, and does not
/// stand at one of the positions `made` as well, which exist by then.
pub open spec fn to_make(a: Seq<Account>, escrow: int, made: Seq<int>) -> bool {
    a[escrow].data@.len() == 0 && forall|k: int|
        0 <= k < made.len() ==> a[#[trigger] made[k]].key@ != a[escrow].key@
}

/// The making of one pool of a ranked game.
pub open spec fn made_pool(a: Seq<Account>, mint: int, escrow: int, made: Seq<int>) -> Seq<Deed> {
    unless_zero(
        if to_make(a, escrow, made) { 1 } else { 0 },
        Deed::NewTokens {
            payer: a[0].key@,
            address: tokens_address(a[1].key@, a[mint].key@, a[4].key@)->0,
            wallet: a[1].key@,
            mint: a[mint].key@,
            token_program: a[4].key@,
            lenient: false,
        },
    )
}

/// Whether one pool of a ranked game can be made: there is nothing to make, or the
/// account is the ranked game's token account.
pub open spec fn can_make(a: Seq<Account>, mint: int, escrow: int, made: Seq<int>) -> bool {
    to_make(a, escrow, made) ==> keeps_tokens(a[escrow].key@, a[1].key@, a[mint].key@) && tokens_address(
        a[1].key@,
        a[mint].key@,
        a[4].key@,
    ) is Some
}

proof fn lemma_made_pool(
    inv: Invocation,
    mint: usize,
    escrow: usize,
    made: Seq<usize>,
    before: Seq<int>,
    log: Seq<EffectView>,
)
    requires
        made.len() == before.len(),
        forall|k: int| 0 <= k < made.len() ==> #[trigger] made[k] as int == #[trigger] before[k],
    ensures
        ({
            let out = create_escrow_ata_outcome(inv, mint, escrow, made, log);
            let a = inv.accounts@;
            &&& out.1 is Ok <==> can_make(a, mint as int, escrow as int, before)
            &&& out.1 is Ok ==> adds(log, out.0, made_pool(a, mint as int, escrow as int, before))
        }),
{
    broadcast use group_deeds;
    let a = inv.accounts@;
    if stands_at(inv, made, escrow) {
        let k = choose|k: int| 0 <= k < made.len() && a[#[trigger] made[k] as int].key@ == a[escrow as int].key@;
        assert(a[before[k]].key@ == a[escrow as int].key@);
        assert(!to_make(a, escrow as int, before));
    } else {
        assert forall|k: int| 0 <= k < before.len() implies a[#[trigger] before[k]].key@ != a[escrow as int].key@ by {
            assert(made[k] as int == before[k]);
        }
    }
    let out = create_escrow_ata_outcome(inv, mint, escrow, made, log);
    if out.1 is Ok {
        assert(deeds(out.0) =~= deeds(log) + made_pool(a, mint as int, escrow as int, before));
    }
}

/// A ranked game is made by the authority: its account, the token accounts of its pools
/// that are missing, and in the account that it is open, without participants, and costs
/// the entry given; nothing else happens. This is what happens whenever it can, and only
/// then.
#[verifier::rlimit(60)]
#[verifier::spinoff_prover]
pub proof fn law_ranked_game_is_made(
    inv: Invocation,
    ranked_game_id: u64,
    entry_fee_usd_micro: u64,
    log: Seq<EffectView>,
)
    ensures
        ({
            let create = IndieGamesInstruction::CreateRankedGame { ranked_game_id, entry_fee_usd_micro };
            let out = instruction_outcome(inv, create, log);
            let a = inv.accounts@;
            let game = GameAccount::decode_front(a[2].data@);
            let seeds = seq![RANKED_GAME_SEED@, le_bytes(ranked_game_id as nat, 8)];
            let ranked = RankedGameState {
                discriminator: RANKED_GAME_DISCRIMINATOR,
                ranked_game_id,
                game: a[2].key,
                entry_fee: entry_fee_usd_micro,
                participant_count: 0,
                status: RankedGameStatus::Open,
                bump: derived_bump(seeds),
            };
            &&& out.1 is Ok <==> a.len() >= 13 && signed_by(a, AUTHORITY@) && a[1].data@.len() == 0 && is_derived(
                a[1].key@,
                seeds,
            ) && game is Some && game->0.is_initialized && a[7].key@ == USDC_MINT@ && a[9].key@ == SKR_MINT@
                && a[11].key@ == SLICE_MINT@ && inv.rent is Ok && can_make(a, 7, 8, seq![1]) && can_make(
                a,
                9,
                10,
                seq![1, 8],
            ) && can_make(a, 11, 12, seq![1, 8, 10])
            &&& out.1 is Ok ==> adds(
                log,
                out.0,
                seq![
                    Deed::NewAccount {
                        payer: a[0].key@,
                        key: a[1].key@,
                        lamports: inv.rent->Ok_0.ranked_game as nat,
                        space: 62,
                        owner: PROGRAM_ID@,
                    },
                ] + made_pool(a, 7, 8, seq![1]) + made_pool(a, 9, 10, seq![1, 8]) + made_pool(
                    a,
                    11,
                    12,
                    seq![1, 8, 10],
                ) + seq![Deed::Write { at: 1, data: ranked.bytes() }],
            )
        }),
{
    broadcast use group_deeds;
    let a = inv.accounts@;
    if let Ok(bump) = create_ranked_game_check(inv, ranked_game_id) {
        if let Ok(rent) = inv.rent {
            let seeds = ranked_game_seeds(ranked_game_id);
            let ranked = new_ranked_game(
                ranked_game_id,
                a[2].key,
                entry_fee_usd_micro,
                bump,
            );
            ranked.law_decode_bytes();
            let made = Deed::NewAccount {
                payer: a[0].key@,
                key: a[1].key@,
                lamports: rent.ranked_game as nat,
                space: 62,
                owner: PROGRAM_ID@,
            };
            let log0 = log.push(
                signed_call(
                    system_create_account(
                        a[0].key@,
                        a[1].key@,
                        rent.ranked_game,
                        RankedGameState::LEN as u64,
                        PROGRAM_ID@,
                    ),
                    seq![0, 1, 3],
                    with_bump(seeds, bump),
                ),
            );
            assert(deeds(log0) =~= deeds(log) + seq![made]);
            lemma_made_pool(inv, 7, 8, seq![1], seq![1], log0);
            let log1 = create_escrow_ata_outcome(inv, 7, 8, seq![1], log0).0;
            lemma_made_pool(inv, 9, 10, seq![1, 8], seq![1, 8], log1);
            let log2 = create_escrow_ata_outcome(inv, 9, 10, seq![1, 8], log1).0;
            lemma_made_pool(inv, 11, 12, seq![1, 8, 10], seq![1, 8, 10], log2);
            let log3 = create_escrow_ata_outcome(inv, 11, 12, seq![1, 8, 10], log2).0;
            let out = create_ranked_game_outcome(inv, ranked_game_id, entry_fee_usd_micro, log);
            if out.1 is Ok {
                assert(out.0 == log3.push(EffectView::Store { account: 1, data: ranked.bytes() }));
                let pools = made_pool(a, 7, 8, seq![1]) + made_pool(a, 9, 10, seq![1, 8]) + made_pool(
                    a,
                    11,
                    12,
                    seq![1, 8, 10],
                );
                assert(deeds(log3) =~= deeds(log) + (seq![made] + pools));
                assert(deeds(out.0) =~= deeds(log) + (seq![made] + made_pool(a, 7, 8, seq![1]) + made_pool(
                    a,
                    9,
                    10,
                    seq![1, 8],
                ) + made_pool(a, 11, 12, seq![1, 8, 10]) + seq![Deed::Write { at: 1, data: ranked.bytes() }]));
            }
        }
    }
}

// ---------------------------------------------------------------------------
// Creating a game
// ---------------------------------------------------------------------------

/// The token account for one mint of an account of the program, made unless it exists.
pub open spec fn ensured_tokens(a: Seq<Account>, wallet: int, ata: int, mint: Seq<u8>) -> Deed {
    Deed::NewTokens {
        payer: a[0].key@,
        address: a[ata].key@,
        wallet: a[wallet].key@,
        mint,
        token_program: TOKEN_PROGRAM_ID@,
        lenient: true,
    }
}

/// The token accounts for all mints of an account of the program, which stand right
/// behind it.
pub open spec fn ensured_pools(a: Seq<Account>, wallet: int) -> Seq<Deed> {
    seq![
        ensured_tokens(a, wallet, wallet + 1, SKR_MINT@),
        ensured_tokens(a, wallet, wallet + 2, SLICE_MINT@),
        ensured_tokens(a, wallet, wallet + 3, USDC_MINT@),
    ]
}

/// Whether the token accounts of an account of the program are the right ones.
pub open spec fn can_ensure(a: Seq<Account>, wallet: int) -> bool {
    &&& a[9].key@ == SKR_MINT@ && a[10].key@ == SLICE_MINT@ && a[11].key@ == USDC_MINT@
    &&& keeps_tokens(a[wallet + 1].key@, a[wallet].key@, SKR_MINT@)
    &&& keeps_tokens(a[wallet + 2].key@, a[wallet].key@, SLICE_MINT@)
    &&& keeps_tokens(a[wallet + 3].key@, a[wallet].key@, USDC_MINT@)
}

/// An account that becomes the program's: it gets what it lacks of the rent, its size,
/// and the program as its owner.
pub open spec fn opened(a: Seq<Account>, account: int, rent: u64, space: nat) -> Seq<Deed> {
    unless_zero(
        if a[account].lamports < rent { 1 } else { 0 },
        Deed::Lamports {
            from: a[0].key@,
            to: a[account].key@,
            lamports: (rent - a[account].lamports) as nat,
        },
    ) + seq![
        Deed::Allocate { key: a[account].key@, space },
        Deed::Assign { key: a[account].key@, owner: PROGRAM_ID@ },
    ]
}

/// The treasury of a game that is made, unless it exists, with its token accounts.
pub open spec fn treasury_deeds(inv: Invocation) -> Seq<Deed> {
    let a = inv.accounts@;
    if a[5].owner@ == PROGRAM_ID@ {
        Seq::empty()
    } else {
        opened(a, 5, inv.rent->Ok_0.empty, 0) + ensured_pools(a, 5)
    }
}

/// The account of a game that is made, unless it exists.
pub open spec fn account_deeds(inv: Invocation, game: GameAccount) -> Seq<Deed> {
    let a = inv.accounts@;
    if a[1].data@.len() != 0 {
        Seq::empty()
    } else {
        opened(a, 1, inv.rent->Ok_0.game, 154).push(Deed::Write { at: 1, data: game.bytes() })
    }
}

/// What the making of a game comes to: its treasury, its account, and its token accounts.
pub open spec fn game_deeds(inv: Invocation, game: GameAccount) -> Seq<Deed> {
    treasury_deeds(inv) + account_deeds(inv, game) + ensured_pools(inv.accounts@, 1)
}

/// Whether a game can be made: its owner signs, the addresses are those of its title,
/// its fees are allowed, and what exists already is a game of the program.
pub open spec fn may_make_game(inv: Invocation, game: GameAccount) -> bool {
    let a = inv.accounts@;
    &&& a.len() >= 16
    &&& a[0].is_signer
    &&& is_derived(a[5].key@, seq![GAME_PROTOCOL_SEED@, game.game_title@])
    &&& is_derived(a[1].key@, seq![GAME_SEED@, game.game_title@])
    &&& a[5].owner@ != PROGRAM_ID@ ==> inv.rent is Ok && can_ensure(a, 5)
    &&& 1_000 <= game.dev_fee_bps <= 10_000
    &&& a[1].data@.len() == 0 ==> inv.rent is Ok && 1_000 <= game.game_to_protocol_share_bps
    &&& a[1].data@.len() != 0 ==> holds_game(a[1], GameAccount::decode(a[1].data@)->0)
    &&& can_ensure(a, 1)
}

proof fn lemma_ensured_pools(inv: Invocation, wallet: usize, log: Seq<EffectView>)
    requires
        wallet <= 5,
    ensures
        ({
            let out = ensure_token_accounts_outcome(inv, wallet, log);
            let a = inv.accounts@;
            &&& out.1 is Ok <==> can_ensure(a, wallet as int)
            &&& out.1 is Ok ==> adds(log, out.0, ensured_pools(a, wallet as int))
        }),
{
    broadcast use group_deeds;
    let out = ensure_token_accounts_outcome(inv, wallet, log);
    let a = inv.accounts@;
    if out.1 is Ok {
        assert(deeds(out.0) =~= deeds(log) + ensured_pools(a, wallet as int));
    }
}

proof fn lemma_opened(
    inv: Invocation,
    account: usize,
    rent: u64,
    space: u64,
    seeds: Seq<Seq<u8>>,
    log: Seq<EffectView>,
)
    ensures
        adds(
            log,
            open_account_effects(inv, account, rent, space, seeds, log),
            opened(inv.accounts@, account as int, rent, space as nat),
        ),
{
    broadcast use group_deeds;
    assert(deeds(open_account_effects(inv, account, rent, space, seeds, log)) =~= deeds(log) + opened(
        inv.accounts@,
        account as int,
        rent,
        space as nat,
    ));
}

/// A game is made for the wallet that signs, as it is asked for: its treasury and its
/// account, unless they exist, and the token accounts of both. Where the game exists, it
/// is left as it is; nothing else happens. This is what happens whenever it can, and only
/// then.
pub proof fn law_game_is_made(
    inv: Invocation,
    title: [u8; 32],
    dev_fee_bps: u16,
    game_to_protocol_share_bps: u16,
    game_cost: u64,
    game_url: [u8; 64],
    log: Seq<EffectView>,
)
    ensures
        ({
            let create = IndieGamesInstruction::CreateGame {
                title,
                dev_fee_bps,
                game_to_protocol_share_bps,
                game_cost,
                game_url,
            };
            let out = instruction_outcome(inv, create, log);
            let game = GameAccount {
                is_initialized: true,
                version: 2,
                game_title: title,
                owner: inv.accounts@[0].key,
                dev_fee_bps,
                game_to_protocol_share_bps,
                game_cost,
                game_url,
                total_users: 0,
                total_revenue_usd_micro: 0,
            };
            &&& out.1 is Ok <==> may_make_game(inv, game)
            &&& out.1 is Ok ==> adds(log, out.0, game_deeds(inv, game))
        }),
{
    let game = GameAccount {
        is_initialized: true,
        version: 2,
        game_title: title,
        owner: inv.accounts@[0].key,
        dev_fee_bps,
        game_to_protocol_share_bps,
        game_cost,
        game_url,
        total_users: 0,
        total_revenue_usd_micro: 0,
    };
    law_any_game_is_made(inv, game, log);
}

proof fn lemma_treasury(inv: Invocation, game_title: [u8; 32], bump: u8, log: Seq<EffectView>)
    ensures
        ({
            let out = treasury_outcome(inv, game_title, bump, log);
            let a = inv.accounts@;
            &&& out.1 is Ok <==> (a[5].owner@ != PROGRAM_ID@ ==> inv.rent is Ok && can_ensure(a, 5))
            &&& out.1 is Ok ==> adds(log, out.0, treasury_deeds(inv))
        }),
{
    let a = inv.accounts@;
    let seeds = with_bump(game_protocol_seeds(game_title@), bump);
    let rent = inv.rent->Ok_0.empty;
    lemma_opened(inv, 5, rent, 0, seeds, log);
    lemma_ensured_pools(inv, 5, open_account_effects(inv, 5, rent, 0, seeds, log));
    let out = treasury_outcome(inv, game_title, bump, log);
    if out.1 is Ok {
        assert(deeds(out.0) =~= deeds(log) + treasury_deeds(inv));
    }
}

proof fn lemma_game_account(inv: Invocation, game: GameAccount, bump: u8, log: Seq<EffectView>)
    ensures
        ({
            let out = game_account_outcome(inv, game, bump, log);
            let a = inv.accounts@;
            &&& out.1 is Ok <==> if a[1].data@.len() == 0 {
                inv.rent is Ok
            } else {
                holds_game(a[1], GameAccount::decode(a[1].data@)->0)
            }
            &&& out.1 is Ok ==> adds(log, out.0, account_deeds(inv, game))
        }),
{
    let seeds = with_bump(game_seeds(game.game_title@), bump);
    let rent = inv.rent->Ok_0.game;
    game.law_decode_bytes();
    lemma_opened(inv, 1, rent, 154, seeds, log);
    let opened1 = open_account_effects(inv, 1, rent, 154, seeds, log);
    lemma_one_write(opened1, 1, game.bytes());
    let out = game_account_outcome(inv, game, bump, log);
    if out.1 is Ok {
        assert(deeds(out.0) =~= deeds(log) + account_deeds(inv, game));
    }
}

/// The law of [`law_game_is_made`], for whatever is to be stored as the game.
pub proof fn law_any_game_is_made(inv: Invocation, game: GameAccount, log: Seq<EffectView>)
    ensures
        create_game_outcome(inv, game, log).1 is Ok <==> may_make_game(inv, game),
        create_game_outcome(inv, game, log).1 is Ok ==> adds(
            log,
            create_game_outcome(inv, game, log).0,
            game_deeds(inv, game),
        ),
{
    let a = inv.accounts@;
    let out = create_game_outcome(inv, game, log);
    if let Ok(bump) = bump_for(game_protocol_seeds(game.game_title@), a[5].key@) {
        lemma_treasury(inv, game.game_title, bump, log);
        let log1 = treasury_outcome(inv, game.game_title, bump, log).0;
        if let Ok(bump) = bump_for(game_seeds(game.game_title@), a[1].key@) {
            lemma_game_account(inv, game, bump, log1);
            let log2 = game_account_outcome(inv, game, bump, log1).0;
            lemma_ensured_pools(inv, 1, log2);
            if out.1 is Ok {
                assert(deeds(out.0) =~= deeds(log) + game_deeds(inv, game));
            }
        }
    }
}

} // verus!
