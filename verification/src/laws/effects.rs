//! What an instruction may ask of the runtime.

use crate::constants::{PaymentToken, Pubkey, MIN_GAME_TO_PROTOCOL_SHARE_BPS};
use crate::error::ProgramError;
use crate::helpers::{
    bump_for, game_protocol_seeds, game_seeds, law_share_within_amount, oracle_of, oracle_seeds,
    own_address, ranked_game_seeds, surplus, user_of, user_seeds, with_bump, BPS_DENOMINATOR,
};
use crate::instruction::IndieGamesInstruction;
use crate::laws::access::{for_authority, refused_outright};
use crate::processor::game::{
    create_game_outcome, developer_withdraw_check, developer_withdraw_outcome,
    ensure_token_accounts_outcome, game_account_outcome, new_game, open_account_effects, owned_game,
    reward_from_protocol_pool_outcome, reward_native_sol_outcome, reward_user_account_outcome,
    reward_user_check, treasury_outcome, update_fee_share_outcome, upgrade_game_version_outcome,
    withdraw_pool_outcome,
};
use crate::processor::payment::process_ranked_entry_payment_outcome;
use crate::processor::ranked_game::{
    close_escrow_ata_outcome, close_ranked_game_check, close_ranked_game_outcome,
    create_ranked_game_check, create_ranked_game_outcome, join_check, join_payment_accounts,
    join_ranked_game_outcome, join_token_accounts, pay_sol_pool_outcome, pay_spl_pool_outcome,
    reward_winner_check, reward_winner_outcome, skr_pool, slice_pool, usdc_pool, PoolAccounts,
};
use crate::processor::user_account::{
    charge_user_outcome, create_user_account_outcome, create_user_check, withdraw_rewards_check,
    withdraw_rewards_outcome,
};
use crate::processor::{instruction_outcome, NEW_GAME_VERSION, NEW_USER_VERSION};
use crate::runtime::{Account, EffectView, Invocation};
use crate::state::game::GameAccount;
use crate::state::oracle::OraclePriceState;
use crate::state::ranked_game::RankedGameState;
use vstd::prelude::*;

verus! {

/// Whether `seeds`, the last of which is a bump seed, derive `key` as an address
/// of this program.
pub open spec fn seeds_derive(seeds: Seq<Seq<u8>>, key: Seq<u8>) -> bool {
    seeds.len() > 0 && own_address(seeds.drop_last()) == Some((key, seeds.last()[0]))
}

/// Whether the program signs, if it signs at all, for an address of its own that
/// is one of the instruction's accounts.
pub open spec fn signs_for_own(inv: Invocation, seeds: Seq<Seq<u8>>) -> bool {
    seeds.len() == 0 || exists|n: int|
        0 <= n < inv.accounts@.len() && seeds_derive(seeds, #[trigger] inv.accounts@[n].key@)
}

/// Whether every position is one of the instruction's accounts.
pub open spec fn positions_within(inv: Invocation, positions: Seq<usize>) -> bool {
    forall|k: int| 0 <= k < positions.len() ==> #[trigger] positions[k] < inv.accounts@.len()
}

/// Whether an effect is one that the program may ask for: it names accounts of
/// the instruction, the program signs for its own addresses only, and lamports
/// are moved only as far as the account keeps its rent.
pub open spec fn permitted(inv: Invocation, effect: EffectView) -> bool {
    let count = inv.accounts@.len();
    match effect {
        EffectView::Invoke { accounts, signer_seeds, .. } => positions_within(inv, accounts) && signs_for_own(
            inv,
            signer_seeds,
        ),
        EffectView::Store { account, .. } => account < count,
        EffectView::Resize { account, .. } => account < count,
        EffectView::ZeroData { account } => account < count,
        EffectView::MoveLamports { from, to, lamports } => {
            let source = inv.accounts@[from as int];
            from < count && to < count && lamports <= surplus(source.lamports, source.rent_floor)
        },
        EffectView::DrainLamports { from, to } => from < count && to < count,
    }
}

/// Whether `after` is `before` with permitted effects added.
pub open spec fn continues(inv: Invocation, before: Seq<EffectView>, after: Seq<EffectView>) -> bool {
    &&& before.len() <= after.len()
    &&& forall|k: int| 0 <= k < before.len() ==> #[trigger] after[k] == before[k]
    &&& forall|k: int| before.len() <= k < after.len() ==> permitted(inv, #[trigger] after[k])
}

/// Whether the rent sysvar asks the same for an account that is a ranked game's
/// and for one that is to become it.
pub open spec fn rent_agrees(inv: Invocation) -> bool {
    match inv.rent {
        Ok(rent) => forall|n: int|
            0 <= n < inv.accounts@.len() && inv.accounts@[n].data@.len() == RankedGameState::LEN
                ==> #[trigger] inv.accounts@[n].rent_floor == rent.ranked_game,
        Err(_) => true,
    }
}

proof fn lemma_signs(inv: Invocation, seeds: Seq<Seq<u8>>, bump: u8, n: int)
    requires
        0 <= n < inv.accounts@.len(),
        bump_for(seeds, inv.accounts@[n].key@) == Ok::<u8, ProgramError>(bump),
    ensures
        signs_for_own(inv, with_bump(seeds, bump)),
{
    let signed = with_bump(seeds, bump);
    assert(signed.drop_last() =~= seeds);
    assert(seeds_derive(signed, inv.accounts@[n].key@));
}

proof fn lemma_payment_continues(
    inv: Invocation,
    game_cost: u64,
    payment_token: Pubkey,
    log: Seq<EffectView>,
)
    requires
        4 <= inv.accounts@.len(),
    ensures
        continues(inv, log, charge_user_outcome(inv, game_cost, payment_token, log).0),
{
}

proof fn lemma_entry_continues(
    inv: Invocation,
    entry_fee: u64,
    dev_fee_bps: u16,
    share_bps: u16,
    token: PaymentToken,
    log: Seq<EffectView>,
)
    requires
        13 <= inv.accounts@.len(),
    ensures
        continues(
            inv,
            log,
            process_ranked_entry_payment_outcome(
                inv,
                join_payment_accounts(),
                join_token_accounts(token),
                entry_fee,
                dev_fee_bps,
                share_bps,
                token,
                log,
            ).0,
        ),
{
}

proof fn lemma_open_account_continues(
    inv: Invocation,
    account: usize,
    needed: u64,
    space: u64,
    seeds: Seq<Seq<u8>>,
    log: Seq<EffectView>,
)
    requires
        16 <= inv.accounts@.len(),
        account < inv.accounts@.len(),
        signs_for_own(inv, seeds),
    ensures
        continues(inv, log, open_account_effects(inv, account, needed, space, seeds, log)),
{
}

proof fn lemma_token_accounts_continue(inv: Invocation, wallet: usize, log: Seq<EffectView>)
    requires
        16 <= inv.accounts@.len(),
        wallet <= 5,
    ensures
        continues(inv, log, ensure_token_accounts_outcome(inv, wallet, log).0),
{
}

proof fn lemma_create_game_continues(inv: Invocation, game: GameAccount, log: Seq<EffectView>)
    ensures
        continues(inv, log, create_game_outcome(inv, game, log).0),
{
    let a = inv.accounts@;
    if 16 <= a.len() && a[0].is_signer {
        let treasury_seeds = game_protocol_seeds(game.game_title@);
        let own_seeds = game_seeds(game.game_title@);
        if let Ok(bump) = bump_for(treasury_seeds, a[5].key@) {
            lemma_signs(inv, treasury_seeds, bump, 5);
            let opened = open_account_effects(
                inv,
                5,
                inv.rent->Ok_0.empty,
                0,
                with_bump(treasury_seeds, bump),
                log,
            );
            lemma_open_account_continues(inv, 5, inv.rent->Ok_0.empty, 0, with_bump(treasury_seeds, bump), log);
            lemma_token_accounts_continue(inv, 5, opened);
            let log1 = treasury_outcome(inv, game.game_title, bump, log).0;
            assert(continues(inv, log, log1));
            if let Ok(bump) = bump_for(own_seeds, a[1].key@) {
                lemma_signs(inv, own_seeds, bump, 1);
                lemma_open_account_continues(
                    inv,
                    1,
                    inv.rent->Ok_0.game,
                    GameAccount::MAX_SIZE as u64,
                    with_bump(own_seeds, bump),
                    log1,
                );
                let log2 = game_account_outcome(inv, game, bump, log1).0;
                assert(continues(inv, log1, log2));
                lemma_token_accounts_continue(inv, 1, log2);
            }
        }
    }
}

proof fn lemma_upgrade_continues(inv: Invocation, log: Seq<EffectView>)
    ensures
        continues(inv, log, upgrade_game_version_outcome(inv, log).0),
{
}

proof fn lemma_withdraw_pool_continues(
    inv: Invocation,
    holder: usize,
    source_ata: usize,
    destination_ata: usize,
    token: PaymentToken,
    token_program: usize,
    seeds: Seq<Seq<u8>>,
    log: Seq<EffectView>,
)
    requires
        holder < inv.accounts@.len(),
        source_ata < inv.accounts@.len(),
        destination_ata < inv.accounts@.len(),
        token_program < inv.accounts@.len(),
        signs_for_own(inv, seeds),
    ensures
        continues(
            inv,
            log,
            withdraw_pool_outcome(inv, holder, source_ata, destination_ata, token, token_program, seeds, log).0,
        ),
{
}

proof fn lemma_developer_withdraw_continues(inv: Invocation, log: Seq<EffectView>)
    ensures
        continues(inv, log, developer_withdraw_outcome(inv, log).0),
{
    if let Ok((game, bump)) = developer_withdraw_check(inv) {
        lemma_signs(inv, game_seeds(game.game_title@), bump, 1);
        let seeds = with_bump(game_seeds(game.game_title@), bump);
        lemma_withdraw_pool_continues(inv, 1, 2, 5, PaymentToken::SKR, 8, seeds, log);
        let log1 = withdraw_pool_outcome(inv, 1, 2, 5, PaymentToken::SKR, 8, seeds, log).0;
        lemma_withdraw_pool_continues(inv, 1, 3, 6, PaymentToken::SLICE, 8, seeds, log1);
        let log2 = withdraw_pool_outcome(inv, 1, 3, 6, PaymentToken::SLICE, 8, seeds, log1).0;
        lemma_withdraw_pool_continues(inv, 1, 4, 7, PaymentToken::USDC, 8, seeds, log2);
    }
}

proof fn lemma_withdraw_rewards_continues(inv: Invocation, timestamp: u64, log: Seq<EffectView>)
    ensures
        continues(inv, log, withdraw_rewards_outcome(inv, timestamp, log).0),
{
    if let Ok(seeds) = withdraw_rewards_check(inv, timestamp) {
        let user = user_of(inv.accounts@[2])->Ok_0;
        let derived = user_seeds(user.owner@, user.game@, timestamp);
        lemma_signs(inv, derived, bump_for(derived, inv.accounts@[2].key@)->Ok_0, 2);
        lemma_withdraw_pool_continues(inv, 2, 3, 6, PaymentToken::SKR, 9, seeds, log);
        let log1 = withdraw_pool_outcome(inv, 2, 3, 6, PaymentToken::SKR, 9, seeds, log).0;
        lemma_withdraw_pool_continues(inv, 2, 4, 7, PaymentToken::SLICE, 9, seeds, log1);
        let log2 = withdraw_pool_outcome(inv, 2, 4, 7, PaymentToken::SLICE, 9, seeds, log1).0;
        lemma_withdraw_pool_continues(inv, 2, 5, 8, PaymentToken::USDC, 9, seeds, log2);
    }
}

proof fn lemma_reward_pool_continues(
    inv: Invocation,
    source_ata: usize,
    dest_ata: usize,
    oracle: OraclePriceState,
    token: PaymentToken,
    seeds: Seq<Seq<u8>>,
    bps: u16,
    log: Seq<EffectView>,
)
    requires
        12 <= inv.accounts@.len(),
        source_ata < 12,
        dest_ata < 12,
        signs_for_own(inv, seeds),
    ensures
        continues(
            inv,
            log,
            reward_from_protocol_pool_outcome(inv, source_ata, dest_ata, oracle, token, seeds, bps, log).0,
        ),
{
}

proof fn lemma_reward_user_continues(inv: Invocation, bps: u16, log: Seq<EffectView>)
    ensures
        continues(inv, log, reward_user_account_outcome(inv, bps, log).0),
{
    if let Ok((game, bump, user, oracle)) = reward_user_check(inv, bps) {
        lemma_signs(inv, game_protocol_seeds(game.game_title@), bump, 2);
        let seeds = with_bump(game_protocol_seeds(game.game_title@), bump);
        let treasury = inv.accounts@[2];
        law_share_within_amount(surplus(treasury.lamports, treasury.rent_floor), bps);
        lemma_reward_pool_continues(inv, 6, 7, oracle, PaymentToken::USDC, seeds, bps, log);
        let log1 = reward_from_protocol_pool_outcome(inv, 6, 7, oracle, PaymentToken::USDC, seeds, bps, log).0;
        lemma_reward_pool_continues(inv, 8, 9, oracle, PaymentToken::SKR, seeds, bps, log1);
        let log2 = reward_from_protocol_pool_outcome(inv, 8, 9, oracle, PaymentToken::SKR, seeds, bps, log1).0;
        lemma_reward_pool_continues(inv, 10, 11, oracle, PaymentToken::SLICE, seeds, bps, log2);
        let log3 = reward_from_protocol_pool_outcome(
            inv,
            10,
            11,
            oracle,
            PaymentToken::SLICE,
            seeds,
            bps,
            log2,
        ).0;
        assert(continues(inv, log3, reward_native_sol_outcome(inv, oracle, bps, log3).0));
    }
}

proof fn lemma_create_ranked_continues(
    inv: Invocation,
    ranked_game_id: u64,
    entry_fee: u64,
    log: Seq<EffectView>,
)
    ensures
        continues(inv, log, create_ranked_game_outcome(inv, ranked_game_id, entry_fee, log).0),
{
    if let Ok(bump) = create_ranked_game_check(inv, ranked_game_id) {
        lemma_signs(inv, ranked_game_seeds(ranked_game_id), bump, 1);
    }
}

proof fn lemma_pay_spl_pool_continues(
    inv: Invocation,
    at: PoolAccounts,
    oracle: OraclePriceState,
    token: PaymentToken,
    ranked_game_id: u64,
    bump: u8,
    bps: u16,
    log: Seq<EffectView>,
)
    requires
        18 <= inv.accounts@.len(),
        at.mint < 18,
        at.escrow_ata < 18,
        at.winner_ata < 18,
        signs_for_own(inv, with_bump(ranked_game_seeds(ranked_game_id), bump)),
    ensures
        continues(inv, log, pay_spl_pool_outcome(inv, at, oracle, token, ranked_game_id, bump, bps, log).0),
{
}

proof fn lemma_reward_winner_continues(inv: Invocation, ranked_game_id: u64, bps: u16, log: Seq<EffectView>)
    requires
        rent_agrees(inv),
    ensures
        continues(inv, log, reward_winner_outcome(inv, ranked_game_id, bps, log).0),
{
    if let Ok((user, oracle, bump)) = reward_winner_check(inv, ranked_game_id, bps) {
        let ranked = inv.accounts@[1];
        lemma_signs(inv, ranked_game_seeds(ranked_game_id), bump, 1);
        RankedGameState::decode(ranked.data@)->0.law_decode_bytes();
        assert(ranked.data@.len() == RankedGameState::LEN);
        if let Ok(rent) = inv.rent {
            assert(inv.accounts@[1].rent_floor == rent.ranked_game);
            law_share_within_amount(surplus(ranked.lamports, rent.ranked_game), bps);
        }
        let log0 = pay_sol_pool_outcome(inv, oracle, bps, log).0;
        assert(continues(inv, log, log0));
        lemma_pay_spl_pool_continues(
            inv,
            usdc_pool(),
            oracle,
            PaymentToken::USDC,
            ranked_game_id,
            bump,
            bps,
            log0,
        );
        let log1 = pay_spl_pool_outcome(
            inv,
            usdc_pool(),
            oracle,
            PaymentToken::USDC,
            ranked_game_id,
            bump,
            bps,
            log0,
        ).0;
        lemma_pay_spl_pool_continues(
            inv,
            skr_pool(),
            oracle,
            PaymentToken::SKR,
            ranked_game_id,
            bump,
            bps,
            log1,
        );
        let log2 = pay_spl_pool_outcome(
            inv,
            skr_pool(),
            oracle,
            PaymentToken::SKR,
            ranked_game_id,
            bump,
            bps,
            log1,
        ).0;
        lemma_pay_spl_pool_continues(
            inv,
            slice_pool(),
            oracle,
            PaymentToken::SLICE,
            ranked_game_id,
            bump,
            bps,
            log2,
        );
    }
}

proof fn lemma_close_escrow_continues(
    inv: Invocation,
    mint: usize,
    escrow_ata: usize,
    authority_ata: usize,
    closed: Seq<usize>,
    seeds: Seq<Seq<u8>>,
    log: Seq<EffectView>,
)
    requires
        12 <= inv.accounts@.len(),
        mint < 12,
        escrow_ata < 12,
        authority_ata < 12,
        signs_for_own(inv, seeds),
    ensures
        continues(inv, log, close_escrow_ata_outcome(inv, mint, escrow_ata, authority_ata, closed, seeds, log).0),
{
}

proof fn lemma_close_continues(inv: Invocation, ranked_game_id: u64, log: Seq<EffectView>)
    ensures
        continues(inv, log, close_ranked_game_outcome(inv, ranked_game_id, log).0),
{
    if let Ok(bump) = close_ranked_game_check(inv, ranked_game_id) {
        let seeds = with_bump(ranked_game_seeds(ranked_game_id), bump);
        lemma_signs(inv, ranked_game_seeds(ranked_game_id), bump, 1);
        lemma_close_escrow_continues(inv, 3, 4, 5, seq![], seeds, log);
        let log1 = close_escrow_ata_outcome(inv, 3, 4, 5, seq![], seeds, log).0;
        lemma_close_escrow_continues(inv, 6, 7, 8, seq![4], seeds, log1);
        let log2 = close_escrow_ata_outcome(inv, 6, 7, 8, seq![4], seeds, log1).0;
        lemma_close_escrow_continues(inv, 9, 10, 11, seq![4, 7], seeds, log2);
    }
}

proof fn lemma_create_user_continues(
    inv: Invocation,
    version: u8,
    username: [u8; 32],
    timestamp: u64,
    payment_token: Pubkey,
    log: Seq<EffectView>,
)
    ensures
        continues(
            inv,
            log,
            create_user_account_outcome(inv, version, username, timestamp, payment_token, log).0,
        ),
{
    let a = inv.accounts@;
    if let Ok(game) = create_user_check(inv) {
        lemma_payment_continues(inv, game.game_cost, payment_token, log);
        let seeds = user_seeds(a[0].key@, a[2].key@, timestamp);
        if let Ok(bump) = bump_for(seeds, a[1].key@) {
            lemma_signs(inv, seeds, bump, 1);
        }
    }
}

proof fn lemma_join_continues(
    inv: Invocation,
    ranked_game_id: u64,
    payment_token: Pubkey,
    log: Seq<EffectView>,
)
    ensures
        continues(inv, log, join_ranked_game_outcome(inv, ranked_game_id, payment_token, log).0),
{
    if let Ok((ranked, game, user, token)) = join_check(inv, ranked_game_id, payment_token) {
        lemma_entry_continues(
            inv,
            ranked.entry_fee,
            (BPS_DENOMINATOR - game.game_to_protocol_share_bps) as u16,
            game.game_to_protocol_share_bps,
            token,
            log,
        );
    }
}

/// Whatever the instruction and the accounts, an instruction only adds effects to
/// the list, and only permitted ones: they name accounts of the instruction, the
/// program signs for its own addresses among them and no other, and it moves
/// lamports out of an account only as far as the account keeps its rent. (Closing
/// a ranked game, which drains its account, is an effect of its own.)
pub proof fn law_effects_are_permitted(
    inv: Invocation,
    instruction: IndieGamesInstruction,
    log: Seq<EffectView>,
)
    requires
        rent_agrees(inv),
    ensures
        continues(inv, log, instruction_outcome(inv, instruction, log).0),
{
    match instruction {
        IndieGamesInstruction::InitOracle { .. } => {
            if let Ok(bump) = bump_for(oracle_seeds(), inv.accounts@[1].key@) {
                if inv.accounts@.len() >= 3 {
                    lemma_signs(inv, oracle_seeds(), bump, 1);
                }
            }
        },
        IndieGamesInstruction::UpdateOraclePrices { .. } => {},
        IndieGamesInstruction::CreateGame {
            title,
            dev_fee_bps,
            game_to_protocol_share_bps,
            game_cost,
            game_url,
        } => {
            lemma_create_game_continues(
                inv,
                new_game(
                    NEW_GAME_VERSION,
                    title,
                    inv.accounts@[0].key,
                    dev_fee_bps,
                    game_to_protocol_share_bps,
                    game_cost,
                    game_url,
                ),
                log,
            );
        },
        IndieGamesInstruction::UpdateFeeShare { .. } => {},
        IndieGamesInstruction::UpdateGameCost { .. } => {},
        IndieGamesInstruction::TransferGameOwnership { .. } => {},
        IndieGamesInstruction::UpgradeGameStateVersion => {
            lemma_upgrade_continues(inv, log);
        },
        IndieGamesInstruction::DeveloperWithdraw => {
            lemma_developer_withdraw_continues(inv, log);
        },
        IndieGamesInstruction::RewardUserAccount { percentage_of_the_pool } => {
            lemma_reward_user_continues(inv, percentage_of_the_pool, log);
        },
        IndieGamesInstruction::CreateUserAccount { username, timestamp, payment_token } => {
            lemma_create_user_continues(inv, NEW_USER_VERSION, username, timestamp, payment_token, log);
        },
        IndieGamesInstruction::WithdrawRewards { timestamp } => {
            lemma_withdraw_rewards_continues(inv, timestamp, log);
        },
        IndieGamesInstruction::CreateRankedGame { ranked_game_id, entry_fee_usd_micro } => {
            lemma_create_ranked_continues(inv, ranked_game_id, entry_fee_usd_micro, log);
        },
        IndieGamesInstruction::JoinRankedGame { ranked_game_id, payment_token } => {
            lemma_join_continues(inv, ranked_game_id, payment_token, log);
        },
        IndieGamesInstruction::UpdateRankedGameStatus { .. } => {},
        IndieGamesInstruction::RewardWinner { ranked_game_id, amount_usd_micro } => {
            lemma_reward_winner_continues(inv, ranked_game_id, amount_usd_micro, log);
        },
        IndieGamesInstruction::CloseRankedGame { ranked_game_id } => {
            lemma_close_continues(inv, ranked_game_id, log);
        },
    }
}

/// Whether `after` is `before` with calls to other programs added, and nothing else.
pub open spec fn only_calls(before: Seq<EffectView>, after: Seq<EffectView>) -> bool {
    &&& before.len() <= after.len()
    &&& forall|k: int| 0 <= k < before.len() ==> #[trigger] after[k] == before[k]
    &&& forall|k: int| before.len() <= k < after.len() ==> (#[trigger] after[k]) is Invoke
}

proof fn lemma_game_setup_is_calls(
    inv: Invocation,
    game_title: [u8; 32],
    bump: u8,
    wallet: usize,
    log: Seq<EffectView>,
)
    ensures
        only_calls(log, treasury_outcome(inv, game_title, bump, log).0),
        only_calls(log, ensure_token_accounts_outcome(inv, wallet, log).0),
{
}

/// A game that exists is kept: creating it again only calls other programs, and
/// stores nothing.
pub proof fn law_existing_game_is_kept(inv: Invocation, game: GameAccount, log: Seq<EffectView>)
    requires
        inv.accounts@[1].data@.len() > 0,
    ensures
        only_calls(log, create_game_outcome(inv, game, log).0),
{
    let treasury_bump = bump_for(game_protocol_seeds(game.game_title@), inv.accounts@[5].key@)->Ok_0;
    lemma_game_setup_is_calls(inv, game.game_title, treasury_bump, 1, log);
    let log1 = treasury_outcome(inv, game.game_title, treasury_bump, log).0;
    lemma_game_setup_is_calls(inv, game.game_title, treasury_bump, 1, log1);
}

/// A game pays the protocol no less than the minimum: neither is a new one stored
/// with a smaller share, nor is its share made smaller.
pub proof fn law_minimum_protocol_share(
    inv: Invocation,
    game: GameAccount,
    dev_fee_bps: u16,
    share_bps: u16,
    log: Seq<EffectView>,
)
    ensures
        game.game_to_protocol_share_bps < MIN_GAME_TO_PROTOCOL_SHARE_BPS && inv.accounts@[1].data@.len() == 0 ==> {
            &&& create_game_outcome(inv, game, log).1 is Err
            &&& only_calls(log, create_game_outcome(inv, game, log).0)
        },
        share_bps < MIN_GAME_TO_PROTOCOL_SHARE_BPS ==> refused_outright(
            update_fee_share_outcome(inv, dev_fee_bps, share_bps, log),
            log,
        ),
{
    let treasury_bump = bump_for(game_protocol_seeds(game.game_title@), inv.accounts@[5].key@)->Ok_0;
    lemma_game_setup_is_calls(inv, game.game_title, treasury_bump, 1, log);
}

/// A game that is created is stored, once, as it was asked for.
pub proof fn law_new_game_is_stored(inv: Invocation, game: GameAccount, log: Seq<EffectView>)
    requires
        create_game_outcome(inv, game, log).1 is Ok,
        inv.accounts@[1].data@.len() == 0,
    ensures
        exists|before: Seq<EffectView>|
            only_calls(log, before) && #[trigger] only_calls(
                before.push(EffectView::Store { account: 1, data: game.bytes() }),
                create_game_outcome(inv, game, log).0,
            ),
        GameAccount::decode(game.bytes()) == Some(game),
{
    game.law_decode_bytes();
    let treasury_bump = bump_for(game_protocol_seeds(game.game_title@), inv.accounts@[5].key@)->Ok_0;
    let bump = bump_for(game_seeds(game.game_title@), inv.accounts@[1].key@)->Ok_0;
    lemma_game_setup_is_calls(inv, game.game_title, treasury_bump, 1, log);
    let log1 = treasury_outcome(inv, game.game_title, treasury_bump, log).0;
    let before = open_account_effects(
        inv,
        1,
        inv.rent->Ok_0.game,
        GameAccount::MAX_SIZE as u64,
        with_bump(game_seeds(game.game_title@), bump),
        log1,
    );
    assert(only_calls(log1, before));
    assert(only_calls(log, before));
    let log2 = game_account_outcome(inv, game, bump, log1).0;
    assert(log2 == before.push(EffectView::Store { account: 1, data: game.bytes() }));
    lemma_game_setup_is_calls(inv, game.game_title, treasury_bump, 1, log2);
}

/// Closing a ranked game ends in clearing its data and giving all its lamports to
/// the authority.
pub proof fn law_close_clears_the_account(inv: Invocation, ranked_game_id: u64, log: Seq<EffectView>)
    requires
        close_ranked_game_outcome(inv, ranked_game_id, log).1 is Ok,
    ensures
        ({
            let out = close_ranked_game_outcome(inv, ranked_game_id, log).0;
            &&& out.len() >= log.len() + 2
            &&& out[out.len() - 2] == (EffectView::ZeroData { account: 1 })
            &&& out[out.len() - 1] == (EffectView::DrainLamports { from: 1, to: 0 })
        }),
{
    lemma_close_continues(inv, ranked_game_id, log);
}

// ---------------------------------------------------------------------------
// Prices
// ---------------------------------------------------------------------------

/// Whether `after` is `before` with effects added none of which changes the data
/// of the oracle's account.
pub open spec fn spares_oracle(inv: Invocation, before: Seq<EffectView>, after: Seq<EffectView>) -> bool {
    &&& before.len() <= after.len()
    &&& forall|k: int| 0 <= k < before.len() ==> #[trigger] after[k] == before[k]
    &&& forall|k: int|
        before.len() <= k < after.len() ==> match #[trigger] after[k] {
            EffectView::Store { account, .. } => oracle_of(inv.accounts@[account as int]) is Err,
            EffectView::Resize { .. } => false,
            EffectView::ZeroData { .. } => false,
            _ => true,
        }
}

/// An account whose data has another length than the oracle's is not the oracle's.
proof fn lemma_not_oracle(account: Account)
    requires
        account.data@.len() != OraclePriceState::LEN,
    ensures
        oracle_of(account) is Err,
{
    if let Some(state) = OraclePriceState::decode(account.data@) {
        state.law_decode_bytes();
        assert(state.bytes() == account.data@);
    }
}

proof fn lemma_game_is_not_oracle(account: Account)
    requires
        GameAccount::decode_front(account.data@) is Some || GameAccount::decode(account.data@) is Some,
    ensures
        oracle_of(account) is Err,
{
    if let Some(game) = GameAccount::decode(account.data@) {
        game.law_decode_bytes();
        assert(game.bytes() == account.data@);
    } else {
        let game = GameAccount::decode_front(account.data@)->0;
        assert(game.leads(account.data@));
        let tail = choose|tail: Seq<u8>| #[trigger] game.encode(tail) == account.data@;
        game.lemma_encode_len(tail);
    }
    lemma_not_oracle(account);
}

proof fn lemma_charge_is_calls(inv: Invocation, game_cost: u64, payment_token: Pubkey, log: Seq<EffectView>)
    ensures
        only_calls(log, charge_user_outcome(inv, game_cost, payment_token, log).0),
{
}

proof fn lemma_entry_is_calls(
    inv: Invocation,
    entry_fee: u64,
    dev_fee_bps: u16,
    share_bps: u16,
    token: PaymentToken,
    log: Seq<EffectView>,
)
    ensures
        only_calls(
            log,
            process_ranked_entry_payment_outcome(
                inv,
                join_payment_accounts(),
                join_token_accounts(token),
                entry_fee,
                dev_fee_bps,
                share_bps,
                token,
                log,
            ).0,
        ),
{
}

proof fn lemma_create_game_spares(inv: Invocation, game: GameAccount, log: Seq<EffectView>)
    ensures
        spares_oracle(inv, log, create_game_outcome(inv, game, log).0),
{
    let a = inv.accounts@;
    if a[1].data@.len() > 0 {
        law_existing_game_is_kept(inv, game, log);
    } else {
        lemma_not_oracle(a[1]);
        let treasury_bump = bump_for(game_protocol_seeds(game.game_title@), a[5].key@)->Ok_0;
        let bump = bump_for(game_seeds(game.game_title@), a[1].key@)->Ok_0;
        lemma_game_setup_is_calls(inv, game.game_title, treasury_bump, 1, log);
        let log1 = treasury_outcome(inv, game.game_title, treasury_bump, log).0;
        let log2 = game_account_outcome(inv, game, bump, log1).0;
        assert(spares_oracle(inv, log1, log2));
        lemma_game_setup_is_calls(inv, game.game_title, treasury_bump, 1, log2);
    }
}

proof fn lemma_create_user_spares(
    inv: Invocation,
    version: u8,
    username: [u8; 32],
    timestamp: u64,
    payment_token: Pubkey,
    log: Seq<EffectView>,
)
    ensures
        spares_oracle(
            inv,
            log,
            create_user_account_outcome(inv, version, username, timestamp, payment_token, log).0,
        ),
{
    if let Ok(game) = create_user_check(inv) {
        lemma_not_oracle(inv.accounts@[1]);
        lemma_game_is_not_oracle(inv.accounts@[2]);
        lemma_charge_is_calls(inv, game.game_cost, payment_token, log);
    }
}

proof fn lemma_join_spares(inv: Invocation, ranked_game_id: u64, payment_token: Pubkey, log: Seq<EffectView>)
    ensures
        spares_oracle(inv, log, join_ranked_game_outcome(inv, ranked_game_id, payment_token, log).0),
{
    let a = inv.accounts@;
    if let Ok((ranked, game, user, token)) = join_check(inv, ranked_game_id, payment_token) {
        ranked.law_decode_bytes();
        assert(ranked.bytes() == a[1].data@);
        lemma_not_oracle(a[1]);
        user.law_decode_bytes();
        assert(user.bytes() == a[12].data@);
        lemma_not_oracle(a[12]);
        let dev_fee_bps = (BPS_DENOMINATOR - game.game_to_protocol_share_bps) as u16;
        lemma_entry_is_calls(inv, ranked.entry_fee, dev_fee_bps, game.game_to_protocol_share_bps, token, log);
    }
}

proof fn lemma_withdrawals_spare(inv: Invocation, timestamp: u64, log: Seq<EffectView>)
    ensures
        spares_oracle(inv, log, developer_withdraw_outcome(inv, log).0),
        spares_oracle(inv, log, withdraw_rewards_outcome(inv, timestamp, log).0),
{
}

/// Users cannot influence prices: of what anybody but the authority may ask for,
/// nothing changes the data of the oracle's account.
pub proof fn law_users_cannot_change_prices(inv: Invocation, instruction: IndieGamesInstruction, log: Seq<EffectView>)
    requires
        !for_authority(instruction),
    ensures
        spares_oracle(inv, log, instruction_outcome(inv, instruction, log).0),
{
    match instruction {
        IndieGamesInstruction::CreateGame { title, dev_fee_bps, game_to_protocol_share_bps, game_cost, game_url } => {
            lemma_create_game_spares(
                inv,
                new_game(
                    NEW_GAME_VERSION,
                    title,
                    inv.accounts@[0].key,
                    dev_fee_bps,
                    game_to_protocol_share_bps,
                    game_cost,
                    game_url,
                ),
                log,
            );
        },
        IndieGamesInstruction::CreateUserAccount { username, timestamp, payment_token } => {
            lemma_create_user_spares(inv, NEW_USER_VERSION, username, timestamp, payment_token, log);
        },
        IndieGamesInstruction::JoinRankedGame { ranked_game_id, payment_token } => {
            lemma_join_spares(inv, ranked_game_id, payment_token, log);
        },
        IndieGamesInstruction::DeveloperWithdraw => {
            lemma_withdrawals_spare(inv, 0, log);
        },
        IndieGamesInstruction::WithdrawRewards { timestamp } => {
            lemma_withdrawals_spare(inv, timestamp, log);
        },
        _ => {
            if owned_game(inv) is Ok {
                lemma_game_is_not_oracle(inv.accounts@[1]);
            }
        },
    }
}

} // verus!
