//! What the calls to other programs are handed, and who signs for them.

use crate::constants::{PaymentToken, Pubkey, PROGRAM_ID, SYSTEM_PROGRAM_ID, TOKEN_PROGRAM_ID};
use crate::cpi::{
    system_allocate, system_assign, system_create_account, system_transfer, token_account_creation,
    token_close_account, token_transfer, token_transfer_checked,
};
use crate::error::ProgramError;
use crate::helpers::{
    bump_for, game_protocol_seeds, game_seeds, oracle_seeds, ranked_game_seeds, user_of, user_seeds, with_bump,
};
use crate::instruction::IndieGamesInstruction;
use crate::laws::deeds::{adds, deeds, group_deeds, Deed};
use crate::laws::effects::seeds_derive;
use crate::processor::game::{
    create_game_outcome, developer_withdraw_check, developer_withdraw_outcome,
    ensure_token_accounts_outcome, game_account_outcome, new_game, open_account_effects,
    reward_from_pools_outcome, reward_from_protocol_pool_outcome, reward_native_sol_outcome,
    reward_user_account_outcome, reward_user_check, treasury_outcome, withdraw_pool_outcome,
};
use crate::processor::instruction_outcome;
use crate::processor::payment::{
    process_ranked_entry_payment_outcome, sol_payment, token_payment_outcome, TokenSource,
};
use crate::processor::ranked_game::{
    close_escrow_ata_outcome, close_ranked_game_check, close_ranked_game_outcome,
    create_escrow_ata_outcome, create_ranked_game_check, create_ranked_game_outcome, join_check,
    join_payment_accounts, join_ranked_game_outcome, join_token_accounts, pay_pools_outcome,
    pay_sol_pool_outcome, pay_spl_pool_outcome, reward_winner_check, reward_winner_outcome, skr_pool,
    slice_pool, usdc_pool, PoolAccounts,
};
use crate::processor::user_account::{
    charge_user_outcome, create_user_account_outcome, create_user_check, withdraw_rewards_check,
    withdraw_rewards_outcome,
};
use crate::processor::{NEW_GAME_VERSION, NEW_USER_VERSION};
use crate::runtime::{signed_call, store_outcome, EffectView, InstructionView, Invocation};
use crate::state::game::GameAccount;
use crate::state::oracle::OraclePriceState;
use vstd::prelude::*;

verus! {

/// Whether the account with this address is among those at `positions`.
pub open spec fn handed(inv: Invocation, positions: Seq<usize>, key: Seq<u8>) -> bool {
    exists|k: int| 0 <= k < positions.len() && inv.accounts@[#[trigger] positions[k] as int].key@ == key
}

/// Whether the account with this address signs: it signs the instruction, or the program
/// signs for it with `seeds`.
pub open spec fn signs(inv: Invocation, seeds: Seq<Seq<u8>>, key: Seq<u8>) -> bool {
    ||| exists|n: int|
        0 <= n < inv.accounts@.len() && #[trigger] inv.accounts@[n].key@ == key && inv.accounts@[n].is_signer
    ||| seeds_derive(seeds, key)
}

/// Whether an address is that of the System program or of the SPL Token program.
pub open spec fn is_program(key: Seq<u8>) -> bool {
    key == SYSTEM_PROGRAM_ID@ || key == TOKEN_PROGRAM_ID@
}

/// Whether a call is handed every account that it names, but for those two programs, and
/// has every signature that it asks for.
#[verifier::opaque]
pub open spec fn can_be_made(
    inv: Invocation,
    call: InstructionView,
    positions: Seq<usize>,
    seeds: Seq<Seq<u8>>,
) -> bool {
    forall|j: int|
        0 <= j < call.accounts.len() ==> {
            &&& !is_program((#[trigger] call.accounts[j]).pubkey) ==> handed(
                inv,
                positions,
                call.accounts[j].pubkey,
            )
            &&& call.accounts[j].is_signer ==> signs(inv, seeds, call.accounts[j].pubkey)
        }
}

/// Whether an effect, if it is a call, can be made.
pub open spec fn sound(inv: Invocation, effect: EffectView) -> bool {
    match effect {
        EffectView::Invoke { instruction, accounts, signer_seeds } => can_be_made(
            inv,
            instruction,
            accounts,
            signer_seeds,
        ),
        _ => true,
    }
}

/// Whether `after` is `before` with effects added of which every call can be made.
pub open spec fn adds_sound(inv: Invocation, before: Seq<EffectView>, after: Seq<EffectView>) -> bool {
    &&& before.len() <= after.len()
    &&& forall|k: int| 0 <= k < before.len() ==> #[trigger] after[k] == before[k]
    &&& forall|k: int| before.len() <= k < after.len() ==> sound(inv, #[trigger] after[k])
}

// ---------------------------------------------------------------------------
// The kinds of calls
// ---------------------------------------------------------------------------

pub broadcast proof fn lemma_transfer_is_sound(
    inv: Invocation,
    source: Seq<u8>,
    destination: Seq<u8>,
    authority: Seq<u8>,
    amount: u64,
    positions: Seq<usize>,
    seeds: Seq<Seq<u8>>,
)
    requires
        positions.len() >= 3,
        inv.accounts@[positions[0] as int].key@ == source,
        inv.accounts@[positions[1] as int].key@ == destination,
        inv.accounts@[positions[2] as int].key@ == authority,
        signs(inv, seeds, authority),
    ensures
        #[trigger] can_be_made(
            inv,
            token_transfer(source, destination, authority, amount),
            positions,
            seeds,
        ),
{
    reveal(can_be_made);
}

pub broadcast proof fn lemma_transfer_checked_is_sound(
    inv: Invocation,
    source: Seq<u8>,
    mint: Seq<u8>,
    destination: Seq<u8>,
    authority: Seq<u8>,
    amount: u64,
    decimals: u8,
    positions: Seq<usize>,
    seeds: Seq<Seq<u8>>,
)
    requires
        positions.len() >= 4,
        inv.accounts@[positions[0] as int].key@ == source,
        inv.accounts@[positions[2] as int].key@ == destination,
        inv.accounts@[positions[1] as int].key@ == mint,
        inv.accounts@[positions[3] as int].key@ == authority,
        signs(inv, seeds, authority),
    ensures
        #[trigger] can_be_made(
            inv,
            token_transfer_checked(source, mint, destination, authority, amount, decimals),
            positions,
            seeds,
        ),
{
    reveal(can_be_made);
}

pub broadcast proof fn lemma_close_is_sound(
    inv: Invocation,
    account: Seq<u8>,
    rent_to: Seq<u8>,
    authority: Seq<u8>,
    positions: Seq<usize>,
    seeds: Seq<Seq<u8>>,
)
    requires
        positions.len() >= 3,
        inv.accounts@[positions[0] as int].key@ == account,
        inv.accounts@[positions[1] as int].key@ == rent_to,
        inv.accounts@[positions[2] as int].key@ == authority,
        signs(inv, seeds, authority),
    ensures
        #[trigger] can_be_made(inv, token_close_account(account, rent_to, authority), positions, seeds),
{
    reveal(can_be_made);
}

pub broadcast proof fn lemma_creation_is_sound(
    inv: Invocation,
    payer: Seq<u8>,
    address: Seq<u8>,
    wallet: Seq<u8>,
    mint: Seq<u8>,
    token_program: Seq<u8>,
    tag: u8,
    positions: Seq<usize>,
    seeds: Seq<Seq<u8>>,
)
    requires
        positions.len() >= 6,
        inv.accounts@[positions[0] as int].key@ == payer,
        inv.accounts@[positions[1] as int].key@ == address,
        inv.accounts@[positions[2] as int].key@ == wallet,
        inv.accounts@[positions[3] as int].key@ == mint,
        token_program == TOKEN_PROGRAM_ID@ || inv.accounts@[positions[5] as int].key@ == token_program,
        signs(inv, seeds, payer),
    ensures
        #[trigger] can_be_made(
            inv,
            token_account_creation(payer, address, wallet, mint, token_program, tag),
            positions,
            seeds,
        ),
{
    reveal(can_be_made);
}

pub broadcast proof fn lemma_lamports_are_sound(
    inv: Invocation,
    from: Seq<u8>,
    to: Seq<u8>,
    lamports: u64,
    positions: Seq<usize>,
    seeds: Seq<Seq<u8>>,
)
    requires
        positions.len() >= 2,
        inv.accounts@[positions[0] as int].key@ == from,
        inv.accounts@[positions[1] as int].key@ == to,
        signs(inv, seeds, from),
    ensures
        #[trigger] can_be_made(inv, system_transfer(from, to, lamports), positions, seeds),
{
    reveal(can_be_made);
}

pub broadcast proof fn lemma_new_account_is_sound(
    inv: Invocation,
    payer: Seq<u8>,
    key: Seq<u8>,
    lamports: u64,
    space: u64,
    owner: Seq<u8>,
    positions: Seq<usize>,
    seeds: Seq<Seq<u8>>,
)
    requires
        positions.len() >= 2,
        inv.accounts@[positions[0] as int].key@ == payer,
        inv.accounts@[positions[1] as int].key@ == key,
        signs(inv, seeds, payer),
        signs(inv, seeds, key),
    ensures
        #[trigger] can_be_made(
            inv,
            system_create_account(payer, key, lamports, space, owner),
            positions,
            seeds,
        ),
{
    reveal(can_be_made);
}

pub broadcast proof fn lemma_allocate_is_sound(
    inv: Invocation,
    key: Seq<u8>,
    space: u64,
    positions: Seq<usize>,
    seeds: Seq<Seq<u8>>,
)
    requires
        positions.len() >= 1,
        inv.accounts@[positions[0] as int].key@ == key,
        signs(inv, seeds, key),
    ensures
        #[trigger] can_be_made(inv, system_allocate(key, space), positions, seeds),
{
    reveal(can_be_made);
}

pub broadcast proof fn lemma_assign_is_sound(
    inv: Invocation,
    key: Seq<u8>,
    owner: Seq<u8>,
    positions: Seq<usize>,
    seeds: Seq<Seq<u8>>,
)
    requires
        positions.len() >= 1,
        inv.accounts@[positions[0] as int].key@ == key,
        signs(inv, seeds, key),
    ensures
        #[trigger] can_be_made(inv, system_assign(key, owner), positions, seeds),
{
    reveal(can_be_made);
}

pub broadcast group group_sound {
    lemma_transfer_is_sound,
    lemma_transfer_checked_is_sound,
    lemma_close_is_sound,
    lemma_creation_is_sound,
    lemma_lamports_are_sound,
    lemma_new_account_is_sound,
    lemma_allocate_is_sound,
    lemma_assign_is_sound,
}

proof fn lemma_signs(inv: Invocation, seeds: Seq<Seq<u8>>, bump: u8, key: Seq<u8>)
    requires
        bump_for(seeds, key) == Ok::<u8, ProgramError>(bump),
    ensures
        signs(inv, with_bump(seeds, bump), key),
{
    assert(with_bump(seeds, bump).drop_last() =~= seeds);
    assert(seeds_derive(with_bump(seeds, bump), key));
}

proof fn lemma_signer(inv: Invocation, n: int, seeds: Seq<Seq<u8>>)
    requires
        0 <= n < inv.accounts@.len(),
        inv.accounts@[n].is_signer,
    ensures
        signs(inv, seeds, inv.accounts@[n].key@),
{
    assert(inv.accounts@[n].key@ == inv.accounts@[n].key@);
}

/// A single payment of lamports moves them from the one account to the other, and a
/// single payment of tokens moves them between the named token accounts on the payer's
/// word. Each can be made where the payer signs; the second is refused for any program
/// but the SPL Token program.
pub proof fn law_single_payments(
    inv: Invocation,
    from: usize,
    to: usize,
    system_program: usize,
    source: TokenSource,
    amount: u64,
    log: Seq<EffectView>,
)
    requires
        from < inv.accounts@.len(),
        to < inv.accounts@.len(),
        source.within(inv),
    ensures
        ({
            let a = inv.accounts@;
            let paid = log.push(sol_payment(inv, from, to, system_program, amount));
            &&& adds(
                log,
                paid,
                seq![Deed::Lamports {
                    from: a[from as int].key@,
                    to: a[to as int].key@,
                    lamports: amount as nat,
                }],
            )
            &&& a[from as int].is_signer ==> adds_sound(inv, log, paid)
        }),
        ({
            let a = inv.accounts@;
            let out = token_payment_outcome(inv, source, to, amount, log);
            if a[source.token_program as int].key@ == TOKEN_PROGRAM_ID@ {
                &&& out.1 is Ok
                &&& adds(
                    log,
                    out.0,
                    seq![Deed::Tokens {
                        source: a[source.payer_ata as int].key@,
                        destination: a[to as int].key@,
                        authority: a[source.payer as int].key@,
                        amount: amount as nat,
                        checked: Some((a[source.mint as int].key@, source.decimals)),
                    }],
                )
                &&& a[source.payer as int].is_signer ==> adds_sound(inv, log, out.0)
            } else {
                out == (log, Err::<(), ProgramError>(ProgramError::IncorrectProgramId))
            }
        }),
{
    broadcast use {group_deeds, group_sound};
    let paid = log.push(sol_payment(inv, from, to, system_program, amount));
    assert(deeds(paid) =~= deeds(log) + seq![deeds(paid).last()]);
    let out = token_payment_outcome(inv, source, to, amount, log);
    if out.1 is Ok {
        assert(deeds(out.0) =~= deeds(log) + seq![deeds(out.0).last()]);
    }
    if inv.accounts@[from as int].is_signer {
        lemma_signer(inv, from as int, Seq::empty());
    }
    if inv.accounts@[source.payer as int].is_signer {
        lemma_signer(inv, source.payer as int, Seq::empty());
    }
}

/// Bytes are written where they fit, and refused where they do not.
pub proof fn law_writes_fit(account: usize, room: nat, bytes: Seq<u8>, log: Seq<EffectView>)
    ensures
        ({
            let out = store_outcome(account, room, bytes, log);
            if bytes.len() <= room {
                out.1 is Ok && adds(log, out.0, seq![Deed::Write { at: account, data: bytes }])
            } else {
                out == (log, Err::<(), ProgramError>(ProgramError::BorshIoError))
            }
        }),
{
    broadcast use group_deeds;
    let after = log.push(EffectView::Store { account, data: bytes });
    assert(deeds(after) =~= deeds(log) + seq![Deed::Write { at: account, data: bytes }]);
}

// ---------------------------------------------------------------------------
// The instructions
// ---------------------------------------------------------------------------

proof fn lemma_charge_is_sound(inv: Invocation, game_cost: u64, payment_token: Pubkey, log: Seq<EffectView>)
    requires
        4 <= inv.accounts@.len(),
        inv.accounts@[0].is_signer,
    ensures
        adds_sound(inv, log, charge_user_outcome(inv, game_cost, payment_token, log).0),
{
    broadcast use group_sound;
    lemma_signer(inv, 0, Seq::empty());
}

proof fn lemma_create_user_is_sound(
    inv: Invocation,
    version: u8,
    username: [u8; 32],
    timestamp: u64,
    payment_token: Pubkey,
    log: Seq<EffectView>,
)
    ensures
        adds_sound(
            inv,
            log,
            create_user_account_outcome(inv, version, username, timestamp, payment_token, log).0,
        ),
{
    broadcast use group_sound;
    let a = inv.accounts@;
    if let Ok(game) = create_user_check(inv) {
        lemma_charge_is_sound(inv, game.game_cost, payment_token, log);
        let seeds = user_seeds(a[0].key@, a[2].key@, timestamp);
        if let Ok(bump) = bump_for(seeds, a[1].key@) {
            lemma_signs(inv, seeds, bump, a[1].key@);
            lemma_signer(inv, 0, with_bump(seeds, bump));
        }
    }
}

proof fn lemma_entry_is_sound(
    inv: Invocation,
    entry_fee: u64,
    dev_fee_bps: u16,
    share_bps: u16,
    token: PaymentToken,
    log: Seq<EffectView>,
)
    requires
        13 <= inv.accounts@.len(),
        inv.accounts@[0].is_signer,
    ensures
        adds_sound(
            inv,
            log,
            process_ranked_entry_payment_outcome(
                inv,
                join_payment_accounts(),
                join_token_accounts(token),
                entry_fee,
                dev_fee_bps,
                share_bps,
                token,
                log,
            ).0,
        ),
{
    broadcast use group_sound;
    lemma_signer(inv, 0, Seq::empty());
}

proof fn lemma_join_is_sound(inv: Invocation, ranked_game_id: u64, payment_token: Pubkey, log: Seq<EffectView>)
    ensures
        adds_sound(inv, log, join_ranked_game_outcome(inv, ranked_game_id, payment_token, log).0),
{
    if let Ok((ranked, game, user, token)) = join_check(inv, ranked_game_id, payment_token) {
        lemma_entry_is_sound(
            inv,
            ranked.entry_fee,
            (10_000 - game.game_to_protocol_share_bps) as u16,
            game.game_to_protocol_share_bps,
            token,
            log,
        );
    }
}

proof fn lemma_withdrawal_is_sound(
    inv: Invocation,
    holder: usize,
    source: usize,
    destination: usize,
    token: PaymentToken,
    token_program: usize,
    seeds: Seq<Seq<u8>>,
    log: Seq<EffectView>,
)
    requires
        signs(inv, seeds, inv.accounts@[holder as int].key@),
    ensures
        adds_sound(
            inv,
            log,
            withdraw_pool_outcome(inv, holder, source, destination, token, token_program, seeds, log).0,
        ),
{
    broadcast use group_sound;
}

proof fn lemma_developer_withdraw_is_sound(inv: Invocation, log: Seq<EffectView>)
    ensures
        adds_sound(inv, log, developer_withdraw_outcome(inv, log).0),
{
    if let Ok((game, bump)) = developer_withdraw_check(inv) {
        let seeds = with_bump(game_seeds(game.game_title@), bump);
        lemma_signs(inv, game_seeds(game.game_title@), bump, inv.accounts@[1].key@);
        lemma_withdrawal_is_sound(inv, 1, 2, 5, PaymentToken::SKR, 8, seeds, log);
        let log1 = withdraw_pool_outcome(inv, 1, 2, 5, PaymentToken::SKR, 8, seeds, log).0;
        lemma_withdrawal_is_sound(inv, 1, 3, 6, PaymentToken::SLICE, 8, seeds, log1);
        let log2 = withdraw_pool_outcome(inv, 1, 3, 6, PaymentToken::SLICE, 8, seeds, log1).0;
        lemma_withdrawal_is_sound(inv, 1, 4, 7, PaymentToken::USDC, 8, seeds, log2);
    }
}

proof fn lemma_withdraw_rewards_is_sound(inv: Invocation, timestamp: u64, log: Seq<EffectView>)
    ensures
        adds_sound(inv, log, withdraw_rewards_outcome(inv, timestamp, log).0),
{
    if let Ok(seeds) = withdraw_rewards_check(inv, timestamp) {
        let key = inv.accounts@[2].key@;
        let user = user_of(inv.accounts@[2])->Ok_0;
        let derived = user_seeds(user.owner@, user.game@, timestamp);
        lemma_signs(inv, derived, bump_for(derived, key)->Ok_0, key);
        lemma_withdrawal_is_sound(inv, 2, 3, 6, PaymentToken::SKR, 9, seeds, log);
        let log1 = withdraw_pool_outcome(inv, 2, 3, 6, PaymentToken::SKR, 9, seeds, log).0;
        lemma_withdrawal_is_sound(inv, 2, 4, 7, PaymentToken::SLICE, 9, seeds, log1);
        let log2 = withdraw_pool_outcome(inv, 2, 4, 7, PaymentToken::SLICE, 9, seeds, log1).0;
        lemma_withdrawal_is_sound(inv, 2, 5, 8, PaymentToken::USDC, 9, seeds, log2);
    }
}

proof fn lemma_gift_is_sound(
    inv: Invocation,
    source: usize,
    destination: usize,
    oracle: OraclePriceState,
    token: PaymentToken,
    seeds: Seq<Seq<u8>>,
    bps: u16,
    log: Seq<EffectView>,
)
    requires
        signs(inv, seeds, inv.accounts@[2].key@),
    ensures
        adds_sound(
            inv,
            log,
            reward_from_protocol_pool_outcome(inv, source, destination, oracle, token, seeds, bps, log).0,
        ),
{
    broadcast use group_sound;
}

proof fn lemma_reward_user_is_sound(inv: Invocation, bps: u16, log: Seq<EffectView>)
    ensures
        adds_sound(inv, log, reward_user_account_outcome(inv, bps, log).0),
{
    if let Ok((game, bump, user, oracle)) = reward_user_check(inv, bps) {
        let seeds = with_bump(game_protocol_seeds(game.game_title@), bump);
        lemma_signs(inv, game_protocol_seeds(game.game_title@), bump, inv.accounts@[2].key@);
        let (usdc, skr, slice) = (PaymentToken::USDC, PaymentToken::SKR, PaymentToken::SLICE);
        lemma_gift_is_sound(inv, 6, 7, oracle, usdc, seeds, bps, log);
        let log1 = reward_from_protocol_pool_outcome(inv, 6, 7, oracle, usdc, seeds, bps, log).0;
        lemma_gift_is_sound(inv, 8, 9, oracle, skr, seeds, bps, log1);
        let log2 = reward_from_protocol_pool_outcome(inv, 8, 9, oracle, skr, seeds, bps, log1).0;
        lemma_gift_is_sound(inv, 10, 11, oracle, slice, seeds, bps, log2);
        let log3 = reward_from_protocol_pool_outcome(inv, 10, 11, oracle, slice, seeds, bps, log2).0;
        assert(adds_sound(inv, log3, reward_native_sol_outcome(inv, oracle, bps, log3).0));
        assert(adds_sound(inv, log, reward_from_pools_outcome(inv, oracle, seeds, bps, log).0));
    }
}

proof fn lemma_win_is_sound(
    inv: Invocation,
    at: PoolAccounts,
    oracle: OraclePriceState,
    token: PaymentToken,
    ranked_game_id: u64,
    bump: u8,
    bps: u16,
    log: Seq<EffectView>,
)
    requires
        inv.accounts@.len() >= 18,
        inv.accounts@[0].is_signer,
        signs(inv, with_bump(ranked_game_seeds(ranked_game_id), bump), inv.accounts@[1].key@),
    ensures
        ({
            let out = pay_spl_pool_outcome(inv, at, oracle, token, ranked_game_id, bump, bps, log);
            out.1 is Ok ==> adds_sound(inv, log, out.0)
        }),
{
    broadcast use group_sound;
    lemma_signer(inv, 0, Seq::empty());
}

#[verifier::rlimit(40)]
#[verifier::spinoff_prover]
proof fn lemma_wins_are_sound(
    inv: Invocation,
    oracle: OraclePriceState,
    ranked_game_id: u64,
    bump: u8,
    bps: u16,
    log: Seq<EffectView>,
)
    requires
        inv.accounts@.len() >= 18,
        inv.accounts@[0].is_signer,
        signs(inv, with_bump(ranked_game_seeds(ranked_game_id), bump), inv.accounts@[1].key@),
    ensures
        ({
            let out = pay_pools_outcome(inv, oracle, ranked_game_id, bump, bps, log);
            out.1 is Ok ==> adds_sound(inv, log, out.0)
        }),
{
    let (usdc, skr, slice) = (PaymentToken::USDC, PaymentToken::SKR, PaymentToken::SLICE);
    let log0 = pay_sol_pool_outcome(inv, oracle, bps, log).0;
    assert(adds_sound(inv, log, log0));
    lemma_win_is_sound(inv, usdc_pool(), oracle, usdc, ranked_game_id, bump, bps, log0);
    let log1 = pay_spl_pool_outcome(inv, usdc_pool(), oracle, usdc, ranked_game_id, bump, bps, log0).0;
    lemma_win_is_sound(inv, skr_pool(), oracle, skr, ranked_game_id, bump, bps, log1);
    let log2 = pay_spl_pool_outcome(inv, skr_pool(), oracle, skr, ranked_game_id, bump, bps, log1).0;
    lemma_win_is_sound(inv, slice_pool(), oracle, slice, ranked_game_id, bump, bps, log2);
}

proof fn lemma_reward_winner_is_sound(inv: Invocation, ranked_game_id: u64, bps: u16, log: Seq<EffectView>)
    ensures
        ({
            let out = reward_winner_outcome(inv, ranked_game_id, bps, log);
            out.1 is Ok ==> adds_sound(inv, log, out.0)
        }),
{
    if let Ok((user, oracle, bump)) = reward_winner_check(inv, ranked_game_id, bps) {
        lemma_signs(inv, ranked_game_seeds(ranked_game_id), bump, inv.accounts@[1].key@);
        lemma_wins_are_sound(inv, oracle, ranked_game_id, bump, bps, log);
    }
}

proof fn lemma_closing_is_sound(
    inv: Invocation,
    mint: usize,
    escrow: usize,
    authority_ata: usize,
    closed: Seq<usize>,
    seeds: Seq<Seq<u8>>,
    log: Seq<EffectView>,
)
    requires
        signs(inv, seeds, inv.accounts@[1].key@),
    ensures
        adds_sound(
            inv,
            log,
            close_escrow_ata_outcome(inv, mint, escrow, authority_ata, closed, seeds, log).0,
        ),
{
    broadcast use group_sound;
}

proof fn lemma_close_ranked_is_sound(inv: Invocation, ranked_game_id: u64, log: Seq<EffectView>)
    ensures
        adds_sound(inv, log, close_ranked_game_outcome(inv, ranked_game_id, log).0),
{
    if let Ok(bump) = close_ranked_game_check(inv, ranked_game_id) {
        let seeds = with_bump(ranked_game_seeds(ranked_game_id), bump);
        lemma_signs(inv, ranked_game_seeds(ranked_game_id), bump, inv.accounts@[1].key@);
        lemma_closing_is_sound(inv, 3, 4, 5, seq![], seeds, log);
        let log1 = close_escrow_ata_outcome(inv, 3, 4, 5, seq![], seeds, log).0;
        lemma_closing_is_sound(inv, 6, 7, 8, seq![4], seeds, log1);
        let log2 = close_escrow_ata_outcome(inv, 6, 7, 8, seq![4], seeds, log1).0;
        lemma_closing_is_sound(inv, 9, 10, 11, seq![4, 7], seeds, log2);
    }
}

proof fn lemma_making_is_sound(
    inv: Invocation,
    mint: usize,
    escrow: usize,
    made: Seq<usize>,
    log: Seq<EffectView>,
)
    requires
        inv.accounts@.len() >= 13,
        inv.accounts@[0].is_signer,
        inv.accounts@[4].key@ == TOKEN_PROGRAM_ID@,
    ensures
        adds_sound(inv, log, create_escrow_ata_outcome(inv, mint, escrow, made, log).0),
{
    broadcast use group_sound;
    lemma_signer(inv, 0, Seq::empty());
}

#[verifier::rlimit(40)]
proof fn lemma_create_ranked_is_sound(
    inv: Invocation,
    ranked_game_id: u64,
    entry_fee: u64,
    log: Seq<EffectView>,
)
    requires
        inv.accounts@[4].key@ == TOKEN_PROGRAM_ID@,
    ensures
        adds_sound(inv, log, create_ranked_game_outcome(inv, ranked_game_id, entry_fee, log).0),
{
    broadcast use group_sound;
    let a = inv.accounts@;
    let seeds = ranked_game_seeds(ranked_game_id);
    if let Ok(bump) = create_ranked_game_check(inv, ranked_game_id) {
        if let Ok(rent) = inv.rent {
            lemma_signs(inv, seeds, bump, a[1].key@);
            lemma_signer(inv, 0, with_bump(seeds, bump));
            let log0 = log.push(
                signed_call(
                    system_create_account(a[0].key@, a[1].key@, rent.ranked_game, 62, PROGRAM_ID@),
                    seq![0, 1, 3],
                    with_bump(seeds, bump),
                ),
            );
            assert(adds_sound(inv, log, log0));
            lemma_making_is_sound(inv, 7, 8, seq![1], log0);
            let log1 = create_escrow_ata_outcome(inv, 7, 8, seq![1], log0).0;
            lemma_making_is_sound(inv, 9, 10, seq![1, 8], log1);
            let log2 = create_escrow_ata_outcome(inv, 9, 10, seq![1, 8], log1).0;
            lemma_making_is_sound(inv, 11, 12, seq![1, 8, 10], log2);
        }
    }
}

proof fn lemma_opening_is_sound(
    inv: Invocation,
    account: usize,
    needed: u64,
    space: u64,
    seeds: Seq<Seq<u8>>,
    log: Seq<EffectView>,
)
    requires
        16 <= inv.accounts@.len(),
        inv.accounts@[0].is_signer,
        signs(inv, seeds, inv.accounts@[account as int].key@),
    ensures
        adds_sound(inv, log, open_account_effects(inv, account, needed, space, seeds, log)),
{
    broadcast use group_sound;
    lemma_signer(inv, 0, Seq::empty());
}

proof fn lemma_pools_are_sound(inv: Invocation, wallet: usize, log: Seq<EffectView>)
    requires
        16 <= inv.accounts@.len(),
        inv.accounts@[0].is_signer,
    ensures
        adds_sound(inv, log, ensure_token_accounts_outcome(inv, wallet, log).0),
{
    broadcast use group_sound;
    lemma_signer(inv, 0, Seq::empty());
}

proof fn lemma_create_game_is_sound(inv: Invocation, game: GameAccount, log: Seq<EffectView>)
    ensures
        adds_sound(inv, log, create_game_outcome(inv, game, log).0),
{
    let a = inv.accounts@;
    let treasury_seeds = game_protocol_seeds(game.game_title@);
    let own_seeds = game_seeds(game.game_title@);
    if 16 <= a.len() && a[0].is_signer && bump_for(treasury_seeds, a[5].key@) is Ok {
        let bump = bump_for(treasury_seeds, a[5].key@)->Ok_0;
        lemma_signs(inv, treasury_seeds, bump, a[5].key@);
        let rent = inv.rent->Ok_0;
        lemma_opening_is_sound(inv, 5, rent.empty, 0, with_bump(treasury_seeds, bump), log);
        let opened = open_account_effects(inv, 5, rent.empty, 0, with_bump(treasury_seeds, bump), log);
        lemma_pools_are_sound(inv, 5, opened);
        let log1 = treasury_outcome(inv, game.game_title, bump, log).0;
        assert(adds_sound(inv, log, log1));
        if let Ok(bump) = bump_for(own_seeds, a[1].key@) {
            lemma_signs(inv, own_seeds, bump, a[1].key@);
            lemma_opening_is_sound(
                inv,
                1,
                rent.game,
                GameAccount::MAX_SIZE as u64,
                with_bump(own_seeds, bump),
                log1,
            );
            let log2 = game_account_outcome(inv, game, bump, log1).0;
            assert(adds_sound(inv, log1, log2));
            lemma_pools_are_sound(inv, 1, log2);
        }
    }
}

proof fn lemma_small_calls_are_sound(inv: Invocation, instruction: IndieGamesInstruction, log: Seq<EffectView>)
    requires
        instruction is InitOracle || instruction is UpgradeGameStateVersion,
    ensures
        adds_sound(inv, log, instruction_outcome(inv, instruction, log).0),
{
    broadcast use group_sound;
    let a = inv.accounts@;
    if a.len() >= 3 && a[0].is_signer {
        lemma_signer(inv, 0, Seq::empty());
        if let Ok(bump) = bump_for(oracle_seeds(), a[1].key@) {
            lemma_signs(inv, oracle_seeds(), bump, a[1].key@);
            lemma_signer(inv, 0, with_bump(oracle_seeds(), bump));
        }
    }
}

/// Whatever succeeds can be carried out: every call is handed the accounts that it
/// names, and each of its signatures is one of the instruction's or the program's own.
/// For the pools of a ranked game that holds with the SPL Token program, which the call
/// that makes them goes by.
pub proof fn law_calls_can_be_made(inv: Invocation, instruction: IndieGamesInstruction, log: Seq<EffectView>)
    requires
        instruction_outcome(inv, instruction, log).1 is Ok,
        instruction is CreateRankedGame ==> inv.accounts@[4].key@ == TOKEN_PROGRAM_ID@,
    ensures
        adds_sound(inv, log, instruction_outcome(inv, instruction, log).0),
{
    match instruction {
        IndieGamesInstruction::InitOracle { .. } => {
            lemma_small_calls_are_sound(inv, instruction, log);
        },
        IndieGamesInstruction::UpgradeGameStateVersion => {
            lemma_small_calls_are_sound(inv, instruction, log);
        },
        IndieGamesInstruction::CreateGame {
            title,
            dev_fee_bps,
            game_to_protocol_share_bps,
            game_cost,
            game_url,
        } => {
            let game = new_game(
                NEW_GAME_VERSION,
                title,
                inv.accounts@[0].key,
                dev_fee_bps,
                game_to_protocol_share_bps,
                game_cost,
                game_url,
            );
            lemma_create_game_is_sound(inv, game, log);
        },
        IndieGamesInstruction::DeveloperWithdraw => {
            lemma_developer_withdraw_is_sound(inv, log);
        },
        IndieGamesInstruction::RewardUserAccount { percentage_of_the_pool } => {
            lemma_reward_user_is_sound(inv, percentage_of_the_pool, log);
        },
        IndieGamesInstruction::CreateUserAccount { username, timestamp, payment_token } => {
            lemma_create_user_is_sound(inv, NEW_USER_VERSION, username, timestamp, payment_token, log);
        },
        IndieGamesInstruction::WithdrawRewards { timestamp } => {
            lemma_withdraw_rewards_is_sound(inv, timestamp, log);
        },
        IndieGamesInstruction::CreateRankedGame { ranked_game_id, entry_fee_usd_micro } => {
            lemma_create_ranked_is_sound(inv, ranked_game_id, entry_fee_usd_micro, log);
        },
        IndieGamesInstruction::JoinRankedGame { ranked_game_id, payment_token } => {
            lemma_join_is_sound(inv, ranked_game_id, payment_token, log);
        },
        IndieGamesInstruction::RewardWinner { ranked_game_id, amount_usd_micro } => {
            lemma_reward_winner_is_sound(inv, ranked_game_id, amount_usd_micro, log);
        },
        IndieGamesInstruction::CloseRankedGame { ranked_game_id } => {
            lemma_close_ranked_is_sound(inv, ranked_game_id, log);
        },
        _ => {},
    }
}

} // verus!
