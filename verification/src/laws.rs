//! Laws of the settlement engine, stated over the transition functions
//! and proved once and for all.

use vstd::prelude::*;

use vstd::arithmetic::div_mod::lemma_fundamental_div_mod;

use crate::engine::LotteryView;
use crate::engine::affiliate_share;
use crate::engine::assign_shares;
use crate::engine::dev_share;
use crate::engine::first_match;
use crate::engine::jackpot_share;
use crate::engine::operator_share;
use crate::engine::rebate_share;
use crate::engine::rebate_transfers;
use crate::engine::spec_winners;
use crate::engine::winner_payout_transfers;
use crate::errors::Error;
use crate::state::AccountId;
use crate::state::Balance;
use crate::state::BetView;
use crate::state::ExecContext;
use crate::state::Transfer;
use crate::state::WinnerView;

verus! {

/// The total amount moved by a list of transfer intents.
pub open spec fn sum_amounts(transfers: Seq<Transfer>) -> int
    decreases transfers.len(),
{
    if transfers.len() == 0 {
        0
    } else {
        sum_amounts(transfers.drop_last()) + transfers.last().amount
    }
}

/// The total of all shares carried by a list of winning records.
pub open spec fn sum_shares(ws: Seq<WinnerView>) -> int
    decreases ws.len(),
{
    if ws.len() == 0 {
        0
    } else {
        sum_shares(ws.drop_last()) + ws.last().bettor_share + ws.last().upline_share
    }
}

/// Summation distributes over concatenation of transfer lists.
proof fn lemma_sum_amounts_add(a: Seq<Transfer>, b: Seq<Transfer>)
    ensures
        sum_amounts(a + b) == sum_amounts(a) + sum_amounts(b),
    decreases b.len(),
{
    if b.len() == 0 {
        assert(a + b =~= a);
    } else {
        assert((a + b).drop_last() =~= a + b.drop_last());
        lemma_sum_amounts_add(a, b.drop_last());
    }
}

/// The payout lines of a winner list move exactly the sum of its shares.
proof fn lemma_payout_sum(
    ws: Seq<WinnerView>,
    bets: Seq<BetView>,
    operator: AccountId,
    asset_id: u128,
)
    ensures
        sum_amounts(winner_payout_transfers(ws, bets, operator, asset_id)) == sum_shares(ws),
    decreases ws.len(),
{
    let full = winner_payout_transfers(ws, bets, operator, asset_id);
    if ws.len() == 0 {
        assert(full =~= Seq::<Transfer>::empty());
    } else {
        let shorter = winner_payout_transfers(ws.drop_last(), bets, operator, asset_id);
        lemma_payout_sum(ws.drop_last(), bets, operator, asset_id);
        assert(full.drop_last().drop_last() =~= shorter);
        assert(full.last().amount == ws.last().upline_share);
        assert(full.drop_last().last().amount == ws.last().bettor_share);
        assert(sum_amounts(full) == sum_amounts(full.drop_last()) + full.last().amount);
        assert(sum_amounts(full.drop_last()) == sum_amounts(shorter)
            + full.drop_last().last().amount);
    }
}

/// Granting every record the same shares totals the count times the pair.
proof fn lemma_assign_shares_sum(ws: Seq<WinnerView>, bettor_share: Balance, upline_share: Balance)
    ensures
        sum_shares(assign_shares(ws, bettor_share, upline_share)) == ws.len() * (bettor_share
            + upline_share),
    decreases ws.len(),
{
    let assigned = assign_shares(ws, bettor_share, upline_share);
    if ws.len() == 0 {
        assert(assigned =~= Seq::<WinnerView>::empty());
    } else {
        lemma_assign_shares_sum(ws.drop_last(), bettor_share, upline_share);
        assert(assigned.drop_last() =~= assign_shares(
            ws.drop_last(),
            bettor_share,
            upline_share,
        ));
        assert(ws.len() * (bettor_share + upline_share) == (ws.len() - 1) * (bettor_share
            + upline_share) + (bettor_share + upline_share)) by (nonlinear_arith);
    }
}

/// The rebate lines move exactly the per-bettor amount times the count.
proof fn lemma_rebate_sum(bets: Seq<BetView>, per: Balance, asset_id: u128)
    ensures
        sum_amounts(rebate_transfers(bets, per, asset_id)) == bets.len() * per,
    decreases bets.len(),
{
    let full = rebate_transfers(bets, per, asset_id);
    if bets.len() == 0 {
        assert(full =~= Seq::<Transfer>::empty());
    } else {
        lemma_rebate_sum(bets.drop_last(), per, asset_id);
        assert(full.drop_last() =~= rebate_transfers(bets.drop_last(), per, asset_id));
        assert(bets.len() * per == (bets.len() - 1) * per + per) by (nonlinear_arith);
    }
}

/// An equal split over a positive count moves at most the pool.
proof fn lemma_equal_split_bounded(pool: int, count: int)
    requires
        0 <= pool,
        0 < count,
    ensures
        count * (pool / count) <= pool,
{
    lemma_fundamental_div_mod(pool, count);
}

/// Law: in a well-formed registry none of whose numbers has reached the
/// saturation cap, no draw number repeats.
pub proof fn lemma_draw_numbers_unique(l: LotteryView)
    requires
        l.wf(),
        forall|i: int| 0 <= i < l.draws.len() ==> (#[trigger] l.draws[i]).draw_number < u32::MAX,
    ensures
        forall|i: int, j: int|
            0 <= i < l.draws.len() && 0 <= j < l.draws.len() && i != j ==> l.draws[i].draw_number
                != l.draws[j].draw_number,
{
    assert forall|i: int, j: int|
        0 <= i < l.draws.len() && 0 <= j < l.draws.len() && i != j implies l.draws[i].draw_number
        != l.draws[j].draw_number by {
        if i < j {
            assert(l.draws[i].draw_number < l.draws[j].draw_number || (l.draws[i].draw_number
                == u32::MAX && l.draws[j].draw_number == u32::MAX));
        } else {
            assert(l.draws[j].draw_number < l.draws[i].draw_number || (l.draws[j].draw_number
                == u32::MAX && l.draws[i].draw_number == u32::MAX));
        }
    }
}

/// Law: a successful add_draw, below the saturation cap, assigns the
/// high-water mark plus one: a number strictly greater than every number
/// in the registry, so the new number is fresh.
pub proof fn lemma_add_draw_number_fresh(
    l: LotteryView,
    ctx: ExecContext,
    opening_blocks: u32,
    processing_blocks: u32,
    closing_blocks: u32,
    bet_amount: Balance,
)
    requires
        l.wf(),
        l.spec_add_draw(ctx, opening_blocks, processing_blocks, closing_blocks, bet_amount).1
            is Ok,
        l.last_draw_number < u32::MAX,
    ensures
        ({
            let post = l.spec_add_draw(
                ctx,
                opening_blocks,
                processing_blocks,
                closing_blocks,
                bet_amount,
            ).0;
            &&& post.draws.len() == l.draws.len() + 1
            &&& post.draws.last().draw_number == l.last_draw_number + 1
            &&& post.last_draw_number == l.last_draw_number + 1
            &&& forall|i: int|
                0 <= i < l.draws.len() ==> (#[trigger] l.draws[i]).draw_number
                    < post.draws.last().draw_number
        }),
{
}

/// Law: a draw number is never reused, even after remove_draw removes
/// the highest-numbered draw: the number a subsequent add_draw assigns
/// is strictly greater than every number the registry held before the
/// removal, the removed one included, because removal does not lower the
/// high-water mark.
pub proof fn lemma_removed_number_not_reused(
    l: LotteryView,
    ctx1: ExecContext,
    ctx2: ExecContext,
    opening_blocks: u32,
    processing_blocks: u32,
    closing_blocks: u32,
    bet_amount: Balance,
)
    requires
        l.wf(),
        l.spec_remove_draw(ctx1).1 is Ok,
        l.spec_remove_draw(ctx1).0.spec_add_draw(
            ctx2,
            opening_blocks,
            processing_blocks,
            closing_blocks,
            bet_amount,
        ).1 is Ok,
        l.last_draw_number < u32::MAX,
    ensures
        ({
            let post = l.spec_remove_draw(ctx1).0.spec_add_draw(
                ctx2,
                opening_blocks,
                processing_blocks,
                closing_blocks,
                bet_amount,
            ).0;
            &&& post.draws.last().draw_number == l.last_draw_number + 1
            &&& forall|i: int|
                0 <= i < l.draws.len() ==> (#[trigger] l.draws[i]).draw_number
                    < post.draws.last().draw_number
        }),
{
    let mid = l.spec_remove_draw(ctx1).0;
    assert(mid.last_draw_number == l.last_draw_number);
}

/// Law: the numbers assigned by two consecutive successful add_draw
/// calls, below the saturation cap, are strictly increasing.
pub proof fn lemma_add_draw_numbers_increase(
    l: LotteryView,
    ctx1: ExecContext,
    opening_blocks1: u32,
    processing_blocks1: u32,
    closing_blocks1: u32,
    bet_amount1: Balance,
    ctx2: ExecContext,
    opening_blocks2: u32,
    processing_blocks2: u32,
    closing_blocks2: u32,
    bet_amount2: Balance,
)
    requires
        l.wf(),
        l.spec_add_draw(ctx1, opening_blocks1, processing_blocks1, closing_blocks1, bet_amount1).1
            is Ok,
        l.spec_add_draw(
            ctx1,
            opening_blocks1,
            processing_blocks1,
            closing_blocks1,
            bet_amount1,
        ).0.spec_add_draw(
            ctx2,
            opening_blocks2,
            processing_blocks2,
            closing_blocks2,
            bet_amount2,
        ).1 is Ok,
        l.last_draw_number + 1 < u32::MAX,
    ensures
        ({
            let mid = l.spec_add_draw(
                ctx1,
                opening_blocks1,
                processing_blocks1,
                closing_blocks1,
                bet_amount1,
            ).0;
            let post = mid.spec_add_draw(
                ctx2,
                opening_blocks2,
                processing_blocks2,
                closing_blocks2,
                bet_amount2,
            ).0;
            post.draws.last().draw_number == mid.draws.last().draw_number + 1
        }),
{
}

/// Law: a second start immediately after a successful one, by the
/// operator, fails with `AlreadyStarted` and leaves the state, in
/// particular `is_started`, unchanged.
pub proof fn lemma_start_twice(l: LotteryView, ctx1: ExecContext, ctx2: ExecContext)
    requires
        l.spec_start(ctx1).1 is Ok,
        ctx2.caller == l.spec_start(ctx1).0.setup.operator,
    ensures
        l.spec_start(ctx1).0.setup.is_started,
        l.spec_start(ctx1).0.spec_start(ctx2) == (
            l.spec_start(ctx1).0,
            Err::<(), Error>(Error::AlreadyStarted),
        ),
{
}

/// Law: a close settlement never pays out more than the draw held: its
/// payout and rebate lines together move at most the jackpot plus the
/// rebate pool. Whatever integer division leaves over is retained, never
/// transferred.
pub proof fn lemma_close_conserves_funds(l: LotteryView, ctx: ExecContext, draw_number: u32)
    requires
        l.wf(),
        l.spec_close_draw(ctx, draw_number).1 is Ok,
    ensures
        ({
            let d = l.draws[first_match(l.draws, draw_number)];
            sum_amounts(l.spec_close_draw(ctx, draw_number).1->Ok_0) <= d.jackpot + d.rebate
        }),
{
    let d = l.draws[first_match(l.draws, draw_number)];
    let base = spec_winners(d.bets, d.winning_number, d.draw_number);
    let count_winners = base.len() as int;
    let bettor_share = if count_winners > 0 {
        (d.jackpot * 90 / 100 / count_winners) as u128
    } else {
        0u128
    };
    let upline_share = if count_winners > 0 {
        (d.jackpot * 10 / 100 / count_winners) as u128
    } else {
        0u128
    };
    let winners = assign_shares(base, bettor_share, upline_share);
    let payout = winner_payout_transfers(winners, d.bets, l.setup.operator, l.setup.asset_id);
    let count_bettors = d.bets.len() as int;
    let per_bettor = if count_bettors > 0 {
        (d.rebate as int / count_bettors) as u128
    } else {
        0u128
    };
    let rebates = rebate_transfers(d.bets, per_bettor, l.setup.asset_id);

    lemma_sum_amounts_add(payout, rebates);
    lemma_payout_sum(winners, d.bets, l.setup.operator, l.setup.asset_id);
    lemma_assign_shares_sum(base, bettor_share, upline_share);
    lemma_rebate_sum(d.bets, per_bettor, l.setup.asset_id);

    if count_winners > 0 {
        let jackpot_payout = d.jackpot * 90 / 100;
        let upline_pool = d.jackpot * 10 / 100;
        lemma_equal_split_bounded(jackpot_payout, count_winners);
        lemma_equal_split_bounded(upline_pool, count_winners);
        assert(count_winners * (bettor_share + upline_share) == count_winners * bettor_share
            + count_winners * upline_share) by (nonlinear_arith);
        // The two pools together never exceed the jackpot.
        lemma_fundamental_div_mod(d.jackpot * 90, 100);
        lemma_fundamental_div_mod(d.jackpot * 10, 100);
        assert(sum_shares(winners) <= d.jackpot);
    } else {
        assert(winners =~= Seq::<WinnerView>::empty());
    }
    if count_bettors > 0 {
        lemma_equal_split_bounded(d.rebate as int, count_bettors);
        assert(sum_amounts(rebates) <= d.rebate);
    } else {
        assert(rebates =~= Seq::<Transfer>::empty());
    }
    assert(l.spec_close_draw(ctx, draw_number).1->Ok_0 == payout + rebates);
}

/// Law: the five shares of a bet never sum to more than the bet amount,
/// and sum to it exactly whenever the amount is a multiple of 100, so
/// splitting a bet leaks nothing at that granularity.
pub proof fn lemma_bet_shares_sum(bet_amount: Balance)
    ensures
        jackpot_share(bet_amount) + dev_share(bet_amount) + operator_share(bet_amount)
            + rebate_share(bet_amount) + affiliate_share(bet_amount) <= bet_amount,
        bet_amount % 100 == 0 ==> jackpot_share(bet_amount) + dev_share(bet_amount)
            + operator_share(bet_amount) + rebate_share(bet_amount) + affiliate_share(bet_amount)
            == bet_amount,
{
    let b = bet_amount as int;
    assert(b * 50 / 100 + b * 10 / 100 + b * 20 / 100 + b * 10 / 100 + b * 10 / 100 <= b && (b
        % 100 == 0 ==> b * 50 / 100 + b * 10 / 100 + b * 20 / 100 + b * 10 / 100 + b * 10 / 100
        == b)) by (nonlinear_arith);
}

} // verus!
