//! The settlement engine: the draw registry, the guarded state
//! transitions, and the share-splitting arithmetic.
//!
//! Every operation is specified by a transition function over the
//! engine's mathematical view: given the pre-state and the execution
//! context it yields the post-state and the typed outcome. The
//! executable methods are proved to implement exactly those transitions.

use vstd::prelude::*;

use crate::errors::Error;
use crate::random::spec_winning_number;
use crate::random::derive_winning_number;
use crate::state::AccountId;
use crate::state::Balance;
use crate::state::Bet;
use crate::state::BetView;
use crate::state::Draw;
use crate::state::DrawStatus;
use crate::state::DrawView;
use crate::state::ExecContext;
use crate::state::LotterySetup;
use crate::state::Transfer;
use crate::state::Winner;
use crate::state::WinnerView;

verus! {

/// Whether some draw in the registry carries the given number.
pub open spec fn has_draw(s: Seq<DrawView>, draw_number: u32) -> bool {
    exists|i: int| 0 <= i < s.len() && s[i].draw_number == draw_number
}

/// Whether `i` is the first position carrying the given number.
pub open spec fn is_first_match(s: Seq<DrawView>, draw_number: u32, i: int) -> bool {
    &&& 0 <= i < s.len()
    &&& s[i].draw_number == draw_number
    &&& forall|j: int| 0 <= j < i ==> s[j].draw_number != draw_number
}

/// The first position carrying the given number.
pub open spec fn first_match(s: Seq<DrawView>, draw_number: u32) -> int {
    choose|i: int| is_first_match(s, draw_number, i)
}

/// A position satisfying [`is_first_match`] is unique, and it is what
/// [`first_match`] denotes.
pub proof fn lemma_first_match_is(s: Seq<DrawView>, draw_number: u32, i: int)
    requires
        is_first_match(s, draw_number, i),
    ensures
        first_match(s, draw_number) == i,
        has_draw(s, draw_number),
{
    assert(has_draw(s, draw_number));
    let j = first_match(s, draw_number);
    assert(is_first_match(s, draw_number, j));
    if i < j {
        assert(s[i].draw_number == draw_number);
    }
    if j < i {
        assert(s[j].draw_number == draw_number);
    }
}

/// Whether any draw is currently accepting bets.
pub open spec fn any_draw_open(s: Seq<DrawView>) -> bool {
    exists|i: int|
        0 <= i < s.len() && (s[i].is_open || s[i].status == DrawStatus::Open)
}

/// Draw numbers are strictly increasing along the registry, except where
/// the saturation cap has been reached.
pub open spec fn draw_numbers_ordered(s: Seq<DrawView>) -> bool {
    forall|i: int, j: int|
        0 <= i < j < s.len() ==> (s[i].draw_number < s[j].draw_number || (s[i].draw_number
            == u32::MAX && s[j].draw_number == u32::MAX))
}

/// The number assigned to the next added draw: the largest number ever
/// assigned plus one, saturating. Removing a draw does not lower the
/// high-water mark, so a number is never handed out twice.
pub open spec fn next_draw_number(last_draw_number: u32) -> u32 {
    if last_draw_number < u32::MAX {
        (last_draw_number + 1) as u32
    } else {
        u32::MAX
    }
}

/// The bettor's wager splits into five shares of the bet amount, by
/// integer division: half feeds the jackpot.
pub open spec fn jackpot_share(bet_amount: Balance) -> int {
    bet_amount * 50 / 100
}

/// The developer's tenth of the bet amount.
pub open spec fn dev_share(bet_amount: Balance) -> int {
    bet_amount * 10 / 100
}

/// The operator's fifth of the bet amount.
pub open spec fn operator_share(bet_amount: Balance) -> int {
    bet_amount * 20 / 100
}

/// The tenth of the bet amount that feeds the rebate pool.
pub open spec fn rebate_share(bet_amount: Balance) -> int {
    bet_amount * 10 / 100
}

/// The referrer's tenth of the bet amount.
pub open spec fn affiliate_share(bet_amount: Balance) -> int {
    bet_amount * 10 / 100
}

/// Whether some bet in the ledger was placed by the given account.
pub open spec fn has_bettor(bets: Seq<BetView>, who: AccountId) -> bool {
    exists|i: int| 0 <= i < bets.len() && bets[i].bettor == who
}

/// Where a referral share goes: to the referrer if they have a bet in
/// this draw's ledger, to the operator otherwise.
pub open spec fn upline_target(bets: Seq<BetView>, upline: AccountId, operator: AccountId) -> AccountId {
    if has_bettor(bets, upline) {
        upline
    } else {
        operator
    }
}

/// A bet wrapped into a winning record with zeroed shares.
pub open spec fn winner_of(b: BetView, draw_number: u32) -> WinnerView {
    WinnerView {
        draw_number,
        bettor: b.bettor,
        upline: b.upline,
        bet_number: b.bet_number,
        tx_hash: b.tx_hash,
        bettor_share: 0,
        upline_share: 0,
    }
}

/// The winning records of a ledger: every bet on the winning number, in
/// ledger order, with zeroed shares.
pub open spec fn spec_winners(bets: Seq<BetView>, winning_number: u16, draw_number: u32) -> Seq<
    WinnerView,
>
    decreases bets.len(),
{
    if bets.len() == 0 {
        Seq::empty()
    } else {
        let rest = spec_winners(bets.drop_last(), winning_number, draw_number);
        if bets.last().bet_number == winning_number {
            rest.push(winner_of(bets.last(), draw_number))
        } else {
            rest
        }
    }
}

/// Every winning record granted the same pair of shares.
pub open spec fn assign_shares(
    ws: Seq<WinnerView>,
    bettor_share: Balance,
    upline_share: Balance,
) -> Seq<WinnerView> {
    ws.map_values(|w: WinnerView| WinnerView { bettor_share, upline_share, ..w })
}

/// The jackpot payout lines, two per winner in winner order: the
/// bettor's share to the bettor, then the referral share to the winner's
/// referrer if the referrer has a bet in the ledger, else to the
/// operator.
pub open spec fn winner_payout_transfers(
    ws: Seq<WinnerView>,
    bets: Seq<BetView>,
    operator: AccountId,
    asset_id: u128,
) -> Seq<Transfer> {
    Seq::new(
        2 * ws.len(),
        |i: int|
            if i % 2 == 0 {
                Transfer { asset_id, to: ws[i / 2].bettor, amount: ws[i / 2].bettor_share }
            } else {
                Transfer {
                    asset_id,
                    to: upline_target(bets, ws[i / 2].upline, operator),
                    amount: ws[i / 2].upline_share,
                }
            },
    )
}

/// The rebate payout lines: the same amount to every bettor, in ledger
/// order.
pub open spec fn rebate_transfers(bets: Seq<BetView>, per: Balance, asset_id: u128) -> Seq<
    Transfer,
> {
    Seq::new(
        bets.len(),
        |i: int| Transfer { asset_id, to: bets[i].bettor, amount: per },
    )
}

/// Mathematical view of the whole engine.
#[verifier::ext_equal]
pub ghost struct LotteryView {
    /// Administrative configuration
    pub setup: LotterySetup,
    /// The draw registry, in insertion order
    pub draws: Seq<DrawView>,
    /// The largest draw number ever assigned
    pub last_draw_number: u32,
    /// The randomness counter, mixed into every seed
    pub salt: u32,
}

impl LotteryView {
    /// The engine invariant: the configuration invariant holds, draw
    /// numbers are ordered and bounded by the high-water mark, and each
    /// draw is well formed.
    pub open spec fn wf(self) -> bool {
        &&& self.setup.wf()
        &&& draw_numbers_ordered(self.draws)
        &&& forall|i: int|
            0 <= i < self.draws.len() ==> (#[trigger] self.draws[i]).draw_number
                <= self.last_draw_number
        &&& forall|i: int| 0 <= i < self.draws.len() ==> (#[trigger] self.draws[i]).wf()
    }
}

/// The settlement engine: configuration, draw registry and randomness
/// counter.
#[derive(Debug, PartialEq, Eq)]
pub struct Lottery {
    /// Administrative configuration
    pub lottery_setup: LotterySetup,
    /// The draw registry
    pub draws: Vec<Draw>,
    /// The largest draw number ever assigned; never lowered, so numbers
    /// are not reused even after the highest draw is removed
    pub last_draw_number: u32,
    /// The randomness counter; incremented after every processed draw
    pub salt: u32,
}

impl View for Lottery {
    type V = LotteryView;

    open spec fn view(&self) -> LotteryView {
        LotteryView {
            setup: self.lottery_setup,
            draws: self.draws@.map_values(|d: Draw| d@),
            last_draw_number: self.last_draw_number,
            salt: self.salt,
        }
    }
}

impl Clone for Lottery {
    fn clone(&self) -> (r: Self)
        ensures
            r@ == self@,
    {
        let r = Lottery {
            lottery_setup: self.lottery_setup,
            draws: self.draws.clone(),
            last_draw_number: self.last_draw_number,
            salt: self.salt,
        };
        proof {
            assert(r.draws@.map_values(|d: Draw| d@) =~= self.draws@.map_values(|d: Draw| d@));
            assert(r@ =~= self@);
        }
        r
    }
}

/// Finds the first draw carrying the given number.
fn find_draw_index(draws: &Vec<Draw>, draw_number: u32) -> (r: Option<usize>)
    ensures
        match r {
            Some(i) => is_first_match(
                draws@.map_values(|d: Draw| d@),
                draw_number,
                i as int,
            ),
            None => !has_draw(draws@.map_values(|d: Draw| d@), draw_number),
        },
{
    let ghost s = draws@.map_values(|d: Draw| d@);
    let n = draws.len();
    for i in 0..n
        invariant
            n == draws.len(),
            s == draws@.map_values(|d: Draw| d@),
            forall|j: int| 0 <= j < i ==> s[j].draw_number != draw_number,
    {
        if draws[i].draw_number == draw_number {
            return Some(i);
        }
    }
    None
}

impl LotteryView {
    /// Transition of [`Lottery::setup`]: only the dev may replace the
    /// operator, asset id, schedule and caps; the next starting block is
    /// recomputed.
    pub open spec fn spec_setup(
        self,
        ctx: ExecContext,
        operator: AccountId,
        asset_id: u128,
        starting_block: u32,
        daily_total_blocks: u32,
        maximum_draws: u8,
        maximum_bets: u16,
    ) -> (LotteryView, Result<(), Error>) {
        if ctx.caller != self.setup.dev {
            (self, Err(Error::BadOrigin))
        } else {
            (
                LotteryView {
                    setup: LotterySetup {
                        operator,
                        dev: self.setup.dev,
                        asset_id,
                        starting_block,
                        daily_total_blocks,
                        next_starting_block: (starting_block + daily_total_blocks) as u32,
                        maximum_draws,
                        maximum_bets,
                        is_started: self.setup.is_started,
                    },
                    ..self
                },
                Ok(()),
            )
        }
    }

    /// Transition of [`Lottery::start`]: operator-only; fails if already
    /// started or before the scheduled starting block.
    pub open spec fn spec_start(self, ctx: ExecContext) -> (LotteryView, Result<(), Error>) {
        if ctx.caller != self.setup.operator {
            (self, Err(Error::BadOrigin))
        } else if self.setup.is_started {
            (self, Err(Error::AlreadyStarted))
        } else if ctx.block_number < self.setup.starting_block {
            (self, Err(Error::InvalidBlock))
        } else {
            (
                LotteryView { setup: LotterySetup { is_started: true, ..self.setup }, ..self },
                Ok(()),
            )
        }
    }

    /// Transition of [`Lottery::stop`]: operator-only; fails while any
    /// draw accepts bets or before the cycle has elapsed; on success the
    /// cycle rolls forward.
    pub open spec fn spec_stop(self, ctx: ExecContext) -> (LotteryView, Result<(), Error>) {
        if ctx.caller != self.setup.operator {
            (self, Err(Error::BadOrigin))
        } else if any_draw_open(self.draws) {
            (self, Err(Error::DrawOpen))
        } else if ctx.block_number < self.setup.next_starting_block {
            (self, Err(Error::InvalidBlock))
        } else {
            (
                LotteryView {
                    setup: LotterySetup {
                        is_started: false,
                        starting_block: self.setup.next_starting_block,
                        next_starting_block: (self.setup.next_starting_block
                            + self.setup.daily_total_blocks) as u32,
                        ..self.setup
                    },
                    ..self
                },
                Ok(()),
            )
        }
    }
}

impl Lottery {
    /// Creates an engine with the caller as both operator and dev and an
    /// empty draw registry.
    pub fn new(
        caller: AccountId,
        asset_id: u128,
        starting_block: u32,
        daily_total_blocks: u32,
        maximum_draws: u8,
        maximum_bets: u16,
        init_start: bool,
    ) -> (r: Self)
        requires
            starting_block + daily_total_blocks <= u32::MAX,
        ensures
            r@.wf(),
            r@ == (LotteryView {
                setup: LotterySetup {
                    operator: caller,
                    dev: caller,
                    asset_id,
                    starting_block,
                    daily_total_blocks,
                    next_starting_block: (starting_block + daily_total_blocks) as u32,
                    maximum_draws,
                    maximum_bets,
                    is_started: init_start,
                },
                draws: Seq::<DrawView>::empty(),
                last_draw_number: 0,
                salt: 0,
            }),
    {
        let r = Lottery {
            lottery_setup: LotterySetup {
                operator: caller,
                dev: caller,
                asset_id,
                starting_block,
                daily_total_blocks,
                next_starting_block: starting_block + daily_total_blocks,
                maximum_draws,
                maximum_bets,
                is_started: init_start,
            },
            draws: Vec::new(),
            last_draw_number: 0,
            salt: 0,
        };
        proof {
            assert(r@.draws =~= Seq::<DrawView>::empty());
            assert(r@ =~= (LotteryView {
                setup: r.lottery_setup,
                draws: Seq::<DrawView>::empty(),
                last_draw_number: 0,
                salt: 0,
            }));
        }
        r
    }

    /// Creates an engine with the default configuration, stopped.
    pub fn default(caller: AccountId) -> (r: Self)
        ensures
            r@.wf(),
            r@ == (LotteryView {
                setup: LotterySetup {
                    operator: caller,
                    dev: caller,
                    asset_id: 1984,
                    starting_block: 0,
                    daily_total_blocks: 14400,
                    next_starting_block: 14400,
                    maximum_draws: 2,
                    maximum_bets: 1000,
                    is_started: false,
                },
                draws: Seq::<DrawView>::empty(),
                last_draw_number: 0,
                salt: 0,
            }),
    {
        Self::new(caller, 1984, 0, 14400, 2, 1000, false)
    }

    /// Replaces the administrative configuration; dev-only, no temporal
    /// gating.
    pub fn setup(
        &mut self,
        ctx: ExecContext,
        operator: AccountId,
        asset_id: u128,
        starting_block: u32,
        daily_total_blocks: u32,
        maximum_draws: u8,
        maximum_bets: u16,
    ) -> (r: Result<(), Error>)
        requires
            old(self)@.wf(),
            ctx.caller == old(self)@.setup.dev ==> starting_block + daily_total_blocks
                <= u32::MAX,
        ensures
            final(self)@.wf(),
            (final(self)@, r) == old(self)@.spec_setup(
                ctx,
                operator,
                asset_id,
                starting_block,
                daily_total_blocks,
                maximum_draws,
                maximum_bets,
            ),
    {
        if ctx.caller != self.lottery_setup.dev {
            return Err(Error::BadOrigin);
        }
        self.lottery_setup.operator = operator;
        self.lottery_setup.asset_id = asset_id;
        self.lottery_setup.starting_block = starting_block;
        self.lottery_setup.daily_total_blocks = daily_total_blocks;
        self.lottery_setup.next_starting_block = starting_block + daily_total_blocks;
        self.lottery_setup.maximum_draws = maximum_draws;
        self.lottery_setup.maximum_bets = maximum_bets;
        proof {
            assert(self@ =~= old(self)@.spec_setup(
                ctx,
                operator,
                asset_id,
                starting_block,
                daily_total_blocks,
                maximum_draws,
                maximum_bets,
            ).0);
        }
        Ok(())
    }

    /// Starts the lottery; operator-only, gated by the starting block.
    pub fn start(&mut self, ctx: ExecContext) -> (r: Result<(), Error>)
        requires
            old(self)@.wf(),
        ensures
            final(self)@.wf(),
            (final(self)@, r) == old(self)@.spec_start(ctx),
    {
        if ctx.caller != self.lottery_setup.operator {
            return Err(Error::BadOrigin);
        }
        if self.lottery_setup.is_started {
            return Err(Error::AlreadyStarted);
        }
        if ctx.block_number < self.lottery_setup.starting_block {
            return Err(Error::InvalidBlock);
        }
        self.lottery_setup.is_started = true;
        proof {
            assert(self@ =~= old(self)@.spec_start(ctx).0);
        }
        Ok(())
    }

    /// Stops the lottery and rolls the cycle forward; operator-only,
    /// refused while any draw accepts bets or before the cycle elapsed.
    pub fn stop(&mut self, ctx: ExecContext) -> (r: Result<(), Error>)
        requires
            old(self)@.wf(),
            ctx.caller == old(self)@.setup.operator && !any_draw_open(old(self)@.draws)
                && ctx.block_number >= old(self)@.setup.next_starting_block ==> old(
                self,
            )@.setup.next_starting_block + old(self)@.setup.daily_total_blocks <= u32::MAX,
        ensures
            final(self)@.wf(),
            (final(self)@, r) == old(self)@.spec_stop(ctx),
    {
        if ctx.caller != self.lottery_setup.operator {
            return Err(Error::BadOrigin);
        }
        if self.any_open() {
            return Err(Error::DrawOpen);
        }
        if ctx.block_number < self.lottery_setup.next_starting_block {
            return Err(Error::InvalidBlock);
        }
        self.lottery_setup.is_started = false;
        self.lottery_setup.starting_block = self.lottery_setup.next_starting_block;
        self.lottery_setup.next_starting_block = self.lottery_setup.next_starting_block
            + self.lottery_setup.daily_total_blocks;
        proof {
            assert(self@ =~= old(self)@.spec_stop(ctx).0);
        }
        Ok(())
    }

    /// Whether any draw in the registry is currently accepting bets.
    fn any_open(&self) -> (r: bool)
        ensures
            r == any_draw_open(self@.draws),
    {
        let n = self.draws.len();
        for i in 0..n
            invariant
                n == self.draws.len(),
                forall|j: int|
                    0 <= j < i ==> !(#[trigger] self@.draws[j]).is_open && self@.draws[j].status
                        != DrawStatus::Open,
        {
            if self.draws[i].is_open || self.draws[i].status == DrawStatus::Open {
                assert(self@.draws[i as int].is_open || self@.draws[i as int].status
                    == DrawStatus::Open);
                return true;
            }
        }
        false
    }

    /// Returns the administrative configuration.
    pub fn get_lottery_setup(&self) -> (r: LotterySetup)
        ensures
            r == self@.setup,
    {
        self.lottery_setup
    }
}

impl LotteryView {
    /// Transition of [`Lottery::add_draw`]: operator-only, only while
    /// stopped, capped by the configured maximum, and the window offsets
    /// must be strictly ordered below the cycle length. The new draw gets
    /// the next draw number and starts closed with zeroed accumulators.
    pub open spec fn spec_add_draw(
        self,
        ctx: ExecContext,
        opening_blocks: u32,
        processing_blocks: u32,
        closing_blocks: u32,
        bet_amount: Balance,
    ) -> (LotteryView, Result<(), Error>) {
        if ctx.caller != self.setup.operator {
            (self, Err(Error::BadOrigin))
        } else if self.draws.len() >= self.setup.maximum_draws {
            (self, Err(Error::TooManyDraws))
        } else if !(self.setup.daily_total_blocks > closing_blocks && closing_blocks
            > processing_blocks && processing_blocks > opening_blocks) {
            (self, Err(Error::InvalidBlocksHierarchy))
        } else if self.setup.is_started {
            (self, Err(Error::AlreadyStarted))
        } else {
            (
                LotteryView {
                    draws: self.draws.push(
                        DrawView {
                            draw_number: next_draw_number(self.last_draw_number),
                            opening_blocks,
                            processing_blocks,
                            closing_blocks,
                            bet_amount,
                            jackpot: 0,
                            rebate: 0,
                            bets: Seq::empty(),
                            winning_number: 0,
                            winners: Seq::empty(),
                            status: DrawStatus::Close,
                            is_open: false,
                        },
                    ),
                    last_draw_number: next_draw_number(self.last_draw_number),
                    ..self
                },
                Ok(()),
            )
        }
    }

    /// Transition of [`Lottery::remove_draw`]: operator-only, only while
    /// stopped; removes the most recently added draw.
    pub open spec fn spec_remove_draw(self, ctx: ExecContext) -> (LotteryView, Result<
        (),
        Error,
    >) {
        if ctx.caller != self.setup.operator {
            (self, Err(Error::BadOrigin))
        } else if self.draws.len() == 0 {
            (self, Err(Error::NoRecords))
        } else if self.setup.is_started {
            (self, Err(Error::AlreadyStarted))
        } else {
            (LotteryView { draws: self.draws.drop_last(), ..self }, Ok(()))
        }
    }

    /// Transition of [`Lottery::open_draw`]: operator-only; the draw must
    /// exist, the opening block must be reached, and the draw must not
    /// already be open.
    pub open spec fn spec_open_draw(self, ctx: ExecContext, draw_number: u32) -> (
        LotteryView,
        Result<(), Error>,
    ) {
        if ctx.caller != self.setup.operator {
            (self, Err(Error::BadOrigin))
        } else if !has_draw(self.draws, draw_number) {
            (self, Err(Error::DrawNotFound))
        } else {
            let i = first_match(self.draws, draw_number);
            let d = self.draws[i];
            if ctx.block_number < self.setup.starting_block + d.opening_blocks {
                (self, Err(Error::InvalidBlock))
            } else if d.is_open {
                (self, Err(Error::DrawOpen))
            } else {
                (
                    LotteryView {
                        draws: self.draws.update(
                            i,
                            DrawView { is_open: true, status: DrawStatus::Open, ..d },
                        ),
                        ..self
                    },
                    Ok(()),
                )
            }
        }
    }

    /// Transition of [`Lottery::override_draw`]: operator-only; the draw
    /// must exist and be processing; replaces the winning number
    /// unconditionally.
    pub open spec fn spec_override_draw(
        self,
        ctx: ExecContext,
        draw_number: u32,
        winning_number: u16,
    ) -> (LotteryView, Result<(), Error>) {
        if ctx.caller != self.setup.operator {
            (self, Err(Error::BadOrigin))
        } else if !has_draw(self.draws, draw_number) {
            (self, Err(Error::DrawNotFound))
        } else {
            let i = first_match(self.draws, draw_number);
            let d = self.draws[i];
            if d.status != DrawStatus::Processing {
                (self, Err(Error::DrawNotProcessing))
            } else {
                (
                    LotteryView {
                        draws: self.draws.update(i, DrawView { winning_number, ..d }),
                        ..self
                    },
                    Ok(()),
                )
            }
        }
    }

    /// Transition of [`Lottery::add_draw_jackpot`]: operator-only; the
    /// draw must exist and be closed; tops up the jackpot.
    pub open spec fn spec_add_draw_jackpot(
        self,
        ctx: ExecContext,
        draw_number: u32,
        amount: Balance,
    ) -> (LotteryView, Result<(), Error>) {
        if ctx.caller != self.setup.operator {
            (self, Err(Error::BadOrigin))
        } else if !has_draw(self.draws, draw_number) {
            (self, Err(Error::DrawNotFound))
        } else {
            let i = first_match(self.draws, draw_number);
            let d = self.draws[i];
            if d.status != DrawStatus::Close {
                (self, Err(Error::DrawNotClosed))
            } else {
                (
                    LotteryView {
                        draws: self.draws.update(
                            i,
                            DrawView { jackpot: (d.jackpot + amount) as u128, ..d },
                        ),
                        ..self
                    },
                    Ok(()),
                )
            }
        }
    }
    /// Transition of [`Lottery::process_draw`]: operator-only; the draw
    /// must exist and be open, not already processing, and the
    /// processing block must be reached. The winning number is derived
    /// from the timestamp and the salt, betting stops, and the salt
    /// increments.
    pub open spec fn spec_process_draw(self, ctx: ExecContext, draw_number: u32) -> (
        LotteryView,
        Result<(), Error>,
    ) {
        if ctx.caller != self.setup.operator {
            (self, Err(Error::BadOrigin))
        } else if !has_draw(self.draws, draw_number) {
            (self, Err(Error::DrawNotFound))
        } else {
            let i = first_match(self.draws, draw_number);
            let d = self.draws[i];
            if !d.is_open {
                (self, Err(Error::DrawClosed))
            } else if d.status == DrawStatus::Processing {
                (self, Err(Error::DrawProcessing))
            } else if ctx.block_number < self.setup.starting_block + d.processing_blocks {
                (self, Err(Error::InvalidBlock))
            } else {
                (
                    LotteryView {
                        draws: self.draws.update(
                            i,
                            DrawView {
                                is_open: false,
                                status: DrawStatus::Processing,
                                winning_number: spec_winning_number(ctx.block_timestamp, self.salt),
                                ..d
                            },
                        ),
                        salt: (self.salt + 1) as u32,
                        ..self
                    },
                    Ok(()),
                )
            }
        }
    }

    /// Transition of [`Lottery::add_bet`]: operator-only; the draw must
    /// exist and accept bets. Three shares are paid out at once, two
    /// accumulate on the draw, and the bet is appended to the ledger.
    pub open spec fn spec_add_bet(
        self,
        ctx: ExecContext,
        draw_number: u32,
        bet_number: u16,
        bettor: AccountId,
        upline: AccountId,
        tx_hash: Seq<u8>,
    ) -> (LotteryView, Result<Seq<Transfer>, Error>) {
        if ctx.caller != self.setup.operator {
            (self, Err(Error::BadOrigin))
        } else if !has_draw(self.draws, draw_number) {
            (self, Err(Error::DrawNotFound))
        } else {
            let i = first_match(self.draws, draw_number);
            let d = self.draws[i];
            if d.status != DrawStatus::Open {
                (self, Err(Error::DrawClosed))
            } else {
                let transfers = seq![
                    Transfer {
                        asset_id: self.setup.asset_id,
                        to: self.setup.operator,
                        amount: operator_share(d.bet_amount) as u128,
                    },
                    Transfer {
                        asset_id: self.setup.asset_id,
                        to: self.setup.dev,
                        amount: dev_share(d.bet_amount) as u128,
                    },
                    Transfer {
                        asset_id: self.setup.asset_id,
                        to: upline_target(d.bets, upline, self.setup.operator),
                        amount: affiliate_share(d.bet_amount) as u128,
                    },
                ];
                (
                    LotteryView {
                        draws: self.draws.update(
                            i,
                            DrawView {
                                bets: d.bets.push(
                                    BetView { bettor, upline, bet_number, tx_hash },
                                ),
                                jackpot: (d.jackpot + jackpot_share(d.bet_amount)) as u128,
                                rebate: (d.rebate + rebate_share(d.bet_amount)) as u128,
                                ..d
                            },
                        ),
                        ..self
                    },
                    Ok(transfers),
                )
            }
        }
    }
    /// Transition of [`Lottery::close_draw`]: operator-only, gated by the
    /// draw's closing block. Winners are the bets on the winning number,
    /// in ledger order; with at least one winner the jackpot splits 90%
    /// to the winners and 10% to their referrers, in equal integer
    /// shares, and is reset; with none it carries over. The rebate pool
    /// splits equally over all bettors. Indivisible remainders are
    /// retained, not redistributed. The ledger empties and the draw
    /// returns to closed.
    pub open spec fn spec_close_draw(self, ctx: ExecContext, draw_number: u32) -> (
        LotteryView,
        Result<Seq<Transfer>, Error>,
    ) {
        if ctx.caller != self.setup.operator {
            (self, Err(Error::BadOrigin))
        } else if !has_draw(self.draws, draw_number) {
            (self, Err(Error::DrawNotFound))
        } else {
            let i = first_match(self.draws, draw_number);
            let d = self.draws[i];
            if ctx.block_number < self.setup.starting_block + d.closing_blocks {
                (self, Err(Error::InvalidBlock))
            } else {
                let base = spec_winners(d.bets, d.winning_number, d.draw_number);
                let count_winners = base.len();
                let bettor_share = if count_winners > 0 {
                    (d.jackpot * 90 / 100 / count_winners as int) as u128
                } else {
                    0u128
                };
                let upline_share = if count_winners > 0 {
                    (d.jackpot * 10 / 100 / count_winners as int) as u128
                } else {
                    0u128
                };
                let winners = assign_shares(base, bettor_share, upline_share);
                let payout = winner_payout_transfers(
                    winners,
                    d.bets,
                    self.setup.operator,
                    self.setup.asset_id,
                );
                let count_bettors = d.bets.len();
                let per_bettor = if count_bettors > 0 {
                    (d.rebate as int / count_bettors as int) as u128
                } else {
                    0u128
                };
                let rebates = rebate_transfers(d.bets, per_bettor, self.setup.asset_id);
                let new_draw = DrawView {
                    jackpot: if count_winners > 0 {
                        0u128
                    } else {
                        d.jackpot
                    },
                    rebate: 0,
                    bets: Seq::empty(),
                    winners,
                    status: DrawStatus::Close,
                    is_open: false,
                    ..d
                };
                (
                    LotteryView { draws: self.draws.update(i, new_draw), ..self },
                    Ok(payout + rebates),
                )
            }
        }
    }
}

/// Whether the given account appears as a bettor in the ledger.
fn bets_contain(bets: &Vec<Bet>, who: AccountId) -> (r: bool)
    ensures
        r == has_bettor(bets@.map_values(|b: Bet| b@), who),
{
    let ghost s = bets@.map_values(|b: Bet| b@);
    let n = bets.len();
    for i in 0..n
        invariant
            n == bets.len(),
            s == bets@.map_values(|b: Bet| b@),
            forall|j: int| 0 <= j < i ==> (#[trigger] s[j]).bettor != who,
    {
        if bets[i].bettor == who {
            assert(s[i as int].bettor == who);
            return true;
        }
    }
    false
}

impl Lottery {
    /// Appends a new draw to the registry; operator-only, only while the
    /// lottery is stopped. The draw number assigned is the largest number
    /// ever assigned plus one, saturating, so numbers grow monotonically
    /// and are never reused, even after the highest draw is removed.
    pub fn add_draw(
        &mut self,
        ctx: ExecContext,
        opening_blocks: u32,
        processing_blocks: u32,
        closing_blocks: u32,
        bet_amount: Balance,
    ) -> (r: Result<(), Error>)
        requires
            old(self)@.wf(),
        ensures
            final(self)@.wf(),
            (final(self)@, r) == old(self)@.spec_add_draw(
                ctx,
                opening_blocks,
                processing_blocks,
                closing_blocks,
                bet_amount,
            ),
    {
        if ctx.caller != self.lottery_setup.operator {
            return Err(Error::BadOrigin);
        }
        if self.draws.len() >= self.lottery_setup.maximum_draws as usize {
            return Err(Error::TooManyDraws);
        }
        if !(self.lottery_setup.daily_total_blocks > closing_blocks && closing_blocks
            > processing_blocks && processing_blocks > opening_blocks) {
            return Err(Error::InvalidBlocksHierarchy);
        }
        if self.lottery_setup.is_started {
            return Err(Error::AlreadyStarted);
        }
        let number = if self.last_draw_number < u32::MAX {
            self.last_draw_number + 1
        } else {
            u32::MAX
        };
        let new_draw = Draw {
            draw_number: number,
            opening_blocks,
            processing_blocks,
            closing_blocks,
            bet_amount,
            jackpot: 0,
            rebate: 0,
            bets: Vec::new(),
            winning_number: 0,
            winners: Vec::new(),
            status: DrawStatus::Close,
            is_open: false,
        };
        proof {
            assert(new_draw@.bets =~= Seq::<BetView>::empty());
            assert(new_draw@.winners =~= Seq::<WinnerView>::empty());
        }
        self.draws.push(new_draw);
        self.last_draw_number = number;
        proof {
            assert(self@.draws =~= old(self)@.draws.push(new_draw@));
            assert(new_draw@ =~= old(self)@.spec_add_draw(
                ctx,
                opening_blocks,
                processing_blocks,
                closing_blocks,
                bet_amount,
            ).0.draws.last());
            assert(self@ =~= old(self)@.spec_add_draw(
                ctx,
                opening_blocks,
                processing_blocks,
                closing_blocks,
                bet_amount,
            ).0);
        }
        Ok(())
    }

    /// Removes the most recently added draw; operator-only, only while
    /// the lottery is stopped.
    pub fn remove_draw(&mut self, ctx: ExecContext) -> (r: Result<(), Error>)
        requires
            old(self)@.wf(),
        ensures
            final(self)@.wf(),
            (final(self)@, r) == old(self)@.spec_remove_draw(ctx),
    {
        if ctx.caller != self.lottery_setup.operator {
            return Err(Error::BadOrigin);
        }
        if self.draws.len() == 0 {
            return Err(Error::NoRecords);
        }
        if self.lottery_setup.is_started {
            return Err(Error::AlreadyStarted);
        }
        self.draws.pop();
        proof {
            assert(self@.draws =~= old(self)@.draws.drop_last());
            assert(self@ =~= old(self)@.spec_remove_draw(ctx).0);
        }
        Ok(())
    }

    /// Opens a draw for betting; operator-only, gated by the draw's
    /// opening block.
    pub fn open_draw(&mut self, ctx: ExecContext, draw_number: u32) -> (r: Result<(), Error>)
        requires
            old(self)@.wf(),
        ensures
            final(self)@.wf(),
            (final(self)@, r) == old(self)@.spec_open_draw(ctx, draw_number),
    {
        if ctx.caller != self.lottery_setup.operator {
            return Err(Error::BadOrigin);
        }
        let idx = match find_draw_index(&self.draws, draw_number) {
            Some(i) => i,
            None => {
                return Err(Error::DrawNotFound);
            },
        };
        proof {
            lemma_first_match_is(self@.draws, draw_number, idx as int);
        }
        if (ctx.block_number as u64) < (self.lottery_setup.starting_block as u64)
            + (self.draws[idx].opening_blocks as u64) {
            return Err(Error::InvalidBlock);
        }
        if self.draws[idx].is_open {
            return Err(Error::DrawOpen);
        }
        let mut new_draw = self.draws[idx].clone();
        new_draw.is_open = true;
        new_draw.status = DrawStatus::Open;
        proof {
            assert(new_draw@ =~= (DrawView {
                is_open: true,
                status: DrawStatus::Open,
                ..old(self)@.draws[idx as int]
            }));
        }
        self.draws.set(idx, new_draw);
        proof {
            assert(self@.draws =~= old(self)@.draws.update(idx as int, new_draw@));
            assert(self@ =~= old(self)@.spec_open_draw(ctx, draw_number).0);
        }
        Ok(())
    }

    /// Replaces a processing draw's winning number; operator-only.
    pub fn override_draw(
        &mut self,
        ctx: ExecContext,
        draw_number: u32,
        winning_number: u16,
    ) -> (r: Result<(), Error>)
        requires
            old(self)@.wf(),
        ensures
            final(self)@.wf(),
            (final(self)@, r) == old(self)@.spec_override_draw(ctx, draw_number, winning_number),
    {
        if ctx.caller != self.lottery_setup.operator {
            return Err(Error::BadOrigin);
        }
        let idx = match find_draw_index(&self.draws, draw_number) {
            Some(i) => i,
            None => {
                return Err(Error::DrawNotFound);
            },
        };
        proof {
            lemma_first_match_is(self@.draws, draw_number, idx as int);
        }
        if self.draws[idx].status != DrawStatus::Processing {
            return Err(Error::DrawNotProcessing);
        }
        let mut new_draw = self.draws[idx].clone();
        new_draw.winning_number = winning_number;
        proof {
            assert(new_draw@ =~= (DrawView { winning_number, ..old(self)@.draws[idx as int] }));
        }
        self.draws.set(idx, new_draw);
        proof {
            assert(self@.draws =~= old(self)@.draws.update(idx as int, new_draw@));
            assert(self@ =~= old(self)@.spec_override_draw(ctx, draw_number, winning_number).0);
        }
        Ok(())
    }

    /// Tops up a closed draw's jackpot; operator-only. The corresponding
    /// funds must already be in the host's custody.
    pub fn add_draw_jackpot(
        &mut self,
        ctx: ExecContext,
        draw_number: u32,
        amount: Balance,
    ) -> (r: Result<(), Error>)
        requires
            old(self)@.wf(),
            ctx.caller == old(self)@.setup.operator && has_draw(old(self)@.draws, draw_number)
                ==> old(self)@.draws[first_match(old(self)@.draws, draw_number)].jackpot + amount
                <= u128::MAX,
        ensures
            final(self)@.wf(),
            (final(self)@, r) == old(self)@.spec_add_draw_jackpot(ctx, draw_number, amount),
    {
        if ctx.caller != self.lottery_setup.operator {
            return Err(Error::BadOrigin);
        }
        let idx = match find_draw_index(&self.draws, draw_number) {
            Some(i) => i,
            None => {
                return Err(Error::DrawNotFound);
            },
        };
        proof {
            lemma_first_match_is(self@.draws, draw_number, idx as int);
        }
        if self.draws[idx].status != DrawStatus::Close {
            return Err(Error::DrawNotClosed);
        }
        let mut new_draw = self.draws[idx].clone();
        new_draw.jackpot = new_draw.jackpot + amount;
        proof {
            assert(new_draw@ =~= (DrawView {
                jackpot: (old(self)@.draws[idx as int].jackpot + amount) as u128,
                ..old(self)@.draws[idx as int]
            }));
        }
        self.draws.set(idx, new_draw);
        proof {
            assert(self@.draws =~= old(self)@.draws.update(idx as int, new_draw@));
            assert(self@ =~= old(self)@.spec_add_draw_jackpot(ctx, draw_number, amount).0);
        }
        Ok(())
    }

    /// Returns all draws of the registry.
    pub fn get_draws(&self) -> (r: Vec<Draw>)
        ensures
            r@.map_values(|d: Draw| d@) == self@.draws,
    {
        let r = self.draws.clone();
        proof {
            assert(r@.map_values(|d: Draw| d@) =~= self@.draws);
        }
        r
    }

    /// Processes a draw: closes betting and derives the winning number
    /// from the block timestamp and the engine's salt; operator-only,
    /// gated by the draw's processing block. This is the only transition
    /// that stops betting; the salt increments afterwards.
    pub fn process_draw(&mut self, ctx: ExecContext, draw_number: u32) -> (r: Result<(), Error>)
        requires
            old(self)@.wf(),
            old(self)@.spec_process_draw(ctx, draw_number).1 is Ok ==> old(self).salt < u32::MAX,
        ensures
            final(self)@.wf(),
            (final(self)@, r) == old(self)@.spec_process_draw(ctx, draw_number),
            r is Ok ==> 1 <= final(self)@.draws[first_match(old(self)@.draws, draw_number)].winning_number <= 999,
    {
        if ctx.caller != self.lottery_setup.operator {
            return Err(Error::BadOrigin);
        }
        let idx = match find_draw_index(&self.draws, draw_number) {
            Some(i) => i,
            None => {
                return Err(Error::DrawNotFound);
            },
        };
        proof {
            lemma_first_match_is(self@.draws, draw_number, idx as int);
        }
        if !self.draws[idx].is_open {
            return Err(Error::DrawClosed);
        }
        if self.draws[idx].status == DrawStatus::Processing {
            return Err(Error::DrawProcessing);
        }
        if (ctx.block_number as u64) < (self.lottery_setup.starting_block as u64)
            + (self.draws[idx].processing_blocks as u64) {
            return Err(Error::InvalidBlock);
        }
        let number = derive_winning_number(ctx.block_timestamp, self.salt);
        let mut new_draw = self.draws[idx].clone();
        new_draw.is_open = false;
        new_draw.status = DrawStatus::Processing;
        new_draw.winning_number = number;
        proof {
            assert(new_draw@ =~= (DrawView {
                is_open: false,
                status: DrawStatus::Processing,
                winning_number: spec_winning_number(ctx.block_timestamp, old(self).salt),
                ..old(self)@.draws[idx as int]
            }));
        }
        self.draws.set(idx, new_draw);
        self.salt = self.salt + 1;
        proof {
            assert(self@.draws =~= old(self)@.draws.update(idx as int, new_draw@));
            assert(self@ =~= old(self)@.spec_process_draw(ctx, draw_number).0);
        }
        Ok(())
    }

    /// Records a verified bet against an open draw; operator-only. The
    /// bet amount splits into five shares: the operator's and the dev's
    /// are paid out at once, the referral share goes to the referrer if
    /// they already bet in this draw (else to the operator), and the
    /// jackpot and rebate shares accumulate on the draw.
    pub fn add_bet(
        &mut self,
        ctx: ExecContext,
        draw_number: u32,
        bet_number: u16,
        bettor: AccountId,
        upline: AccountId,
        tx_hash: Vec<u8>,
    ) -> (r: Result<Vec<Transfer>, Error>)
        requires
            old(self)@.wf(),
            old(self)@.spec_add_bet(ctx, draw_number, bet_number, bettor, upline, tx_hash@).1
                is Ok ==> ({
                let d = old(self)@.draws[first_match(old(self)@.draws, draw_number)];
                &&& d.bet_amount * 50 <= u128::MAX
                &&& d.jackpot + jackpot_share(d.bet_amount) <= u128::MAX
                &&& d.rebate + rebate_share(d.bet_amount) <= u128::MAX
            }),
        ensures
            final(self)@.wf(),
            ({
                let (post, res) = old(self)@.spec_add_bet(
                    ctx,
                    draw_number,
                    bet_number,
                    bettor,
                    upline,
                    tx_hash@,
                );
                &&& final(self)@ == post
                &&& (r is Ok <==> res is Ok)
                &&& (r is Ok ==> r->Ok_0@ == res->Ok_0)
                &&& (r is Err ==> r->Err_0 == res->Err_0)
            }),
    {
        if ctx.caller != self.lottery_setup.operator {
            return Err(Error::BadOrigin);
        }
        let idx = match find_draw_index(&self.draws, draw_number) {
            Some(i) => i,
            None => {
                return Err(Error::DrawNotFound);
            },
        };
        proof {
            lemma_first_match_is(self@.draws, draw_number, idx as int);
        }
        if self.draws[idx].status != DrawStatus::Open {
            return Err(Error::DrawClosed);
        }
        let bet_amount = self.draws[idx].bet_amount;
        let to_jackpot = bet_amount * 50 / 100;
        let to_dev = bet_amount * 10 / 100;
        let to_operator = bet_amount * 20 / 100;
        let to_rebate = bet_amount * 10 / 100;
        let to_affiliate = bet_amount * 10 / 100;
        let mut transfers: Vec<Transfer> = Vec::new();
        transfers.push(
            Transfer {
                asset_id: self.lottery_setup.asset_id,
                to: self.lottery_setup.operator,
                amount: to_operator,
            },
        );
        transfers.push(
            Transfer {
                asset_id: self.lottery_setup.asset_id,
                to: self.lottery_setup.dev,
                amount: to_dev,
            },
        );
        let affiliate_to = if bets_contain(&self.draws[idx].bets, upline) {
            upline
        } else {
            self.lottery_setup.operator
        };
        transfers.push(
            Transfer {
                asset_id: self.lottery_setup.asset_id,
                to: affiliate_to,
                amount: to_affiliate,
            },
        );
        let mut new_draw = self.draws[idx].clone();
        new_draw.bets.push(Bet { bettor, upline, bet_number, tx_hash });
        new_draw.jackpot = new_draw.jackpot + to_jackpot;
        new_draw.rebate = new_draw.rebate + to_rebate;
        proof {
            let d = old(self)@.draws[idx as int];
            assert(new_draw@.bets =~= d.bets.push(
                BetView { bettor, upline, bet_number, tx_hash: tx_hash@ },
            ));
            assert(new_draw@ =~= (DrawView {
                bets: d.bets.push(BetView { bettor, upline, bet_number, tx_hash: tx_hash@ }),
                jackpot: (d.jackpot + jackpot_share(d.bet_amount)) as u128,
                rebate: (d.rebate + rebate_share(d.bet_amount)) as u128,
                ..d
            }));
        }
        self.draws.set(idx, new_draw);
        proof {
            let (post, res) = old(self)@.spec_add_bet(
                ctx,
                draw_number,
                bet_number,
                bettor,
                upline,
                tx_hash@,
            );
            assert(self@.draws =~= old(self)@.draws.update(idx as int, new_draw@));
            assert(self@ =~= post);
            assert(transfers@ =~= res->Ok_0);
        }
        Ok(transfers)
    }

    /// Settles a draw: pays the jackpot to the winners and their
    /// referrers, the rebate to all bettors, clears the ledger and
    /// returns the draw to closed; operator-only, gated by the draw's
    /// closing block. With no winner the jackpot carries to the next
    /// cycle; indivisible remainders stay in the host's custody.
    pub fn close_draw(&mut self, ctx: ExecContext, draw_number: u32) -> (r: Result<
        Vec<Transfer>,
        Error,
    >)
        requires
            old(self)@.wf(),
            ({
                let d = old(self)@.draws[first_match(old(self)@.draws, draw_number)];
                old(self)@.spec_close_draw(ctx, draw_number).1 is Ok && spec_winners(
                    d.bets,
                    d.winning_number,
                    d.draw_number,
                ).len() > 0 ==> d.jackpot * 90 <= u128::MAX
            }),
        ensures
            final(self)@.wf(),
            ({
                let (post, res) = old(self)@.spec_close_draw(ctx, draw_number);
                &&& final(self)@ == post
                &&& (r is Ok <==> res is Ok)
                &&& (r is Ok ==> r->Ok_0@ == res->Ok_0)
                &&& (r is Err ==> r->Err_0 == res->Err_0)
            }),
            r is Ok ==> ({
                let i = first_match(old(self)@.draws, draw_number);
                let d = old(self)@.draws[i];
                let count_winners = spec_winners(d.bets, d.winning_number, d.draw_number).len();
                &&& final(self)@.draws[i].rebate == 0
                &&& final(self)@.draws[i].bets.len() == 0
                &&& final(self)@.draws[i].status == DrawStatus::Close
                &&& !final(self)@.draws[i].is_open
                &&& (count_winners == 0 ==> final(self)@.draws[i].jackpot == d.jackpot)
                &&& (count_winners > 0 ==> final(self)@.draws[i].jackpot == 0)
            }),
    {
        if ctx.caller != self.lottery_setup.operator {
            return Err(Error::BadOrigin);
        }
        let idx = match find_draw_index(&self.draws, draw_number) {
            Some(i) => i,
            None => {
                return Err(Error::DrawNotFound);
            },
        };
        proof {
            lemma_first_match_is(self@.draws, draw_number, idx as int);
        }
        if (ctx.block_number as u64) < (self.lottery_setup.starting_block as u64)
            + (self.draws[idx].closing_blocks as u64) {
            return Err(Error::InvalidBlock);
        }
        let operator = self.lottery_setup.operator;
        let asset_id = self.lottery_setup.asset_id;
        let d = self.draws[idx].clone();
        let ghost dv = old(self)@.draws[idx as int];
        proof {
            assert(d@ == dv);
        }
        let winning_number = d.winning_number;
        let ghost base = spec_winners(dv.bets, dv.winning_number, dv.draw_number);

        // Select the winning bets, in ledger order.
        let bet_count = d.bets.len();
        let mut count_winners: usize = 0;
        for i in 0..bet_count
            invariant
                bet_count == d.bets.len(),
                d@ == dv,
                count_winners <= i,
                winning_number == dv.winning_number,
                count_winners == spec_winners(
                    dv.bets.take(i as int),
                    dv.winning_number,
                    dv.draw_number,
                ).len(),
        {
            proof {
                assert(dv.bets.take(i as int + 1).drop_last() =~= dv.bets.take(i as int));
                assert(dv.bets.take(i as int + 1).last() == dv.bets[i as int]);
            }
            if d.bets[i].bet_number == winning_number {
                count_winners = count_winners + 1;
            }
        }
        proof {
            assert(dv.bets.take(bet_count as int) =~= dv.bets);
            assert(count_winners == base.len());
        }

        // Split the jackpot: 90% to the winners, 10% to their referrers,
        // in equal integer shares; remainders are retained.
        let (bettor_share, upline_share): (u128, u128) = if count_winners > 0 {
            let jackpot_payout = d.jackpot * 90 / 100;
            let upline_pool = d.jackpot * 10 / 100;
            (jackpot_payout / (count_winners as u128), upline_pool / (count_winners as u128))
        } else {
            (0, 0)
        };
        let ghost shared = assign_shares(base, bettor_share, upline_share);

        // Wrap the winning bets into winner records with their shares.
        let mut winners: Vec<Winner> = Vec::new();
        for i in 0..bet_count
            invariant
                bet_count == d.bets.len(),
                d@ == dv,
                winning_number == dv.winning_number,
                shared == assign_shares(base, bettor_share, upline_share),
                base == spec_winners(dv.bets, dv.winning_number, dv.draw_number),
                winners@.map_values(|w: Winner| w@) == assign_shares(
                    spec_winners(dv.bets.take(i as int), dv.winning_number, dv.draw_number),
                    bettor_share,
                    upline_share,
                ),
        {
            proof {
                assert(dv.bets.take(i as int + 1).drop_last() =~= dv.bets.take(i as int));
                assert(dv.bets.take(i as int + 1).last() == dv.bets[i as int]);
                assert(d.bets@[i as int]@ == dv.bets[i as int]);
            }
            if d.bets[i].bet_number == winning_number {
                proof {
                    assert(spec_winners(
                        dv.bets.take(i as int + 1),
                        dv.winning_number,
                        dv.draw_number,
                    ) == spec_winners(
                        dv.bets.take(i as int),
                        dv.winning_number,
                        dv.draw_number,
                    ).push(winner_of(dv.bets[i as int], dv.draw_number)));
                }
                let tx_hash = d.bets[i].tx_hash.clone();
                proof {
                    assert(tx_hash@ =~= d.bets@[i as int].tx_hash@);
                }
                let new_winner = Winner {
                    draw_number: d.draw_number,
                    bettor: d.bets[i].bettor,
                    upline: d.bets[i].upline,
                    bet_number: d.bets[i].bet_number,
                    tx_hash,
                    bettor_share,
                    upline_share,
                };
                proof {
                    assert(new_winner@ =~= (WinnerView {
                        bettor_share,
                        upline_share,
                        ..winner_of(dv.bets[i as int], dv.draw_number)
                    }));
                }
                let ghost pre_winners = winners@;
                winners.push(new_winner);
                proof {
                    pre_winners.lemma_push_map_commute(|w: Winner| w@, new_winner);
                    spec_winners(
                        dv.bets.take(i as int),
                        dv.winning_number,
                        dv.draw_number,
                    ).lemma_push_map_commute(
                        |w: WinnerView| WinnerView { bettor_share, upline_share, ..w },
                        winner_of(dv.bets[i as int], dv.draw_number),
                    );
                    assert(winners@.map_values(|w: Winner| w@) =~= assign_shares(
                        spec_winners(
                            dv.bets.take(i as int + 1),
                            dv.winning_number,
                            dv.draw_number,
                        ),
                        bettor_share,
                        upline_share,
                    ));
                }
            } else {
                proof {
                    assert(winners@.map_values(|w: Winner| w@) =~= assign_shares(
                        spec_winners(
                            dv.bets.take(i as int + 1),
                            dv.winning_number,
                            dv.draw_number,
                        ),
                        bettor_share,
                        upline_share,
                    ));
                }
            }
        }
        proof {
            assert(dv.bets.take(bet_count as int) =~= dv.bets);
            assert(winners@.map_values(|w: Winner| w@) == shared);
        }

        // Issue the jackpot payout lines, two per winner.
        let mut transfers: Vec<Transfer> = Vec::new();
        let winner_count = winners.len();
        for k in 0..winner_count
            invariant
                winner_count == winners.len(),
                d@ == dv,
                winners@.map_values(|w: Winner| w@) == shared,
                transfers@ == winner_payout_transfers(shared, dv.bets, operator, asset_id).take(
                    2 * k as int,
                ),
        {
            proof {
                assert(winners@.map_values(|w: Winner| w@)[k as int] == winners@[k as int]@);
            }
            transfers.push(
                Transfer { asset_id, to: winners[k].bettor, amount: winners[k].bettor_share },
            );
            let target = if bets_contain(&d.bets, winners[k].upline) {
                winners[k].upline
            } else {
                operator
            };
            transfers.push(
                Transfer { asset_id, to: target, amount: winners[k].upline_share },
            );
            proof {
                let full = winner_payout_transfers(shared, dv.bets, operator, asset_id);
                assert((2 * (k as int)) % 2 == 0);
                assert((2 * (k as int)) / 2 == k as int);
                assert((2 * (k as int) + 1) % 2 == 1);
                assert((2 * (k as int) + 1) / 2 == k as int);
                assert(transfers@ =~= full.take(2 * (k as int) + 2));
            }
        }
        proof {
            let full = winner_payout_transfers(shared, dv.bets, operator, asset_id);
            assert(full.take(2 * winner_count as int) =~= full);
        }

        // Issue the rebate lines: the same amount to every bettor.
        let ghost payout = winner_payout_transfers(shared, dv.bets, operator, asset_id);
        let ghost spec_per = if bet_count > 0 {
            (dv.rebate as int / bet_count as int) as u128
        } else {
            0u128
        };
        if bet_count > 0 {
            let per_bettor = d.rebate / (bet_count as u128);
            proof {
                assert(per_bettor == spec_per);
            }
            for i in 0..bet_count
                invariant
                    bet_count == d.bets.len(),
                    d@ == dv,
                    per_bettor == spec_per,
                    transfers@ == payout + rebate_transfers(dv.bets, spec_per, asset_id).take(
                        i as int,
                    ),
            {
                transfers.push(Transfer { asset_id, to: d.bets[i].bettor, amount: per_bettor });
                proof {
                    assert(transfers@ =~= payout + rebate_transfers(
                        dv.bets,
                        spec_per,
                        asset_id,
                    ).take(i as int + 1));
                }
            }
            proof {
                let rebates = rebate_transfers(dv.bets, spec_per, asset_id);
                assert(rebates.take(bet_count as int) =~= rebates);
            }
        } else {
            proof {
                assert(transfers@ =~= payout + rebate_transfers(dv.bets, spec_per, asset_id));
            }
        }

        // Commit: reset the accumulators and the ledger, persist the
        // winners, and return the draw to closed.
        let new_draw = Draw {
            draw_number: d.draw_number,
            opening_blocks: d.opening_blocks,
            processing_blocks: d.processing_blocks,
            closing_blocks: d.closing_blocks,
            bet_amount: d.bet_amount,
            jackpot: if count_winners > 0 {
                0
            } else {
                d.jackpot
            },
            rebate: 0,
            bets: Vec::new(),
            winning_number: d.winning_number,
            winners,
            status: DrawStatus::Close,
            is_open: false,
        };
        proof {
            assert(new_draw@.bets =~= Seq::<BetView>::empty());
            let (post, res) = old(self)@.spec_close_draw(ctx, draw_number);
            assert(new_draw@ =~= post.draws[idx as int]);
        }
        self.draws.set(idx, new_draw);
        proof {
            let (post, res) = old(self)@.spec_close_draw(ctx, draw_number);
            assert(self@.draws =~= old(self)@.draws.update(idx as int, new_draw@));
            assert(self@ =~= post);
            assert(transfers@ =~= res->Ok_0);
        }
        Ok(transfers)
    }

    /// Returns the bet ledger of the given draw, or an empty sequence if
    /// no draw carries the number.
    pub fn get_bets(&self, draw_number: u32) -> (r: Vec<Bet>)
        ensures
            has_draw(self@.draws, draw_number) ==> r@.map_values(|b: Bet| b@) == self@.draws[
                first_match(self@.draws, draw_number)].bets,
            !has_draw(self@.draws, draw_number) ==> r@.len() == 0,
    {
        match find_draw_index(&self.draws, draw_number) {
            Some(i) => {
                proof {
                    lemma_first_match_is(self@.draws, draw_number, i as int);
                }
                let r = self.draws[i].bets.clone();
                proof {
                    assert(r@.map_values(|b: Bet| b@) =~= self@.draws[i as int].bets);
                }
                r
            },
            None => Vec::new(),
        }
    }
}

} // verus!
