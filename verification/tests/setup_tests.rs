//! Configuration, start/stop and draw-management behaviour.

use lottery::engine::Lottery;
use lottery::errors::ContractError;
use lottery::errors::Error;
use lottery::errors::RuntimeError;
use lottery::state::ExecContext;
use lottery::state::DrawStatus;
use lottery::state::LotterySetup;

#[test]
fn default_works() {
    let alice: u128 = 1;
    let lottery = Lottery::default(alice);
    let lottery_setup = LotterySetup {
        operator: alice,
        dev: alice,
        asset_id: 1984u128,
        starting_block: 0u32,
        daily_total_blocks: 14_400u32,
        next_starting_block: 14_400u32,
        maximum_draws: 2u8,
        maximum_bets: 1_000u16,
        is_started: false,
    };
    assert_eq!(lottery.get_lottery_setup(), lottery_setup);
}

#[test]
fn start_lottery_works() {
    let alice: u128 = 1;
    let mut lottery = Lottery::new(alice, 1984u128, 14_400u32, 14_400u32, 2u8, 1_000u16, false);
    let ctx = ExecContext { caller: alice, block_number: 14_400, block_timestamp: 0 };
    let _ = lottery.start(ctx);
    let result = lottery.start(ctx);
    assert!(matches!(result, Err(Error::AlreadyStarted)));
    assert!(lottery.get_lottery_setup().is_started);
}

#[test]
fn setup_lottery_works() {
    let alice: u128 = 1;
    let bob: u128 = 2;
    let mut lottery = Lottery::new(alice, 1984u128, 14_400u32, 14_400u32, 2u8, 1_000u16, false);
    let ctx = ExecContext { caller: alice, block_number: 14_400, block_timestamp: 0 };
    let _ = lottery.start(ctx);
    let _ = lottery.setup(ctx, alice, 1984u128, 14_400u32, 14_400u32, 2u8, 1_000u16);

    let lottery_setup = LotterySetup {
        operator: alice,
        dev: alice,
        asset_id: 1984u128,
        starting_block: 14_400u32,
        daily_total_blocks: 14_400u32,
        next_starting_block: 28_800u32,
        maximum_draws: 2u8,
        maximum_bets: 1_000u16,
        is_started: true,
    };
    assert_eq!(lottery.get_lottery_setup(), lottery_setup);
    assert_eq!(lottery.lottery_setup.operator, alice);

    let bob_ctx = ExecContext { caller: bob, block_number: 14_400, block_timestamp: 0 };
    assert_eq!(
        lottery.setup(bob_ctx, alice, 1984u128, 14_400u32, 14_400u32, 2u8, 1_000u16),
        Err(Error::BadOrigin)
    );
    assert_eq!(lottery.get_lottery_setup(), lottery_setup);
}

#[test]
fn adding_and_removing_draw_works() {
    let alice: u128 = 1;
    let mut lottery = Lottery::new(alice, 1984u128, 14_400u32, 14_400u32, 2u8, 1_000u16, false);
    let ctx = ExecContext { caller: alice, block_number: 0, block_timestamp: 0 };

    let _ = lottery.add_draw(ctx, 1_000u32, 3_000u32, 3_500u32, 500_000);
    assert_eq!(lottery.draws.len(), 1);
    let first = &lottery.draws[0];
    assert_eq!(first.draw_number, 1);
    assert_eq!(first.opening_blocks, 1_000u32);
    assert_eq!(first.processing_blocks, 3_000u32);
    assert_eq!(first.closing_blocks, 3_500u32);
    assert_eq!(first.bet_amount, 500_000);
    assert_eq!(first.jackpot, 0);
    assert_eq!(first.rebate, 0);
    assert!(first.bets.is_empty());
    assert_eq!(first.winning_number, 0);
    assert!(first.winners.is_empty());
    assert_eq!(first.status, DrawStatus::Close);
    assert!(!first.is_open);

    let _ = lottery.add_draw(ctx, 1_000u32, 3_000u32, 3_500u32, 500_000);
    assert_eq!(lottery.draws.len(), 2);
    assert_eq!(lottery.draws[1].draw_number, 2);

    let _ = lottery.remove_draw(ctx);
    assert_eq!(lottery.draws.len(), 1);
    assert_eq!(lottery.draws[0].draw_number, 1);
}

#[test]
fn start_before_starting_block_fails() {
    let alice: u128 = 1;
    let mut lottery = Lottery::new(alice, 1984u128, 14_400u32, 14_400u32, 2u8, 1_000u16, false);
    let ctx = ExecContext { caller: alice, block_number: 14_399, block_timestamp: 0 };
    assert_eq!(lottery.start(ctx), Err(Error::InvalidBlock));
    assert!(!lottery.get_lottery_setup().is_started);
}

#[test]
fn stop_rolls_cycle_forward() {
    let alice: u128 = 1;
    let mut lottery = Lottery::new(alice, 1984u128, 100u32, 1_000u32, 2u8, 1_000u16, true);

    // Before the next cycle boundary stopping is refused.
    let early = ExecContext { caller: alice, block_number: 1_099, block_timestamp: 0 };
    assert_eq!(lottery.stop(early), Err(Error::InvalidBlock));
    assert!(lottery.get_lottery_setup().is_started);

    let late = ExecContext { caller: alice, block_number: 1_100, block_timestamp: 0 };
    assert_eq!(lottery.stop(late), Ok(()));
    let after = lottery.get_lottery_setup();
    assert!(!after.is_started);
    assert_eq!(after.starting_block, 1_100);
    assert_eq!(after.next_starting_block, 2_100);
}

#[test]
fn stop_fails_while_a_draw_is_open() {
    let alice: u128 = 1;
    let mut lottery = Lottery::new(alice, 1984u128, 0u32, 1_000u32, 2u8, 1_000u16, false);
    let ctx = ExecContext { caller: alice, block_number: 500, block_timestamp: 0 };
    let _ = lottery.add_draw(ctx, 100, 300, 400, 1_000);
    assert_eq!(lottery.open_draw(ctx, 1), Ok(()));
    let late = ExecContext { caller: alice, block_number: 10_000, block_timestamp: 0 };
    assert_eq!(lottery.stop(late), Err(Error::DrawOpen));
}

#[test]
fn add_draw_fails_at_capacity() {
    let alice: u128 = 1;
    let mut lottery = Lottery::new(alice, 1984u128, 0u32, 14_400u32, 2u8, 1_000u16, false);
    let ctx = ExecContext { caller: alice, block_number: 0, block_timestamp: 0 };
    assert_eq!(lottery.add_draw(ctx, 100, 300, 400, 1_000), Ok(()));
    assert_eq!(lottery.add_draw(ctx, 100, 300, 400, 1_000), Ok(()));
    assert_eq!(lottery.add_draw(ctx, 100, 300, 400, 1_000), Err(Error::TooManyDraws));
    assert_eq!(lottery.draws.len(), 2);
}

#[test]
fn add_draw_enforces_blocks_hierarchy() {
    let alice: u128 = 1;
    let mut lottery = Lottery::new(alice, 1984u128, 0u32, 1_000u32, 4u8, 1_000u16, false);
    let ctx = ExecContext { caller: alice, block_number: 0, block_timestamp: 0 };
    // Closing must stay below the cycle length.
    assert_eq!(lottery.add_draw(ctx, 100, 300, 1_000, 1_000), Err(Error::InvalidBlocksHierarchy));
    // Processing must stay below closing.
    assert_eq!(lottery.add_draw(ctx, 100, 400, 400, 1_000), Err(Error::InvalidBlocksHierarchy));
    // Opening must stay below processing.
    assert_eq!(lottery.add_draw(ctx, 300, 300, 400, 1_000), Err(Error::InvalidBlocksHierarchy));
    assert_eq!(lottery.draws.len(), 0);
    // The strict chain is accepted.
    assert_eq!(lottery.add_draw(ctx, 100, 300, 400, 1_000), Ok(()));
}

#[test]
fn draw_management_refused_while_started() {
    let alice: u128 = 1;
    let mut lottery = Lottery::new(alice, 1984u128, 0u32, 14_400u32, 2u8, 1_000u16, false);
    let ctx = ExecContext { caller: alice, block_number: 0, block_timestamp: 0 };
    assert_eq!(lottery.add_draw(ctx, 100, 300, 400, 1_000), Ok(()));
    assert_eq!(lottery.start(ctx), Ok(()));
    assert_eq!(lottery.add_draw(ctx, 100, 300, 400, 1_000), Err(Error::AlreadyStarted));
    assert_eq!(lottery.remove_draw(ctx), Err(Error::AlreadyStarted));
    assert_eq!(lottery.draws.len(), 1);
}

#[test]
fn remove_draw_without_records_fails() {
    let alice: u128 = 1;
    let mut lottery = Lottery::new(alice, 1984u128, 0u32, 14_400u32, 2u8, 1_000u16, false);
    let ctx = ExecContext { caller: alice, block_number: 0, block_timestamp: 0 };
    assert_eq!(lottery.remove_draw(ctx), Err(Error::NoRecords));
}

#[test]
fn operations_reject_non_operator() {
    let alice: u128 = 1;
    let bob: u128 = 2;
    let mut lottery = Lottery::new(alice, 1984u128, 0u32, 14_400u32, 2u8, 1_000u16, false);
    let ctx = ExecContext { caller: bob, block_number: 10_000, block_timestamp: 0 };
    assert_eq!(lottery.start(ctx), Err(Error::BadOrigin));
    assert_eq!(lottery.stop(ctx), Err(Error::BadOrigin));
    assert_eq!(lottery.add_draw(ctx, 100, 300, 400, 1_000), Err(Error::BadOrigin));
    assert_eq!(lottery.remove_draw(ctx), Err(Error::BadOrigin));
    assert_eq!(lottery.open_draw(ctx, 1), Err(Error::BadOrigin));
    assert_eq!(lottery.process_draw(ctx, 1), Err(Error::BadOrigin));
    assert_eq!(lottery.override_draw(ctx, 1, 7), Err(Error::BadOrigin));
    assert_eq!(lottery.add_draw_jackpot(ctx, 1, 10), Err(Error::BadOrigin));
    assert_eq!(lottery.close_draw(ctx, 1), Err(Error::BadOrigin));
    assert_eq!(
        lottery.add_bet(ctx, 1, 7, bob, 0, vec![1u8]),
        Err(Error::BadOrigin)
    );
}

#[test]
fn draw_numbers_grow_monotonically() {
    let alice: u128 = 1;
    let mut lottery = Lottery::new(alice, 1984u128, 0u32, 14_400u32, 4u8, 1_000u16, false);
    let ctx = ExecContext { caller: alice, block_number: 0, block_timestamp: 0 };
    let _ = lottery.add_draw(ctx, 100, 300, 400, 1_000);
    let _ = lottery.add_draw(ctx, 100, 300, 400, 1_000);
    let _ = lottery.add_draw(ctx, 100, 300, 400, 1_000);
    let numbers: Vec<u32> = lottery.get_draws().iter().map(|d| d.draw_number).collect();
    assert_eq!(numbers, vec![1, 2, 3]);

    // Removing the highest draw does not lower the high-water mark, so
    // its number is never reused: the next draw gets a fresh one.
    let _ = lottery.remove_draw(ctx);
    let _ = lottery.add_draw(ctx, 100, 300, 400, 1_000);
    let numbers: Vec<u32> = lottery.get_draws().iter().map(|d| d.draw_number).collect();
    assert_eq!(numbers, vec![1, 2, 4]);
    assert_eq!(lottery.last_draw_number, 4);
}

#[test]
fn default_draw_status_is_close() {
    assert_eq!(DrawStatus::default(), DrawStatus::Close);
}

#[test]
fn contract_error_wraps_both_kinds() {
    assert_eq!(
        ContractError::from(Error::BadOrigin),
        ContractError::Internal(Error::BadOrigin)
    );
    assert_eq!(
        ContractError::from(RuntimeError::CallRuntimeFailed),
        ContractError::Runtime(RuntimeError::CallRuntimeFailed)
    );
}
