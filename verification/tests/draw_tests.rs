//! Draw lifecycle behaviour: opening, processing, overriding, topping up.

use lottery::engine::Lottery;
use lottery::errors::Error;
use lottery::state::DrawStatus;
use lottery::state::ExecContext;

#[test]
fn open_draw_before_window_fails() {
    let alice: u128 = 1;
    let mut lottery = Lottery::new(alice, 1984u128, 1_000u32, 14_400u32, 2u8, 1_000u16, false);
    let setup_ctx = ExecContext { caller: alice, block_number: 0, block_timestamp: 0 };
    let _ = lottery.add_draw(setup_ctx, 100, 300, 400, 1_000);

    // Opening is allowed from starting_block + opening_blocks = 1_100 on.
    let early = ExecContext { caller: alice, block_number: 1_099, block_timestamp: 0 };
    assert_eq!(lottery.open_draw(early, 1), Err(Error::InvalidBlock));
    assert_eq!(lottery.draws[0].status, DrawStatus::Close);
    assert!(!lottery.draws[0].is_open);

    let on_time = ExecContext { caller: alice, block_number: 1_100, block_timestamp: 0 };
    assert_eq!(lottery.open_draw(on_time, 1), Ok(()));
    assert_eq!(lottery.draws[0].status, DrawStatus::Open);
    assert!(lottery.draws[0].is_open);
}

#[test]
fn open_draw_twice_fails() {
    let alice: u128 = 1;
    let mut lottery = Lottery::new(alice, 1984u128, 0u32, 14_400u32, 2u8, 1_000u16, false);
    let ctx = ExecContext { caller: alice, block_number: 500, block_timestamp: 0 };
    let _ = lottery.add_draw(ctx, 100, 300, 400, 1_000);
    assert_eq!(lottery.open_draw(ctx, 1), Ok(()));
    assert_eq!(lottery.open_draw(ctx, 1), Err(Error::DrawOpen));
}

#[test]
fn open_draw_unknown_number_fails() {
    let alice: u128 = 1;
    let mut lottery = Lottery::new(alice, 1984u128, 0u32, 14_400u32, 2u8, 1_000u16, false);
    let ctx = ExecContext { caller: alice, block_number: 500, block_timestamp: 0 };
    let _ = lottery.add_draw(ctx, 100, 300, 400, 1_000);
    assert_eq!(lottery.open_draw(ctx, 9), Err(Error::DrawNotFound));
}

#[test]
fn process_draw_sets_winning_number_from_seed() {
    let alice: u128 = 1;
    let mut lottery = Lottery::new(alice, 1984u128, 0u32, 14_400u32, 2u8, 1_000u16, false);
    let ctx = ExecContext { caller: alice, block_number: 150, block_timestamp: 0 };
    let _ = lottery.add_draw(ctx, 100, 300, 400, 1_000);
    assert_eq!(lottery.open_draw(ctx, 1), Ok(()));

    let process_ctx = ExecContext {
        caller: alice,
        block_number: 350,
        block_timestamp: 1_700_000_000_000,
    };
    assert_eq!(lottery.process_draw(process_ctx, 1), Ok(()));
    // Keccak-256 of the 12 seed bytes (timestamp, then salt 0, big-endian),
    // first two bytes little-endian, modulo 999, plus one.
    assert_eq!(lottery.draws[0].winning_number, 706);
    assert_eq!(lottery.draws[0].status, DrawStatus::Processing);
    assert!(!lottery.draws[0].is_open);
    assert_eq!(lottery.salt, 1);
}

#[test]
fn process_draw_zero_seed_has_expected_number() {
    let alice: u128 = 1;
    let mut lottery = Lottery::new(alice, 1984u128, 0u32, 14_400u32, 2u8, 1_000u16, false);
    let ctx = ExecContext { caller: alice, block_number: 500, block_timestamp: 0 };
    let _ = lottery.add_draw(ctx, 100, 300, 400, 1_000);
    assert_eq!(lottery.open_draw(ctx, 1), Ok(()));
    assert_eq!(lottery.process_draw(ctx, 1), Ok(()));
    // Keccak-256 of twelve zero bytes; a pass-through of the seed would
    // yield 1 here instead.
    assert_eq!(lottery.draws[0].winning_number, 962);
}

#[test]
fn salt_diversifies_same_timestamp() {
    let alice: u128 = 1;
    let mut lottery = Lottery::new(alice, 1984u128, 0u32, 14_400u32, 2u8, 1_000u16, false);
    let ctx = ExecContext { caller: alice, block_number: 500, block_timestamp: 0 };
    let _ = lottery.add_draw(ctx, 100, 300, 400, 1_000);
    let _ = lottery.add_draw(ctx, 100, 300, 400, 1_000);
    assert_eq!(lottery.open_draw(ctx, 1), Ok(()));
    assert_eq!(lottery.open_draw(ctx, 2), Ok(()));

    let process_ctx = ExecContext {
        caller: alice,
        block_number: 500,
        block_timestamp: 1_700_000_000_000,
    };
    assert_eq!(lottery.process_draw(process_ctx, 1), Ok(()));
    assert_eq!(lottery.process_draw(process_ctx, 2), Ok(()));
    // Same timestamp, salts 0 and 1: distinct outputs.
    assert_eq!(lottery.draws[0].winning_number, 706);
    assert_eq!(lottery.draws[1].winning_number, 137);
    assert_eq!(lottery.salt, 2);
}

#[test]
fn winning_number_always_in_range() {
    let alice: u128 = 1;
    let timestamps: Vec<u64> = vec![
        0,
        1,
        2,
        999,
        1_000,
        123_456_789,
        1_700_000_000_000,
        u64::MAX,
        u64::MAX - 1,
        42,
    ];
    for t in timestamps {
        let mut lottery = Lottery::new(alice, 1984u128, 0u32, 14_400u32, 2u8, 1_000u16, false);
        let ctx = ExecContext { caller: alice, block_number: 500, block_timestamp: t };
        let _ = lottery.add_draw(ctx, 100, 300, 400, 1_000);
        assert_eq!(lottery.open_draw(ctx, 1), Ok(()));
        assert_eq!(lottery.process_draw(ctx, 1), Ok(()));
        let n = lottery.draws[0].winning_number;
        assert!(1 <= n && n <= 999);
    }
}

#[test]
fn process_draw_requires_open_draw() {
    let alice: u128 = 1;
    let mut lottery = Lottery::new(alice, 1984u128, 0u32, 14_400u32, 2u8, 1_000u16, false);
    let ctx = ExecContext { caller: alice, block_number: 500, block_timestamp: 0 };
    let _ = lottery.add_draw(ctx, 100, 300, 400, 1_000);
    // Never opened: still closed.
    assert_eq!(lottery.process_draw(ctx, 1), Err(Error::DrawClosed));
    assert_eq!(lottery.open_draw(ctx, 1), Ok(()));
    assert_eq!(lottery.process_draw(ctx, 1), Ok(()));
    // Already processed: betting is stopped again.
    assert_eq!(lottery.process_draw(ctx, 1), Err(Error::DrawClosed));
}

#[test]
fn process_draw_before_processing_block_fails() {
    let alice: u128 = 1;
    let mut lottery = Lottery::new(alice, 1984u128, 0u32, 14_400u32, 2u8, 1_000u16, false);
    let ctx = ExecContext { caller: alice, block_number: 150, block_timestamp: 0 };
    let _ = lottery.add_draw(ctx, 100, 300, 400, 1_000);
    assert_eq!(lottery.open_draw(ctx, 1), Ok(()));
    let early = ExecContext { caller: alice, block_number: 299, block_timestamp: 0 };
    assert_eq!(lottery.process_draw(early, 1), Err(Error::InvalidBlock));
    assert_eq!(lottery.draws[0].status, DrawStatus::Open);
    assert_eq!(lottery.salt, 0);
}

#[test]
fn override_draw_replaces_winning_number() {
    let alice: u128 = 1;
    let mut lottery = Lottery::new(alice, 1984u128, 0u32, 14_400u32, 2u8, 1_000u16, false);
    let ctx = ExecContext { caller: alice, block_number: 500, block_timestamp: 0 };
    let _ = lottery.add_draw(ctx, 100, 300, 400, 1_000);
    // Only a processing draw may be overridden.
    assert_eq!(lottery.override_draw(ctx, 1, 7), Err(Error::DrawNotProcessing));
    assert_eq!(lottery.open_draw(ctx, 1), Ok(()));
    assert_eq!(lottery.override_draw(ctx, 1, 7), Err(Error::DrawNotProcessing));
    assert_eq!(lottery.process_draw(ctx, 1), Ok(()));
    assert_eq!(lottery.override_draw(ctx, 1, 7), Ok(()));
    assert_eq!(lottery.draws[0].winning_number, 7);
}

#[test]
fn add_draw_jackpot_only_while_closed() {
    let alice: u128 = 1;
    let mut lottery = Lottery::new(alice, 1984u128, 0u32, 14_400u32, 2u8, 1_000u16, false);
    let ctx = ExecContext { caller: alice, block_number: 500, block_timestamp: 0 };
    let _ = lottery.add_draw(ctx, 100, 300, 400, 1_000);
    assert_eq!(lottery.add_draw_jackpot(ctx, 1, 1_003), Ok(()));
    assert_eq!(lottery.draws[0].jackpot, 1_003);
    assert_eq!(lottery.open_draw(ctx, 1), Ok(()));
    assert_eq!(lottery.add_draw_jackpot(ctx, 1, 1), Err(Error::DrawNotClosed));
    assert_eq!(lottery.draws[0].jackpot, 1_003);
}

#[test]
fn get_bets_of_unknown_draw_is_empty() {
    let alice: u128 = 1;
    let lottery = Lottery::new(alice, 1984u128, 0u32, 14_400u32, 2u8, 1_000u16, false);
    assert!(lottery.get_bets(1).is_empty());
}
