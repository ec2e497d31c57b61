//! Fees, conversions and the checks on plain values.

use indie_games::constants::PaymentToken;
use indie_games::error::{IndieGamesError, ProgramError};
use indie_games::helpers::{
    fee_ceil, fee_floor, power_of_ten, protocol_fee, split_protocol_fee, token_decimals,
    usd_cents_to_base_units, usd_value, validate_dev_fee_bps,
};
use indie_games::processor::payment::{split_ranked_fee, RankedFee};

#[test]
fn fees_round_up_and_down() {
    assert_eq!(fee_ceil(10_001, 100), 101);
    assert_eq!(fee_floor(10_001, 100), 100);
    assert_eq!(fee_ceil(0, 10_000), 0);
    assert_eq!(fee_floor(u64::MAX, 10_000), u64::MAX);
    assert_eq!(fee_ceil(u64::MAX, 10_000), u64::MAX);
}

#[test]
fn fees_above_the_whole_keep_the_low_bits() {
    let exact = (u64::MAX as u128) * 65_535 / 10_000;
    assert_eq!(fee_floor(u64::MAX, u16::MAX), exact as u64);
    let up = ((u64::MAX as u128) * 65_535 + 9_999) / 10_000;
    assert_eq!(fee_ceil(u64::MAX, u16::MAX), up as u64);
}

#[test]
fn protocol_fee_is_rounded_up() {
    assert_eq!(protocol_fee(250, 1_001), 26);
    assert_eq!(protocol_fee(0, 1_001), 0);
}

#[test]
fn split_sums_and_leaves_dust_to_developer() {
    assert_eq!(split_protocol_fee(1_001, 2_000), (801, 200));
    assert_eq!(split_protocol_fee(7, 0), (7, 0));
    assert_eq!(split_protocol_fee(7, 10_000), (0, 7));
    assert_eq!(split_protocol_fee(7, 20_000), (0, 7));
    assert_eq!(split_protocol_fee(u64::MAX, 3_333), {
        let p = ((u64::MAX as u128) * 3_333 / 10_000) as u64;
        (u64::MAX - p, p)
    });
}

#[test]
fn whole_and_empty_shares() {
    assert_eq!(fee_floor(12_345, 10_000), 12_345);
    assert_eq!(fee_floor(12_345, 0), 0);
    assert!(fee_floor(12_345, 300) <= fee_floor(12_346, 301));
}

#[test]
fn conversion_rounds_up() {
    // $1.00 at $150 per SOL
    assert_eq!(usd_cents_to_base_units(100, 150_000_000, 9), Ok(6_666_667));
    // one unit less is not worth a dollar
    assert!(6_666_666u128 * 150_000_000 < 100 * 10_000 * 1_000_000_000);
    assert!(6_666_667u128 * 150_000_000 >= 100 * 10_000 * 1_000_000_000);
    assert_eq!(usd_cents_to_base_units(0, 150_000_000, 9), Ok(0));
}

#[test]
fn conversion_to_usdc_is_exact() {
    assert_eq!(usd_cents_to_base_units(123, 1_000_000, 6), Ok(1_230_000));
}

#[test]
fn conversion_is_monotone() {
    let base = usd_cents_to_base_units(100, 150_000_000, 9).unwrap();
    assert!(base <= usd_cents_to_base_units(101, 150_000_000, 9).unwrap());
    assert!(base <= usd_cents_to_base_units(100, 149_000_000, 9).unwrap());
}

#[test]
fn conversion_refuses_zero_price_and_overflow() {
    assert_eq!(usd_cents_to_base_units(1, 0, 9), Err(ProgramError::InvalidAccountData));
    assert_eq!(usd_cents_to_base_units(u64::MAX, 1, 9), Err(ProgramError::ArithmeticOverflow));
    assert_eq!(usd_cents_to_base_units(u64::MAX, u64::MAX, 38), Err(ProgramError::ArithmeticOverflow));
    assert_eq!(usd_cents_to_base_units(u64::MAX, u64::MAX, 9), Ok(10_000_000_000_000));
}

#[test]
fn charge_is_worth_the_cost() {
    let units = usd_cents_to_base_units(100, 7_777_777, 6).unwrap();
    assert!(usd_value(units, 7_777_777, 6) >= 1_000_000);
}

#[test]
fn charges_in_parts_add_up() {
    let whole = usd_cents_to_base_units(110, 7_777_777, 6).unwrap();
    let parts = usd_cents_to_base_units(100, 7_777_777, 6).unwrap()
        + usd_cents_to_base_units(8, 7_777_777, 6).unwrap()
        + usd_cents_to_base_units(2, 7_777_777, 6).unwrap();
    assert!(whole <= parts && parts <= whole + 2);
}

#[test]
fn value_is_rounded_down_and_capped() {
    assert_eq!(usd_value(1_500_000, 2_000_001, 6), 3_000_001);
    assert_eq!(usd_value(u64::MAX, u64::MAX, 0), u64::MAX);
    assert_eq!(usd_value(3, 5, 0), 15);
}

#[test]
fn powers_of_ten() {
    assert_eq!(power_of_ten(0), 1);
    assert_eq!(power_of_ten(9), 1_000_000_000);
    assert_eq!(power_of_ten(38), 10u128.pow(38));
}

#[test]
fn developer_fee_range() {
    assert_eq!(validate_dev_fee_bps(999), Err(ProgramError::InvalidInstructionData));
    assert_eq!(validate_dev_fee_bps(1_000), Ok(()));
    assert_eq!(validate_dev_fee_bps(10_000), Ok(()));
    assert_eq!(validate_dev_fee_bps(10_001), Err(ProgramError::InvalidInstructionData));
}

#[test]
fn decimals_of_tokens() {
    assert_eq!(token_decimals(&PaymentToken::SOL), 9);
    assert_eq!(token_decimals(&PaymentToken::SKR), 6);
    assert_eq!(token_decimals(&PaymentToken::SLICE), 6);
    assert_eq!(token_decimals(&PaymentToken::USDC), 6);
}

#[test]
fn ranked_fee_is_a_tenth_and_is_split() {
    assert_eq!(
        split_ranked_fee(1_005, 7_500, 2_500),
        Ok(RankedFee { fee: 100, dev_cut: 75, protocol_cut: 25 })
    );
    // the dust of the division goes to the protocol
    assert_eq!(
        split_ranked_fee(1_010, 7_500, 2_500),
        Ok(RankedFee { fee: 101, dev_cut: 75, protocol_cut: 26 })
    );
}

#[test]
fn ranked_fee_errors() {
    assert_eq!(split_ranked_fee(1, 65_535, 1), Err(ProgramError::ArithmeticOverflow));
    assert_eq!(split_ranked_fee(1, 5_000, 4_999), Err(ProgramError::InvalidInstructionData));
    assert_eq!(split_ranked_fee(u64::MAX, 5_000, 5_000), Err(ProgramError::ArithmeticOverflow));
}

#[test]
fn errors_have_codes_and_messages() {
    assert_eq!(ProgramError::from(IndieGamesError::InvalidInstruction), ProgramError::Custom(0));
    assert_eq!(ProgramError::from(IndieGamesError::Unauthorized), ProgramError::Custom(6));
    assert_eq!(ProgramError::from(IndieGamesError::MaxParticipantsReached), ProgramError::Custom(12));
    assert_eq!(IndieGamesError::StringTooLong.message(), "String exceeds the maximum allowed length");
    assert_eq!(
        IndieGamesError::RankedGameNotCreated.message(),
        "Ranked game must be in Created state"
    );
}
