use genesis_txs::decimal::parse_decimal;
use genesis_txs::parameters::{
    estimate_max_block_time_from_blocks, estimate_max_block_time_from_blocks_and_params,
    estimate_max_block_time_from_parameters, ReadError,
};
use genesis_txs::timeouts::{Duration, Error, SleepStrategy};
use genesis_txs::txs::{Dec, DenominatedAmount};

#[test]
fn constant_sleep_keeps_backoff() {
    let strategy = SleepStrategy::Constant(Duration { millis: 250 });
    let mut backoff = Duration { millis: 0 };
    assert_eq!(strategy.sleep_update(&mut backoff), Duration { millis: 250 });
    assert_eq!(strategy.sleep_update(&mut backoff), Duration { millis: 250 });
    assert_eq!(backoff, Duration { millis: 0 });
}

#[test]
fn linear_backoff_grows() {
    let strategy = SleepStrategy::LinearBackoff { delta: Duration { millis: 100 } };
    let mut backoff = Duration { millis: 0 };
    assert_eq!(strategy.sleep_update(&mut backoff), Duration { millis: 100 });
    assert_eq!(strategy.sleep_update(&mut backoff), Duration { millis: 200 });
    assert_eq!(strategy.sleep_update(&mut backoff), Duration { millis: 300 });
    assert_eq!(backoff, Duration { millis: 300 });
}

#[test]
fn timeout_error_is_elapsed() {
    assert_eq!(Error::Elapsed, Error::Elapsed);
}

#[test]
fn block_time_from_parameters() {
    assert_eq!(estimate_max_block_time_from_parameters(3600, 1, 365), Ok(86_400));
    assert_eq!(estimate_max_block_time_from_parameters(100_000, 10, 365), Ok(10_000));
    assert_eq!(estimate_max_block_time_from_parameters(3600, 0, 365), Err(ReadError::DivisionByZero));
    assert_eq!(estimate_max_block_time_from_parameters(3600, 1, 0), Err(ReadError::DivisionByZero));
}

#[test]
fn block_time_from_blocks() {
    assert_eq!(estimate_max_block_time_from_blocks(&vec![]), None);
    assert_eq!(estimate_max_block_time_from_blocks(&vec![5]), None);
    assert_eq!(estimate_max_block_time_from_blocks(&vec![5, 9, 10, 17, 18]), Some(7));
    assert_eq!(estimate_max_block_time_from_blocks(&vec![10, 5, 8]), Some(3));
    assert_eq!(estimate_max_block_time_from_blocks(&vec![10, 5]), Some(0));
    assert_eq!(
        estimate_max_block_time_from_blocks_and_params(&vec![0, 100_000], 3600, 1, 365),
        Ok(100_000)
    );
    assert_eq!(estimate_max_block_time_from_blocks_and_params(&vec![0, 5], 3600, 1, 365), Ok(86_400));
    assert_eq!(estimate_max_block_time_from_blocks_and_params(&vec![], 3600, 1, 365), Ok(86_400));
}


#[test]
fn decimals_are_read() {
    assert_eq!(parse_decimal("1000.25"), Some((100_025, 2)));
    assert_eq!(parse_decimal("7"), Some((7, 0)));
    assert_eq!(parse_decimal("0.000"), Some((0, 3)));
    assert_eq!(parse_decimal(""), None);
    assert_eq!(parse_decimal(".5"), None);
    assert_eq!(parse_decimal("5."), None);
    assert_eq!(parse_decimal("1.2.3"), None);
    assert_eq!(parse_decimal("1a"), None);
    assert_eq!(parse_decimal("-1"), None);
    assert_eq!(parse_decimal("340282366920938463463374607431768211456"), None);
    assert_eq!(
        parse_decimal("340282366920938463463374607431768211455"),
        Some((u128::MAX, 0))
    );
    assert_eq!(
        DenominatedAmount::from_decimal("12.5"),
        Some(DenominatedAmount { amount: 125, denom: 1 })
    );
    assert_eq!(Dec::from_decimal("0.05"), Some(Dec { raw: 50_000_000_000 }));
    assert_eq!(Dec::from_decimal("1"), Some(Dec { raw: 1_000_000_000_000 }));
    assert_eq!(Dec::from_decimal("0.0000000000001"), None);
}
