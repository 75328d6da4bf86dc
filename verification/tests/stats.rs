use timeseries_kernel::stats::{check_ema_args, check_window};
use timeseries_kernel::StatsError;

#[test]
fn window_zero_is_invalid() {
    assert_eq!(check_window(5, 0).unwrap_err(), StatsError::InvalidWindow);
}

#[test]
fn window_larger_than_input_is_invalid() {
    assert_eq!(check_window(5, 6).unwrap_err(), StatsError::InvalidWindow);
    assert_eq!(check_window(0, 1).unwrap_err(), StatsError::InvalidWindow);
}

#[test]
fn window_up_to_input_length_is_valid() {
    assert!(check_window(5, 1).is_ok());
    assert!(check_window(5, 3).is_ok());
    assert!(check_window(5, 5).is_ok());
}

#[test]
fn ema_empty_input_is_refused_first() {
    assert_eq!(check_ema_args(0, true).unwrap_err(), StatsError::EmptyInput);
    assert_eq!(check_ema_args(0, false).unwrap_err(), StatsError::EmptyInput);
}

#[test]
fn ema_alpha_out_of_range_is_invalid() {
    assert_eq!(check_ema_args(4, false).unwrap_err(), StatsError::InvalidAlpha);
    let below = -0.5f64;
    let above = 1.5f64;
    assert_eq!(
        check_ema_args(4, 0.0 <= below && below <= 1.0).unwrap_err(),
        StatsError::InvalidAlpha
    );
    assert_eq!(
        check_ema_args(4, 0.0 <= above && above <= 1.0).unwrap_err(),
        StatsError::InvalidAlpha
    );
}

#[test]
fn ema_valid_arguments_pass() {
    let alpha = 0.5f64;
    assert!(check_ema_args(4, 0.0 <= alpha && alpha <= 1.0).is_ok());
    assert!(check_ema_args(1, true).is_ok());
}
