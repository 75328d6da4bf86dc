//! Argument checks for the windowed statistics.
//!
//! The statistics themselves run over floating-point values, which this
//! library does not hold; what it does decide is which argument combinations
//! are accepted, and with which error each invalid combination is refused.

use vstd::prelude::*;

use crate::StatsError;

verus! {

/// A window is usable exactly when it is non-zero and no larger than the
/// input: every position from `window - 1` on then has a full window.
pub open spec fn spec_window_ok(len: nat, window: nat) -> bool {
    1 <= window <= len
}

/// Accept or refuse a window for an input of `len` values: `Ok` exactly when
/// the window is non-zero and no larger than the input, `InvalidWindow`
/// otherwise.
pub fn check_window(len: usize, window: usize) -> (r: Result<(), StatsError>)
    ensures
        r matches Ok(u) <==> spec_window_ok(len as nat, window as nat),
        r matches Err(e) ==> e == StatsError::InvalidWindow && (window == 0 || window > len),
{
    if window == 0 || len < window {
        Err(StatsError::InvalidWindow)
    } else {
        Ok(())
    }
}

/// Accept or refuse the arguments of the exponential moving average. The
/// caller evaluates the floating-point range test `0.0 <= alpha <= 1.0` and
/// passes its outcome as `alpha_in_range`; this function decides the error:
/// an empty input is refused as `EmptyInput`, then a smoothing factor outside
/// the unit interval as `InvalidAlpha`.
pub fn check_ema_args(len: usize, alpha_in_range: bool) -> (r: Result<(), StatsError>)
    ensures
        r matches Ok(u) <==> (len > 0 && alpha_in_range),
        r matches Err(e) ==> (e == StatsError::EmptyInput && len == 0) || (
        e == StatsError::InvalidAlpha && len > 0 && !alpha_in_range),
{
    if len == 0 {
        Err(StatsError::EmptyInput)
    } else if !alpha_in_range {
        Err(StatsError::InvalidAlpha)
    } else {
        Ok(())
    }
}

} // verus!
