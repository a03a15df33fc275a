//! Parameter validation for the timer trigger kind.
//!
//! A timer trigger needs one field, the tick interval in milliseconds, and
//! an interval under twenty milliseconds is refused.

use vstd::prelude::*;

verus! {

/// The validated connection parameters of a timer trigger.
#[derive(Clone, Debug)]
pub struct TimerInfo {
    pub timer_interval: u64,
}

/// The raw interval field as it arrived in the request: whether it was
/// present, whether it was a number, and its value where one could be read.
#[derive(Clone, Copy, Debug)]
pub struct TimerParams {
    pub field_present: bool,
    pub field_is_number: bool,
    pub interval_ms: Option<i64>,
}

/// The smallest interval a timer trigger accepts, in milliseconds.
pub open spec fn spec_min_timer_interval() -> int {
    20
}

/// Whether raw timer parameters pass validation.
pub open spec fn timer_params_valid(p: TimerParams) -> bool {
    &&& p.field_present
    &&& p.field_is_number
    &&& p.interval_ms matches Some(i) && i >= spec_min_timer_interval()
}

/// Validate the raw interval field: it must be present, a number, readable,
/// and at least twenty milliseconds.
pub fn validate_timer_info(p: &TimerParams) -> (r: Result<TimerInfo, String>)
    ensures
        r is Ok <==> timer_params_valid(*p),
        r matches Ok(info) ==> Some(info.timer_interval as i64) == p.interval_ms,
        !(p.field_present && p.field_is_number) ==> (r matches Err(e) && e@
            == "One of the required fields, 'timer_interval_ms' is missing"@),
        p.field_present && p.field_is_number && p.interval_ms is None ==> (r matches Err(e) && e@
            == "Unable to parse 'timer_interval_ms' field"@),
        p.field_present && p.field_is_number && (p.interval_ms matches Some(i) && i
            < spec_min_timer_interval()) ==> (r matches Err(e) && e@
            == "Timer interval must be >= 20ms"@),
{
    if !(p.field_present && p.field_is_number) {
        return Err("One of the required fields, 'timer_interval_ms' is missing".to_owned());
    }
    match p.interval_ms {
        None => Err("Unable to parse 'timer_interval_ms' field".to_owned()),
        Some(interval) => {
            if interval < 20 {
                Err("Timer interval must be >= 20ms".to_owned())
            } else {
                Ok(TimerInfo { timer_interval: interval as u64 })
            }
        },
    }
}

} // verus!
