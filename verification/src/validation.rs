//! The validators that the ledgers share: amounts, percentages, durations
//! and commitment types.

use vstd::prelude::*;

verus! {

/// Whether `tag` names one of the three commitment types.
pub open spec fn spec_valid_commitment_type(tag: Seq<char>) -> bool {
    tag == "safe"@ || tag == "balanced"@ || tag == "aggressive"@
}

/// Whether `value` is greater than zero.
pub fn is_positive(value: i128) -> (valid: bool)
    ensures
        valid == (value > 0),
{
    value > 0
}

/// Whether `value` is zero or greater.
pub fn is_non_negative(value: i128) -> (valid: bool)
    ensures
        valid == (value >= 0),
{
    value >= 0
}

/// Whether `percent` is a percentage: between 0 and 100.
pub fn is_valid_percent(percent: u32) -> (valid: bool)
    ensures
        valid == (percent <= 100),
{
    percent <= 100
}

/// Whether `duration_days` is a duration: at least one day.
pub fn is_valid_duration(duration_days: u32) -> (valid: bool)
    ensures
        valid == (duration_days > 0),
{
    duration_days > 0
}

/// Whether `tag` is `safe`, `balanced` or `aggressive`.
pub fn is_valid_commitment_type(tag: &String) -> (valid: bool)
    ensures
        valid == spec_valid_commitment_type(tag@),
{
    let safe = "safe".to_owned();
    let balanced = "balanced".to_owned();
    let aggressive = "aggressive".to_owned();
    *tag == safe || *tag == balanced || *tag == aggressive
}

} // verus!
