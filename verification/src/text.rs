//! The short texts that the wallet shows for durations, fee rates, block
//! confirmations and other values that may be missing.
use vstd::prelude::*;
use crate::decimal::{decimal, push_decimal, push_zero_padded, zero_pad};
use crate::tally::sat_u64;

verus! {

/// How long `seconds` is, in the largest whole unit that fits: seconds below
/// a minute, then minutes, hours, days (`1 minute`, `2 minutes`, ...).
pub open spec fn duration_text(seconds: u64) -> Seq<char> {
    if seconds < 60 {
        decimal(seconds as nat) + " sec"@
    } else if seconds < 3_600 {
        if seconds / 60 == 1 {
            "1 minute"@
        } else {
            decimal((seconds / 60) as nat) + " minutes"@
        }
    } else if seconds < 86_400 {
        if seconds / 3_600 == 1 {
            "1 hour"@
        } else {
            decimal((seconds / 3_600) as nat) + " hours"@
        }
    } else {
        if seconds / 86_400 == 1 {
            "1 day"@
        } else {
            decimal((seconds / 86_400) as nat) + " days"@
        }
    }
}

/// `n` followed by `unit`.
fn number_with_unit(n: u64, unit: &str) -> (s: String)
    ensures
        s@ == decimal(n as nat) + unit@,
{
    let mut s = String::new();
    push_decimal(&mut s, n);
    s.append(unit);
    assert(s@ =~= decimal(n as nat) + unit@);
    s
}

/// How long `seconds` is; see `duration_text`.
pub fn format_duration(seconds: u64) -> (s: String)
    ensures
        s@ == duration_text(seconds),
{
    if seconds < 60 {
        number_with_unit(seconds, " sec")
    } else if seconds < 3_600 {
        let minutes = seconds / 60;
        if minutes == 1 {
            String::from_str("1 minute")
        } else {
            number_with_unit(minutes, " minutes")
        }
    } else if seconds < 86_400 {
        let hours = seconds / 3_600;
        if hours == 1 {
            String::from_str("1 hour")
        } else {
            number_with_unit(hours, " hours")
        }
    } else {
        let days = seconds / 86_400;
        if days == 1 {
            String::from_str("1 day")
        } else {
            number_with_unit(days, " days")
        }
    }
}

/// A number that may be missing: its decimal text, or `none`.
pub fn optional_u64_text(value: Option<u64>) -> (s: String)
    ensures
        s@ == (match value {
            Some(n) => decimal(n as nat),
            None => "none"@,
        }),
{
    match value {
        Some(n) => crate::decimal::decimal_string(n),
        None => String::from_str("none"),
    }
}

/// A duration that may be missing: `format_duration`, or `none`.
pub fn duration_value_text(value: Option<u64>) -> (s: String)
    ensures
        s@ == (match value {
            Some(n) => duration_text(n),
            None => "none"@,
        }),
{
    match value {
        Some(n) => format_duration(n),
        None => String::from_str("none"),
    }
}

/// An address or hash as the wallet shows it: in full.
pub fn short_text(value: &str) -> (s: String)
    ensures
        s@ == value@,
{
    String::from_str(value)
}

/// A flag that may be missing: `yes`, `no` or `unknown`.
pub fn bool_text(value: Option<bool>) -> (s: &'static str)
    ensures
        s@ == (match value {
            Some(true) => "yes"@,
            Some(false) => "no"@,
            None => "unknown"@,
        }),
{
    match value {
        Some(true) => "yes",
        Some(false) => "no",
        None => "unknown",
    }
}

/// The fee rate of a transaction in base units per virtual byte, with three
/// decimals (truncated) when it is not whole; `none` when the fee or the size
/// is missing and `infinite` for a size of 0.
pub open spec fn fee_rate_text(fee: Option<u64>, virtual_size: Option<u64>) -> Seq<char> {
    match (fee, virtual_size) {
        (Some(f), Some(v)) => if v == 0 {
            "infinite"@
        } else if f % v == 0 {
            decimal((f / v) as nat) + " paqus/vB"@
        } else {
            decimal((f / v) as nat) + seq!['.'] + zero_pad(
                decimal((sat_u64((f % v) * 1000) / v) as nat),
                3,
            ) + " paqus/vB"@
        },
        _ => "none"@,
    }
}

/// The fee rate of a transaction; see `fee_rate_text`.
pub fn tx_fee_rate_text(fee: Option<u64>, virtual_size: Option<u64>) -> (s: String)
    ensures
        s@ == fee_rate_text(fee, virtual_size),
{
    let f = match fee {
        Some(f) => f,
        None => {
            return String::from_str("none");
        },
    };
    let v = match virtual_size {
        Some(v) => v,
        None => {
            return String::from_str("none");
        },
    };
    if v == 0 {
        return String::from_str("infinite");
    }
    let whole = f / v;
    let fractional = f % v;
    if fractional == 0 {
        return number_with_unit(whole, " paqus/vB");
    }
    let product = match fractional.checked_mul(1_000) {
        Some(p) => p,
        None => u64::MAX,
    };
    let scaled = product / v;
    let mut s = String::new();
    push_decimal(&mut s, whole);
    crate::chars::push_char(&mut s, '.');
    push_zero_padded(&mut s, scaled, 3);
    s.append(" paqus/vB");
    assert(s@ =~= fee_rate_text(fee, virtual_size));
    s
}

/// The confirmations of a block: as the node gives them, or counted from the
/// block's height up to the tip (`tip - height + 1`, floored at 1); `unknown`
/// when neither can be had.
pub open spec fn confirmations_of(
    confirmations: Option<u64>,
    height: Option<u64>,
    tip_height: Option<u64>,
) -> Seq<char> {
    match confirmations {
        Some(c) => decimal(c as nat),
        None => match (height, tip_height) {
            (Some(h), Some(t)) => decimal(
                sat_u64((if t >= h { t - h } else { 0 }) + 1) as nat,
            ),
            _ => "unknown"@,
        },
    }
}

/// The confirmations of a block; see `confirmations_of`.
pub fn confirmations_text(
    confirmations: Option<u64>,
    height: Option<u64>,
    tip_height: Option<u64>,
) -> (s: String)
    ensures
        s@ == confirmations_of(confirmations, height, tip_height),
{
    if let Some(c) = confirmations {
        return crate::decimal::decimal_string(c);
    }
    let h = match height {
        Some(h) => h,
        None => {
            return String::from_str("unknown");
        },
    };
    match tip_height {
        Some(t) => {
            let behind = t.saturating_sub(h);
            let count = match behind.checked_add(1) {
                Some(c) => c,
                None => u64::MAX,
            };
            crate::decimal::decimal_string(count)
        },
        None => String::from_str("unknown"),
    }
}

/// How long ago something happened: the age the node gives, else the time
/// from `timestamp` to `now` (no time when the clock is not readable, as
/// `now` is then `None`); `unknown` without a timestamp.
pub open spec fn age_of(age_secs: Option<u64>, timestamp: Option<u64>, now: Option<u64>) -> Seq<
    char,
> {
    match age_secs {
        Some(a) => duration_text(a) + " ago"@,
        None => match timestamp {
            None => "unknown"@,
            Some(ts) => {
                let n = match now {
                    Some(n) => n,
                    None => ts,
                };
                duration_text(if n >= ts { (n - ts) as u64 } else { 0 }) + " ago"@
            },
        },
    }
}

/// How long ago a block was mined or a transaction made; see `age_of`.
pub fn age_text(age_secs: Option<u64>, timestamp: Option<u64>, now: Option<u64>) -> (s: String)
    ensures
        s@ == age_of(age_secs, timestamp, now),
{
    let seconds = match age_secs {
        Some(a) => a,
        None => match timestamp {
            None => {
                return String::from_str("unknown");
            },
            Some(ts) => {
                let n = match now {
                    Some(n) => n,
                    None => ts,
                };
                n.saturating_sub(ts)
            },
        },
    };
    let mut s = format_duration(seconds);
    s.append(" ago");
    s
}

/// The target time between blocks (300 seconds when the node does not say).
pub fn target_block_time_text(target_secs: Option<u64>) -> (s: String)
    ensures
        s@ == duration_text(
            match target_secs {
                Some(t) => t,
                None => 300,
            },
        ),
{
    let target = match target_secs {
        Some(t) => t,
        None => 300,
    };
    format_duration(target)
}

/// How long a block took: as the node gives it, else the time since the
/// block before it; `unknown` when neither can be had.
pub open spec fn block_time_of(
    block_time_secs: Option<u64>,
    timestamp: Option<u64>,
    previous_timestamp: Option<u64>,
) -> Seq<char> {
    match block_time_secs {
        Some(b) => duration_text(b),
        None => match (timestamp, previous_timestamp) {
            (Some(t), Some(p)) => duration_text(if t >= p { (t - p) as u64 } else { 0 }),
            _ => "unknown"@,
        },
    }
}

/// How long a block took; see `block_time_of`.
pub fn block_mined_text(
    block_time_secs: Option<u64>,
    timestamp: Option<u64>,
    previous_timestamp: Option<u64>,
) -> (s: String)
    ensures
        s@ == block_time_of(block_time_secs, timestamp, previous_timestamp),
{
    let seconds = match block_time_secs {
        Some(b) => b,
        None => match (timestamp, previous_timestamp) {
            (Some(t), Some(p)) => t.saturating_sub(p),
            _ => {
                return String::from_str("unknown");
            },
        },
    };
    format_duration(seconds)
}

/// The sum of the amounts that are present.
pub open spec fn present_sum(amounts: Seq<Option<u64>>) -> int
    decreases amounts.len(),
{
    if amounts.len() == 0 {
        0
    } else {
        present_sum(amounts.drop_last()) + match amounts.last() {
            Some(a) => a as int,
            None => 0,
        }
    }
}

/// The value that a block moved: as the node gives it, else the sum of its
/// transactions' amounts (those that have one); `unknown` without either.
/// `None` where that sum does not fit a `u64`.
#[verifier::loop_isolation(false)]
pub fn value_moved_text(value_moved: Option<u64>, amounts: Option<&Vec<Option<u64>>>) -> (r: Option<
    String,
>)
    ensures
        match value_moved {
            Some(v) => r matches Some(s) && s@ == decimal(v as nat),
            None => match amounts {
                None => r matches Some(s) && s@ == "unknown"@,
                Some(list) => if present_sum(list@) > u64::MAX {
                    r is None
                } else {
                    r matches Some(s) && s@ == decimal(present_sum(list@) as nat)
                },
            },
        },
{
    if let Some(v) = value_moved {
        return Some(crate::decimal::decimal_string(v));
    }
    let list = match amounts {
        Some(l) => l,
        None => {
            return Some(String::from_str("unknown"));
        },
    };
    let mut total: u64 = 0;
    let mut i: usize = 0;
    while i < list.len()
        invariant
            i <= list@.len(),
            total == present_sum(list@.take(i as int)),
        decreases list@.len() - i,
    {
        assert(list@.take(i + 1).drop_last() =~= list@.take(i as int));
        match list[i] {
            Some(a) => match total.checked_add(a) {
                Some(t) => {
                    total = t;
                },
                None => {
                    proof {
                        lemma_present_sum_prefix(list@, i + 1);
                    }
                    return None;
                },
            },
            None => {},
        }
        i = i + 1;
    }
    assert(list@.take(list@.len() as int) =~= list@);
    Some(crate::decimal::decimal_string(total))
}

proof fn lemma_present_sum_prefix(s: Seq<Option<u64>>, i: int)
    requires
        0 <= i <= s.len(),
    ensures
        present_sum(s.take(i)) <= present_sum(s),
    decreases s.len() - i,
{
    if i < s.len() {
        lemma_present_sum_prefix(s.drop_last(), i);
        assert(s.drop_last().take(i) =~= s.take(i));
    } else {
        assert(s.take(i) =~= s);
    }
}

/// The greatest of the values present in `s`, if any.
pub open spec fn max_present(s: Seq<Option<u64>>) -> Option<u64>
    decreases s.len(),
{
    if s.len() == 0 {
        None
    } else {
        match (max_present(s.drop_last()), s.last()) {
            (Some(a), Some(b)) => Some(if a >= b { a } else { b }),
            (Some(a), None) => Some(a),
            (None, b) => b,
        }
    }
}

/// The tip height that a list of latest blocks shows confirmations against:
/// the greatest block height the node gave, if it gave any.
pub fn latest_tip_height(heights: &[Option<u64>]) -> (r: Option<u64>)
    ensures
        r == max_present(heights@),
{
    let mut best: Option<u64> = None;
    let mut i: usize = 0;
    while i < heights.len()
        invariant
            i <= heights@.len(),
            best == max_present(heights@.take(i as int)),
        decreases heights@.len() - i,
    {
        assert(heights@.take(i as int + 1).drop_last() =~= heights@.take(i as int));
        best = match (best, heights[i]) {
            (Some(a), Some(b)) => Some(if a >= b { a } else { b }),
            (Some(a), None) => Some(a),
            (None, b) => b,
        };
        i = i + 1;
    }
    assert(heights@.take(heights@.len() as int) =~= heights@);
    best
}

} // verus!
