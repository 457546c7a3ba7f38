//! Key formatting and clock helpers shared by the engines.

use std::time::Duration;
use std::time::SystemTime;
use vstd::prelude::*;

verus! {

/// The character that spells the decimal digit `d` (`d < 10`).
pub open spec fn digit_char(d: nat) -> char {
    seq!['0', '1', '2', '3', '4', '5', '6', '7', '8', '9'][d as int]
}

/// Decimal spelling of `n`: no sign, no leading zeros.
pub open spec fn decimal(n: nat) -> Seq<char>
    decreases n,
{
    if n < 10 {
        seq![digit_char(n)]
    } else {
        decimal(n / 10).push(digit_char(n % 10))
    }
}

/// `prefix:key`, the namespacing used for every stored counter.
pub open spec fn namespaced(prefix: Seq<char>, key: Seq<char>) -> Seq<char> {
    prefix + seq![':'] + key
}

/// `prefix:key:window`, a counter that belongs to one window length.
pub open spec fn windowed(prefix: Seq<char>, key: Seq<char>, window: nat) -> Seq<char> {
    namespaced(namespaced(prefix, key), decimal(window))
}

/// Relies on the `Display` impl of `u64` (through `to_string`): plain decimal
/// digits, without sign or leading zeros.
#[verifier::external_body]
fn decimal_string(n: u64) -> (r: String)
    ensures
        r@ == decimal(n as nat),
{
    n.to_string()
}

/// Builds `prefix:key`.
pub fn format_rate_limit_key(prefix: &str, key: &str) -> (r: String)
    ensures
        r@ == namespaced(prefix@, key@),
{
    let mut s = prefix.to_owned();
    s.append(":");
    s.append(key);
    proof {
        reveal_strlit(":");
    }
    s
}

/// Builds `prefix:key:window`.
pub fn format_window_key(prefix: &str, key: &str, window: u32) -> (r: String)
    ensures
        r@ == windowed(prefix@, key@, window as nat),
{
    let mut s = format_rate_limit_key(prefix, key);
    s.append(":");
    let digits = decimal_string(window as u64);
    s.append(digits.as_str());
    proof {
        reveal_strlit(":");
    }
    s
}

#[verifier::external_type_specification]
#[verifier::external_body]
pub struct ExSystemTime(SystemTime);

/// Relies on `SystemTime::now`: a reading of the system clock.
#[verifier::external_body]
fn system_now() -> SystemTime {
    SystemTime::now()
}

/// Relies on `SystemTime::duration_since(UNIX_EPOCH)`: the time since the
/// epoch, absent when the clock reads earlier than the epoch.
#[verifier::external_body]
fn elapsed_since_epoch(t: &SystemTime) -> Option<Duration> {
    t.duration_since(std::time::UNIX_EPOCH).ok()
}

/// Relies on `Duration::as_secs`: the whole seconds of a duration.
#[verifier::external_body]
fn whole_seconds(d: &Duration) -> u64 {
    d.as_secs()
}

/// A timestamp from the whole seconds elapsed since the Unix epoch, absent
/// when the clock reads earlier than the epoch: such a clock gives 0.
pub fn timestamp_from(elapsed_secs: Option<u64>) -> (r: u64)
    ensures
        r == match elapsed_secs {
            Some(s) => s,
            None => 0,
        },
{
    match elapsed_secs {
        Some(s) => s,
        None => 0,
    }
}

/// Seconds since the Unix epoch, or 0 when the clock reads earlier.
pub fn get_current_timestamp() -> u64 {
    let now = system_now();
    let elapsed = match elapsed_since_epoch(&now) {
        Some(d) => Some(whole_seconds(&d)),
        None => None,
    };
    timestamp_from(elapsed)
}

} // verus!
