//! Human-readable elapsed times such as `1h 2m 3s`, as the `humantime` crate
//! renders them.

use vstd::prelude::*;
use crate::text::decimal;

verus! {

/// `acc` followed by the item `{value}{name}`, separated by a space from what
/// came before; nothing is added for a zero value.
pub open spec fn duration_item(acc: Seq<char>, value: nat, name: Seq<char>) -> Seq<char> {
    if value == 0 {
        acc
    } else if acc.len() == 0 {
        decimal(value) + name
    } else {
        acc + seq![' '] + decimal(value) + name
    }
}

/// A unit name with a plural `s` for values above one.
pub open spec fn plural(name: Seq<char>, value: nat) -> Seq<char> {
    if value > 1 { name + seq!['s'] } else { name }
}

/// The text of a duration of whole seconds: `0s` for zero, otherwise the
/// non-zero numbers of years (365.25 days), months (30.44 days), days, hours,
/// minutes and seconds, largest first, for instance `1year 2months 3h 1s`.
pub open spec fn duration_text(secs: nat) -> Seq<char> {
    let years = secs / 31_557_600;
    let ydays = secs % 31_557_600;
    let months = ydays / 2_630_016;
    let mdays = ydays % 2_630_016;
    let days = mdays / 86400;
    let day_secs = mdays % 86400;
    let hours = day_secs / 3600;
    let minutes = day_secs % 3600 / 60;
    let seconds = day_secs % 60;
    if secs == 0 {
        seq!['0', 's']
    } else {
        let a = duration_item(Seq::empty(), years, plural(seq!['y', 'e', 'a', 'r'], years));
        let b = duration_item(a, months, plural(seq!['m', 'o', 'n', 't', 'h'], months));
        let c = duration_item(b, days, plural(seq!['d', 'a', 'y'], days));
        let d = duration_item(c, hours, seq!['h']);
        let e = duration_item(d, minutes, seq!['m']);
        duration_item(e, seconds, seq!['s'])
    }
}

/// The text that `humantime::format_duration` displays for a duration of
/// `secs` whole seconds. Its contract restates the crate's `Display` code for
/// durations without a fractional part: the items years, months, days, `h`,
/// `m` and `s`, zero items left out, `0s` for a zero duration.
#[verifier::external_body]
pub(crate) fn format_duration_secs(secs: u64) -> (r: String)
    ensures
        r@ == duration_text(secs as nat),
{
    humantime::format_duration(std::time::Duration::from_secs(secs)).to_string()
}

} // verus!
