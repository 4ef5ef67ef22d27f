//! Arrival times: local hour and minute, and the `HH:MM ` rendering.

use vstd::prelude::*;
use vstd::string::StringExecFns;
use crate::textutil::spec_digit;
use crate::textutil::dec_string;

verus! {

/// Relies on chrono: `DateTime::from_timestamp`, `with_timezone` to
/// `chrono::Local`, and `Timelike::hour` / `Timelike::minute`, whose
/// documentation promises an hour below 24 and a minute below 60.  The
/// result depends on the machine's time zone, so nothing more is claimed
/// of it; a timestamp chrono cannot represent yields midnight.  The
/// `Local` conversion reads the system time zone database, as the
/// underlying crate does for any local-time query.
#[verifier::external_body]
pub(crate) fn local_hour_minute(ts: i64) -> (r: (u32, u32))
    ensures
        r.0 < 24,
        r.1 < 60,
{
    match chrono::DateTime::from_timestamp(ts, 0) {
        Some(utc) => {
            let local = utc.with_timezone(&chrono::Local);
            (chrono::Timelike::hour(&local), chrono::Timelike::minute(&local))
        },
        None => (0, 0),
    }
}

/// A value below 100 as two digits, zero-padded.
pub open spec fn two_digits(n: int) -> Seq<char> {
    seq![spec_digit(n / 10), spec_digit(n % 10)]
}

/// The `HH:MM ` prefix of a message line, trailing space included.
pub open spec fn spec_time(hour: int, minute: int) -> Seq<char> {
    two_digits(hour) + seq![':'] + two_digits(minute) + seq![' ']
}

fn push_two_digits(out: &mut String, n: u32)
    requires
        n < 100,
    ensures
        final(out)@ == old(out)@ + two_digits(n as int),
{
    let tens = dec_string((n / 10) as usize);
    let ones = dec_string((n % 10) as usize);
    out.append(tens.as_str());
    out.append(ones.as_str());
    proof {
        assert(out@ =~= old(out)@ + two_digits(n as int));
    }
}

/// Renders an hour and minute as `HH:MM ` (zero-padded, trailing space).
pub fn format_time(hour: u32, minute: u32) -> (r: String)
    requires
        hour < 24,
        minute < 60,
    ensures
        r@ == spec_time(hour as int, minute as int),
{
    let mut r = String::new();
    push_two_digits(&mut r, hour);
    r.append(":");
    push_two_digits(&mut r, minute);
    r.append(" ");
    proof {
        reveal_strlit(":");
        reveal_strlit(" ");
        assert(r@ =~= spec_time(hour as int, minute as int));
    }
    r
}

} // verus!
