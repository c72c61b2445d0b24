//! Temperature sensor kind: one integer in milli-degrees, published as
//! degrees with two decimal places.

use vstd::prelude::*;
use vstd::string::StringExecFns;
use crate::digits::{dec_str, digit_str, two_digit_str, u64_to_dec};
use crate::sensor::{read_value, value_result, PollResultData, ReadingView, SensorError};
use crate::sensor::readings_view;

verus! {

/// The file read under a temperature sensor's directory.
pub const TEMP_SUBPATH: &'static str = "temp";

/// Milli-degrees rounded to centi-degrees; a half rounds up.
pub open spec fn centi_of(raw: u64) -> int {
    raw / 10 + if raw % 10 >= 5 {
        1int
    } else {
        0int
    }
}

/// The payload for raw milli-degrees: whole degrees, a dot, and exactly two
/// fractional digits.
pub open spec fn temp_payload(raw: u64) -> Seq<char> {
    dec_str((centi_of(raw) / 100) as nat) + seq!['.'] + two_digit_str(centi_of(raw) % 100)
}

/// Renders raw milli-degrees as degrees with two decimal places.
pub fn format_temp(raw: u64) -> (r: String)
    ensures
        r@ == temp_payload(raw),
{
    let centi: u64 = raw / 10 + if raw % 10 >= 5 {
        1
    } else {
        0
    };
    let frac = centi % 100;
    let mut r = u64_to_dec(centi / 100);
    r.append(".");
    r.append(digit_str((frac / 10) as u8));
    r.append(digit_str((frac % 10) as u8));
    proof {
        reveal_strlit(".");
        assert(r@ =~= temp_payload(raw));
    }
    r
}

/// What the temperature handler yields for the raw file contents it was
/// handed: one reading with an empty topic suffix, or the failure.
pub open spec fn temp_result(raw: Option<Seq<u8>>) -> Result<Seq<ReadingView>, SensorError> {
    match value_result(raw) {
        Err(e) => Err(e),
        Ok(v) => Ok(seq![ReadingView { suffix: Seq::empty(), data: temp_payload(v) }]),
    }
}

/// The temperature handler: needs no previous sample.
pub fn handle_sensor_temp(raw: &Option<Vec<u8>>) -> (r: Result<Vec<PollResultData>, SensorError>)
    ensures
        match r {
            Ok(v) => temp_result(crate::sensor::view_opt(*raw)) == Ok::<Seq<ReadingView>,
                SensorError,
            >(readings_view(v@)),
            Err(e) => temp_result(crate::sensor::view_opt(*raw)) == Err::<Seq<ReadingView>,
                SensorError,
            >(e),
        },
{
    match read_value(raw) {
        Err(e) => Err(e),
        Ok(val) => {
            let payload = format_temp(val);
            let mut v: Vec<PollResultData> = Vec::new();
            v.push(PollResultData { suffix: String::new(), data: payload });
            proof {
                assert(readings_view(v@) =~= seq![
                    ReadingView { suffix: Seq::empty(), data: temp_payload(val) },
                ]);
            }
            Ok(v)
        },
    }
}

} // verus!
