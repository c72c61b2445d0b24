//! Network sensor kind: tx/rx byte counters, published as integer rates.

use vstd::prelude::*;
use vstd::string::StringExecFns;
use crate::digits::{dec_str, u128_to_dec};
use crate::sensor::{
    read_value, readings_view, value_result, view_opt, PollResultData, ReadingView, SensorError,
    SensorSample,
};

verus! {

/// The files read under a network sensor's directory.
pub const TX_SUBPATH: &'static str = "statistics/tx_bytes";

pub const RX_SUBPATH: &'static str = "statistics/rx_bytes";

/// Raw byte counters of one network interface.
#[derive(Clone, Copy, PartialEq, Eq, Structural, Debug)]
pub struct NetData {
    pub tx: u64,
    pub rx: u64,
}

/// How far a counter advanced. Counters are taken as monotonically
/// increasing; a counter that stepped backwards is read as 64-bit
/// wraparound, which makes the delta spuriously huge — a documented edge
/// case, not corrected here.
pub open spec fn counter_delta(prev: u64, cur: u64) -> nat {
    if cur >= prev {
        (cur - prev) as nat
    } else {
        (0x10000000000000000 - prev + cur) as nat
    }
}

/// Bytes per second over `elapsed_ms`, rounded to the nearest integer
/// (a half rounds up).
pub open spec fn rate_of(delta: nat, elapsed_ms: nat) -> nat
    recommends
        elapsed_ms > 0,
{
    (delta * 1000 + elapsed_ms / 2) / elapsed_ms
}

/// The payload of one rate reading.
pub open spec fn rate_payload(prev: u64, cur: u64, elapsed_ms: u64) -> Seq<char>
    recommends
        elapsed_ms > 0,
{
    dec_str(rate_of(counter_delta(prev, cur), elapsed_ms as nat))
}

/// Renders the rate a counter pair denotes over `elapsed_ms`.
pub fn format_rate(prev: u64, cur: u64, elapsed_ms: u64) -> (r: String)
    requires
        elapsed_ms > 0,
    ensures
        r@ == rate_payload(prev, cur, elapsed_ms),
{
    let delta: u128 = if cur >= prev {
        (cur - prev) as u128
    } else {
        0x10000000000000000u128 - (prev as u128) + (cur as u128)
    };
    let e = elapsed_ms as u128;
    let rate = (delta * 1000 + e / 2) / e;
    let r = u128_to_dec(rate);
    proof {
        assert(delta == counter_delta(prev, cur));
        assert(rate as nat == rate_of(counter_delta(prev, cur), elapsed_ms as nat));
    }
    r
}

/// What the network handler yields for a previous sample and the raw
/// contents of the two counter files: the new counters, plus two rate
/// readings when a baseline with a positive time delta exists, and no
/// readings otherwise (the first sample only establishes the baseline).
pub open spec fn net_result(
    last: Option<SensorSample<NetData>>,
    now: u64,
    tx_raw: Option<Seq<u8>>,
    rx_raw: Option<Seq<u8>>,
) -> Result<(NetData, Seq<ReadingView>), SensorError>
    recommends
        last matches Some(p) ==> p.ts_ms <= now,
{
    match (value_result(tx_raw), value_result(rx_raw)) {
        (Err(e), _) => Err(e),
        (Ok(_), Err(e)) => Err(e),
        (Ok(tx), Ok(rx)) => {
            let cur = NetData { tx, rx };
            match last {
                None => Ok((cur, Seq::empty())),
                Some(prev) => {
                    let elapsed = (now - prev.ts_ms) as u64;
                    if elapsed == 0 {
                        Ok((cur, Seq::empty()))
                    } else {
                        Ok(
                            (
                                cur,
                                seq![
                                    ReadingView {
                                        suffix: seq!['/', 't', 'x'],
                                        data: rate_payload(prev.val.tx, tx, elapsed),
                                    },
                                    ReadingView {
                                        suffix: seq!['/', 'r', 'x'],
                                        data: rate_payload(prev.val.rx, rx, elapsed),
                                    },
                                ],
                            ),
                        )
                    }
                },
            }
        },
    }
}

/// The network handler: reads both counters, and computes rates against the
/// previous sample where one exists.
pub fn handle_sensor_net(
    last: &Option<SensorSample<NetData>>,
    now_ms: u64,
    tx_raw: &Option<Vec<u8>>,
    rx_raw: &Option<Vec<u8>>,
) -> (r: Result<(NetData, Vec<PollResultData>), SensorError>)
    requires
        *last matches Some(p) ==> p.ts_ms <= now_ms,
    ensures
        ({
            let expect = net_result(*last, now_ms, view_opt(*tx_raw), view_opt(*rx_raw));
            match r {
                Ok(p) => expect matches Ok(q) && q.0 == p.0 && q.1 == readings_view(p.1@),
                Err(e) => expect == Err::<(NetData, Seq<ReadingView>), SensorError>(e),
            }
        }),
{
    let tx = match read_value(tx_raw) {
        Ok(v) => v,
        Err(e) => {
            return Err(e);
        },
    };
    let rx = match read_value(rx_raw) {
        Ok(v) => v,
        Err(e) => {
            return Err(e);
        },
    };
    let cur = NetData { tx, rx };
    match last {
        None => {
            let v: Vec<PollResultData> = Vec::new();
            proof {
                assert(readings_view(v@) =~= Seq::<ReadingView>::empty());
            }
            Ok((cur, v))
        },
        Some(prev) => {
            let elapsed = now_ms - prev.ts_ms;
            if elapsed == 0 {
                let v: Vec<PollResultData> = Vec::new();
                proof {
                    assert(readings_view(v@) =~= Seq::<ReadingView>::empty());
                }
                Ok((cur, v))
            } else {
                let mut v: Vec<PollResultData> = Vec::new();
                v.push(
                    PollResultData {
                        suffix: String::from_str("/tx"),
                        data: format_rate(prev.val.tx, tx, elapsed),
                    },
                );
                v.push(
                    PollResultData {
                        suffix: String::from_str("/rx"),
                        data: format_rate(prev.val.rx, rx, elapsed),
                    },
                );
                proof {
                    reveal_strlit("/tx");
                    reveal_strlit("/rx");
                    assert(readings_view(v@) =~~= seq![
                        ReadingView {
                            suffix: seq!['/', 't', 'x'],
                            data: rate_payload(prev.val.tx, tx, elapsed),
                        },
                        ReadingView {
                            suffix: seq!['/', 'r', 'x'],
                            data: rate_payload(prev.val.rx, rx, elapsed),
                        },
                    ]);
                }
                Ok((cur, v))
            }
        },
    }
}

} // verus!
