//! The poll scheduler: one cycle over the owned sensors, the emissions it
//! hands to the publisher sink, and the sleep until the next sensor is due.

use vstd::prelude::*;
use vstd::string::StringExecFns;
use crate::sensor::{
    accepts, outcome_view, poll_outcome, poll_post, sensor_name, ts_ok, AnySensor, PollOutcome,
    PollResult, PollableSensor, ReadingView, SensorError, SensorInput,
};

verus! {

/// The cap on any cycle's sleep, in milliseconds: the loop re-checks its
/// sensors at least once a minute however long their intervals are.
pub const MAX_SLEEP_MS: u64 = 60000;

/// One reading addressed to its full topic, ready for the publisher sink.
#[derive(Debug)]
pub struct Emission {
    pub topic: String,
    pub payload: String,
}

/// A per-sensor failure the scheduler reports and then moves past.
#[derive(Debug)]
pub struct FailureNote {
    pub sensor: String,
    pub error: SensorError,
}

/// What one scheduler cycle produced.
#[derive(Debug)]
pub struct CycleOutput {
    pub emissions: Vec<Emission>,
    pub failures: Vec<FailureNote>,
    pub sleep_ms: u64,
}

/// Ghost image of one emission.
#[verifier::ext_equal]
pub ghost struct EmissionView {
    pub topic: Seq<char>,
    pub payload: Seq<char>,
}

pub open spec fn emissions_view(v: Seq<Emission>) -> Seq<EmissionView> {
    v.map(|i: int, e: Emission| EmissionView { topic: e.topic@, payload: e.payload@ })
}

pub open spec fn failures_view(v: Seq<FailureNote>) -> Seq<(Seq<char>, SensorError)> {
    v.map(|i: int, f: FailureNote| (f.sensor@, f.error))
}

/// The full topic of one reading: `{base}/{sensor name}{suffix}`.
pub open spec fn topic_of(base: Seq<char>, name: Seq<char>, suffix: Seq<char>) -> Seq<char> {
    base + seq!['/'] + name + suffix
}

/// The emissions one sensor contributes to a cycle: its readings, addressed;
/// nothing when it was not due or failed.
pub open spec fn sensor_emissions(s: AnySensor, now: u64, inp: SensorInput, base: Seq<char>)
    -> Seq<EmissionView> {
    match poll_outcome(s, now, inp) {
        PollOutcome::Emitted(rs, _) => rs.map(
            |i: int, rv: ReadingView|
                EmissionView {
                    topic: topic_of(base, sensor_name(s), rv.suffix),
                    payload: rv.data,
                },
        ),
        _ => Seq::empty(),
    }
}

/// The bound one outcome puts on the cycle's sleep; a failed poll puts none.
pub open spec fn candidate_of(o: PollOutcome) -> Option<u64> {
    match o {
        PollOutcome::Emitted(_, d) => Some(d),
        PollOutcome::Waiting(d) => Some(d),
        PollOutcome::Failed(_) => None,
    }
}

/// The sleep after polling the first `n` sensors: the 60-second cap, lowered
/// to every candidate seen.
pub open spec fn cycle_sleep(ss: Seq<AnySensor>, now: u64, inps: Seq<SensorInput>, n: int) -> u64
    decreases n,
{
    if n <= 0 {
        MAX_SLEEP_MS
    } else {
        let prev = cycle_sleep(ss, now, inps, n - 1);
        match candidate_of(poll_outcome(ss[n - 1], now, inps[n - 1])) {
            Some(d) => if d < prev {
                d
            } else {
                prev
            },
            None => prev,
        }
    }
}

/// The emissions of the first `n` sensors, in sensor order.
pub open spec fn cycle_emissions(
    ss: Seq<AnySensor>,
    now: u64,
    inps: Seq<SensorInput>,
    base: Seq<char>,
    n: int,
) -> Seq<EmissionView>
    decreases n,
{
    if n <= 0 {
        Seq::empty()
    } else {
        cycle_emissions(ss, now, inps, base, n - 1) + sensor_emissions(
            ss[n - 1],
            now,
            inps[n - 1],
            base,
        )
    }
}

/// The emissions of sensors `a..b`, in sensor order.
pub open spec fn emissions_between(
    ss: Seq<AnySensor>,
    now: u64,
    inps: Seq<SensorInput>,
    base: Seq<char>,
    a: int,
    b: int,
) -> Seq<EmissionView>
    decreases b - a,
{
    if a >= b {
        Seq::empty()
    } else {
        sensor_emissions(ss[a], now, inps[a], base) + emissions_between(
            ss,
            now,
            inps,
            base,
            a + 1,
            b,
        )
    }
}

/// The failures of the first `n` sensors, each with its sensor's name.
pub open spec fn cycle_failures(ss: Seq<AnySensor>, now: u64, inps: Seq<SensorInput>, n: int)
    -> Seq<(Seq<char>, SensorError)>
    decreases n,
{
    if n <= 0 {
        Seq::empty()
    } else {
        let prev = cycle_failures(ss, now, inps, n - 1);
        match poll_outcome(ss[n - 1], now, inps[n - 1]) {
            PollOutcome::Failed(e) => prev.push((sensor_name(ss[n - 1]), e)),
            _ => prev,
        }
    }
}

/// Sensor states after a cycle: each polled against its own input alone.
pub open spec fn cycle_post(ss: Seq<AnySensor>, now: u64, inps: Seq<SensorInput>)
    -> Seq<AnySensor> {
    ss.map(|i: int, s: AnySensor| poll_post(s, now, inps[i]))
}

fn make_topic(base: &str, name: &str, suffix: &str) -> (r: String)
    ensures
        r@ == topic_of(base@, name@, suffix@),
{
    let mut t = String::from_str(base);
    t.append("/");
    t.append(name);
    t.append(suffix);
    proof {
        reveal_strlit("/");
        assert(t@ =~= topic_of(base@, name@, suffix@));
    }
    t
}

/// One scheduler cycle: polls every sensor in order against the raw contents
/// it was handed, collects each due sensor's readings addressed under
/// `base_topic`, notes each failure beside its sensor's name, and computes
/// the sleep until the next sensor is due. A failed sensor keeps its state
/// and costs the rest of the cycle nothing.
#[verifier::loop_isolation(false)]
pub fn run_cycle(
    sensors: &mut Vec<AnySensor>,
    base_topic: &str,
    now_ms: u64,
    inputs: &Vec<SensorInput>,
) -> (r: CycleOutput)
    requires
        old(sensors)@.len() == inputs@.len(),
        forall|i: int| 0 <= i < old(sensors)@.len() ==> ts_ok(#[trigger] old(sensors)@[i], now_ms),
        forall|i: int|
            0 <= i < old(sensors)@.len() ==> accepts(#[trigger] old(sensors)@[i], inputs@[i]),
    ensures
        final(sensors)@ == cycle_post(old(sensors)@, now_ms, inputs@),
        r.sleep_ms == cycle_sleep(old(sensors)@, now_ms, inputs@, old(sensors)@.len() as int),
        emissions_view(r.emissions@) == cycle_emissions(
            old(sensors)@,
            now_ms,
            inputs@,
            base_topic@,
            old(sensors)@.len() as int,
        ),
        failures_view(r.failures@) == cycle_failures(
            old(sensors)@,
            now_ms,
            inputs@,
            old(sensors)@.len() as int,
        ),
{
    let ghost orig = sensors@;
    let ghost base = base_topic@;
    let n = sensors.len();
    let mut emissions: Vec<Emission> = Vec::new();
    let mut failures: Vec<FailureNote> = Vec::new();
    let mut sleep_ms: u64 = MAX_SLEEP_MS;
    let mut i: usize = 0;
    while i < n
        invariant
            0 <= i <= n == orig.len(),
            sensors@.len() == orig.len(),
            forall|k: int| 0 <= k < i ==> sensors@[k] == cycle_post(orig, now_ms, inputs@)[k],
            forall|k: int| i <= k < n ==> sensors@[k] == orig[k],
            sleep_ms == cycle_sleep(orig, now_ms, inputs@, i as int),
            emissions_view(emissions@) == cycle_emissions(orig, now_ms, inputs@, base, i as int),
            failures_view(failures@) == cycle_failures(orig, now_ms, inputs@, i as int),
        decreases n - i,
    {
        let name = sensors[i].name();
        let s = &mut sensors[i];
        let res = s.poll(now_ms, &inputs[i]);
        proof {
            assert(outcome_view(res) == poll_outcome(orig[i as int], now_ms, inputs@[i as int]));
        }
        match res {
            Ok(PollResult::Data(mut readings, delay)) => {
                let ghost rs_pre = readings@;
                let ghost base_emis = emissions@;
                let ghost target = sensor_emissions(orig[i as int], now_ms, inputs@[i as int], base);
                proof {
                    assert(target.len() == rs_pre.len());
                    assert(forall|k: int|
                        0 <= k < rs_pre.len() ==> #[trigger] target[k] == (EmissionView {
                            topic: topic_of(base, sensor_name(orig[i as int]), rs_pre[k].suffix@),
                            payload: rs_pre[k].data@,
                        }));
                    assert(readings@ =~= rs_pre.subrange(0, rs_pre.len() as int));
                }
                while readings.len() > 0
                    invariant
                        readings@.len() <= rs_pre.len(),
                        readings@ == rs_pre.subrange(
                            rs_pre.len() - readings@.len(),
                            rs_pre.len() as int,
                        ),
                        emissions_view(emissions@) == emissions_view(base_emis) + target.take(
                            rs_pre.len() - readings@.len(),
                        ),
                    decreases readings@.len(),
                {
                    let ghost p = rs_pre.len() - readings@.len();
                    let rd = readings.remove(0);
                    proof {
                        assert(rd == rs_pre[p]);
                        assert(readings@ =~= rs_pre.subrange(p + 1, rs_pre.len() as int));
                    }
                    let topic = make_topic(base_topic, name.as_str(), rd.suffix.as_str());
                    let ghost new_elem = EmissionView { topic: topic@, payload: rd.data@ };
                    proof {
                        assert(name@ == sensor_name(orig[i as int]));
                        assert(new_elem == target[p]);
                    }
                    let ghost pre = emissions@;
                    emissions.push(Emission { topic, payload: rd.data });
                    proof {
                        let ghost goal = emissions_view(base_emis) + target.take(p + 1);
                        assert(pre.len() == base_emis.len() + p);
                        assert forall|j: int| 0 <= j < emissions@.len() implies emissions_view(
                            emissions@,
                        )[j] == goal[j] by {
                            if j < pre.len() {
                                assert(emissions@[j] == pre[j]);
                                assert(emissions_view(emissions@)[j] == emissions_view(pre)[j]);
                                assert(emissions_view(pre)[j] == (emissions_view(base_emis)
                                    + target.take(p))[j]);
                                if j >= base_emis.len() {
                                    let k = j - base_emis.len();
                                    assert((emissions_view(base_emis) + target.take(p))[j]
                                        == target.take(p)[k]);
                                    assert(target.take(p)[k] == target[k]);
                                    assert(goal[j] == target.take(p + 1)[k]);
                                    assert(target.take(p + 1)[k] == target[k]);
                                } else {
                                    assert((emissions_view(base_emis) + target.take(p))[j]
                                        == emissions_view(base_emis)[j]);
                                    assert(goal[j] == emissions_view(base_emis)[j]);
                                }
                            } else {
                                assert(j == pre.len());
                                assert(emissions_view(emissions@)[j] == new_elem);
                                assert(goal[j] == target.take(p + 1)[p]);
                                assert(target.take(p + 1)[p] == target[p]);
                            }
                        }
                        assert(emissions_view(emissions@) =~= goal);
                    }
                }
                proof {
                    assert(target.take(rs_pre.len() as int) =~= target);
                }
                if delay < sleep_ms {
                    sleep_ms = delay;
                }
            },
            Ok(PollResult::Delay(delay)) => {
                if delay < sleep_ms {
                    sleep_ms = delay;
                }
            },
            Err(e) => {
                failures.push(FailureNote { sensor: name, error: e });
            },
        }
        i += 1;
        proof {
            assert(emissions_view(emissions@) =~= cycle_emissions(
                orig,
                now_ms,
                inputs@,
                base,
                i as int,
            ));
            assert(failures_view(failures@) =~= cycle_failures(orig, now_ms, inputs@, i as int));
        }
    }
    proof {
        assert(sensors@ =~= cycle_post(orig, now_ms, inputs@));
    }
    CycleOutput { emissions, failures, sleep_ms }
}

/// A cycle's sleep never exceeds 60 seconds, and never exceeds any polled
/// sensor's own "next due in" (or remaining wait).
pub proof fn lemma_sleep_bound(ss: Seq<AnySensor>, now: u64, inps: Seq<SensorInput>, n: int)
    requires
        0 <= n,
    ensures
        cycle_sleep(ss, now, inps, n) <= MAX_SLEEP_MS,
        forall|i: int|
            0 <= i < n ==> match candidate_of(#[trigger] poll_outcome(ss[i], now, inps[i])) {
                Some(d) => cycle_sleep(ss, now, inps, n) <= d,
                None => true,
            },
    decreases n,
{
    if n > 0 {
        lemma_sleep_bound(ss, now, inps, n - 1);
    }
}

proof fn lemma_cycle_emissions_split(
    ss: Seq<AnySensor>,
    now: u64,
    inps: Seq<SensorInput>,
    base: Seq<char>,
    m: int,
    n: int,
)
    requires
        0 <= m <= n,
    ensures
        cycle_emissions(ss, now, inps, base, n) == cycle_emissions(ss, now, inps, base, m)
            + emissions_between(ss, now, inps, base, m, n),
    decreases n - m,
{
    if m == n {
        assert(cycle_emissions(ss, now, inps, base, m) + Seq::<EmissionView>::empty()
            =~= cycle_emissions(ss, now, inps, base, m));
    } else {
        lemma_cycle_emissions_split(ss, now, inps, base, m, n - 1);
        assert(emissions_between(ss, now, inps, base, m, n - 1) + sensor_emissions(
            ss[n - 1],
            now,
            inps[n - 1],
            base,
        ) =~= emissions_between(ss, now, inps, base, m, n)) by {
            lemma_emissions_between_snoc(ss, now, inps, base, m, n - 1);
        }
        assert(cycle_emissions(ss, now, inps, base, n) =~= cycle_emissions(ss, now, inps, base, m)
            + emissions_between(ss, now, inps, base, m, n));
    }
}

proof fn lemma_emissions_between_snoc(
    ss: Seq<AnySensor>,
    now: u64,
    inps: Seq<SensorInput>,
    base: Seq<char>,
    a: int,
    b: int,
)
    requires
        a <= b,
    ensures
        emissions_between(ss, now, inps, base, a, b + 1) == emissions_between(
            ss,
            now,
            inps,
            base,
            a,
            b,
        ) + sensor_emissions(ss[b], now, inps[b], base),
    decreases b - a,
{
    if a == b {
        assert(emissions_between(ss, now, inps, base, b + 1, b + 1) =~= Seq::<
            EmissionView,
        >::empty());
        assert(emissions_between(ss, now, inps, base, a, b + 1) =~= emissions_between(
            ss,
            now,
            inps,
            base,
            a,
            b,
        ) + sensor_emissions(ss[b], now, inps[b], base));
    } else {
        lemma_emissions_between_snoc(ss, now, inps, base, a + 1, b);
        assert(emissions_between(ss, now, inps, base, a, b + 1) =~= emissions_between(
            ss,
            now,
            inps,
            base,
            a,
            b,
        ) + sensor_emissions(ss[b], now, inps[b], base));
    }
}

proof fn lemma_emissions_between_agree(
    ss: Seq<AnySensor>,
    now: u64,
    inps1: Seq<SensorInput>,
    inps2: Seq<SensorInput>,
    base: Seq<char>,
    a: int,
    b: int,
)
    requires
        a <= b,
        forall|i: int| a <= i < b ==> inps1[i] == inps2[i],
    ensures
        emissions_between(ss, now, inps1, base, a, b) == emissions_between(
            ss,
            now,
            inps2,
            base,
            a,
            b,
        ),
    decreases b - a,
{
    if a < b {
        lemma_emissions_between_agree(ss, now, inps1, inps2, base, a + 1, b);
    }
}

/// Failure isolation: swapping what sensor `j` was handed — in particular,
/// for raw contents that make it fail — changes no other sensor's outcome or
/// new state, and changes the cycle's emissions only in sensor `j`'s own
/// segment; every reading the other sensors contribute, before and after
/// `j`, stays exactly as it was.
pub proof fn lemma_failure_isolation(
    ss: Seq<AnySensor>,
    now: u64,
    inps1: Seq<SensorInput>,
    inps2: Seq<SensorInput>,
    base: Seq<char>,
    j: int,
)
    requires
        0 <= j < ss.len(),
        forall|i: int| 0 <= i < ss.len() && i != j ==> inps1[i] == inps2[i],
    ensures
        forall|i: int|
            0 <= i < ss.len() && i != j ==> poll_outcome(ss[i], now, #[trigger] inps1[i])
                == poll_outcome(ss[i], now, inps2[i]),
        forall|i: int|
            0 <= i < ss.len() && i != j ==> poll_post(ss[i], now, #[trigger] inps1[i]) == poll_post(
                ss[i],
                now,
                inps2[i],
            ),
        cycle_emissions(ss, now, inps2, base, ss.len() as int) == cycle_emissions(
            ss,
            now,
            inps1,
            base,
            j,
        ) + sensor_emissions(ss[j], now, inps2[j], base) + emissions_between(
            ss,
            now,
            inps1,
            base,
            j + 1,
            ss.len() as int,
        ),
{
    let n = ss.len() as int;
    lemma_cycle_emissions_split(ss, now, inps2, base, j, n);
    lemma_cycle_emissions_split(ss, now, inps2, base, 0, j);
    lemma_cycle_emissions_split(ss, now, inps1, base, 0, j);
    lemma_emissions_between_agree(ss, now, inps1, inps2, base, 0, j);
    lemma_emissions_between_agree(ss, now, inps1, inps2, base, j + 1, n);
    assert(emissions_between(ss, now, inps2, base, j, n) =~= sensor_emissions(
        ss[j],
        now,
        inps2[j],
        base,
    ) + emissions_between(ss, now, inps2, base, j + 1, n));
    assert(cycle_emissions(ss, now, inps2, base, n) =~= cycle_emissions(ss, now, inps1, base, j)
        + sensor_emissions(ss[j], now, inps2[j], base) + emissions_between(
        ss,
        now,
        inps1,
        base,
        j + 1,
        n,
    ));
}

} // verus!
