//! Sensor state, the poll operation, and the ghost model of its outcome.

use vstd::prelude::*;
use vstd::string::StringExecFns;
use crate::net::{net_result, handle_sensor_net, NetData};
use crate::parse::{parse_u64, parse_u64_spec, trimmed};
use crate::path_name::{leaf_of, name_of};
use crate::temp::{temp_result, handle_sensor_temp};

verus! {

/// Why one sensor's poll produced nothing this cycle.
#[derive(Clone, Copy, PartialEq, Eq, Structural, Debug)]
pub enum SensorError {
    /// A raw file could not be read.
    ReadFailure,
    /// A raw file's trimmed content is not an unsigned decimal number.
    ParseFailure,
}

impl SensorError {
    /// A short description for logs.
    pub fn describe(&self) -> (r: &'static str) {
        match self {
            SensorError::ReadFailure => "read failure",
            SensorError::ParseFailure => "parse failure",
        }
    }
}

/// A startup-time misconfiguration; fatal, unlike `SensorError`.
#[derive(Clone, Copy, PartialEq, Eq, Structural, Debug)]
pub enum ConfigError {
    /// No leaf name can be derived from a configured sensor path.
    InvalidPath,
}

/// One output unit of a successful poll: a topic suffix and a payload.
#[derive(Debug)]
pub struct PollResultData {
    pub suffix: String,
    pub data: String,
}

/// The result of polling one sensor that did not fail: readings plus the
/// duration until the sensor is next due, or the remaining wait if it was
/// not due yet.
#[derive(Debug)]
pub enum PollResult {
    Data(Vec<PollResultData>, u64),
    Delay(u64),
}

/// The sample kept from a sensor's previous successful poll.
#[derive(Debug)]
pub struct SensorSample<T> {
    pub val: T,
    pub ts_ms: u64,
}

/// A sensor: a stable name, a polling interval, and the last sample, if any.
/// The path it is bound to stays with the caller, who reads the raw files
/// and hands their contents to `poll`.
#[derive(Debug)]
pub struct Sensor<T> {
    pub name: String,
    pub interval_ms: u64,
    pub last: Option<SensorSample<T>>,
}

/// The raw file contents one poll works on; `None` where a read failed.
#[derive(Debug)]
pub enum SensorInput {
    Temp { raw: Option<Vec<u8>> },
    Net { tx: Option<Vec<u8>>, rx: Option<Vec<u8>> },
}

/// A sensor of either kind, as the scheduler owns them.
#[derive(Debug)]
pub enum AnySensor {
    Temp(Sensor<()>),
    Net(Sensor<NetData>),
}

/// Ghost image of one reading.
#[verifier::ext_equal]
pub ghost struct ReadingView {
    pub suffix: Seq<char>,
    pub data: Seq<char>,
}

/// Ghost image of one poll's outcome.
#[verifier::ext_equal]
pub ghost enum PollOutcome {
    /// The sensor was due and read successfully: its readings, and the full
    /// interval as the duration until it is next due.
    Emitted(Seq<ReadingView>, u64),
    /// The sensor was not due: the remaining wait.
    Waiting(u64),
    /// The sensor was due but reading failed; its state is unchanged.
    Failed(SensorError),
}

pub open spec fn view_opt(o: Option<Vec<u8>>) -> Option<Seq<u8>> {
    match o {
        Some(v) => Some(v@),
        None => None,
    }
}

pub open spec fn readings_view(v: Seq<PollResultData>) -> Seq<ReadingView> {
    v.map(|i: int, p: PollResultData| ReadingView { suffix: p.suffix@, data: p.data@ })
}

/// What a raw file's contents yield as a scalar value.
pub open spec fn value_result(raw: Option<Seq<u8>>) -> Result<u64, SensorError> {
    match raw {
        None => Err(SensorError::ReadFailure),
        Some(b) => match parse_u64_spec(trimmed(b)) {
            None => Err(SensorError::ParseFailure),
            Some(v) => Ok(v),
        },
    }
}

/// Parses one raw file's contents; the value-reader boundary the kind
/// handlers share.
pub fn read_value(raw: &Option<Vec<u8>>) -> (r: Result<u64, SensorError>)
    ensures
        r == value_result(view_opt(*raw)),
{
    match raw {
        None => Err(SensorError::ReadFailure),
        Some(b) => match parse_u64(b) {
            None => Err(SensorError::ParseFailure),
            Some(v) => Ok(v),
        },
    }
}

pub open spec fn sensor_name(s: AnySensor) -> Seq<char> {
    match s {
        AnySensor::Temp(t) => t.name@,
        AnySensor::Net(n) => n.name@,
    }
}

pub open spec fn sensor_interval(s: AnySensor) -> u64 {
    match s {
        AnySensor::Temp(t) => t.interval_ms,
        AnySensor::Net(n) => n.interval_ms,
    }
}

pub open spec fn sensor_last_ts(s: AnySensor) -> Option<u64> {
    match s {
        AnySensor::Temp(t) => match t.last {
            Some(x) => Some(x.ts_ms),
            None => None,
        },
        AnySensor::Net(n) => match n.last {
            Some(x) => Some(x.ts_ms),
            None => None,
        },
    }
}

/// The clock is monotonic: `now` never lies before the last sample.
pub open spec fn ts_ok(s: AnySensor, now: u64) -> bool {
    match sensor_last_ts(s) {
        Some(t) => t <= now,
        None => true,
    }
}

/// A sensor is due when it was never sampled, or its interval has elapsed.
pub open spec fn is_due(s: AnySensor, now: u64) -> bool {
    match sensor_last_ts(s) {
        None => true,
        Some(t) => now - t >= sensor_interval(s),
    }
}

/// The remaining wait of a sensor that is not due.
pub open spec fn next_wait(s: AnySensor, now: u64) -> u64
    recommends
        ts_ok(s, now),
        !is_due(s, now),
{
    match sensor_last_ts(s) {
        None => sensor_interval(s),
        Some(t) => (sensor_interval(s) - (now - t)) as u64,
    }
}

/// Whether an input carries the raw files of this sensor's kind.
pub open spec fn accepts(s: AnySensor, inp: SensorInput) -> bool {
    match (s, inp) {
        (AnySensor::Temp(_), SensorInput::Temp { .. }) => true,
        (AnySensor::Net(_), SensorInput::Net { .. }) => true,
        _ => false,
    }
}

/// The outcome of polling sensor `s` at `now` on raw contents `inp`: not due
/// reports the remaining wait; due either emits the kind's readings together
/// with the full interval, or fails without consequence for the state.
pub open spec fn poll_outcome(s: AnySensor, now: u64, inp: SensorInput) -> PollOutcome
    recommends
        ts_ok(s, now),
        accepts(s, inp),
{
    if !is_due(s, now) {
        PollOutcome::Waiting(next_wait(s, now))
    } else {
        match s {
            AnySensor::Temp(t) => match inp {
                SensorInput::Temp { raw } => match temp_result(view_opt(raw)) {
                    Ok(rs) => PollOutcome::Emitted(rs, t.interval_ms),
                    Err(e) => PollOutcome::Failed(e),
                },
                _ => PollOutcome::Failed(SensorError::ReadFailure),
            },
            AnySensor::Net(n) => match inp {
                SensorInput::Net { tx, rx } => match net_result(
                    n.last,
                    now,
                    view_opt(tx),
                    view_opt(rx),
                ) {
                    Ok(p) => PollOutcome::Emitted(p.1, n.interval_ms),
                    Err(e) => PollOutcome::Failed(e),
                },
                _ => PollOutcome::Failed(SensorError::ReadFailure),
            },
        }
    }
}

/// The sensor's state after the poll: `last` moves to `now` exactly when the
/// poll emitted readings; any failure leaves the state untouched.
pub open spec fn poll_post(s: AnySensor, now: u64, inp: SensorInput) -> AnySensor
    recommends
        ts_ok(s, now),
        accepts(s, inp),
{
    if !is_due(s, now) {
        s
    } else {
        match s {
            AnySensor::Temp(t) => match inp {
                SensorInput::Temp { raw } => match temp_result(view_opt(raw)) {
                    Ok(_) => AnySensor::Temp(
                        Sensor {
                            name: t.name,
                            interval_ms: t.interval_ms,
                            last: Some(SensorSample { val: (), ts_ms: now }),
                        },
                    ),
                    Err(_) => s,
                },
                _ => s,
            },
            AnySensor::Net(n) => match inp {
                SensorInput::Net { tx, rx } => match net_result(
                    n.last,
                    now,
                    view_opt(tx),
                    view_opt(rx),
                ) {
                    Ok(p) => AnySensor::Net(
                        Sensor {
                            name: n.name,
                            interval_ms: n.interval_ms,
                            last: Some(SensorSample { val: p.0, ts_ms: now }),
                        },
                    ),
                    Err(_) => s,
                },
                _ => s,
            },
        }
    }
}

/// The ghost image of an exec poll result.
pub open spec fn outcome_view(r: Result<PollResult, SensorError>) -> PollOutcome {
    match r {
        Ok(PollResult::Data(v, d)) => PollOutcome::Emitted(readings_view(v@), d),
        Ok(PollResult::Delay(d)) => PollOutcome::Waiting(d),
        Err(e) => PollOutcome::Failed(e),
    }
}

/// The uniform protocol the scheduler drives: each sensor polls itself from
/// the raw contents it was handed, against a monotonic timestamp.
pub trait PollableSensor: Sized {
    /// The sensor as the scheduler's uniform model.
    spec fn as_model(&self) -> AnySensor;

    /// The sensor's stable name.
    fn name(&self) -> (r: String)
        ensures
            r@ == sensor_name(self.as_model()),
    ;

    /// Checks whether the sensor is due at `now_ms`, without touching it:
    /// the caller reads raw files only for due sensors.
    fn check_due(&self, now_ms: u64) -> (r: bool)
        requires
            ts_ok(self.as_model(), now_ms),
        ensures
            r == is_due(self.as_model(), now_ms),
    ;

    /// One poll: due check, kind-specific read of the raw contents, state
    /// update on success. Failures leave the state unchanged.
    fn poll(&mut self, now_ms: u64, input: &SensorInput) -> (r: Result<PollResult, SensorError>)
        requires
            ts_ok(old(self).as_model(), now_ms),
            accepts(old(self).as_model(), *input),
        ensures
            final(self).as_model() == poll_post(old(self).as_model(), now_ms, *input),
            outcome_view(r) == poll_outcome(old(self).as_model(), now_ms, *input),
    ;
}

impl PollableSensor for Sensor<()> {
    open spec fn as_model(&self) -> AnySensor {
        AnySensor::Temp(*self)
    }

    fn name(&self) -> (r: String) {
        self.name.clone()
    }

    fn check_due(&self, now_ms: u64) -> (r: bool) {
        match &self.last {
            None => true,
            Some(x) => now_ms - x.ts_ms >= self.interval_ms,
        }
    }

    fn poll(&mut self, now_ms: u64, input: &SensorInput) -> (r: Result<PollResult, SensorError>) {
        match &self.last {
            None => (),
            Some(x) => {
                let elapsed = now_ms - x.ts_ms;
                if elapsed < self.interval_ms {
                    return Ok(PollResult::Delay(self.interval_ms - elapsed));
                }
            },
        }
        match input {
            SensorInput::Temp { raw } => match handle_sensor_temp(raw) {
                Ok(readings) => {
                    self.last = Some(SensorSample { val: (), ts_ms: now_ms });
                    Ok(PollResult::Data(readings, self.interval_ms))
                },
                Err(e) => Err(e),
            },
            SensorInput::Net { .. } => Err(SensorError::ReadFailure),
        }
    }
}

impl PollableSensor for Sensor<NetData> {
    open spec fn as_model(&self) -> AnySensor {
        AnySensor::Net(*self)
    }

    fn name(&self) -> (r: String) {
        self.name.clone()
    }

    fn check_due(&self, now_ms: u64) -> (r: bool) {
        match &self.last {
            None => true,
            Some(x) => now_ms - x.ts_ms >= self.interval_ms,
        }
    }

    fn poll(&mut self, now_ms: u64, input: &SensorInput) -> (r: Result<PollResult, SensorError>) {
        match &self.last {
            None => (),
            Some(x) => {
                let elapsed = now_ms - x.ts_ms;
                if elapsed < self.interval_ms {
                    return Ok(PollResult::Delay(self.interval_ms - elapsed));
                }
            },
        }
        match input {
            SensorInput::Net { tx, rx } => match handle_sensor_net(&self.last, now_ms, tx, rx) {
                Ok(p) => {
                    self.last = Some(SensorSample { val: p.0, ts_ms: now_ms });
                    Ok(PollResult::Data(p.1, self.interval_ms))
                },
                Err(e) => Err(e),
            },
            SensorInput::Temp { .. } => Err(SensorError::ReadFailure),
        }
    }
}

impl PollableSensor for AnySensor {
    open spec fn as_model(&self) -> AnySensor {
        *self
    }

    fn name(&self) -> (r: String) {
        match self {
            AnySensor::Temp(t) => t.name(),
            AnySensor::Net(n) => n.name(),
        }
    }

    fn check_due(&self, now_ms: u64) -> (r: bool) {
        match self {
            AnySensor::Temp(t) => t.check_due(now_ms),
            AnySensor::Net(n) => n.check_due(now_ms),
        }
    }

    fn poll(&mut self, now_ms: u64, input: &SensorInput) -> (r: Result<PollResult, SensorError>) {
        match self {
            AnySensor::Temp(t) => t.poll(now_ms, input),
            AnySensor::Net(n) => n.poll(now_ms, input),
        }
    }
}

impl<T> Sensor<T> {
    /// Builds a sensor named `{prefix}/{leaf of file_path}`, never yet
    /// sampled; a path without a leaf name is rejected.
    pub fn new(file_path: &str, interval_ms: u64, prefix: &str) -> (r: Result<
        Sensor<T>,
        ConfigError,
    >)
        ensures
            match r {
                Ok(s) => name_of(prefix@, file_path@) == Some(s.name@) && s.interval_ms
                    == interval_ms && s.last is None,
                Err(e) => name_of(prefix@, file_path@) is None && e == ConfigError::InvalidPath,
            },
    {
        match crate::path_name::leaf_name(file_path) {
            None => Err(ConfigError::InvalidPath),
            Some(leaf) => {
                let mut name = String::from_str(prefix);
                name.append("/");
                name.append(leaf.as_str());
                proof {
                    reveal_strlit("/");
                    assert(name@ =~= prefix@ + seq!['/'] + leaf@);
                }
                Ok(Sensor { name, interval_ms, last: None })
            },
        }
    }
}

/// Which kind of sensor `add_sensors` is to build.
#[derive(Clone, Copy, PartialEq, Eq, Structural, Debug)]
pub enum SensorKind {
    Temp,
    Net,
}

/// A freshly built sensor of the given kind, bound to `path`.
pub open spec fn sensor_matches(
    s: AnySensor,
    path: Seq<char>,
    interval_ms: u64,
    prefix: Seq<char>,
    kind: SensorKind,
) -> bool {
    &&& name_of(prefix, path) == Some(sensor_name(s))
    &&& sensor_interval(s) == interval_ms
    &&& sensor_last_ts(s) is None
    &&& match kind {
        SensorKind::Temp => s is Temp,
        SensorKind::Net => s is Net,
    }
}

/// Builds one sensor per configured path and appends them, in order, to the
/// scheduler's collection; stops at the first path without a leaf name,
/// keeping the sensors already added.
#[verifier::loop_isolation(false)]
pub fn add_sensors(
    paths: &Vec<String>,
    interval_ms: u64,
    prefix: &str,
    kind: SensorKind,
    into: &mut Vec<AnySensor>,
) -> (r: Result<(), ConfigError>)
    ensures
        final(into)@.len() >= old(into)@.len(),
        final(into)@.subrange(0, old(into)@.len() as int) == old(into)@,
        match r {
            Ok(_) => final(into)@.len() == old(into)@.len() + paths@.len() && (forall|i: int|
                0 <= i < paths@.len() ==> sensor_matches(
                    #[trigger] final(into)@[old(into)@.len() + i],
                    paths@[i]@,
                    interval_ms,
                    prefix@,
                    kind,
                )),
            Err(e) => e == ConfigError::InvalidPath && (exists|k: int|
                0 <= k < paths@.len() && leaf_of(paths@[k]@) is None && final(into)@.len() == old(
                    into,
                )@.len() + k && (forall|i: int|
                    0 <= i < k ==> sensor_matches(
                        #[trigger] final(into)@[old(into)@.len() + i],
                        paths@[i]@,
                        interval_ms,
                        prefix@,
                        kind,
                    ))),
        },
{
    let ghost base = into@;
    let mut j: usize = 0;
    while j < paths.len()
        invariant
            0 <= j <= paths@.len(),
            into@.len() == base.len() + j,
            into@.subrange(0, base.len() as int) == base,
            forall|i: int|
                0 <= i < j ==> sensor_matches(
                    #[trigger] into@[base.len() + i],
                    paths@[i]@,
                    interval_ms,
                    prefix@,
                    kind,
                ),
        decreases paths@.len() - j,
    {
        let path = &paths[j];
        match kind {
            SensorKind::Temp => match Sensor::<()>::new(path.as_str(), interval_ms, prefix) {
                Ok(s) => into.push(AnySensor::Temp(s)),
                Err(e) => {
                    proof {
                        assert(into@.subrange(0, base.len() as int) =~= base);
                    }
                    return Err(e);
                },
            },
            SensorKind::Net => match Sensor::<NetData>::new(path.as_str(), interval_ms, prefix) {
                Ok(s) => into.push(AnySensor::Net(s)),
                Err(e) => {
                    proof {
                        assert(into@.subrange(0, base.len() as int) =~= base);
                    }
                    return Err(e);
                },
            },
        }
        proof {
            assert(into@.subrange(0, base.len() as int) =~= base);
        }
        j += 1;
    }
    Ok(())
}

/// A sensor that was never sampled is due, whatever its interval: its poll
/// never reports a remaining wait.
pub proof fn lemma_fresh_sensor_due(s: AnySensor, now: u64, inp: SensorInput)
    requires
        sensor_last_ts(s) is None,
    ensures
        !(poll_outcome(s, now, inp) is Waiting),
{
}

/// After a poll that emitted readings, the reported "next due in" is exactly
/// the sensor's configured interval, and the sample timestamp moves to `now`.
pub proof fn lemma_next_due_after_success(s: AnySensor, now: u64, inp: SensorInput)
    ensures
        poll_outcome(s, now, inp) matches PollOutcome::Emitted(_, d) ==> d == sensor_interval(s)
            && sensor_last_ts(poll_post(s, now, inp)) == Some(now),
{
}

/// A poll before the interval has elapsed reports a remaining wait of exactly
/// `interval - elapsed` and leaves the sensor untouched: the handler's raw
/// contents are never consulted.
pub proof fn lemma_not_due(s: AnySensor, now: u64, inp: SensorInput)
    requires
        ts_ok(s, now),
        sensor_last_ts(s) matches Some(t) && now - t < sensor_interval(s),
    ensures
        poll_outcome(s, now, inp) == PollOutcome::Waiting(
            (sensor_interval(s) - (now - sensor_last_ts(s).unwrap())) as u64,
        ),
        poll_post(s, now, inp) == s,
{
}

/// Polling never changes a sensor's name or interval: the name derived at
/// construction stays the same however many polls follow.
pub proof fn lemma_name_stable(s: AnySensor, now: u64, inp: SensorInput)
    ensures
        sensor_name(poll_post(s, now, inp)) == sensor_name(s),
        sensor_interval(poll_post(s, now, inp)) == sensor_interval(s),
{
}

} // verus!
