use sensorpoll::net::NetData;
use sensorpoll::sensor::{PollResult, PollableSensor, Sensor, SensorError, SensorInput};

#[test]
fn fresh_sensor_is_due_regardless_of_interval() {
    let mut s = Sensor::<()>::new("/sys/class/hwmon/hwmon0", u64::MAX, "temp").unwrap();
    assert!(s.check_due(0));
    let r = s.poll(0, &SensorInput::Temp { raw: Some(b"1000".to_vec()) }).unwrap();
    match r {
        PollResult::Data(_, _) => (),
        PollResult::Delay(_) => panic!("a never-sampled sensor must be due"),
    }
}

#[test]
fn successful_poll_reports_full_interval() {
    let mut s = Sensor::<()>::new("/sys/class/hwmon/hwmon0", 30000, "temp").unwrap();
    let r = s.poll(7, &SensorInput::Temp { raw: Some(b"45230".to_vec()) }).unwrap();
    match r {
        PollResult::Data(_, next) => assert_eq!(next, 30000),
        PollResult::Delay(_) => panic!("expected readings"),
    }
}

#[test]
fn early_poll_reports_remaining_wait_and_keeps_state() {
    let mut s = Sensor::<()>::new("/sys/class/hwmon/hwmon0", 30000, "temp").unwrap();
    s.poll(0, &SensorInput::Temp { raw: Some(b"45230".to_vec()) }).unwrap();
    assert!(!s.check_due(10000));
    // The handler must not run: even unreadable input cannot fail the poll.
    let r = s.poll(10000, &SensorInput::Temp { raw: None }).unwrap();
    match r {
        PollResult::Delay(wait) => assert_eq!(wait, 20000),
        PollResult::Data(_, _) => panic!("sensor polled before its interval elapsed"),
    }
    // The last sample was kept: the sensor is due exactly at the interval.
    assert!(!s.check_due(29999));
    assert!(s.check_due(30000));
}

#[test]
fn failed_poll_leaves_sensor_due() {
    let mut s = Sensor::<()>::new("/sys/class/hwmon/hwmon0", 30000, "temp").unwrap();
    let e = s.poll(5, &SensorInput::Temp { raw: None }).unwrap_err();
    assert_eq!(e, SensorError::ReadFailure);
    // No baseline was stored: the sensor is still due and a retry succeeds.
    assert!(s.check_due(5));
    let r = s.poll(5, &SensorInput::Temp { raw: Some(b"1500".to_vec()) }).unwrap();
    match r {
        PollResult::Data(v, next) => {
            assert_eq!(next, 30000);
            assert_eq!(v[0].data, "1.50");
        },
        PollResult::Delay(_) => panic!("expected readings"),
    }
}

#[test]
fn temperature_conversion_two_decimals() {
    let mut s = Sensor::<()>::new("/sys/class/hwmon/hwmon0", 30000, "temp").unwrap();
    let r = s.poll(0, &SensorInput::Temp { raw: Some(b"45230".to_vec()) }).unwrap();
    match r {
        PollResult::Data(v, _) => {
            assert_eq!(v.len(), 1);
            assert_eq!(v[0].suffix, "");
            assert_eq!(v[0].data, "45.23");
        },
        PollResult::Delay(_) => panic!("expected readings"),
    }
}

#[test]
fn temperature_edge_values() {
    let cases: Vec<(&[u8], &str)> = vec![
        (b"0", "0.00"),
        (b"999", "1.00"),
        (b"45235", "45.24"),
        (b"123", "0.12"),
        (b" 45230 \n", "45.23"),
        (b"+45230", "45.23"),
    ];
    for (raw, expect) in cases {
        let mut s = Sensor::<()>::new("/sys/class/hwmon/hwmon0", 1, "temp").unwrap();
        let r = s.poll(0, &SensorInput::Temp { raw: Some(raw.to_vec()) }).unwrap();
        match r {
            PollResult::Data(v, _) => assert_eq!(v[0].data, expect),
            PollResult::Delay(_) => panic!("expected readings"),
        }
    }
}

#[test]
fn temperature_parse_failure() {
    let mut s = Sensor::<()>::new("/sys/class/hwmon/hwmon0", 30000, "temp").unwrap();
    let e = s.poll(0, &SensorInput::Temp { raw: Some(b"12a".to_vec()) }).unwrap_err();
    assert_eq!(e, SensorError::ParseFailure);
    let e = s.poll(0, &SensorInput::Temp { raw: Some(b"".to_vec()) }).unwrap_err();
    assert_eq!(e, SensorError::ParseFailure);
    let e = s
        .poll(0, &SensorInput::Temp { raw: Some(b"99999999999999999999".to_vec()) })
        .unwrap_err();
    assert_eq!(e, SensorError::ParseFailure);
}

#[test]
fn network_first_sample_is_baseline_only() {
    let mut s = Sensor::<NetData>::new("/sys/class/net/eth0", 5000, "net").unwrap();
    let r = s
        .poll(0, &SensorInput::Net { tx: Some(b"1000".to_vec()), rx: Some(b"0".to_vec()) })
        .unwrap();
    match r {
        PollResult::Data(v, next) => {
            assert_eq!(v.len(), 0);
            assert_eq!(next, 5000);
        },
        PollResult::Delay(_) => panic!("a never-sampled sensor must be due"),
    }
    // The baseline was stored: the next poll computes a rate from it.
    let r = s
        .poll(5000, &SensorInput::Net { tx: Some(b"1500".to_vec()), rx: Some(b"0".to_vec()) })
        .unwrap();
    match r {
        PollResult::Data(v, _) => assert_eq!(v.len(), 2),
        PollResult::Delay(_) => panic!("expected readings"),
    }
}

#[test]
fn network_rate_is_delta_over_elapsed_seconds() {
    let mut s = Sensor::<NetData>::new("/sys/class/net/eth0", 5000, "net").unwrap();
    s.poll(0, &SensorInput::Net { tx: Some(b"1000".to_vec()), rx: Some(b"2000".to_vec()) })
        .unwrap();
    let r = s
        .poll(5000, &SensorInput::Net { tx: Some(b"1500".to_vec()), rx: Some(b"2000".to_vec()) })
        .unwrap();
    match r {
        PollResult::Data(v, _) => {
            assert_eq!(v.len(), 2);
            assert_eq!(v[0].suffix, "/tx");
            assert_eq!(v[0].data, "100");
            assert_eq!(v[1].suffix, "/rx");
            assert_eq!(v[1].data, "0");
        },
        PollResult::Delay(_) => panic!("expected readings"),
    }
}

#[test]
fn network_rate_rounds_to_nearest() {
    let mut s = Sensor::<NetData>::new("/sys/class/net/eth0", 1000, "net").unwrap();
    s.poll(0, &SensorInput::Net { tx: Some(b"0".to_vec()), rx: Some(b"0".to_vec()) }).unwrap();
    // 2 bytes over 4 seconds: 0.5 bytes per second rounds up to 1.
    let r = s
        .poll(4000, &SensorInput::Net { tx: Some(b"2".to_vec()), rx: Some(b"503".to_vec()) })
        .unwrap();
    match r {
        PollResult::Data(v, _) => {
            assert_eq!(v[0].data, "1");
            // 503 over 4 seconds is 125.75: rendered as 126.
            assert_eq!(v[1].data, "126");
        },
        PollResult::Delay(_) => panic!("expected readings"),
    }
}

#[test]
fn network_counter_wraparound_is_not_corrected() {
    let mut s = Sensor::<NetData>::new("/sys/class/net/eth0", 1000, "net").unwrap();
    s.poll(
        0,
        &SensorInput::Net {
            tx: Some(b"18446744073709551615".to_vec()),
            rx: Some(b"0".to_vec()),
        },
    )
    .unwrap();
    let r = s
        .poll(1000, &SensorInput::Net { tx: Some(b"4".to_vec()), rx: Some(b"0".to_vec()) })
        .unwrap();
    match r {
        // The counter stepped over the 64-bit edge: the delta reads as 5.
        PollResult::Data(v, _) => assert_eq!(v[0].data, "5"),
        PollResult::Delay(_) => panic!("expected readings"),
    }
}

#[test]
fn network_read_failure_precedence() {
    let mut s = Sensor::<NetData>::new("/sys/class/net/eth0", 5000, "net").unwrap();
    // tx is read first: its failure wins over the rx parse failure.
    let e = s.poll(0, &SensorInput::Net { tx: None, rx: Some(b"bad".to_vec()) }).unwrap_err();
    assert_eq!(e, SensorError::ReadFailure);
    let e = s
        .poll(0, &SensorInput::Net { tx: Some(b"1".to_vec()), rx: Some(b"bad".to_vec()) })
        .unwrap_err();
    assert_eq!(e, SensorError::ParseFailure);
    // No state was stored by the failures.
    assert!(s.check_due(0));
}

#[test]
fn error_descriptions() {
    assert_eq!(SensorError::ReadFailure.describe(), "read failure");
    assert_eq!(SensorError::ParseFailure.describe(), "parse failure");
}
