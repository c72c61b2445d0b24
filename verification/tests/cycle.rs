use sensorpoll::net::NetData;
use sensorpoll::poller::run_cycle;
use sensorpoll::sensor::{AnySensor, Sensor, SensorError, SensorInput};

fn temp_sensor(path: &str, interval_ms: u64) -> AnySensor {
    AnySensor::Temp(Sensor::<()>::new(path, interval_ms, "temp").unwrap())
}

fn net_sensor(path: &str, interval_ms: u64) -> AnySensor {
    AnySensor::Net(Sensor::<NetData>::new(path, interval_ms, "net").unwrap())
}

#[test]
fn failing_sensor_does_not_stop_the_cycle() {
    let mut sensors = vec![
        temp_sensor("/sys/class/hwmon/cpu", 30000),
        temp_sensor("/sys/class/hwmon/bad", 30000),
        temp_sensor("/sys/class/hwmon/board", 30000),
    ];
    let inputs = vec![
        SensorInput::Temp { raw: Some(b"45230".to_vec()) },
        SensorInput::Temp { raw: None },
        SensorInput::Temp { raw: Some(b"20000".to_vec()) },
    ];
    let out = run_cycle(&mut sensors, "home", 0, &inputs);
    // The sensors before and after the broken one both published.
    assert_eq!(out.emissions.len(), 2);
    assert_eq!(out.emissions[0].topic, "home/temp/cpu");
    assert_eq!(out.emissions[0].payload, "45.23");
    assert_eq!(out.emissions[1].topic, "home/temp/board");
    assert_eq!(out.emissions[1].payload, "20.00");
    // The failure was reported beside its sensor's name.
    assert_eq!(out.failures.len(), 1);
    assert_eq!(out.failures[0].sensor, "temp/bad");
    assert_eq!(out.failures[0].error, SensorError::ReadFailure);
}

#[test]
fn sleep_is_minimum_next_due() {
    let mut sensors = vec![
        temp_sensor("/sys/class/hwmon/cpu", 30000),
        net_sensor("/sys/class/net/eth0", 5000),
    ];
    let inputs = vec![
        SensorInput::Temp { raw: Some(b"1000".to_vec()) },
        SensorInput::Net { tx: Some(b"0".to_vec()), rx: Some(b"0".to_vec()) },
    ];
    let out = run_cycle(&mut sensors, "home", 0, &inputs);
    assert_eq!(out.sleep_ms, 5000);

    // 1 s later nothing is due: the remaining waits bound the sleep.
    let inputs = vec![
        SensorInput::Temp { raw: None },
        SensorInput::Net { tx: None, rx: None },
    ];
    let out = run_cycle(&mut sensors, "home", 1000, &inputs);
    assert_eq!(out.emissions.len(), 0);
    assert_eq!(out.failures.len(), 0);
    assert_eq!(out.sleep_ms, 4000);
}

#[test]
fn sleep_never_exceeds_sixty_seconds() {
    let mut sensors = vec![temp_sensor("/sys/class/hwmon/cpu", 600000)];
    let inputs = vec![SensorInput::Temp { raw: Some(b"1000".to_vec()) }];
    let out = run_cycle(&mut sensors, "home", 0, &inputs);
    assert_eq!(out.sleep_ms, 60000);

    // A cycle over no sensors sleeps the full cap too.
    let mut none: Vec<AnySensor> = Vec::new();
    let out = run_cycle(&mut none, "home", 0, &Vec::new());
    assert_eq!(out.sleep_ms, 60000);
    assert_eq!(out.emissions.len(), 0);
}

#[test]
fn failed_poll_puts_no_bound_on_sleep() {
    let mut sensors = vec![
        temp_sensor("/sys/class/hwmon/cpu", 7000),
        temp_sensor("/sys/class/hwmon/bad", 1000),
    ];
    let inputs = vec![
        SensorInput::Temp { raw: Some(b"1000".to_vec()) },
        SensorInput::Temp { raw: None },
    ];
    let out = run_cycle(&mut sensors, "home", 0, &inputs);
    // Only the successful sensor's interval bounds the sleep.
    assert_eq!(out.sleep_ms, 7000);
}

#[test]
fn network_topics_carry_suffixes() {
    let mut sensors = vec![net_sensor("/sys/class/net/eth0", 5000)];
    let inputs = vec![SensorInput::Net { tx: Some(b"1000".to_vec()), rx: Some(b"500".to_vec()) }];
    run_cycle(&mut sensors, "home", 0, &inputs);
    let inputs = vec![SensorInput::Net { tx: Some(b"1500".to_vec()), rx: Some(b"500".to_vec()) }];
    let out = run_cycle(&mut sensors, "home", 5000, &inputs);
    assert_eq!(out.emissions.len(), 2);
    assert_eq!(out.emissions[0].topic, "home/net/eth0/tx");
    assert_eq!(out.emissions[0].payload, "100");
    assert_eq!(out.emissions[1].topic, "home/net/eth0/rx");
    assert_eq!(out.emissions[1].payload, "0");
}

#[test]
fn readings_are_published_in_sensor_order() {
    let mut sensors = vec![
        temp_sensor("/sys/class/hwmon/a", 1000),
        temp_sensor("/sys/class/hwmon/b", 1000),
    ];
    let inputs = vec![
        SensorInput::Temp { raw: Some(b"1000".to_vec()) },
        SensorInput::Temp { raw: Some(b"2000".to_vec()) },
    ];
    let out = run_cycle(&mut sensors, "base", 0, &inputs);
    assert_eq!(out.emissions[0].topic, "base/temp/a");
    assert_eq!(out.emissions[1].topic, "base/temp/b");
}
