use sensorpoll::net::NetData;
use sensorpoll::sensor::{
    add_sensors, AnySensor, ConfigError, PollableSensor, Sensor, SensorInput, SensorKind,
};
use sensorpoll::vars::Vars;

#[test]
fn name_is_prefix_and_leaf() {
    let s = Sensor::<()>::new("/sys/class/hwmon/hwmon0", 30000, "temp").unwrap();
    assert_eq!(s.name(), "temp/hwmon0");
    let s = Sensor::<NetData>::new("/sys/class/net/eth0", 5000, "net").unwrap();
    assert_eq!(s.name(), "net/eth0");
}

#[test]
fn name_ignores_trailing_slashes() {
    let s = Sensor::<()>::new("/sys/class/hwmon/hwmon0///", 30000, "temp").unwrap();
    assert_eq!(s.name(), "temp/hwmon0");
    let s = Sensor::<()>::new("plain", 30000, "temp").unwrap();
    assert_eq!(s.name(), "temp/plain");
}

#[test]
fn invalid_paths_are_rejected() {
    for path in ["", "/", "///", ".", "..", "/sys/.."] {
        let e = Sensor::<()>::new(path, 30000, "temp").unwrap_err();
        assert_eq!(e, ConfigError::InvalidPath);
    }
}

#[test]
fn name_derivation_is_deterministic() {
    let a = Sensor::<()>::new("/sys/class/hwmon/hwmon0", 30000, "temp").unwrap();
    let b = Sensor::<()>::new("/sys/class/hwmon/hwmon0", 30000, "temp").unwrap();
    assert_eq!(a.name(), b.name());

    // Polling, however often, never changes the name.
    let mut s = a;
    for i in 0..5u64 {
        let _ = s.poll(i * 40000, &SensorInput::Temp { raw: Some(b"1000".to_vec()) });
        assert_eq!(s.name(), b.name());
    }
}

#[test]
fn add_sensors_appends_in_order() {
    let mut sensors: Vec<AnySensor> = Vec::new();
    let temp_paths = vec!["/sys/a".to_string(), "/sys/b".to_string()];
    let net_paths = vec!["/sys/class/net/eth0".to_string()];
    add_sensors(&temp_paths, 30000, "temp", SensorKind::Temp, &mut sensors).unwrap();
    add_sensors(&net_paths, 5000, "net", SensorKind::Net, &mut sensors).unwrap();
    assert_eq!(sensors.len(), 3);
    assert_eq!(sensors[0].name(), "temp/a");
    assert_eq!(sensors[1].name(), "temp/b");
    assert_eq!(sensors[2].name(), "net/eth0");
    assert!(matches!(sensors[2], AnySensor::Net(_)));
}

#[test]
fn add_sensors_stops_at_first_bad_path() {
    let mut sensors: Vec<AnySensor> = Vec::new();
    let paths = vec!["/sys/a".to_string(), "//".to_string(), "/sys/c".to_string()];
    let e = add_sensors(&paths, 30000, "temp", SensorKind::Temp, &mut sensors).unwrap_err();
    assert_eq!(e, ConfigError::InvalidPath);
    assert_eq!(sensors.len(), 1);
    assert_eq!(sensors[0].name(), "temp/a");
}

#[test]
fn vars_carry_configuration() {
    let vars = Vars {
        broker_url: "mqtt://localhost:1883".to_string(),
        base_topic: "home".to_string(),
        sensors_temp: vec!["/sys/class/hwmon/hwmon0".to_string()],
        sensors_net: vec!["/sys/class/net/eth0".to_string()],
    };
    let copy = vars.clone();
    assert_eq!(copy.base_topic, "home");
    assert_eq!(copy.sensors_temp.len(), 1);
    assert_eq!(copy.sensors_net[0], "/sys/class/net/eth0");
}
