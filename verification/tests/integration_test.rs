use mqtt_system_monitor::configuration::{ConfigError, Configuration};
use mqtt_system_monitor::daemon::{Counters, Daemon, Probe, RefreshPlan, Sample};
use mqtt_system_monitor::home_assistant::Sensor;
use mqtt_system_monitor::rate::Rate;
use mqtt_system_monitor::status::{NetworkStatus, Reading, StatusMessage};
use serde_json::Value;
use std::collections::HashMap;

fn reading(value: f32) -> Reading {
    Reading {
        bits: value.to_bits(),
    }
}

fn probes() -> Vec<Probe> {
    vec![
        Probe {
            id: "coretemp".to_string(),
            label: "Core 0".to_string(),
        },
        Probe {
            id: "nvme".to_string(),
            label: "Disk".to_string(),
        },
        Probe {
            id: "acpitz".to_string(),
            label: "Board".to_string(),
        },
    ]
}

fn sample(tx: u64, rx: u64) -> Sample {
    let mut sample = Sample::new();
    sample.cpu_usage = Some(reading(12.5));
    sample.memory_usage = Some(reading(40.0));
    sample.temperatures.insert("coretemp".to_string(), reading(51.0));
    sample.temperatures.insert("nvme".to_string(), reading(38.5));
    sample.temperatures.insert("acpitz".to_string(), reading(27.0));
    sample.interfaces.insert(
        "eth0".to_string(),
        Counters {
            transmitted: tx,
            received: rx,
        },
    );
    sample.interfaces.insert(
        "lo".to_string(),
        Counters {
            transmitted: 7,
            received: 7,
        },
    );
    sample
}

fn configuration() -> Configuration {
    let mut conf = Configuration::with_defaults("Test Entity".to_string());
    conf.sensors.network = vec!["eth0".to_string()];
    conf.sensors.temperature = vec!["coretemp".to_string(), "nvme".to_string()];
    conf
}

/// The status as it is sent: the readings as numbers, the rates in KiB/s.
fn status_json(status: &StatusMessage) -> Value {
    let mut doc = serde_json::Map::new();
    doc.insert("available".to_string(), Value::from(status.available));
    doc.insert(
        "cpu_usage".to_string(),
        Value::from(status.cpu_usage.map(|r| f32::from_bits(r.bits))),
    );
    doc.insert(
        "memory_usage".to_string(),
        Value::from(status.memory_usage.map(|r| f32::from_bits(r.bits))),
    );
    let mut temperature = serde_json::Map::new();
    for i in 0..status.temperature.len() {
        temperature.insert(
            status.temperature.key_at(i).clone(),
            Value::from(f32::from_bits(status.temperature.value_at(i).bits)),
        );
    }
    doc.insert("temperature".to_string(), Value::Object(temperature));
    let mut network = serde_json::Map::new();
    for i in 0..status.network.len() {
        let rates = status.network.value_at(i);
        let mut entry = serde_json::Map::new();
        entry.insert(
            "tx".to_string(),
            Value::from(rates.tx.bytes_per_second as f64 / 1024.0),
        );
        entry.insert(
            "rx".to_string(),
            Value::from(rates.rx.bytes_per_second as f64 / 1024.0),
        );
        network.insert(status.network.key_at(i).clone(), Value::Object(entry));
    }
    doc.insert("network".to_string(), Value::Object(network));
    Value::Object(doc)
}

#[test]
fn test_default_config() {
    let conf = Configuration::with_defaults("host".to_string());

    assert_eq!(conf.mqtt.host, String::from("localhost"));
    assert_eq!(conf.mqtt.port, 1883);
    assert_eq!(conf.mqtt.user, "");
    assert_eq!(conf.mqtt.password, "");
    assert_eq!(conf.mqtt.registration_prefix, String::from("homeassistant"));
    assert_eq!(conf.mqtt.update_period, 10);
    assert_eq!(conf.mqtt.entity, "host");
    assert_eq!(conf.log_verbosity, 2);

    // Sensors are off by default
    assert!(conf.sensors.temperature.is_empty());
    assert!(conf.sensors.network.is_empty());

    assert_eq!(conf.validate(), Ok(()));
}

#[test]
fn configuration_with_a_wrong_period_is_refused() {
    let mut conf = Configuration::with_defaults("host".to_string());
    conf.mqtt.update_period = 0;
    assert_eq!(conf.validate(), Err(ConfigError::ZeroPeriod));
    assert_eq!(
        Daemon::new(conf.clone(), &Vec::new()).err(),
        Some(ConfigError::ZeroPeriod)
    );
    conf.mqtt.update_period = 60;
    assert_eq!(conf.validate(), Err(ConfigError::PeriodTooLong));
    assert_eq!(
        Daemon::new(conf.clone(), &Vec::new()).err(),
        Some(ConfigError::PeriodTooLong)
    );
    conf.mqtt.update_period = 31;
    assert_eq!(conf.validate(), Err(ConfigError::PeriodTooLong));
    conf.mqtt.update_period = 30;
    assert_eq!(conf.validate(), Ok(()));
}

#[test]
fn test_empty_values() {
    let conf = Configuration::with_defaults("host".to_string());

    let mut daemon = Daemon::new(conf, &probes()).unwrap();

    let status = daemon.update_data(&sample(0, 0));
    assert!(status.network.is_empty());
    assert!(status.temperature.is_empty());

    let status = daemon.update_data(&sample(10, 10));

    assert!(status.network.is_empty());
    assert!(status.temperature.is_empty());

    daemon.register_sensors();

    let descriptor = daemon.registration_descriptor();

    assert!(descriptor.has_sensor(Sensor::CpuUsage));
}

#[test]
fn test_selection() {
    let conf = configuration();

    let interface = conf.sensors.network.clone();
    let temp_sensor = conf.sensors.temperature.clone();

    let mut daemon = Daemon::new(conf, &probes()).unwrap();

    daemon.register_sensors();

    let status = daemon.update_data(&sample(1000, 2000));

    // At the first call there is no transfer rate yet
    assert!(status.network.get(interface.first().unwrap()).is_none());
    if !temp_sensor.is_empty() {
        assert!(!status.temperature.is_empty());
    }

    let status = daemon.update_data(&sample(1000, 2000));
    let network_status = status.network.get(interface.first().unwrap());

    let descriptor = daemon.registration_descriptor();

    assert!(descriptor.has_sensor(Sensor::CpuUsage));

    // After the first call we always have a value, it can be zero if the network interface didn't get used
    assert!(network_status.is_some());
    assert_eq!(network_status.unwrap().rx, Rate { bytes_per_second: 0 });
    assert_eq!(network_status.unwrap().tx, Rate { bytes_per_second: 0 });
    assert_eq!(temp_sensor.is_empty(), status.temperature.is_empty());

    // Only the configured probes and interfaces are reported
    assert_eq!(status.temperature.len(), 2);
    assert_eq!(
        status.temperature.get(&"coretemp".to_string()),
        Some(&reading(51.0))
    );
    assert_eq!(
        status.temperature.get(&"nvme".to_string()),
        Some(&reading(38.5))
    );
    assert!(status.temperature.get(&"acpitz".to_string()).is_none());
    assert_eq!(status.network.len(), 1);
    assert!(status.network.get(&"lo".to_string()).is_none());
}

#[test]
fn integration_test_test_registration() {
    let mut conf = configuration();

    let first_interface = conf.sensors.network.first().unwrap().clone();
    let first_temp = conf.sensors.temperature.first().map(|s| s.clone());

    let prefix = "test_prefix";
    conf.mqtt.entity = "Test Entity".to_string();

    let mut daemon = Daemon::new(conf, &probes()).unwrap();
    daemon.register_sensors();
    let descriptor = daemon.registration_descriptor();
    assert_eq!(
        descriptor.discovery_topic(prefix),
        "test_prefix/device/test_entity/config"
    );

    let json: HashMap<String, Value> =
        serde_json::from_str(descriptor.to_string().as_str()).unwrap();
    assert_eq!(json["device"]["name"].as_str().unwrap(), "Test Entity");
    assert_eq!(
        json["device"]["identifiers"].as_str().unwrap(),
        "test_entity"
    );
    assert_eq!(
        json["state_topic"].as_str().unwrap(),
        "mqtt-system-monitor/test_entity/state"
    );
    if let Some(temp) = first_temp {
        assert_eq!(
            json["components"][format!("{temp}_temp")]["platform"]
                .as_str()
                .unwrap(),
            "sensor"
        );
        assert_eq!(
            json["components"][format!("{temp}_temp")]["unique_id"]
                .as_str()
                .unwrap(),
            format!("test_entity_{temp}_temp")
        );
    }
    assert_eq!(
        json["components"]["cpu_usage"]["platform"]
            .as_str()
            .unwrap(),
        "sensor"
    );
    assert_eq!(
        json["components"]["cpu_usage"]["unique_id"]
            .as_str()
            .unwrap(),
        "test_entity_cpu_usage"
    );
    assert_eq!(
        json["components"]["memory_usage"]["unique_id"]
            .as_str()
            .unwrap(),
        "test_entity_memory_usage"
    );
    assert_eq!(
        json["components"][format!("{first_interface}_net_rx")]["platform"]
            .as_str()
            .unwrap(),
        "sensor"
    );
    assert_eq!(
        json["components"][format!("{first_interface}_net_rx")]["unique_id"]
            .as_str()
            .unwrap(),
        format!("test_entity_{first_interface}_net_rx")
    );
    assert_eq!(
        json["components"][format!("{first_interface}_net_tx")]["platform"]
            .as_str()
            .unwrap(),
        "sensor"
    );
    assert_eq!(
        json["components"][format!("{first_interface}_net_tx")]["unique_id"]
            .as_str()
            .unwrap(),
        format!("test_entity_{first_interface}_net_tx")
    );

    // The whole catalog and nothing else: availability, two scalars, two probes, one interface
    assert_eq!(json["components"].as_object().unwrap().len(), 7);
    assert!(json["components"].get("acpitz_temp").is_none());
    assert_eq!(
        json["components"]["coretemp_temp"]["name"].as_str(),
        Some("Core 0")
    );

    let (topic, payload) = daemon.registration_message();
    assert_eq!(topic, "homeassistant/device/test_entity/config");
    assert_eq!(payload, daemon.registration_descriptor().to_string());
}

fn render(env: &minijinja::Environment, context: &minijinja::Value, name: &str) -> String {
    env.get_template(name)
        .expect("Invalid template")
        .render(context)
        .expect("Failed to render value")
}

#[test]
fn test_templates() {
    let mut conf = configuration();
    conf.sensors
        .network
        .push("disconnected_interface".to_string());

    let first_interface = conf.sensors.network.first().unwrap().clone();
    let first_temperature = conf.sensors.temperature.first().map(|s| s.clone());

    let mut daemon = Daemon::new(conf, &probes()).unwrap();

    daemon.register_sensors();

    daemon.update_data(&sample(0, 0));
    let status = daemon.update_data(&sample(15360, 5120));

    let registration = daemon.registration_descriptor();

    let mut root = serde_json::Map::new();
    root.insert("value_json".to_string(), status_json(&status));
    let context = minijinja::Value::from_serialize(&Value::Object(root));

    let mut env = minijinja::Environment::new();
    let components = registration.components();
    assert_eq!(components.len(), 9);
    for i in 0..components.len() {
        let name = components.key_at(i).clone();
        let device = components.value_at(i);
        env.add_template_owned(name.clone(), device.value_template().to_string())
            .expect("Invalid expression");
        let value = render(&env, &context, &name);

        assert!(!value.is_empty());
    }

    assert_eq!(render(&env, &context, "available"), "ON");
    assert_eq!(
        render(&env, &context, "cpu_usage").parse::<f32>().unwrap(),
        f32::from_bits(status.cpu_usage.unwrap().bits)
    );
    assert_eq!(
        render(&env, &context, "memory_usage")
            .parse::<f32>()
            .unwrap(),
        f32::from_bits(status.memory_usage.unwrap().bits)
    );
    assert_eq!(
        render(&env, &context, "disconnected_interface_net_rx").to_lowercase(),
        "none"
    );
    assert_eq!(
        render(&env, &context, "disconnected_interface_net_tx").to_lowercase(),
        "none"
    );
    assert_eq!(
        render(&env, &context, &format!("{first_interface}_net_rx"))
            .parse::<f64>()
            .unwrap(),
        status.network.get(&first_interface).unwrap().rx.bytes_per_second as f64 / 1024.0
    );
    assert_eq!(
        render(&env, &context, &format!("{first_interface}_net_tx"))
            .parse::<f64>()
            .unwrap(),
        status.network.get(&first_interface).unwrap().tx.bytes_per_second as f64 / 1024.0
    );
    assert_eq!(
        render(&env, &context, &format!("{first_interface}_net_tx"))
            .parse::<f64>()
            .unwrap(),
        1.5
    );

    if let Some(temp) = first_temperature {
        let name = format!("{temp}_temp");
        assert_eq!(
            render(&env, &context, &name).parse::<f32>().unwrap(),
            f32::from_bits(status.temperature.get(&temp).unwrap().bits)
        );
    }
}

#[test]
fn rates_of_two_cycles() {
    let mut conf = Configuration::with_defaults("host".to_string());
    conf.mqtt.update_period = 10;
    conf.sensors.network = vec!["eth0".to_string()];
    let mut daemon = Daemon::new(conf, &Vec::new()).unwrap();
    daemon.register_sensors();

    let first = daemon.update_data(&sample(0, 0));
    assert_eq!(first.available, "ON");
    assert!(first.network.is_empty());
    assert!(!first.has_value(&Sensor::NetRx("eth0".to_string())));
    assert!(!first.has_value(&Sensor::NetTx("eth0".to_string())));

    let second = daemon.update_data(&sample(20480, 10240));
    let rates = second.network.get(&"eth0".to_string()).unwrap();
    assert_eq!(
        *rates,
        NetworkStatus {
            tx: Rate {
                bytes_per_second: 2048
            },
            rx: Rate {
                bytes_per_second: 1024
            },
        }
    );
    assert_eq!(rates.tx.bytes_per_second as f64 / 1024.0, 2.0);
    assert_eq!(rates.rx.bytes_per_second as f64 / 1024.0, 1.0);
    assert!(second.has_value(&Sensor::NetRx("eth0".to_string())));
    assert!(second.has_value(&Sensor::NetTx("eth0".to_string())));
}

#[test]
fn counter_that_goes_back_gives_no_rates() {
    let mut conf = Configuration::with_defaults("host".to_string());
    conf.sensors.network = vec!["eth0".to_string(), "eth0".to_string()];
    let mut daemon = Daemon::new(conf, &Vec::new()).unwrap();
    daemon.register_sensors();
    assert_eq!(daemon.registration_descriptor().components().len(), 5);

    daemon.update_data(&sample(5000, 5000));
    let status = daemon.update_data(&sample(100, 6000));
    assert!(status.network.is_empty());
    let status = daemon.update_data(&sample(1100, 6000));
    let rates = status.network.get(&"eth0".to_string()).unwrap();
    assert_eq!(rates.tx.bytes_per_second, 100);
    assert_eq!(rates.rx.bytes_per_second, 0);
}

#[test]
fn interface_without_counters_is_left_out() {
    let mut conf = Configuration::with_defaults("host".to_string());
    conf.sensors.network = vec!["wlan0".to_string()];
    let mut daemon = Daemon::new(conf, &Vec::new()).unwrap();
    daemon.register_sensors();
    daemon.update_data(&sample(0, 0));
    let status = daemon.update_data(&sample(10, 10));
    assert!(status.network.is_empty());
    assert!(daemon
        .registration_descriptor()
        .has_sensor(Sensor::NetRx("wlan0".to_string())));
}

#[test]
fn status_when_leaving() {
    let status = StatusMessage::off();
    assert_eq!(status.available, "OFF");
    assert_eq!(status.cpu_usage, None);
    assert_eq!(status.memory_usage, None);
    assert!(status.temperature.is_empty());
    assert!(status.network.is_empty());
    assert!(status.has_value(&Sensor::Available));
    assert!(!status.has_value(&Sensor::CpuUsage));
    assert!(!status.has_value(&Sensor::MemoryUsage));
    assert_eq!(
        status_json(&status).to_string(),
        "{\"available\":\"OFF\",\"cpu_usage\":null,\"memory_usage\":null,\"network\":{},\"temperature\":{}}"
    );
}

#[test]
fn registered_sensors_have_their_value() {
    let mut daemon = Daemon::new(configuration(), &probes()).unwrap();
    daemon.register_sensors();
    daemon.update_data(&sample(0, 0));
    let status = daemon.update_data(&sample(10240, 10240));
    for sensor in [
        Sensor::Available,
        Sensor::CpuUsage,
        Sensor::MemoryUsage,
        Sensor::Temperature("coretemp".to_string(), "Core 0".to_string()),
        Sensor::Temperature("nvme".to_string(), "Disk".to_string()),
        Sensor::NetRx("eth0".to_string()),
        Sensor::NetTx("eth0".to_string()),
    ] {
        assert!(daemon.registration_descriptor().has_sensor(sensor.clone()));
        assert!(status.has_value(&sensor));
    }
}

#[test]
fn refresh_only_what_is_registered() {
    let mut daemon = Daemon::new(configuration(), &probes()).unwrap();
    assert_eq!(
        daemon.refresh_plan(),
        RefreshPlan {
            cpu: false,
            memory: false,
            network: true,
            temperature: false
        }
    );
    // Nothing is reported of a sensor that is not registered
    let status = daemon.update_data(&sample(0, 0));
    assert_eq!(status.cpu_usage, None);
    assert_eq!(status.memory_usage, None);
    assert!(status.temperature.is_empty());

    daemon.register_sensors();
    assert_eq!(
        daemon.refresh_plan(),
        RefreshPlan {
            cpu: true,
            memory: true,
            network: true,
            temperature: true
        }
    );
    let status = daemon.update_data(&sample(0, 0));
    assert_eq!(status.cpu_usage, Some(reading(12.5)));
    assert_eq!(status.memory_usage, Some(reading(40.0)));

    let mut plain = Daemon::new(Configuration::with_defaults("host".to_string()), &probes()).unwrap();
    plain.register_sensors();
    assert_eq!(
        plain.refresh_plan(),
        RefreshPlan {
            cpu: true,
            memory: true,
            network: false,
            temperature: false
        }
    );
}
