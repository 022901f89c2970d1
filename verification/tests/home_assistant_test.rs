use mqtt_system_monitor::home_assistant::{RegistrationDescriptor, Sensor};
use mqtt_system_monitor::DeviceComponent;

fn all_sensors() -> Vec<Sensor> {
    vec![
        Sensor::Available,
        Sensor::CpuUsage,
        Sensor::Temperature(String::new(), String::new()),
        Sensor::MemoryUsage,
        Sensor::NetRx(String::new()),
        Sensor::NetTx(String::new()),
    ]
}

#[test]
fn home_assistant_test_registration() {
    let name = "Test Entity";
    let entity = "test_entity";
    let mut descriptor = RegistrationDescriptor::new(name);

    all_sensors()
        .into_iter()
        .for_each(|sensor| descriptor.add_component(sensor));

    assert_eq!(descriptor.device().name, name);
    assert_eq!(descriptor.device().identifiers, entity);

    assert_eq!(
        descriptor.state_topic(),
        "mqtt-system-monitor/test_entity/state"
    );

    let components = descriptor.components();
    assert_eq!(components.len(), 6);
    for i in 0..components.len() {
        let key = components.key_at(i);
        let component = components.value_at(i);
        assert_eq!(component.unique_id, format!("{entity}_{}", key));
        if component.name.is_some() {
            assert_eq!(component.state_class, Some("measurement"));
        }
    }

    let cpu_usage = descriptor
        .components()
        .get(&"cpu_usage".to_string())
        .expect("component cpu_usage not found");

    assert_eq!(cpu_usage.device_class, None);
}

/// Test that all sensors can be created
#[test]
fn test_sensors() {
    let entity = "test_entity";

    for sensor in all_sensors() {
        let name = sensor.as_string();
        let component = DeviceComponent::new(sensor, entity);

        assert_eq!(component.unique_id, format!("{entity}_{name}"));
    }
}

#[test]
fn sensor_keys() {
    assert_eq!(Sensor::Available.as_string(), "available");
    assert_eq!(Sensor::CpuUsage.as_string(), "cpu_usage");
    assert_eq!(Sensor::MemoryUsage.as_string(), "memory_usage");
    assert_eq!(
        Sensor::Temperature("coretemp".to_string(), "Core".to_string()).as_string(),
        "coretemp_temp"
    );
    assert_eq!(Sensor::NetRx("eth0".to_string()).as_string(), "eth0_net_rx");
    assert_eq!(Sensor::NetTx("eth0".to_string()).as_string(), "eth0_net_tx");
}

#[test]
fn component_of_availability() {
    let c = DeviceComponent::new(Sensor::Available, "host");
    assert_eq!(c.name, None);
    assert_eq!(c.platform, "binary_sensor");
    assert_eq!(c.device_class, Some("connectivity"));
    assert_eq!(c.icon, None);
    assert_eq!(c.state_class, None);
    assert_eq!(c.unit_of_measurement, None);
    assert_eq!(c.unique_id, "host_available");
    assert_eq!(c.value_template(), "{{ value_json.available }}");
    assert_eq!(c.expire_after, None);
    assert_eq!(
        c.to_json(),
        "{\"name\":null,\"platform\":\"binary_sensor\",\"device_class\":\"connectivity\",\"unique_id\":\"host_available\",\"value_template\":\"{{ value_json.available }}\"}"
    );
}

#[test]
fn component_of_scalars() {
    let c = DeviceComponent::new(Sensor::CpuUsage, "host");
    assert_eq!(c.name.as_deref(), Some("CPU usage"));
    assert_eq!(c.platform, "sensor");
    assert_eq!(c.device_class, None);
    assert_eq!(c.icon, Some("mdi:cpu-64-bit"));
    assert_eq!(c.state_class, Some("measurement"));
    assert_eq!(c.unit_of_measurement, Some("%"));
    assert_eq!(c.unique_id, "host_cpu_usage");
    assert_eq!(c.value_template(), "{{ value_json.cpu_usage }}");
    assert_eq!(c.expire_after, Some(60));
    assert_eq!(
        c.to_json(),
        "{\"name\":\"CPU usage\",\"platform\":\"sensor\",\"device_class\":null,\"icon\":\"mdi:cpu-64-bit\",\"state_class\":\"measurement\",\"unit_of_measurement\":\"%\",\"unique_id\":\"host_cpu_usage\",\"value_template\":\"{{ value_json.cpu_usage }}\",\"expire_after\":60}"
    );

    let m = DeviceComponent::new(Sensor::MemoryUsage, "host");
    assert_eq!(m.name.as_deref(), Some("Memory usage"));
    assert_eq!(m.icon, Some("mdi:memory"));
    assert_eq!(m.unique_id, "host_memory_usage");
    assert_eq!(m.value_template(), "{{ value_json.memory_usage }}");
}

#[test]
fn component_of_temperature() {
    let c = DeviceComponent::new(
        Sensor::Temperature("coretemp".to_string(), "Core \"0\"".to_string()),
        "host",
    );
    assert_eq!(c.name.as_deref(), Some("Core \"0\""));
    assert_eq!(c.device_class, Some("temperature"));
    assert_eq!(c.unit_of_measurement, Some("°C"));
    assert_eq!(c.unique_id, "host_coretemp_temp");
    assert_eq!(
        c.value_template(),
        "{{ value_json.temperature.coretemp if value_json.temperature and value_json.temperature.coretemp else None }}"
    );
    // The label is escaped as JSON asks for
    assert!(c.to_json().starts_with("{\"name\":\"Core \\\"0\\\"\","));
}

#[test]
fn component_of_network() {
    let rx = DeviceComponent::new(Sensor::NetRx("eth0".to_string()), "host");
    assert_eq!(rx.name.as_deref(), Some("eth0 Network RX rate"));
    assert_eq!(rx.device_class, Some("data_rate"));
    assert_eq!(rx.unit_of_measurement, Some("KiB/s"));
    assert_eq!(rx.unique_id, "host_eth0_net_rx");
    assert_eq!(
        rx.value_template(),
        "{{ value_json.network.eth0.rx if value_json.network.eth0 else None }}"
    );
    let tx = DeviceComponent::new(Sensor::NetTx("eth0".to_string()), "host");
    assert_eq!(tx.name.as_deref(), Some("eth0 Network TX rate"));
    assert_eq!(tx.unique_id, "host_eth0_net_tx");
    assert_eq!(
        tx.value_template(),
        "{{ value_json.network.eth0.tx if value_json.network.eth0 else None }}"
    );
}

#[test]
fn topics_of_test_entity() {
    let descriptor = RegistrationDescriptor::new("Test Entity");
    assert_eq!(
        descriptor.discovery_topic("homeassistant"),
        "homeassistant/device/test_entity/config"
    );
    assert_eq!(
        descriptor.state_topic(),
        "mqtt-system-monitor/test_entity/state"
    );
}

#[test]
fn identifier_is_given_or_derived() {
    // The identifier is not the name handed back
    let derived = RegistrationDescriptor::new("Living Room PC");
    assert_eq!(derived.device().name, "Living Room PC");
    assert_eq!(derived.device().identifiers, "living_room_pc");

    let given = RegistrationDescriptor::with_identifier("Living Room PC", "pc".to_string());
    assert_eq!(given.device().identifiers, "pc");
    assert_eq!(given.state_topic(), "mqtt-system-monitor/pc/state");
    assert_eq!(given.discovery_topic("ha"), "ha/device/pc/config");
    assert_eq!(given.origin().name, "mqtt-system-monitor");
}

#[test]
fn registration_is_idempotent() {
    let mut descriptor = RegistrationDescriptor::new("host");
    assert!(!descriptor.has_sensor(Sensor::CpuUsage));

    descriptor.add_component(Sensor::CpuUsage);
    descriptor.add_component(Sensor::CpuUsage);
    assert!(descriptor.has_sensor(Sensor::CpuUsage));
    assert_eq!(descriptor.components().len(), 1);

    // Removing a sensor that is not there changes nothing
    let before = descriptor.to_string();
    descriptor.remove_sensor(Sensor::MemoryUsage);
    assert_eq!(descriptor.components().len(), 1);
    assert_eq!(descriptor.to_string(), before);

    descriptor.remove_sensor(Sensor::CpuUsage);
    assert!(!descriptor.has_sensor(Sensor::CpuUsage));
    assert_eq!(descriptor.components().len(), 0);
    descriptor.remove_sensor(Sensor::CpuUsage);
    assert_eq!(descriptor.components().len(), 0);
}

#[test]
fn registration_replaces_the_component() {
    let mut descriptor = RegistrationDescriptor::new("host");
    descriptor.add_component(Sensor::Temperature("t".to_string(), "Old".to_string()));
    descriptor.add_component(Sensor::Temperature("t".to_string(), "New".to_string()));
    let components = descriptor.components();
    assert_eq!(components.len(), 1);
    let c = components.get(&"t_temp".to_string()).unwrap();
    assert_eq!(c.name.as_deref(), Some("New"));
}

#[test]
fn empty_descriptor_as_json() {
    let descriptor = RegistrationDescriptor::with_identifier("Host", "host".to_string());
    assert_eq!(
        descriptor.to_string(),
        "{\"device\":{\"name\":\"Host\",\"identifiers\":\"host\"},\"origin\":{\"name\":\"mqtt-system-monitor\",\"sw_version\":\"0.5.0\",\"url\":\"https://github.com/mqtt-system-monitor/mqtt-system-monitor\"},\"components\":{},\"state_topic\":\"mqtt-system-monitor/host/state\"}"
    );
}

#[test]
fn descriptor_as_json_does_not_depend_on_the_order_of_registration() {
    let mut a = RegistrationDescriptor::new("host");
    a.add_component(Sensor::CpuUsage);
    a.add_component(Sensor::Available);
    let mut b = RegistrationDescriptor::new("host");
    b.add_component(Sensor::Available);
    b.add_component(Sensor::CpuUsage);
    // The text itself is the same: the components are written in the order of their keys
    assert_eq!(a.to_string(), b.to_string());
    assert_eq!(a.components().key_at(0), "available");
    assert_eq!(b.components().key_at(0), "available");
    assert_eq!(b.components().key_at(1), "cpu_usage");
    let a: serde_json::Value = serde_json::from_str(&a.to_string()).unwrap();
    let b: serde_json::Value = serde_json::from_str(&b.to_string()).unwrap();
    assert_eq!(a, b);
    assert_eq!(a["components"].as_object().unwrap().len(), 2);
    assert_eq!(a["components"]["cpu_usage"]["expire_after"].as_u64(), Some(60));
    assert!(a["components"]["available"]["name"].is_null());
    assert!(a["components"]["available"].get("expire_after").is_none());
}

#[test]
fn descriptor_with_two_components_as_json() {
    let mut descriptor = RegistrationDescriptor::with_identifier("Host", "host".to_string());
    descriptor.add_component(Sensor::NetRx("eth0".to_string()));
    descriptor.add_component(Sensor::Available);
    assert_eq!(
        descriptor.to_string(),
        "{\"device\":{\"name\":\"Host\",\"identifiers\":\"host\"},\"origin\":{\"name\":\"mqtt-system-monitor\",\"sw_version\":\"0.5.0\",\"url\":\"https://github.com/mqtt-system-monitor/mqtt-system-monitor\"},\"components\":{\"available\":{\"name\":null,\"platform\":\"binary_sensor\",\"device_class\":\"connectivity\",\"unique_id\":\"host_available\",\"value_template\":\"{{ value_json.available }}\"},\"eth0_net_rx\":{\"name\":\"eth0 Network RX rate\",\"platform\":\"sensor\",\"device_class\":\"data_rate\",\"state_class\":\"measurement\",\"unit_of_measurement\":\"KiB/s\",\"unique_id\":\"host_eth0_net_rx\",\"value_template\":\"{{ value_json.network.eth0.rx if value_json.network.eth0 else None }}\",\"expire_after\":60}},\"state_topic\":\"mqtt-system-monitor/host/state\"}"
    );
}
