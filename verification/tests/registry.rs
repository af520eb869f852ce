use system_mqtt::config::{Config, DriveConfig, Interval};
use system_mqtt::credentials::PasswordSource;
use system_mqtt::json::{object_text, Field};
use system_mqtt::registry::{
    descriptor_fields, discovery_message_from, HomeAssistant, Message, SensorDefinition,
};
use system_mqtt::sensors::{sensor_definition, FIXED_SENSORS};
use system_mqtt::topics::{
    availability_topic_text, discovery_topic_text, display_name_text, state_topic_text,
};

fn cpu_sensor() -> SensorDefinition {
    SensorDefinition {
        topic_class: String::from("sensor"),
        device_class: None,
        state_class: None,
        name: String::from("cpu"),
        unit: Some(String::from("%")),
        icon: Some(String::from("mdi:gauge")),
    }
}

fn field(key: &str, value: &str) -> Field {
    Field { key: String::from(key), value: String::from(value) }
}

#[test]
fn topics_are_exact() {
    assert_eq!(state_topic_text("host", "cpu"), "system-mqtt/host/cpu");
    assert_eq!(availability_topic_text("host"), "system-mqtt/host/availability");
    assert_eq!(
        discovery_topic_text("sensor", "host", "cpu"),
        "homeassistant/sensor/system-mqtt-host/cpu/config"
    );
    assert_eq!(display_name_text("host", "cpu"), "host-cpu");
}

#[test]
fn json_object_is_written_by_the_serialiser() {
    let fields = vec![field("name", "a \"quoted\" name"), field("icon", "mdi:gauge")];
    let text = object_text(&fields);
    assert_eq!(text, "{\"name\":\"a \\\"quoted\\\" name\",\"icon\":\"mdi:gauge\"}");
    assert_eq!(object_text(&Vec::new()), "{}");
}

#[test]
fn descriptor_has_the_members_that_are_set() {
    let fields = descriptor_fields("host", &cpu_sensor());
    let pairs: Vec<(String, String)> =
        fields.iter().map(|f| (f.key.clone(), f.value.clone())).collect();
    assert_eq!(
        pairs,
        vec![
            (String::from("name"), String::from("host-cpu")),
            (String::from("state_topic"), String::from("system-mqtt/host/cpu")),
            (String::from("unit_of_measurement"), String::from("%")),
            (String::from("icon"), String::from("mdi:gauge")),
        ]
    );
}

#[test]
fn descriptor_has_all_members_in_order() {
    let sensor = SensorDefinition {
        topic_class: String::from("sensor"),
        device_class: Some(String::from("battery")),
        state_class: Some(String::from("measurement")),
        name: String::from("battery_level"),
        unit: Some(String::from("%")),
        icon: Some(String::from("mdi:battery")),
    };
    let keys: Vec<String> = descriptor_fields("host", &sensor).into_iter().map(|f| f.key).collect();
    assert_eq!(
        keys,
        vec!["name", "device_class", "state_class", "state_topic", "unit_of_measurement", "icon"]
    );
}

#[test]
fn register_topic_describes_the_sensor() {
    let registry = HomeAssistant::new(String::from("host"));
    let message = registry.register_topic(&cpu_sensor());
    assert_eq!(message.topic, "homeassistant/sensor/system-mqtt-host/cpu/config");
    assert_eq!(
        message.payload,
        "{\"name\":\"host-cpu\",\"state_topic\":\"system-mqtt/host/cpu\",\"unit_of_measurement\":\"%\",\"icon\":\"mdi:gauge\"}"
    );
    assert!(message.retain);
    // Describing a sensor does not register it yet.
    assert!(!registry.is_registered("cpu"));
}

#[test]
fn descriptor_state_topic_is_the_topic_of_the_values() {
    let mut registry = HomeAssistant::new(String::from("host"));
    let described = registry.register_topic(&cpu_sensor());
    registry.mark_registered("cpu");
    let value = registry.publish("cpu", String::from("12.50")).expect("cpu is registered");
    let parsed: serde_json::Value = serde_json::from_str(&described.payload).unwrap();
    assert_eq!(parsed["state_topic"].as_str(), Some(value.topic.as_str()));
    assert_eq!(parsed["name"].as_str(), Some("host-cpu"));
    assert!(parsed.get("device_class").is_none());
    assert!(parsed.get("state_class").is_none());
}

#[test]
fn registering_twice_changes_nothing() {
    let mut registry = HomeAssistant::new(String::from("host"));
    let first = registry.register_topic(&cpu_sensor());
    registry.mark_registered("cpu");
    let second = registry.register_topic(&cpu_sensor());
    registry.mark_registered("cpu");
    assert_eq!(first, second);
    assert_eq!(registry.registered_topics(), &vec![String::from("cpu")]);
}

#[test]
fn publish_is_rejected_for_an_unregistered_sensor() {
    let mut registry = HomeAssistant::new(String::from("host"));
    assert_eq!(registry.publish("cpu", String::from("1.00")), None);
    registry.mark_registered("cpu");
    assert_eq!(
        registry.publish("cpu", String::from("1.00")),
        Some(Message {
            topic: String::from("system-mqtt/host/cpu"),
            payload: String::from("1.00"),
            retain: false,
        })
    );
    assert_eq!(registry.publish("memory", String::from("1.00")), None);
}

#[test]
fn availability_is_announced_retained() {
    let registry = HomeAssistant::new(String::from("host"));
    assert_eq!(registry.hostname(), "host");
    assert_eq!(
        registry.set_available(true),
        Message {
            topic: String::from("system-mqtt/host/availability"),
            payload: String::from("online"),
            retain: true,
        }
    );
    assert_eq!(registry.set_available(false).payload, "offline");
    assert_eq!(
        registry.disconnect(),
        Message {
            topic: String::from("system-mqtt/host/availability"),
            payload: String::from("offline"),
            retain: true,
        }
    );
}

#[test]
fn discovery_message_carries_the_body_given() {
    assert_eq!(
        discovery_message_from("host", &cpu_sensor(), String::from("{}")),
        Message {
            topic: String::from("homeassistant/sensor/system-mqtt-host/cpu/config"),
            payload: String::from("{}"),
            retain: true,
        }
    );
}

#[test]
fn descriptors_with_odd_characters_are_still_written() {
    let registry = HomeAssistant::new(String::from("h\"o\\st"));
    let sensor = SensorDefinition { name: String::from("dri\nve\u{1}"), ..cpu_sensor() };
    let message = registry.register_topic(&sensor);
    let parsed: serde_json::Value = serde_json::from_str(&message.payload).unwrap();
    assert_eq!(parsed["name"].as_str(), Some("h\"o\\st-dri\nve\u{1}"));
    assert_eq!(
        parsed["state_topic"].as_str(),
        Some("system-mqtt/h\"o\\st/dri\nve\u{1}")
    );
}

#[test]
fn sensors_come_in_the_fixed_order_then_the_drives() {
    let drives = vec![
        DriveConfig { path: String::from("/"), name: String::from("root") },
        DriveConfig { path: String::from("/home"), name: String::from("home") },
    ];
    let names: Vec<String> = (0..FIXED_SENSORS + 2)
        .map(|i| sensor_definition(&drives, i).expect("a sensor at this place").name)
        .collect();
    assert_eq!(
        names,
        vec![
            "availability",
            "uptime",
            "cpu",
            "memory",
            "swap",
            "battery_level",
            "battery_state",
            "root",
            "home"
        ]
    );
    assert_eq!(sensor_definition(&drives, FIXED_SENSORS + 2), None);
    assert_eq!(sensor_definition(&drives, usize::MAX), None);
}

#[test]
fn fixed_sensors_have_their_units_and_icons() {
    let drives = vec![DriveConfig { path: String::from("/"), name: String::from("root") }];
    let sensor = |i: usize| sensor_definition(&drives, i).unwrap();
    let plain = |name: &str, unit: Option<&str>, icon: &str| SensorDefinition {
        topic_class: String::from("sensor"),
        device_class: None,
        state_class: None,
        name: String::from(name),
        unit: unit.map(String::from),
        icon: Some(String::from(icon)),
    };
    assert_eq!(sensor(0), plain("availability", None, "mdi:check-network-outline"));
    assert_eq!(sensor(1), plain("uptime", Some("days"), "mdi:timer-sand"));
    assert_eq!(sensor(2), plain("cpu", Some("%"), "mdi:gauge"));
    assert_eq!(sensor(3), plain("memory", Some("%"), "mdi:gauge"));
    assert_eq!(sensor(4), plain("swap", Some("%"), "mdi:gauge"));
    let mut level = plain("battery_level", Some("%"), "mdi:battery");
    level.device_class = Some(String::from("battery"));
    assert_eq!(sensor(5), level);
    assert_eq!(sensor(6), plain("battery_state", None, "mdi:battery"));
    assert_eq!(sensor(7), plain("root", Some("%"), "mdi:folder"));
}

#[test]
fn default_config_watches_the_root_drive() {
    let config = Config::default();
    assert_eq!(
        config,
        Config {
            mqtt_server: String::from("mqtt://localhost"),
            username: None,
            password_source: PasswordSource::Keyring,
            update_interval: Interval { secs: 30, nanos: 0 },
            drives: vec![DriveConfig { path: String::from("/"), name: String::from("root") }],
        }
    );
}
