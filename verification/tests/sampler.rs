use system_mqtt::config::DriveConfig;
use system_mqtt::metrics::{
    BatteryReading, BatteryState, CpuSampleState, CpuTimes, DiskReading, MemoryReading,
};
use system_mqtt::registry::{HomeAssistant, Message};
use system_mqtt::sampler::{cycle, Snapshot};

fn drives() -> Vec<DriveConfig> {
    vec![
        DriveConfig { path: String::from("/"), name: String::from("root") },
        DriveConfig { path: String::from("/home"), name: String::from("home") },
    ]
}

fn registry(names: &[&str]) -> HomeAssistant {
    let mut registry = HomeAssistant::new(String::from("host"));
    for name in names {
        registry.mark_registered(name);
    }
    registry
}

fn everything() -> HomeAssistant {
    registry(&[
        "availability",
        "uptime",
        "cpu",
        "memory",
        "swap",
        "battery_level",
        "battery_state",
        "root",
        "home",
    ])
}

fn full_snapshot() -> Snapshot {
    Snapshot {
        uptime: Some(43_200),
        cpu: Some(CpuTimes { user: 10, system: 10, idle: 60 }),
        memory: Some(MemoryReading { total: 100, available: 25 }),
        swap: Some(MemoryReading { total: 200, available: 150 }),
        disks: vec![
            Some(DiskReading { total: 1000, free: 100 }),
            Some(DiskReading { total: 1000, free: 999 }),
        ],
        batteries: vec![BatteryReading {
            state: BatteryState::Charging,
            energy: 50,
            energy_full: 100,
        }],
    }
}

fn state(name: &str, payload: &str) -> Message {
    Message {
        topic: format!("system-mqtt/host/{}", name),
        payload: String::from(payload),
        retain: false,
    }
}

#[test]
fn cycle_publishes_every_metric_in_order() {
    let previous = CpuSampleState::observe(&CpuTimes { user: 5, system: 5, idle: 30 });
    let (messages, next) = cycle(&everything(), &drives(), Some(previous), &full_snapshot());
    assert_eq!(
        messages,
        vec![
            state("uptime", "0.5"),
            state("cpu", "25"),
            state("memory", "75"),
            state("swap", "25"),
            state("root", "90"),
            state("home", "0.1"),
            state("battery_state", "charging"),
            state("battery_level", "050"),
        ]
    );
    let next = next.expect("the counters were read");
    assert_eq!(next.previous_used_time(), 20);
    assert_eq!(next.previous_total_time(), 80);
}

#[test]
fn cycle_publishes_one_value_for_each_drive() {
    let (messages, _) = cycle(&everything(), &drives(), None, &full_snapshot());
    for drive in drives() {
        let topic = format!("system-mqtt/host/{}", drive.name);
        let values: Vec<&Message> = messages.iter().filter(|m| m.topic == topic).collect();
        assert_eq!(values.len(), 1);
        let percent: f64 = values[0].payload.parse().expect("a number");
        assert!((0.0..=100.0).contains(&percent));
    }
}

#[test]
fn first_cpu_sample_seeds_without_a_value() {
    let (messages, next) = cycle(&everything(), &drives(), None, &full_snapshot());
    assert!(messages.iter().all(|m| m.topic != "system-mqtt/host/cpu"));
    assert_eq!(messages.len(), 7);
    assert_eq!(next.expect("seeded").previous_total_time(), 80);
}

#[test]
fn failed_queries_are_passed_over() {
    let previous = CpuSampleState::observe(&CpuTimes { user: 5, system: 5, idle: 30 });
    let snapshot = Snapshot {
        uptime: None,
        cpu: None,
        memory: None,
        swap: Some(MemoryReading { total: 0, available: 0 }),
        disks: vec![None, Some(DiskReading { total: 4, free: 1 })],
        batteries: Vec::new(),
    };
    let (messages, next) = cycle(&everything(), &drives(), Some(previous), &snapshot);
    assert_eq!(messages, vec![state("swap", "0"), state("home", "75")]);
    // The processor sample stays as it was.
    let next = next.expect("the previous sample is kept");
    assert_eq!(next.previous_used_time(), 10);
    assert_eq!(next.previous_total_time(), 40);
}

#[test]
fn drives_without_a_reading_are_passed_over() {
    let snapshot = Snapshot { disks: vec![Some(DiskReading { total: 10, free: 5 })], ..full_snapshot() };
    let (messages, _) = cycle(&registry(&["root", "home"]), &drives(), None, &snapshot);
    assert_eq!(messages, vec![state("root", "50")]);
}

#[test]
fn unregistered_sensors_are_not_published() {
    let previous = CpuSampleState::observe(&CpuTimes { user: 5, system: 5, idle: 30 });
    let (messages, _) =
        cycle(&registry(&["cpu", "home"]), &drives(), Some(previous), &full_snapshot());
    assert_eq!(messages, vec![state("cpu", "25"), state("home", "0.1")]);
    let (messages, _) = cycle(&registry(&[]), &drives(), Some(previous), &full_snapshot());
    assert_eq!(messages, Vec::new());
}

#[test]
fn only_the_first_battery_is_reported() {
    let snapshot = Snapshot {
        batteries: vec![
            BatteryReading { state: BatteryState::Full, energy: 90, energy_full: 100 },
            BatteryReading { state: BatteryState::Empty, energy: 1, energy_full: 100 },
        ],
        ..full_snapshot()
    };
    let (messages, _) =
        cycle(&registry(&["battery_state", "battery_level"]), &drives(), None, &snapshot);
    assert_eq!(messages, vec![state("battery_state", "full"), state("battery_level", "090")]);
}

#[test]
fn a_drive_three_quarters_full_is_reported_as_75() {
    let drives = vec![DriveConfig { path: String::from("/"), name: String::from("root") }];
    let snapshot = Snapshot {
        uptime: None,
        cpu: None,
        memory: None,
        swap: None,
        disks: vec![Some(DiskReading { total: 200, free: 50 })],
        batteries: Vec::new(),
    };
    let (messages, _) = cycle(&registry(&["root"]), &drives, None, &snapshot);
    assert_eq!(messages, vec![state("root", "75")]);
}

#[test]
fn two_cycles_measure_the_cpu_from_the_sample_before() {
    let only_cpu = |user: u64, idle: u64| Snapshot {
        uptime: None,
        cpu: Some(CpuTimes { user, system: 0, idle }),
        memory: None,
        swap: None,
        disks: Vec::new(),
        batteries: Vec::new(),
    };
    let registry = registry(&["cpu"]);
    let seed = CpuSampleState::observe(&CpuTimes { user: 100, system: 0, idle: 100 });
    let (first, state) = cycle(&registry, &Vec::new(), Some(seed), &only_cpu(150, 150));
    assert_eq!(first, vec![state_of("cpu", "50")]);
    let (second, _) = cycle(&registry, &Vec::new(), state, &only_cpu(150, 250));
    assert_eq!(second, vec![state_of("cpu", "0")]);
}

fn state_of(name: &str, payload: &str) -> Message {
    state(name, payload)
}
