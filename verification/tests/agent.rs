use system_mqtt::agent::{
    Action, Agent, Credentials, Event, FatalError, Phase, SessionState,
};
use system_mqtt::config::{Config, DriveConfig, Interval};
use system_mqtt::credentials::{CredentialError, FileStat, PasswordSource, ProcessIdentity};
use system_mqtt::metrics::{
    BatteryReading, BatteryState, CpuTimes, DiskReading, MemoryReading,
};
use system_mqtt::registry::Message;
use system_mqtt::sampler::Snapshot;

fn me() -> ProcessIdentity {
    ProcessIdentity { uid: 1000, gid: 100 }
}

fn agent(config: Config) -> Agent {
    Agent::new(config, String::from("system-mqtt"), me(), String::from("host"))
}

fn with_secret_file() -> Config {
    Config {
        username: Some(String::from("alice")),
        password_source: PasswordSource::SecretFile(String::from("/etc/secret")),
        ..Config::default()
    }
}

fn step(agent: Agent, event: Event) -> (Agent, Action) {
    assert!(agent.awaits(&event), "the agent does not wait for {:?}", event);
    agent.step(event)
}

fn snapshot() -> Snapshot {
    Snapshot {
        uptime: Some(86_400),
        cpu: Some(CpuTimes { user: 10, system: 10, idle: 60 }),
        memory: Some(MemoryReading { total: 100, available: 25 }),
        swap: Some(MemoryReading { total: 200, available: 150 }),
        disks: vec![Some(DiskReading { total: 1000, free: 100 })],
        batteries: vec![BatteryReading {
            state: BatteryState::Discharging,
            energy: 50,
            energy_full: 100,
        }],
    }
}

/// Starts the agent, connects it and lets the broker take every descriptor
/// and the announcement. Returns the agent, waiting for its first tick, and
/// the messages it has published.
fn started(config: Config) -> (Agent, Vec<Message>) {
    let mut published = Vec::new();
    let (a, action) = step(agent(config), Event::Start);
    assert!(matches!(action, Action::Connect { .. }));
    let (mut a, mut action) = step(a, Event::Connected(true));
    while let Action::Publish(message) = action {
        published.push(message);
        let next = step(a, Event::Published(true));
        a = next.0;
        action = next.1;
    }
    assert_eq!(action, Action::ReadCpu);
    let (a, action) = step(a, Event::CpuRead(Some(CpuTimes { user: 5, system: 5, idle: 30 })));
    assert_eq!(action, Action::Wait(Interval { secs: 30, nanos: 0 }));
    (a, published)
}

#[test]
fn end_to_end_with_the_default_drive() {
    let config = Config {
        drives: vec![DriveConfig { path: String::from("/"), name: String::from("root") }],
        update_interval: Interval { secs: 30, nanos: 0 },
        ..Config::default()
    };
    let (a, startup) = started(config);

    // Startup: eight descriptors, then the announcement.
    assert_eq!(startup.len(), 9);
    assert!(startup.iter().all(|m| m.retain));
    assert_eq!(startup[0].topic, "homeassistant/sensor/system-mqtt-host/availability/config");
    assert_eq!(startup[7].topic, "homeassistant/sensor/system-mqtt-host/root/config");
    assert_eq!(
        startup[8],
        Message {
            topic: String::from("system-mqtt/host/availability"),
            payload: String::from("online"),
            retain: true,
        }
    );
    let mut registered = a.registry().registered_topics().clone();
    registered.sort();
    assert_eq!(
        registered,
        vec![
            "availability",
            "battery_level",
            "battery_state",
            "cpu",
            "memory",
            "root",
            "swap",
            "uptime"
        ]
    );
    assert_eq!(a.phase(), Phase::Waiting);
    assert_eq!(a.session_state(), SessionState::Connected);

    // One tick.
    let (a, action) = step(a, Event::Tick);
    assert_eq!(action, Action::Sample);
    assert_eq!(a.phase(), Phase::Sampling);
    let (mut a, mut action) = step(a, Event::Sampled(snapshot()));
    let mut values = Vec::new();
    while let Action::Publish(message) = action {
        values.push(message);
        let next = step(a, Event::Published(true));
        a = next.0;
        action = next.1;
    }
    assert_eq!(action, Action::Wait(Interval { secs: 30, nanos: 0 }));
    let topics: Vec<&str> = values.iter().map(|m| m.topic.as_str()).collect();
    assert_eq!(
        topics,
        vec![
            "system-mqtt/host/uptime",
            "system-mqtt/host/cpu",
            "system-mqtt/host/memory",
            "system-mqtt/host/swap",
            "system-mqtt/host/root",
            "system-mqtt/host/battery_state",
            "system-mqtt/host/battery_level",
        ]
    );
    assert!(values.iter().all(|m| !m.retain));
    for message in &values {
        if message.topic != "system-mqtt/host/battery_state" {
            let number: f64 = message.payload.parse().expect("a number");
            assert!(number >= 0.0);
        }
    }
    let root: f64 = values[4].payload.parse().unwrap();
    assert!((0.0..=100.0).contains(&root));
    assert_eq!(values[4].payload, "90");
    assert_eq!(values[5].payload, "discharging");
    assert_eq!(values[6].payload, "050");

    // Shutdown.
    let (a, action) = step(a, Event::Shutdown);
    assert_eq!(
        action,
        Action::Publish(Message {
            topic: String::from("system-mqtt/host/availability"),
            payload: String::from("offline"),
            retain: true,
        })
    );
    assert_eq!(a.session_state(), SessionState::Draining);
    let (a, action) = step(a, Event::Published(true));
    assert_eq!(action, Action::Disconnect);
    let (a, action) = step(a, Event::Disconnected(true));
    assert_eq!(action, Action::Exit(Ok(())));
    assert_eq!(a.phase(), Phase::Terminated);
    assert_eq!(a.session_state(), SessionState::Disconnected);
    assert_eq!(a.outcome(), Ok(()));
}

#[test]
fn secret_file_with_loose_mode_ends_before_connecting() {
    let (a, action) = step(agent(with_secret_file()), Event::Start);
    assert_eq!(action, Action::InspectSecretFile { path: String::from("/etc/secret") });
    assert_eq!(a.session_state(), SessionState::Disconnected);
    let stat = FileStat { mode: 0o640, uid: 1000, gid: 100 };
    let (a, action) = step(a, Event::FileInspected(Some(stat)));
    assert_eq!(
        action,
        Action::Exit(Err(FatalError::Credential(CredentialError::BadPermissions)))
    );
    assert_eq!(a.phase(), Phase::Terminated);
    assert!(a.registry().registered_topics().is_empty());
    // Nothing more is awaited: no connection, no message.
    assert!(!a.awaits(&Event::Connected(true)));
    assert!(!a.awaits(&Event::Published(true)));
    assert!(!a.awaits(&Event::Start));
}

#[test]
fn secret_file_of_another_owner_or_group_is_refused() {
    let (a, _) = step(agent(with_secret_file()), Event::Start);
    let stat = FileStat { mode: 0o600, uid: 0, gid: 100 };
    let (_, action) = step(a, Event::FileInspected(Some(stat)));
    assert_eq!(action, Action::Exit(Err(FatalError::Credential(CredentialError::WrongOwner))));

    let (a, _) = step(agent(with_secret_file()), Event::Start);
    let stat = FileStat { mode: 0o600, uid: 1000, gid: 0 };
    let (_, action) = step(a, Event::FileInspected(Some(stat)));
    assert_eq!(action, Action::Exit(Err(FatalError::Credential(CredentialError::WrongGroup))));

    let (a, _) = step(agent(with_secret_file()), Event::Start);
    let (_, action) = step(a, Event::FileInspected(None));
    assert_eq!(action, Action::Exit(Err(FatalError::Credential(CredentialError::Unreadable))));
}

#[test]
fn trusted_secret_file_is_read_and_trimmed() {
    let (a, _) = step(agent(with_secret_file()), Event::Start);
    let stat = FileStat { mode: 0o100600, uid: 1000, gid: 100 };
    let (a, action) = step(a, Event::FileInspected(Some(stat)));
    assert_eq!(action, Action::ReadSecretFile { path: String::from("/etc/secret") });
    let (a, action) = step(a, Event::FileRead(Some(String::from("hunter2\n"))));
    assert_eq!(
        action,
        Action::Connect {
            url: String::from("mqtt://localhost"),
            credentials: Some(Credentials {
                username: String::from("alice"),
                password: String::from("hunter2"),
            }),
        }
    );
    assert_eq!(a.phase(), Phase::Connecting);

    let (a, _) = step(agent(with_secret_file()), Event::Start);
    let (a, _) = step(a, Event::FileInspected(Some(stat)));
    let (_, action) = step(a, Event::FileRead(None));
    assert_eq!(action, Action::Exit(Err(FatalError::Credential(CredentialError::Unreadable))));
}

#[test]
fn keyring_password_is_looked_up_under_the_service() {
    let config = Config { username: Some(String::from("alice")), ..Config::default() };
    let (a, action) = step(agent(config), Event::Start);
    assert_eq!(
        action,
        Action::LookupKeyring {
            service: String::from("system-mqtt"),
            username: String::from("alice"),
        }
    );
    let (_, action) = step(a, Event::KeyringAnswered(Some(String::from("s3cret"))));
    assert_eq!(
        action,
        Action::Connect {
            url: String::from("mqtt://localhost"),
            credentials: Some(Credentials {
                username: String::from("alice"),
                password: String::from("s3cret"),
            }),
        }
    );
}

#[test]
fn missing_keyring_password_is_not_set() {
    let config = Config { username: Some(String::from("alice")), ..Config::default() };
    let (a, _) = step(agent(config), Event::Start);
    let (a, action) = step(a, Event::KeyringAnswered(None));
    assert_eq!(action, Action::Exit(Err(FatalError::Credential(CredentialError::NotSet))));
    assert_eq!(a.phase(), Phase::Terminated);
}

#[test]
fn without_a_username_the_password_source_is_ignored() {
    let config = Config {
        username: None,
        password_source: PasswordSource::SecretFile(String::from("/etc/secret")),
        ..Config::default()
    };
    let (_, action) = step(agent(config), Event::Start);
    assert_eq!(
        action,
        Action::Connect { url: String::from("mqtt://localhost"), credentials: None }
    );
}

#[test]
fn failed_connection_ends_the_run_without_a_farewell() {
    let (a, _) = step(agent(Config::default()), Event::Start);
    let (a, action) = step(a, Event::Connected(false));
    assert_eq!(action, Action::Exit(Err(FatalError::Connection)));
    assert_eq!(a.phase(), Phase::Terminated);
}

#[test]
fn failed_registration_is_fatal_and_still_says_goodbye() {
    let (a, _) = step(agent(Config::default()), Event::Start);
    let (a, action) = step(a, Event::Connected(true));
    assert!(matches!(action, Action::Publish(_)));
    assert_eq!(a.phase(), Phase::Registering(0));
    let (a, _) = step(a, Event::Published(true));
    assert_eq!(a.phase(), Phase::Registering(1));
    let (a, action) = step(a, Event::Published(false));
    match action {
        Action::Publish(message) => {
            assert_eq!(message.payload, "offline");
            assert!(message.retain);
        }
        other => panic!("expected the farewell, got {:?}", other),
    }
    // Only the sensor whose descriptor was taken is registered.
    assert_eq!(a.registry().registered_topics(), &vec![String::from("availability")]);
    // A failing farewell and a failing disconnect do not replace the error.
    let (a, action) = step(a, Event::Published(false));
    assert_eq!(action, Action::Disconnect);
    let (_, action) = step(a, Event::Disconnected(false));
    assert_eq!(
        action,
        Action::Exit(Err(FatalError::Registration))
    );
}

#[test]
fn failed_announcement_is_fatal() {
    let (a, _) = step(agent(Config::default()), Event::Start);
    let (mut a, _) = step(a, Event::Connected(true));
    for _ in 0..8 {
        a = step(a, Event::Published(true)).0;
    }
    assert_eq!(a.phase(), Phase::Announcing);
    let (a, action) = step(a, Event::Published(false));
    assert!(matches!(action, Action::Publish(_)));
    assert_eq!(a.phase(), Phase::Draining);
    let (a, _) = step(a, Event::Published(true));
    let (_, action) = step(a, Event::Disconnected(true));
    assert_eq!(action, Action::Exit(Err(FatalError::Availability)));
}

#[test]
fn failed_cleanup_does_not_change_a_good_outcome() {
    let (a, _) = started(Config::default());
    let (a, _) = step(a, Event::Shutdown);
    let (a, action) = step(a, Event::Published(false));
    assert_eq!(action, Action::Disconnect);
    let (_, action) = step(a, Event::Disconnected(false));
    assert_eq!(action, Action::Exit(Ok(())));
}

#[test]
fn failed_publishes_do_not_stop_the_cycle() {
    let (a, _) = started(Config::default());
    let (a, _) = step(a, Event::Tick);
    let (mut a, mut action) = step(a, Event::Sampled(snapshot()));
    let mut count = 0;
    while let Action::Publish(_) = action {
        count += 1;
        let next = step(a, Event::Published(false));
        a = next.0;
        action = next.1;
    }
    assert_eq!(count, 7);
    assert_eq!(a.phase(), Phase::Waiting);
}

#[test]
fn unseeded_cpu_is_seeded_by_the_first_cycle() {
    let (a, _) = step(agent(Config::default()), Event::Start);
    let (mut a, _) = step(a, Event::Connected(true));
    for _ in 0..9 {
        a = step(a, Event::Published(true)).0;
    }
    assert_eq!(a.phase(), Phase::Seeding);
    // The first reading of the counters fails.
    let (a, _) = step(a, Event::CpuRead(None));
    let (a, _) = step(a, Event::Tick);
    let (mut a, mut action) = step(a, Event::Sampled(snapshot()));
    let mut topics = Vec::new();
    while let Action::Publish(message) = action {
        topics.push(message.topic);
        let next = step(a, Event::Published(true));
        a = next.0;
        action = next.1;
    }
    assert!(!topics.contains(&String::from("system-mqtt/host/cpu")));
    assert_eq!(topics.len(), 6);
    // The second cycle has a sample to measure from: identical counters, no load.
    let (a, _) = step(a, Event::Tick);
    let (_, action) = step(a, Event::Sampled(Snapshot {
        uptime: None,
        memory: None,
        swap: None,
        disks: vec![None],
        batteries: Vec::new(),
        ..snapshot()
    }));
    assert_eq!(
        action,
        Action::Publish(Message {
            topic: String::from("system-mqtt/host/cpu"),
            payload: String::from("0"),
            retain: false,
        })
    );
}

#[test]
fn a_cycle_without_messages_goes_back_to_waiting() {
    let (a, _) = started(Config::default());
    let (a, _) = step(a, Event::Tick);
    let empty = Snapshot {
        uptime: None,
        cpu: None,
        memory: None,
        swap: None,
        disks: Vec::new(),
        batteries: Vec::new(),
    };
    let (a, action) = step(a, Event::Sampled(empty));
    assert_eq!(action, Action::Wait(Interval { secs: 30, nanos: 0 }));
    assert_eq!(a.phase(), Phase::Waiting);
}

#[test]
fn shutdown_is_awaited_only_between_cycles() {
    let (a, _) = started(Config::default());
    assert!(a.awaits(&Event::Shutdown));
    assert!(a.awaits(&Event::Tick));
    assert!(!a.awaits(&Event::Published(true)));
    let (a, _) = step(a, Event::Tick);
    assert!(!a.awaits(&Event::Shutdown));
    let (a, _) = step(a, Event::Sampled(snapshot()));
    assert_eq!(a.phase(), Phase::Publishing);
    assert!(!a.awaits(&Event::Shutdown));
    assert!(a.awaits(&Event::Published(false)));
}

#[test]
fn agent_publishes_50_then_0_for_the_cpu() {
    let (a, _) = step(agent(Config { drives: Vec::new(), ..Config::default() }), Event::Start);
    let (mut a, _) = step(a, Event::Connected(true));
    for _ in 0..8 {
        a = step(a, Event::Published(true)).0;
    }
    assert_eq!(a.phase(), Phase::Seeding);
    // The seed: it is remembered and gives no message.
    let (a, action) = step(a, Event::CpuRead(Some(CpuTimes { user: 100, system: 0, idle: 100 })));
    assert_eq!(action, Action::Wait(Interval { secs: 30, nanos: 0 }));
    let only_cpu = |user: u64, idle: u64| Snapshot {
        uptime: None,
        cpu: Some(CpuTimes { user, system: 0, idle }),
        memory: None,
        swap: None,
        disks: Vec::new(),
        batteries: Vec::new(),
    };
    let cpu = |payload: &str| {
        Action::Publish(Message {
            topic: String::from("system-mqtt/host/cpu"),
            payload: String::from(payload),
            retain: false,
        })
    };
    let (a, _) = step(a, Event::Tick);
    let (a, action) = step(a, Event::Sampled(only_cpu(150, 150)));
    assert_eq!(action, cpu("50"));
    let (a, action) = step(a, Event::Published(true));
    assert_eq!(action, Action::Wait(Interval { secs: 30, nanos: 0 }));
    let (a, _) = step(a, Event::Tick);
    let (a, action) = step(a, Event::Sampled(only_cpu(150, 250)));
    assert_eq!(action, cpu("0"));
    let (a, _) = step(a, Event::Published(true));
    let (a, _) = step(a, Event::Shutdown);
    let (a, _) = step(a, Event::Published(true));
    let (_, action) = step(a, Event::Disconnected(true));
    assert_eq!(action, Action::Exit(Ok(())));
}

#[test]
fn agent_reports_a_drive_three_quarters_full_as_75() {
    let (a, _) = started(Config::default());
    let (a, _) = step(a, Event::Tick);
    let snapshot = Snapshot {
        uptime: None,
        cpu: None,
        memory: None,
        swap: None,
        disks: vec![Some(DiskReading { total: 200, free: 50 })],
        batteries: Vec::new(),
    };
    let (a, action) = step(a, Event::Sampled(snapshot));
    assert_eq!(
        action,
        Action::Publish(Message {
            topic: String::from("system-mqtt/host/root"),
            payload: String::from("75"),
            retain: false,
        })
    );
    let (_, action) = step(a, Event::Published(true));
    assert_eq!(action, Action::Wait(Interval { secs: 30, nanos: 0 }));
}
