//! The life of the agent as a state machine: from the password, over the
//! connection, the registration of the sensors and the poll cycles, to the
//! farewell.
//!
//! The machine decides; it does nothing by itself. Each step takes what has
//! just happened and says what is to be done next. Whoever runs the agent
//! carries that action out and comes back with its result.

use vstd::prelude::*;
use vstd::string::*;
use crate::config::{Config, ConfigView, DriveView, Interval};
use crate::credentials::{
    check_secret_file, secret_file_verdict, secret_from_file, trimmed, CredentialError, FileStat,
    PasswordSource, PasswordSourceView, ProcessIdentity, OWNER_READ_WRITE, PERMISSION_MASK,
};
use crate::metrics::{CpuSampleState, CpuTimes};
use crate::registry::{
    availability_message, discovery_message, lemma_registering_twice, marked, message_views,
    HomeAssistant, HomeAssistantView, Message, MessageView, SensorView,
};
use crate::sampler::{cycle, cycle_messages, next_sample, sample_view, Snapshot, SnapshotView};
use crate::sensors::{sensor_definition, sensors, FIXED_SENSORS};
use crate::text::optional_text;

verus! {

/// Where in its life the agent stands: what it is waiting for.
#[derive(Clone, Copy, Debug, PartialEq, Eq, Structural)]
pub enum Phase {
    /// Nothing has been asked for yet.
    Created,
    /// The keyring has been asked for the password.
    ResolvingKeyring,
    /// The secret file is being inspected.
    InspectingFile,
    /// The secret file is being read.
    ReadingFile,
    /// The connection to the broker is being made.
    Connecting,
    /// The descriptor of the sensor at this place is on its way.
    Registering(usize),
    /// The announcement that the agent runs is on its way.
    Announcing,
    /// The processor counters are being read for the first time.
    Seeding,
    /// The next tick, or the signal to shut down, is awaited.
    Waiting,
    /// The host is being sampled.
    Sampling,
    /// A value of the running cycle is on its way.
    Publishing,
    /// The announcement that the agent no longer runs is on its way.
    Draining,
    /// The connection is being closed.
    Disconnecting,
    /// The run is over.
    Terminated,
}

/// The state of the session with the broker.
#[derive(Clone, Copy, Debug, PartialEq, Eq, Structural)]
pub enum SessionState {
    Disconnected,
    Connected,
    Draining,
}

/// The session state that goes with a phase: connected from the moment the
/// broker has answered until the farewell begins, draining until the
/// connection is closed.
pub open spec fn session_of(phase: Phase) -> SessionState {
    match phase {
        Phase::Registering(_) | Phase::Announcing | Phase::Seeding | Phase::Waiting
        | Phase::Sampling | Phase::Publishing => SessionState::Connected,
        Phase::Draining | Phase::Disconnecting => SessionState::Draining,
        _ => SessionState::Disconnected,
    }
}

/// An error that ends the run.
#[derive(Clone, Copy, Debug, PartialEq, Eq, Structural)]
pub enum FatalError {
    /// No password could be had.
    Credential(CredentialError),
    /// The broker could not be reached.
    Connection,
    /// The broker did not take the descriptor of a sensor.
    Registration,
    /// The announcement that the agent runs was not taken.
    Availability,
}

/// A login at the broker.
#[derive(Clone, Debug, PartialEq, Eq)]
pub struct Credentials {
    pub username: String,
    pub password: String,
}

/// A login as characters.
pub struct CredentialsView {
    pub username: Seq<char>,
    pub password: Seq<char>,
}

impl View for Credentials {
    type V = CredentialsView;

    open spec fn view(&self) -> CredentialsView {
        CredentialsView { username: self.username@, password: self.password@ }
    }
}

/// What is to be done next.
#[derive(Debug, PartialEq, Eq)]
pub enum Action {
    /// Ask the keyring for the password of `username` under `service`.
    LookupKeyring { service: String, username: String },
    /// Find out the mode and the owner of the file at `path`.
    InspectSecretFile { path: String },
    /// Read the file at `path`.
    ReadSecretFile { path: String },
    /// Connect to the broker at `url`, with the login if there is one.
    Connect { url: String, credentials: Option<Credentials> },
    /// Publish the message.
    Publish(Message),
    /// Read the processor counters.
    ReadCpu,
    /// Wait until the interval has passed or the signal to shut down comes,
    /// whichever is first.
    Wait(Interval),
    /// Take a snapshot of the host.
    Sample,
    /// Close the connection to the broker.
    Disconnect,
    /// Stop, with this result.
    Exit(Result<(), FatalError>),
}

/// An action as characters.
pub enum ActionView {
    LookupKeyring { service: Seq<char>, username: Seq<char> },
    InspectSecretFile { path: Seq<char> },
    ReadSecretFile { path: Seq<char> },
    Connect { url: Seq<char>, credentials: Option<CredentialsView> },
    Publish(MessageView),
    ReadCpu,
    Wait(Interval),
    Sample,
    Disconnect,
    Exit(Result<(), FatalError>),
}

impl View for Action {
    type V = ActionView;

    open spec fn view(&self) -> ActionView {
        match self {
            Action::LookupKeyring { service, username } => ActionView::LookupKeyring {
                service: service@,
                username: username@,
            },
            Action::InspectSecretFile { path } => ActionView::InspectSecretFile { path: path@ },
            Action::ReadSecretFile { path } => ActionView::ReadSecretFile { path: path@ },
            Action::Connect { url, credentials } => ActionView::Connect {
                url: url@,
                credentials: match credentials {
                    Some(c) => Some(c@),
                    None => None,
                },
            },
            Action::Publish(message) => ActionView::Publish(message@),
            Action::ReadCpu => ActionView::ReadCpu,
            Action::Wait(interval) => ActionView::Wait(*interval),
            Action::Sample => ActionView::Sample,
            Action::Disconnect => ActionView::Disconnect,
            Action::Exit(outcome) => ActionView::Exit(*outcome),
        }
    }
}

/// What has just happened.
#[derive(Debug)]
pub enum Event {
    /// The agent has been started.
    Start,
    /// The keyring has answered: with the password, or with none.
    KeyringAnswered(Option<String>),
    /// The secret file has been inspected, or could not be.
    FileInspected(Option<FileStat>),
    /// The secret file has been read, or could not be.
    FileRead(Option<String>),
    /// The broker has been reached, or not.
    Connected(bool),
    /// The message has been taken by the broker, or not.
    Published(bool),
    /// The processor counters have been read, or could not be.
    CpuRead(Option<CpuTimes>),
    /// The interval has passed.
    Tick,
    /// The signal to shut down has come.
    Shutdown,
    /// The host has been sampled.
    Sampled(Snapshot),
    /// The connection has been closed, or closing it has failed.
    Disconnected(bool),
}

/// An event as characters and sequences.
pub enum EventView {
    Start,
    KeyringAnswered(Option<Seq<char>>),
    FileInspected(Option<FileStat>),
    FileRead(Option<Seq<char>>),
    Connected(bool),
    Published(bool),
    CpuRead(Option<CpuTimes>),
    Tick,
    Shutdown,
    Sampled(SnapshotView),
    Disconnected(bool),
}

impl View for Event {
    type V = EventView;

    open spec fn view(&self) -> EventView {
        match self {
            Event::Start => EventView::Start,
            Event::KeyringAnswered(found) => EventView::KeyringAnswered(optional_text(*found)),
            Event::FileInspected(stat) => EventView::FileInspected(*stat),
            Event::FileRead(contents) => EventView::FileRead(optional_text(*contents)),
            Event::Connected(ok) => EventView::Connected(*ok),
            Event::Published(ok) => EventView::Published(*ok),
            Event::CpuRead(times) => EventView::CpuRead(*times),
            Event::Tick => EventView::Tick,
            Event::Shutdown => EventView::Shutdown,
            Event::Sampled(snapshot) => EventView::Sampled(snapshot@),
            Event::Disconnected(ok) => EventView::Disconnected(*ok),
        }
    }
}

/// The state of the agent.
pub struct AgentView {
    pub config: ConfigView,
    /// The name under which the keyring keeps the password.
    pub service: Seq<char>,
    /// The user and group as which the agent runs.
    pub identity: ProcessIdentity,
    pub registry: HomeAssistantView,
    pub phase: Phase,
    /// The previous processor sample, once there has been one.
    pub cpu: Option<(nat, nat)>,
    /// The messages of the running cycle that are still to be published.
    pub outbox: Seq<MessageView>,
    /// How the run will be said to have ended.
    pub outcome: Result<(), FatalError>,
}

/// The agent before its start.
pub open spec fn created(
    config: ConfigView,
    service: Seq<char>,
    identity: ProcessIdentity,
    hostname: Seq<char>,
) -> AgentView {
    AgentView {
        config,
        service,
        identity,
        registry: HomeAssistantView { hostname, names: Seq::empty() },
        phase: Phase::Created,
        cpu: None,
        outbox: Seq::empty(),
        outcome: Ok(()),
    }
}

/// Whether the agent, in the phase `phase`, is waiting for `event`.
pub open spec fn awaits(phase: Phase, event: EventView) -> bool {
    match phase {
        Phase::Created => event is Start,
        Phase::ResolvingKeyring => event is KeyringAnswered,
        Phase::InspectingFile => event is FileInspected,
        Phase::ReadingFile => event is FileRead,
        Phase::Connecting => event is Connected,
        Phase::Registering(_) | Phase::Announcing | Phase::Publishing | Phase::Draining => event
            is Published,
        Phase::Seeding => event is CpuRead,
        Phase::Waiting => event is Tick || event is Shutdown,
        Phase::Sampling => event is Sampled,
        Phase::Disconnecting => event is Disconnected,
        Phase::Terminated => false,
    }
}

/// The run ends here, with `outcome`: nothing more is done.
pub open spec fn finish(agent: AgentView, outcome: Result<(), FatalError>) -> (AgentView, ActionView) {
    (AgentView { phase: Phase::Terminated, outcome, ..agent }, ActionView::Exit(outcome))
}

/// The farewell begins: the run will end with `outcome`, whatever becomes of
/// the farewell. First the agent is announced as no longer running.
pub open spec fn drain(agent: AgentView, outcome: Result<(), FatalError>) -> (AgentView, ActionView) {
    (
        AgentView { phase: Phase::Draining, outcome, ..agent },
        ActionView::Publish(availability_message(agent.registry.hostname, false)),
    )
}

/// The broker is to be reached, with the login if there is one.
pub open spec fn connect(agent: AgentView, credentials: Option<CredentialsView>) -> (
    AgentView,
    ActionView,
) {
    (
        AgentView { phase: Phase::Connecting, ..agent },
        ActionView::Connect { url: agent.config.mqtt_server, credentials },
    )
}

/// The start: without a user name the broker is reached without a login, and
/// the password source is not looked at. With one, the password is sought
/// where the configuration says it is.
pub open spec fn begin(agent: AgentView) -> (AgentView, ActionView) {
    match agent.config.username {
        None => connect(agent, None),
        Some(username) => match agent.config.password_source {
            PasswordSourceView::Keyring => (
                AgentView { phase: Phase::ResolvingKeyring, ..agent },
                ActionView::LookupKeyring { service: agent.service, username },
            ),
            PasswordSourceView::SecretFile(path) => (
                AgentView { phase: Phase::InspectingFile, ..agent },
                ActionView::InspectSecretFile { path },
            ),
        },
    }
}

/// The login with the password `password`.
pub open spec fn login(agent: AgentView, password: Seq<char>) -> Option<CredentialsView> {
    Some(CredentialsView { username: agent.config.username->0, password })
}

/// The secret file has been inspected: it is read only if it could be
/// inspected and may be trusted. Otherwise the run ends before anything has
/// been sent anywhere.
pub open spec fn inspected(agent: AgentView, stat: Option<FileStat>) -> (AgentView, ActionView) {
    match stat {
        Some(s) => match secret_file_verdict(s, agent.identity) {
            Ok(_) => (
                AgentView { phase: Phase::ReadingFile, ..agent },
                ActionView::ReadSecretFile { path: agent.config.password_source->SecretFile_0 },
            ),
            Err(reason) => finish(agent, Err(FatalError::Credential(reason))),
        },
        None => finish(agent, Err(FatalError::Credential(CredentialError::Unreadable))),
    }
}

/// Registration goes on with the sensor at place `index`: its descriptor is
/// published. Where there is no such sensor, all are registered, and the
/// agent is announced as running.
pub open spec fn register_from(agent: AgentView, index: int) -> (AgentView, ActionView) {
    let all = sensors(agent.config.drives);
    if 0 <= index < all.len() {
        (
            AgentView { phase: Phase::Registering(index as usize), ..agent },
            ActionView::Publish(discovery_message(agent.registry.hostname, all[index])),
        )
    } else {
        (
            AgentView { phase: Phase::Announcing, ..agent },
            ActionView::Publish(availability_message(agent.registry.hostname, true)),
        )
    }
}

/// The descriptor of the sensor at place `index` has been published, or not.
/// If it has, the sensor is registered and the next one follows. If not, the
/// run ends.
pub open spec fn registered(agent: AgentView, index: int, ok: bool) -> (AgentView, ActionView) {
    if ok {
        register_from(
            AgentView {
                registry: marked(agent.registry, sensors(agent.config.drives)[index].name),
                ..agent
            },
            index + 1,
        )
    } else {
        drain(agent, Err(FatalError::Registration))
    }
}

/// The agent goes to wait for the next tick, with nothing left to publish.
pub open spec fn wait(agent: AgentView) -> (AgentView, ActionView) {
    (
        AgentView { phase: Phase::Waiting, outbox: Seq::empty(), ..agent },
        ActionView::Wait(agent.config.update_interval),
    )
}

/// The next message of the running cycle is published, and leaves the
/// outbox. With an empty outbox the cycle is over.
pub open spec fn publish_next(agent: AgentView) -> (AgentView, ActionView) {
    if agent.outbox.len() > 0 {
        (
            AgentView { phase: Phase::Publishing, outbox: agent.outbox.drop_first(), ..agent },
            ActionView::Publish(agent.outbox[0]),
        )
    } else {
        wait(agent)
    }
}

/// The host has been sampled: the messages of the cycle are put into the
/// outbox, the processor sample is renewed, and publishing begins.
pub open spec fn sampled(agent: AgentView, snapshot: SnapshotView) -> (AgentView, ActionView) {
    publish_next(
        AgentView {
            outbox: cycle_messages(agent.registry, agent.config.drives, agent.cpu, snapshot),
            cpu: next_sample(agent.cpu, snapshot.cpu),
            ..agent
        },
    )
}

/// What the agent does, and becomes, when `event` happens. It is defined for
/// the events that the agent is waiting for.
pub open spec fn transition(agent: AgentView, event: EventView) -> (AgentView, ActionView)
    recommends
        awaits(agent.phase, event),
{
    match (agent.phase, event) {
        (Phase::Created, EventView::Start) => begin(agent),
        (Phase::ResolvingKeyring, EventView::KeyringAnswered(found)) => match found {
            Some(password) => connect(agent, login(agent, password)),
            None => finish(agent, Err(FatalError::Credential(CredentialError::NotSet))),
        },
        (Phase::InspectingFile, EventView::FileInspected(stat)) => inspected(agent, stat),
        (Phase::ReadingFile, EventView::FileRead(contents)) => match contents {
            Some(text) => connect(agent, login(agent, trimmed(text))),
            None => finish(agent, Err(FatalError::Credential(CredentialError::Unreadable))),
        },
        (Phase::Connecting, EventView::Connected(ok)) => if ok {
            register_from(agent, 0)
        } else {
            finish(agent, Err(FatalError::Connection))
        },
        (Phase::Registering(index), EventView::Published(ok)) => registered(
            agent,
            index as int,
            ok,
        ),
        (Phase::Announcing, EventView::Published(ok)) => if ok {
            (AgentView { phase: Phase::Seeding, ..agent }, ActionView::ReadCpu)
        } else {
            drain(agent, Err(FatalError::Availability))
        },
        (Phase::Seeding, EventView::CpuRead(times)) => wait(
            AgentView { cpu: next_sample(agent.cpu, times), ..agent },
        ),
        (Phase::Waiting, EventView::Tick) => (
            AgentView { phase: Phase::Sampling, ..agent },
            ActionView::Sample,
        ),
        (Phase::Waiting, EventView::Shutdown) => drain(agent, agent.outcome),
        (Phase::Sampling, EventView::Sampled(snapshot)) => sampled(agent, snapshot),
        (Phase::Publishing, EventView::Published(_)) => publish_next(agent),
        (Phase::Draining, EventView::Published(_)) => (
            AgentView { phase: Phase::Disconnecting, ..agent },
            ActionView::Disconnect,
        ),
        (Phase::Disconnecting, EventView::Disconnected(_)) => finish(agent, agent.outcome),
        _ => (agent, ActionView::Exit(agent.outcome)),
    }
}

/// Whether the agent has yet to begin its farewell.
pub open spec fn before_farewell(phase: Phase) -> bool {
    !(phase is Draining || phase is Disconnecting || phase is Terminated)
}

/// Whether the outcome of the agent is as its phase allows: until the
/// farewell begins, no error has been decided.
pub open spec fn sound(agent: AgentView) -> bool {
    before_farewell(agent.phase) ==> agent.outcome == Ok::<(), FatalError>(())
}

/// An agent that has not been started is sound.
pub proof fn lemma_created_is_sound(
    config: ConfigView,
    service: Seq<char>,
    identity: ProcessIdentity,
    hostname: Seq<char>,
)
    ensures
        sound(created(config, service, identity, hostname)),
{
}

/// Every step keeps the agent sound: an error is decided only as the run
/// ends or the farewell begins.
pub proof fn lemma_step_keeps_sound(agent: AgentView, event: EventView)
    requires
        sound(agent),
        awaits(agent.phase, event),
    ensures
        sound(transition(agent, event).0),
{
}

/// What the agent does, one action after the other, when `events` happen in
/// turn. It goes on for as long as each event is one that the agent is
/// waiting for.
pub open spec fn run(agent: AgentView, events: Seq<EventView>) -> Seq<ActionView>
    decreases events.len(),
{
    if events.len() == 0 || !awaits(agent.phase, events[0]) {
        Seq::empty()
    } else {
        seq![transition(agent, events[0]).1] + run(
            transition(agent, events[0]).0,
            events.drop_first(),
        )
    }
}

/// An agent whose run is over waits for nothing, so it does nothing more.
pub proof fn lemma_terminated_does_nothing(agent: AgentView, events: Seq<EventView>)
    requires
        agent.phase is Terminated,
    ensures
        run(agent, events) == Seq::<ActionView>::empty(),
{
}

/// A secret file whose permission bits are not exactly owner read and write
/// ends the run before anything is sent: whatever happens afterwards, the
/// agent has asked for the file to be inspected and has then stopped with
/// that reason. It has neither connected nor published.
pub proof fn lemma_loose_secret_file_sends_nothing(
    config: ConfigView,
    service: Seq<char>,
    identity: ProcessIdentity,
    hostname: Seq<char>,
    stat: FileStat,
    rest: Seq<EventView>,
)
    requires
        config.username is Some,
        config.password_source is SecretFile,
        stat.mode & PERMISSION_MASK != OWNER_READ_WRITE,
    ensures
        run(
            created(config, service, identity, hostname),
            seq![EventView::Start, EventView::FileInspected(Some(stat))] + rest,
        ) == seq![
            ActionView::InspectSecretFile { path: config.password_source->SecretFile_0 },
            ActionView::Exit(Err(FatalError::Credential(CredentialError::BadPermissions))),
        ],
{
    let agent = created(config, service, identity, hostname);
    let events = seq![EventView::Start, EventView::FileInspected(Some(stat))] + rest;
    let inspecting = transition(agent, events[0]).0;
    let later = events.drop_first();
    assert(later[0] == EventView::FileInspected(Some(stat)));
    let ended = transition(inspecting, later[0]).0;
    lemma_terminated_does_nothing(ended, later.drop_first());
    assert(run(inspecting, later) =~= seq![
        ActionView::Exit(Err(FatalError::Credential(CredentialError::BadPermissions))),
    ]);
    assert(run(agent, events) =~= seq![
        ActionView::InspectSecretFile { path: config.password_source->SecretFile_0 },
        ActionView::Exit(Err(FatalError::Credential(CredentialError::BadPermissions))),
    ]);
}

/// The signal to shut down is heard only between two cycles: while the agent
/// waits for the next tick.
pub proof fn lemma_shutdown_is_heard_only_while_waiting(phase: Phase)
    ensures
        awaits(phase, EventView::Shutdown) <==> phase is Waiting,
{
}

/// The farewell: once the agent has begun to drain, it closes the connection
/// and stops with the outcome that was decided before, whether or not the
/// broker took the last announcement and whether or not closing went well.
pub proof fn lemma_farewell_keeps_the_outcome(
    agent: AgentView,
    taken: bool,
    closed: bool,
    rest: Seq<EventView>,
)
    requires
        agent.phase is Draining,
    ensures
        run(agent, seq![EventView::Published(taken), EventView::Disconnected(closed)] + rest)
            == seq![ActionView::Disconnect, ActionView::Exit(agent.outcome)],
{
    let events = seq![EventView::Published(taken), EventView::Disconnected(closed)] + rest;
    let closing = transition(agent, events[0]).0;
    let later = events.drop_first();
    assert(later[0] == EventView::Disconnected(closed));
    let ended = transition(closing, later[0]).0;
    lemma_terminated_does_nothing(ended, later.drop_first());
    assert(run(closing, later) =~= seq![ActionView::Exit(agent.outcome)]);
    assert(run(agent, events) =~= seq![ActionView::Disconnect, ActionView::Exit(agent.outcome)]);
}

/// On the signal to shut down the agent announces once, retained, that it no
/// longer runs, closes the connection and stops with the outcome it had.
pub proof fn lemma_shutdown_says_goodbye_once(
    agent: AgentView,
    taken: bool,
    closed: bool,
    rest: Seq<EventView>,
)
    requires
        agent.phase is Waiting,
    ensures
        run(
            agent,
            seq![EventView::Shutdown, EventView::Published(taken), EventView::Disconnected(closed)]
                + rest,
        ) == seq![
            ActionView::Publish(availability_message(agent.registry.hostname, false)),
            ActionView::Disconnect,
            ActionView::Exit(agent.outcome),
        ],
{
    let events = seq![
        EventView::Shutdown,
        EventView::Published(taken),
        EventView::Disconnected(closed),
    ] + rest;
    let draining = transition(agent, events[0]).0;
    let later = events.drop_first();
    assert(later =~= seq![EventView::Published(taken), EventView::Disconnected(closed)] + rest);
    lemma_farewell_keeps_the_outcome(draining, taken, closed, rest);
    assert(run(agent, events) =~= seq![
        ActionView::Publish(availability_message(agent.registry.hostname, false)),
    ] + run(draining, later));
}

/// The registry after the sensors at the places from `from` up to, but not
/// including, `to` have been registered one after the other.
pub open spec fn registered_through(
    registry: HomeAssistantView,
    all: Seq<SensorView>,
    from: int,
    to: int,
) -> HomeAssistantView
    decreases to - from,
{
    if from >= to {
        registry
    } else {
        registered_through(marked(registry, all[from].name), all, from + 1, to)
    }
}

/// The publishing of the descriptors of the sensors at the places from
/// `from` up to, but not including, `to`, in that order.
pub open spec fn descriptors(hostname: Seq<char>, all: Seq<SensorView>, from: int, to: int) -> Seq<
    ActionView,
> {
    Seq::new(
        (to - from) as nat,
        |k: int| ActionView::Publish(discovery_message(hostname, all[from + k])),
    )
}

/// The broker takes a message, `count` times in a row.
pub open spec fn taken(count: nat) -> Seq<EventView> {
    Seq::new(count, |k: int| EventView::Published(true))
}

/// After the sensors from `from` to `to` have been registered, the registry
/// holds what it held before and the names of those sensors, each once.
pub proof fn lemma_registered_through_holds_each_name(
    registry: HomeAssistantView,
    all: Seq<SensorView>,
    from: int,
    to: int,
)
    requires
        0 <= from <= to <= all.len(),
        registry.names.no_duplicates(),
    ensures
        registered_through(registry, all, from, to).hostname == registry.hostname,
        registered_through(registry, all, from, to).names.no_duplicates(),
        forall|name: Seq<char>|
            #![trigger registered_through(registry, all, from, to).names.contains(name)]
            registered_through(registry, all, from, to).names.contains(name) <==> (
            registry.names.contains(name) || exists|i: int|
                from <= i < to && (#[trigger] all[i]).name == name),
    decreases to - from,
{
    if from < to {
        let first = marked(registry, all[from].name);
        lemma_registering_twice(registry, all[from]);
        lemma_registered_through_holds_each_name(first, all, from + 1, to);
        let after = registered_through(registry, all, from, to);
        assert(after == registered_through(first, all, from + 1, to));
        assert forall|name: Seq<char>| #![trigger after.names.contains(name)]
            after.names.contains(name) <==> (registry.names.contains(name) || exists|i: int|
                from <= i < to && (#[trigger] all[i]).name == name) by {
            assert(first.names.to_set().contains(name) <==> registry.names.to_set().insert(
                all[from].name,
            ).contains(name));
            assert(first.names.contains(name) <==> (registry.names.contains(name) || name
                == all[from].name));
            if after.names.contains(name) {
                if !first.names.contains(name) {
                    let i = choose|i: int| from + 1 <= i < to && (#[trigger] all[i]).name == name;
                    assert(from <= i < to && all[i].name == name);
                }
            }
            if exists|i: int| from <= i < to && (#[trigger] all[i]).name == name {
                let i = choose|i: int| from <= i < to && (#[trigger] all[i]).name == name;
                if i > from {
                    assert(from + 1 <= i < to && all[i].name == name);
                }
            }
        }
    }
}

/// After every sensor of a host has been registered, nothing is left
/// unregistered that a cycle publishes for: the registry holds the name of
/// every metric and of every configured drive, so a cycle passes over a
/// reading only where the reading is missing.
pub proof fn lemma_startup_registers_every_metric(registry: HomeAssistantView, drives: Seq<DriveView>)
    requires
        registry.names.no_duplicates(),
    ensures
        ({
            let after = registered_through(
                registry,
                sensors(drives),
                0,
                sensors(drives).len() as int,
            );
            &&& after.names.contains("uptime"@)
            &&& after.names.contains("cpu"@)
            &&& after.names.contains("memory"@)
            &&& after.names.contains("swap"@)
            &&& after.names.contains("battery_level"@)
            &&& after.names.contains("battery_state"@)
            &&& forall|i: int| 0 <= i < drives.len() ==> after.names.contains((#[trigger] drives[i]).name)
        }),
{
    let all = sensors(drives);
    let after = registered_through(registry, all, 0, all.len() as int);
    lemma_registered_through_holds_each_name(registry, all, 0, all.len() as int);
    assert(all[1].name == "uptime"@);
    assert(all[2].name == "cpu"@);
    assert(all[3].name == "memory"@);
    assert(all[4].name == "swap"@);
    assert(all[5].name == "battery_level"@);
    assert(all[6].name == "battery_state"@);
    assert(after.names.contains("uptime"@));
    assert(after.names.contains("cpu"@));
    assert(after.names.contains("memory"@));
    assert(after.names.contains("swap"@));
    assert(after.names.contains("battery_level"@));
    assert(after.names.contains("battery_state"@));
    assert forall|i: int| 0 <= i < drives.len() implies after.names.contains(
        (#[trigger] drives[i]).name,
    ) by {
        assert(all[i + FIXED_SENSORS].name == drives[i].name);
    }
}

/// Registration runs through: while the broker takes each descriptor, the
/// agent publishes the descriptor of one sensor after the other, in their
/// order, registers each once its descriptor has been taken, and at the end
/// announces that it runs.
pub proof fn lemma_registration_runs_through(agent: AgentView, index: int, rest: Seq<EventView>)
    requires
        0 <= index < sensors(agent.config.drives).len() <= usize::MAX,
        agent.phase == Phase::Registering(index as usize),
    ensures
        run(agent, taken((sensors(agent.config.drives).len() - index) as nat) + rest)
            == descriptors(
            agent.registry.hostname,
            sensors(agent.config.drives),
            index + 1,
            sensors(agent.config.drives).len() as int,
        ) + seq![ActionView::Publish(availability_message(agent.registry.hostname, true))] + run(
            AgentView {
                phase: Phase::Announcing,
                registry: registered_through(
                    agent.registry,
                    sensors(agent.config.drives),
                    index,
                    sensors(agent.config.drives).len() as int,
                ),
                ..agent
            },
            rest,
        ),
    decreases sensors(agent.config.drives).len() - index,
{
    let all = sensors(agent.config.drives);
    let n = all.len() as int;
    let host = agent.registry.hostname;
    let events = taken((n - index) as nat) + rest;
    let online = ActionView::Publish(availability_message(host, true));
    assert(events[0] == EventView::Published(true));
    let marked_agent = AgentView { registry: marked(agent.registry, all[index].name), ..agent };
    let (next, action) = transition(agent, events[0]);
    assert((next, action) == register_from(marked_agent, index + 1));
    let later = events.drop_first();
    assert(later =~= taken((n - index - 1) as nat) + rest);
    let through = registered_through(agent.registry, all, index, n);
    assert(through == registered_through(marked_agent.registry, all, index + 1, n));
    let announcing = AgentView { phase: Phase::Announcing, registry: through, ..agent };
    assert(run(agent, events) == seq![action] + run(next, later));
    if index + 1 < n {
        lemma_registration_runs_through(next, index + 1, rest);
        assert(announcing == AgentView {
            phase: Phase::Announcing,
            registry: registered_through(next.registry, all, index + 1, n),
            ..next
        });
        assert(descriptors(host, all, index + 1, n) =~= seq![action] + descriptors(
            host,
            all,
            index + 2,
            n,
        ));
        assert(run(agent, events) =~= descriptors(host, all, index + 1, n) + seq![online] + run(
            announcing,
            rest,
        ));
    } else {
        assert(later =~= rest);
        assert(next == announcing);
        assert(descriptors(host, all, index + 1, n) =~= Seq::<ActionView>::empty());
        assert(run(agent, events) =~= descriptors(host, all, index + 1, n) + seq![online] + run(
            announcing,
            rest,
        ));
    }
}

/// Startup registers every sensor: once the broker is reached, and while it
/// takes each descriptor, the agent publishes the descriptors of all its
/// sensors in their order, then announces that it runs, and holds every
/// sensor as registered.
pub proof fn lemma_startup_registers_every_sensor(agent: AgentView, rest: Seq<EventView>)
    requires
        agent.phase is Connecting,
        sensors(agent.config.drives).len() <= usize::MAX,
    ensures
        run(
            agent,
            seq![EventView::Connected(true)] + taken(sensors(agent.config.drives).len()) + rest,
        ) == descriptors(
            agent.registry.hostname,
            sensors(agent.config.drives),
            0,
            sensors(agent.config.drives).len() as int,
        ) + seq![ActionView::Publish(availability_message(agent.registry.hostname, true))] + run(
            AgentView {
                phase: Phase::Announcing,
                registry: registered_through(
                    agent.registry,
                    sensors(agent.config.drives),
                    0,
                    sensors(agent.config.drives).len() as int,
                ),
                ..agent
            },
            rest,
        ),
{
    let all = sensors(agent.config.drives);
    let n = all.len() as int;
    let host = agent.registry.hostname;
    let events = seq![EventView::Connected(true)] + taken(all.len()) + rest;
    assert(events[0] == EventView::Connected(true));
    let (next, action) = transition(agent, events[0]);
    let later = events.drop_first();
    assert(later =~= taken(all.len()) + rest);
    lemma_registration_runs_through(next, 0, rest);
    assert(registered_through(next.registry, all, 0, n) == registered_through(
        agent.registry,
        all,
        0,
        n,
    ));
    assert(AgentView {
        phase: Phase::Announcing,
        registry: registered_through(next.registry, all, 0, n),
        ..next
    } == AgentView {
        phase: Phase::Announcing,
        registry: registered_through(agent.registry, all, 0, n),
        ..agent
    });
    assert(descriptors(host, all, 0, n) =~= seq![action] + descriptors(host, all, 1, n));
    assert(run(agent, events) == seq![action] + run(next, later));
}

/// A clean shutdown ends well: a sound agent that is told to shut down while
/// it waits says goodbye, closes the connection and stops without an error,
/// whatever becomes of the goodbye and of the closing.
pub proof fn lemma_clean_shutdown_ends_well(
    agent: AgentView,
    taken: bool,
    closed: bool,
    rest: Seq<EventView>,
)
    requires
        sound(agent),
        agent.phase is Waiting,
    ensures
        run(
            agent,
            seq![EventView::Shutdown, EventView::Published(taken), EventView::Disconnected(closed)]
                + rest,
        ) == seq![
            ActionView::Publish(availability_message(agent.registry.hostname, false)),
            ActionView::Disconnect,
            ActionView::Exit(Ok(())),
        ],
{
    lemma_shutdown_says_goodbye_once(agent, taken, closed, rest);
}

/// The broker answers to one message after the other: it takes it, or not.
pub open spec fn answered(results: Seq<bool>) -> Seq<EventView> {
    results.map_values(|ok: bool| EventView::Published(ok))
}

/// The publishing of `messages`, one after the other.
pub open spec fn publishing(messages: Seq<MessageView>) -> Seq<ActionView> {
    messages.map_values(|message: MessageView| ActionView::Publish(message))
}

proof fn lemma_outbox_drains(agent: AgentView, results: Seq<bool>, rest: Seq<EventView>)
    requires
        results.len() == agent.outbox.len(),
    ensures
        seq![publish_next(agent).1] + run(publish_next(agent).0, answered(results) + rest)
            == publishing(agent.outbox) + seq![ActionView::Wait(agent.config.update_interval)]
            + run(wait(agent).0, rest),
    decreases agent.outbox.len(),
{
    let (next, action) = publish_next(agent);
    let events = answered(results) + rest;
    let pause = ActionView::Wait(agent.config.update_interval);
    if agent.outbox.len() == 0 {
        assert(events =~= rest);
        assert(publishing(agent.outbox) =~= Seq::<ActionView>::empty());
        assert(seq![action] + run(next, events) =~= publishing(agent.outbox) + seq![pause] + run(
            wait(agent).0,
            rest,
        ));
    } else {
        assert(events[0] == EventView::Published(results[0]));
        let later = events.drop_first();
        assert(later =~= answered(results.drop_first()) + rest);
        assert(transition(next, events[0]) == publish_next(next));
        lemma_outbox_drains(next, results.drop_first(), rest);
        assert(wait(next).0 == wait(agent).0);
        assert(publishing(agent.outbox) =~= seq![action] + publishing(next.outbox));
        assert(run(next, events) == seq![publish_next(next).1] + run(
            publish_next(next).0,
            later,
        ));
        assert(seq![action] + run(next, events) =~= publishing(agent.outbox) + seq![pause] + run(
            wait(agent).0,
            rest,
        ));
    }
}

/// One cycle: at a tick the agent has the host sampled, publishes the
/// messages of the cycle one after the other, in their order, whether or not
/// the broker takes them, and goes back to wait for the next tick.
pub proof fn lemma_cycle_runs_through(
    agent: AgentView,
    snapshot: SnapshotView,
    results: Seq<bool>,
    rest: Seq<EventView>,
)
    requires
        agent.phase is Waiting,
        results.len() == cycle_messages(
            agent.registry,
            agent.config.drives,
            agent.cpu,
            snapshot,
        ).len(),
    ensures
        run(
            agent,
            seq![EventView::Tick, EventView::Sampled(snapshot)] + answered(results) + rest,
        ) == seq![ActionView::Sample] + publishing(
            cycle_messages(agent.registry, agent.config.drives, agent.cpu, snapshot),
        ) + seq![ActionView::Wait(agent.config.update_interval)] + run(
            AgentView { cpu: next_sample(agent.cpu, snapshot.cpu), outbox: Seq::empty(), ..agent },
            rest,
        ),
{
    let events = seq![EventView::Tick, EventView::Sampled(snapshot)] + answered(results) + rest;
    let messages = cycle_messages(agent.registry, agent.config.drives, agent.cpu, snapshot);
    assert(events[0] == EventView::Tick);
    let sampling = transition(agent, events[0]).0;
    let later = events.drop_first();
    assert(later =~= seq![EventView::Sampled(snapshot)] + answered(results) + rest);
    assert(later[0] == EventView::Sampled(snapshot));
    let filled = AgentView {
        outbox: messages,
        cpu: next_sample(agent.cpu, snapshot.cpu),
        ..sampling
    };
    assert(transition(sampling, later[0]) == publish_next(filled));
    assert(later.drop_first() =~= answered(results) + rest);
    lemma_outbox_drains(filled, results, rest);
    assert(wait(filled).0 == AgentView {
        cpu: next_sample(agent.cpu, snapshot.cpu),
        outbox: Seq::empty(),
        ..agent
    });
    assert(run(sampling, later) == seq![publish_next(filled).1] + run(
        publish_next(filled).0,
        later.drop_first(),
    ));
    assert(run(agent, events) =~= seq![ActionView::Sample] + run(sampling, later));
}

/// The agent: its configuration, its registry, and where in its life it
/// stands.
#[derive(Debug)]
pub struct Agent {
    config: Config,
    service: String,
    identity: ProcessIdentity,
    registry: HomeAssistant,
    phase: Phase,
    cpu: Option<CpuSampleState>,
    outbox: Vec<Message>,
    outcome: Result<(), FatalError>,
}

impl View for Agent {
    type V = AgentView;

    closed spec fn view(&self) -> AgentView {
        AgentView {
            config: self.config@,
            service: self.service@,
            identity: self.identity,
            registry: self.registry@,
            phase: self.phase,
            cpu: sample_view(self.cpu),
            outbox: message_views(self.outbox@),
            outcome: self.outcome,
        }
    }
}

/// Whether a configuration and a phase go together: a sensor that is being
/// registered exists, and a password is sought only for a user, in a file
/// only where a file is configured.
spec fn fits(config: ConfigView, phase: Phase) -> bool {
    &&& phase matches Phase::Registering(index) ==> index < sensors(config.drives).len()
    &&& phase is ResolvingKeyring || phase is InspectingFile || phase is ReadingFile
        ==> config.username is Some
    &&& phase is InspectingFile || phase is ReadingFile ==> config.password_source is SecretFile
}

impl Agent {
    #[verifier::type_invariant]
    spec fn coherent(self) -> bool {
        &&& FIXED_SENSORS + self.config.drives@.len() <= usize::MAX
        &&& fits(self.config@, self.phase)
        &&& before_farewell(self.phase) ==> self.outcome == Ok::<(), FatalError>(())
    }

    /// An agent for the host `hostname`, not yet started. It keeps its
    /// password, if in a keyring, under `service`, and runs as `identity`.
    pub fn new(config: Config, service: String, identity: ProcessIdentity, hostname: String) -> (agent:
        Agent)
        requires
            FIXED_SENSORS + config@.drives.len() <= usize::MAX,
        ensures
            agent@ == created(config@, service@, identity, hostname@),
            sound(agent@),
    {
        let outbox: Vec<Message> = Vec::new();
        assert(message_views(outbox@) =~= Seq::empty());
        Agent {
            config,
            service,
            identity,
            registry: HomeAssistant::new(hostname),
            phase: Phase::Created,
            cpu: None,
            outbox,
            outcome: Ok(()),
        }
    }

    /// The phase in which the agent stands.
    pub fn phase(&self) -> (phase: Phase)
        ensures
            phase == self@.phase,
    {
        self.phase
    }

    /// The state of the session with the broker.
    pub fn session_state(&self) -> (state: SessionState)
        ensures
            state == session_of(self@.phase),
    {
        match self.phase {
            Phase::Registering(_) | Phase::Announcing | Phase::Seeding | Phase::Waiting
            | Phase::Sampling | Phase::Publishing => SessionState::Connected,
            Phase::Draining | Phase::Disconnecting => SessionState::Draining,
            _ => SessionState::Disconnected,
        }
    }

    /// The registry of the agent.
    pub fn registry(&self) -> (registry: &HomeAssistant)
        ensures
            registry@ == self@.registry,
    {
        &self.registry
    }

    /// How the run ends, as far as it is decided: without error, unless one
    /// has ended it.
    pub fn outcome(&self) -> (outcome: Result<(), FatalError>)
        ensures
            outcome == self@.outcome,
    {
        self.outcome
    }

    /// Whether the agent is waiting for `event`.
    pub fn awaits(&self, event: &Event) -> (awaited: bool)
        ensures
            awaited == awaits(self@.phase, event@),
    {
        match self.phase {
            Phase::Created => matches!(event, Event::Start),
            Phase::ResolvingKeyring => matches!(event, Event::KeyringAnswered(_)),
            Phase::InspectingFile => matches!(event, Event::FileInspected(_)),
            Phase::ReadingFile => matches!(event, Event::FileRead(_)),
            Phase::Connecting => matches!(event, Event::Connected(_)),
            Phase::Registering(_) | Phase::Announcing | Phase::Publishing | Phase::Draining => {
                matches!(event, Event::Published(_))
            },
            Phase::Seeding => matches!(event, Event::CpuRead(_)),
            Phase::Waiting => matches!(event, Event::Tick) || matches!(event, Event::Shutdown),
            Phase::Sampling => matches!(event, Event::Sampled(_)),
            Phase::Disconnecting => matches!(event, Event::Disconnected(_)),
            Phase::Terminated => false,
        }
    }

    fn moved(self, phase: Phase) -> (agent: Agent)
        requires
            fits(self@.config, phase),
            sound(AgentView { phase, ..self@ }),
        ensures
            agent@ == (AgentView { phase, ..self@ }),
    {
        proof {
            use_type_invariant(&self);
        }
        Agent { phase, ..self }
    }

    fn exit_with(self, outcome: Result<(), FatalError>) -> (r: (Agent, Action))
        ensures
            (r.0@, r.1@) == finish(self@, outcome),
    {
        proof {
            use_type_invariant(&self);
        }
        (Agent { phase: Phase::Terminated, outcome, ..self }, Action::Exit(outcome))
    }

    fn drain_with(self, outcome: Result<(), FatalError>) -> (r: (Agent, Action))
        ensures
            (r.0@, r.1@) == drain(self@, outcome),
    {
        proof {
            use_type_invariant(&self);
        }
        let farewell = self.registry.set_available(false);
        (Agent { phase: Phase::Draining, outcome, ..self }, Action::Publish(farewell))
    }

    fn connect_with(self, credentials: Option<Credentials>) -> (r: (Agent, Action))
        requires
            self@.outcome == Ok::<(), FatalError>(()),
        ensures
            (r.0@, r.1@) == connect(
                self@,
                match credentials {
                    Some(c) => Some(c@),
                    None => None,
                },
            ),
    {
        let url = self.config.mqtt_server.clone();
        (self.moved(Phase::Connecting), Action::Connect { url, credentials })
    }

    fn username(&self) -> (username: String)
        requires
            self@.config.username is Some,
        ensures
            username@ == self@.config.username->0,
    {
        match &self.config.username {
            Some(name) => name.clone(),
            None => String::new(),
        }
    }

    fn secret_path(&self) -> (path: String)
        requires
            self@.config.password_source is SecretFile,
        ensures
            path@ == self@.config.password_source->SecretFile_0,
    {
        match &self.config.password_source {
            PasswordSource::SecretFile(path) => path.clone(),
            PasswordSource::Keyring => String::new(),
        }
    }

    fn start(self) -> (r: (Agent, Action))
        requires
            self@.outcome == Ok::<(), FatalError>(()),
        ensures
            (r.0@, r.1@) == begin(self@),
    {
        if self.config.username.is_none() {
            return self.connect_with(None);
        }
        let username = self.username();
        match &self.config.password_source {
            PasswordSource::Keyring => {
                let service = self.service.clone();
                (
                    self.moved(Phase::ResolvingKeyring),
                    Action::LookupKeyring { service, username },
                )
            },
            PasswordSource::SecretFile(file) => {
                let path = file.clone();
                (self.moved(Phase::InspectingFile), Action::InspectSecretFile { path })
            },
        }
    }

    fn keyring_answered(self, found: Option<String>) -> (r: (Agent, Action))
        requires
            self@.phase is ResolvingKeyring,
        ensures
            (r.0@, r.1@) == transition(self@, EventView::KeyringAnswered(optional_text(found))),
    {
        proof {
            use_type_invariant(&self);
        }
        match found {
            Some(password) => {
                let username = self.username();
                self.connect_with(Some(Credentials { username, password }))
            },
            None => self.exit_with(Err(FatalError::Credential(CredentialError::NotSet))),
        }
    }

    fn file_inspected(self, stat: Option<FileStat>) -> (r: (Agent, Action))
        requires
            self@.phase is InspectingFile,
        ensures
            (r.0@, r.1@) == inspected(self@, stat),
    {
        proof {
            use_type_invariant(&self);
        }
        match stat {
            Some(s) => match check_secret_file(&s, &self.identity) {
                Ok(_) => {
                    let path = self.secret_path();
                    (self.moved(Phase::ReadingFile), Action::ReadSecretFile { path })
                },
                Err(reason) => self.exit_with(Err(FatalError::Credential(reason))),
            },
            None => self.exit_with(Err(FatalError::Credential(CredentialError::Unreadable))),
        }
    }

    fn file_read(self, contents: Option<String>) -> (r: (Agent, Action))
        requires
            self@.phase is ReadingFile,
        ensures
            (r.0@, r.1@) == transition(self@, EventView::FileRead(optional_text(contents))),
    {
        proof {
            use_type_invariant(&self);
        }
        match contents {
            Some(text) => {
                let username = self.username();
                let password = secret_from_file(text.as_str());
                self.connect_with(Some(Credentials { username, password }))
            },
            None => self.exit_with(Err(FatalError::Credential(CredentialError::Unreadable))),
        }
    }

    fn register_next(self, index: usize) -> (r: (Agent, Action))
        requires
            self@.outcome == Ok::<(), FatalError>(()),
        ensures
            (r.0@, r.1@) == register_from(self@, index as int),
    {
        proof {
            use_type_invariant(&self);
        }
        match sensor_definition(&self.config.drives, index) {
            Some(sensor) => {
                let message = self.registry.register_topic(&sensor);
                (self.moved(Phase::Registering(index)), Action::Publish(message))
            },
            None => {
                let message = self.registry.set_available(true);
                (self.moved(Phase::Announcing), Action::Publish(message))
            },
        }
    }

    fn after_registered(self, index: usize, ok: bool) -> (r: (Agent, Action))
        requires
            self@.phase == Phase::Registering(index),
        ensures
            (r.0@, r.1@) == registered(self@, index as int, ok),
    {
        proof {
            use_type_invariant(&self);
        }
        if !ok {
            return self.drain_with(Err(FatalError::Registration));
        }
        let Agent { config, service, identity, registry, phase, cpu, outbox, outcome } = self;
        let mut registry = registry;
        match sensor_definition(&config.drives, index) {
            Some(sensor) => {
                registry.mark_registered(sensor.name.as_str());
            },
            None => {},
        }
        let agent = Agent { config, service, identity, registry, phase, cpu, outbox, outcome };
        agent.register_next(index + 1)
    }

    fn announced(self, ok: bool) -> (r: (Agent, Action))
        requires
            self@.phase is Announcing,
        ensures
            (r.0@, r.1@) == transition(self@, EventView::Published(ok)),
    {
        proof {
            use_type_invariant(&self);
        }
        if ok {
            (self.moved(Phase::Seeding), Action::ReadCpu)
        } else {
            self.drain_with(Err(FatalError::Availability))
        }
    }

    fn go_wait(self) -> (r: (Agent, Action))
        requires
            self@.outcome == Ok::<(), FatalError>(()),
        ensures
            (r.0@, r.1@) == wait(self@),
    {
        proof {
            use_type_invariant(&self);
        }
        let interval = self.config.update_interval;
        let outbox: Vec<Message> = Vec::new();
        assert(message_views(outbox@) =~= Seq::empty());
        (Agent { phase: Phase::Waiting, outbox, ..self }, Action::Wait(interval))
    }

    fn seeded(self, times: Option<CpuTimes>) -> (r: (Agent, Action))
        requires
            self@.phase is Seeding,
        ensures
            (r.0@, r.1@) == transition(self@, EventView::CpuRead(times)),
    {
        proof {
            use_type_invariant(&self);
        }
        let cpu = match times {
            Some(t) => Some(CpuSampleState::observe(&t)),
            None => self.cpu,
        };
        let agent = Agent { cpu, ..self };
        agent.go_wait()
    }

    fn send_next(self) -> (r: (Agent, Action))
        requires
            self@.outcome == Ok::<(), FatalError>(()),
        ensures
            (r.0@, r.1@) == publish_next(self@),
    {
        proof {
            use_type_invariant(&self);
        }
        if self.outbox.len() == 0 {
            return self.go_wait();
        }
        let Agent { config, service, identity, registry, phase, cpu, outbox, outcome } = self;
        let mut outbox = outbox;
        let ghost before = message_views(outbox@);
        let message = outbox.remove(0);
        assert(message_views(outbox@) =~= before.drop_first());
        assert(message@ == before[0]);
        (
            Agent {
                config,
                service,
                identity,
                registry,
                phase: Phase::Publishing,
                cpu,
                outbox,
                outcome,
            },
            Action::Publish(message),
        )
    }

    fn after_sampled(self, snapshot: Snapshot) -> (r: (Agent, Action))
        requires
            self@.outcome == Ok::<(), FatalError>(()),
        ensures
            (r.0@, r.1@) == sampled(self@, snapshot@),
    {
        proof {
            use_type_invariant(&self);
        }
        let (outbox, cpu) = cycle(&self.registry, &self.config.drives, self.cpu, &snapshot);
        let agent = Agent { outbox, cpu, ..self };
        agent.send_next()
    }

    fn published(self, ok: bool) -> (r: (Agent, Action))
        requires
            awaits(self@.phase, EventView::Published(ok)),
        ensures
            (r.0@, r.1@) == transition(self@, EventView::Published(ok)),
    {
        proof {
            use_type_invariant(&self);
        }
        match self.phase {
            Phase::Registering(index) => self.after_registered(index, ok),
            Phase::Announcing => self.announced(ok),
            Phase::Publishing => self.send_next(),
            _ => (self.moved(Phase::Disconnecting), Action::Disconnect),
        }
    }

    /// Takes what has just happened and says what is to be done next. The
    /// agent must have been waiting for `event`.
    pub fn step(self, event: Event) -> (r: (Agent, Action))
        requires
            awaits(self@.phase, event@),
        ensures
            (r.0@, r.1@) == transition(self@, event@),
            sound(r.0@),
    {
        proof {
            use_type_invariant(&self);
        }
        let r = match event {
            Event::Start => self.start(),
            Event::KeyringAnswered(found) => self.keyring_answered(found),
            Event::FileInspected(stat) => self.file_inspected(stat),
            Event::FileRead(contents) => self.file_read(contents),
            Event::Connected(ok) => if ok {
                self.register_next(0)
            } else {
                self.exit_with(Err(FatalError::Connection))
            },
            Event::Published(ok) => self.published(ok),
            Event::CpuRead(times) => self.seeded(times),
            Event::Tick => (self.moved(Phase::Sampling), Action::Sample),
            Event::Shutdown => {
                let outcome = self.outcome;
                self.drain_with(outcome)
            },
            Event::Sampled(snapshot) => self.after_sampled(snapshot),
            Event::Disconnected(_) => {
                let outcome = self.outcome;
                self.exit_with(outcome)
            },
        };
        proof {
            use_type_invariant(&r.0);
        }
        r
    }
}

} // verus!
