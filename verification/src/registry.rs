//! The sensor registry of one host: which sensors the dashboard has been told
//! of, how each is described to it, and what may be published for them.

use vstd::prelude::*;
use vstd::string::*;
use crate::json::{field_views, json_object, object_text, Field};
use crate::text::optional_text;
use crate::topics::{
    availability_topic, availability_topic_text, discovery_topic, discovery_topic_text,
    display_name, display_name_text, state_topic, state_topic_text,
};

verus! {

/// One message for the broker.
#[derive(Clone, Debug, PartialEq, Eq)]
pub struct Message {
    pub topic: String,
    pub payload: String,
    /// Whether the broker keeps the message for those who subscribe later.
    pub retain: bool,
}

/// A message as characters.
pub struct MessageView {
    pub topic: Seq<char>,
    pub payload: Seq<char>,
    pub retain: bool,
}

impl View for Message {
    type V = MessageView;

    open spec fn view(&self) -> MessageView {
        MessageView { topic: self.topic@, payload: self.payload@, retain: self.retain }
    }
}

/// The messages of a list, in their order.
pub open spec fn message_views(messages: Seq<Message>) -> Seq<MessageView> {
    messages.map_values(|message: Message| message@)
}

/// What the dashboard is told of one sensor.
#[derive(Clone, Debug, PartialEq, Eq)]
pub struct SensorDefinition {
    pub topic_class: String,
    pub device_class: Option<String>,
    pub state_class: Option<String>,
    pub name: String,
    pub unit: Option<String>,
    pub icon: Option<String>,
}

/// A sensor definition as characters.
pub struct SensorView {
    pub topic_class: Seq<char>,
    pub device_class: Option<Seq<char>>,
    pub state_class: Option<Seq<char>>,
    pub name: Seq<char>,
    pub unit: Option<Seq<char>>,
    pub icon: Option<Seq<char>>,
}

impl View for SensorDefinition {
    type V = SensorView;

    open spec fn view(&self) -> SensorView {
        SensorView {
            topic_class: self.topic_class@,
            device_class: optional_text(self.device_class),
            state_class: optional_text(self.state_class),
            name: self.name@,
            unit: optional_text(self.unit),
            icon: optional_text(self.icon),
        }
    }
}

/// The member `key` of a descriptor: present where there is a value.
pub open spec fn member(key: Seq<char>, value: Option<Seq<char>>) -> Seq<(Seq<char>, Seq<char>)> {
    match value {
        Some(v) => seq![(key, v)],
        None => Seq::empty(),
    }
}

/// The members of the discovery descriptor of `sensor` on the host
/// `hostname`, in their order: the display name; the device class and the
/// state class, where the sensor has them; the topic of its values; its unit
/// and its icon, where it has them.
pub open spec fn descriptor(hostname: Seq<char>, sensor: SensorView) -> Seq<(Seq<char>, Seq<char>)> {
    seq![("name"@, display_name(hostname, sensor.name))]
        + member("device_class"@, sensor.device_class)
        + member("state_class"@, sensor.state_class)
        + seq![("state_topic"@, state_topic(hostname, sensor.name))]
        + member("unit_of_measurement"@, sensor.unit)
        + member("icon"@, sensor.icon)
}

/// The retained message that describes `sensor` to the dashboard, given the
/// JSON text `body` of its descriptor.
pub open spec fn discovery_message_with(
    hostname: Seq<char>,
    sensor: SensorView,
    body: Seq<char>,
) -> MessageView {
    MessageView {
        topic: discovery_topic(sensor.topic_class, hostname, sensor.name),
        payload: body,
        retain: true,
    }
}

/// The retained message that describes `sensor` to the dashboard: its
/// descriptor as a JSON object, on its discovery topic.
pub open spec fn discovery_message(hostname: Seq<char>, sensor: SensorView) -> MessageView {
    discovery_message_with(hostname, sensor, json_object(descriptor(hostname, sensor)))
}

/// The message that carries the value `value` of the sensor `name`. It is not
/// retained.
pub open spec fn state_message(hostname: Seq<char>, name: Seq<char>, value: Seq<char>) -> MessageView {
    MessageView { topic: state_topic(hostname, name), payload: value, retain: false }
}

/// The retained announcement that the agent of `hostname` is running, or that
/// it is not.
pub open spec fn availability_message(hostname: Seq<char>, available: bool) -> MessageView {
    MessageView {
        topic: availability_topic(hostname),
        payload: if available {
            "online"@
        } else {
            "offline"@
        },
        retain: true,
    }
}

/// The registered names after `name` has been registered: it is added at the
/// end unless it is there already.
pub open spec fn enrolled(names: Seq<Seq<char>>, name: Seq<char>) -> Seq<Seq<char>> {
    if names.contains(name) {
        names
    } else {
        names.push(name)
    }
}

/// The descriptor of a sensor names, as the topic of its values, the very
/// topic on which its values are published.
pub proof fn lemma_descriptor_names_state_topic(
    hostname: Seq<char>,
    sensor: SensorView,
    value: Seq<char>,
)
    ensures
        descriptor(hostname, sensor).contains(
            ("state_topic"@, state_message(hostname, sensor.name, value).topic),
        ),
{
    let fields = descriptor(hostname, sensor);
    let at = 1 + member("device_class"@, sensor.device_class).len() + member(
        "state_class"@,
        sensor.state_class,
    ).len();
    assert(fields[at as int] == ("state_topic"@, state_topic(hostname, sensor.name)));
}

proof fn lemma_enrolled_twice(names: Seq<Seq<char>>, name: Seq<char>)
    requires
        names.no_duplicates(),
    ensures
        enrolled(enrolled(names, name), name) == enrolled(names, name),
        enrolled(names, name).no_duplicates(),
        enrolled(names, name).to_set() == names.to_set().insert(name),
{
    let once = enrolled(names, name);
    if !names.contains(name) {
        assert(once[names.len() as int] == name);
    }
    assert(once.to_set() =~= names.to_set().insert(name)) by {
        assert forall|n: Seq<char>| once.to_set().contains(n) <==> names.to_set().insert(
            name,
        ).contains(n) by {
            if once.contains(n) && n != name {
                let i = choose|i: int| 0 <= i < once.len() && once[i] == n;
                assert(names[i] == n);
            }
            if names.contains(n) {
                let i = choose|i: int| 0 <= i < names.len() && names[i] == n;
                assert(once[i] == n);
            }
        }
    }
}

/// The members of the discovery descriptor of a sensor.
pub fn descriptor_fields(hostname: &str, sensor: &SensorDefinition) -> (fields: Vec<Field>)
    ensures
        field_views(fields@) == descriptor(hostname@, sensor@),
{
    let mut fields: Vec<Field> = Vec::new();
    fields.push(
        Field {
            key: String::from_str("name"),
            value: display_name_text(hostname, sensor.name.as_str()),
        },
    );
    assert(field_views(fields@) =~= seq![("name"@, display_name(hostname@, sensor@.name))]);
    push_member(&mut fields, "device_class", &sensor.device_class);
    push_member(&mut fields, "state_class", &sensor.state_class);
    let ghost before = fields@;
    fields.push(
        Field {
            key: String::from_str("state_topic"),
            value: state_topic_text(hostname, sensor.name.as_str()),
        },
    );
    assert(field_views(fields@) =~= field_views(before) + seq![
        ("state_topic"@, state_topic(hostname@, sensor@.name)),
    ]);
    push_member(&mut fields, "unit_of_measurement", &sensor.unit);
    push_member(&mut fields, "icon", &sensor.icon);
    fields
}

fn push_member(fields: &mut Vec<Field>, key: &str, value: &Option<String>)
    ensures
        field_views(final(fields)@) == field_views(old(fields)@) + member(
            key@,
            optional_text(*value),
        ),
{
    match value {
        Some(v) => {
            fields.push(Field { key: String::from_str(key), value: v.clone() });
            assert(field_views(fields@) =~= field_views(old(fields)@) + seq![(key@, v@)]);
        },
        None => {
            assert(field_views(fields@) =~= field_views(old(fields)@) + Seq::empty());
        },
    }
}

/// The retained message that describes a sensor, given the JSON text of its
/// descriptor.
pub fn discovery_message_from(hostname: &str, sensor: &SensorDefinition, body: String) -> (message:
    Message)
    ensures
        message@ == discovery_message_with(hostname@, sensor@, body@),
{
    Message {
        topic: discovery_topic_text(sensor.topic_class.as_str(), hostname, sensor.name.as_str()),
        payload: body,
        retain: true,
    }
}

/// The names of a list of strings, in their order.
pub open spec fn name_views(names: Seq<String>) -> Seq<Seq<char>> {
    names.map_values(|name: String| name@)
}

/// The registry of one host: its name, and the sensors that have been
/// registered with the dashboard.
#[derive(Debug)]
pub struct HomeAssistant {
    hostname: String,
    registered_topics: Vec<String>,
}

/// A registry as characters: the host name, and the registered names in the
/// order in which they were registered.
pub struct HomeAssistantView {
    pub hostname: Seq<char>,
    pub names: Seq<Seq<char>>,
}

impl View for HomeAssistant {
    type V = HomeAssistantView;

    closed spec fn view(&self) -> HomeAssistantView {
        HomeAssistantView {
            hostname: self.hostname@,
            names: name_views(self.registered_topics@),
        }
    }
}

/// What `publish` hands out for the value `value` of the sensor `name`: the
/// state message where the sensor is registered, nothing where it is not.
pub open spec fn published(
    registry: HomeAssistantView,
    name: Seq<char>,
    value: Seq<char>,
) -> Option<MessageView> {
    if registry.names.contains(name) {
        Some(state_message(registry.hostname, name, value))
    } else {
        None
    }
}

/// The registry after the sensor `name` has been registered.
pub open spec fn marked(registry: HomeAssistantView, name: Seq<char>) -> HomeAssistantView {
    HomeAssistantView { names: enrolled(registry.names, name), ..registry }
}

/// Registering a sensor a second time changes nothing: the registry is as
/// it was after the first time, the sensor is described by the same message
/// as before, and no name stands in the registry twice.
pub proof fn lemma_registering_twice(registry: HomeAssistantView, sensor: SensorView)
    requires
        registry.names.no_duplicates(),
    ensures
        marked(marked(registry, sensor.name), sensor.name) == marked(registry, sensor.name),
        discovery_message(marked(registry, sensor.name).hostname, sensor) == discovery_message(
            registry.hostname,
            sensor,
        ),
        marked(registry, sensor.name).names.no_duplicates(),
        marked(registry, sensor.name).names.to_set() == registry.names.to_set().insert(
            sensor.name,
        ),
{
    lemma_enrolled_twice(registry.names, sensor.name);
}

impl HomeAssistant {
    #[verifier::type_invariant]
    spec fn distinct(self) -> bool {
        name_views(self.registered_topics@).no_duplicates()
    }

    /// The set of the registered names.
    pub open spec fn registered(&self) -> Set<Seq<char>> {
        self@.names.to_set()
    }

    /// The registry of the host `hostname`, with nothing registered yet.
    pub fn new(hostname: String) -> (registry: HomeAssistant)
        ensures
            registry@ == (HomeAssistantView { hostname: hostname@, names: Seq::empty() }),
    {
        let registry = HomeAssistant { hostname, registered_topics: Vec::new() };
        assert(name_views(registry.registered_topics@) =~= Seq::empty());
        registry
    }

    /// The name of the host.
    pub fn hostname(&self) -> (hostname: &str)
        ensures
            hostname@ == self@.hostname,
    {
        self.hostname.as_str()
    }

    /// The registered names, in the order in which they were registered. No
    /// name is among them twice.
    pub fn registered_topics(&self) -> (names: &Vec<String>)
        ensures
            name_views(names@) == self@.names,
            self@.names.no_duplicates(),
    {
        proof {
            use_type_invariant(self);
        }
        &self.registered_topics
    }

    /// Whether the sensor `topic_name` is registered.
    pub fn is_registered(&self, topic_name: &str) -> (found: bool)
        ensures
            found == self@.names.contains(topic_name@),
    {
        let name = String::from_str(topic_name);
        let ghost names = name_views(self.registered_topics@);
        let mut i: usize = 0;
        while i < self.registered_topics.len()
            invariant
                i <= self.registered_topics.len(),
                name@ == topic_name@,
                names == name_views(self.registered_topics@),
                forall|j: int| 0 <= j < i ==> names[j] != topic_name@,
            decreases self.registered_topics.len() - i,
        {
            if self.registered_topics[i] == name {
                assert(names[i as int] == topic_name@);
                return true;
            }
            i += 1;
        }
        false
    }

    /// The message that announces whether the agent is running: `online` or
    /// `offline`, retained, on the availability topic.
    pub fn set_available(&self, available: bool) -> (message: Message)
        ensures
            message@ == availability_message(self@.hostname, available),
    {
        Message {
            topic: availability_topic_text(self.hostname.as_str()),
            payload: if available {
                String::from_str("online")
            } else {
                String::from_str("offline")
            },
            retain: true,
        }
    }

    /// The retained message that describes `sensor` to the dashboard, to be
    /// published before the sensor counts as registered. It depends on the
    /// host name and the definition alone.
    pub fn register_topic(&self, sensor: &SensorDefinition) -> (message: Message)
        ensures
            message@ == discovery_message(self@.hostname, sensor@),
    {
        let fields = descriptor_fields(self.hostname.as_str(), sensor);
        let body = object_text(&fields);
        discovery_message_from(self.hostname.as_str(), sensor, body)
    }

    /// Records that the descriptor of the sensor `topic_name` has been
    /// published: from now on values may be published for it.
    pub fn mark_registered(&mut self, topic_name: &str)
        ensures
            final(self)@ == marked(old(self)@, topic_name@),
    {
        if !self.is_registered(topic_name) {
            proof {
                use_type_invariant(&*self);
            }
            let ghost before = name_views(self.registered_topics@);
            let mut names: Vec<String> = Vec::new();
            proof {
                assert(name_views(names@) =~= Seq::empty());
            }
            core::mem::swap(&mut names, &mut self.registered_topics);
            names.push(String::from_str(topic_name));
            proof {
                assert(name_views(names@) =~= before.push(topic_name@));
                lemma_enrolled_twice(before, topic_name@);
            }
            self.registered_topics = names;
        }
    }

    /// The message that carries `value` for the sensor `topic_name`, or
    /// nothing where no such sensor is registered: a value is published only
    /// for a registered sensor.
    pub fn publish(&self, topic_name: &str, value: String) -> (message: Option<Message>)
        ensures
            match published(self@, topic_name@, value@) {
                Some(stated) => message is Some && message->0@ == stated,
                None => message is None,
            },
    {
        if self.is_registered(topic_name) {
            Some(
                Message {
                    topic: state_topic_text(self.hostname.as_str(), topic_name),
                    payload: value,
                    retain: false,
                },
            )
        } else {
            None
        }
    }

    /// Ends the use of the registry and hands out its last message: the
    /// announcement that the agent no longer runs.
    pub fn disconnect(self) -> (message: Message)
        ensures
            message@ == availability_message(self@.hostname, false),
    {
        self.set_available(false)
    }
}

} // verus!
