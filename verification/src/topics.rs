//! Topic names: where on the broker each kind of message goes.

use vstd::prelude::*;
use vstd::string::*;

verus! {

/// The topic on which the values of the sensor `name` of the host `hostname`
/// are published.
pub open spec fn state_topic(hostname: Seq<char>, name: Seq<char>) -> Seq<char> {
    "system-mqtt/"@ + hostname + "/"@ + name
}

/// The name under which availability is announced and registered.
pub open spec fn availability_name() -> Seq<char> {
    "availability"@
}

/// The topic on which the host `hostname` announces whether its agent runs.
pub open spec fn availability_topic(hostname: Seq<char>) -> Seq<char> {
    state_topic(hostname, availability_name())
}

/// The topic on which the sensor `name` of class `topic_class` is described to
/// the dashboard.
pub open spec fn discovery_topic(
    topic_class: Seq<char>,
    hostname: Seq<char>,
    name: Seq<char>,
) -> Seq<char> {
    "homeassistant/"@ + topic_class + "/system-mqtt-"@ + hostname + "/"@ + name + "/config"@
}

/// The name by which the dashboard lists the sensor `name` of `hostname`.
pub open spec fn display_name(hostname: Seq<char>, name: Seq<char>) -> Seq<char> {
    hostname + "-"@ + name
}

/// Builds the state topic of a sensor.
pub fn state_topic_text(hostname: &str, name: &str) -> (topic: String)
    ensures
        topic@ == state_topic(hostname@, name@),
{
    let mut topic = String::from_str("system-mqtt/");
    topic.append(hostname);
    topic.append("/");
    topic.append(name);
    topic
}

/// Builds the availability topic of a host.
pub fn availability_topic_text(hostname: &str) -> (topic: String)
    ensures
        topic@ == availability_topic(hostname@),
{
    state_topic_text(hostname, "availability")
}

/// Builds the discovery topic of a sensor.
pub fn discovery_topic_text(topic_class: &str, hostname: &str, name: &str) -> (topic: String)
    ensures
        topic@ == discovery_topic(topic_class@, hostname@, name@),
{
    let mut topic = String::from_str("homeassistant/");
    topic.append(topic_class);
    topic.append("/system-mqtt-");
    topic.append(hostname);
    topic.append("/");
    topic.append(name);
    topic.append("/config");
    topic
}

/// Builds the display name of a sensor.
pub fn display_name_text(hostname: &str, name: &str) -> (text: String)
    ensures
        text@ == display_name(hostname@, name@),
{
    let mut text = String::from_str(hostname);
    text.append("-");
    text.append(name);
    text
}

} // verus!
