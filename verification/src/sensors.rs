//! The sensors of one host: seven that every host has, then one for each
//! configured drive.

use vstd::prelude::*;
use vstd::string::*;
use crate::config::{drive_views, DriveConfig, DriveView};
use crate::registry::{SensorDefinition, SensorView};
use crate::topics::availability_name;

verus! {

/// How many sensors every host has, whatever its drives.
pub const FIXED_SENSORS: usize = 7;

/// A sensor of the class `sensor` with the icon `icon`, with a unit where one
/// is given, and no device class or state class.
pub open spec fn plain_sensor(name: Seq<char>, unit: Option<Seq<char>>, icon: Seq<char>) -> SensorView {
    SensorView {
        topic_class: "sensor"@,
        device_class: None,
        state_class: None,
        name,
        unit,
        icon: Some(icon),
    }
}

/// The sensors that every host has, in the order in which they are
/// registered: availability, uptime, cpu, memory, swap, battery level and
/// battery state.
pub open spec fn fixed_sensor(index: int) -> SensorView
    recommends
        0 <= index < FIXED_SENSORS,
{
    if index == 0 {
        plain_sensor(availability_name(), None, "mdi:check-network-outline"@)
    } else if index == 1 {
        plain_sensor("uptime"@, Some("days"@), "mdi:timer-sand"@)
    } else if index == 2 {
        plain_sensor("cpu"@, Some("%"@), "mdi:gauge"@)
    } else if index == 3 {
        plain_sensor("memory"@, Some("%"@), "mdi:gauge"@)
    } else if index == 4 {
        plain_sensor("swap"@, Some("%"@), "mdi:gauge"@)
    } else if index == 5 {
        SensorView {
            device_class: Some("battery"@),
            ..plain_sensor("battery_level"@, Some("%"@), "mdi:battery"@)
        }
    } else {
        plain_sensor("battery_state"@, None, "mdi:battery"@)
    }
}

/// The sensor of a drive: it goes by the configured name of the drive.
pub open spec fn drive_sensor(name: Seq<char>) -> SensorView {
    plain_sensor(name, Some("%"@), "mdi:folder"@)
}

/// All the sensors of a host with the drives `drives`, in the order in which
/// they are registered: the fixed ones, then the drives in configured order.
pub open spec fn sensors(drives: Seq<DriveView>) -> Seq<SensorView> {
    Seq::new(
        FIXED_SENSORS as nat + drives.len(),
        |index: int|
            if index < FIXED_SENSORS {
                fixed_sensor(index)
            } else {
                drive_sensor(drives[index - FIXED_SENSORS].name)
            },
    )
}

fn plain(name: &str, unit: Option<&str>, icon: &str) -> (sensor: SensorDefinition)
    ensures
        sensor@ == plain_sensor(
            name@,
            match unit {
                Some(u) => Some(u@),
                None => None,
            },
            icon@,
        ),
{
    SensorDefinition {
        topic_class: String::from_str("sensor"),
        device_class: None,
        state_class: None,
        name: String::from_str(name),
        unit: match unit {
            Some(u) => Some(String::from_str(u)),
            None => None,
        },
        icon: Some(String::from_str(icon)),
    }
}

/// The sensor that is registered at place `index`, counting from zero, or
/// nothing where the host has fewer sensors.
pub fn sensor_definition(drives: &Vec<DriveConfig>, index: usize) -> (sensor: Option<
    SensorDefinition,
>)
    ensures
        match sensor {
            Some(s) => index < sensors(drive_views(drives@)).len() && s@ == sensors(
                drive_views(drives@),
            )[index as int],
            None => index >= sensors(drive_views(drives@)).len(),
        },
{
    if index == 0 {
        Some(plain("availability", None, "mdi:check-network-outline"))
    } else if index == 1 {
        Some(plain("uptime", Some("days"), "mdi:timer-sand"))
    } else if index == 2 {
        Some(plain("cpu", Some("%"), "mdi:gauge"))
    } else if index == 3 {
        Some(plain("memory", Some("%"), "mdi:gauge"))
    } else if index == 4 {
        Some(plain("swap", Some("%"), "mdi:gauge"))
    } else if index == 5 {
        let mut sensor = plain("battery_level", Some("%"), "mdi:battery");
        sensor.device_class = Some(String::from_str("battery"));
        Some(sensor)
    } else if index == 6 {
        Some(plain("battery_state", None, "mdi:battery"))
    } else if index - FIXED_SENSORS < drives.len() {
        Some(plain(drives[index - FIXED_SENSORS].name.as_str(), Some("%"), "mdi:folder"))
    } else {
        None
    }
}

} // verus!
