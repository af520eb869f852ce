//! What the operator configures: the broker, the login, the pace and the
//! drives to watch.

use vstd::prelude::*;
use vstd::string::*;
use crate::credentials::{PasswordSource, PasswordSourceView};
use crate::text::optional_text;

verus! {

/// One drive to watch: where it is mounted, and the name of its sensor.
#[derive(Clone, Debug, PartialEq, Eq)]
pub struct DriveConfig {
    pub path: String,
    pub name: String,
}

/// A drive mapping as characters.
pub struct DriveView {
    pub path: Seq<char>,
    pub name: Seq<char>,
}

impl View for DriveConfig {
    type V = DriveView;

    open spec fn view(&self) -> DriveView {
        DriveView { path: self.path@, name: self.name@ }
    }
}

/// The drive mappings of a list, in their order.
pub open spec fn drive_views(drives: Seq<DriveConfig>) -> Seq<DriveView> {
    drives.map_values(|drive: DriveConfig| drive@)
}

/// A span of time: whole seconds and the nanoseconds beyond them.
#[derive(Clone, Copy, Debug, PartialEq, Eq, Structural)]
pub struct Interval {
    pub secs: u64,
    pub nanos: u32,
}

/// The configuration of the agent. It does not change while the agent runs.
#[derive(Clone, Debug, PartialEq, Eq)]
pub struct Config {
    /// The URL of the broker.
    pub mqtt_server: String,
    /// The user to log in as, if the broker asks for a login.
    pub username: Option<String>,
    /// Where the password of that user is kept. Without a user it is ignored.
    pub password_source: PasswordSource,
    /// The time from one poll to the next.
    pub update_interval: Interval,
    /// The drives to watch, each with the name of its sensor.
    pub drives: Vec<DriveConfig>,
}

/// A configuration as characters and sequences.
pub struct ConfigView {
    pub mqtt_server: Seq<char>,
    pub username: Option<Seq<char>>,
    pub password_source: PasswordSourceView,
    pub update_interval: Interval,
    pub drives: Seq<DriveView>,
}

impl View for Config {
    type V = ConfigView;

    open spec fn view(&self) -> ConfigView {
        ConfigView {
            mqtt_server: self.mqtt_server@,
            username: optional_text(self.username),
            password_source: self.password_source@,
            update_interval: self.update_interval,
            drives: drive_views(self.drives@),
        }
    }
}

/// The configuration that is used, and written out, where none exists yet: a
/// broker on this machine, no login, a poll every thirty seconds, and the root
/// file system as the one drive.
pub open spec fn default_config() -> ConfigView {
    ConfigView {
        mqtt_server: "mqtt://localhost"@,
        username: None,
        password_source: PasswordSourceView::Keyring,
        update_interval: Interval { secs: 30, nanos: 0 },
        drives: seq![DriveView { path: "/"@, name: "root"@ }],
    }
}

impl Default for Config {
    fn default() -> (config: Config)
        ensures
            config@ == default_config(),
    {
        let mut drives: Vec<DriveConfig> = Vec::new();
        drives.push(DriveConfig { path: String::from_str("/"), name: String::from_str("root") });
        let config = Config {
            mqtt_server: String::from_str("mqtt://localhost"),
            username: None,
            password_source: PasswordSource::Keyring,
            update_interval: Interval { secs: 30, nanos: 0 },
            drives,
        };
        assert(config@.drives =~= default_config().drives);
        config
    }
}

} // verus!
