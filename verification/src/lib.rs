//! Host telemetry for a home-automation dashboard: the rules by which a
//! monitoring agent resolves its broker credentials, describes its sensors,
//! turns raw host readings into published values and brackets its run with
//! availability announcements.

pub mod agent;
pub mod config;
pub mod credentials;
pub mod json;
pub mod metrics;
pub mod registry;
pub mod sampler;
pub mod sensors;
pub mod text;
pub mod topics;
