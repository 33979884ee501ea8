//! # shrekd
//!
//! SHaRe, SHoRten oK Daemon: the lifecycle of ephemeral files, pastes and
//! url redirects, each reachable through a short random slug until its
//! access count or its expiry runs out.

pub mod api;
pub mod codec;
pub mod collector;
pub mod config;
pub mod error;
pub mod host;
pub mod path;
pub mod record;
pub mod retention;
pub mod settings;
pub mod slug;
pub mod store;
pub mod url;

pub use api::RecordResponse;
pub use config::Config;
pub use error::Error;
pub use host::HostBase;
pub use record::{Record, RecordData};
pub use retention::RetentionCurve;
pub use settings::RecordSettings;
