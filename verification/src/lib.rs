//! Command authority for a ground station that bridges browser peers and
//! vehicle peers.
//!
//! Browser peers and vehicle peers use separate sessions. The only paths from
//! the browser to the vehicle are the typed mappings and the bounded raw path
//! of [`CommandPolicy`], and the relay of schema-verified motion-capture
//! frames. The library decides; whoever calls it owns the sessions, the budget
//! files and the clock.

pub mod answer_laws;
pub mod budget_laws;
pub mod course_laws;
pub mod credential;
pub mod csv;
pub mod csv_laws;
pub mod dispatch;
pub mod dispatch_laws;
pub mod intent_laws;
pub mod ledger;
pub mod limit_laws;
pub mod number;
pub mod payload;
pub mod policy;
pub mod policy_laws;
pub mod runtime;
pub mod setting_laws;
pub mod speed;
pub mod status;
pub mod text;
pub mod text_laws;
pub mod velocity_budget;
pub mod wire;

pub use policy::{
    AuthorizedCommand, CommandPolicy, Delivery, PolicyConfig, PolicyError,
    CANONICAL_FIRMWARE_QUERY_KEYS,
};
pub use runtime::CommandAuthorityConfig;
