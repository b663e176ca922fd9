//! A practice-time tracker core: the single active-session ledger, the idle
//! and productivity policies that may end a session, and the analytics that
//! reduce a per-day history into dashboard statistics.
pub mod analytics;
pub mod clock;
pub mod display;
pub mod error;
pub mod ledger;
pub mod model;
pub mod policy;
