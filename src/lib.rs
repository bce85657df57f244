//! Interval tracking for an orientation-sensing die.
//!
//! Face changes are mapped to labelled sides by the registry, turned into
//! completed intervals by the tracker, and handed to a dispatcher that can
//! frame each interval as a time-tracking record for a remote endpoint.
pub mod registry;
pub mod tracker;
pub mod timetagger;
pub mod store;
pub mod dispatch;
