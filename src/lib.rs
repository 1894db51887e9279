//! Persistence model and wire protocol of a group chat service.
//!
//! `models` holds the stored rows and the codecs of the enumerated columns,
//! `time` the timestamps, `store` the membership and message rules over an
//! in-memory relational store, and `protocol` the tagged-union messages of a
//! connection together with its session state machine.

pub mod models;
pub mod protocol;
pub mod store;
pub mod time;
