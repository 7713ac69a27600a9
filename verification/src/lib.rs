//! Compose agents into a graph over oneharness and onejudge, and merge their
//! events onto one stream.
//!
//! The library holds the rules of a graph: what a document may say, what a member
//! is run with, what its events look like on the wire, and how a run settles.

pub mod anchor;
pub mod bound;
pub mod catalog;
pub mod cli;
pub mod clock;
pub mod clock_laws;
pub mod config;
pub mod control;
pub mod control_laws;
pub mod emitter;
pub mod error;
pub mod event;
pub mod fake_harness;
pub mod fake_llmlint;
pub mod fake_provider;
pub mod fake_view;
pub mod glob;
pub mod graph_laws;
pub mod harness;
pub mod health;
pub mod history;
pub mod invoke;
pub mod json;
pub mod json_laws;
pub mod json_read;
pub mod judge;
pub mod judge_laws;
pub mod judge_sides;
pub mod keyed;
pub mod launch_laws;
pub mod liveness;
pub mod location;
pub mod member;
pub mod member_laws;
pub mod path_laws;
pub mod payload;
pub mod persona;
pub mod persona_laws;
pub mod preflight;
pub mod provider;
pub mod search;
pub mod session;
pub mod stamp;
pub mod stand_in_laws;
pub mod stream_laws;
pub mod task;
pub mod text;
pub mod text_laws;
pub mod toml;
pub mod validation;
pub mod validation_laws;
pub mod verb_laws;
pub mod verbs;
