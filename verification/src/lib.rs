//! Verified core of the ADesk agent and its accessibility (text) view.

pub mod chars;
pub mod model;
pub mod role;
pub mod source;
pub mod find;
pub mod text_search;
pub mod fmt;
pub mod registry;
pub mod a11y_error;
pub mod service;
pub mod outline;
pub mod fixture;
pub mod elide;
pub mod runtime;
pub mod decision;
pub mod agent_error;
pub mod metrics;
pub mod context;
pub mod requests;
pub mod agent_loop;
pub mod watch;
pub mod provider;
pub mod scenario;
pub mod atspi_map;
pub mod dbus;
pub mod backend;
pub mod correlate;
pub mod walk;
