//! Market-data daemon library: bounded dispatch queues and sink mailboxes, configuration
//! and its validation, hot-reload classification, readiness and metrics, HTTP request
//! parsing and view routing, the view plane's live projection (tapes, books, depth,
//! derivatives, status) and its depth-of-market read, replay reads, and the planning and
//! supervision of sink workers and venue sessions.

pub mod queue;
pub mod mailbox;
pub mod text;
pub mod config;
pub mod sink_config;
pub mod venue_config;
pub mod validate;
pub mod reload;
pub mod health;
pub mod http;
pub mod route;
pub mod tape;
pub mod replay;
pub mod view;
pub mod cli;
pub mod metrics;
pub mod subscriptions;
pub mod session;
pub mod assoc;
pub mod plane;
pub mod sinks;
pub mod dom;
