//! A desktop host that embeds a task runtime: the state machines, rules and data that stand
//! between a frontend and the runtime.
//!
//! - [`host`] is the host as a whole; [`builder`], [`config`] and [`status`] set it up and
//!   describe it, [`health`] keeps what went wrong, [`approval`] what the user is asked.
//! - [`supervisor`] follows submitted tasks to their results, over the model in [`supervision`];
//!   [`pump`] decides when the runtime is asked, [`observe`] reads what it reports.
//! - [`bridge`] and [`events`] hold what the frontend is sent, [`redact`] what it is not.
//! - [`plugin_runner`] finds plugins and starts the programs of their runners.
//! - [`resource`] stores resources and the links under which they are previewed.
//! - [`app_delivery`] wakes other apps and delivers requests to them.
//! - [`contracts`] holds the values that are exchanged with the runtime.
//!
//! Nothing here reads a file, a clock or a socket: callers do, and hand the outcome in.
pub mod app_delivery;
pub mod approval;
pub mod bridge;
pub mod builder;
pub mod config;
pub mod contracts;
pub mod error;
pub mod events;
pub mod health;
pub mod host;
pub mod ids;
pub mod json;
pub mod observe;
pub mod ordered_map;
pub mod plugin_runner;
pub mod pump;
pub mod redact;
pub mod resource;
pub mod status;
pub mod supervision;
pub mod supervisor;
pub mod text;
