//! Wallpaper rotation for a set of display outputs: the rotation queues, the
//! monitor-behavior manager, the tick scheduler, the control protocol and the
//! persisted snapshot, each with a proved contract.
//!
//! The library decides and computes; it does not read files, run programs or
//! wait. Whoever uses it hands it what was read (the configuration, the
//! images found on disk, the answers of the wallpaper tool, the reading of a
//! clock) and carries out what it returns (the images to show, the snapshot
//! to store).
//!
//! - `queue`: the rotation queue, and the laws of stepping through it.
//! - `config`: the settings, their three levels, and their validation.
//! - `state`: the snapshot that is kept between runs.
//! - `live`, `manager`, `dispatch`, `scheduler`: the live state, how it is
//!   built and rebuilt, what control requests and clock ticks do to it.
//! - `ipc`, `cli`: the control requests and responses, and how a response is
//!   shown.
//! - `command_builder`, `executor`, `swww`, `image_discovery`: the command
//!   line of the wallpaper tool, what is made of its answers, and which files
//!   count as images.
//! - `text`, `parse`, `paths`, `time`, `error`: texts and their order,
//!   scanning, paths, spans of time, and the errors of the system.
//!
//! Calls into other crates and into parts of the standard library that the
//! verifier has no model of stand in small functions of their own, marked
//! `external_body`; their contracts are taken on trust, and each says in its
//! comment what it takes for granted.

pub mod cli;
pub mod command_builder;
pub mod config;
pub mod dispatch;
pub mod error;
pub mod executor;
pub mod image_discovery;
pub mod ipc;
pub mod live;
pub mod manager;
pub mod parse;
pub mod paths;
pub mod queue;
pub mod scheduler;
pub mod state;
pub mod swww;
pub mod text;
pub mod time;

pub use command_builder::CommandBuilder;
pub use config::MonitorBehavior;
pub use error::{ErrorReporting, SwwwsError};
pub use executor::ProcessExecutor;
pub use image_discovery::ImageDiscovery;
pub use ipc::{IpcClient, IpcCommand, IpcResponse, IpcServer, OutputStatus};
pub use queue::{Queue, Sorting};
pub use state::{DaemonState, OutputState};
pub use swww::SwwwIntegration;
pub use time::parse_duration;
