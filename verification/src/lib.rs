//! A sans-I/O core for simulated GPIO chips.
//!
//! The kernel's gpio-sim module is configured through configfs and, once
//! live, controlled through sysfs.  This crate decides what has to be
//! created, written, read and removed there, and in which order; it never
//! touches a file itself.  A caller performs each [`Request`] that the crate
//! hands out and gives the [`Reply`] back:
//!
//! ```ignore
//! let (mut machine, mut request) = config.live();
//! let outcome = loop {
//!     match machine.step(perform(&request)) {
//!         Progress::Next(next, asked) => (machine, request) = (next, asked),
//!         Progress::Done(outcome) => break outcome,
//!     }
//! };
//! ```
//!
//! Three operations run as such machines: finding where simulators are
//! configured ([`find_configfs`]), taking a configuration live
//! ([`Builder::live`]) and taking a simulator down
//! ([`Sim::cleanup_configfs`]).  The lines of a live chip are controlled by
//! single requests ([`Chip::set_pull`], [`Chip::get_pull`],
//! [`Chip::get_level`]), whose replies [`Reply::pull`] and [`Reply::level`]
//! read.
//!
//! Every function is verified against a contract over mathematical views
//! of its arguments, and what holds of whole activations and teardowns is
//! proved from those contracts: in [`runs`], [`teardown`], [`tree`] and
//! beside the functions themselves.

pub mod ascending;
pub mod config;
pub mod control;
pub mod equal;
pub mod error;
pub mod layout;
pub mod level;
pub mod live;
pub mod locator;
pub mod mounts;
pub mod naming;
pub mod order;
pub mod paths;
pub mod request;
pub mod runs;
pub mod sim;
pub mod simpleton;
pub mod teardown;
pub mod text;
pub mod tree;

pub use config::{builder, Bank, Builder, Direction, Hog, Offset, OffsetMap};
pub use error::Error;
pub use level::Level;
pub use live::{Activation, Refusal};
pub use locator::{find_configfs, Locator};
pub use mounts::configfs_mountpoint;
pub use naming::{app_name, default_name, unique_name};
pub use request::{Progress, Reply, Request};
pub use sim::{Chip, Sim};
pub use simpleton::Simpleton;
pub use teardown::Teardown;
