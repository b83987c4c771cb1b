//! Service inventory for a systemd host: decoding what `systemctl`
//! reports into service records, filtering a snapshot of them, and
//! deciding what each event of a service window changes.
//!
//! The crate runs no command itself. A caller runs the service manager
//! with the arguments of a [`systemd::Request`] and hands back what the
//! command left; every function here is a function of its arguments.

pub mod decode;
pub mod filter;
pub mod gui;
pub mod json;
pub mod sequences;
pub mod status;
pub mod store;
pub mod systemd;
pub mod text;
