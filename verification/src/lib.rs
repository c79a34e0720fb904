//! Trusted root-filesystem bootstrap for an enclave's first process.
//!
//! The crate holds the decisions of the boot sequence: which boot mode the
//! environment selects, how the textual key decodes, what the layered
//! root-filesystem record contains, and how the result of the privileged
//! mount is read. Everything that touches the outside world is left to the
//! driver, which performs one action at a time and hands the result back.

pub mod acquire;
pub mod ascii;
pub mod boot;
pub mod boot_laws;
pub mod codec;
pub mod codec_laws;
pub mod config;
pub mod cstr;
pub mod error;
pub mod invoke;
pub mod mode;
pub mod settings;

pub use boot::{start, step, BootAction, BootEvent, BootState};
pub use codec::{parse_str_to_bytes, KeyMaterial};
pub use config::LayeredRootfsConfig;
pub use error::BootError;
pub use invoke::MountRequest;
pub use mode::BootMode;
pub use settings::BootSettings;
