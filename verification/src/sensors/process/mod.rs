//! The processes of a host.

pub mod command_line;
pub mod cpu;
pub mod fingerprint;
pub mod image;
pub mod integrity;
pub mod report;
pub mod signature;
pub mod tcp;
pub mod walk;

pub use self::report::{DerivedFlags, ProcessInfo};
pub use self::tcp::ConnectionInfo;
