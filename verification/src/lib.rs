//! TCP socket statistics for FreeBSD and macOS: kernel record parsers,
//! the conversion to the export schema, and the logic of the bundled
//! test and exporter tools.

pub mod bytes;
pub mod text;
pub mod clock;
pub mod record;
pub mod sysctl;
pub mod proto;
pub mod convert;
pub mod platform;
pub mod echo;
pub mod exporter;
