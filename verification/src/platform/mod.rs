//! Platform record parsers and the result of a collection pass.

pub mod macos_layout;
pub mod macos;
pub mod stub;
pub mod freebsd_layout;
pub mod freebsd;

use vstd::prelude::*;
use crate::record::RawSocketRecord;
use crate::sysctl::SysctlError;

verus! {

/// Failures of a collection pass.
#[derive(Debug)]
pub enum CollectError {
    Sysctl(SysctlError),
    Parse { offset: usize, message: String },
    Truncated { offset: usize, need: usize, have: usize },
    UnknownKind { offset: usize, kind: u32 },
    DeviceOpen { path: String, source: std::io::Error },
    DeviceRead { source: std::io::Error },
    Ioctl { cmd: u64, source: std::io::Error },
    VersionMismatch { expected: u32, got: u32 },
    UnsupportedPlatform,
}

/// Result of a single collection pass.
#[derive(Debug)]
pub struct CollectionResult {
    pub records: Vec<RawSocketRecord>,
    pub generation: u64,
    pub collection_duration_ns: u64,
}

} // verus!
