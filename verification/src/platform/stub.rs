//! The collector of a platform without a kernel socket list.

use vstd::prelude::*;
use super::{CollectError, CollectionResult};

verus! {

/// Collection on a platform that has neither `pcblist_n` nor the tcpstats
/// device: always `UnsupportedPlatform`.
pub fn collect() -> (r: Result<CollectionResult, CollectError>)
    ensures
        r matches Err(CollectError::UnsupportedPlatform),
{
    Err(CollectError::UnsupportedPlatform)
}

} // verus!
