//! Which detected Angular majors the tool can migrate from.

use vstd::prelude::*;
use crate::catalog::{catalog_entry, catalog_major, MIN_SUPPORTED_MAJOR};
use crate::plan::PlanError;

verus! {

/// Whether the detected major `major` can be migrated: `Err(TooOld)` below
/// the oldest supported major, `Err(TooNew)` above the newest one the
/// catalog knows.
pub open spec fn supported_spec(major: u32) -> Result<(), PlanError> {
    if major < MIN_SUPPORTED_MAJOR {
        Err(PlanError::TooOld { major })
    } else if catalog_entry(major) is None {
        Err(PlanError::TooNew { major })
    } else {
        Ok(())
    }
}

/// Validates that the detected Angular major is supported by the tool.
pub fn ensure_supported(major: u32) -> (res: Result<(), PlanError>)
    ensures
        res == supported_spec(major),
{
    if major < MIN_SUPPORTED_MAJOR {
        return Err(PlanError::TooOld { major });
    }
    if catalog_major(major).is_none() {
        return Err(PlanError::TooNew { major });
    }
    Ok(())
}

} // verus!
