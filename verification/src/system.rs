//! Facts about the host machine, read through `sysinfo`.

use vstd::prelude::*;

verus! {

/// `sysinfo::System::new_all` then `System::total_memory`: the machine's RAM
/// in bytes, or `None` when the system information cannot be initialised.
/// Nothing is claimed of the value, which depends on the machine.
#[verifier::external_body]
pub(crate) fn total_memory_bytes() -> Option<u64> {
    match sysinfo::System::new_all() {
        Ok(sys) => Some(sys.total_memory()),
        Err(_) => None,
    }
}

} // verus!
