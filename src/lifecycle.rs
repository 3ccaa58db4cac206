//! The decision taken on each event of the host's module loader.
use vstd::prelude::*;

verus! {

/// The loader's reason code for the module being attached to the process.
pub const DLL_PROCESS_ATTACH: u32 = 1;

/// Whether the loader event `call_reason` starts the one-time initialisation:
/// only the attach to the process does; every other event is ignored. The
/// loader is told of success on every event, whatever the initialisation
/// later does.
pub fn starts_initialization(call_reason: u32) -> (r: bool)
    ensures
        r == (call_reason == DLL_PROCESS_ATTACH),
{
    call_reason == DLL_PROCESS_ATTACH
}

} // verus!
