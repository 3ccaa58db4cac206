//! The exported entry points that the genuine library also offers.
use vstd::prelude::*;

verus! {

/// The platform's generic failure code, `E_FAIL`.
pub const E_FAIL: i32 = -2147467259;

/// Where a call of the device-creation factory goes.
#[derive(Clone, Copy, Debug, PartialEq, Eq, Structural)]
pub enum CreateRoute {
    /// To the genuine library's factory, with the caller's arguments unchanged;
    /// its return code is handed back as it is.
    Forward,
    /// Nowhere: the caller gets this failure code.
    Fail(i32),
}

/// Routes a call of the device-creation factory, given whether the genuine
/// library was loaded and whether its factory export was found: the call is
/// forwarded only when both hold, and fails with `E_FAIL` otherwise.
pub fn create_route(library_loaded: bool, export_found: bool) -> (r: CreateRoute)
    ensures
        library_loaded && export_found ==> r == CreateRoute::Forward,
        !library_loaded ==> r == CreateRoute::Fail(E_FAIL),
        !export_found ==> r == CreateRoute::Fail(E_FAIL),
{
    if library_loaded && export_found {
        CreateRoute::Forward
    } else {
        CreateRoute::Fail(E_FAIL)
    }
}

/// The control-panel entry point, present for callers that only look the
/// symbol up: it does nothing and returns at once. The window handle is taken
/// as the address it holds and is not read.
pub fn ShowJoyCPL(_hwnd: usize) {
}

} // verus!
