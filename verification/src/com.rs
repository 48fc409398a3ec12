//! COM apartment bookkeeping: what the result of initialising COM on a
//! thread means for the caller.

use vstd::prelude::*;

verus! {

/// `RPC_E_CHANGED_MODE`, as the signed value of the `HRESULT`.
pub const RPC_E_CHANGED_MODE: i32 = -2147417850;

/// Records whether this thread's COM initialisation must be undone when the
/// apartment is dropped.
#[derive(Debug)]
pub struct ComApartment {
    pub initialized_here: bool,
}

/// Whether an `HRESULT` returned by `CoInitializeEx` leaves COM usable on the
/// thread: any success code, or "already initialised with another model".
pub open spec fn init_usable(hr: i32) -> bool {
    hr >= 0 || hr == RPC_E_CHANGED_MODE
}

impl ComApartment {
    /// Interprets the `HRESULT` of `CoInitializeEx`.  Success codes are
    /// accepted, and only `S_OK` (0) means this thread initialised COM and
    /// must uninitialise it; `RPC_E_CHANGED_MODE` is accepted without owning
    /// the apartment; every other code is returned as the error.
    pub fn from_init_result(hr: i32) -> (r: core::result::Result<ComApartment, i32>)
        ensures
            init_usable(hr) <==> r is Ok,
            r matches Ok(a) ==> a.initialized_here == (hr == 0),
            r matches Err(code) ==> code == hr,
    {
        if hr >= 0 {
            Ok(ComApartment { initialized_here: hr == 0 })
        } else if hr == RPC_E_CHANGED_MODE {
            Ok(ComApartment { initialized_here: false })
        } else {
            Err(hr)
        }
    }

    /// Whether dropping this apartment must call `CoUninitialize`.
    pub fn must_uninitialize(&self) -> (r: bool)
        ensures
            r == self.initialized_here,
    {
        self.initialized_here
    }
}

} // verus!
