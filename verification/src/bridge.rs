//! The bridge between the host application and the vendor library: the
//! plugin's one entry point hands back what the vendor's registration
//! routine returns.

use vstd::prelude::*;

verus! {

/// Calls `vendor_register` once and returns the handle that it gave,
/// whatever it is: nothing is checked, and nothing is changed. The routine
/// is a parameter, so that another can stand in for the vendor's.
pub fn register_with<H, F: FnOnce() -> H>(vendor_register: F) -> (handle: H)
    requires
        vendor_register.requires(()),
    ensures
        vendor_register.ensures((), handle),
{
    vendor_register()
}

} // verus!
