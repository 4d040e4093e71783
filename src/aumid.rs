//! The application user model identifier under which notifications are
//! shown on Windows.
use vstd::prelude::*;
use crate::constants::CARGO_PKG_NAME;

verus! {

/// The fixed identifier that distinguishes this application.
pub const UUID: &'static str = "5e7a90e6-2218-4d6d-b319-86f46c300bcb";

/// `{UUID}.name`: the identifier in braces, a dot, then the package name.
pub fn get_aumid() -> (r: String)
    ensures
        r@ == "{"@ + UUID@ + "}."@ + CARGO_PKG_NAME@,
{
    let mut r = String::from_str("{");
    r.append(UUID);
    r.append("}.");
    r.append(CARGO_PKG_NAME);
    r
}

} // verus!
