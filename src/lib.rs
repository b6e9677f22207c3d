//! Conversation logic of a personal health diary reachable through chat.
use vstd::prelude::*;

pub mod datetime;
pub mod decimal;
pub mod entry;
pub mod medication;
pub mod pending;
pub mod record;
pub mod router;
pub mod text;

verus! {

/// Version marker embedded in the binary, framed by NUL bytes so that it can
/// be found in the executable.
pub const VERSION_STR: &'static str = "\0Ver.:0.1.0\0";

/// The version marker of this build.
pub fn get_version_str() -> (r: &'static str)
    ensures
        r@ == VERSION_STR@,
{
    VERSION_STR
}

} // verus!
