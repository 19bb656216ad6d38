//! What identifies the treadmill and its two characteristics.

use vstd::prelude::*;
use crate::text::{chars_of, contains, contains_text};

verus! {

/// The 16-bit identifier of the characteristic that notifies treadmill
/// data frames.
pub const TREADMILL_DATA_CHARACTERISTIC: u16 = 0x2ACD;

/// The 16-bit identifier of the control point, to which commands are
/// written.
pub const TREADMILL_CONTROL_CHARACTERISTIC: u16 = 0x2AD9;

/// The text that the advertised name of a supported treadmill holds.
pub open spec fn treadmill_name() -> Seq<char> {
    "HORIZON_7.0AT"@
}

/// Tells whether an advertised name is that of a supported treadmill: the
/// model's name stands somewhere in it.
pub fn is_treadmill_name(name: &str) -> (supported: bool)
    ensures
        supported == contains_text(name@, treadmill_name()),
{
    let name = chars_of(name);
    let model = chars_of("HORIZON_7.0AT");
    contains(&name, &model)
}

} // verus!
