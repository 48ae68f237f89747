//! The gripper's register dictionary: the closed set of named registers and
//! their 16-bit addresses.
use vstd::prelude::*;
use crate::text::same_text;

verus! {

/// Address of the device identity register.
pub const REG_ID: u16 = 1000;

/// Address of the baud-rate register.
pub const REG_BAUDRATE: u16 = 1001;

/// Address of the error-clear register.
pub const REG_CLEAR_ERR: u16 = 1004;

/// Address of the force-calibration register.
pub const REG_FORCE_CLB: u16 = 1009;

/// Address of the six finger angle set-points.
pub const REG_ANGLE_SET: u16 = 1486;

/// Address of the six finger force set-points.
pub const REG_FORCE_SET: u16 = 1498;

/// Address of the six finger speed set-points.
pub const REG_SPEED_SET: u16 = 1522;

/// Address of the six measured finger angles.
pub const REG_ANGLE_ACT: u16 = 1546;

/// Address of the six measured finger forces.
pub const REG_FORCE_ACT: u16 = 1582;

/// Address of the error-code register.
pub const REG_ERR_CODE: u16 = 1606;

/// The address that the dictionary gives to the register called `name`.
pub open spec fn register_addr(name: Seq<char>) -> Option<u16> {
    if name == "ID"@ {
        Some(REG_ID)
    } else if name == "baudrate"@ {
        Some(REG_BAUDRATE)
    } else if name == "clearErr"@ {
        Some(REG_CLEAR_ERR)
    } else if name == "forceClb"@ {
        Some(REG_FORCE_CLB)
    } else if name == "angleSet"@ {
        Some(REG_ANGLE_SET)
    } else if name == "forceSet"@ {
        Some(REG_FORCE_SET)
    } else if name == "speedSet"@ {
        Some(REG_SPEED_SET)
    } else if name == "angleAct"@ {
        Some(REG_ANGLE_ACT)
    } else if name == "forceAct"@ {
        Some(REG_FORCE_ACT)
    } else if name == "errCode"@ {
        Some(REG_ERR_CODE)
    } else {
        None
    }
}

/// Looks a register up by name in the dictionary.
pub fn register_address(name: &str) -> (r: Option<u16>)
    ensures
        r == register_addr(name@),
{
    if same_text(name, "ID") {
        Some(REG_ID)
    } else if same_text(name, "baudrate") {
        Some(REG_BAUDRATE)
    } else if same_text(name, "clearErr") {
        Some(REG_CLEAR_ERR)
    } else if same_text(name, "forceClb") {
        Some(REG_FORCE_CLB)
    } else if same_text(name, "angleSet") {
        Some(REG_ANGLE_SET)
    } else if same_text(name, "forceSet") {
        Some(REG_FORCE_SET)
    } else if same_text(name, "speedSet") {
        Some(REG_SPEED_SET)
    } else if same_text(name, "angleAct") {
        Some(REG_ANGLE_ACT)
    } else if same_text(name, "forceAct") {
        Some(REG_FORCE_ACT)
    } else if same_text(name, "errCode") {
        Some(REG_ERR_CODE)
    } else {
        None
    }
}

} // verus!
