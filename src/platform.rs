//! The K-Bot platform's identity.
use vstd::prelude::*;

verus! {

/// The K-Bot platform, as the daemon that hosts the actuator services sees it.
pub struct KbotPlatform {}

impl KbotPlatform {
    /// The platform's name.
    pub open spec fn name_spec() -> Seq<char> {
        "KBot"@
    }

    /// The serial number reported while the device does not provide one.
    pub open spec fn serial_spec() -> Seq<char> {
        "00000000"@
    }

    /// A platform handle; it owns no hardware until services are created.
    pub fn new() -> (r: KbotPlatform)
        ensures
            r == (KbotPlatform {}),
    {
        KbotPlatform {}
    }

    /// The platform's name.
    pub fn name(&self) -> (r: &'static str)
        ensures
            r@ == Self::name_spec(),
    {
        "KBot"
    }

    /// The platform's serial number.
    pub fn serial(&self) -> (r: String)
        ensures
            r@ == Self::serial_spec(),
    {
        "00000000".to_owned()
    }
}

impl Default for KbotPlatform {
    fn default() -> (r: KbotPlatform)
        ensures
            r == (KbotPlatform {}),
    {
        KbotPlatform::new()
    }
}

} // verus!
