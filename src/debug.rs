//! The validation layer, and how its messages reach the log.
use vstd::prelude::*;

verus! {

/// `log::Level`, whose variants the mapping below names.
#[verifier::external_type_specification]
pub struct ExLevel(log::Level);

/// `VK_DEBUG_UTILS_MESSAGE_SEVERITY_VERBOSE_BIT_EXT`.
pub const SEVERITY_VERBOSE: u32 = 0x1;

/// `VK_DEBUG_UTILS_MESSAGE_SEVERITY_INFO_BIT_EXT`.
pub const SEVERITY_INFO: u32 = 0x10;

/// `VK_DEBUG_UTILS_MESSAGE_SEVERITY_WARNING_BIT_EXT`.
pub const SEVERITY_WARNING: u32 = 0x100;

/// `VK_DEBUG_UTILS_MESSAGE_SEVERITY_ERROR_BIT_EXT`.
pub const SEVERITY_ERROR: u32 = 0x1000;

/// The log level of a validation message: errors stay errors, warnings
/// become warnings, information becomes debug output and verbose messages
/// become traces; anything else is logged as information.
pub fn log_level_for(severity: u32) -> (r: log::Level)
    ensures
        r == if severity == SEVERITY_ERROR {
            log::Level::Error
        } else if severity == SEVERITY_WARNING {
            log::Level::Warn
        } else if severity == SEVERITY_INFO {
            log::Level::Debug
        } else if severity == SEVERITY_VERBOSE {
            log::Level::Trace
        } else {
            log::Level::Info
        },
{
    if severity == SEVERITY_INFO {
        log::Level::Debug
    } else if severity == SEVERITY_ERROR {
        log::Level::Error
    } else if severity == SEVERITY_VERBOSE {
        log::Level::Trace
    } else if severity == SEVERITY_WARNING {
        log::Level::Warn
    } else {
        log::Level::Info
    }
}

/// The name of the Khronos validation layer.
pub fn validation_layer_name() -> (r: &'static str)
    ensures
        r@ == "VK_LAYER_KHRONOS_validation"@,
{
    "VK_LAYER_KHRONOS_validation"
}

/// The layers the instance and the device are created with.
pub fn layer_names() -> (r: Vec<&'static str>)
    ensures
        r@.len() == 1,
        r@[0]@ == "VK_LAYER_KHRONOS_validation"@,
{
    let mut v: Vec<&'static str> = Vec::new();
    v.push(validation_layer_name());
    v
}

} // verus!
