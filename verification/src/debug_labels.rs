use vstd::prelude::*;

verus! {

/// `VkDebugUtilsMessageSeverityFlagBitsEXT` values.
pub const SEVERITY_VERBOSE: u32 = 0x0000_0001;
pub const SEVERITY_INFO: u32 = 0x0000_0010;
pub const SEVERITY_WARNING: u32 = 0x0000_0100;
pub const SEVERITY_ERROR: u32 = 0x0000_1000;

/// `VkDebugUtilsMessageTypeFlagBitsEXT` values.
pub const TYPE_GENERAL: u32 = 0x0000_0001;
pub const TYPE_VALIDATION: u32 = 0x0000_0002;
pub const TYPE_PERFORMANCE: u32 = 0x0000_0004;

pub open spec fn spec_severity_label(severity: u32) -> Option<Seq<char>> {
    if severity == SEVERITY_VERBOSE {
        Some("[VERBOSE]"@)
    } else if severity == SEVERITY_WARNING {
        Some("[WARNING]"@)
    } else if severity == SEVERITY_ERROR {
        Some("[ERROR]"@)
    } else if severity == SEVERITY_INFO {
        Some("[INFO]"@)
    } else {
        None
    }
}

pub open spec fn spec_type_label(message_type: u32) -> Option<Seq<char>> {
    if message_type == TYPE_GENERAL {
        Some("[GENERAL]"@)
    } else if message_type == TYPE_PERFORMANCE {
        Some("[PERFORMANCE]"@)
    } else if message_type == TYPE_VALIDATION {
        Some("[VALIDATION]"@)
    } else {
        None
    }
}

pub open spec fn label_view(label: Option<&str>) -> Option<Seq<char>> {
    match label {
        Some(s) => Some(s@),
        None => None,
    }
}

/// The tag printed before a validation message of a single severity; `None`
/// for any other value.
pub fn severity_label(severity: u32) -> (label: Option<&'static str>)
    ensures
        label_view(label) == spec_severity_label(severity),
{
    if severity == SEVERITY_VERBOSE {
        Some("[VERBOSE]")
    } else if severity == SEVERITY_WARNING {
        Some("[WARNING]")
    } else if severity == SEVERITY_ERROR {
        Some("[ERROR]")
    } else if severity == SEVERITY_INFO {
        Some("[INFO]")
    } else {
        None
    }
}

/// The tag printed before a validation message of a single type; `None` for
/// any other value.
pub fn type_label(message_type: u32) -> (label: Option<&'static str>)
    ensures
        label_view(label) == spec_type_label(message_type),
{
    if message_type == TYPE_GENERAL {
        Some("[GENERAL]")
    } else if message_type == TYPE_PERFORMANCE {
        Some("[PERFORMANCE]")
    } else if message_type == TYPE_VALIDATION {
        Some("[VALIDATION]")
    } else {
        None
    }
}

} // verus!
