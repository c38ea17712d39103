//! Runtime directories of the device.
use vstd::prelude::*;

verus! {

/// Global configuration, read-only, written by the vendor at the factory.
pub fn config_dir() -> (r: String)
    ensures
        r@ == "/etc/taihao-os"@,
{
    String::from_str("/etc/taihao-os")
}

/// System-level SKILL packages.
pub fn skills_system() -> (r: String)
    ensures
        r@ == "/usr/share/taihao-os/skills"@,
{
    String::from_str("/usr/share/taihao-os/skills")
}

/// Vendor-level SKILL packages (writable).
pub fn skills_vendor() -> (r: String)
    ensures
        r@ == "/etc/taihao-os/skills"@,
{
    String::from_str("/etc/taihao-os/skills")
}

/// Persistent runtime state.
pub fn state() -> (r: String)
    ensures
        r@ == "/var/lib/taihao-os"@,
{
    String::from_str("/var/lib/taihao-os")
}

/// Audit records and logs.
pub fn logs() -> (r: String)
    ensures
        r@ == "/var/log/taihao-os"@,
{
    String::from_str("/var/log/taihao-os")
}

} // verus!
