use vstd::prelude::*;

use crate::text::str_eq;

verus! {

/// The catalog's spelling for a CPU architecture as the host reports it:
/// the two names the tool knows, and `unknown` for the rest.
pub open spec fn spec_arch_label(arch: Seq<char>) -> Seq<char> {
    if arch == "x86_64"@ {
        "x86_64"@
    } else if arch == "aarch64"@ {
        "arm64"@
    } else {
        "unknown"@
    }
}

/// The catalog's spelling for the host's CPU architecture name.
pub fn arch_label(arch: &str) -> (r: &str)
    ensures
        r@ == spec_arch_label(arch@),
{
    if str_eq(arch, "x86_64") {
        "x86_64"
    } else if str_eq(arch, "aarch64") {
        "arm64"
    } else {
        "unknown"
    }
}

/// Whether the reported operating system is the one supported target.
pub fn os_supported(os: &str) -> (r: bool)
    ensures
        r == (os@ == "macos"@),
{
    str_eq(os, "macos")
}

} // verus!
