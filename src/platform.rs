//! Platform detection from a device-tree `compatible` string.
use vstd::prelude::*;

verus! {

/// Supported SoC platforms.
#[derive(Debug, Clone, Copy, PartialEq, Eq, Structural)]
pub enum Platform {
    AllwinnerA527,
    AllwinnerH616,
    AllwinnerA64,
    RockchipRK3588,
    Unknown,
}

/// `needle` occurs in `haystack` as a contiguous run of characters.
pub open spec fn has_substring(haystack: Seq<char>, needle: Seq<char>) -> bool {
    exists|i: int|
        0 <= i && i + needle.len() <= haystack.len() && #[trigger] haystack.subrange(
            i,
            i + needle.len(),
        ) == needle
}

/// The platform that a `compatible` string names; earlier rows win.
pub open spec fn platform_of(compatible: Seq<char>) -> Platform {
    if has_substring(compatible, "sun55i-a527"@) || has_substring(compatible, "cubie-a5e"@) {
        Platform::AllwinnerA527
    } else if has_substring(compatible, "sun50i-h616"@) {
        Platform::AllwinnerH616
    } else if has_substring(compatible, "sun50i-a64"@) {
        Platform::AllwinnerA64
    } else if has_substring(compatible, "rk3588"@) {
        Platform::RockchipRK3588
    } else {
        Platform::Unknown
    }
}

/// Relies on `str::contains` with a `&str` pattern: true exactly when
/// `needle` occurs in `haystack`.
#[verifier::external_body]
fn str_contains(haystack: &str, needle: &str) -> (r: bool)
    ensures
        r == has_substring(haystack@, needle@),
{
    haystack.contains(needle)
}

impl Platform {
    /// Detect the platform from a device-tree compatible string.
    pub fn detect_from_compatible(compatible: &str) -> (r: Self)
        ensures
            r == platform_of(compatible@),
    {
        if str_contains(compatible, "sun55i-a527") || str_contains(compatible, "cubie-a5e") {
            Platform::AllwinnerA527
        } else if str_contains(compatible, "sun50i-h616") {
            Platform::AllwinnerH616
        } else if str_contains(compatible, "sun50i-a64") {
            Platform::AllwinnerA64
        } else if str_contains(compatible, "rk3588") {
            Platform::RockchipRK3588
        } else {
            Platform::Unknown
        }
    }
}

} // verus!
