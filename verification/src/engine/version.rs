//! Version and build metadata.

use vstd::prelude::*;

verus! {

/// The name of the package.
pub const NAME: &'static str = "nexusnet-core";

/// The full version.
pub const VERSION: &'static str = "0.1.0";

/// The major component of the version.
pub const VERSION_MAJOR: &'static str = "0";

/// The minor component of the version.
pub const VERSION_MINOR: &'static str = "1";

/// The patch component of the version.
pub const VERSION_PATCH: &'static str = "0";

/// Returns the name and the version, for display.
pub fn version_string() -> (s: String)
    ensures
        s@ == NAME@ + " "@ + VERSION@,
{
    let mut s = NAME.to_owned();
    s.append(" ");
    s.append(VERSION);
    s
}

/// The version is its three components, separated by dots.
pub proof fn version_is_its_components()
    ensures
        VERSION@ == VERSION_MAJOR@ + "."@ + VERSION_MINOR@ + "."@ + VERSION_PATCH@,
{
    reveal_strlit("0.1.0");
    reveal_strlit("0");
    reveal_strlit("1");
    reveal_strlit(".");
    assert(VERSION@ =~= VERSION_MAJOR@ + "."@ + VERSION_MINOR@ + "."@ + VERSION_PATCH@);
}

} // verus!
