//! The version that the bridge reports.

use vstd::prelude::*;

verus! {

/// The version reported where none was set when the bridge was built.
pub const DEFAULT_VERSION: &'static str = "0.0.0";

/// The version among those set at build time that counts: the one of the
/// command line tool, else the one of the engine, else the default.
pub open spec fn version_text(cli: Option<&str>, rs: Option<&str>) -> Seq<char> {
    match cli {
        Some(v) => v@,
        None => match rs {
            Some(v) => v@,
            None => DEFAULT_VERSION@,
        },
    }
}

/// The version that counts among those set at build time.
pub fn resolved_version<'a>(cli: Option<&'a str>, rs: Option<&'a str>) -> (resolved: &'a str)
    ensures
        resolved@ == version_text(cli, rs),
{
    match cli {
        Some(v) => v,
        None => match rs {
            Some(v) => v,
            None => DEFAULT_VERSION,
        },
    }
}

/// The version of the bridge.
pub fn version(cli: Option<&str>, rs: Option<&str>) -> (text: String)
    ensures
        text@ == version_text(cli, rs),
{
    resolved_version(cli, rs).to_owned()
}

/// The version of the command line tool that the bridge stands for.
pub fn cli_version(cli: Option<&str>, rs: Option<&str>) -> (text: String)
    ensures
        text@ == version_text(cli, rs),
{
    resolved_version(cli, rs).to_owned()
}

} // verus!
