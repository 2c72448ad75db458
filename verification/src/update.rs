//! Self-update of the portable tool: where the new build is fetched from
//! and the batch script that swaps the executables.
use vstd::prelude::*;
use crate::text::push_str;

verus! {

/// Name under which the new build is saved next to the running one.
pub const NEW_EXE_NAME: &'static str = "TechnoAfandi-FC_new.exe";

/// Name of the batch script that swaps the executables.
pub const UPDATE_SCRIPT_NAME: &'static str = "update_ta.bat";

/// Release download URL of a version of the tool.
pub open spec fn spec_update_url(version: Seq<char>) -> Seq<char> {
    "https://github.com/mabdelmoneam03/TecchnoAfandi-FC/releases/download/v"@ + version
        + "/TechnoAfandi-FC.exe"@
}

/// Release download URL of a version of the tool.
pub fn update_url(version: &str) -> (r: String)
    ensures
        r@ == spec_update_url(version@),
{
    let mut r = String::new();
    push_str(&mut r, "https://github.com/mabdelmoneam03/TecchnoAfandi-FC/releases/download/v");
    push_str(&mut r, version);
    push_str(&mut r, "/TechnoAfandi-FC.exe");
    proof { assert(r@ =~= spec_update_url(version@)); }
    r
}

/// Message of a download answered with an error status.
pub fn update_http_error(status: &str) -> (r: String)
    ensures
        r@ == "Download failed: HTTP "@ + status@,
{
    let mut r = String::new();
    push_str(&mut r, "Download failed: HTTP ");
    push_str(&mut r, status);
    r
}

/// The batch script: wait about three seconds (ping, since `timeout` fails
/// without a console), delete the running executable, rename the new one
/// into its place, start it, and delete the script itself.
pub open spec fn spec_update_script(current: Seq<char>, new: Seq<char>) -> Seq<char> {
    "@echo off\r\nping 127.0.0.1 -n 4 > NUL\r\ndel \""@ + current + "\"\r\nren \""@ + new + "\" \""@
        + current + "\"\r\nstart \"\" \""@ + current + "\"\r\ndel \"%~f0\"\r\n"@
}

/// The batch script that replaces `current` by `new` and restarts it.
pub fn update_script(current: &str, new: &str) -> (r: String)
    ensures
        r@ == spec_update_script(current@, new@),
{
    let mut r = String::new();
    push_str(&mut r, "@echo off\r\nping 127.0.0.1 -n 4 > NUL\r\ndel \"");
    push_str(&mut r, current);
    push_str(&mut r, "\"\r\nren \"");
    push_str(&mut r, new);
    push_str(&mut r, "\" \"");
    push_str(&mut r, current);
    push_str(&mut r, "\"\r\nstart \"\" \"");
    push_str(&mut r, current);
    push_str(&mut r, "\"\r\ndel \"%~f0\"\r\n");
    proof { assert(r@ =~= spec_update_script(current@, new@)); }
    r
}

} // verus!
