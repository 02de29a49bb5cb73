use vstd::prelude::*;
use vstd::string::StringExecFns;

verus! {

/// The error line reported when an external command cannot be started: the
/// command name in single quotes, then the system error text. The driver
/// writes this to the real standard error stream.
pub fn external_error_message(cmd: &str, detail: &str) -> (r: String)
    ensures
        r@ == "error running '"@ + cmd@ + "': "@ + detail@,
{
    let mut s: String = "error running '".to_owned();
    s.append(cmd);
    s.append("': ");
    s.append(detail);
    s
}

} // verus!
