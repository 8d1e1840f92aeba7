//! Validation of paths and ports handed in by clients, before any
//! filesystem or network action is taken on them.

use vstd::prelude::*;
use crate::strutil;

verus! {

/// Whether the path begins with a protected system directory.
pub open spec fn spec_dangerous_path(p: Seq<char>) -> bool {
    ||| strutil::spec_starts_with(p, "/etc"@)
    ||| strutil::spec_starts_with(p, "/usr"@)
    ||| strutil::spec_starts_with(p, "/bin"@)
    ||| strutil::spec_starts_with(p, "/sbin"@)
    ||| strutil::spec_starts_with(p, "/var"@)
    ||| strutil::spec_starts_with(p, "/boot"@)
    ||| strutil::spec_starts_with(p, "/dev"@)
    ||| strutil::spec_starts_with(p, "/proc"@)
    ||| strutil::spec_starts_with(p, "/sys"@)
}

/// Accepts only absolute paths without parent-directory traversal that stay
/// out of system directories; each rejection names its reason.
pub fn validate_path_security(path: &str) -> (r: Result<(), String>)
    ensures
        strutil::spec_contains(path@, ".."@) ==> (r matches Err(m) && m@
            == "Path traversal detected"@),
        !strutil::spec_contains(path@, ".."@) && !strutil::spec_starts_with(path@, "/"@) ==> (
        r matches Err(m) && m@ == "Only absolute paths are allowed"@),
        !strutil::spec_contains(path@, ".."@) && strutil::spec_starts_with(path@, "/"@)
            && spec_dangerous_path(path@) ==> (r matches Err(m) && m@
            == "Access to system directories is not allowed"@),
        !strutil::spec_contains(path@, ".."@) && strutil::spec_starts_with(path@, "/"@)
            && !spec_dangerous_path(path@) ==> r is Ok,
{
    if strutil::contains_str(path, "..") {
        return Err("Path traversal detected".to_owned());
    }
    if !strutil::starts_with_str(path, "/") {
        return Err("Only absolute paths are allowed".to_owned());
    }
    let dangerous = strutil::starts_with_str(path, "/etc") || strutil::starts_with_str(
        path,
        "/usr",
    ) || strutil::starts_with_str(path, "/bin") || strutil::starts_with_str(path, "/sbin")
        || strutil::starts_with_str(path, "/var") || strutil::starts_with_str(path, "/boot")
        || strutil::starts_with_str(path, "/dev") || strutil::starts_with_str(path, "/proc")
        || strutil::starts_with_str(path, "/sys");
    if dangerous {
        return Err("Access to system directories is not allowed".to_owned());
    }
    Ok(())
}

/// Accepts only ports of the reserved server range.
pub fn validate_port_security(port: u16) -> (r: Result<(), String>)
    ensures
        crate::registry::MCP_PORT_MIN <= port <= crate::registry::MCP_PORT_MAX <==> r is Ok,
        r matches Err(m) ==> m@ == "Port must be in range 9500-9599"@,
{
    if port < crate::registry::MCP_PORT_MIN || port > crate::registry::MCP_PORT_MAX {
        return Err("Port must be in range 9500-9599".to_owned());
    }
    Ok(())
}

} // verus!
