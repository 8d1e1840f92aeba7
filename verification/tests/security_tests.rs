use librarian::security::{validate_path_security, validate_port_security};

#[test]
fn test_validate_path_security_valid_paths() {
    assert!(validate_path_security("/Users/test/workspace").is_ok());
    assert!(validate_path_security("/home/user/documents").is_ok());
    assert!(validate_path_security("/tmp/test").is_ok());
}

#[test]
fn test_validate_path_security_path_traversal() {
    assert!(validate_path_security("/Users/test/../etc/passwd").is_err());
    assert!(validate_path_security("../etc/passwd").is_err());
    assert!(validate_path_security("/home/user/../../etc").is_err());
}

#[test]
fn test_validate_path_security_relative_paths() {
    assert!(validate_path_security("relative/path").is_err());
    assert!(validate_path_security("./current/dir").is_err());
    assert!(validate_path_security("test/file.txt").is_err());
}

#[test]
fn test_validate_path_security_dangerous_paths() {
    assert!(validate_path_security("/etc/passwd").is_err());
    assert!(validate_path_security("/usr/bin/bash").is_err());
    assert!(validate_path_security("/var/log/system.log").is_err());
    assert!(validate_path_security("/bin/sh").is_err());
    assert!(validate_path_security("/sbin/init").is_err());
    assert!(validate_path_security("/boot/vmlinuz").is_err());
    assert!(validate_path_security("/dev/null").is_err());
    assert!(validate_path_security("/proc/version").is_err());
    assert!(validate_path_security("/sys/kernel").is_err());
}

#[test]
fn test_validate_port_security_valid_ports() {
    assert!(validate_port_security(9500).is_ok());
    assert!(validate_port_security(9550).is_ok());
    assert!(validate_port_security(9599).is_ok());
}

#[test]
fn test_validate_port_security_invalid_ports() {
    assert!(validate_port_security(9499).is_err());
    assert!(validate_port_security(9600).is_err());
    assert!(validate_port_security(3000).is_err());
    assert!(validate_port_security(80).is_err());
    assert!(validate_port_security(443).is_err());
    assert!(validate_port_security(22).is_err());
}
