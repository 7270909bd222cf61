use tunapp::config::{Args, TunnelConfig};

fn sample() -> TunnelConfig {
    TunnelConfig {
        ssh_host: "example.org".to_string(),
        ssh_port: 22,
        username: "alice".to_string(),
        private_key_path: "/nonexistent/dir/id_ed25519".to_string(),
        local_port: 8080,
        remote_host: "10.0.0.5".to_string(),
        remote_port: 80,
    }
}

#[test]
fn args_convert_field_by_field() {
    let args = Args {
        host: "h".to_string(),
        port: 2222,
        username: "u".to_string(),
        key: "k".to_string(),
        local_port: 443,
        remote_host: "r".to_string(),
        remote_port: 8443,
    };
    let c = TunnelConfig::from(args);
    assert_eq!(c.ssh_host, "h");
    assert_eq!(c.ssh_port, 2222);
    assert_eq!(c.username, "u");
    assert_eq!(c.private_key_path, "k");
    assert_eq!(c.local_port, 443);
    assert_eq!(c.remote_host, "r");
    assert_eq!(c.remote_port, 8443);
}

#[test]
fn empty_host_is_refused_first() {
    let mut c = sample();
    c.ssh_host = String::new();
    c.username = String::new();
    assert_eq!(c.validate_with(true), Err("SSH host cannot be empty".to_string()));
    assert_eq!(c.validate(), Err("SSH host cannot be empty".to_string()));
}

#[test]
fn empty_username_is_refused() {
    let mut c = sample();
    c.username = String::new();
    assert_eq!(c.validate_with(true), Err("Username cannot be empty".to_string()));
}

#[test]
fn empty_key_path_is_refused() {
    let mut c = sample();
    c.private_key_path = String::new();
    assert_eq!(c.validate_with(true), Err("Private key path cannot be empty".to_string()));
}

#[test]
fn empty_remote_host_is_refused() {
    let mut c = sample();
    c.remote_host = String::new();
    assert_eq!(c.validate_with(true), Err("Remote host cannot be empty".to_string()));
}

#[test]
fn missing_key_file_is_refused() {
    let c = sample();
    let expected = "Private key file does not exist: /nonexistent/dir/id_ed25519".to_string();
    assert_eq!(c.validate_with(false), Err(expected.clone()));
    assert_eq!(c.validate(), Err(expected));
}

#[test]
fn complete_config_with_key_is_accepted() {
    let c = sample();
    assert_eq!(c.validate_with(true), Ok(()));
}

#[test]
fn existing_key_file_is_found_on_disk() {
    // the root directory exists on every machine the tests run on
    let mut c = sample();
    c.private_key_path = "/".to_string();
    assert_eq!(c.validate(), Ok(()));
}
