use vstd::prelude::*;
use vstd::string::StringExecFns;

verus! {

/// The command-line arguments of the tunnel, as plain values.
pub struct Args {
    pub host: String,
    pub port: u16,
    pub username: String,
    pub key: String,
    pub local_port: u16,
    pub remote_host: String,
    pub remote_port: u16,
}

/// Everything the tunnel needs: the SSH endpoint and credentials, and the
/// forwarding from `127.0.0.1:local_port` to `remote_host:remote_port`.
pub struct TunnelConfig {
    pub ssh_host: String,
    pub ssh_port: u16,
    pub username: String,
    pub private_key_path: String,
    pub local_port: u16,
    pub remote_host: String,
    pub remote_port: u16,
}

impl From<Args> for TunnelConfig {
    fn from(args: Args) -> TunnelConfig {
        TunnelConfig {
            ssh_host: args.host,
            ssh_port: args.port,
            username: args.username,
            private_key_path: args.key,
            local_port: args.local_port,
            remote_host: args.remote_host,
            remote_port: args.remote_port,
        }
    }
}

impl vstd::std_specs::convert::FromSpecImpl<Args> for TunnelConfig {
    open spec fn obeys_from_spec() -> bool {
        true
    }

    open spec fn from_spec(args: Args) -> TunnelConfig {
        TunnelConfig {
            ssh_host: args.host,
            ssh_port: args.port,
            username: args.username,
            private_key_path: args.key,
            local_port: args.local_port,
            remote_host: args.remote_host,
            remote_port: args.remote_port,
        }
    }
}

/// The first problem found in a configuration, checked in this order: empty
/// SSH host, empty username, empty key path, empty remote host, key file absent.
pub open spec fn config_error(c: TunnelConfig, key_exists: bool) -> Option<Seq<char>> {
    if c.ssh_host@.len() == 0 {
        Some("SSH host cannot be empty"@)
    } else if c.username@.len() == 0 {
        Some("Username cannot be empty"@)
    } else if c.private_key_path@.len() == 0 {
        Some("Private key path cannot be empty"@)
    } else if c.remote_host@.len() == 0 {
        Some("Remote host cannot be empty"@)
    } else if !key_exists {
        Some("Private key file does not exist: "@ + c.private_key_path@)
    } else {
        None
    }
}

/// Relies on `std::path::Path::exists`: whether a file is found at `path`.
/// The answer depends on the file system, so nothing is stated of it.
#[verifier::external_body]
fn key_file_exists(path: &String) -> (r: bool) {
    std::path::Path::new(path).exists()
}

impl TunnelConfig {
    /// Checks the configuration, given whether the key file was found.
    pub fn validate_with(&self, key_exists: bool) -> (r: Result<(), String>)
        ensures
            match config_error(*self, key_exists) {
                None => r is Ok,
                Some(msg) => r is Err && r->Err_0@ == msg,
            },
    {
        if self.ssh_host.as_str().is_empty() {
            return Err(String::from_str("SSH host cannot be empty"));
        }
        if self.username.as_str().is_empty() {
            return Err(String::from_str("Username cannot be empty"));
        }
        if self.private_key_path.as_str().is_empty() {
            return Err(String::from_str("Private key path cannot be empty"));
        }
        if self.remote_host.as_str().is_empty() {
            return Err(String::from_str("Remote host cannot be empty"));
        }
        if !key_exists {
            let msg = String::from_str("Private key file does not exist: ");
            return Err(msg.concat(self.private_key_path.as_str()));
        }
        Ok(())
    }

    /// Checks the configuration, looking the key file up on disk. Whatever the
    /// disk holds, a configuration with an empty required field is refused
    /// with the message of that field, and one that is accepted has all of them.
    pub fn validate(&self) -> (r: Result<(), String>)
        ensures
            exists|found: bool|
                match #[trigger] config_error(*self, found) {
                    None => r is Ok,
                    Some(msg) => r is Err && r->Err_0@ == msg,
                },
    {
        let found = key_file_exists(&self.private_key_path);
        let r = self.validate_with(found);
        assert(match config_error(*self, found) {
            None => r is Ok,
            Some(msg) => r is Err && r->Err_0@ == msg,
        });
        r
    }
}

} // verus!
