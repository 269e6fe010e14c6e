//! The server configuration and the paths derived from it.
use vstd::prelude::*;

use crate::text::push_str;

verus! {

/// The runtime configuration of the server.
#[derive(Debug)]
pub struct Config {
    /// Root directory of all server data.
    pub vault_path: String,
    /// TCP port the server listens on.
    pub port: u16,
    /// Address the server binds to.
    pub host: String,
    /// Whether to serve HTTPS.
    pub enable_tls: bool,
    /// Path of the datagram socket the admin viewer listens on.
    pub socket_path: String,
}

/// The port used when the configuration names none.
pub const DEFAULT_PORT: u16 = 6969;

/// The vault directory used when the configuration names none.
pub fn default_vault_path() -> (r: String)
    ensures
        r@ == "./vault"@,
{
    String::from_str("./vault")
}

/// The bind address used when the configuration names none.
pub fn default_host() -> (r: String)
    ensures
        r@ == "0.0.0.0"@,
{
    String::from_str("0.0.0.0")
}

/// The viewer socket path used when the configuration names none.
pub fn default_socket_path() -> (r: String)
    ensures
        r@ == "/tmp/kosh.sock"@,
{
    String::from_str("/tmp/kosh.sock")
}

/// The configuration file written on first start.
pub fn default_config_text() -> (r: &'static str)
    ensures
        r@ == "// Kosh Server Configuration\n\n// The root directory where all blobs, databases, and keys are stored.\nvault-path \"./vault\"\n\n// Network bindings\nhost \"0.0.0.0\"\nport 6969\n\n// Security\nenable-tls false\n\n// Admin CLI socket\nsocket-path \"/tmp/kosh.sock\"\n"@,
{
    "// Kosh Server Configuration\n\n// The root directory where all blobs, databases, and keys are stored.\nvault-path \"./vault\"\n\n// Network bindings\nhost \"0.0.0.0\"\nport 6969\n\n// Security\nenable-tls false\n\n// Admin CLI socket\nsocket-path \"/tmp/kosh.sock\"\n"
}

/// A path extended by a relative component, as `Path::join` does on Unix: the component alone
/// after an empty path, appended directly after a trailing `/`, and after a `/` otherwise.
pub open spec fn join_spec(base: Seq<char>, comp: Seq<char>) -> Seq<char> {
    if base.len() == 0 {
        comp
    } else if base.last() == '/' {
        base + comp
    } else {
        base + seq!['/'] + comp
    }
}

/// Extends a path by a relative component.
pub fn join_path(base: &str, comp: &str) -> (r: String)
    requires
        comp@.len() > 0,
        comp@[0] != '/',
    ensures
        r@ == join_spec(base@, comp@),
{
    let n = base.unicode_len();
    let mut r = String::from_str(base);
    if n == 0 {
        return String::from_str(comp);
    }
    if base.get_char(n - 1) != '/' {
        r.push('/');
    }
    push_str(&mut r, comp);
    r
}

impl Config {
    /// The directory of the daily log files: `<vault>/state/logs`.
    pub fn log_path(&self) -> (r: String)
        ensures
            r@ == join_spec(join_spec(self.vault_path@, "state"@), "logs"@),
    {
        proof {
            reveal_strlit("state");
            reveal_strlit("logs");
        }
        let state = join_path(self.vault_path.as_str(), "state");
        join_path(state.as_str(), "logs")
    }

    /// The directory of the TLS certificate and key: `<vault>/tls`.
    pub fn tls_identity_path(&self) -> (r: String)
        ensures
            r@ == join_spec(self.vault_path@, "tls"@),
    {
        proof {
            reveal_strlit("tls");
        }
        join_path(self.vault_path.as_str(), "tls")
    }
}

} // verus!
