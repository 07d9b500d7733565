//! The server's settings: where it listens and where its pages lie.
//!
//! Settings come from the environment, each with a default. Reading the
//! environment is left to the host; this module names the variables and decides
//! what their values, or their absence, amount to.

use vstd::prelude::*;
use vstd::string::*;

verus! {

/// The variable that names the directory in which the pages' directory lies.
pub const ROOT_VARIABLE: &'static str = "CARGO_MANIFEST_DIR";

/// The variable that names the address to listen on.
pub const ADDRESS_VARIABLE: &'static str = "ADDRESS";

/// The variable that names the port to listen on.
pub const PORT_VARIABLE: &'static str = "PORT";

/// The directory taken where `ROOT_VARIABLE` is not set.
pub open spec fn default_root() -> Seq<char> {
    "."@
}

/// The address taken where `ADDRESS_VARIABLE` is not set.
pub open spec fn default_address() -> Seq<char> {
    "127.0.0.1"@
}

/// The port taken where `PORT_VARIABLE` is not set.
pub open spec fn default_port() -> Seq<char> {
    "8080"@
}

/// The name of the directory that holds the pages.
pub open spec fn pages_directory() -> Seq<char> {
    "res"@
}

/// The settings of a server.
pub struct Config {
    /// The address to listen on.
    pub address: String,
    /// The port to listen on.
    pub port: String,
    /// The directory that holds the pages, as the components of its path.
    pub path_to_resources: Vec<String>,
}

/// The value of a setting: what the environment holds for it, or `default`.
pub fn get_env_var(value: Option<String>, default: &str) -> (r: String)
    ensures
        r@ == match value {
            Some(text) => text@,
            None => default@,
        },
{
    match value {
        Some(text) => text,
        None => default.to_owned(),
    }
}

/// The settings, given what the environment holds for `ROOT_VARIABLE`,
/// `ADDRESS_VARIABLE` and `PORT_VARIABLE`, each `None` where the variable is not set.
pub fn get_config(root: Option<String>, address: Option<String>, port: Option<String>) -> (config:
    Config)
    ensures
        config.address@ == match address {
            Some(text) => text@,
            None => default_address(),
        },
        config.port@ == match port {
            Some(text) => text@,
            None => default_port(),
        },
        config.path_to_resources.deep_view() == seq![
            match root {
                Some(text) => text@,
                None => default_root(),
            },
            pages_directory(),
        ],
{
    let mut path_to_resources: Vec<String> = Vec::new();
    path_to_resources.push(get_env_var(root, "."));
    path_to_resources.push("res".to_owned());
    Config {
        address: get_env_var(address, "127.0.0.1"),
        port: get_env_var(port, "8080"),
        path_to_resources,
    }
}

impl Config {
    /// The address and the port, joined by a colon, as a listener takes them.
    pub fn listen_address(&self) -> (r: String)
        ensures
            r@ == self.address@ + ":"@ + self.port@,
    {
        let mut r = self.address.clone();
        r.append(":");
        r.append(self.port.as_str());
        r
    }

    /// The path of the page `file`, as its components: those of the pages'
    /// directory, then `file`.
    pub fn resource_path(&self, file: &str) -> (path: Vec<String>)
        ensures
            path.deep_view() == self.path_to_resources.deep_view().push(file@),
    {
        let mut path: Vec<String> = Vec::new();
        let mut i: usize = 0;
        while i < self.path_to_resources.len()
            invariant
                i <= self.path_to_resources.len(),
                path.len() == i,
                forall|k: int| 0 <= k < i ==> path@[k]@ == self.path_to_resources@[k]@,
            decreases self.path_to_resources.len() - i,
        {
            path.push(self.path_to_resources[i].clone());
            i = i + 1;
        }
        path.push(file.to_owned());
        path
    }
}

} // verus!
