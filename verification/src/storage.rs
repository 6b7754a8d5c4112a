//! Saved Wi-Fi credentials: how they are keyed, and where their files are.
use vstd::prelude::*;

use crate::config::opt_str_view;
use crate::status::opt_view;
use crate::text::{append_str, chars_of, push_char};

verus! {

/// One saved credential (plaintext only in memory).
#[derive(Debug, Clone)]
pub struct Credential {
    pub ssid: String,
    /// `None` = applies to any BSSID, `Some` = locked to one BSSID.
    pub bssid: Option<String>,
    /// Security variant name: "Open" | "Psk" | "Eap" | "Unknown".
    pub security: String,
    pub psk: Option<String>,
    pub identity: Option<String>,
    /// MAC address of the WLAN interface that owns this credential; `None`
    /// for credentials saved before profiles were kept per interface.
    pub interface_mac: Option<String>,
}

/// The plain contents of a `Credential`.
pub struct CredentialView {
    pub ssid: Seq<char>,
    pub bssid: Option<Seq<char>>,
    pub security: Seq<char>,
    pub psk: Option<Seq<char>>,
    pub identity: Option<Seq<char>>,
    pub interface_mac: Option<Seq<char>>,
}

impl View for Credential {
    type V = CredentialView;

    open spec fn view(&self) -> CredentialView {
        CredentialView {
            ssid: self.ssid@,
            bssid: opt_view(self.bssid),
            security: self.security@,
            psk: opt_view(self.psk),
            identity: opt_view(self.identity),
            interface_mac: opt_view(self.interface_mac),
        }
    }
}

/// The views of a list of credentials.
pub open spec fn credentials_view(v: Seq<Credential>) -> Seq<CredentialView> {
    v.map_values(|c: Credential| c@)
}

/// The key under which a credential is stored: the SSID, and the BSSID or
/// the empty string for a credential that applies to any BSSID.
pub open spec fn cred_key_of(ssid: Seq<char>, bssid: Option<Seq<char>>) -> (Seq<char>, Seq<char>) {
    (
        ssid,
        match bssid {
            Some(b) => b,
            None => Seq::empty(),
        },
    )
}

/// The storage key of a credential.
pub fn cred_key(ssid: &str, bssid: Option<&str>) -> (r: (String, String))
    ensures
        (r.0@, r.1@) == cred_key_of(ssid@, opt_str_view(bssid)),
{
    let b = match bssid {
        Some(b) => b.to_owned(),
        None => String::new(),
    };
    (ssid.to_owned(), b)
}

/// The path of `name` inside the directory `dir`, as `Path::join` forms it
/// on Unix: an absolute name replaces the directory; otherwise the name
/// follows the directory, after a `/` unless the directory is empty or
/// already ends with one.
pub open spec fn path_join(dir: Seq<char>, name: Seq<char>) -> Seq<char> {
    if name.len() > 0 && name[0] == '/' {
        name
    } else if dir.len() == 0 || dir.last() == '/' {
        dir + name
    } else {
        dir + seq!['/'] + name
    }
}

/// Joins a file name to a directory path, by the rule of `Path::join` on
/// Unix.
fn join_path(dir: &str, name: &str) -> (r: String)
    ensures
        r@ == path_join(dir@, name@),
{
    let n = chars_of(name);
    if n.len() > 0 && n[0] == '/' {
        return name.to_owned();
    }
    let d = chars_of(dir);
    let mut s = dir.to_owned();
    if !(d.len() == 0 || d[d.len() - 1] == '/') {
        push_char(&mut s, '/');
    }
    append_str(&mut s, name);
    s
}

/// The directories the daemon keeps its files in.
#[derive(Debug, Clone)]
pub struct StoragePaths {
    /// Runtime dir for sockets/pid, e.g. /var/run/network-daemon.
    pub runtime_dir: String,
    /// Config dir for config.toml + secret.key + credentials.db, e.g.
    /// /var/db/network-daemon.
    pub config_dir: String,
}

impl StoragePaths {
    /// The secret key file, in the config dir.
    pub fn secret_key_path(&self) -> (r: String)
        ensures
            r@ == path_join(self.config_dir@, "secret.key"@),
    {
        proof {
            reveal_strlit("secret.key");
        }
        join_path(self.config_dir.as_str(), "secret.key")
    }

    /// The credentials database, in the config dir.
    pub fn db_path(&self) -> (r: String)
        ensures
            r@ == path_join(self.config_dir@, "credentials.db"@),
    {
        proof {
            reveal_strlit("credentials.db");
        }
        join_path(self.config_dir.as_str(), "credentials.db")
    }
}

/// Commands handled by the storage manager.
#[derive(Debug, Clone)]
pub enum StorageCommand {
    /// Persist (upsert) a credential.
    SaveCredential(Credential),
    /// Delete a credential.
    RemoveCredential { ssid: String, bssid: Option<String> },
}

/// Responses to storage commands.
#[derive(Debug, Clone)]
pub enum StorageResult {
    /// The command was carried out.
    Done,
    /// All loaded credentials, consumed at startup to seed wifi managers.
    Credentials(Vec<Credential>),
}

} // verus!
