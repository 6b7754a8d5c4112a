//! WiFi security types.
use vstd::prelude::*;

use crate::text::{chars_eq_str, chars_of, contains, contains_str, trim, trim_exec};

verus! {

/// Security type of a network.
#[derive(Debug, Clone, Copy, PartialEq, Eq, Hash, Structural)]
pub enum Security {
    /// Open network (no authentication)
    Open,
    /// WPA/WPA2 Enterprise (EAP)
    Eap,
    /// WPA/WPA2 Personal (PSK)
    Psk,
    /// Unknown security type
    Unknown,
}

/// What `Security::from_flags` answers for a flags string.
pub open spec fn security_from_flags(flags: Seq<char>) -> Security {
    if contains(flags, "PSK"@) {
        Security::Psk
    } else if contains(flags, "EAP"@) || contains(flags, "IEEE8021X"@) {
        Security::Eap
    } else if contains(flags, "WEP"@) {
        Security::Psk
    } else {
        Security::Open
    }
}

/// What `Security::from_key_mgmt` answers for a `key_mgmt` value.
pub open spec fn security_from_key_mgmt(key_mgmt: Seq<char>) -> Security {
    let k = trim(key_mgmt);
    if k == "NONE"@ {
        Security::Open
    } else if k == "WPA-EAP"@ || k == "IEEE8021X"@ || k == "WPA-EAP-SHA256"@ || k
        == "WPA-EAP-SUITE-B-192"@ {
        Security::Eap
    } else if contains(k, "PSK"@) {
        Security::Psk
    } else {
        Security::Unknown
    }
}

/// The display name of a security type.
pub open spec fn security_name(s: Security) -> Seq<char> {
    match s {
        Security::Open => "Open"@,
        Security::Eap => "EAP"@,
        Security::Psk => "PSK"@,
        Security::Unknown => "N/A"@,
    }
}

/// The security type a stored name stands for: the display names (`Open`,
/// `EAP`, `PSK`) and the variant names (`Eap`, `Psk`); anything else is
/// `Unknown`.
pub open spec fn security_from_name(name: Seq<char>) -> Security {
    if name == "Open"@ {
        Security::Open
    } else if name == "EAP"@ || name == "Eap"@ {
        Security::Eap
    } else if name == "PSK"@ || name == "Psk"@ {
        Security::Psk
    } else {
        Security::Unknown
    }
}

/// The description of a security type.
pub open spec fn security_description(s: Security) -> Seq<char> {
    match s {
        Security::Open => "No password required"@,
        Security::Eap => "Enterprise authentication (username/password)"@,
        Security::Psk => "Password required (WPA/WPA2)"@,
        Security::Unknown => "Unknown security"@,
    }
}

impl Security {
    /// Determines the security type from wpa_supplicant scan flags such as
    /// `[WPA2-PSK-CCMP][ESS]`.
    pub fn from_flags(flags: &str) -> (r: Security)
        ensures
            r == security_from_flags(flags@),
    {
        let f = chars_of(flags);
        if contains_str(&f, "PSK") {
            Security::Psk
        } else if contains_str(&f, "EAP") || contains_str(&f, "IEEE8021X") {
            Security::Eap
        } else if contains_str(&f, "WEP") {
            Security::Psk
        } else {
            Security::Open
        }
    }

    /// Determines the security type from a `key_mgmt` value such as
    /// `WPA2-PSK` or `WPA-EAP`.
    pub fn from_key_mgmt(key_mgmt: &str) -> (r: Security)
        ensures
            r == security_from_key_mgmt(key_mgmt@),
    {
        let k = trim_exec(&chars_of(key_mgmt));
        if chars_eq_str(&k, "NONE") {
            Security::Open
        } else if chars_eq_str(&k, "WPA-EAP") || chars_eq_str(&k, "IEEE8021X") || chars_eq_str(
            &k,
            "WPA-EAP-SHA256",
        ) || chars_eq_str(&k, "WPA-EAP-SUITE-B-192") {
            Security::Eap
        } else if contains_str(&k, "PSK") {
            Security::Psk
        } else {
            Security::Unknown
        }
    }

    /// The security type a stored name stands for.
    pub fn from_name(name: &str) -> (r: Security)
        ensures
            r == security_from_name(name@),
    {
        let n = chars_of(name);
        if chars_eq_str(&n, "Open") {
            Security::Open
        } else if chars_eq_str(&n, "EAP") || chars_eq_str(&n, "Eap") {
            Security::Eap
        } else if chars_eq_str(&n, "PSK") || chars_eq_str(&n, "Psk") {
            Security::Psk
        } else {
            Security::Unknown
        }
    }

    /// Whether connecting needs a password.
    pub fn requires_password(&self) -> (r: bool)
        ensures
            r == (*self == Security::Psk),
    {
        matches!(self, Security::Psk)
    }

    /// Whether connecting needs an identity.
    pub fn requires_identity(&self) -> (r: bool)
        ensures
            r == (*self == Security::Eap),
    {
        matches!(self, Security::Eap)
    }

    /// A human-readable description.
    pub fn description(&self) -> (r: &'static str)
        ensures
            r@ == security_description(*self),
    {
        match self {
            Security::Open => "No password required",
            Security::Eap => "Enterprise authentication (username/password)",
            Security::Psk => "Password required (WPA/WPA2)",
            Security::Unknown => "Unknown security",
        }
    }

    /// The display name (`Open`, `EAP`, `PSK`, `N/A`).
    pub fn to_string(&self) -> (r: String)
        ensures
            r@ == security_name(*self),
    {
        let s = match self {
            Security::Open => "Open",
            Security::Eap => "EAP",
            Security::Psk => "PSK",
            Security::Unknown => "N/A",
        };
        s.to_owned()
    }
}

} // verus!
