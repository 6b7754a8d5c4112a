//! Checks on interface names and link parameters made before any kernel
//! request is issued.
use vstd::prelude::*;

use crate::error::IfconfigError;
use crate::interface::LinkOptions;
use crate::text::{append_str, chars_of, is_control, is_control_exec, is_ws, is_ws_exec};

verus! {

/// Interface configuration through the kernel's interface requests.
#[derive(Debug, Clone, Copy)]
pub struct Ifconfig;

/// A usable interface name: not empty, and without whitespace or control
/// characters.
pub open spec fn valid_name(name: Seq<char>) -> bool {
    &&& name.len() > 0
    &&& forall|i: int| 0 <= i < name.len() ==> !is_ws(#[trigger] name[i]) && !is_control(name[i])
}

/// The message of a rejected name of the given kind.
pub open spec fn invalid_name_text(kind: Seq<char>) -> Seq<char> {
    "invalid "@ + kind + " name"@
}

/// Whether some name of the list is not usable.
pub open spec fn some_invalid(names: Seq<String>) -> bool {
    exists|i: int| 0 <= i < names.len() && !valid_name(#[trigger] names[i]@)
}

/// The message with which a link request is refused, if it is.
pub open spec fn link_error(name: Seq<char>, options: LinkOptions) -> Option<Seq<char>> {
    if !valid_name(name) {
        Some(invalid_name_text("interface"@))
    } else {
        match options {
            LinkOptions::Wlan { parent, .. } => if !valid_name(parent@) {
                Some(invalid_name_text("wireless parent"@))
            } else {
                None
            },
            LinkOptions::Bridge { members } => if some_invalid(members@) {
                Some(invalid_name_text("bridge member"@))
            } else {
                None
            },
            LinkOptions::Lagg { members, .. } => if some_invalid(members@) {
                Some(invalid_name_text("lagg member"@))
            } else {
                None
            },
            LinkOptions::Vlan { parent, tag } => if !valid_name(parent@) {
                Some(invalid_name_text("VLAN parent"@))
            } else if !(1 <= tag <= 4094) {
                Some("VLAN tag must be between 1 and 4094"@)
            } else {
                None
            },
        }
    }
}

/// Whether a result is the runtime error with the given message.
pub open spec fn is_runtime_error(r: Result<(), IfconfigError>, message: Seq<char>) -> bool {
    match r {
        Err(IfconfigError::RuntimeError(m)) => m@ == message,
        _ => false,
    }
}

impl Ifconfig {
    /// A handle for interface configuration.
    pub fn new() -> (r: Ifconfig) {
        Ifconfig
    }

    /// Checks an interface name; `kind` names it in the error message.
    pub fn validate_name(name: &str, kind: &str) -> (r: Result<(), IfconfigError>)
        ensures
            r is Ok <==> valid_name(name@),
            !valid_name(name@) ==> is_runtime_error(r, invalid_name_text(kind@)),
    {
        let cs = chars_of(name);
        let mut ok = cs.len() > 0;
        let mut i: usize = 0;
        while i < cs.len()
            invariant
                0 <= i <= cs@.len(),
                cs@ == name@,
                ok == (cs@.len() > 0 && forall|j: int|
                    0 <= j < i ==> !is_ws(#[trigger] cs@[j]) && !is_control(cs@[j])),
            decreases cs@.len() - i,
        {
            if is_ws_exec(cs[i]) || is_control_exec(cs[i]) {
                ok = false;
            }
            i = i + 1;
        }
        if ok {
            Ok(())
        } else {
            let mut m = String::new();
            append_str(&mut m, "invalid ");
            append_str(&mut m, kind);
            append_str(&mut m, " name");
            proof {
                reveal_strlit("");
            }
            assert(m@ =~= invalid_name_text(kind@));
            Err(IfconfigError::RuntimeError(m))
        }
    }

    /// Checks every name of a list; the first unusable one is reported.
    fn validate_names(names: &Vec<String>, kind: &str) -> (r: Result<(), IfconfigError>)
        ensures
            r is Ok <==> !some_invalid(names@),
            some_invalid(names@) ==> is_runtime_error(r, invalid_name_text(kind@)),
    {
        let mut i: usize = 0;
        while i < names.len()
            invariant
                0 <= i <= names@.len(),
                forall|j: int| 0 <= j < i ==> valid_name(#[trigger] names@[j]@),
            decreases names@.len() - i,
        {
            let r = Ifconfig::validate_name(names[i].as_str(), kind);
            if r.is_err() {
                return r;
            }
            i = i + 1;
        }
        Ok(())
    }

    /// Checks a link request before any kernel request is made: the
    /// interface name, the parent or member names, and the VLAN tag.
    pub fn validate_link(name: &str, options: &LinkOptions) -> (r: Result<(), IfconfigError>)
        ensures
            r is Ok <==> link_error(name@, *options) is None,
            link_error(name@, *options) matches Some(m) ==> is_runtime_error(r, m),
    {
        let r = Ifconfig::validate_name(name, "interface");
        if r.is_err() {
            return r;
        }
        match options {
            LinkOptions::Wlan { parent, .. } => Ifconfig::validate_name(
                parent.as_str(),
                "wireless parent",
            ),
            LinkOptions::Bridge { members } => Ifconfig::validate_names(members, "bridge member"),
            LinkOptions::Lagg { members, .. } => Ifconfig::validate_names(members, "lagg member"),
            LinkOptions::Vlan { parent, tag } => {
                let r = Ifconfig::validate_name(parent.as_str(), "VLAN parent");
                if r.is_err() {
                    return r;
                }
                if !(1 <= *tag && *tag <= 4094) {
                    return Err(
                        IfconfigError::RuntimeError("VLAN tag must be between 1 and 4094".to_owned()),
                    );
                }
                Ok(())
            },
        }
    }
}

} // verus!
