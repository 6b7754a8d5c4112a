//! The connection editor of the terminal client: which fields a profile
//! shows, how focus moves between them, and what the form accepts.
use vstd::prelude::*;

use crate::mac::{mac_parse, mac_text, MacAddr};
use crate::network::{KnownNetwork, KnownNetworkState, ScanResult};
use crate::security::Security;
use vstd::utf8::encode_utf8;

use crate::ssid::utf8_len_within;
use crate::text::{copy_string, push_char, str_eq, string_of, trim, trim_str};

verus! {

/// Top-level activity screen.
#[derive(Debug, Clone, Copy, PartialEq, Eq, Structural)]
pub enum Screen {
    MainMenu,
    EditConnections,
    ActivateConnections,
    Hostname,
}

impl Default for Screen {
    fn default() -> (r: Self)
        ensures
            r == Screen::MainMenu,
    {
        Screen::MainMenu
    }
}

/// How an address family is configured.
#[derive(Debug, Clone, Copy, PartialEq, Eq, Structural)]
pub enum IpMode {
    Automatic,
    Manual,
    Ignore,
}

/// The display label of an address mode.
pub open spec fn ip_mode_label(m: IpMode) -> Seq<char> {
    match m {
        IpMode::Automatic => "Automatic"@,
        IpMode::Manual => "Manual"@,
        IpMode::Ignore => "Ignore"@,
    }
}

impl IpMode {
    /// The display label.
    pub fn label(self) -> (r: &'static str)
        ensures
            r@ == ip_mode_label(self),
    {
        match self {
            IpMode::Automatic => "Automatic",
            IpMode::Manual => "Manual",
            IpMode::Ignore => "Ignore",
        }
    }
}

/// The kind of profile being edited.
#[derive(Debug, Clone, Copy, PartialEq, Eq, Structural)]
pub enum EditorMode {
    Ethernet,
    Wifi,
}

/// A field of the editor form.
#[derive(Debug, Clone, Copy, PartialEq, Eq, Structural)]
pub enum EditorField {
    ProfileName,
    Device,
    Ssid,
    Bssid,
    Security,
    Identity,
    Password,
    Hidden,
    Ipv4Mode,
    Ipv4Address,
    Ipv4Gateway,
    Ipv4Dns,
    Ipv4Search,
    Ipv4Routing,
    Ipv4NeverDefault,
    Ipv4IgnoreRoutes,
    Ipv4IgnoreDns,
    Ipv4Required,
    Ipv6Mode,
    Slaac,
    Ipv6Address,
    Ipv6Gateway,
    Ipv6Dns,
    Ipv6Search,
    Ipv6Routing,
    Ipv6NeverDefault,
    Ipv6IgnoreRoutes,
    Ipv6IgnoreDns,
    Ipv6Required,
    Autoconnect,
    AvailableUsers,
}

/// Fields that open the routes popup.
pub open spec fn is_routing_field(f: EditorField) -> bool {
    f == EditorField::Ipv4Routing || f == EditorField::Ipv6Routing
}

/// Fields edited as text.
pub open spec fn is_text_field(f: EditorField) -> bool {
    f == EditorField::ProfileName
        || f == EditorField::Device
        || f == EditorField::Ssid
        || f == EditorField::Bssid
        || f == EditorField::Identity
        || f == EditorField::Password
        || f == EditorField::Ipv4Address
        || f == EditorField::Ipv4Gateway
        || f == EditorField::Ipv4Dns
        || f == EditorField::Ipv4Search
        || f == EditorField::Ipv6Address
        || f == EditorField::Ipv6Gateway
        || f == EditorField::Ipv6Dns
        || f == EditorField::Ipv6Search
}

/// Fields edited as a checkbox.
pub open spec fn is_bool_field(f: EditorField) -> bool {
    f == EditorField::Hidden
        || f == EditorField::Slaac
        || f == EditorField::Ipv4NeverDefault
        || f == EditorField::Ipv4IgnoreRoutes
        || f == EditorField::Ipv4IgnoreDns
        || f == EditorField::Ipv4Required
        || f == EditorField::Ipv6NeverDefault
        || f == EditorField::Ipv6IgnoreRoutes
        || f == EditorField::Ipv6IgnoreDns
        || f == EditorField::Ipv6Required
        || f == EditorField::Autoconnect
        || f == EditorField::AvailableUsers
}

impl EditorField {
    /// Whether the field opens the routes popup.
    pub fn is_routing(self) -> (r: bool)
        ensures
            r == is_routing_field(self),
    {
        matches!(self, EditorField::Ipv4Routing | EditorField::Ipv6Routing)
    }

    /// Whether the field is edited as text.
    pub fn is_text(self) -> (r: bool)
        ensures
            r == is_text_field(self),
    {
        matches!(
            self,
            EditorField::ProfileName
                | EditorField::Device
                | EditorField::Ssid
                | EditorField::Bssid
                | EditorField::Identity
                | EditorField::Password
                | EditorField::Ipv4Address
                | EditorField::Ipv4Gateway
                | EditorField::Ipv4Dns
                | EditorField::Ipv4Search
                | EditorField::Ipv6Address
                | EditorField::Ipv6Gateway
                | EditorField::Ipv6Dns
                | EditorField::Ipv6Search
        )
    }

    /// Whether the field is edited as a checkbox.
    pub fn is_bool(self) -> (r: bool)
        ensures
            r == is_bool_field(self),
    {
        matches!(
            self,
            EditorField::Hidden
                | EditorField::Slaac
                | EditorField::Ipv4NeverDefault
                | EditorField::Ipv4IgnoreRoutes
                | EditorField::Ipv4IgnoreDns
                | EditorField::Ipv4Required
                | EditorField::Ipv6NeverDefault
                | EditorField::Ipv6IgnoreRoutes
                | EditorField::Ipv6IgnoreDns
                | EditorField::Ipv6Required
                | EditorField::Autoconnect
                | EditorField::AvailableUsers
        )
    }
}

/// The label shown in front of a field.
pub open spec fn field_label_text(f: EditorField) -> Seq<char> {
    match f {
        EditorField::ProfileName => "Profile name"@,
        EditorField::Device => "Device"@,
        EditorField::Ssid => "SSID"@,
        EditorField::Bssid => "BSSID"@,
        EditorField::Security => "Security"@,
        EditorField::Identity => "Identity"@,
        EditorField::Password => "Password"@,
        EditorField::Hidden => "Hidden network"@,
        EditorField::Ipv4Mode => "IPv4 CONFIGURATION"@,
        EditorField::Ipv4Address => "Addresses"@,
        EditorField::Ipv4Gateway => "Gateway"@,
        EditorField::Ipv4Dns => "DNS servers"@,
        EditorField::Ipv4Search => "Search domains"@,
        EditorField::Ipv4Routing => "Routing"@,
        EditorField::Ipv4NeverDefault => "Never use this network for default route"@,
        EditorField::Ipv4IgnoreRoutes => "Ignore automatically obtained routes"@,
        EditorField::Ipv4IgnoreDns => "Ignore automatically obtained DNS parameters"@,
        EditorField::Ipv4Required => "Require IPv4 addressing for this connection"@,
        EditorField::Ipv6Mode => "IPv6 CONFIGURATION"@,
        EditorField::Slaac => "Accept IPv6 router advertisements (SLAAC)"@,
        EditorField::Ipv6Address => "Addresses"@,
        EditorField::Ipv6Gateway => "Gateway"@,
        EditorField::Ipv6Dns => "DNS servers"@,
        EditorField::Ipv6Search => "Search domains"@,
        EditorField::Ipv6Routing => "Routing"@,
        EditorField::Ipv6NeverDefault => "Never use this network for default route"@,
        EditorField::Ipv6IgnoreRoutes => "Ignore automatically obtained routes"@,
        EditorField::Ipv6IgnoreDns => "Ignore automatically obtained DNS parameters"@,
        EditorField::Ipv6Required => "Require IPv6 addressing for this connection"@,
        EditorField::Autoconnect => "Automatically connect"@,
        EditorField::AvailableUsers => "Available to all users"@,
    }
}

/// The fields of the form, in order: the Wi-Fi fields only for a Wi-Fi
/// profile, the identity only for EAP and the password for any secured
/// network.
pub open spec fn editor_fields(mode: EditorMode, security: Security) -> Seq<EditorField> {
    seq![EditorField::ProfileName, EditorField::Device] + (if mode == EditorMode::Wifi {
        seq![EditorField::Ssid, EditorField::Bssid, EditorField::Security] + (if security
            == Security::Eap {
            seq![EditorField::Identity]
        } else {
            Seq::empty()
        }) + (if security != Security::Open {
            seq![EditorField::Password]
        } else {
            Seq::empty()
        }) + seq![EditorField::Hidden]
    } else {
        Seq::empty()
    }) + ip_fields()
}

/// The address fields, common to every profile.
pub open spec fn ip_fields() -> Seq<EditorField> {
    seq![
        EditorField::Ipv4Mode,
        EditorField::Ipv4Address,
        EditorField::Ipv4Gateway,
        EditorField::Ipv4Dns,
        EditorField::Ipv4Search,
        EditorField::Ipv4Routing,
        EditorField::Ipv4NeverDefault,
        EditorField::Ipv4IgnoreRoutes,
        EditorField::Ipv4IgnoreDns,
        EditorField::Ipv4Required,
        EditorField::Ipv6Mode,
        EditorField::Slaac,
        EditorField::Ipv6Address,
        EditorField::Ipv6Gateway,
        EditorField::Ipv6Dns,
        EditorField::Ipv6Search,
        EditorField::Ipv6Routing,
        EditorField::Ipv6NeverDefault,
        EditorField::Ipv6IgnoreRoutes,
        EditorField::Ipv6IgnoreDns,
        EditorField::Ipv6Required,
        EditorField::Autoconnect,
        EditorField::AvailableUsers,
    ]
}

/// An open choice list of the editor.
#[derive(Debug, Clone)]
pub struct ChoicePopup {
    pub field: EditorField,
    pub options: Vec<String>,
    pub selected: usize,
}

/// The address family of a routes popup.
#[derive(Debug, Clone, Copy, PartialEq, Eq, Structural)]
pub enum RoutingFamily {
    Ipv4,
    Ipv6,
}

/// The focus inside a routes popup.
#[derive(Debug, Clone, Copy, PartialEq, Eq, Structural)]
pub enum RoutingFocus {
    List,
    Add,
    Delete,
    Cancel,
    Accept,
}

/// The position of a focus in the tab order of the popup.
pub open spec fn routing_focus_index(f: RoutingFocus) -> nat {
    match f {
        RoutingFocus::List => 0,
        RoutingFocus::Add => 1,
        RoutingFocus::Delete => 2,
        RoutingFocus::Cancel => 3,
        RoutingFocus::Accept => 4,
    }
}

/// The focus at a position of the tab order of the popup.
pub open spec fn routing_focus_at(i: int) -> RoutingFocus {
    if i == 0 {
        RoutingFocus::List
    } else if i == 1 {
        RoutingFocus::Add
    } else if i == 2 {
        RoutingFocus::Delete
    } else if i == 3 {
        RoutingFocus::Cancel
    } else {
        RoutingFocus::Accept
    }
}

impl RoutingFocus {
    /// The position in the tab order.
    pub fn index(self) -> (r: usize)
        ensures
            r == routing_focus_index(self),
    {
        match self {
            RoutingFocus::List => 0,
            RoutingFocus::Add => 1,
            RoutingFocus::Delete => 2,
            RoutingFocus::Cancel => 3,
            RoutingFocus::Accept => 4,
        }
    }

    fn at(i: usize) -> (r: RoutingFocus)
        ensures
            r == routing_focus_at(i as int),
    {
        if i == 0 {
            RoutingFocus::List
        } else if i == 1 {
            RoutingFocus::Add
        } else if i == 2 {
            RoutingFocus::Delete
        } else if i == 3 {
            RoutingFocus::Cancel
        } else {
            RoutingFocus::Accept
        }
    }
}

/// `(cur + delta)` taken modulo `n`, in `0..n`.
pub(crate) fn wrap_index(cur: usize, delta: isize, n: usize) -> (r: usize)
    requires
        n > 0,
        cur <= isize::MAX,
        n <= isize::MAX,
        isize::MIN <= cur + delta <= isize::MAX,
    ensures
        r == (cur + delta) % (n as int),
        r < n,
{
    let x: isize = cur as isize + delta;
    let ni: isize = n as isize;
    if x >= 0 {
        let r = (x as usize) % n;
        r
    } else {
        let m: usize = ((-(x as i128)) as usize) % n;
        proof {
            let xi = x as int;
            let mi = m as int;
            let nn = n as int;
            let y = -xi;
            assert(mi == y % nn);
            let q = y / nn;
            vstd::arithmetic::div_mod::lemma_fundamental_div_mod(y, nn);
            if mi == 0 {
                assert(xi == (-q) * nn + 0) by (nonlinear_arith)
                    requires
                        y == nn * q + mi,
                        mi == 0,
                        xi == -y,
                ;
                vstd::arithmetic::div_mod::lemma_fundamental_div_mod_converse(xi, nn, -q, 0);
            } else {
                assert(xi == (-q - 1) * nn + (nn - mi)) by (nonlinear_arith)
                    requires
                        y == nn * q + mi,
                        xi == -y,
                ;
                vstd::arithmetic::div_mod::lemma_fundamental_div_mod_converse(
                    xi,
                    nn,
                    -q - 1,
                    nn - mi,
                );
            }
        }
        if m == 0 {
            0
        } else {
            n - m
        }
    }
}

/// A popup editing the static routes of one address family.
#[derive(Debug, Clone)]
pub struct RoutingPopup {
    pub family: RoutingFamily,
    pub routes: Vec<String>,
    pub selected: usize,
    pub focus: RoutingFocus,
    pub editing: bool,
    pub input: String,
    pub error: Option<String>,
}

/// Starting to type a route: editing with an empty input and no error, the
/// rest kept.
pub open spec fn route_add_begun(a: RoutingPopup, b: RoutingPopup) -> bool {
    &&& b.editing
    &&& b.input@.len() == 0
    &&& b.error is None
    &&& b.family == a.family
    &&& b.routes == a.routes
    &&& b.selected == a.selected
    &&& b.focus == a.focus
}

/// Deleting the selected route, the selection kept on the list.
pub open spec fn route_deleted(a: RoutingPopup, b: RoutingPopup) -> bool {
    &&& a.routes@.len() == 0 ==> b.routes@ == a.routes@ && b.selected == a.selected
    &&& a.routes@.len() > 0 ==> {
        &&& b.routes@ == a.routes@.remove(a.selected as int)
        &&& b.selected == (if a.selected < b.routes@.len() {
            a.selected as int
        } else if b.routes@.len() == 0 {
            0
        } else {
            b.routes@.len() - 1
        })
    }
    &&& b.family == a.family
    &&& b.focus == a.focus
    &&& b.editing == a.editing
    &&& b.input == a.input
    &&& b.error == a.error
}

/// Moving within the route list or among the buttons, wrapping.
pub open spec fn cursor_moved(a: RoutingPopup, b: RoutingPopup, delta: int) -> bool {
    &&& a.focus == RoutingFocus::List ==> {
        &&& b.focus == RoutingFocus::List
        &&& if a.routes@.len() > 0 {
            b.selected == (a.selected + delta) % (a.routes@.len() as int)
        } else {
            b.selected == a.selected
        }
    }
    &&& a.focus != RoutingFocus::List ==> {
        &&& b.selected == a.selected
        &&& b.focus == routing_focus_at(1 + (routing_focus_index(a.focus) - 1 + delta) % 4)
    }
    &&& b.routes == a.routes
    &&& b.family == a.family
    &&& b.editing == a.editing
    &&& b.input == a.input
    &&& b.error == a.error
}

/// Moving to the next or previous focus of the routes popup, wrapping.
pub open spec fn route_tabbed(a: RoutingPopup, b: RoutingPopup, backwards: bool) -> bool {
    &&& b.focus == routing_focus_at(
        (routing_focus_index(a.focus) + (if backwards {
            -1int
        } else {
            1int
        })) % 5,
    )
    &&& b.routes == a.routes
    &&& b.selected == a.selected
    &&& b.family == a.family
    &&& b.editing == a.editing
    &&& b.input == a.input
    &&& b.error == a.error
}

/// Flipping a checkbox field.
pub open spec fn toggled(a: ConnectionEditor, b: ConnectionEditor, field: EditorField) -> bool {
    &&& forall|f: EditorField| #[trigger]
        bool_of(b, f) == (if f == field && is_bool_field(f) {
            !bool_of(a, f)
        } else {
            bool_of(a, f)
        })
    &&& same_texts(b, a)
    &&& same_settings(b, a)
    &&& same_focus(b, a)
}

/// Applying and closing the open choice list.
pub open spec fn choice_applied(a: ConnectionEditor, b: ConnectionEditor) -> bool {
    &&& b.choice is None
    &&& match a.choice {
        Some(c) => {
            &&& b.security == (if c.field == EditorField::Security {
                security_of_choice(c.selected as nat)
            } else {
                a.security
            })
            &&& b.ipv4_mode == (if c.field == EditorField::Ipv4Mode {
                ip_mode_of_choice(c.selected as nat)
            } else {
                a.ipv4_mode
            })
            &&& b.ipv6_mode == (if c.field == EditorField::Ipv6Mode {
                ip_mode_of_choice(c.selected as nat)
            } else {
                a.ipv6_mode
            })
        },
        None => b.security == a.security && b.ipv4_mode == a.ipv4_mode && b.ipv6_mode
            == a.ipv6_mode,
    }
    &&& same_texts(b, a)
    &&& same_bools(b, a)
    &&& b.mode == a.mode
    &&& b.focus == a.focus
    &&& b.footer == a.footer
    &&& b.footer_selected == a.footer_selected
    &&& b.routing == a.routing
    &&& b.scroll == a.scroll
}

/// Typing a character into the focused text field.
pub open spec fn char_typed(a: ConnectionEditor, b: ConnectionEditor, character: char) -> bool {
    &&& forall|f: EditorField| #[trigger]
        text_of(b, f) == (if focused_field(a) == Some(f) && is_text_field(f) {
            text_of(a, f).push(character)
        } else {
            text_of(a, f)
        })
    &&& same_bools(b, a)
    &&& same_settings(b, a)
    &&& same_focus(b, a)
}

/// Deleting the last character of the focused text field.
pub open spec fn char_erased(a: ConnectionEditor, b: ConnectionEditor) -> bool {
    &&& forall|f: EditorField| #[trigger]
        text_of(b, f) == (if focused_field(a) == Some(f) && is_text_field(f) && text_of(a, f).len()
            > 0 {
            text_of(a, f).drop_last()
        } else {
            text_of(a, f)
        })
    &&& same_bools(b, a)
    &&& same_settings(b, a)
    &&& same_focus(b, a)
}

/// Moving the focus by `delta` fields, stopping at either end, and closing
/// the form's popups.
pub open spec fn focus_moved(a: ConnectionEditor, b: ConnectionEditor, delta: int) -> bool {
    &&& ({
        let len = editor_fields(a.mode, a.security).len();
        if len == 0 {
            b == a
        } else {
            let t = a.focus + delta;
            &&& b.focus == (if t < 0 {
                0
            } else if t > len - 1 {
                len - 1
            } else {
                t
            })
            &&& b.focus < len
            &&& b.choice is None
            &&& b.routing is None
            &&& b.scroll == scroll_for(b.focus as nat)
            &&& b.footer == a.footer
            &&& b.footer_selected == a.footer_selected
        }
    })
    &&& same_texts(b, a)
    &&& same_bools(b, a)
    &&& same_settings(b, a)
}

/// Moving the focus one step through the fields and footer buttons.
///
/// Landing on a field scrolls the form to `scroll_for` that field; moving from one field to another closes the form's
/// popups.
pub open spec fn focus_tabbed(a: ConnectionEditor, b: ConnectionEditor, backwards: bool) -> bool {
    let q = tab_pos(editor_fields(a.mode, a.security).len(), pos_of(a), backwards);
    &&& pos_of(b) == q
    &&& b.scroll == (if q.footer {
        a.scroll
    } else {
        scroll_for(q.focus)
    })
    &&& b.choice == (if !a.footer && !q.footer {
        None
    } else {
        a.choice
    })
    &&& b.routing == (if !a.footer && !q.footer {
        None
    } else {
        a.routing
    })
    &&& same_texts(b, a)
    &&& same_bools(b, a)
    &&& same_settings(b, a)
}

/// Opening the choice list of the focused field.
pub open spec fn choice_opened(a: ConnectionEditor, b: ConnectionEditor) -> bool {
    &&& match focused_field(a) {
        Some(f) => match choice_options_of(f) {
            Some(o) => b.choice matches Some(c) && c.field == f && c.options@.len() == o.len()
                && c.selected == (match first_index(o, choice_value(a, f)) {
                Some(k) => k,
                None => 0,
            }),
            None => b.choice == a.choice,
        },
        None => b.choice == a.choice,
    }
    &&& same_texts(b, a)
    &&& same_bools(b, a)
    &&& same_settings(b, a)
    &&& b.focus == a.focus
}

/// Opening the routes popup of a routing field on a copy of its routes.
pub open spec fn routing_opened(a: ConnectionEditor, b: ConnectionEditor, field: EditorField) -> bool {
    &&& field == EditorField::Ipv4Routing ==> (b.routing matches Some(p) && p.family
        == RoutingFamily::Ipv4 && p.selected == 0 && p.focus == RoutingFocus::List
        && p.routes@.len() == a.ipv4_routes@.len() && forall|i: int|
        0 <= i < p.routes@.len() ==> #[trigger] p.routes@[i]@ == a.ipv4_routes@[i]@)
    &&& field == EditorField::Ipv6Routing ==> (b.routing matches Some(p) && p.family
        == RoutingFamily::Ipv6 && p.selected == 0 && p.focus == RoutingFocus::List
        && p.routes@.len() == a.ipv6_routes@.len() && forall|i: int|
        0 <= i < p.routes@.len() ==> #[trigger] p.routes@[i]@ == a.ipv6_routes@[i]@)
    &&& !is_routing_field(field) ==> b.routing == a.routing
    &&& same_texts(b, a)
    &&& same_bools(b, a)
    &&& same_settings(b, a)
    &&& b.focus == a.focus
}

/// Taking the routes of a closed routes popup.
pub open spec fn routing_applied(a: ConnectionEditor, b: ConnectionEditor, popup: RoutingPopup) -> bool {
    &&& popup.family == RoutingFamily::Ipv4 ==> b.ipv4_routes == popup.routes && b.ipv6_routes
        == a.ipv6_routes
    &&& popup.family == RoutingFamily::Ipv6 ==> b.ipv6_routes == popup.routes && b.ipv4_routes
        == a.ipv4_routes
    &&& b.routing is None
    &&& same_texts(b, a)
    &&& same_bools(b, a)
    &&& b.focus == a.focus
    &&& b.mode == a.mode
    &&& b.security == a.security
    &&& b.ipv4_mode == a.ipv4_mode
    &&& b.ipv6_mode == a.ipv6_mode
    &&& b.choice == a.choice
    &&& b.footer == a.footer
    &&& b.footer_selected == a.footer_selected
}

impl RoutingPopup {
    /// A popup on the given routes, focused on the list's first entry.
    pub fn new(family: RoutingFamily, routes: Vec<String>) -> (r: RoutingPopup)
        ensures
            r.family == family,
            r.routes == routes,
            r.selected == 0,
            r.focus == RoutingFocus::List,
            !r.editing,
            r.input@.len() == 0,
            r.error is None,
    {
        RoutingPopup {
            family,
            routes,
            selected: 0,
            focus: RoutingFocus::List,
            editing: false,
            input: String::new(),
            error: None,
        }
    }

    /// The popup's title.
    pub fn title(&self) -> (r: &'static str)
        ensures
            r@ == (match self.family {
                RoutingFamily::Ipv4 => "Edit IPv4 Routes"@,
                RoutingFamily::Ipv6 => "Edit IPv6 Routes"@,
            }),
    {
        match self.family {
            RoutingFamily::Ipv4 => "Edit IPv4 Routes",
            RoutingFamily::Ipv6 => "Edit IPv6 Routes",
        }
    }

    /// The hint shown in an empty input.
    pub fn placeholder(&self) -> (r: &'static str)
        ensures
            r@ == "destination/prefix gateway"@,
    {
        "destination/prefix gateway"
    }

    /// Starts typing a new route.
    pub fn begin_add(&mut self)
        ensures
            route_add_begun(*old(self), *final(self)),
    {
        self.editing = true;
        self.input = String::new();
        self.error = None;
    }

    /// Deletes the selected route, keeping the selection on the list.
    pub fn delete_selected(&mut self)
        requires
            old(self).routes@.len() > 0 ==> old(self).selected < old(self).routes@.len(),
        ensures
            route_deleted(*old(self), *final(self)),
    {
        if self.routes.len() == 0 {
            return ;
        }
        self.routes.remove(self.selected);
        let last = if self.routes.len() == 0 {
            0
        } else {
            self.routes.len() - 1
        };
        if self.selected > last {
            self.selected = last;
        }
    }

    /// Moves within the list (wrapping), or among the buttons (wrapping).
    pub fn move_cursor(&mut self, delta: isize)
        requires
            old(self).routes@.len() <= isize::MAX,
            old(self).focus == RoutingFocus::List && old(self).routes@.len() > 0 ==> old(self).selected
                <= isize::MAX && isize::MIN <= old(self).selected + delta <= isize::MAX,
            old(self).focus != RoutingFocus::List ==> routing_focus_index(old(self).focus) - 1 + delta
                <= isize::MAX,
        ensures
            cursor_moved(*old(self), *final(self), delta as int),
    {
        match self.focus {
            RoutingFocus::List => {
                if self.routes.len() > 0 {
                    self.selected = wrap_index(self.selected, delta, self.routes.len());
                }
            },
            _ => {
                let current = self.focus.index() - 1;
                let k = wrap_index(current, delta, 4);
                self.focus = RoutingFocus::at(k + 1);
            },
        }
    }

    /// Moves to the next (or previous) focus, wrapping.
    pub fn tab(&mut self, backwards: bool)
        ensures
            route_tabbed(*old(self), *final(self), backwards),
    {
        let current = self.focus.index();
        let delta: isize = if backwards {
            -1
        } else {
            1
        };
        let k = wrap_index(current, delta, 5);
        self.focus = RoutingFocus::at(k);
    }
}

/// A Wi-Fi network the user asked to connect to.
#[derive(Debug, Clone)]
pub struct WifiTarget {
    pub iface: String,
    pub ssid: String,
    pub bssid: Option<MacAddr>,
    pub security: Security,
    pub hidden: bool,
}

/// A message shown over the current screen.
#[derive(Debug, Clone)]
pub struct MessagePopup {
    pub title: String,
    pub message: String,
}

/// The focus of the new-connection popup.
#[derive(Debug, Clone, Copy, PartialEq, Eq, Structural)]
pub enum NewFocus {
    List,
    Cancel,
    Create,
}

/// The popup that picks the type of a new connection.
#[derive(Debug, Clone)]
pub struct NewConnectionPopup {
    pub selected: usize,
    pub focus: NewFocus,
}

/// The focus of the password popup.
#[derive(Debug, Clone, Copy, PartialEq, Eq, Structural)]
pub enum PasswordFocus {
    Input,
    Show,
    Cancel,
    Connect,
}

/// The popup that asks for a network's password.
#[derive(Debug, Clone)]
pub struct PasswordPopup {
    pub target: WifiTarget,
    pub input: String,
    pub show: bool,
    pub focus: PasswordFocus,
}

/// The popup shown while a connection is being made.
#[derive(Debug, Clone)]
pub struct ConnectingPopup {
    pub target: WifiTarget,
}

/// A modal layered over a list or form screen.
#[derive(Debug)]
pub enum Popup {
    /// No popup is shown
    Closed,
    Message(MessagePopup),
    NewConnection(NewConnectionPopup),
    Password(PasswordPopup),
    Connecting(ConnectingPopup),
    Editor(Box<ConnectionEditor>),
}

impl Default for Popup {
    fn default() -> (r: Self)
        ensures
            r is Closed,
    {
        Popup::Closed
    }
}

/// Every address, gateway, DNS, search and route entry of both families is
/// empty, and none of the per-family flags is set.
pub open spec fn blank_ip_settings(e: ConnectionEditor) -> bool {
    &&& e.ipv4_address@.len() == 0
    &&& e.ipv4_gateway@.len() == 0
    &&& e.ipv4_dns@.len() == 0
    &&& e.ipv4_search@.len() == 0
    &&& e.ipv4_routes@.len() == 0
    &&& !e.ipv4_never_default
    &&& !e.ipv4_ignore_routes
    &&& !e.ipv4_ignore_dns
    &&& !e.ipv4_required
    &&& e.ipv6_address@.len() == 0
    &&& e.ipv6_gateway@.len() == 0
    &&& e.ipv6_dns@.len() == 0
    &&& e.ipv6_search@.len() == 0
    &&& e.ipv6_routes@.len() == 0
    &&& !e.ipv6_never_default
    &&& !e.ipv6_ignore_routes
    &&& !e.ipv6_ignore_dns
    &&& !e.ipv6_required
}

/// Connection editor data and focus state.
#[derive(Debug, Clone)]
pub struct ConnectionEditor {
    pub mode: EditorMode,
    pub profile_name: String,
    pub device: String,
    pub ssid: String,
    pub bssid: String,
    pub security: Security,
    pub identity: String,
    pub password: String,
    pub hidden: bool,
    pub ipv4_mode: IpMode,
    pub ipv4_address: String,
    pub ipv4_gateway: String,
    pub ipv4_dns: String,
    pub ipv4_search: String,
    pub ipv4_routes: Vec<String>,
    pub ipv4_never_default: bool,
    pub ipv4_ignore_routes: bool,
    pub ipv4_ignore_dns: bool,
    pub ipv4_required: bool,
    pub ipv6_mode: IpMode,
    pub slaac: bool,
    pub ipv6_address: String,
    pub ipv6_gateway: String,
    pub ipv6_dns: String,
    pub ipv6_search: String,
    pub ipv6_routes: Vec<String>,
    pub ipv6_never_default: bool,
    pub ipv6_ignore_routes: bool,
    pub ipv6_ignore_dns: bool,
    pub ipv6_required: bool,
    pub autoconnect: bool,
    pub available_users: bool,
    pub existing_network: Option<(String, Option<MacAddr>)>,
    pub focus: usize,
    pub footer: bool,
    pub footer_selected: usize,
    pub choice: Option<ChoicePopup>,
    pub routing: Option<RoutingPopup>,
    pub scroll: u16,
}

/// The text of a text field (empty for other fields).
pub open spec fn text_of(e: ConnectionEditor, f: EditorField) -> Seq<char> {
    match f {
        EditorField::ProfileName => e.profile_name@,
        EditorField::Device => e.device@,
        EditorField::Ssid => e.ssid@,
        EditorField::Bssid => e.bssid@,
        EditorField::Identity => e.identity@,
        EditorField::Password => e.password@,
        EditorField::Ipv4Address => e.ipv4_address@,
        EditorField::Ipv4Gateway => e.ipv4_gateway@,
        EditorField::Ipv4Dns => e.ipv4_dns@,
        EditorField::Ipv4Search => e.ipv4_search@,
        EditorField::Ipv6Address => e.ipv6_address@,
        EditorField::Ipv6Gateway => e.ipv6_gateway@,
        EditorField::Ipv6Dns => e.ipv6_dns@,
        EditorField::Ipv6Search => e.ipv6_search@,
        _ => Seq::empty(),
    }
}

/// The value of a checkbox field (false for other fields).
pub open spec fn bool_of(e: ConnectionEditor, f: EditorField) -> bool {
    match f {
        EditorField::Hidden => e.hidden,
        EditorField::Slaac => e.slaac,
        EditorField::Ipv4NeverDefault => e.ipv4_never_default,
        EditorField::Ipv4IgnoreRoutes => e.ipv4_ignore_routes,
        EditorField::Ipv4IgnoreDns => e.ipv4_ignore_dns,
        EditorField::Ipv4Required => e.ipv4_required,
        EditorField::Ipv6NeverDefault => e.ipv6_never_default,
        EditorField::Ipv6IgnoreRoutes => e.ipv6_ignore_routes,
        EditorField::Ipv6IgnoreDns => e.ipv6_ignore_dns,
        EditorField::Ipv6Required => e.ipv6_required,
        EditorField::Autoconnect => e.autoconnect,
        EditorField::AvailableUsers => e.available_users,
        _ => false,
    }
}

/// The two editors hold the same texts.
pub open spec fn same_texts(a: ConnectionEditor, b: ConnectionEditor) -> bool {
    a.profile_name@ == b.profile_name@
    && a.device@ == b.device@
    && a.ssid@ == b.ssid@
    && a.bssid@ == b.bssid@
    && a.identity@ == b.identity@
    && a.password@ == b.password@
    && a.ipv4_address@ == b.ipv4_address@
    && a.ipv4_gateway@ == b.ipv4_gateway@
    && a.ipv4_dns@ == b.ipv4_dns@
    && a.ipv4_search@ == b.ipv4_search@
    && a.ipv6_address@ == b.ipv6_address@
    && a.ipv6_gateway@ == b.ipv6_gateway@
    && a.ipv6_dns@ == b.ipv6_dns@
    && a.ipv6_search@ == b.ipv6_search@
}

/// The two editors hold the same checkbox values.
pub open spec fn same_bools(a: ConnectionEditor, b: ConnectionEditor) -> bool {
    a.hidden == b.hidden
    && a.slaac == b.slaac
    && a.ipv4_never_default == b.ipv4_never_default
    && a.ipv4_ignore_routes == b.ipv4_ignore_routes
    && a.ipv4_ignore_dns == b.ipv4_ignore_dns
    && a.ipv4_required == b.ipv4_required
    && a.ipv6_never_default == b.ipv6_never_default
    && a.ipv6_ignore_routes == b.ipv6_ignore_routes
    && a.ipv6_ignore_dns == b.ipv6_ignore_dns
    && a.ipv6_required == b.ipv6_required
    && a.autoconnect == b.autoconnect
    && a.available_users == b.available_users
}

/// The two editors hold the same choices, routes and profile.
pub open spec fn same_settings(a: ConnectionEditor, b: ConnectionEditor) -> bool {
    a.mode == b.mode
    && a.security == b.security
    && a.ipv4_mode == b.ipv4_mode
    && a.ipv6_mode == b.ipv6_mode
    && a.ipv4_routes == b.ipv4_routes
    && a.ipv6_routes == b.ipv6_routes
    && a.existing_network == b.existing_network
}

/// The two editors have the same focus, popups and scroll position.
pub open spec fn same_focus(a: ConnectionEditor, b: ConnectionEditor) -> bool {
    a.focus == b.focus && a.footer == b.footer && a.footer_selected == b.footer_selected
        && a.choice == b.choice && a.routing == b.routing && a.scroll == b.scroll
}

/// The field under the focus, if the focus is on a field.
pub open spec fn focused_field(e: ConnectionEditor) -> Option<EditorField> {
    let fs = editor_fields(e.mode, e.security);
    if e.focus < fs.len() {
        Some(fs[e.focus as int])
    } else {
        None
    }
}

/// The first visible row when the focus is on row `focus`.
pub open spec fn scroll_for(focus: nat) -> u16 {
    (if focus >= 8 {
        focus - 8
    } else {
        0
    }) as u16
}

/// The focus position: on the footer buttons or on a field, and which.
pub struct FocusPos {
    pub footer: bool,
    pub focus: nat,
    pub footer_selected: nat,
}

/// Where Tab (or Shift-Tab) moves the focus in a form of `len` fields:
/// through the fields, then the two footer buttons, then back to the first
/// field.
pub open spec fn tab_pos(len: nat, p: FocusPos, backwards: bool) -> FocusPos {
    if p.footer {
        if backwards {
            if p.footer_selected == 0 {
                FocusPos { footer: false, focus: (len - 1) as nat, ..p }
            } else {
                FocusPos { footer_selected: 0, ..p }
            }
        } else if p.footer_selected == 1 {
            FocusPos { footer: false, focus: 0, ..p }
        } else {
            FocusPos { footer_selected: 1, ..p }
        }
    } else if backwards {
        if p.focus == 0 {
            FocusPos { footer: true, footer_selected: 1, ..p }
        } else if p.focus > len {
            FocusPos { focus: (len - 1) as nat, ..p }
        } else {
            FocusPos { focus: (p.focus - 1) as nat, ..p }
        }
    } else if p.focus + 1 >= len {
        FocusPos { footer: true, footer_selected: 0, ..p }
    } else {
        FocusPos { focus: p.focus + 1, ..p }
    }
}

/// The focus position of an editor.
pub open spec fn pos_of(e: ConnectionEditor) -> FocusPos {
    FocusPos { footer: e.footer, focus: e.focus as nat, footer_selected: e.footer_selected as nat }
}

/// The security option shown as selected for a security type.
pub open spec fn security_choice_text(s: Security) -> Seq<char> {
    match s {
        Security::Open => "None"@,
        Security::Psk => "WPA & WPA2 Personal"@,
        Security::Eap => "WPA & WPA2 Enterprise"@,
        Security::Unknown => "None"@,
    }
}

/// The value that a choice field shows as selected.
pub open spec fn choice_value(e: ConnectionEditor, f: EditorField) -> Seq<char> {
    match f {
        EditorField::Security => security_choice_text(e.security),
        EditorField::Ipv4Mode => ip_mode_label(e.ipv4_mode),
        EditorField::Ipv6Mode => ip_mode_label(e.ipv6_mode),
        _ => Seq::empty(),
    }
}

/// The options of a choice field.
pub open spec fn choice_options_of(f: EditorField) -> Option<Seq<Seq<char>>> {
    match f {
        EditorField::Security => Some(
            seq!["None"@, "WPA & WPA2 Personal"@, "WPA & WPA2 Enterprise"@],
        ),
        EditorField::Ipv4Mode | EditorField::Ipv6Mode => Some(
            seq!["Automatic"@, "Manual"@, "Ignore"@],
        ),
        _ => None,
    }
}

/// The index of the first option equal to `value`.
pub open spec fn first_index(options: Seq<Seq<char>>, value: Seq<char>) -> Option<nat>
    decreases options.len(),
{
    if options.len() == 0 {
        None
    } else if options[0] == value {
        Some(0)
    } else {
        match first_index(options.drop_first(), value) {
            Some(k) => Some(k + 1),
            None => None,
        }
    }
}

/// A scan that finds `value` first at `k` agrees with `first_index`, and a
/// scan that finds nothing agrees too.
proof fn lemma_first_index(options: Seq<Seq<char>>, value: Seq<char>, k: int)
    requires
        0 <= k <= options.len(),
        forall|j: int| 0 <= j < k ==> #[trigger] options[j] != value,
        k < options.len() ==> options[k] == value,
    ensures
        first_index(options, value) == (if k < options.len() {
            Some(k as nat)
        } else {
            None::<nat>
        }),
    decreases options.len(),
{
    if options.len() > 0 && k > 0 {
        let t = options.drop_first();
        assert forall|j: int| 0 <= j < k - 1 implies #[trigger] t[j] != value by {
            assert(t[j] == options[j + 1]);
        }
        assert(options[0] != value);
        lemma_first_index(t, value, k - 1);
    }
}

/// The security type selected by a choice index.
pub open spec fn security_of_choice(i: nat) -> Security {
    if i == 1 {
        Security::Psk
    } else if i == 2 {
        Security::Eap
    } else {
        Security::Open
    }
}

/// The address mode selected by a choice index.
pub open spec fn ip_mode_of_choice(i: nat) -> IpMode {
    if i == 1 {
        IpMode::Manual
    } else if i == 2 {
        IpMode::Ignore
    } else {
        IpMode::Automatic
    }
}

/// What `wifi_values` answers: the trimmed SSID, the BSSID if one is given,
/// and the security; or the first problem found.
pub open spec fn wifi_check(e: ConnectionEditor) -> Result<(Seq<char>, Option<Seq<u8>>, Security), Seq<char>> {
    let ssid = trim(e.ssid@);
    let b = trim(e.bssid@);
    if ssid.len() == 0 {
        Err("SSID must not be empty"@)
    } else if b.len() > 0 && mac_parse(b) is None {
        Err("BSSID must be aa:bb:cc:dd:ee:ff"@)
    } else if e.security == Security::Psk && !(8 <= encode_utf8(e.password@).len() <= 63) {
        Err("WPA-PSK password must contain 8-63 bytes"@)
    } else if e.security == Security::Eap && trim(e.identity@).len() == 0 {
        Err("EAP identity must not be empty"@)
    } else if e.security == Security::Eap && e.password@.len() == 0 {
        Err("EAP password must not be empty"@)
    } else {
        Ok(
            (
                ssid,
                if b.len() == 0 {
                    None
                } else {
                    mac_parse(b)
                },
                e.security,
            ),
        )
    }
}

/// Removes the last character of a string, if any (`String::pop`).
#[verifier::external_body]
pub(crate) fn pop_char(s: &mut String)
    ensures
        final(s)@ == (if old(s)@.len() > 0 {
            old(s)@.drop_last()
        } else {
            old(s)@
        }),
{
    s.pop();
}

/// Copies of the given strings.
fn copy_strings(v: &Vec<String>) -> (r: Vec<String>)
    ensures
        r@.len() == v@.len(),
        forall|i: int| 0 <= i < v@.len() ==> #[trigger] r@[i]@ == v@[i]@,
{
    let mut out: Vec<String> = Vec::new();
    let mut i: usize = 0;
    while i < v.len()
        invariant
            0 <= i <= v@.len(),
            out@.len() == i,
            forall|j: int| 0 <= j < i ==> #[trigger] out@[j]@ == v@[j]@,
        decreases v@.len() - i,
    {
        out.push(copy_string(&v[i]));
        i = i + 1;
    }
    out
}

/// The signal-strength bars shown for a signal in dBm, in four buckets
/// after clamping to -90..=-30.
pub open spec fn signal_bars_text(signal: i32) -> Seq<char> {
    let s = if signal < -90 {
        -90
    } else if signal > -30 {
        -30
    } else {
        signal as int
    };
    if -45 <= s {
        "\u{2582}\u{2584}\u{2586}\u{2588}"@
    } else if -60 <= s {
        "\u{2582}\u{2584}\u{2586} "@
    } else if -75 <= s {
        "\u{2582}\u{2584}  "@
    } else {
        "\u{2582}   "@
    }
}

/// The signal-strength bars of a signal in dBm.
pub fn signal_bars(signal: i32) -> (r: &'static str)
    ensures
        r@ == signal_bars_text(signal),
{
    let s = if signal < -90 {
        -90
    } else if signal > -30 {
        -30
    } else {
        signal
    };
    if -45 <= s {
        "\u{2582}\u{2584}\u{2586}\u{2588}"
    } else if -60 <= s {
        "\u{2582}\u{2584}\u{2586} "
    } else if -75 <= s {
        "\u{2582}\u{2584}  "
    } else {
        "\u{2582}   "
    }
}

/// One Tab (or Shift-Tab) step of the focus position in a form of `len`
/// fields; the last value says whether the focused field changed (1) and
/// whether that was a move between fields (2).
fn tab_step(footer: bool, focus: usize, selected: usize, len: usize, backwards: bool) -> (r: (
    bool,
    usize,
    usize,
    u8,
))
    requires
        len > 0,
    ensures
        r.0 == tab_pos(
            len as nat,
            FocusPos { footer, focus: focus as nat, footer_selected: selected as nat },
            backwards,
        ).footer,
        r.1 == tab_pos(
            len as nat,
            FocusPos { footer, focus: focus as nat, footer_selected: selected as nat },
            backwards,
        ).focus,
        r.2 == tab_pos(
            len as nat,
            FocusPos { footer, focus: focus as nat, footer_selected: selected as nat },
            backwards,
        ).footer_selected,
        focus < len ==> r.1 < len,
        r.3 == (if r.0 {
            0u8
        } else if footer {
            1u8
        } else {
            2u8
        }),
{
    if footer {
        if backwards {
            if selected == 0 {
                (false, len - 1, selected, 1)
            } else {
                (footer, focus, 0, 0)
            }
        } else if selected == 1 {
            (false, 0, selected, 1)
        } else {
            (footer, focus, 1, 0)
        }
    } else if backwards {
        if focus == 0 {
            (true, focus, 1, 0)
        } else if focus > len {
            (footer, len - 1, selected, 2)
        } else {
            (footer, focus - 1, selected, 2)
        }
    } else if focus >= len - 1 {
        (true, focus, 0, 0)
    } else {
        (footer, focus + 1, selected, 2)
    }
}

impl ConnectionEditor {
    /// An editor for a Wi-Fi profile, filled from a scan result or else from
    /// a known network.
    pub fn from_wifi(iface: &str, scan: Option<&ScanResult>, known: Option<&KnownNetwork>) -> (r: ConnectionEditor)
        ensures
            r.mode == EditorMode::Wifi,
            r.device@ == iface@,
            r.ssid@ == (match scan {
                Some(n) => n.ssid@,
                None => match known {
                    Some(k) => k.ssid@,
                    None => Seq::empty(),
                },
            }),
            r.profile_name@ == r.ssid@,
            r.security == (match scan {
                Some(n) => n.security,
                None => match known {
                    Some(k) => k.security,
                    None => Security::Open,
                },
            }),
            r.focus == 0,
            !r.footer,
            r.footer_selected == 0,
            r.choice is None,
            r.routing is None,
            r.scroll == 0,
            r.ipv4_mode == IpMode::Automatic,
            r.ipv6_mode == IpMode::Automatic,
            r.slaac,
            r.hidden == (match known {
                Some(k) => k.hidden,
                None => false,
            }),
            r.autoconnect == (match known {
                Some(k) => k.state != KnownNetworkState::Disabled,
                None => true,
            }),
            r.available_users,
            r.bssid@ == (match scan {
                Some(n) => mac_text(n.bssid@),
                None => match known {
                    Some(k) => match k.bssid {
                        Some(b) => mac_text(b@),
                        None => Seq::empty(),
                    },
                    None => Seq::empty(),
                },
            }),
            r.identity@ == (match known {
                Some(k) => match k.identity {
                    Some(i) => i@,
                    None => Seq::empty(),
                },
                None => Seq::empty(),
            }),
            r.password@ == (match known {
                Some(k) => match k.password {
                    Some(p) => p@,
                    None => Seq::empty(),
                },
                None => Seq::empty(),
            }),
            match known {
                Some(k) => r.existing_network matches Some((s, b)) && s@ == k.ssid@ && b == k.bssid,
                None => r.existing_network is None,
            },
            blank_ip_settings(r),
    {
        let ssid = match scan {
            Some(n) => copy_string(&n.ssid),
            None => match known {
                Some(k) => copy_string(&k.ssid),
                None => String::new(),
            },
        };
        let security = match scan {
            Some(n) => n.security,
            None => match known {
                Some(k) => k.security,
                None => Security::Open,
            },
        };
        let bssid = match scan {
            Some(n) => n.bssid.to_string(),
            None => match known {
                Some(k) => match k.bssid {
                    Some(b) => b.to_string(),
                    None => String::new(),
                },
                None => String::new(),
            },
        };
        let identity = match known {
            Some(k) => match &k.identity {
                Some(i) => copy_string(i),
                None => String::new(),
            },
            None => String::new(),
        };
        let password = match known {
            Some(k) => match &k.password {
                Some(p) => copy_string(p),
                None => String::new(),
            },
            None => String::new(),
        };
        let hidden = match known {
            Some(k) => k.hidden,
            None => false,
        };
        let autoconnect = match known {
            Some(k) => k.is_enabled(),
            None => true,
        };
        let existing_network = match known {
            Some(k) => Some((copy_string(&k.ssid), k.bssid)),
            None => None,
        };
        ConnectionEditor {
            mode: EditorMode::Wifi,
            profile_name: copy_string(&ssid),
            device: iface.to_owned(),
            ssid,
            bssid,
            security,
            identity,
            password,
            hidden,
            ipv4_mode: IpMode::Automatic,
            ipv4_address: String::new(),
            ipv4_gateway: String::new(),
            ipv4_dns: String::new(),
            ipv4_search: String::new(),
            ipv4_routes: Vec::new(),
            ipv4_never_default: false,
            ipv4_ignore_routes: false,
            ipv4_ignore_dns: false,
            ipv4_required: false,
            ipv6_mode: IpMode::Automatic,
            slaac: true,
            ipv6_address: String::new(),
            ipv6_gateway: String::new(),
            ipv6_dns: String::new(),
            ipv6_search: String::new(),
            ipv6_routes: Vec::new(),
            ipv6_never_default: false,
            ipv6_ignore_routes: false,
            ipv6_ignore_dns: false,
            ipv6_required: false,
            autoconnect,
            available_users: true,
            existing_network,
            focus: 0,
            footer: false,
            footer_selected: 0,
            choice: None,
            routing: None,
            scroll: 0,
        }
    }

    /// The fields of the form, in order.
    pub fn fields(&self) -> (r: Vec<EditorField>)
        ensures
            r@ == editor_fields(self.mode, self.security),
    {
        let mut fields: Vec<EditorField> = Vec::new();
        fields.push(EditorField::ProfileName);
        fields.push(EditorField::Device);
        if self.mode == EditorMode::Wifi {
            fields.push(EditorField::Ssid);
            fields.push(EditorField::Bssid);
            fields.push(EditorField::Security);
            if self.security == Security::Eap {
                fields.push(EditorField::Identity);
            }
            if self.security != Security::Open {
                fields.push(EditorField::Password);
            }
            fields.push(EditorField::Hidden);
        }
        fields.push(EditorField::Ipv4Mode);
        fields.push(EditorField::Ipv4Address);
        fields.push(EditorField::Ipv4Gateway);
        fields.push(EditorField::Ipv4Dns);
        fields.push(EditorField::Ipv4Search);
        fields.push(EditorField::Ipv4Routing);
        fields.push(EditorField::Ipv4NeverDefault);
        fields.push(EditorField::Ipv4IgnoreRoutes);
        fields.push(EditorField::Ipv4IgnoreDns);
        fields.push(EditorField::Ipv4Required);
        fields.push(EditorField::Ipv6Mode);
        fields.push(EditorField::Slaac);
        fields.push(EditorField::Ipv6Address);
        fields.push(EditorField::Ipv6Gateway);
        fields.push(EditorField::Ipv6Dns);
        fields.push(EditorField::Ipv6Search);
        fields.push(EditorField::Ipv6Routing);
        fields.push(EditorField::Ipv6NeverDefault);
        fields.push(EditorField::Ipv6IgnoreRoutes);
        fields.push(EditorField::Ipv6IgnoreDns);
        fields.push(EditorField::Ipv6Required);
        fields.push(EditorField::Autoconnect);
        fields.push(EditorField::AvailableUsers);
        assert(fields@ =~= editor_fields(self.mode, self.security));
        fields
    }

    /// Whether the focus is on the given field.
    pub fn focused(&self, field: EditorField) -> (r: bool)
        ensures
            r == (focused_field(*self) == Some(field)),
    {
        let fields = self.fields();
        self.focus < fields.len() && fields[self.focus] == field
    }

    /// The label of a field.
    pub fn field_label(field: EditorField) -> (r: &'static str)
        ensures
            r@ == field_label_text(field),
    {
        match field {
            EditorField::ProfileName => "Profile name",
            EditorField::Device => "Device",
            EditorField::Ssid => "SSID",
            EditorField::Bssid => "BSSID",
            EditorField::Security => "Security",
            EditorField::Identity => "Identity",
            EditorField::Password => "Password",
            EditorField::Hidden => "Hidden network",
            EditorField::Ipv4Mode => "IPv4 CONFIGURATION",
            EditorField::Ipv4Address => "Addresses",
            EditorField::Ipv4Gateway => "Gateway",
            EditorField::Ipv4Dns => "DNS servers",
            EditorField::Ipv4Search => "Search domains",
            EditorField::Ipv4Routing => "Routing",
            EditorField::Ipv4NeverDefault => "Never use this network for default route",
            EditorField::Ipv4IgnoreRoutes => "Ignore automatically obtained routes",
            EditorField::Ipv4IgnoreDns => "Ignore automatically obtained DNS parameters",
            EditorField::Ipv4Required => "Require IPv4 addressing for this connection",
            EditorField::Ipv6Mode => "IPv6 CONFIGURATION",
            EditorField::Slaac => "Accept IPv6 router advertisements (SLAAC)",
            EditorField::Ipv6Address => "Addresses",
            EditorField::Ipv6Gateway => "Gateway",
            EditorField::Ipv6Dns => "DNS servers",
            EditorField::Ipv6Search => "Search domains",
            EditorField::Ipv6Routing => "Routing",
            EditorField::Ipv6NeverDefault => "Never use this network for default route",
            EditorField::Ipv6IgnoreRoutes => "Ignore automatically obtained routes",
            EditorField::Ipv6IgnoreDns => "Ignore automatically obtained DNS parameters",
            EditorField::Ipv6Required => "Require IPv6 addressing for this connection",
            EditorField::Autoconnect => "Automatically connect",
            EditorField::AvailableUsers => "Available to all users",
        }
    }

    /// The text of a text field, empty for other fields.
    pub fn text_value(&self, field: EditorField) -> (r: &str)
        ensures
            r@ == text_of(*self, field),
    {
        match field {
            EditorField::ProfileName => self.profile_name.as_str(),
            EditorField::Device => self.device.as_str(),
            EditorField::Ssid => self.ssid.as_str(),
            EditorField::Bssid => self.bssid.as_str(),
            EditorField::Identity => self.identity.as_str(),
            EditorField::Password => self.password.as_str(),
            EditorField::Ipv4Address => self.ipv4_address.as_str(),
            EditorField::Ipv4Gateway => self.ipv4_gateway.as_str(),
            EditorField::Ipv4Dns => self.ipv4_dns.as_str(),
            EditorField::Ipv4Search => self.ipv4_search.as_str(),
            EditorField::Ipv6Address => self.ipv6_address.as_str(),
            EditorField::Ipv6Gateway => self.ipv6_gateway.as_str(),
            EditorField::Ipv6Dns => self.ipv6_dns.as_str(),
            EditorField::Ipv6Search => self.ipv6_search.as_str(),
            _ => {
                proof {
                    reveal_strlit("");
                }
                ""
            },
        }
    }

    /// The value of a checkbox field, false for other fields.
    pub fn bool_value(&self, field: EditorField) -> (r: bool)
        ensures
            r == bool_of(*self, field),
    {
        match field {
            EditorField::Hidden => self.hidden,
            EditorField::Slaac => self.slaac,
            EditorField::Ipv4NeverDefault => self.ipv4_never_default,
            EditorField::Ipv4IgnoreRoutes => self.ipv4_ignore_routes,
            EditorField::Ipv4IgnoreDns => self.ipv4_ignore_dns,
            EditorField::Ipv4Required => self.ipv4_required,
            EditorField::Ipv6NeverDefault => self.ipv6_never_default,
            EditorField::Ipv6IgnoreRoutes => self.ipv6_ignore_routes,
            EditorField::Ipv6IgnoreDns => self.ipv6_ignore_dns,
            EditorField::Ipv6Required => self.ipv6_required,
            EditorField::Autoconnect => self.autoconnect,
            EditorField::AvailableUsers => self.available_users,
            _ => false,
        }
    }

    /// Flips a checkbox field; other fields are left alone.
    #[verifier::rlimit(60)]
    pub fn toggle(&mut self, field: EditorField)
        ensures
            toggled(*old(self), *final(self), field),
    {
        match field {
            EditorField::Hidden => self.hidden = !self.hidden,
            EditorField::Slaac => self.slaac = !self.slaac,
            EditorField::Ipv4NeverDefault => self.ipv4_never_default = !self.ipv4_never_default,
            EditorField::Ipv4IgnoreRoutes => self.ipv4_ignore_routes = !self.ipv4_ignore_routes,
            EditorField::Ipv4IgnoreDns => self.ipv4_ignore_dns = !self.ipv4_ignore_dns,
            EditorField::Ipv4Required => self.ipv4_required = !self.ipv4_required,
            EditorField::Ipv6NeverDefault => self.ipv6_never_default = !self.ipv6_never_default,
            EditorField::Ipv6IgnoreRoutes => self.ipv6_ignore_routes = !self.ipv6_ignore_routes,
            EditorField::Ipv6IgnoreDns => self.ipv6_ignore_dns = !self.ipv6_ignore_dns,
            EditorField::Ipv6Required => self.ipv6_required = !self.ipv6_required,
            EditorField::Autoconnect => self.autoconnect = !self.autoconnect,
            EditorField::AvailableUsers => self.available_users = !self.available_users,
            _ => {},
        }
    }

    /// The options of a choice field.
    pub fn choice_options(field: EditorField) -> (r: Option<Vec<String>>)
        ensures
            match choice_options_of(field) {
                Some(o) => r matches Some(v) && v@.len() == o.len() && forall|i: int|
                    0 <= i < o.len() ==> #[trigger] v@[i]@ == o[i],
                None => r is None,
            },
    {
        match field {
            EditorField::Security => {
                let mut v: Vec<String> = Vec::new();
                v.push("None".to_owned());
                v.push("WPA & WPA2 Personal".to_owned());
                v.push("WPA & WPA2 Enterprise".to_owned());
                Some(v)
            },
            EditorField::Ipv4Mode | EditorField::Ipv6Mode => {
                let mut v: Vec<String> = Vec::new();
                v.push("Automatic".to_owned());
                v.push("Manual".to_owned());
                v.push("Ignore".to_owned());
                Some(v)
            },
            _ => None,
        }
    }

    /// The index of the option showing the field's current value, or 0.
    pub fn choice_selected(&self, field: EditorField, options: &[String]) -> (r: usize)
        ensures
            r == (match first_index(options@.map_values(|o: String| o@), choice_value(*self, field)) {
                Some(k) => k,
                None => 0,
            }),
    {
        let value: &str = match field {
            EditorField::Security => match self.security {
                Security::Open => "None",
                Security::Psk => "WPA & WPA2 Personal",
                Security::Eap => "WPA & WPA2 Enterprise",
                Security::Unknown => "None",
            },
            EditorField::Ipv4Mode => self.ipv4_mode.label(),
            EditorField::Ipv6Mode => self.ipv6_mode.label(),
            _ => {
                proof {
                    reveal_strlit("");
                }
                ""
            },
        };
        let ghost opts = options@.map_values(|o: String| o@);
        let mut i: usize = 0;
        while i < options.len()
            invariant
                0 <= i <= options@.len(),
                opts == options@.map_values(|o: String| o@),
                value@ == choice_value(*self, field),
                forall|j: int| 0 <= j < i ==> #[trigger] opts[j] != value@,
            decreases options@.len() - i,
        {
            if str_eq(options[i].as_str(), value) {
                proof {
                    lemma_first_index(opts, value@, i as int);
                }
                return i;
            }
            i = i + 1;
        }
        proof {
            lemma_first_index(opts, value@, opts.len() as int);
        }
        0
    }

    /// Applies the open choice list, if any, and closes it.
    #[verifier::rlimit(60)]
    pub fn apply_choice(&mut self)
        ensures
            choice_applied(*old(self), *final(self)),
    {
        let (security, ipv4_mode, ipv6_mode) = match &self.choice {
            None => (self.security, self.ipv4_mode, self.ipv6_mode),
            Some(choice) => {
                let selected = choice.selected;
                match choice.field {
                    EditorField::Security => (
                        if selected == 1 {
                            Security::Psk
                        } else if selected == 2 {
                            Security::Eap
                        } else {
                            Security::Open
                        },
                        self.ipv4_mode,
                        self.ipv6_mode,
                    ),
                    EditorField::Ipv4Mode => (
                        self.security,
                        if selected == 1 {
                            IpMode::Manual
                        } else if selected == 2 {
                            IpMode::Ignore
                        } else {
                            IpMode::Automatic
                        },
                        self.ipv6_mode,
                    ),
                    EditorField::Ipv6Mode => (
                        self.security,
                        self.ipv4_mode,
                        if selected == 1 {
                            IpMode::Manual
                        } else if selected == 2 {
                            IpMode::Ignore
                        } else {
                            IpMode::Automatic
                        },
                    ),
                    _ => (self.security, self.ipv4_mode, self.ipv6_mode),
                }
            },
        };
        self.security = security;
        self.ipv4_mode = ipv4_mode;
        self.ipv6_mode = ipv6_mode;
        self.choice = None;
    }

    /// The field under the focus, if any.
    pub(crate) fn focused_field_exec(&self) -> (r: Option<EditorField>)
        ensures
            r == focused_field(*self),
    {
        let fields = self.fields();
        if self.focus < fields.len() {
            Some(fields[self.focus])
        } else {
            None
        }
    }

    /// Types a character into the focused text field.
    #[verifier::rlimit(60)]
    pub fn type_char(&mut self, character: char)
        ensures
            char_typed(*old(self), *final(self), character),
    {
        let field = match self.focused_field_exec() {
            Some(f) => f,
            None => {
                return ;
            },
        };
        match field {
            EditorField::ProfileName => push_char(&mut self.profile_name, character),
            EditorField::Device => push_char(&mut self.device, character),
            EditorField::Ssid => push_char(&mut self.ssid, character),
            EditorField::Bssid => push_char(&mut self.bssid, character),
            EditorField::Identity => push_char(&mut self.identity, character),
            EditorField::Password => push_char(&mut self.password, character),
            EditorField::Ipv4Address => push_char(&mut self.ipv4_address, character),
            EditorField::Ipv4Gateway => push_char(&mut self.ipv4_gateway, character),
            EditorField::Ipv4Dns => push_char(&mut self.ipv4_dns, character),
            EditorField::Ipv4Search => push_char(&mut self.ipv4_search, character),
            EditorField::Ipv6Address => push_char(&mut self.ipv6_address, character),
            EditorField::Ipv6Gateway => push_char(&mut self.ipv6_gateway, character),
            EditorField::Ipv6Dns => push_char(&mut self.ipv6_dns, character),
            EditorField::Ipv6Search => push_char(&mut self.ipv6_search, character),
            _ => {},
        }
    }

    /// Deletes the last character of the focused text field.
    #[verifier::rlimit(60)]
    pub fn backspace(&mut self)
        ensures
            char_erased(*old(self), *final(self)),
    {
        let field = match self.focused_field_exec() {
            Some(f) => f,
            None => {
                return ;
            },
        };
        match field {
            EditorField::ProfileName => pop_char(&mut self.profile_name),
            EditorField::Device => pop_char(&mut self.device),
            EditorField::Ssid => pop_char(&mut self.ssid),
            EditorField::Bssid => pop_char(&mut self.bssid),
            EditorField::Identity => pop_char(&mut self.identity),
            EditorField::Password => pop_char(&mut self.password),
            EditorField::Ipv4Address => pop_char(&mut self.ipv4_address),
            EditorField::Ipv4Gateway => pop_char(&mut self.ipv4_gateway),
            EditorField::Ipv4Dns => pop_char(&mut self.ipv4_dns),
            EditorField::Ipv4Search => pop_char(&mut self.ipv4_search),
            EditorField::Ipv6Address => pop_char(&mut self.ipv6_address),
            EditorField::Ipv6Gateway => pop_char(&mut self.ipv6_gateway),
            EditorField::Ipv6Dns => pop_char(&mut self.ipv6_dns),
            EditorField::Ipv6Search => pop_char(&mut self.ipv6_search),
            _ => {},
        }
    }

    /// Moves the focus by `delta` fields, stopping at the first and last
    /// field, and closes any popup of the form.
    pub fn move_focus(&mut self, delta: isize)
        requires
            old(self).focus <= isize::MAX,
            isize::MIN <= old(self).focus + delta <= isize::MAX,
        ensures
            focus_moved(*old(self), *final(self), delta as int),
    {
        let length = self.fields().len();
        if length == 0 {
            return ;
        }
        let t: isize = self.focus as isize + delta;
        let top: isize = (length - 1) as isize;
        let f: isize = if t < 0 {
            0
        } else if t > top {
            top
        } else {
            t
        };
        self.focus = f as usize;
        self.choice = None;
        self.routing = None;
        let sc: usize = if self.focus >= 8 {
            self.focus - 8
        } else {
            0
        };
        self.scroll = sc as u16;
    }

    /// Moves the focus to the next (or previous) field, through the two
    /// footer buttons, and around.
    pub fn tab_focus(&mut self, backwards: bool)
        ensures
            focus_tabbed(*old(self), *final(self), backwards),
    {
        let length = self.fields().len();
        if length == 0 {
            return ;
        }
        let (footer, focus, selected, change) = tab_step(
            self.footer,
            self.focus,
            self.footer_selected,
            length,
            backwards,
        );
        self.place_focus(footer, focus, selected, change);
    }

    /// Puts the focus at a place; a changed field moves the scroll position
    /// with it, and a move between fields closes the form's popups.
    #[verifier::rlimit(60)]
    fn place_focus(&mut self, footer: bool, focus: usize, selected: usize, change: u8)
        ensures
            final(self).footer == footer,
            final(self).focus == focus,
            final(self).footer_selected == selected,
            same_texts(*final(self), *old(self)),
            same_bools(*final(self), *old(self)),
            same_settings(*final(self), *old(self)),
            final(self).scroll == (if change >= 1 {
                scroll_for(focus as nat)
            } else {
                old(self).scroll
            }),
            final(self).choice == (if change == 2 {
                None
            } else {
                old(self).choice
            }),
            final(self).routing == (if change == 2 {
                None
            } else {
                old(self).routing
            }),
    {
        let sc: u16 = if change >= 1 {
            let v: usize = if focus >= 8 {
                focus - 8
            } else {
                0
            };
            v as u16
        } else {
            self.scroll
        };
        self.footer = footer;
        self.focus = focus;
        self.footer_selected = selected;
        self.scroll = sc;
        if change == 2 {
            self.choice = None;
            self.routing = None;
        }
    }

    /// Opens the choice list of the focused field, if it has one.
    pub fn open_choice(&mut self)
        ensures
            choice_opened(*old(self), *final(self)),
    {
        let field = match self.focused_field_exec() {
            Some(f) => f,
            None => {
                return ;
            },
        };
        let options = match ConnectionEditor::choice_options(field) {
            Some(o) => o,
            None => {
                return ;
            },
        };
        let selected = self.choice_selected(field, options.as_slice());
        proof {
            let o = choice_options_of(field)->0;
            assert(options@.map_values(|s: String| s@) =~= o);
        }
        self.choice = Some(ChoicePopup { field, options, selected });
    }

    /// Opens the routes popup for a routing field.
    pub fn open_routing(&mut self, field: EditorField)
        ensures
            routing_opened(*old(self), *final(self), field),
    {
        match field {
            EditorField::Ipv4Routing => {
                let routes = copy_strings(&self.ipv4_routes);
                self.routing = Some(RoutingPopup::new(RoutingFamily::Ipv4, routes));
            },
            EditorField::Ipv6Routing => {
                let routes = copy_strings(&self.ipv6_routes);
                self.routing = Some(RoutingPopup::new(RoutingFamily::Ipv6, routes));
            },
            _ => {},
        }
    }

    /// Takes the routes of a closed routes popup, and closes it.
    pub fn apply_routing(&mut self, popup: RoutingPopup)
        ensures
            routing_applied(*old(self), *final(self), popup),
    {
        match popup.family {
            RoutingFamily::Ipv4 => self.ipv4_routes = popup.routes,
            RoutingFamily::Ipv6 => self.ipv6_routes = popup.routes,
        }
        self.routing = None;
    }

    /// Checks the Wi-Fi fields: the trimmed SSID, an optional BSSID, the
    /// security type, or the first problem found.
    pub fn wifi_values(&self) -> (r: Result<(String, Option<MacAddr>, Security), String>)
        ensures
            match wifi_check(*self) {
                Ok((ssid, bssid, security)) => r matches Ok(v) && v.0@ == ssid && v.2 == security && (
                match bssid {
                    Some(b) => v.1 matches Some(m) && m@ == b,
                    None => v.1 is None,
                }),
                Err(m) => r matches Err(e) && e@ == m,
            },
    {
        let ssid_chars = trim_str(self.ssid.as_str());
        if ssid_chars.len() == 0 {
            return Err("SSID must not be empty".to_owned());
        }
        let bssid_chars = trim_str(self.bssid.as_str());
        let bssid = if bssid_chars.len() == 0 {
            None
        } else {
            let text = string_of(bssid_chars.as_slice());
            match MacAddr::parse(text.as_str()) {
                Some(m) => Some(m),
                None => {
                    return Err("BSSID must be aa:bb:cc:dd:ee:ff".to_owned());
                },
            }
        };
        match self.security {
            Security::Psk => {
                if !utf8_len_within(self.password.as_str(), 8, 63) {
                    return Err("WPA-PSK password must contain 8-63 bytes".to_owned());
                }
            },
            Security::Eap => {
                let identity = trim_str(self.identity.as_str());
                if identity.len() == 0 {
                    return Err("EAP identity must not be empty".to_owned());
                }
                if self.password.as_str().is_empty() {
                    return Err("EAP password must not be empty".to_owned());
                }
            },
            _ => {},
        }
        Ok((string_of(ssid_chars.as_slice()), bssid, self.security))
    }
}

/// No address field is one of the profile or Wi-Fi fields.
proof fn lemma_ip_fields_exclude(j: int)
    requires
        0 <= j < ip_fields().len(),
    ensures
        ip_fields()[j] != EditorField::ProfileName,
        ip_fields()[j] != EditorField::Device,
        ip_fields()[j] != EditorField::Password,
        ip_fields()[j] != EditorField::Identity,
{
}

/// The fields that a profile shows: profile name and device once each, the
/// password exactly for a secured Wi-Fi profile, the identity exactly for
/// an EAP one.
pub proof fn lemma_visible_fields(mode: EditorMode, security: Security)
    ensures
        editor_fields(mode, security)[0] == EditorField::ProfileName,
        editor_fields(mode, security)[1] == EditorField::Device,
        forall|i: int|
            0 <= i < editor_fields(mode, security).len() && i != 0 ==> #[trigger] editor_fields(
                mode,
                security,
            )[i] != EditorField::ProfileName,
        forall|i: int|
            0 <= i < editor_fields(mode, security).len() && i != 1 ==> #[trigger] editor_fields(
                mode,
                security,
            )[i] != EditorField::Device,
        editor_fields(mode, security).contains(EditorField::Password) <==> (mode == EditorMode::Wifi
            && security != Security::Open),
        editor_fields(mode, security).contains(EditorField::Identity) <==> (mode == EditorMode::Wifi
            && security == Security::Eap),
{
    let fs = editor_fields(mode, security);
    let a = seq![EditorField::ProfileName, EditorField::Device];
    let w = if mode == EditorMode::Wifi {
        seq![EditorField::Ssid, EditorField::Bssid, EditorField::Security] + (if security
            == Security::Eap {
            seq![EditorField::Identity]
        } else {
            Seq::empty()
        }) + (if security != Security::Open {
            seq![EditorField::Password]
        } else {
            Seq::empty()
        }) + seq![EditorField::Hidden]
    } else {
        Seq::empty()
    };
    let c = ip_fields();
    assert(fs == a + w + c);
    assert forall|i: int| 0 <= i < fs.len() implies {
        &&& (i != 0 ==> #[trigger] fs[i] != EditorField::ProfileName)
        &&& (i != 1 ==> fs[i] != EditorField::Device)
        &&& (fs[i] == EditorField::Password ==> mode == EditorMode::Wifi && security
            != Security::Open)
        &&& (fs[i] == EditorField::Identity ==> mode == EditorMode::Wifi && security
            == Security::Eap)
    } by {
        if i >= 2 + w.len() {
            assert(fs[i] == c[i - 2 - w.len()]);
            lemma_ip_fields_exclude(i - 2 - w.len());
        } else if i >= 2 {
            assert(fs[i] == w[i - 2]);
        }
    }
    if mode == EditorMode::Wifi && security != Security::Open {
        let k: int = if security == Security::Eap {
            6
        } else {
            5
        };
        assert(fs[k] == EditorField::Password);
    }
    if mode == EditorMode::Wifi && security == Security::Eap {
        assert(fs[5] == EditorField::Identity);
    }
}

/// Two focus positions show the same place: the same footer button, or
/// the same field.
pub open spec fn same_place(a: FocusPos, b: FocusPos) -> bool {
    a.footer == b.footer && (if a.footer {
        a.footer_selected == b.footer_selected
    } else {
        a.focus == b.focus
    })
}

/// Shift-Tab undoes Tab, and Tab undoes Shift-Tab: from any place of a
/// form, moving one way and then back returns to the same place.
pub proof fn lemma_tab_back_undoes_tab(len: nat, p: FocusPos)
    requires
        len > 0,
        p.focus < len,
        p.footer_selected <= 1,
    ensures
        same_place(tab_pos(len, tab_pos(len, p, false), true), p),
        same_place(tab_pos(len, tab_pos(len, p, true), false), p),
{
}

} // verus!
