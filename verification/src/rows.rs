//! The lists of the terminal client's activity screens: their rows, and how
//! the selection moves between the rows that can be acted on.
use vstd::prelude::*;

use crate::editor::{wrap_index, WifiTarget};
use crate::interface::{InterfaceInfo, InterfaceType};
use crate::known::copy_known;
use crate::mac::MacAddr;
use crate::network::{KnownNetwork, KnownNetworkState, KnownNetworkView, ScanResult};
use crate::security::{Security, security_name};
use crate::state::ConnectionState;
use crate::status::{SupplicantStatus, WpaState};
use crate::text::{append_str, copy_string, str_eq};

verus! {

/// What a row of the edit screen edits.
#[derive(Debug, Clone)]
pub enum EditTarget {
    Interface(String),
    Network(KnownNetwork),
}

/// A row of the edit screen.
#[derive(Debug, Clone)]
pub struct EditRow {
    pub label: String,
    pub target: Option<EditTarget>,
}

/// What a row of the activation screen activates.
#[derive(Debug, Clone)]
pub enum ActivationTarget {
    Interface(String),
    Wifi(WifiTarget),
}

/// A row of the activation screen.
#[derive(Debug, Clone)]
pub struct ActivationRow {
    pub label: String,
    pub signal: Option<i32>,
    pub target: Option<ActivationTarget>,
}

/// An edit target as plain values.
pub enum EditTargetView {
    Interface(Seq<char>),
    Network(KnownNetworkView),
}

/// An edit row as plain values.
pub struct EditRowView {
    pub label: Seq<char>,
    pub target: Option<EditTargetView>,
}

impl View for EditRow {
    type V = EditRowView;

    open spec fn view(&self) -> EditRowView {
        EditRowView {
            label: self.label@,
            target: match self.target {
                Some(EditTarget::Interface(n)) => Some(EditTargetView::Interface(n@)),
                Some(EditTarget::Network(k)) => Some(EditTargetView::Network(k@)),
                None => None,
            },
        }
    }
}

/// An activation target as plain values.
pub enum ActivationTargetView {
    Interface(Seq<char>),
    Wifi {
        iface: Seq<char>,
        ssid: Seq<char>,
        bssid: Option<MacAddr>,
        security: Security,
        hidden: bool,
    },
}

/// An activation row as plain values.
pub struct ActivationRowView {
    pub label: Seq<char>,
    pub signal: Option<i32>,
    pub target: Option<ActivationTargetView>,
}

impl View for ActivationRow {
    type V = ActivationRowView;

    open spec fn view(&self) -> ActivationRowView {
        ActivationRowView {
            label: self.label@,
            signal: self.signal,
            target: match self.target {
                Some(ActivationTarget::Interface(n)) => Some(ActivationTargetView::Interface(n@)),
                Some(ActivationTarget::Wifi(w)) => Some(
                    ActivationTargetView::Wifi {
                        iface: w.iface@,
                        ssid: w.ssid@,
                        bssid: w.bssid,
                        security: w.security,
                        hidden: w.hidden,
                    },
                ),
                None => None,
            },
        }
    }
}

/// The views of a list of edit rows.
pub open spec fn edit_views(rows: Seq<EditRow>) -> Seq<EditRowView> {
    rows.map_values(|r: EditRow| r@)
}

/// The views of a list of activation rows.
pub open spec fn activation_views(rows: Seq<ActivationRow>) -> Seq<ActivationRowView> {
    rows.map_values(|r: ActivationRow| r@)
}

/// The interfaces listed as wired: neither loopback nor WLAN.
pub open spec fn is_wired(i: InterfaceInfo) -> bool {
    i.interface_type != InterfaceType::Loopback && i.interface_type != InterfaceType::Wlan
}

/// The mark in front of an active entry.
pub open spec fn mark(active: bool) -> Seq<char> {
    if active {
        "* "@
    } else {
        Seq::empty()
    }
}

/// A row that only labels a group.
pub open spec fn edit_heading(label: Seq<char>) -> EditRowView {
    EditRowView { label, target: None }
}

/// The rows of the wired interfaces of the edit screen.
pub open spec fn wired_edit_rows(ifs: Seq<InterfaceInfo>) -> Seq<EditRowView>
    decreases ifs.len(),
{
    if ifs.len() == 0 {
        Seq::empty()
    } else {
        let rest = wired_edit_rows(ifs.drop_last());
        let i = ifs.last();
        if is_wired(i) {
            rest.push(
                EditRowView {
                    label: "  "@ + mark(i.state == ConnectionState::Connected) + i.name@,
                    target: Some(EditTargetView::Interface(i.name@)),
                },
            )
        } else {
            rest
        }
    }
}

/// The row of a saved network on the edit screen.
pub open spec fn known_edit_row(k: KnownNetwork) -> EditRowView {
    EditRowView {
        label: "  "@ + mark(k.state == KnownNetworkState::Current) + k.ssid@,
        target: Some(EditTargetView::Network(k@)),
    }
}

/// The rows of the edit screen, in order: the wired interfaces, the saved
/// Wi-Fi networks, and an empty Bluetooth group.
pub open spec fn edit_screen(ifs: Seq<InterfaceInfo>, ks: Seq<KnownNetwork>) -> Seq<EditRowView> {
    seq![edit_heading("Ethernet"@)] + wired_edit_rows(ifs) + seq![edit_heading("Wi-Fi"@)] + (if ks.len()
        == 0 {
        seq![edit_heading("  (no saved connections)"@)]
    } else {
        ks.map_values(|k: KnownNetwork| known_edit_row(k))
    }) + seq![edit_heading("Bluetooth"@), edit_heading("  (no saved connections)"@)]
}

fn push_heading(rows: &mut Vec<EditRow>, label: &str)
    ensures
        edit_views(final(rows)@) == edit_views(old(rows)@).push(edit_heading(label@)),
{
    let ghost prev = rows@;
    rows.push(EditRow { label: label.to_owned(), target: None });
    assert(edit_views(rows@) =~= edit_views(prev).push(edit_heading(label@)));
}

/// The text `"  "`, the mark of an active entry, and the name.
fn marked(active: bool, name: &String) -> (r: String)
    ensures
        r@ == "  "@ + mark(active) + name@,
{
    let mut s = String::new();
    append_str(&mut s, "  ");
    if active {
        append_str(&mut s, "* ");
    }
    append_str(&mut s, name.as_str());
    proof {
        reveal_strlit("");
        reveal_strlit("* ");
    }
    assert(s@ =~= "  "@ + mark(active) + name@);
    s
}

/// The rows of the edit screen.
pub fn edit_rows(interfaces: &Vec<InterfaceInfo>, known_networks: &Vec<KnownNetwork>) -> (r: Vec<
    EditRow,
>)
    ensures
        edit_views(r@) == edit_screen(interfaces@, known_networks@),
{
    let mut rows: Vec<EditRow> = Vec::new();
    push_heading(&mut rows, "Ethernet");
    let mut i: usize = 0;
    while i < interfaces.len()
        invariant
            0 <= i <= interfaces@.len(),
            edit_views(rows@) == seq![edit_heading("Ethernet"@)] + wired_edit_rows(
                interfaces@.take(i as int),
            ),
        decreases interfaces@.len() - i,
    {
        let info = &interfaces[i];
        let ghost prev = rows@;
        proof {
            assert(interfaces@.take(i as int + 1).drop_last() =~= interfaces@.take(i as int));
            assert(interfaces@.take(i as int + 1).last() == interfaces@[i as int]);
        }
        if info.interface_type != InterfaceType::Loopback && !info.is_wlan() {
            let label = marked(info.state.is_online(), &info.name);
            rows.push(EditRow { label, target: Some(EditTarget::Interface(copy_string(&info.name))) });
            proof {
                assert(edit_views(rows@) =~= edit_views(prev).push(
                    EditRowView {
                        label: "  "@ + mark(interfaces@[i as int].state == ConnectionState::Connected)
                            + interfaces@[i as int].name@,
                        target: Some(EditTargetView::Interface(interfaces@[i as int].name@)),
                    },
                ));
            }
        }
        proof {
            assert(edit_views(rows@) =~= seq![edit_heading("Ethernet"@)] + wired_edit_rows(
                interfaces@.take(i as int + 1),
            ));
        }
        i = i + 1;
    }
    proof {
        assert(interfaces@.take(interfaces@.len() as int) =~= interfaces@);
    }
    push_heading(&mut rows, "Wi-Fi");
    let ghost before_known = rows@;
    if known_networks.len() == 0 {
        push_heading(&mut rows, "  (no saved connections)");
    } else {
        let mut j: usize = 0;
        while j < known_networks.len()
            invariant
                0 <= j <= known_networks@.len(),
                rows@.len() == before_known.len() + j,
                forall|k: int| 0 <= k < before_known.len() ==> #[trigger] rows@[k] == before_known[k],
                forall|m: int|
                    before_known.len() <= m < rows@.len() ==> (#[trigger] rows@[m])@
                        == known_edit_row(known_networks@[m - before_known.len()]),
            decreases known_networks@.len() - j,
        {
            let k = &known_networks[j];
            let label = marked(k.is_current(), &k.ssid);
            rows.push(EditRow { label, target: Some(EditTarget::Network(copy_known(k))) });
            j = j + 1;
        }
        proof {
            assert(edit_views(rows@) =~= edit_views(before_known) + known_networks@.map_values(
                |k: KnownNetwork| known_edit_row(k),
            ));
        }
    }
    push_heading(&mut rows, "Bluetooth");
    push_heading(&mut rows, "  (no saved connections)");
    proof {
        assert(edit_views(rows@) =~= edit_screen(interfaces@, known_networks@));
    }
    rows
}

/// The WLAN interface that Wi-Fi actions go to: the one chosen, else the
/// first WLAN interface in the list.
pub open spec fn first_wlan_name(ifs: Seq<InterfaceInfo>) -> Option<Seq<char>>
    decreases ifs.len(),
{
    if ifs.len() == 0 {
        None
    } else if ifs[0].interface_type == InterfaceType::Wlan {
        Some(ifs[0].name@)
    } else {
        first_wlan_name(ifs.drop_first())
    }
}

proof fn lemma_first_wlan(ifs: Seq<InterfaceInfo>, k: int)
    requires
        0 <= k <= ifs.len(),
        forall|j: int| 0 <= j < k ==> (#[trigger] ifs[j]).interface_type != InterfaceType::Wlan,
        k < ifs.len() ==> ifs[k].interface_type == InterfaceType::Wlan,
    ensures
        first_wlan_name(ifs) == (if k < ifs.len() {
            Some(ifs[k].name@)
        } else {
            None::<Seq<char>>
        }),
    decreases ifs.len(),
{
    if ifs.len() > 0 && k > 0 {
        let u = ifs.drop_first();
        assert forall|j: int| 0 <= j < k - 1 implies (#[trigger] u[j]).interface_type
            != InterfaceType::Wlan by {
            assert(u[j] == ifs[j + 1]);
        }
        assert(ifs[0].interface_type != InterfaceType::Wlan);
        lemma_first_wlan(u, k - 1);
        if k < ifs.len() {
            assert(u[k - 1] == ifs[k]);
        }
    }
}

/// The name of a string option, as plain values.
pub open spec fn opt_text(o: Option<String>) -> Option<Seq<char>> {
    match o {
        Some(s) => Some(s@),
        None => None,
    }
}

/// The interface for Wi-Fi actions.
pub open spec fn wifi_iface_of(chosen: Option<String>, ifs: Seq<InterfaceInfo>) -> Option<Seq<char>> {
    match chosen {
        Some(s) => Some(s@),
        None => first_wlan_name(ifs),
    }
}

/// The interface for Wi-Fi actions: the chosen one, else the first WLAN
/// interface.
pub fn first_wifi(chosen: &Option<String>, interfaces: &Vec<InterfaceInfo>) -> (r: Option<String>)
    ensures
        opt_text(r) == wifi_iface_of(*chosen, interfaces@),
{
    match chosen {
        Some(s) => {
            return Some(copy_string(s));
        },
        None => {},
    }
    let mut i: usize = 0;
    while i < interfaces.len()
        invariant
            0 <= i <= interfaces@.len(),
            chosen.is_none(),
            forall|j: int|
                0 <= j < i ==> (#[trigger] interfaces@[j]).interface_type != InterfaceType::Wlan,
        decreases interfaces@.len() - i,
    {
        if interfaces[i].is_wlan() {
            proof {
                lemma_first_wlan(interfaces@, i as int);
            }
            return Some(copy_string(&interfaces[i].name));
        }
        i = i + 1;
    }
    proof {
        lemma_first_wlan(interfaces@, interfaces@.len() as int);
    }
    None
}

/// A row of the activation screen that only labels a group.
pub open spec fn activation_heading(label: Seq<char>) -> ActivationRowView {
    ActivationRowView { label, signal: None, target: None }
}

/// The rows of the wired interfaces of the activation screen.
pub open spec fn wired_activation_rows(ifs: Seq<InterfaceInfo>) -> Seq<ActivationRowView>
    decreases ifs.len(),
{
    if ifs.len() == 0 {
        Seq::empty()
    } else {
        let rest = wired_activation_rows(ifs.drop_last());
        let i = ifs.last();
        if is_wired(i) {
            rest.push(
                ActivationRowView {
                    label: "  "@ + mark(i.state == ConnectionState::Connected)
                        + "Wired connection 1 ("@ + i.name@ + ")"@,
                    signal: None,
                    target: Some(ActivationTargetView::Interface(i.name@)),
                },
            )
        } else {
            rest
        }
    }
}

/// The SSID of the network wpa_supplicant reports, if any.
pub open spec fn current_ssid(status: Option<SupplicantStatus>) -> Option<Seq<char>> {
    match status {
        Some(st) => opt_text(st.ssid),
        None => None,
    }
}

/// The row of a network found by a scan.
pub open spec fn scan_row(n: ScanResult, current: Option<Seq<char>>, iface: Seq<char>) -> ActivationRowView {
    ActivationRowView {
        label: "  "@ + mark(current == Some(n.ssid@)) + n.ssid@ + "  "@ + security_name(n.security),
        signal: Some(n.signal),
        target: Some(
            ActivationTargetView::Wifi {
                iface,
                ssid: n.ssid@,
                bssid: Some(n.bssid),
                security: n.security,
                hidden: false,
            },
        ),
    }
}

/// The rows of the activation screen, in order: the wired interfaces, the
/// networks of the last scan (when there is an interface to reach them),
/// and an empty Bluetooth group.
pub open spec fn activation_screen(
    ifs: Seq<InterfaceInfo>,
    scans: Seq<ScanResult>,
    chosen: Option<String>,
    status: Option<SupplicantStatus>,
) -> Seq<ActivationRowView> {
    seq![activation_heading("Ethernet"@)] + wired_activation_rows(ifs) + seq![
        activation_heading("Wi-Fi"@),
    ] + (if scans.len() == 0 {
        seq![activation_heading("  (no wireless networks found)"@)]
    } else {
        match wifi_iface_of(chosen, ifs) {
            Some(w) => scans.map_values(|n: ScanResult| scan_row(n, current_ssid(status), w)),
            None => Seq::empty(),
        }
    }) + seq![activation_heading("Bluetooth"@), activation_heading("  (no Bluetooth connections)"@)]
}

fn push_activation_heading(rows: &mut Vec<ActivationRow>, label: &str)
    ensures
        activation_views(final(rows)@) == activation_views(old(rows)@).push(
            activation_heading(label@),
        ),
{
    let ghost prev = rows@;
    rows.push(ActivationRow { label: label.to_owned(), signal: None, target: None });
    assert(activation_views(rows@) =~= activation_views(prev).push(activation_heading(label@)));
}

/// Whether a scanned network is the one wpa_supplicant reports.
pub fn is_current_wifi(status: &Option<SupplicantStatus>, network: &ScanResult) -> (r: bool)
    ensures
        r == (current_ssid(*status) == Some(network.ssid@)),
{
    match status {
        Some(st) => match &st.ssid {
            Some(ssid) => str_eq(ssid.as_str(), network.ssid.as_str()),
            None => false,
        },
        None => false,
    }
}

/// Whether a Wi-Fi target is the network wpa_supplicant has completed
/// connecting to.
pub fn is_current_wifi_target(status: &Option<SupplicantStatus>, target: &WifiTarget) -> (r: bool)
    ensures
        r == (match *status {
            Some(st) => st.state == Some(WpaState::Completed) && opt_text(st.ssid) == Some(
                target.ssid@,
            ),
            None => false,
        }),
{
    match status {
        Some(st) => {
            let completed = match st.state {
                Some(WpaState::Completed) => true,
                _ => false,
            };
            completed && match &st.ssid {
                Some(ssid) => str_eq(ssid.as_str(), target.ssid.as_str()),
                None => false,
            }
        },
        None => false,
    }
}

/// `"  "`, the mark of an active entry, the SSID, two spaces and the
/// security's name.
fn scan_label(active: bool, network: &ScanResult) -> (r: String)
    ensures
        r@ == "  "@ + mark(active) + network.ssid@ + "  "@ + security_name(network.security),
{
    let mut s = marked(active, &network.ssid);
    append_str(&mut s, "  ");
    let sec = network.security.to_string();
    append_str(&mut s, sec.as_str());
    s
}

/// `"  "`, the mark of an active entry, and `Wired connection 1 (name)`.
fn wired_label(active: bool, name: &String) -> (r: String)
    ensures
        r@ == "  "@ + mark(active) + "Wired connection 1 ("@ + name@ + ")"@,
{
    let mut s = String::new();
    append_str(&mut s, "  ");
    if active {
        append_str(&mut s, "* ");
    }
    append_str(&mut s, "Wired connection 1 (");
    append_str(&mut s, name.as_str());
    append_str(&mut s, ")");
    proof {
        reveal_strlit("* ");
    }
    assert(s@ =~= "  "@ + mark(active) + "Wired connection 1 ("@ + name@ + ")"@);
    s
}

/// The rows of the activation screen. `wifi_iface` is the WLAN interface
/// chosen for Wi-Fi actions, if any; `status` is what wpa_supplicant last
/// reported.
pub fn activation_rows(
    interfaces: &Vec<InterfaceInfo>,
    scan_results: &Vec<ScanResult>,
    wifi_iface: &Option<String>,
    status: &Option<SupplicantStatus>,
) -> (r: Vec<ActivationRow>)
    ensures
        activation_views(r@) == activation_screen(
            interfaces@,
            scan_results@,
            *wifi_iface,
            *status,
        ),
{
    let mut rows: Vec<ActivationRow> = Vec::new();
    push_activation_heading(&mut rows, "Ethernet");
    let mut i: usize = 0;
    while i < interfaces.len()
        invariant
            0 <= i <= interfaces@.len(),
            activation_views(rows@) == seq![activation_heading("Ethernet"@)]
                + wired_activation_rows(interfaces@.take(i as int)),
        decreases interfaces@.len() - i,
    {
        let info = &interfaces[i];
        let ghost prev = rows@;
        proof {
            assert(interfaces@.take(i as int + 1).drop_last() =~= interfaces@.take(i as int));
            assert(interfaces@.take(i as int + 1).last() == interfaces@[i as int]);
        }
        if info.interface_type != InterfaceType::Loopback && !info.is_wlan() {
            let label = wired_label(info.state.is_online(), &info.name);
            rows.push(
                ActivationRow {
                    label,
                    signal: None,
                    target: Some(ActivationTarget::Interface(copy_string(&info.name))),
                },
            );
            proof {
                let n = interfaces@[i as int];
                assert(activation_views(rows@) =~= activation_views(prev).push(
                    ActivationRowView {
                        label: "  "@ + mark(n.state == ConnectionState::Connected)
                            + "Wired connection 1 ("@ + n.name@ + ")"@,
                        signal: None,
                        target: Some(ActivationTargetView::Interface(n.name@)),
                    },
                ));
            }
        }
        proof {
            assert(activation_views(rows@) =~= seq![activation_heading("Ethernet"@)]
                + wired_activation_rows(interfaces@.take(i as int + 1)));
        }
        i = i + 1;
    }
    proof {
        assert(interfaces@.take(interfaces@.len() as int) =~= interfaces@);
    }
    push_activation_heading(&mut rows, "Wi-Fi");
    let ghost before_scans = rows@;
    if scan_results.len() == 0 {
        push_activation_heading(&mut rows, "  (no wireless networks found)");
    } else {
        let iface = first_wifi(wifi_iface, interfaces);
        match iface {
            Some(w) => {
                let mut j: usize = 0;
                while j < scan_results.len()
                    invariant
                        0 <= j <= scan_results@.len(),
                        rows@.len() == before_scans.len() + j,
                        forall|k: int|
                            0 <= k < before_scans.len() ==> #[trigger] rows@[k] == before_scans[k],
                        forall|m: int|
                            before_scans.len() <= m < rows@.len() ==> (#[trigger] rows@[m])@
                                == scan_row(
                                scan_results@[m - before_scans.len()],
                                current_ssid(*status),
                                w@,
                            ),
                    decreases scan_results@.len() - j,
                {
                    let n = &scan_results[j];
                    let label = scan_label(is_current_wifi(status, n), n);
                    let target = WifiTarget {
                        iface: copy_string(&w),
                        ssid: copy_string(&n.ssid),
                        bssid: Some(n.bssid),
                        security: n.security,
                        hidden: false,
                    };
                    rows.push(
                        ActivationRow {
                            label,
                            signal: Some(n.signal),
                            target: Some(ActivationTarget::Wifi(target)),
                        },
                    );
                    j = j + 1;
                }
                proof {
                    assert(activation_views(rows@) =~= activation_views(before_scans)
                        + scan_results@.map_values(
                        |n: ScanResult| scan_row(n, current_ssid(*status), w@),
                    ));
                }
            },
            None => {
                assert(activation_views(rows@) =~= activation_views(before_scans) + Seq::<
                    ActivationRowView,
                >::empty());
            },
        }
    }
    push_activation_heading(&mut rows, "Bluetooth");
    push_activation_heading(&mut rows, "  (no Bluetooth connections)");
    proof {
        assert(activation_views(rows@) =~= activation_screen(
            interfaces@,
            scan_results@,
            *wifi_iface,
            *status,
        ));
    }
    rows
}

/// Whether an interface of that name is up or connected.
pub open spec fn interface_active(ifs: Seq<InterfaceInfo>, name: Seq<char>) -> bool {
    exists|k: int|
        0 <= k < ifs.len() && (#[trigger] ifs[k]).name@ == name && (ifs[k].state
            == ConnectionState::Connected || ifs[k].state == ConnectionState::Up)
}

/// Whether wpa_supplicant reports a completed connection to that SSID.
pub open spec fn wifi_connected_to(status: Option<SupplicantStatus>, ssid: Seq<char>) -> bool {
    match status {
        Some(st) => st.state == Some(WpaState::Completed) && opt_text(st.ssid) == Some(ssid),
        None => false,
    }
}

/// Whether acting on a target switches it off.
pub open spec fn target_deactivates(
    t: Option<ActivationTargetView>,
    ifs: Seq<InterfaceInfo>,
    status: Option<SupplicantStatus>,
) -> bool {
    match t {
        Some(ActivationTargetView::Interface(name)) => interface_active(ifs, name),
        Some(ActivationTargetView::Wifi { ssid, .. }) => wifi_connected_to(status, ssid),
        None => false,
    }
}

/// The label of the activation button for the selected row.
pub open spec fn activation_button_text(
    rows: Seq<ActivationRowView>,
    selected: int,
    ifs: Seq<InterfaceInfo>,
    status: Option<SupplicantStatus>,
) -> Seq<char> {
    if 0 <= selected < rows.len() && target_deactivates(rows[selected].target, ifs, status) {
        "Deactivate"@
    } else {
        "Activate"@
    }
}

/// Whether some interface of that name is up or connected.
pub fn any_interface_active(interfaces: &Vec<InterfaceInfo>, name: &String) -> (r: bool)
    ensures
        r == interface_active(interfaces@, name@),
{
    let mut i: usize = 0;
    while i < interfaces.len()
        invariant
            0 <= i <= interfaces@.len(),
            forall|k: int|
                0 <= k < i ==> !((#[trigger] interfaces@[k]).name@ == name@ && (interfaces@[k].state
                    == ConnectionState::Connected || interfaces@[k].state == ConnectionState::Up)),
        decreases interfaces@.len() - i,
    {
        let info = &interfaces[i];
        let active = match info.state {
            ConnectionState::Connected | ConnectionState::Up => true,
            _ => false,
        };
        if active && str_eq(info.name.as_str(), name.as_str()) {
            assert(interfaces@[i as int] == *info);
            return true;
        }
        i = i + 1;
    }
    false
}

/// The label of the activation button: `Deactivate` when the selected row
/// is an interface that is up or connected, or the network wpa_supplicant
/// is connected to; `Activate` otherwise.
pub fn activation_button_label(
    rows: &Vec<ActivationRow>,
    selected: usize,
    interfaces: &Vec<InterfaceInfo>,
    status: &Option<SupplicantStatus>,
) -> (r: &'static str)
    ensures
        r@ == activation_button_text(activation_views(rows@), selected as int, interfaces@, *status),
{
    proof {
        reveal_strlit("Deactivate");
        reveal_strlit("Activate");
    }
    if selected >= rows.len() {
        return "Activate";
    }
    let row = &rows[selected];
    assert(activation_views(rows@)[selected as int] == row@);
    let off = match &row.target {
        Some(ActivationTarget::Interface(name)) => any_interface_active(interfaces, name),
        Some(ActivationTarget::Wifi(target)) => is_current_wifi_target(status, target),
        None => false,
    };
    if off {
        "Deactivate"
    } else {
        "Activate"
    }
}

/// What acting on the selected row of the activation screen does.
#[derive(Debug, Clone)]
pub enum ActivationStep {
    /// The selection has no target.
    Nothing,
    /// Switch the interface of that name on or off.
    Interface(String),
    /// Disconnect that WLAN interface.
    Disconnect(String),
    /// Connect to the network.
    Connect(WifiTarget),
}

/// What acting on the selected row does: an interface row toggles the
/// interface; the network wpa_supplicant is connected to is disconnected;
/// another network is connected to.
pub fn activation_step(rows: &Vec<ActivationRow>, selected: usize, status: &Option<SupplicantStatus>) -> (r: ActivationStep)
    ensures
        match r {
            ActivationStep::Nothing => selected >= rows@.len() || rows@[selected as int].target is None,
            ActivationStep::Interface(name) => selected < rows@.len() && rows@[selected as int]@.target
                == Some(ActivationTargetView::Interface(name@)),
            ActivationStep::Disconnect(iface) => selected < rows@.len() && (match rows@[selected as int]@.target {
                Some(ActivationTargetView::Wifi { iface: i, ssid, .. }) => i == iface@
                    && wifi_connected_to(*status, ssid),
                _ => false,
            }),
            ActivationStep::Connect(t) => selected < rows@.len() && (match rows@[selected as int]@.target {
                Some(ActivationTargetView::Wifi { iface, ssid, bssid, security, hidden }) => iface
                    == t.iface@ && ssid == t.ssid@ && bssid == t.bssid && security == t.security
                    && hidden == t.hidden && !wifi_connected_to(*status, ssid),
                _ => false,
            }),
        },
{
    if selected >= rows.len() {
        return ActivationStep::Nothing;
    }
    match &rows[selected].target {
        Some(ActivationTarget::Interface(name)) => ActivationStep::Interface(copy_string(name)),
        Some(ActivationTarget::Wifi(target)) => {
            if is_current_wifi_target(status, target) {
                ActivationStep::Disconnect(copy_string(&target.iface))
            } else {
                ActivationStep::Connect(
                    WifiTarget {
                        iface: copy_string(&target.iface),
                        ssid: copy_string(&target.ssid),
                        bssid: target.bssid,
                        security: target.security,
                        hidden: target.hidden,
                    },
                )
            }
        },
        None => ActivationStep::Nothing,
    }
}

/// What switching an interface on or off comes to.
#[derive(Debug, Clone, PartialEq, Eq)]
pub enum InterfaceToggle {
    /// No interface has that name.
    Missing,
    /// The loopback interface is never switched.
    Loopback,
    /// Set the operational state: up when the interface is neither up nor
    /// connected, down otherwise.
    SetUp(bool),
}

/// The index of the first interface of that name.
pub open spec fn first_named(ifs: Seq<InterfaceInfo>, name: Seq<char>) -> Option<nat>
    decreases ifs.len(),
{
    if ifs.len() == 0 {
        None
    } else if ifs[0].name@ == name {
        Some(0)
    } else {
        match first_named(ifs.drop_first(), name) {
            Some(k) => Some(k + 1),
            None => None,
        }
    }
}

proof fn lemma_first_named(ifs: Seq<InterfaceInfo>, name: Seq<char>, k: int)
    requires
        0 <= k <= ifs.len(),
        forall|j: int| 0 <= j < k ==> (#[trigger] ifs[j]).name@ != name,
        k < ifs.len() ==> ifs[k].name@ == name,
    ensures
        first_named(ifs, name) == (if k < ifs.len() {
            Some(k as nat)
        } else {
            None::<nat>
        }),
    decreases ifs.len(),
{
    if ifs.len() > 0 && k > 0 {
        let u = ifs.drop_first();
        assert forall|j: int| 0 <= j < k - 1 implies (#[trigger] u[j]).name@ != name by {
            assert(u[j] == ifs[j + 1]);
        }
        assert(ifs[0].name@ != name);
        lemma_first_named(u, name, k - 1);
    }
}

/// The index of the first interface of that name.
pub fn find_named(interfaces: &Vec<InterfaceInfo>, name: &String) -> (r: Option<usize>)
    ensures
        match first_named(interfaces@, name@) {
            Some(k) => r matches Some(i) && i as nat == k,
            None => r is None,
        },
{
    let mut i: usize = 0;
    while i < interfaces.len()
        invariant
            0 <= i <= interfaces@.len(),
            forall|j: int| 0 <= j < i ==> (#[trigger] interfaces@[j]).name@ != name@,
        decreases interfaces@.len() - i,
    {
        if str_eq(interfaces[i].name.as_str(), name.as_str()) {
            proof {
                lemma_first_named(interfaces@, name@, i as int);
            }
            return Some(i);
        }
        i = i + 1;
    }
    proof {
        lemma_first_named(interfaces@, name@, interfaces@.len() as int);
    }
    None
}

/// What switching an interface comes to, decided on the first interface of
/// that name.
pub open spec fn toggle_of(ifs: Seq<InterfaceInfo>, name: Seq<char>) -> InterfaceToggle {
    match first_named(ifs, name) {
        None => InterfaceToggle::Missing,
        Some(k) => if ifs[k as int].interface_type == InterfaceType::Loopback {
            InterfaceToggle::Loopback
        } else {
            InterfaceToggle::SetUp(
                !(ifs[k as int].state == ConnectionState::Connected || ifs[k as int].state
                    == ConnectionState::Up),
            )
        },
    }
}

/// Decides what switching the interface of that name does.
pub fn interface_toggle(interfaces: &Vec<InterfaceInfo>, name: &String) -> (r: InterfaceToggle)
    ensures
        r == toggle_of(interfaces@, name@),
{
    let mut i: usize = 0;
    while i < interfaces.len()
        invariant
            0 <= i <= interfaces@.len(),
            forall|j: int| 0 <= j < i ==> (#[trigger] interfaces@[j]).name@ != name@,
        decreases interfaces@.len() - i,
    {
        let info = &interfaces[i];
        if str_eq(info.name.as_str(), name.as_str()) {
            proof {
                lemma_first_named(interfaces@, name@, i as int);
            }
            if info.interface_type == InterfaceType::Loopback {
                return InterfaceToggle::Loopback;
            }
            let active = match info.state {
                ConnectionState::Connected | ConnectionState::Up => true,
                _ => false,
            };
            return InterfaceToggle::SetUp(!active);
        }
        i = i + 1;
    }
    proof {
        lemma_first_named(interfaces@, name@, interfaces@.len() as int);
    }
    InterfaceToggle::Missing
}

/// How connecting to a network starts.
#[derive(Debug, Clone, Copy, PartialEq, Eq, Structural)]
pub enum WifiStart {
    /// Ask for the password first.
    AskPassword,
    /// Add the network to wpa_supplicant's list, then connect.
    AddThenConnect,
    /// The network is known: connect.
    Connect,
}

/// Whether a saved network stands for the target: same SSID, and no BSSID
/// or the target's.
pub open spec fn known_matches(k: KnownNetwork, t: WifiTarget) -> bool {
    k.ssid@ == t.ssid@ && (k.bssid is None || k.bssid == t.bssid)
}

/// Whether a saved network stands for the target.
pub fn has_known(known_networks: &Vec<KnownNetwork>, target: &WifiTarget) -> (r: bool)
    ensures
        r == exists|k: int|
            0 <= k < known_networks@.len() && known_matches(#[trigger] known_networks@[k], *target),
{
    let mut i: usize = 0;
    while i < known_networks.len()
        invariant
            0 <= i <= known_networks@.len(),
            forall|k: int| 0 <= k < i ==> !known_matches(#[trigger] known_networks@[k], *target),
        decreases known_networks@.len() - i,
    {
        let n = &known_networks[i];
        let bssid_ok = match n.bssid {
            None => true,
            Some(b) => match target.bssid {
                Some(tb) => b == tb,
                None => false,
            },
        };
        if bssid_ok && str_eq(n.ssid.as_str(), target.ssid.as_str()) {
            assert(known_matches(known_networks@[i as int], *target));
            return true;
        }
        i = i + 1;
    }
    false
}

/// Decides how connecting to `target` starts: a network that is not saved
/// and not open needs a password, unless one was given; a network that is
/// not saved is added first.
pub fn wifi_start(known_networks: &Vec<KnownNetwork>, target: &WifiTarget, has_password: bool) -> (r: WifiStart)
    ensures
        ({
            let known = exists|k: int|
                0 <= k < known_networks@.len() && known_matches(
                    #[trigger] known_networks@[k],
                    *target,
                );
            r == (if !has_password && !known && target.security != Security::Open {
                WifiStart::AskPassword
            } else if !known {
                WifiStart::AddThenConnect
            } else {
                WifiStart::Connect
            })
        }),
{
    let known = has_known(known_networks, target);
    if !has_password && !known && target.security != Security::Open {
        WifiStart::AskPassword
    } else if !known {
        WifiStart::AddThenConnect
    } else {
        WifiStart::Connect
    }
}

/// The index of the first row that can be acted on.
pub open spec fn first_target_of(t: Seq<bool>) -> Option<nat>
    decreases t.len(),
{
    if t.len() == 0 {
        None
    } else if t[0] {
        Some(0)
    } else {
        match first_target_of(t.drop_first()) {
            Some(k) => Some(k + 1),
            None => None,
        }
    }
}

proof fn lemma_first_target(t: Seq<bool>, k: int)
    requires
        0 <= k <= t.len(),
        forall|j: int| 0 <= j < k ==> !#[trigger] t[j],
        k < t.len() ==> t[k],
    ensures
        first_target_of(t) == (if k < t.len() {
            Some(k as nat)
        } else {
            None::<nat>
        }),
    decreases t.len(),
{
    if t.len() > 0 && k > 0 {
        let u = t.drop_first();
        assert forall|j: int| 0 <= j < k - 1 implies !#[trigger] u[j] by {
            assert(u[j] == t[j + 1]);
        }
        assert(!t[0]);
        lemma_first_target(u, k - 1);
    }
}

/// The first row that can be acted on.
pub fn first_target(has_target: &Vec<bool>) -> (r: Option<usize>)
    ensures
        match first_target_of(has_target@) {
            Some(k) => r == Some(k as usize),
            None => r is None,
        },
{
    let mut i: usize = 0;
    while i < has_target.len()
        invariant
            0 <= i <= has_target@.len(),
            forall|j: int| 0 <= j < i ==> !#[trigger] has_target@[j],
        decreases has_target@.len() - i,
    {
        if has_target[i] {
            proof {
                lemma_first_target(has_target@, i as int);
            }
            return Some(i);
        }
        i = i + 1;
    }
    proof {
        lemma_first_target(has_target@, has_target@.len() as int);
    }
    None
}

/// The row reached after `steps` moves of `delta` from `start`, wrapping.
pub open spec fn step_row(start: int, delta: int, steps: int, len: int) -> int {
    (start + delta * steps) % len
}

/// Moves the selection by `delta`, wrapping around, until it reaches a row
/// that can be acted on; stays where it is when none is reached within one
/// round.
pub fn next_target(has_target: &Vec<bool>, selected: usize, delta: isize) -> (r: usize)
    requires
        has_target@.len() <= isize::MAX,
        selected <= isize::MAX,
        isize::MIN <= selected + delta <= isize::MAX,
        has_target@.len() - 1 + delta <= isize::MAX,
    ensures
        (exists|s: int|
            1 <= s <= has_target@.len() && #[trigger] has_target@[step_row(
                selected as int,
                delta as int,
                s,
                has_target@.len() as int,
            )]) ==> {
            let s = choose|s: int|
                1 <= s <= has_target@.len() && #[trigger] has_target@[step_row(
                    selected as int,
                    delta as int,
                    s,
                    has_target@.len() as int,
                )] && forall|t: int|
                    1 <= t < s ==> !#[trigger] has_target@[step_row(
                        selected as int,
                        delta as int,
                        t,
                        has_target@.len() as int,
                    )];
            r == step_row(selected as int, delta as int, s, has_target@.len() as int)
        },
        !(exists|s: int|
            1 <= s <= has_target@.len() && #[trigger] has_target@[step_row(
                selected as int,
                delta as int,
                s,
                has_target@.len() as int,
            )]) ==> r == selected,
{
    let n = has_target.len();
    if n == 0 {
        return selected;
    }
    let ghost len = n as int;
    let mut index: usize = selected % n;
    proof {
        assert(index == step_row(selected as int, delta as int, 0, len)) by (nonlinear_arith)
            requires
                index == selected % n,
                len == n,
        ;
    }
    let mut steps: usize = 0;
    while steps < n
        invariant
            n == has_target@.len(),
            len == n as int,
            0 < n <= isize::MAX,
            n - 1 + delta <= isize::MAX,
            0 <= steps <= n,
            index < n,
            index == step_row(selected as int, delta as int, steps as int, len),
            forall|t: int|
                1 <= t <= steps ==> !#[trigger] has_target@[step_row(
                    selected as int,
                    delta as int,
                    t,
                    len,
                )],
        decreases n - steps,
    {
        let next = wrap_index(index, delta, n);
        proof {
            lemma_step_row_next(selected as int, delta as int, steps as int, len, index as int);
        }
        index = next;
        steps = steps + 1;
        if has_target[index] {
            proof {
                let s = steps as int;
                assert(has_target@[step_row(selected as int, delta as int, s, len)]);
                let c = choose|c: int|
                    1 <= c <= len && #[trigger] has_target@[step_row(
                        selected as int,
                        delta as int,
                        c,
                        len,
                    )] && forall|t: int|
                        1 <= t < c ==> !#[trigger] has_target@[step_row(
                            selected as int,
                            delta as int,
                            t,
                            len,
                        )];
                if c < s {
                    assert(!has_target@[step_row(selected as int, delta as int, c, len)]);
                }
                if s < c {
                    assert(!has_target@[step_row(selected as int, delta as int, s, len)]);
                }
            }
            return index;
        }
    }
    selected
}

proof fn lemma_step_row_next(start: int, delta: int, steps: int, len: int, index: int)
    requires
        len > 0,
        index == step_row(start, delta, steps, len),
    ensures
        (index + delta) % len == step_row(start, delta, steps + 1, len),
{
    vstd::arithmetic::div_mod::lemma_add_mod_noop_right(delta, start + delta * steps, len);
    vstd::arithmetic::mul::lemma_mul_is_distributive_add(delta, steps, 1);
    assert(delta + (start + delta * steps) == start + delta * (steps + 1));
    assert(index + delta == delta + (start + delta * steps) % len);
}

/// The main menu has four entries; the selection stops at either end.
pub fn move_main(selected: usize, delta: isize) -> (r: usize)
    requires
        selected <= isize::MAX,
        isize::MIN <= selected + delta <= isize::MAX,
    ensures
        r == (if selected + delta < 0 {
            0
        } else if selected + delta > 3 {
            3
        } else {
            selected + delta
        }),
{
    let t: isize = selected as isize + delta;
    if t < 0 {
        0
    } else if t > 3 {
        3
    } else {
        t as usize
    }
}

} // verus!
