use libnetwork_daemon::editor::{
    ConnectionEditor, EditorField, NewConnectionPopup, NewFocus, PasswordFocus, PasswordPopup,
    RoutingFocus, WifiTarget,
};
use libnetwork_daemon::interface::{InterfaceInfo, InterfaceType};
use libnetwork_daemon::keys::{
    activation_key, edit_key, hostname_key, main_choice, main_key, message_key_closes,
    connecting_key_closes, ActivationAction, EditAction, EditorOutcome, HostnameAction, Key,
    MainAction, MainChoice, NewOutcome, PasswordOutcome,
};
use libnetwork_daemon::security::Security;
use libnetwork_daemon::state::ConnectionState;

fn ethernet(name: &str, state: ConnectionState) -> InterfaceInfo {
    let mut info = InterfaceInfo::new(1, name);
    info.interface_type = InterfaceType::Ethernet;
    info.state = state;
    info
}

#[test]
fn tab_cycles_list_and_button_regions_without_arrow_aliases() {
    let (sel, focus, _) = main_key(0, 0, Key::Tab);
    assert_eq!(focus, 1);
    let (_, focus, _) = main_key(sel, focus, Key::Tab);
    assert_eq!(focus, 0);

    let mut edit_focus = 0;
    for expected in [1, 2, 3, 4, 0] {
        edit_focus = edit_key(edit_focus, Key::Tab).0;
        assert_eq!(edit_focus, expected);
    }
    edit_focus = edit_key(edit_focus, Key::Right).0;
    assert_eq!(edit_focus, 0);
    edit_focus = edit_key(edit_focus, Key::Tab).0;
    edit_focus = edit_key(edit_focus, Key::Up).0;
    assert_eq!(edit_focus, 4);

    let mut activation_focus = 0;
    for expected in [1, 2, 0] {
        activation_focus = activation_key(activation_focus, Key::Tab).0;
        assert_eq!(activation_focus, expected);
    }
    activation_focus = activation_key(activation_focus, Key::Left).0;
    assert_eq!(activation_focus, 0);

    let mut editor = ConnectionEditor::from_interface(&ethernet("eth0", ConnectionState::Disconnected));
    let last_field = editor.fields().len() - 1;
    for _ in 0..last_field {
        editor.handle_key(Key::Tab);
    }
    assert_eq!(editor.focus, last_field);
    assert!(!editor.footer);
    editor.handle_key(Key::Tab);
    assert!(editor.footer);
    assert_eq!(editor.footer_selected, 0);
    editor.handle_key(Key::Tab);
    editor.handle_key(Key::Tab);
    assert!(!editor.footer);
    assert_eq!(editor.focus, 0);
}

#[test]
fn editor_scroll_follows_focus_in_both_directions() {
    let mut editor = ConnectionEditor::from_interface(&ethernet(
        "eth0",
        ConnectionState::Disconnected,
    ));
    for _ in 0..16 {
        editor.move_focus(1);
    }
    let down_scroll = editor.scroll;
    assert!(down_scroll > 0);

    editor.move_focus(-1);
    assert!(editor.scroll < down_scroll);

    editor.move_focus(-100);
    assert_eq!(editor.focus, 0);
    assert_eq!(editor.scroll, 0);
}

#[test]
fn main_menu_keys() {
    assert_eq!(main_key(0, 0, Key::Down), (1, 0, MainAction::Stay));
    assert_eq!(main_key(3, 0, Key::Down), (3, 0, MainAction::Stay));
    assert_eq!(main_key(0, 0, Key::Up), (0, 0, MainAction::Stay));
    assert_eq!(main_key(2, 1, Key::Up), (2, 1, MainAction::Stay));
    assert_eq!(main_key(2, 1, Key::Enter), (2, 1, MainAction::Open));
    assert_eq!(main_key(2, 0, Key::Char('q')), (2, 0, MainAction::Quit));
    assert_eq!(main_key(2, 1, Key::Esc), (2, 1, MainAction::Quit));
    assert_eq!(main_choice(0), MainChoice::EditConnections);
    assert_eq!(main_choice(1), MainChoice::ActivateConnections);
    assert_eq!(main_choice(2), MainChoice::Hostname);
    assert_eq!(main_choice(3), MainChoice::Quit);
    assert_eq!(main_choice(7), MainChoice::Nothing);
}

#[test]
fn edit_and_activation_keys() {
    assert_eq!(edit_key(0, Key::Up), (0, EditAction::Move(-1)));
    assert_eq!(edit_key(0, Key::Char('e')), (0, EditAction::Edit));
    assert_eq!(edit_key(0, Key::Char('n')), (0, EditAction::Add));
    assert_eq!(edit_key(0, Key::Char('d')), (0, EditAction::Delete));
    assert_eq!(edit_key(0, Key::BackTab), (4, EditAction::Stay));
    assert_eq!(edit_key(4, Key::Down), (1, EditAction::Stay));
    assert_eq!(edit_key(1, Key::BackTab), (0, EditAction::Stay));
    assert_eq!(edit_key(3, Key::Enter), (3, EditAction::Delete));
    assert_eq!(edit_key(4, Key::Enter), (4, EditAction::Back));
    assert_eq!(edit_key(2, Key::Esc), (2, EditAction::Back));
    assert_eq!(activation_key(0, Key::Char('r')), (0, ActivationAction::Refresh));
    assert_eq!(activation_key(0, Key::Down), (0, ActivationAction::Move(1)));
    assert_eq!(activation_key(1, Key::Up), (2, ActivationAction::Stay));
    assert_eq!(activation_key(1, Key::Enter), (1, ActivationAction::Activate));
    assert_eq!(activation_key(2, Key::Enter), (2, ActivationAction::Back));
    assert_eq!(activation_key(0, Key::BackTab), (2, ActivationAction::Stay));
}

#[test]
fn hostname_keys_edit_the_input() {
    let mut name = "rout".to_string();
    assert_eq!(hostname_key(0, &mut name, Key::Char('e')), (0, HostnameAction::Stay));
    assert_eq!(name, "route");
    assert_eq!(hostname_key(0, &mut name, Key::Backspace), (0, HostnameAction::Stay));
    assert_eq!(name, "rout");
    assert_eq!(hostname_key(1, &mut name, Key::Char('x')), (1, HostnameAction::Stay));
    assert_eq!(name, "rout");
    assert_eq!(hostname_key(0, &mut name, Key::Enter), (2, HostnameAction::Stay));
    assert_eq!(hostname_key(2, &mut name, Key::Enter), (2, HostnameAction::Save));
    assert_eq!(hostname_key(1, &mut name, Key::Enter), (1, HostnameAction::Back));
    assert_eq!(hostname_key(2, &mut name, Key::Tab), (0, HostnameAction::Stay));
    assert_eq!(hostname_key(0, &mut name, Key::BackTab), (2, HostnameAction::Stay));
    assert_eq!(hostname_key(2, &mut name, Key::Down), (2, HostnameAction::Stay));
    assert!(message_key_closes(Key::Enter));
    assert!(!message_key_closes(Key::Tab));
    assert!(connecting_key_closes(Key::Esc));
    assert!(!connecting_key_closes(Key::Enter));
}

#[test]
fn new_connection_popup_keys() {
    let mut popup = NewConnectionPopup { selected: 3, focus: NewFocus::List };
    assert_eq!(popup.handle_key(Key::Down), NewOutcome::Stay);
    assert_eq!(popup.selected, 4);
    assert_eq!(popup.handle_key(Key::Down), NewOutcome::Stay);
    assert_eq!(popup.selected, 4);
    assert_eq!(popup.handle_key(Key::Left), NewOutcome::Stay);
    assert_eq!(popup.focus, NewFocus::List);
    assert_eq!(popup.handle_key(Key::Enter), NewOutcome::Stay);
    assert_eq!(popup.focus, NewFocus::Create);
    assert_eq!(popup.handle_key(Key::Left), NewOutcome::Stay);
    assert_eq!(popup.focus, NewFocus::Cancel);
    assert_eq!(popup.handle_key(Key::Enter), NewOutcome::Cancel);
    popup.focus = NewFocus::Create;
    assert_eq!(popup.handle_key(Key::Enter), NewOutcome::Create(4));
    assert_eq!(popup.handle_key(Key::BackTab), NewOutcome::Stay);
    assert_eq!(popup.focus, NewFocus::Cancel);
    assert_eq!(popup.handle_key(Key::Esc), NewOutcome::Cancel);
}

#[test]
fn password_popup_keys() {
    let mut popup = PasswordPopup {
        target: WifiTarget {
            iface: "wlan0".to_string(),
            ssid: "Home".to_string(),
            bssid: None,
            security: Security::Psk,
            hidden: false,
        },
        input: String::new(),
        show: false,
        focus: PasswordFocus::Input,
    };
    popup.handle_key(Key::Char('a'));
    popup.handle_key(Key::Char('b'));
    popup.handle_key(Key::Backspace);
    assert_eq!(popup.input, "a");
    popup.handle_key(Key::Tab);
    assert_eq!(popup.focus, PasswordFocus::Show);
    popup.handle_key(Key::Char(' '));
    assert!(popup.show);
    popup.handle_key(Key::Enter);
    assert!(!popup.show);
    popup.handle_key(Key::BackTab);
    assert_eq!(popup.focus, PasswordFocus::Input);
    assert_eq!(popup.handle_key(Key::Enter), PasswordOutcome::Stay);
    assert_eq!(popup.focus, PasswordFocus::Connect);
    assert_eq!(popup.handle_key(Key::Right), PasswordOutcome::Stay);
    assert_eq!(popup.focus, PasswordFocus::Cancel);
    assert_eq!(popup.handle_key(Key::Enter), PasswordOutcome::Cancel);
    popup.focus = PasswordFocus::Connect;
    assert_eq!(popup.handle_key(Key::Enter), PasswordOutcome::Submit);
    assert_eq!(popup.input, "a");
}

#[test]
fn editor_keys_reach_choices_routes_and_footer() {
    let mut editor = ConnectionEditor::from_interface(&ethernet("eth0", ConnectionState::Up));
    let fields = editor.fields();
    let mode = fields.iter().position(|f| *f == EditorField::Ipv4Mode).unwrap();
    editor.focus = mode;
    assert_eq!(editor.handle_key(Key::Enter), EditorOutcome::Stay);
    assert!(editor.choice.is_some());
    editor.handle_key(Key::Down);
    assert_eq!(editor.choice.as_ref().unwrap().selected, 1);
    editor.handle_key(Key::Enter);
    assert!(editor.choice.is_none());
    assert_eq!(editor.ipv4_mode, libnetwork_daemon::editor::IpMode::Manual);

    let routing = fields.iter().position(|f| *f == EditorField::Ipv4Routing).unwrap();
    editor.focus = routing;
    editor.handle_key(Key::Enter);
    assert!(editor.routing.is_some());
    editor.handle_key(Key::Tab);
    assert_eq!(editor.routing.as_ref().unwrap().focus, RoutingFocus::Add);
    editor.handle_key(Key::Enter);
    assert!(editor.routing.as_ref().unwrap().editing);
    for c in "10.0.0.0/8".chars() {
        editor.handle_key(Key::Char(c));
    }
    editor.handle_key(Key::Enter);
    assert_eq!(editor.routing.as_ref().unwrap().routes, ["10.0.0.0/8"]);
    editor.handle_key(Key::Enter);
    for c in "bad".chars() {
        editor.handle_key(Key::Char(c));
    }
    editor.handle_key(Key::Enter);
    assert_eq!(
        editor.routing.as_ref().unwrap().error,
        Some("Invalid IPv4 destination/prefix".to_string())
    );
    editor.handle_key(Key::Esc);
    assert!(!editor.routing.as_ref().unwrap().editing);
    editor.handle_key(Key::Tab);
    editor.handle_key(Key::Tab);
    editor.handle_key(Key::Tab);
    assert_eq!(editor.routing.as_ref().unwrap().focus, RoutingFocus::Accept);
    editor.handle_key(Key::Enter);
    assert!(editor.routing.is_none());
    assert_eq!(editor.ipv4_routes, ["10.0.0.0/8"]);

    editor.focus = 0;
    editor.handle_key(Key::Char('x'));
    assert_eq!(editor.profile_name, "eth0x");
    editor.handle_key(Key::Backspace);
    assert_eq!(editor.profile_name, "eth0");
    editor.footer = true;
    editor.footer_selected = 0;
    editor.handle_key(Key::Right);
    assert_eq!(editor.footer_selected, 1);
    assert_eq!(editor.handle_key(Key::Enter), EditorOutcome::Save);
    editor.handle_key(Key::Left);
    assert_eq!(editor.handle_key(Key::Enter), EditorOutcome::Cancel);
    editor.handle_key(Key::Up);
    assert!(!editor.footer);
    assert_eq!(editor.handle_key(Key::Esc), EditorOutcome::Cancel);
}
