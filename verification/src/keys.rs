//! What a key press does on each screen and popup of the terminal client:
//! the state it leaves behind, and the action the client then performs.
use vstd::prelude::*;

use crate::editor::{
    ChoicePopup, ConnectionEditor, NewConnectionPopup, NewFocus, PasswordFocus,
    PasswordPopup, RoutingFocus, RoutingPopup, char_erased, char_typed, choice_applied,
    choice_opened, choice_options_of, cursor_moved, focus_moved, focus_tabbed, focused_field,
    is_bool_field, is_routing_field, pop_char, route_add_begun, route_deleted, route_tabbed,
    routing_applied, routing_opened, toggled,
};
use crate::editor_values::{route_added, route_check};
use crate::rows::move_main;
use crate::text::push_char;

verus! {

/// A key press, as the terminal client reads it.
#[derive(Debug, Clone, Copy, PartialEq, Eq, Structural)]
pub enum Key {
    Up,
    Down,
    Left,
    Right,
    Tab,
    BackTab,
    Enter,
    Esc,
    Backspace,
    Char(char),
    /// Any other key; it does nothing.
    Other,
}

/// What a key on the main menu asks for.
#[derive(Debug, Clone, Copy, PartialEq, Eq, Structural)]
pub enum MainAction {
    Stay,
    /// Open the selected entry.
    Open,
    Quit,
}

/// The main menu after a key: the selected entry, the focus (0 on the
/// list, 1 on the button) and the action.
pub open spec fn main_key_of(selected: usize, focus: usize, key: Key) -> (usize, usize, MainAction) {
    match key {
        Key::Up if focus == 0 => (if selected == 0 { 0 } else { (selected - 1) as usize }, focus, MainAction::Stay),
        Key::Down if focus == 0 => (if selected >= 3 { 3 } else { (selected + 1) as usize }, focus, MainAction::Stay),
        Key::Tab | Key::BackTab => (selected, if focus == 0 { 1 } else { 0 }, MainAction::Stay),
        Key::Enter => (selected, focus, MainAction::Open),
        Key::Esc | Key::Char('q') => (selected, focus, MainAction::Quit),
        _ => (selected, focus, MainAction::Stay),
    }
}

/// Handles a key on the main menu.
pub fn main_key(selected: usize, focus: usize, key: Key) -> (r: (usize, usize, MainAction))
    requires
        selected <= 3,
    ensures
        r == main_key_of(selected, focus, key),
{
    match key {
        Key::Up if focus == 0 => (move_main(selected, -1), focus, MainAction::Stay),
        Key::Down if focus == 0 => (move_main(selected, 1), focus, MainAction::Stay),
        Key::Tab | Key::BackTab => (selected, if focus == 0 { 1 } else { 0 }, MainAction::Stay),
        Key::Enter => (selected, focus, MainAction::Open),
        Key::Esc | Key::Char('q') => (selected, focus, MainAction::Quit),
        _ => (selected, focus, MainAction::Stay),
    }
}

/// What opening an entry of the main menu does.
#[derive(Debug, Clone, Copy, PartialEq, Eq, Structural)]
pub enum MainChoice {
    EditConnections,
    ActivateConnections,
    Hostname,
    Quit,
    Nothing,
}

/// The entries of the main menu, in order.
pub fn main_choice(selected: usize) -> (r: MainChoice)
    ensures
        r == (if selected == 0 {
            MainChoice::EditConnections
        } else if selected == 1 {
            MainChoice::ActivateConnections
        } else if selected == 2 {
            MainChoice::Hostname
        } else if selected == 3 {
            MainChoice::Quit
        } else {
            MainChoice::Nothing
        }),
{
    if selected == 0 {
        MainChoice::EditConnections
    } else if selected == 1 {
        MainChoice::ActivateConnections
    } else if selected == 2 {
        MainChoice::Hostname
    } else if selected == 3 {
        MainChoice::Quit
    } else {
        MainChoice::Nothing
    }
}

/// What a key on the edit screen asks for.
#[derive(Debug, Clone, Copy, PartialEq, Eq, Structural)]
pub enum EditAction {
    Stay,
    /// Move the selection through the rows that can be acted on.
    Move(isize),
    /// Edit the selected profile.
    Edit,
    /// Pick the type of a new connection.
    Add,
    /// Delete the selected profile.
    Delete,
    /// Back to the main menu.
    Back,
}

/// The edit screen's focus after a key (0 on the list, 1 to 4 on the
/// buttons Add, Edit, Delete, Back), and the action.
pub open spec fn edit_key_of(focus: usize, key: Key) -> (usize, EditAction) {
    if focus == 0 {
        match key {
            Key::Up => (focus, EditAction::Move(-1isize)),
            Key::Down => (focus, EditAction::Move(1isize)),
            Key::Enter | Key::Char('e') => (focus, EditAction::Edit),
            Key::Char('a') | Key::Char('n') => (focus, EditAction::Add),
            Key::Char('d') => (focus, EditAction::Delete),
            Key::Tab => (1, EditAction::Stay),
            Key::BackTab => (4, EditAction::Stay),
            Key::Esc => (focus, EditAction::Back),
            _ => (focus, EditAction::Stay),
        }
    } else {
        match key {
            Key::Up => (if focus == 1 { 4 } else { (focus - 1) as usize }, EditAction::Stay),
            Key::Down => (if focus == 4 { 1 } else { (focus + 1) as usize }, EditAction::Stay),
            Key::Tab => (if focus == 4 { 0 } else { (focus + 1) as usize }, EditAction::Stay),
            Key::BackTab => (if focus == 1 { 0 } else { (focus - 1) as usize }, EditAction::Stay),
            Key::Enter => (focus, if focus == 1 {
                EditAction::Add
            } else if focus == 2 {
                EditAction::Edit
            } else if focus == 3 {
                EditAction::Delete
            } else if focus == 4 {
                EditAction::Back
            } else {
                EditAction::Stay
            }),
            Key::Esc => (focus, EditAction::Back),
            _ => (focus, EditAction::Stay),
        }
    }
}

/// Handles a key on the edit screen.
pub fn edit_key(focus: usize, key: Key) -> (r: (usize, EditAction))
    requires
        focus <= 4,
    ensures
        r == edit_key_of(focus, key),
{
    if focus == 0 {
        match key {
            Key::Up => (focus, EditAction::Move(-1)),
            Key::Down => (focus, EditAction::Move(1)),
            Key::Enter | Key::Char('e') => (focus, EditAction::Edit),
            Key::Char('a') | Key::Char('n') => (focus, EditAction::Add),
            Key::Char('d') => (focus, EditAction::Delete),
            Key::Tab => (1, EditAction::Stay),
            Key::BackTab => (4, EditAction::Stay),
            Key::Esc => (focus, EditAction::Back),
            _ => (focus, EditAction::Stay),
        }
    } else {
        match key {
            Key::Up => (if focus == 1 { 4 } else { focus - 1 }, EditAction::Stay),
            Key::Down => (if focus == 4 { 1 } else { focus + 1 }, EditAction::Stay),
            Key::Tab => (if focus == 4 { 0 } else { focus + 1 }, EditAction::Stay),
            Key::BackTab => (if focus == 1 { 0 } else { focus - 1 }, EditAction::Stay),
            Key::Enter => (focus, if focus == 1 {
                EditAction::Add
            } else if focus == 2 {
                EditAction::Edit
            } else if focus == 3 {
                EditAction::Delete
            } else if focus == 4 {
                EditAction::Back
            } else {
                EditAction::Stay
            }),
            Key::Esc => (focus, EditAction::Back),
            _ => (focus, EditAction::Stay),
        }
    }
}

/// What a key on the activation screen asks for.
#[derive(Debug, Clone, Copy, PartialEq, Eq, Structural)]
pub enum ActivationAction {
    Stay,
    /// Move the selection through the rows that can be acted on.
    Move(isize),
    /// Act on the selected row.
    Activate,
    /// Scan for networks again.
    Refresh,
    /// Back to the main menu.
    Back,
}

/// The activation screen's focus after a key (0 on the list, 1 and 2 on
/// the buttons Activate and Back), and the action.
pub open spec fn activation_key_of(focus: usize, key: Key) -> (usize, ActivationAction) {
    if focus == 0 {
        match key {
            Key::Up => (focus, ActivationAction::Move(-1isize)),
            Key::Down => (focus, ActivationAction::Move(1isize)),
            Key::Enter => (focus, ActivationAction::Activate),
            Key::Char('r') => (focus, ActivationAction::Refresh),
            Key::Tab => (1, ActivationAction::Stay),
            Key::BackTab => (2, ActivationAction::Stay),
            Key::Esc => (focus, ActivationAction::Back),
            _ => (focus, ActivationAction::Stay),
        }
    } else {
        match key {
            Key::Up => (if focus == 1 { 2 } else { 1 }, ActivationAction::Stay),
            Key::Down => (if focus == 2 { 1 } else { 2 }, ActivationAction::Stay),
            Key::Tab => (if focus == 2 { 0 } else { (focus + 1) as usize }, ActivationAction::Stay),
            Key::BackTab => (if focus == 1 { 0 } else { (focus - 1) as usize }, ActivationAction::Stay),
            Key::Enter => (focus, if focus == 1 {
                ActivationAction::Activate
            } else if focus == 2 {
                ActivationAction::Back
            } else {
                ActivationAction::Stay
            }),
            Key::Esc => (focus, ActivationAction::Back),
            _ => (focus, ActivationAction::Stay),
        }
    }
}

/// Handles a key on the activation screen.
pub fn activation_key(focus: usize, key: Key) -> (r: (usize, ActivationAction))
    requires
        focus <= 2,
    ensures
        r == activation_key_of(focus, key),
{
    if focus == 0 {
        match key {
            Key::Up => (focus, ActivationAction::Move(-1)),
            Key::Down => (focus, ActivationAction::Move(1)),
            Key::Enter => (focus, ActivationAction::Activate),
            Key::Char('r') => (focus, ActivationAction::Refresh),
            Key::Tab => (1, ActivationAction::Stay),
            Key::BackTab => (2, ActivationAction::Stay),
            Key::Esc => (focus, ActivationAction::Back),
            _ => (focus, ActivationAction::Stay),
        }
    } else {
        match key {
            Key::Up => (if focus == 1 { 2 } else { 1 }, ActivationAction::Stay),
            Key::Down => (if focus == 2 { 1 } else { 2 }, ActivationAction::Stay),
            Key::Tab => (if focus == 2 { 0 } else { focus + 1 }, ActivationAction::Stay),
            Key::BackTab => (if focus == 1 { 0 } else { focus - 1 }, ActivationAction::Stay),
            Key::Enter => (focus, if focus == 1 {
                ActivationAction::Activate
            } else if focus == 2 {
                ActivationAction::Back
            } else {
                ActivationAction::Stay
            }),
            Key::Esc => (focus, ActivationAction::Back),
            _ => (focus, ActivationAction::Stay),
        }
    }
}

/// What a key on the hostname screen asks for.
#[derive(Debug, Clone, Copy, PartialEq, Eq, Structural)]
pub enum HostnameAction {
    Stay,
    /// Back to the main menu.
    Back,
    /// Send the hostname to the daemon.
    Save,
}

/// The hostname screen's focus after a key (0 on the input, 1 and 2 on the
/// buttons Back and Save), and the action.
pub open spec fn hostname_key_of(focus: usize, key: Key) -> (usize, HostnameAction) {
    match key {
        Key::Tab => (((focus + 1) % 3) as usize, HostnameAction::Stay),
        Key::BackTab => (((focus + 2) % 3) as usize, HostnameAction::Stay),
        Key::Up => (if focus == 0 { 0 } else { (focus - 1) as usize }, HostnameAction::Stay),
        Key::Down => (if focus >= 2 { 2 } else { (focus + 1) as usize }, HostnameAction::Stay),
        Key::Enter => if focus == 0 {
            (2, HostnameAction::Stay)
        } else if focus == 1 {
            (focus, HostnameAction::Back)
        } else if focus == 2 {
            (focus, HostnameAction::Save)
        } else {
            (focus, HostnameAction::Stay)
        },
        Key::Esc => (focus, HostnameAction::Back),
        _ => (focus, HostnameAction::Stay),
    }
}

/// The hostname text after a key: typing and erasing happen in the input.
pub open spec fn hostname_text_after(focus: usize, key: Key, text: Seq<char>) -> Seq<char> {
    match key {
        Key::Char(c) if focus == 0 => text.push(c),
        Key::Backspace if focus == 0 => if text.len() > 0 {
            text.drop_last()
        } else {
            text
        },
        _ => text,
    }
}

/// Handles a key on the hostname screen, editing `hostname` in place.
pub fn hostname_key(focus: usize, hostname: &mut String, key: Key) -> (r: (usize, HostnameAction))
    requires
        focus <= 2,
    ensures
        r == hostname_key_of(focus, key),
        final(hostname)@ == hostname_text_after(focus, key, old(hostname)@),
{
    match key {
        Key::Tab => ((focus + 1) % 3, HostnameAction::Stay),
        Key::BackTab => ((focus + 2) % 3, HostnameAction::Stay),
        Key::Up => (if focus == 0 { 0 } else { focus - 1 }, HostnameAction::Stay),
        Key::Down => (if focus >= 2 { 2 } else { focus + 1 }, HostnameAction::Stay),
        Key::Char(c) => {
            if focus == 0 {
                push_char(hostname, c);
            }
            (focus, HostnameAction::Stay)
        },
        Key::Backspace => {
            if focus == 0 {
                pop_char(hostname);
            }
            (focus, HostnameAction::Stay)
        },
        Key::Enter => if focus == 0 {
            (2, HostnameAction::Stay)
        } else if focus == 1 {
            (focus, HostnameAction::Back)
        } else if focus == 2 {
            (focus, HostnameAction::Save)
        } else {
            (focus, HostnameAction::Stay)
        },
        Key::Esc => (focus, HostnameAction::Back),
        _ => (focus, HostnameAction::Stay),
    }
}

/// Whether a key closes a message popup.
pub fn message_key_closes(key: Key) -> (r: bool)
    ensures
        r == (key == Key::Enter || key == Key::Esc),
{
    match key {
        Key::Enter | Key::Esc => true,
        _ => false,
    }
}

/// Whether a key closes the popup shown while connecting.
pub fn connecting_key_closes(key: Key) -> (r: bool)
    ensures
        r == (key == Key::Esc),
{
    match key {
        Key::Esc => true,
        _ => false,
    }
}

/// What a key on the new-connection popup leads to.
#[derive(Debug, Clone, Copy, PartialEq, Eq, Structural)]
pub enum NewOutcome {
    Stay,
    Cancel,
    /// Create a connection of the selected type.
    Create(usize),
}

/// The focus after Tab (or Shift-Tab) on the new-connection popup.
pub open spec fn new_focus_tab(f: NewFocus, backwards: bool) -> NewFocus {
    match f {
        NewFocus::List => if backwards { NewFocus::Create } else { NewFocus::Cancel },
        NewFocus::Cancel => if backwards { NewFocus::List } else { NewFocus::Create },
        NewFocus::Create => if backwards { NewFocus::Cancel } else { NewFocus::List },
    }
}

impl NewConnectionPopup {
    /// Handles a key: the list moves (stopping at its ends) when focused,
    /// Tab cycles list, Cancel and Create, the arrows switch the buttons,
    /// Enter on the list goes to Create, and Enter on a button or Esc
    /// closes the popup.
    pub fn handle_key(&mut self, key: Key) -> (r: NewOutcome)
        requires
            old(self).selected <= 4,
        ensures
            final(self).selected <= 4,
            match key {
                Key::Up if old(self).focus == NewFocus::List => r == NewOutcome::Stay && final(self).focus == old(self).focus
                    && final(self).selected == (if old(self).selected == 0 { 0 } else { old(self).selected - 1 }),
                Key::Down if old(self).focus == NewFocus::List => r == NewOutcome::Stay && final(self).focus == old(self).focus
                    && final(self).selected == (if old(self).selected >= 4 { 4 } else { old(self).selected + 1 }),
                Key::Tab => r == NewOutcome::Stay && final(self).selected == old(self).selected
                    && final(self).focus == new_focus_tab(old(self).focus, false),
                Key::BackTab => r == NewOutcome::Stay && final(self).selected == old(self).selected
                    && final(self).focus == new_focus_tab(old(self).focus, true),
                Key::Left if old(self).focus != NewFocus::List => r == NewOutcome::Stay
                    && final(self).selected == old(self).selected && final(self).focus == (if old(self).focus == NewFocus::Cancel {
                    NewFocus::Create
                } else {
                    NewFocus::Cancel
                }),
                Key::Right if old(self).focus != NewFocus::List => r == NewOutcome::Stay
                    && final(self).selected == old(self).selected && final(self).focus == (if old(self).focus == NewFocus::Cancel {
                    NewFocus::Create
                } else {
                    NewFocus::Cancel
                }),
                Key::Enter => final(self).selected == old(self).selected && match old(self).focus {
                    NewFocus::List => r == NewOutcome::Stay && final(self).focus == NewFocus::Create,
                    NewFocus::Cancel => r == NewOutcome::Cancel && final(self).focus == old(self).focus,
                    NewFocus::Create => r == NewOutcome::Create(old(self).selected) && final(self).focus == old(self).focus,
                },
                Key::Esc => r == NewOutcome::Cancel && *final(self) == *old(self),
                _ => r == NewOutcome::Stay && *final(self) == *old(self),
            },
    {
        match key {
            Key::Up if self.focus == NewFocus::List => {
                if self.selected > 0 {
                    self.selected = self.selected - 1;
                }
                NewOutcome::Stay
            },
            Key::Down if self.focus == NewFocus::List => {
                if self.selected < 4 {
                    self.selected = self.selected + 1;
                }
                NewOutcome::Stay
            },
            Key::Tab => {
                self.focus = match self.focus {
                    NewFocus::List => NewFocus::Cancel,
                    NewFocus::Cancel => NewFocus::Create,
                    NewFocus::Create => NewFocus::List,
                };
                NewOutcome::Stay
            },
            Key::BackTab => {
                self.focus = match self.focus {
                    NewFocus::List => NewFocus::Create,
                    NewFocus::Cancel => NewFocus::List,
                    NewFocus::Create => NewFocus::Cancel,
                };
                NewOutcome::Stay
            },
            Key::Left if self.focus != NewFocus::List => {
                self.focus = match self.focus {
                    NewFocus::Cancel => NewFocus::Create,
                    _ => NewFocus::Cancel,
                };
                NewOutcome::Stay
            },
            Key::Right if self.focus != NewFocus::List => {
                self.focus = match self.focus {
                    NewFocus::Cancel => NewFocus::Create,
                    _ => NewFocus::Cancel,
                };
                NewOutcome::Stay
            },
            Key::Enter => match self.focus {
                NewFocus::List => {
                    self.focus = NewFocus::Create;
                    NewOutcome::Stay
                },
                NewFocus::Cancel => NewOutcome::Cancel,
                NewFocus::Create => NewOutcome::Create(self.selected),
            },
            Key::Esc => NewOutcome::Cancel,
            _ => NewOutcome::Stay,
        }
    }
}

/// What a key on the password popup leads to.
#[derive(Debug, Clone, Copy, PartialEq, Eq, Structural)]
pub enum PasswordOutcome {
    Stay,
    Cancel,
    /// Connect to the target with the typed password.
    Submit,
}

/// The focus after Tab (or Shift-Tab) on the password popup.
pub open spec fn password_focus_tab(f: PasswordFocus, backwards: bool) -> PasswordFocus {
    match f {
        PasswordFocus::Input => if backwards { PasswordFocus::Connect } else { PasswordFocus::Show },
        PasswordFocus::Show => if backwards { PasswordFocus::Input } else { PasswordFocus::Cancel },
        PasswordFocus::Cancel => if backwards { PasswordFocus::Show } else { PasswordFocus::Connect },
        PasswordFocus::Connect => if backwards { PasswordFocus::Cancel } else { PasswordFocus::Input },
    }
}

impl PasswordPopup {
    /// Handles a key: Tab cycles input, Show, Cancel and Connect; the
    /// arrows switch the buttons; characters and Backspace edit the input
    /// when focused; Space or Enter on Show flips it; Enter on the input
    /// goes to Connect; Enter on Connect submits; Esc or Cancel closes.
    pub fn handle_key(&mut self, key: Key) -> (r: PasswordOutcome)
        ensures
            final(self).target == old(self).target,
            match key {
                Key::Tab => r == PasswordOutcome::Stay && final(self).focus == password_focus_tab(old(self).focus, false)
                    && final(self).input == old(self).input && final(self).show == old(self).show,
                Key::BackTab => r == PasswordOutcome::Stay && final(self).focus == password_focus_tab(old(self).focus, true)
                    && final(self).input == old(self).input && final(self).show == old(self).show,
                Key::Left if old(self).focus == PasswordFocus::Cancel || old(self).focus == PasswordFocus::Connect => r
                    == PasswordOutcome::Stay && final(self).input == old(self).input && final(self).show == old(self).show
                    && final(self).focus == (if old(self).focus == PasswordFocus::Cancel {
                    PasswordFocus::Connect
                } else {
                    PasswordFocus::Cancel
                }),
                Key::Right if old(self).focus == PasswordFocus::Cancel || old(self).focus == PasswordFocus::Connect => r
                    == PasswordOutcome::Stay && final(self).input == old(self).input && final(self).show == old(self).show
                    && final(self).focus == (if old(self).focus == PasswordFocus::Cancel {
                    PasswordFocus::Connect
                } else {
                    PasswordFocus::Cancel
                }),
                Key::Char(c) if old(self).focus == PasswordFocus::Input => r == PasswordOutcome::Stay
                    && final(self).input@ == old(self).input@.push(c) && final(self).show == old(self).show
                    && final(self).focus == old(self).focus,
                Key::Backspace if old(self).focus == PasswordFocus::Input => r == PasswordOutcome::Stay
                    && final(self).input@ == (if old(self).input@.len() > 0 {
                    old(self).input@.drop_last()
                } else {
                    old(self).input@
                }) && final(self).show == old(self).show && final(self).focus == old(self).focus,
                Key::Char(' ') if old(self).focus == PasswordFocus::Show => r == PasswordOutcome::Stay
                    && final(self).show == !old(self).show && final(self).input == old(self).input
                    && final(self).focus == old(self).focus,
                Key::Enter => final(self).input == old(self).input && match old(self).focus {
                    PasswordFocus::Input => r == PasswordOutcome::Stay && final(self).focus == PasswordFocus::Connect
                        && final(self).show == old(self).show,
                    PasswordFocus::Show => r == PasswordOutcome::Stay && final(self).show == !old(self).show
                        && final(self).focus == old(self).focus,
                    PasswordFocus::Cancel => r == PasswordOutcome::Cancel && final(self).show == old(self).show
                        && final(self).focus == old(self).focus,
                    PasswordFocus::Connect => r == PasswordOutcome::Submit && final(self).show == old(self).show
                        && final(self).focus == old(self).focus,
                },
                Key::Esc => r == PasswordOutcome::Cancel && final(self).input == old(self).input
                    && final(self).show == old(self).show && final(self).focus == old(self).focus,
                _ => r == PasswordOutcome::Stay && final(self).input == old(self).input
                    && final(self).show == old(self).show && final(self).focus == old(self).focus,
            },
    {
        match key {
            Key::Tab => {
                self.focus = match self.focus {
                    PasswordFocus::Input => PasswordFocus::Show,
                    PasswordFocus::Show => PasswordFocus::Cancel,
                    PasswordFocus::Cancel => PasswordFocus::Connect,
                    PasswordFocus::Connect => PasswordFocus::Input,
                };
                PasswordOutcome::Stay
            },
            Key::BackTab => {
                self.focus = match self.focus {
                    PasswordFocus::Input => PasswordFocus::Connect,
                    PasswordFocus::Show => PasswordFocus::Input,
                    PasswordFocus::Cancel => PasswordFocus::Show,
                    PasswordFocus::Connect => PasswordFocus::Cancel,
                };
                PasswordOutcome::Stay
            },
            Key::Left if self.focus == PasswordFocus::Cancel || self.focus
                == PasswordFocus::Connect => {
                self.focus = if self.focus == PasswordFocus::Cancel {
                    PasswordFocus::Connect
                } else {
                    PasswordFocus::Cancel
                };
                PasswordOutcome::Stay
            },
            Key::Right if self.focus == PasswordFocus::Cancel || self.focus
                == PasswordFocus::Connect => {
                self.focus = if self.focus == PasswordFocus::Cancel {
                    PasswordFocus::Connect
                } else {
                    PasswordFocus::Cancel
                };
                PasswordOutcome::Stay
            },
            Key::Char(c) if self.focus == PasswordFocus::Input => {
                push_char(&mut self.input, c);
                PasswordOutcome::Stay
            },
            Key::Backspace if self.focus == PasswordFocus::Input => {
                pop_char(&mut self.input);
                PasswordOutcome::Stay
            },
            Key::Char(' ') if self.focus == PasswordFocus::Show => {
                self.show = !self.show;
                PasswordOutcome::Stay
            },
            Key::Enter => match self.focus {
                PasswordFocus::Input => {
                    self.focus = PasswordFocus::Connect;
                    PasswordOutcome::Stay
                },
                PasswordFocus::Show => {
                    self.show = !self.show;
                    PasswordOutcome::Stay
                },
                PasswordFocus::Cancel => PasswordOutcome::Cancel,
                PasswordFocus::Connect => PasswordOutcome::Submit,
            },
            Key::Esc => PasswordOutcome::Cancel,
            _ => PasswordOutcome::Stay,
        }
    }
}

/// What a key in the connection editor leads to.
#[derive(Debug, Clone, Copy, PartialEq, Eq, Structural)]
pub enum EditorOutcome {
    Stay,
    /// Close the editor without saving.
    Cancel,
    /// Save the profile.
    Save,
}

/// The ranges every operation of the editor keeps: positions that fit the
/// machine's arithmetic, a footer button that exists, and a routes popup
/// whose selection is on its list.
pub open spec fn editor_keys_ok(e: ConnectionEditor) -> bool {
    &&& e.focus < isize::MAX
    &&& e.footer_selected <= 1
    &&& match e.routing {
        Some(p) => p.routes@.len() <= isize::MAX && (p.routes@.len()
            > 0 ==> p.selected < p.routes@.len()),
        None => true,
    }
}

/// One entry up a list, stopping at the first.
pub open spec fn list_up(selected: usize) -> usize {
    if selected == 0 {
        0
    } else {
        (selected - 1) as usize
    }
}

/// One entry down a list of `count` entries, stopping at the last.
pub open spec fn list_down(selected: usize, count: nat) -> usize {
    let last: int = if count == 0 {
        0
    } else {
        count - 1
    };
    (if selected + 1 > last {
        last
    } else {
        selected + 1
    }) as usize
}

/// A key while a choice list is open: the arrows move in the list
/// (stopping at its ends), Enter applies it, Esc closes it.
pub open spec fn choice_key(a: ConnectionEditor, b: ConnectionEditor, c: ChoicePopup, key: Key) -> bool {
    match key {
        Key::Up => b == (ConnectionEditor {
            choice: Some((ChoicePopup { selected: list_up(c.selected), ..c })),
            ..a
        }),
        Key::Down => b == (ConnectionEditor {
            choice: Some((ChoicePopup { selected: list_down(c.selected, c.options@.len()), ..c })),
            ..a
        }),
        Key::Enter => choice_applied(a, b),
        Key::Esc => b == (ConnectionEditor { choice: None, ..a }),
        _ => b == a,
    }
}

/// The editor with the routes popup replaced, the rest kept.
pub open spec fn with_routing(a: ConnectionEditor, q: Option<RoutingPopup>) -> ConnectionEditor {
    ConnectionEditor { routing: q, ..a }
}

/// A key while a route is typed: characters and Backspace edit the input,
/// Enter adds the route or shows why it is refused, Esc stops typing.
pub open spec fn route_input_key(p: RoutingPopup, q: RoutingPopup, key: Key) -> bool {
    match key {
        Key::Char(ch) => q.input@ == p.input@.push(ch) && q == (RoutingPopup { input: q.input, ..p }),
        Key::Backspace => q.input@ == (if p.input@.len() > 0 {
            p.input@.drop_last()
        } else {
            p.input@
        }) && q == (RoutingPopup { input: q.input, ..p }),
        Key::Enter => match route_check(p.family, p.input@) {
            Ok(_) => route_added(p, q),
            Err(m) => (q.error matches Some(e) && e@ == m) && q == (RoutingPopup { error: q.error, ..p }),
        },
        Key::Esc => !q.editing && q.input@.len() == 0 && q.error is None && q == (RoutingPopup {
            editing: q.editing,
            input: q.input,
            error: q.error,
            ..p
        }),
        _ => q == p,
    }
}

/// Moving in the routes popup by `delta`, the rest kept.
pub open spec fn route_moved(a: ConnectionEditor, b: ConnectionEditor, p: RoutingPopup, delta: int) -> bool {
    &&& b.routing matches Some(q) && cursor_moved(p, q, delta)
    &&& b == with_routing(a, b.routing)
}

/// Tab in the routes popup, the rest kept.
pub open spec fn route_tab_moved(a: ConnectionEditor, b: ConnectionEditor, p: RoutingPopup, backwards: bool) -> bool {
    &&& b.routing matches Some(q) && route_tabbed(p, q, backwards)
    &&& b == with_routing(a, b.routing)
}

/// The arrows switch the Cancel and OK buttons of the routes popup.
pub open spec fn route_buttons_switched(a: ConnectionEditor, b: ConnectionEditor, p: RoutingPopup) -> bool {
    if p.focus == RoutingFocus::Cancel || p.focus == RoutingFocus::Accept {
        b == with_routing(
            a,
            Some(
                (RoutingPopup {
                    focus: if p.focus == RoutingFocus::Cancel {
                        RoutingFocus::Accept
                    } else {
                        RoutingFocus::Cancel
                    },
                    ..p
                }),
            ),
        )
    } else {
        b == a
    }
}

/// Enter on the routes popup presses the focused button.
pub open spec fn route_button_pressed(a: ConnectionEditor, b: ConnectionEditor, p: RoutingPopup) -> bool {
    match p.focus {
        RoutingFocus::Add => b.routing matches Some(q) && route_add_begun(p, q) && b == with_routing(
            a,
            b.routing,
        ),
        RoutingFocus::Delete => b.routing matches Some(q) && route_deleted(p, q) && b == with_routing(
            a,
            b.routing,
        ),
        RoutingFocus::Cancel => b == with_routing(a, None),
        RoutingFocus::Accept => routing_applied(a, b, p),
        RoutingFocus::List => b == a,
    }
}

/// A key on the routes popup's list and buttons: the arrows move, Tab
/// moves on, Left and Right switch the buttons, Enter presses one, Esc
/// closes the popup.
pub open spec fn route_list_key(a: ConnectionEditor, b: ConnectionEditor, p: RoutingPopup, key: Key) -> bool {
    match key {
        Key::Up => route_moved(a, b, p, -1),
        Key::Down => route_moved(a, b, p, 1),
        Key::Tab => route_tab_moved(a, b, p, false),
        Key::BackTab => route_tab_moved(a, b, p, true),
        Key::Left | Key::Right => route_buttons_switched(a, b, p),
        Key::Enter => route_button_pressed(a, b, p),
        Key::Esc => b == with_routing(a, None),
        _ => b == a,
    }
}

/// A key on the editor's footer buttons: Tab moves on, the arrows switch
/// Cancel and Save, Up goes back to the fields, Enter presses the button,
/// Esc cancels.
pub open spec fn footer_key(a: ConnectionEditor, b: ConnectionEditor, key: Key, r: EditorOutcome) -> bool {
    match key {
        Key::Tab => r == EditorOutcome::Stay && focus_tabbed(a, b, false),
        Key::BackTab => r == EditorOutcome::Stay && focus_tabbed(a, b, true),
        Key::Left | Key::Right => r == EditorOutcome::Stay && b == (ConnectionEditor {
            footer_selected: (1 - a.footer_selected) as usize,
            ..a
        }),
        Key::Up => r == EditorOutcome::Stay && b == (ConnectionEditor { footer: false, ..a }),
        Key::Enter => b == a && r == (if a.footer_selected == 0 {
            EditorOutcome::Cancel
        } else {
            EditorOutcome::Save
        }),
        Key::Esc => r == EditorOutcome::Cancel && b == a,
        _ => r == EditorOutcome::Stay && b == a,
    }
}

/// A key on the editor's fields: the arrows and Tab move the focus, Enter
/// opens the routes or the choice list of the field or flips a checkbox,
/// Space flips a checkbox or is typed, other characters and Backspace edit
/// a text field, Esc cancels.
pub open spec fn field_key(a: ConnectionEditor, b: ConnectionEditor, key: Key, r: EditorOutcome) -> bool {
    match key {
        Key::Up => r == EditorOutcome::Stay && focus_moved(a, b, -1),
        Key::Down => r == EditorOutcome::Stay && focus_moved(a, b, 1),
        Key::Tab => r == EditorOutcome::Stay && focus_tabbed(a, b, false),
        Key::BackTab => r == EditorOutcome::Stay && focus_tabbed(a, b, true),
        Key::Enter => r == EditorOutcome::Stay && match focused_field(a) {
            Some(f) => if is_routing_field(f) {
                routing_opened(a, b, f)
            } else if choice_options_of(f) is Some {
                choice_opened(a, b)
            } else if is_bool_field(f) {
                toggled(a, b, f)
            } else {
                b == a
            },
            None => b == a,
        },
        Key::Char(ch) => r == EditorOutcome::Stay && (if ch == ' ' && (focused_field(a) matches Some(
            f,
        ) && is_bool_field(f)) {
            toggled(a, b, focused_field(a).unwrap())
        } else {
            char_typed(a, b, ch)
        }),
        Key::Backspace => r == EditorOutcome::Stay && char_erased(a, b),
        Key::Esc => r == EditorOutcome::Cancel && b == a,
        _ => r == EditorOutcome::Stay && b == a,
    }
}

impl ConnectionEditor {
    /// Moves the selection of the open choice list to `selected`.
    fn choice_select(&mut self, selected: usize)
        requires
            old(self).choice is Some,
        ensures
            *final(self) == (ConnectionEditor {
                choice: Some((ChoicePopup { selected, ..old(self).choice.unwrap() })),
                ..*old(self)
            }),
    {
        let mut c = self.choice.take().unwrap();
        c.selected = selected;
        self.choice = Some(c);
    }

    #[verifier::rlimit(50)]
    fn choice_handle_key(&mut self, key: Key)
        requires
            old(self).choice is Some,
        ensures
            choice_key(*old(self), *final(self), old(self).choice.unwrap(), key),
    {
        let (selected, count) = match &self.choice {
            Some(c) => (c.selected, c.options.len()),
            None => (0, 0),
        };
        match key {
            Key::Up => {
                let s = if selected > 0 {
                    selected - 1
                } else {
                    0
                };
                self.choice_select(s);
            },
            Key::Down => {
                let last = if count == 0 {
                    0
                } else {
                    count - 1
                };
                let s = if selected < last {
                    selected + 1
                } else {
                    last
                };
                self.choice_select(s);
            },
            Key::Enter => self.apply_choice(),
            Key::Esc => {
                self.choice = None;
            },
            _ => {},
        }
    }
}

impl RoutingPopup {
    /// Handles a key while a route is typed.
    pub fn input_key(&mut self, key: Key)
        ensures
            route_input_key(*old(self), *final(self), key),
    {
        match key {
            Key::Char(ch) => push_char(&mut self.input, ch),
            Key::Backspace => pop_char(&mut self.input),
            Key::Enter => {
                match self.add_route() {
                    Ok(_) => {},
                    Err(e) => {
                        self.error = Some(e);
                    },
                }
            },
            Key::Esc => {
                self.editing = false;
                self.input = String::new();
                self.error = None;
            },
            _ => {},
        }
    }
}

impl ConnectionEditor {
    fn routing_move(&mut self, delta: isize)
        requires
            old(self).routing is Some,
            editor_keys_ok(*old(self)),
            -1 <= delta <= 1,
        ensures
            route_moved(*old(self), *final(self), old(self).routing.unwrap(), delta as int),
    {
        let mut p = self.routing.take().unwrap();
        p.move_cursor(delta);
        self.routing = Some(p);
    }

    fn routing_tab(&mut self, backwards: bool)
        requires
            old(self).routing is Some,
        ensures
            route_tab_moved(*old(self), *final(self), old(self).routing.unwrap(), backwards),
    {
        let mut p = self.routing.take().unwrap();
        p.tab(backwards);
        self.routing = Some(p);
    }

    fn routing_set_focus(&mut self, focus: RoutingFocus)
        requires
            old(self).routing is Some,
        ensures
            *final(self) == with_routing(
                *old(self),
                Some((RoutingPopup { focus, ..old(self).routing.unwrap() })),
            ),
    {
        let mut p = self.routing.take().unwrap();
        p.focus = focus;
        self.routing = Some(p);
    }

    fn routing_switch(&mut self)
        requires
            old(self).routing is Some,
        ensures
            route_buttons_switched(*old(self), *final(self), old(self).routing.unwrap()),
    {
        let focus = match &self.routing {
            Some(p) => p.focus,
            None => RoutingFocus::List,
        };
        if focus == RoutingFocus::Cancel {
            self.routing_set_focus(RoutingFocus::Accept);
        } else if focus == RoutingFocus::Accept {
            self.routing_set_focus(RoutingFocus::Cancel);
        }
    }

    fn routing_begin_add(&mut self)
        requires
            old(self).routing is Some,
        ensures
            final(self).routing matches Some(q) && route_add_begun(old(self).routing.unwrap(), q),
            *final(self) == with_routing(*old(self), final(self).routing),
    {
        let mut p = self.routing.take().unwrap();
        p.begin_add();
        self.routing = Some(p);
    }

    fn routing_delete(&mut self)
        requires
            old(self).routing is Some,
            editor_keys_ok(*old(self)),
        ensures
            final(self).routing matches Some(q) && route_deleted(old(self).routing.unwrap(), q),
            *final(self) == with_routing(*old(self), final(self).routing),
    {
        let mut p = self.routing.take().unwrap();
        p.delete_selected();
        self.routing = Some(p);
    }

    fn routing_accept(&mut self)
        requires
            old(self).routing is Some,
        ensures
            routing_applied(*old(self), *final(self), old(self).routing.unwrap()),
    {
        let p = self.routing.take().unwrap();
        self.apply_routing(p);
    }

    fn routing_press(&mut self)
        requires
            old(self).routing is Some,
            editor_keys_ok(*old(self)),
        ensures
            route_button_pressed(*old(self), *final(self), old(self).routing.unwrap()),
    {
        let focus = match &self.routing {
            Some(p) => p.focus,
            None => RoutingFocus::List,
        };
        match focus {
            RoutingFocus::Add => self.routing_begin_add(),
            RoutingFocus::Delete => self.routing_delete(),
            RoutingFocus::Cancel => {
                self.routing = None;
            },
            RoutingFocus::Accept => self.routing_accept(),
            RoutingFocus::List => {},
        }
    }

    fn routing_list_handle_key(&mut self, key: Key)
        requires
            old(self).routing is Some,
            editor_keys_ok(*old(self)),
        ensures
            route_list_key(*old(self), *final(self), old(self).routing.unwrap(), key),
    {
        match key {
            Key::Up => self.routing_move(-1),
            Key::Down => self.routing_move(1),
            Key::Tab => self.routing_tab(false),
            Key::BackTab => self.routing_tab(true),
            Key::Left | Key::Right => self.routing_switch(),
            Key::Enter => self.routing_press(),
            Key::Esc => {
                self.routing = None;
            },
            _ => {},
        }
    }

    fn footer_handle_key(&mut self, key: Key) -> (r: EditorOutcome)
        requires
            old(self).footer_selected <= 1,
        ensures
            footer_key(*old(self), *final(self), key, r),
    {
        match key {
            Key::Tab => {
                self.tab_focus(false);
                EditorOutcome::Stay
            },
            Key::BackTab => {
                self.tab_focus(true);
                EditorOutcome::Stay
            },
            Key::Left | Key::Right => {
                self.footer_selected = 1 - self.footer_selected;
                EditorOutcome::Stay
            },
            Key::Up => {
                self.footer = false;
                EditorOutcome::Stay
            },
            Key::Enter => if self.footer_selected == 0 {
                EditorOutcome::Cancel
            } else {
                EditorOutcome::Save
            },
            Key::Esc => EditorOutcome::Cancel,
            _ => EditorOutcome::Stay,
        }
    }

    fn field_handle_key(&mut self, key: Key) -> (r: EditorOutcome)
        requires
            old(self).focus < isize::MAX,
        ensures
            field_key(*old(self), *final(self), key, r),
    {
        match key {
            Key::Up => {
                self.move_focus(-1);
                EditorOutcome::Stay
            },
            Key::Down => {
                self.move_focus(1);
                EditorOutcome::Stay
            },
            Key::Tab => {
                self.tab_focus(false);
                EditorOutcome::Stay
            },
            Key::BackTab => {
                self.tab_focus(true);
                EditorOutcome::Stay
            },
            Key::Enter => {
                match self.focused_field_exec() {
                    Some(f) => {
                        if f.is_routing() {
                            self.open_routing(f);
                        } else if ConnectionEditor::choice_options(f).is_some() {
                            self.open_choice();
                        } else if f.is_bool() {
                            self.toggle(f);
                        }
                    },
                    None => {},
                }
                EditorOutcome::Stay
            },
            Key::Char(ch) => {
                let flips = ch == ' ' && match self.focused_field_exec() {
                    Some(f) => f.is_bool(),
                    None => false,
                };
                if flips {
                    let f = self.focused_field_exec().unwrap();
                    self.toggle(f);
                } else {
                    self.type_char(ch);
                }
                EditorOutcome::Stay
            },
            Key::Backspace => {
                self.backspace();
                EditorOutcome::Stay
            },
            Key::Esc => EditorOutcome::Cancel,
            _ => EditorOutcome::Stay,
        }
    }

    /// Handles a key in the connection editor: an open choice list takes it
    /// first, then an open routes popup, then the footer buttons or the
    /// fields, whichever has the focus.
    pub fn handle_key(&mut self, key: Key) -> (r: EditorOutcome)
        requires
            editor_keys_ok(*old(self)),
        ensures
            match old(self).choice {
                Some(c) => r == EditorOutcome::Stay && choice_key(*old(self), *final(self), c, key),
                None => match old(self).routing {
                    Some(p) => r == EditorOutcome::Stay && (if p.editing {
                        (final(self).routing matches Some(q) && route_input_key(p, q, key))
                            && *final(self) == with_routing(*old(self), final(self).routing)
                    } else {
                        route_list_key(*old(self), *final(self), p, key)
                    }),
                    None => if old(self).footer {
                        footer_key(*old(self), *final(self), key, r)
                    } else {
                        field_key(*old(self), *final(self), key, r)
                    },
                },
            },
    {
        if self.choice.is_some() {
            self.choice_handle_key(key);
            return EditorOutcome::Stay;
        }
        let editing = match &self.routing {
            Some(p) => Some(p.editing),
            None => None,
        };
        match editing {
            Some(true) => {
                let mut p = self.routing.take().unwrap();
                p.input_key(key);
                self.routing = Some(p);
                EditorOutcome::Stay
            },
            Some(false) => {
                self.routing_list_handle_key(key);
                EditorOutcome::Stay
            },
            None => if self.footer {
                self.footer_handle_key(key)
            } else {
                self.field_handle_key(key)
            },
        }
    }
}

/// Every key keeps the focus of each screen among its places.
pub proof fn lemma_screen_focus_in_range(focus: usize, key: Key)
    ensures
        focus <= 1 ==> main_key_of(0, focus, key).1 <= 1,
        focus <= 4 ==> edit_key_of(focus, key).0 <= 4,
        focus <= 2 ==> activation_key_of(focus, key).0 <= 2,
        focus <= 2 ==> hostname_key_of(focus, key).0 <= 2,
{
}

/// Every key keeps the main menu's selection on one of its four entries.
pub proof fn lemma_main_selection_in_range(selected: usize, focus: usize, key: Key)
    requires
        selected <= 3,
    ensures
        main_key_of(selected, focus, key).0 <= 3,
{
}

} // verus!
