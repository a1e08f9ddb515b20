//! The multiplayer server list screen: what a key press or a click on it
//! does to the menu's state, and what it asks the game to do. Where the
//! cursor is and which element it hits is worked out by the caller.
use vstd::prelude::*;

use crate::menu::{MenuAction, Screen};

verus! {

use vstd::string::StringExecFns;

/// Two clicks on one entry less than this many milliseconds apart join it.
pub const DOUBLE_CLICK_MS: u128 = 400;

/// A saved server: its shown name and its address.
pub struct ServerEntry {
    pub name: String,
    pub address: String,
}

/// The menu state the server list screen reads and changes.
pub struct ServerListState {
    pub screen: Screen,
    pub servers: Vec<ServerEntry>,
    pub selected: Option<usize>,
    pub last_click: Option<usize>,
    pub edit_name: String,
    pub edit_address: String,
    pub focused_field: Option<u8>,
    pub last_mp_ip: String,
    pub username: String,
}

/// One thing the player did on the server list screen.
pub enum ServerListInput {
    Escape,
    /// F5, or the Refresh button.
    Refresh,
    /// A click on the entry at `index`, `since_last_click` milliseconds after
    /// the previous click on an entry.
    ClickEntry { index: usize, since_last_click: u128 },
    Join,
    DirectConnect,
    AddServer,
    Edit,
    Delete,
    Back,
}

/// The contents of a `ServerListState`.
pub struct ServerListView {
    pub screen: Screen,
    pub servers: Seq<(Seq<char>, Seq<char>)>,
    pub selected: Option<usize>,
    pub last_click: Option<usize>,
    pub edit_name: Seq<char>,
    pub edit_address: Seq<char>,
    pub focused_field: Option<u8>,
    pub last_mp_ip: Seq<char>,
    pub username: Seq<char>,
}

impl View for ServerListState {
    type V = ServerListView;

    open spec fn view(&self) -> ServerListView {
        ServerListView {
            screen: self.screen,
            servers: self.servers@.map_values(|e: ServerEntry| (e.name@, e.address@)),
            selected: self.selected,
            last_click: self.last_click,
            edit_name: self.edit_name@,
            edit_address: self.edit_address@,
            focused_field: self.focused_field,
            last_mp_ip: self.last_mp_ip@,
            username: self.username@,
        }
    }
}

/// What a step asks of the game: to connect to a server as a player (by
/// address and name), to ping the saved servers again, both or neither.
pub struct ServerListOutcome {
    pub action: MenuAction,
    pub refresh: bool,
}

/// The contents of a `ServerListOutcome`: the address and player name to
/// connect with, if any, and whether to ping again.
pub open spec fn outcome_view(o: ServerListOutcome) -> (Option<(Seq<char>, Seq<char>)>, bool) {
    (
        match o.action {
            MenuAction::Connect { server, username } => Some((server@, username@)),
            _ => None,
        },
        o.refresh,
    )
}

/// The state and the request after one input on the server list screen.
/// Escape and Back return to the title screen. A click on an entry joins it
/// when it is the entry clicked last and the click comes within
/// `DOUBLE_CLICK_MS`, and otherwise selects it. Join connects to the selected
/// server; Direct Connect opens the direct connect form with the last address
/// used; Add Server opens an empty form; Edit opens the form on the selected
/// server; Delete asks to confirm deleting the selected server. A click that
/// needs a selection, or an entry, that is not there does nothing.
pub open spec fn server_list_after(s: ServerListView, i: ServerListInput) -> (
    ServerListView,
    (Option<(Seq<char>, Seq<char>)>, bool),
) {
    let none = (None, false);
    match i {
        ServerListInput::Escape => (ServerListView { screen: Screen::Main, ..s }, none),
        ServerListInput::Back => (ServerListView { screen: Screen::Main, ..s }, none),
        ServerListInput::Refresh => (s, (None, true)),
        ServerListInput::ClickEntry { index, since_last_click } => {
            if index >= s.servers.len() {
                (s, none)
            } else if s.last_click == Some(index) && since_last_click < DOUBLE_CLICK_MS {
                (s, (Some((s.servers[index as int].1, s.username)), false))
            } else {
                (ServerListView { selected: Some(index), last_click: Some(index), ..s }, none)
            }
        },
        ServerListInput::Join => match s.selected {
            Some(k) => if k < s.servers.len() {
                (s, (Some((s.servers[k as int].1, s.username)), false))
            } else {
                (s, none)
            },
            None => (s, none),
        },
        ServerListInput::DirectConnect => (
            ServerListView {
                screen: Screen::DirectConnect,
                edit_address: s.last_mp_ip,
                focused_field: Some(0),
                ..s
            },
            none,
        ),
        ServerListInput::AddServer => (
            ServerListView {
                screen: Screen::AddServer,
                edit_name: Seq::empty(),
                edit_address: Seq::empty(),
                focused_field: Some(0),
                ..s
            },
            none,
        ),
        ServerListInput::Edit => match s.selected {
            Some(k) => if k < s.servers.len() {
                (
                    ServerListView {
                        screen: Screen::EditServer(k),
                        edit_name: s.servers[k as int].0,
                        edit_address: s.servers[k as int].1,
                        focused_field: Some(0),
                        ..s
                    },
                    none,
                )
            } else {
                (s, none)
            },
            None => (s, none),
        },
        ServerListInput::Delete => match s.selected {
            Some(k) => (ServerListView { screen: Screen::ConfirmDelete(k), ..s }, none),
            None => (s, none),
        },
    }
}

/// A connect request for the server at `k`, as the player.
fn connect_to(s: &ServerListState, k: usize) -> (a: MenuAction)
    requires
        k < s.servers@.len(),
    ensures
        a matches MenuAction::Connect { server, username } && server@ == s.servers@[k as int].address@
            && username@ == s.username@,
{
    MenuAction::Connect { server: s.servers[k].address.clone(), username: s.username.clone() }
}

/// Applies one input on the server list screen, as `server_list_after` says.
pub fn server_list_step(s: &mut ServerListState, i: ServerListInput) -> (r: ServerListOutcome)
    ensures
        (final(s)@, outcome_view(r)) == server_list_after(old(s)@, i),
        r.action is NoAction || r.action is Connect,
{
    let quiet = ServerListOutcome { action: MenuAction::NoAction, refresh: false };
    match i {
        ServerListInput::Escape | ServerListInput::Back => {
            s.screen = Screen::Main;
            quiet
        },
        ServerListInput::Refresh => ServerListOutcome { action: MenuAction::NoAction, refresh: true },
        ServerListInput::ClickEntry { index, since_last_click } => {
            if index >= s.servers.len() {
                quiet
            } else if s.last_click == Some(index) && since_last_click < DOUBLE_CLICK_MS {
                ServerListOutcome { action: connect_to(s, index), refresh: false }
            } else {
                s.selected = Some(index);
                s.last_click = Some(index);
                quiet
            }
        },
        ServerListInput::Join => match s.selected {
            Some(k) => if k < s.servers.len() {
                ServerListOutcome { action: connect_to(s, k), refresh: false }
            } else {
                quiet
            },
            None => quiet,
        },
        ServerListInput::DirectConnect => {
            s.edit_address = s.last_mp_ip.clone();
            s.focused_field = Some(0);
            s.screen = Screen::DirectConnect;
            quiet
        },
        ServerListInput::AddServer => {
            s.edit_name = String::new();
            s.edit_address = String::new();
            s.focused_field = Some(0);
            s.screen = Screen::AddServer;
            quiet
        },
        ServerListInput::Edit => match s.selected {
            Some(k) => if k < s.servers.len() {
                s.edit_name = s.servers[k].name.clone();
                s.edit_address = s.servers[k].address.clone();
                s.focused_field = Some(0);
                s.screen = Screen::EditServer(k);
                quiet
            } else {
                quiet
            },
            None => quiet,
        },
        ServerListInput::Delete => match s.selected {
            Some(k) => {
                s.screen = Screen::ConfirmDelete(k);
                quiet
            },
            None => quiet,
        },
    }
}

/// Opens the server list from the title screen or after signing in: no
/// server is selected.
pub fn enter_server_list(s: &mut ServerListState)
    ensures
        final(s)@ == (ServerListView { screen: Screen::ServerList, selected: None, ..old(s)@ }),
{
    s.screen = Screen::ServerList;
    s.selected = None;
}

/// One thing the player did on a form of the server list (direct connect,
/// add or edit a server, confirm a deletion): Escape, the Cancel button, or
/// the form's main button (or Enter on the direct connect form).
/// `address_valid` is whether the address typed is one the game can connect
/// to, which the caller checks.
pub enum FormInput {
    Escape,
    Cancel,
    Submit { address_valid: bool },
}

/// A change to the saved servers that a form asks the caller to make (the
/// caller also stores the list): add an entry at the end, replace the entry
/// at an index, or delete the entry at an index.
pub enum ListEdit {
    Add(ServerEntry),
    Update(usize, ServerEntry),
    Remove(usize),
}

/// What a form step asks of the game: a connection, a change to the saved
/// servers, and an address to ping.
pub struct FormOutcome {
    pub action: MenuAction,
    pub edit: Option<ListEdit>,
    pub ping: Option<String>,
}

/// The name a saved server gets: the one typed, or "Minecraft Server" when
/// none was.
pub open spec fn entry_name(typed: Seq<char>) -> Seq<char> {
    if typed.len() == 0 {
        "Minecraft Server"@
    } else {
        typed
    }
}

/// One input on the direct connect form. Escape and Cancel go back to the
/// server list; submitting a valid address remembers it as the last one used
/// and connects to it as the player; an invalid one does nothing.
pub fn direct_connect_step(s: &mut ServerListState, i: FormInput) -> (r: FormOutcome)
    ensures
        r.edit is None && r.ping is None,
        match i {
            FormInput::Escape | FormInput::Cancel => final(s)@ == (ServerListView {
                screen: Screen::ServerList,
                ..old(s)@
            }) && r.action is NoAction,
            FormInput::Submit { address_valid } => if address_valid {
                &&& final(s)@ == (ServerListView { last_mp_ip: old(s)@.edit_address, ..old(s)@ })
                &&& r.action matches MenuAction::Connect { server, username } && server@ == old(s)@.edit_address
                    && username@ == old(s)@.username
            } else {
                final(s)@ == old(s)@ && r.action is NoAction
            },
        },
{
    match i {
        FormInput::Escape | FormInput::Cancel => {
            s.screen = Screen::ServerList;
            FormOutcome { action: MenuAction::NoAction, edit: None, ping: None }
        },
        FormInput::Submit { address_valid } => {
            if address_valid {
                s.last_mp_ip = s.edit_address.clone();
                let action = MenuAction::Connect { server: s.edit_address.clone(), username: s.username.clone() };
                FormOutcome { action, edit: None, ping: None }
            } else {
                FormOutcome { action: MenuAction::NoAction, edit: None, ping: None }
            }
        },
    }
}

/// One input on the add or edit server form. Escape and Cancel go back to
/// the server list. Submitting a valid address saves the entry (the name
/// typed, or "Minecraft Server", and the address): in place of the entry
/// edited, or added at the end; the address is pinged and the server list
/// shows again. An invalid address does nothing.
pub fn server_form_step(s: &mut ServerListState, i: FormInput) -> (r: FormOutcome)
    ensures
        r.action is NoAction,
        match i {
            FormInput::Escape | FormInput::Cancel => final(s)@ == (ServerListView {
                screen: Screen::ServerList,
                ..old(s)@
            }) && r.edit is None && r.ping is None,
            FormInput::Submit { address_valid } => if address_valid {
                &&& final(s)@ == (ServerListView { screen: Screen::ServerList, ..old(s)@ })
                &&& r.ping matches Some(a) && a@ == old(s)@.edit_address
                &&& r.edit matches Some(e) && match e {
                    ListEdit::Update(k, entry) => old(s)@.screen == Screen::EditServer(k)
                        && entry.name@ == entry_name(old(s)@.edit_name) && entry.address@ == old(s)@.edit_address,
                    ListEdit::Add(entry) => !(old(s)@.screen is EditServer)
                        && entry.name@ == entry_name(old(s)@.edit_name) && entry.address@ == old(s)@.edit_address,
                    ListEdit::Remove(_) => false,
                }
            } else {
                final(s)@ == old(s)@ && r.edit is None && r.ping is None
            },
        },
{
    match i {
        FormInput::Escape | FormInput::Cancel => {
            s.screen = Screen::ServerList;
            FormOutcome { action: MenuAction::NoAction, edit: None, ping: None }
        },
        FormInput::Submit { address_valid } => {
            if !address_valid {
                return FormOutcome { action: MenuAction::NoAction, edit: None, ping: None };
            }
            let name = if s.edit_name.as_str().unicode_len() == 0 {
                String::from_str("Minecraft Server")
            } else {
                s.edit_name.clone()
            };
            proof {
                reveal_strlit("Minecraft Server");
            }
            let entry = ServerEntry { name, address: s.edit_address.clone() };
            let edit = match s.screen {
                Screen::EditServer(k) => ListEdit::Update(k, entry),
                _ => ListEdit::Add(entry),
            };
            let ping = s.edit_address.clone();
            s.screen = Screen::ServerList;
            FormOutcome { action: MenuAction::NoAction, edit: Some(edit), ping: Some(ping) }
        },
    }
}

/// One input on the screen that confirms deleting the server at `index`:
/// Escape and Cancel go back to the server list; Delete asks to delete the
/// entry, clears the selection and goes back to the server list.
pub fn confirm_delete_step(s: &mut ServerListState, index: usize, i: FormInput) -> (r: FormOutcome)
    ensures
        r.action is NoAction && r.ping is None,
        match i {
            FormInput::Escape | FormInput::Cancel => final(s)@ == (ServerListView {
                screen: Screen::ServerList,
                ..old(s)@
            }) && r.edit is None,
            FormInput::Submit { .. } => final(s)@ == (ServerListView {
                screen: Screen::ServerList,
                selected: None,
                ..old(s)@
            }) && (r.edit matches Some(ListEdit::Remove(k)) && k == index),
        },
{
    match i {
        FormInput::Escape | FormInput::Cancel => {
            s.screen = Screen::ServerList;
            FormOutcome { action: MenuAction::NoAction, edit: None, ping: None }
        },
        FormInput::Submit { .. } => {
            s.selected = None;
            s.screen = Screen::ServerList;
            FormOutcome { action: MenuAction::NoAction, edit: Some(ListEdit::Remove(index)), ping: None }
        },
    }
}

/// A click joins a server only when it repeats the previous click on the
/// same entry, and then it joins that entry's server as the player and
/// changes nothing; any other click on an entry selects it.
pub proof fn law_double_click_joins(s: ServerListView, index: usize, since: u128)
    requires
        index < s.servers.len(),
    ensures
        ({
            let (t, (conn, refresh)) = server_list_after(
                s,
                ServerListInput::ClickEntry { index, since_last_click: since },
            );
            &&& !refresh
            &&& (conn is Some <==> (s.last_click == Some(index) && since < DOUBLE_CLICK_MS))
            &&& (conn is Some ==> conn == Some((s.servers[index as int].1, s.username)) && t == s)
            &&& (conn is None ==> t.selected == Some(index) && t.last_click == Some(index)
                && t.servers == s.servers && t.screen == s.screen)
        }),
{
}

/// Escape leaves for the title screen and asks for nothing: no connection,
/// no new ping, and the selection and the saved servers stay as they were.
pub proof fn law_escape_returns_to_title(s: ServerListView)
    ensures
        server_list_after(s, ServerListInput::Escape) == (
            ServerListView { screen: Screen::Main, ..s },
            (Option::<(Seq<char>, Seq<char>)>::None, false),
        ),
{
}

/// No input on the server list screen changes the saved servers or the
/// player's name.
pub proof fn law_list_screen_keeps_servers(s: ServerListView, i: ServerListInput)
    ensures
        server_list_after(s, i).0.servers == s.servers,
        server_list_after(s, i).0.username == s.username,
{
}

} // verus!
