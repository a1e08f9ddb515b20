//! The main menu's state that is not drawing: screens, settings, text fields
//! and the server list's ping display.
use vstd::prelude::*;

verus! {

/// The theme of the title screen's panorama.
#[derive(PartialEq, Eq, Structural, Clone, Copy, Debug)]
pub enum PanoramaTheme {
    Pomc,
    Default,
}

/// What the menu asks the game to do.
pub enum MenuAction {
    /// Nothing.
    NoAction,
    Connect { server: String, username: String },
    ChangeTheme(PanoramaTheme),
    Quit,
}

/// What a sign-in prompt leads to once signed in.
#[derive(PartialEq, Eq, Structural, Clone, Copy, Debug)]
pub enum AuthPending {
    /// Nothing.
    NotPending,
    Singleplayer,
    Multiplayer,
}

/// The screens of the main menu.
pub enum Screen {
    Main,
    AuthPrompt { pending: AuthPending },
    Auth { pending: AuthPending },
    ServerList,
    ConfirmDelete(usize),
    DirectConnect,
    AddServer,
    EditServer(usize),
    Disconnected(String),
    Options,
    OptionsVideo,
    OptionsSkinCustomization,
    OptionsMusicSounds,
    OptionsControls,
    OptionsKeybinds,
    OptionsLanguage,
    OptionsChatSettings,
    OptionsResourcePacks,
    OptionsAccessibility,
    OptionsTelemetry,
    OptionsCredits,
}

/// The screens that belong to the options menu.
pub open spec fn options_screen(s: Screen) -> bool {
    match s {
        Screen::Options | Screen::OptionsVideo | Screen::OptionsSkinCustomization
        | Screen::OptionsMusicSounds | Screen::OptionsControls | Screen::OptionsKeybinds
        | Screen::OptionsLanguage | Screen::OptionsChatSettings | Screen::OptionsResourcePacks
        | Screen::OptionsAccessibility | Screen::OptionsTelemetry | Screen::OptionsCredits => true,
        _ => false,
    }
}

impl Screen {
    /// A copy of this screen.
    pub fn clone_screen(&self) -> (r: Screen)
        ensures
            r == *self,
    {
        match self {
            Screen::Main => Screen::Main,
            Screen::Options => Screen::Options,
            Screen::OptionsVideo => Screen::OptionsVideo,
            Screen::OptionsSkinCustomization => Screen::OptionsSkinCustomization,
            Screen::OptionsMusicSounds => Screen::OptionsMusicSounds,
            Screen::OptionsControls => Screen::OptionsControls,
            Screen::OptionsKeybinds => Screen::OptionsKeybinds,
            Screen::OptionsLanguage => Screen::OptionsLanguage,
            Screen::OptionsChatSettings => Screen::OptionsChatSettings,
            Screen::OptionsResourcePacks => Screen::OptionsResourcePacks,
            Screen::OptionsAccessibility => Screen::OptionsAccessibility,
            Screen::OptionsTelemetry => Screen::OptionsTelemetry,
            Screen::OptionsCredits => Screen::OptionsCredits,
            Screen::ServerList => Screen::ServerList,
            Screen::DirectConnect => Screen::DirectConnect,
            Screen::AddServer => Screen::AddServer,
            Screen::AuthPrompt { pending } => Screen::AuthPrompt { pending: *pending },
            Screen::Auth { pending } => Screen::Auth { pending: *pending },
            Screen::ConfirmDelete(i) => Screen::ConfirmDelete(*i),
            Screen::EditServer(i) => Screen::EditServer(*i),
            Screen::Disconnected(s) => Screen::Disconnected(s.clone()),
        }
    }

    /// Whether this screen belongs to the options menu.
    pub fn is_options_screen(&self) -> (b: bool)
        ensures
            b == options_screen(*self),
    {
        match self {
            Screen::Options | Screen::OptionsVideo | Screen::OptionsSkinCustomization
            | Screen::OptionsMusicSounds | Screen::OptionsControls | Screen::OptionsKeybinds
            | Screen::OptionsLanguage | Screen::OptionsChatSettings | Screen::OptionsResourcePacks
            | Screen::OptionsAccessibility | Screen::OptionsTelemetry | Screen::OptionsCredits => true,
            _ => false,
        }
    }

    /// Whether this screen edits a server entry (adding or editing).
    pub fn is_edit_form(&self) -> (b: bool)
        ensures
            b == (*self is AddServer || *self is EditServer),
    {
        match self {
            Screen::AddServer | Screen::EditServer(_) => true,
            _ => false,
        }
    }
}

/// The three large buttons of the title screen.
#[derive(PartialEq, Eq, Structural, Clone, Copy, Debug)]
pub enum MainButton {
    Singleplayer,
    Multiplayer,
    Quit,
}

/// What pressing a title-screen button leads to.
#[derive(PartialEq, Eq, Structural, Clone, Copy, Debug)]
pub enum MainChoice {
    /// Nothing changes.
    Stay,
    /// The server list opens.
    ServerList,
    /// The sign-in prompt opens, remembering what to do once signed in.
    SignIn(AuthPending),
    /// The game quits.
    Quit,
}

/// What a title-screen button leads to: Quit quits; without an account the
/// other buttons ask to sign in first; signed in, Multiplayer opens the
/// server list (with `servers::enter_server_list`, which clears the
/// selection) and Singleplayer does nothing.
pub open spec fn main_choice(button: MainButton, signed_in: bool) -> MainChoice {
    match button {
        MainButton::Quit => MainChoice::Quit,
        MainButton::Singleplayer => if signed_in {
            MainChoice::Stay
        } else {
            MainChoice::SignIn(AuthPending::Singleplayer)
        },
        MainButton::Multiplayer => if signed_in {
            MainChoice::ServerList
        } else {
            MainChoice::SignIn(AuthPending::Multiplayer)
        },
    }
}

/// What a title-screen button leads to.
pub fn main_button_choice(button: MainButton, signed_in: bool) -> (c: MainChoice)
    ensures
        c == main_choice(button, signed_in),
{
    match button {
        MainButton::Quit => MainChoice::Quit,
        MainButton::Singleplayer => if signed_in {
            MainChoice::Stay
        } else {
            MainChoice::SignIn(AuthPending::Singleplayer)
        },
        MainButton::Multiplayer => if signed_in {
            MainChoice::ServerList
        } else {
            MainChoice::SignIn(AuthPending::Multiplayer)
        },
    }
}

/// The screen shown once a sign-in succeeds: the server list when it was
/// asked for by Multiplayer (opened with `servers::enter_server_list`, which
/// clears the selection), the title screen otherwise.
pub open spec fn screen_after(pending: AuthPending) -> Screen {
    match pending {
        AuthPending::Multiplayer => Screen::ServerList,
        _ => Screen::Main,
    }
}

/// The screen shown once a sign-in succeeds.
pub fn screen_after_sign_in(pending: AuthPending) -> (s: Screen)
    ensures
        s == screen_after(pending),
{
    match pending {
        AuthPending::Multiplayer => Screen::ServerList,
        _ => Screen::Main,
    }
}

/// A play button pressed while signed out leads, once the sign-in succeeds,
/// where it leads when signed in: the server list for Multiplayer, the title
/// screen for Singleplayer.
pub proof fn law_sign_in_resumes(button: MainButton)
    requires
        button != MainButton::Quit,
    ensures
        main_choice(button, false) matches MainChoice::SignIn(p) && ({
            let s = screen_after(p);
            &&& main_choice(button, true) == MainChoice::ServerList ==> s == Screen::ServerList
            &&& main_choice(button, true) == MainChoice::Stay ==> s == Screen::Main
        }),
{
}

/// The small icons under the title-screen buttons.
#[derive(PartialEq, Eq, Structural, Clone, Copy, Debug)]
pub enum MenuIcon {
    User,
    Link,
    Gear,
    Paintbrush,
}

/// The title screen's two drop-down lists.
#[derive(PartialEq, Eq, Structural, Clone, Copy, Debug)]
pub struct Dropdowns {
    pub links_open: bool,
    pub theme_open: bool,
}

/// Where a title-screen icon leads.
#[derive(PartialEq, Eq, Structural, Clone, Copy, Debug)]
pub enum IconTarget {
    /// The title screen stays.
    Stay,
    /// The sign-in prompt opens, with nothing to do afterwards.
    SignIn,
    /// The options screen opens.
    Options,
}

/// What clicking a title-screen icon does: the user icon asks to sign in
/// when signed out; the link and paintbrush icons toggle their lists, and
/// opening one closes the other; the gear opens the options.
pub open spec fn icon_effect(icon: MenuIcon, signed_in: bool, d: Dropdowns) -> (IconTarget, Dropdowns) {
    match icon {
        MenuIcon::User => (if signed_in { IconTarget::Stay } else { IconTarget::SignIn }, d),
        MenuIcon::Gear => (IconTarget::Options, d),
        MenuIcon::Link => (IconTarget::Stay, Dropdowns {
            links_open: !d.links_open,
            theme_open: if !d.links_open { false } else { d.theme_open },
        }),
        MenuIcon::Paintbrush => (IconTarget::Stay, Dropdowns {
            links_open: if !d.theme_open { false } else { d.links_open },
            theme_open: !d.theme_open,
        }),
    }
}

/// What clicking a title-screen icon does.
pub fn icon_click(icon: MenuIcon, signed_in: bool, d: Dropdowns) -> (r: (IconTarget, Dropdowns))
    ensures
        r == icon_effect(icon, signed_in, d),
{
    match icon {
        MenuIcon::User => (if signed_in { IconTarget::Stay } else { IconTarget::SignIn }, d),
        MenuIcon::Gear => (IconTarget::Options, d),
        MenuIcon::Link => {
            let links_open = !d.links_open;
            (IconTarget::Stay, Dropdowns { links_open, theme_open: if links_open { false } else { d.theme_open } })
        },
        MenuIcon::Paintbrush => {
            let theme_open = !d.theme_open;
            (IconTarget::Stay, Dropdowns { links_open: if theme_open { false } else { d.links_open }, theme_open })
        },
    }
}

/// Clicking an icon never leaves both lists open.
pub proof fn law_one_dropdown_open(icon: MenuIcon, signed_in: bool, d: Dropdowns)
    requires
        !(d.links_open && d.theme_open),
    ensures
        !(icon_effect(icon, signed_in, d).1.links_open && icon_effect(icon, signed_in, d).1.theme_open),
{
}

/// The video settings kept between sessions.
pub struct Settings {
    pub gui_scale: u32,
    pub render_distance: u32,
    pub simulation_distance: u32,
}

impl Default for Settings {
    fn default() -> (s: Self)
        ensures
            s.gui_scale == 0,
            s.render_distance == 12,
            s.simulation_distance == 12,
    {
        Settings { gui_scale: 0, render_distance: 12, simulation_distance: 12 }
    }
}

/// The text field that Tab moves the focus to: the next one, wrapping
/// around, or the first when none has the focus.
pub fn next_focus(focused: Option<u8>, field_count: u8) -> (r: u8)
    requires
        field_count > 0,
        focused matches Some(f) ==> f < 255,
    ensures
        focused matches Some(f) ==> r == (f + 1) % (field_count as int),
        focused is None ==> r == 0,
{
    match focused {
        Some(f) => (f + 1) % field_count,
        None => 0,
    }
}

/// The text fields of the server forms.
#[derive(PartialEq, Eq, Structural, Clone, Copy, Debug)]
pub enum TextField {
    Name,
    Address,
}

/// The field that typing goes to: on the add and edit forms the first field
/// is the name and the second the address; on the direct-connect form the
/// only field is the address.
pub fn focused_text_field(is_edit_form: bool, field_idx: u8) -> (r: Option<TextField>)
    ensures
        is_edit_form && field_idx == 0 ==> r == Some(TextField::Name),
        is_edit_form && field_idx == 1 ==> r == Some(TextField::Address),
        !is_edit_form && field_idx == 0 ==> r == Some(TextField::Address),
        !(is_edit_form && field_idx <= 1) && !(!is_edit_form && field_idx == 0) ==> r is None,
{
    if is_edit_form && field_idx == 0 {
        Some(TextField::Name)
    } else if is_edit_form && field_idx == 1 {
        Some(TextField::Address)
    } else if !is_edit_form && field_idx == 0 {
        Some(TextField::Address)
    } else {
        None
    }
}

/// The text of a field after one frame of typing: the typed characters are
/// appended, then `backspace` deletes the last character.
pub fn edit_text(text: &mut String, typed: &[char], backspace: bool)
    ensures
        final(text)@ == {
            let t = old(text)@ + typed@;
            if backspace && t.len() > 0 {
                t.drop_last()
            } else {
                t
            }
        },
{
    let mut i: usize = 0;
    while i < typed.len()
        invariant
            i <= typed.len(),
            text@ == old(text)@ + typed@.take(i as int),
        decreases typed.len() - i,
    {
        text.push(typed[i]);
        i = i + 1;
        assert(typed@.take(i as int) == typed@.take(i - 1).push(typed@[i - 1]));
    }
    assert(typed@.take(typed.len() as int) == typed@);
    if backspace {
        text.pop();
    }
}

/// The signal bars shown for a server's ping.
pub open spec fn ping_bars_for(ms: u64) -> u8 {
    if ms < 150 {
        5
    } else if ms < 300 {
        4
    } else if ms < 600 {
        3
    } else if ms < 1000 {
        2
    } else {
        1
    }
}

/// The signal bars shown for a server's ping: five under 150 ms, down to one
/// from a second on.
pub fn ping_bars(ms: u64) -> (b: u8)
    ensures
        b == ping_bars_for(ms),
{
    if ms < 150 {
        5
    } else if ms < 300 {
        4
    } else if ms < 600 {
        3
    } else if ms < 1000 {
        2
    } else {
        1
    }
}

/// A slower ping never shows more bars.
pub proof fn law_ping_bars_monotone(a: u64, b: u64)
    requires
        a <= b,
    ensures
        ping_bars_for(b) <= ping_bars_for(a),
        1 <= ping_bars_for(a) <= 5,
{
}

} // verus!
