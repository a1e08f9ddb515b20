//! How the game window routes keyboard, mouse and scroll input: which
//! overlay a key opens or closes, and which input handler an event goes to.
use vstd::prelude::*;

verus! {

/// What the window is showing.
#[derive(PartialEq, Eq, Structural, Clone, Copy, Debug)]
pub enum GameState {
    Menu,
    Connecting,
    InGame,
}

/// The keys the window itself reacts to; every other key is `Other`.
#[derive(PartialEq, Eq, Structural, Clone, Copy, Debug)]
pub enum GameKey {
    Escape,
    KeyE,
    KeyT,
    Enter,
    Slash,
    F3,
    Other,
}

/// The overlays shown over the world.
#[derive(PartialEq, Eq, Structural, Clone, Copy, Debug)]
pub struct Overlays {
    pub paused: bool,
    pub inventory_open: bool,
    pub show_debug: bool,
}

/// How a key opens the chat.
#[derive(PartialEq, Eq, Structural, Clone, Copy, Debug)]
pub enum ChatOpening {
    Stays,
    Open,
    OpenWithSlash,
}

/// What the window does with a key event.
#[derive(PartialEq, Eq, Structural, Clone, Copy, Debug)]
pub struct KeyResponse {
    /// The overlays after the event.
    pub overlays: Overlays,
    /// Whether and how the chat opens.
    pub chat: ChatOpening,
    /// Whether the cursor grab is to be applied again.
    pub regrab: bool,
    /// Whether the event goes to the menu's (or the chat's) text input.
    pub to_menu_input: bool,
    /// Whether the event goes to the player's movement input.
    pub to_game_input: bool,
    /// Whether the connection attempt is abandoned for the menu.
    pub disconnect: bool,
}

/// The response with the given fields.
pub open spec fn response(o: Overlays, chat: ChatOpening, regrab: bool, to_menu: bool, to_game: bool, disconnect: bool) -> KeyResponse {
    KeyResponse { overlays: o, chat, regrab, to_menu_input: to_menu, to_game_input: to_game, disconnect }
}

/// The response to a key while playing with the chat closed: Escape closes
/// the inventory or else toggles the pause menu; E toggles the inventory
/// unless paused; T or Enter open the chat, and `/` opens it with a slash,
/// unless paused or in the inventory; F3 toggles the debug screen. Only a
/// pressed key does any of that. The event then goes to the movement input
/// unless the game is paused, the inventory is open or the chat opened.
pub open spec fn in_game_response(o: Overlays, key: GameKey, pressed: bool) -> KeyResponse {
    let (o2, chat, regrab) = if !pressed {
        (o, ChatOpening::Stays, false)
    } else {
        match key {
            GameKey::Escape => if o.inventory_open {
                (Overlays { inventory_open: false, ..o }, ChatOpening::Stays, true)
            } else {
                (Overlays { paused: !o.paused, ..o }, ChatOpening::Stays, true)
            },
            GameKey::KeyE => if !o.paused {
                (Overlays { inventory_open: !o.inventory_open, ..o }, ChatOpening::Stays, true)
            } else {
                (o, ChatOpening::Stays, false)
            },
            GameKey::KeyT | GameKey::Enter => if !o.paused && !o.inventory_open {
                (o, ChatOpening::Open, true)
            } else {
                (o, ChatOpening::Stays, false)
            },
            GameKey::Slash => if !o.paused && !o.inventory_open {
                (o, ChatOpening::OpenWithSlash, true)
            } else {
                (o, ChatOpening::Stays, false)
            },
            GameKey::F3 => (Overlays { show_debug: !o.show_debug, ..o }, ChatOpening::Stays, false),
            GameKey::Other => (o, ChatOpening::Stays, false),
        }
    };
    let to_game = !o2.paused && !o2.inventory_open && chat == ChatOpening::Stays;
    response(o2, chat, regrab, false, to_game, false)
}

/// The response of the window to a key event: in the menu the key goes to
/// the menu; while connecting, a pressed Escape abandons the connection;
/// while playing with the chat open the key goes to the chat, and otherwise
/// as `in_game_response` says.
pub open spec fn key_response(state: GameState, o: Overlays, chat_open: bool, key: GameKey, pressed: bool) -> KeyResponse {
    match state {
        GameState::Menu => response(o, ChatOpening::Stays, false, true, false, false),
        GameState::Connecting => response(o, ChatOpening::Stays, false, false, false, pressed && key == GameKey::Escape),
        GameState::InGame => if chat_open {
            response(o, ChatOpening::Stays, false, true, false, false)
        } else {
            in_game_response(o, key, pressed)
        },
    }
}

/// Decides what the window does with a key event.
pub fn handle_key(state: GameState, o: Overlays, chat_open: bool, key: GameKey, pressed: bool) -> (r: KeyResponse)
    ensures
        r == key_response(state, o, chat_open, key, pressed),
{
    match state {
        GameState::Menu => KeyResponse {
            overlays: o,
            chat: ChatOpening::Stays,
            regrab: false,
            to_menu_input: true,
            to_game_input: false,
            disconnect: false,
        },
        GameState::Connecting => KeyResponse {
            overlays: o,
            chat: ChatOpening::Stays,
            regrab: false,
            to_menu_input: false,
            to_game_input: false,
            disconnect: pressed && key == GameKey::Escape,
        },
        GameState::InGame => {
            if chat_open {
                return KeyResponse {
                    overlays: o,
                    chat: ChatOpening::Stays,
                    regrab: false,
                    to_menu_input: true,
                    to_game_input: false,
                    disconnect: false,
                };
            }
            let mut next = o;
            let mut chat = ChatOpening::Stays;
            let mut regrab = false;
            if pressed {
                match key {
                    GameKey::Escape => {
                        if o.inventory_open {
                            next.inventory_open = false;
                        } else {
                            next.paused = !o.paused;
                        }
                        regrab = true;
                    },
                    GameKey::KeyE => {
                        if !o.paused {
                            next.inventory_open = !o.inventory_open;
                            regrab = true;
                        }
                    },
                    GameKey::KeyT | GameKey::Enter => {
                        if !o.paused && !o.inventory_open {
                            chat = ChatOpening::Open;
                            regrab = true;
                        }
                    },
                    GameKey::Slash => {
                        if !o.paused && !o.inventory_open {
                            chat = ChatOpening::OpenWithSlash;
                            regrab = true;
                        }
                    },
                    GameKey::F3 => {
                        next.show_debug = !o.show_debug;
                    },
                    GameKey::Other => {},
                }
            }
            let to_game = !next.paused && !next.inventory_open && chat == ChatOpening::Stays;
            KeyResponse {
                overlays: next,
                chat,
                regrab,
                to_menu_input: false,
                to_game_input: to_game,
                disconnect: false,
            }
        },
    }
}

/// Whether the cursor is held by the window: only while playing with no
/// overlay open and the movement input holding it.
pub fn cursor_captured(state: GameState, o: Overlays, chat_open: bool, input_captured: bool) -> (b: bool)
    ensures
        b == (state == GameState::InGame && !o.paused && !o.inventory_open && !chat_open && input_captured),
{
    state == GameState::InGame && !o.paused && !o.inventory_open && !chat_open && input_captured
}

/// Where a scroll of the mouse wheel goes.
#[derive(PartialEq, Eq, Structural, Clone, Copy, Debug)]
pub enum ScrollTarget {
    /// The menu scrolls.
    Menu,
    /// The hotbar selection moves.
    Hotbar,
    /// The scroll is ignored.
    Ignored,
}

/// Where a scroll goes: to the menu in the menu or while connecting, to the
/// hotbar while playing outside the inventory.
pub fn scroll_target(state: GameState, o: Overlays) -> (t: ScrollTarget)
    ensures
        state != GameState::InGame ==> t == ScrollTarget::Menu,
        state == GameState::InGame && !o.inventory_open ==> t == ScrollTarget::Hotbar,
        state == GameState::InGame && o.inventory_open ==> t == ScrollTarget::Ignored,
{
    if state == GameState::Menu || state == GameState::Connecting {
        ScrollTarget::Menu
    } else if !o.inventory_open {
        ScrollTarget::Hotbar
    } else {
        ScrollTarget::Ignored
    }
}

/// Whether a mouse button event goes to the input handler: in the menu or
/// while connecting, on an overlay, or while the cursor is held.
pub fn mouse_button_forwarded(state: GameState, o: Overlays, input_captured: bool) -> (b: bool)
    ensures
        b == (state != GameState::InGame || o.paused || o.inventory_open || input_captured),
{
    state == GameState::Menu || state == GameState::Connecting || o.paused || o.inventory_open || input_captured
}

/// Escape closes an open inventory and leaves the pause menu as it was.
pub proof fn law_escape_closes_inventory_first(o: Overlays)
    requires
        o.inventory_open,
    ensures
        ({
            let r = key_response(GameState::InGame, o, false, GameKey::Escape, true);
            &&& !r.overlays.inventory_open
            &&& r.overlays.paused == o.paused
        }),
{
}

/// Pressing Escape twice with no inventory open leaves the game as it was.
pub proof fn law_escape_twice_restores(o: Overlays)
    requires
        !o.inventory_open,
    ensures
        ({
            let once = key_response(GameState::InGame, o, false, GameKey::Escape, true).overlays;
            key_response(GameState::InGame, once, false, GameKey::Escape, true).overlays == o
        }),
{
}

/// Pressing E twice while not paused leaves the overlays as they were, and
/// so does pressing F3 twice.
pub proof fn law_toggles_undo(o: Overlays)
    ensures
        !o.paused ==> {
            let once = key_response(GameState::InGame, o, false, GameKey::KeyE, true).overlays;
            key_response(GameState::InGame, once, false, GameKey::KeyE, true).overlays == o
        },
        ({
            let once = key_response(GameState::InGame, o, false, GameKey::F3, true).overlays;
            key_response(GameState::InGame, once, false, GameKey::F3, true).overlays == o
        }),
{
}

/// The movement input never gets a key while the game is paused, the
/// inventory is open or the chat is open or opening, and the menu input
/// gets no key while playing with the chat closed.
pub proof fn law_movement_input_only_when_playing(state: GameState, o: Overlays, chat_open: bool, key: GameKey, pressed: bool)
    ensures
        ({
            let r = key_response(state, o, chat_open, key, pressed);
            &&& r.to_game_input ==> state == GameState::InGame && !chat_open && !r.overlays.paused
                && !r.overlays.inventory_open && r.chat == ChatOpening::Stays
            &&& state == GameState::InGame && !chat_open ==> !r.to_menu_input
        }),
{
}

} // verus!
