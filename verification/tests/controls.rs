use pomc::controls::{
    cursor_captured, handle_key, mouse_button_forwarded, scroll_target, ChatOpening, GameKey,
    GameState, Overlays, ScrollTarget,
};

fn playing() -> Overlays {
    Overlays { paused: false, inventory_open: false, show_debug: false }
}

#[test]
fn escape_toggles_pause() {
    let r = handle_key(GameState::InGame, playing(), false, GameKey::Escape, true);
    assert!(r.overlays.paused);
    assert!(r.regrab);
    assert!(!r.to_game_input);
    let back = handle_key(GameState::InGame, r.overlays, false, GameKey::Escape, true);
    assert_eq!(back.overlays, playing());
    assert!(back.to_game_input);
}

#[test]
fn escape_closes_inventory_before_pausing() {
    let o = Overlays { inventory_open: true, ..playing() };
    let r = handle_key(GameState::InGame, o, false, GameKey::Escape, true);
    assert!(!r.overlays.inventory_open);
    assert!(!r.overlays.paused);
}

#[test]
fn inventory_key() {
    let r = handle_key(GameState::InGame, playing(), false, GameKey::KeyE, true);
    assert!(r.overlays.inventory_open);
    assert!(!r.to_game_input);
    let again = handle_key(GameState::InGame, r.overlays, false, GameKey::KeyE, true);
    assert_eq!(again.overlays, playing());
    let paused = Overlays { paused: true, ..playing() };
    let r = handle_key(GameState::InGame, paused, false, GameKey::KeyE, true);
    assert_eq!(r.overlays, paused);
    assert!(!r.regrab);
}

#[test]
fn chat_keys() {
    let r = handle_key(GameState::InGame, playing(), false, GameKey::KeyT, true);
    assert_eq!(r.chat, ChatOpening::Open);
    assert!(!r.to_game_input);
    let r = handle_key(GameState::InGame, playing(), false, GameKey::Enter, true);
    assert_eq!(r.chat, ChatOpening::Open);
    let r = handle_key(GameState::InGame, playing(), false, GameKey::Slash, true);
    assert_eq!(r.chat, ChatOpening::OpenWithSlash);
    let inv = Overlays { inventory_open: true, ..playing() };
    let r = handle_key(GameState::InGame, inv, false, GameKey::KeyT, true);
    assert_eq!(r.chat, ChatOpening::Stays);
    // while the chat is open every key goes to the chat
    let r = handle_key(GameState::InGame, playing(), true, GameKey::Escape, true);
    assert!(r.to_menu_input);
    assert!(!r.to_game_input);
    assert_eq!(r.overlays, playing());
}

#[test]
fn debug_screen_and_other_keys() {
    let r = handle_key(GameState::InGame, playing(), false, GameKey::F3, true);
    assert!(r.overlays.show_debug);
    assert!(r.to_game_input);
    let r = handle_key(GameState::InGame, playing(), false, GameKey::Other, true);
    assert_eq!(r.overlays, playing());
    assert!(r.to_game_input);
    // a released key changes nothing but still reaches the movement input
    let r = handle_key(GameState::InGame, playing(), false, GameKey::Escape, false);
    assert_eq!(r.overlays, playing());
    assert!(r.to_game_input);
}

#[test]
fn menu_and_connecting_keys() {
    let r = handle_key(GameState::Menu, playing(), false, GameKey::Escape, true);
    assert!(r.to_menu_input);
    assert!(!r.disconnect);
    let r = handle_key(GameState::Connecting, playing(), false, GameKey::Escape, true);
    assert!(r.disconnect);
    let r = handle_key(GameState::Connecting, playing(), false, GameKey::Escape, false);
    assert!(!r.disconnect);
    let r = handle_key(GameState::Connecting, playing(), false, GameKey::KeyE, true);
    assert!(!r.disconnect);
}

#[test]
fn cursor_and_mouse_routing() {
    assert!(cursor_captured(GameState::InGame, playing(), false, true));
    assert!(!cursor_captured(GameState::InGame, playing(), true, true));
    assert!(!cursor_captured(GameState::Menu, playing(), false, true));
    assert!(!cursor_captured(GameState::InGame, Overlays { paused: true, ..playing() }, false, true));
    assert_eq!(scroll_target(GameState::Menu, playing()), ScrollTarget::Menu);
    assert_eq!(scroll_target(GameState::InGame, playing()), ScrollTarget::Hotbar);
    assert_eq!(
        scroll_target(GameState::InGame, Overlays { inventory_open: true, ..playing() }),
        ScrollTarget::Ignored
    );
    assert!(mouse_button_forwarded(GameState::Connecting, playing(), false));
    assert!(!mouse_button_forwarded(GameState::InGame, playing(), false));
    assert!(mouse_button_forwarded(GameState::InGame, playing(), true));
}
