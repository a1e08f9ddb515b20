use std::time::Instant;

use pomc::chat::{ChatState, VISIBLE_MESSAGES};
use pomc::image::{
    destroy_atlas, STAGE_COUNT,
    blit_image, crop_inventory, fallback_skin, fallback_texture, item_slot_origin, missing_sprite,
    pack_sprites, solid_pixels, SpriteId, INV_TEX_H, INV_TEX_W,
};
use pomc::menu::{
    icon_click, main_button_choice, screen_after_sign_in, Dropdowns, IconTarget, MainButton,
    MainChoice, MenuAction, MenuIcon,
    edit_text, focused_text_field, next_focus, ping_bars, AuthPending, Screen, Settings, TextField,
};
use pomc::net::friendly_error_reason;
use pomc::servers::{
    confirm_delete_step, direct_connect_step, enter_server_list, server_form_step, server_list_step, FormInput, ListEdit,
    ServerEntry, ServerListInput, ServerListOutcome, ServerListState,
};
use pomc::sound::{sound_type_from_wire, sound_type_to_wire, total_weight, Attenuation, SoundEngine, SoundType};

#[test]
fn chat_typing_and_sending() {
    let mut chat = ChatState::new();
    assert!(!chat.is_open());
    assert_eq!(chat.handle_key_input(&['x'], false, true), None);
    chat.open();
    assert!(chat.is_open());
    assert_eq!(chat.handle_key_input(&['h', 'i', '!'], true, false), None);
    assert_eq!(chat.handle_key_input(&[], false, true), Some("hi".to_string()));
    assert!(!chat.is_open());
}

#[test]
fn chat_empty_message_is_not_sent() {
    let mut chat = ChatState::new();
    chat.open();
    assert_eq!(chat.handle_key_input(&['a'], true, true), None);
    assert!(!chat.is_open());
}

#[test]
fn chat_command_prefix() {
    let mut chat = ChatState::new();
    chat.open_with_slash();
    assert_eq!(chat.handle_key_input(&['t', 'p'], false, true), Some("/tp".to_string()));
}

#[test]
fn chat_close_keeps_input() {
    let mut chat = ChatState::new();
    chat.open();
    chat.handle_key_input(&['a', 'b'], false, false);
    chat.close();
    assert!(!chat.is_open());
    chat.open();
    assert_eq!(chat.handle_key_input(&['c'], false, true), Some("c".to_string()));
}

#[test]
fn chat_shows_newest_lines_first() {
    let mut chat = ChatState::new();
    for i in 0..12 {
        chat.push_message(format!("m{i}"));
    }
    chat.open();
    let lines = chat.visible_lines(&Instant::now());
    assert_eq!(lines.len(), VISIBLE_MESSAGES);
    assert_eq!(lines[0], "m11");
    assert_eq!(lines[9], "m2");
}

#[test]
fn chat_history_is_bounded() {
    let mut chat = ChatState::new();
    for i in 0..105 {
        chat.push_message(format!("m{i}"));
    }
    chat.open();
    let lines = chat.visible_lines(&Instant::now());
    assert_eq!(lines[0], "m104");
    assert_eq!(lines.len(), 10);
}

#[test]
fn chat_recent_lines_show_while_closed() {
    let mut chat = ChatState::new();
    chat.push_message("hello".to_string());
    let lines = chat.visible_lines(&Instant::now());
    assert_eq!(lines, vec!["hello".to_string()]);
}

#[test]
fn menu_focus_cycles() {
    assert_eq!(next_focus(None, 2), 0);
    assert_eq!(next_focus(Some(0), 2), 1);
    assert_eq!(next_focus(Some(1), 2), 0);
    assert_eq!(next_focus(Some(0), 1), 0);
}

#[test]
fn menu_text_fields() {
    assert_eq!(focused_text_field(true, 0), Some(TextField::Name));
    assert_eq!(focused_text_field(true, 1), Some(TextField::Address));
    assert_eq!(focused_text_field(false, 0), Some(TextField::Address));
    assert_eq!(focused_text_field(false, 1), None);
    assert_eq!(focused_text_field(true, 2), None);
    let mut text = "localhos".to_string();
    edit_text(&mut text, &['t', 'x'], true);
    assert_eq!(text, "localhost");
    let mut empty = String::new();
    edit_text(&mut empty, &[], true);
    assert_eq!(empty, "");
}

#[test]
fn menu_screens() {
    assert!(Screen::OptionsVideo.is_options_screen());
    assert!(Screen::OptionsCredits.is_options_screen());
    assert!(!Screen::ServerList.is_options_screen());
    assert!(Screen::AddServer.is_edit_form());
    assert!(Screen::EditServer(3).is_edit_form());
    assert!(!Screen::DirectConnect.is_edit_form());
    match (Screen::Auth { pending: AuthPending::Multiplayer }).clone_screen() {
        Screen::Auth { pending } => assert_eq!(pending, AuthPending::Multiplayer),
        _ => panic!("expected the same screen"),
    }
    match Screen::Disconnected("kicked".to_string()).clone_screen() {
        Screen::Disconnected(r) => assert_eq!(r, "kicked"),
        _ => panic!("expected the same screen"),
    }
    let s = Settings::default();
    assert_eq!((s.gui_scale, s.render_distance, s.simulation_distance), (0, 12, 12));
}

#[test]
fn ping_signal_bars() {
    assert_eq!(ping_bars(0), 5);
    assert_eq!(ping_bars(149), 5);
    assert_eq!(ping_bars(150), 4);
    assert_eq!(ping_bars(599), 3);
    assert_eq!(ping_bars(999), 2);
    assert_eq!(ping_bars(1000), 1);
    assert!(ping_bars(5000) <= ping_bars(200));
}

#[test]
fn connection_error_wording() {
    assert_eq!(friendly_error_reason("io error: Connection refused (os error 111)"), "Connection refused");
    assert_eq!(friendly_error_reason("Connection closed by peer"), "Server closed");
    assert_eq!(friendly_error_reason("write failed: broken pipe"), "Server closed");
    assert_eq!(friendly_error_reason("operation timed out"), "Connection timed out");
    assert_eq!(friendly_error_reason("failed to lookup address information"), "Unknown host");
    assert_eq!(friendly_error_reason("kicked: bye"), "kicked: bye");
}

#[test]
fn sound_type_names() {
    assert_eq!(SoundType::from_name("file"), Some(SoundType::File));
    assert_eq!(SoundType::from_name("event"), Some(SoundType::SoundEvent));
    assert_eq!(SoundType::from_name("music"), None);
    assert_eq!(SoundType::File.as_str(), "file");
    assert_eq!(sound_type_to_wire(SoundType::SoundEvent), "event");
    assert_eq!(sound_type_from_wire("event".to_string()), Ok(SoundType::SoundEvent));
    assert_eq!(sound_type_from_wire("xyz".to_string()), Err("xyz".to_string()));
    for t in [SoundType::File, SoundType::SoundEvent] {
        assert_eq!(SoundType::from_name(t.as_str()), Some(t));
    }
    assert_ne!(Attenuation::NoAttenuation, Attenuation::Linear);
    let engine = SoundEngine::new(7u32);
    assert_eq!(engine.assets, 7);
}

#[test]
fn blit_copies_inside_bounds() {
    // a 4x2 target and a 2x2 source, copied to (1, 0)
    let mut dst = vec![0u8; 4 * 2 * 4];
    let src: Vec<u8> = (1..=16).collect();
    blit_image(&mut dst, 4, &src, 2, 1, 0, 2, 2);
    assert_eq!(&dst[0..4], &[0, 0, 0, 0]);
    assert_eq!(&dst[4..8], &[1, 2, 3, 4]);
    assert_eq!(&dst[8..12], &[5, 6, 7, 8]);
    assert_eq!(&dst[16..20], &[0, 0, 0, 0]);
    assert_eq!(&dst[20..24], &[9, 10, 11, 12]);
    assert_eq!(&dst[24..28], &[13, 14, 15, 16]);
}

#[test]
fn blit_skips_pixels_outside_target() {
    let mut dst = vec![0u8; 2 * 2 * 4];
    let src = vec![7u8; 3 * 3 * 4];
    blit_image(&mut dst, 2, &src, 3, 1, 1, 3, 3);
    assert_eq!(&dst[12..16], &[7, 7, 7, 7]);
    assert_eq!(&dst[0..12], &[0u8; 12]);
}

#[test]
fn solid_images() {
    let v = solid_pixels(3, [1, 2, 3, 4]);
    assert_eq!(v, vec![1, 2, 3, 4, 1, 2, 3, 4, 1, 2, 3, 4]);
    let (skin, w, h) = fallback_skin();
    assert_eq!((w, h), (64, 64));
    assert_eq!(skin.len(), 64 * 64 * 4);
    assert_eq!(&skin[0..4], &[196, 161, 125, 255]);
    let (tex, w, h) = fallback_texture(8);
    assert_eq!((w, h), (8, 8));
    assert_eq!(&tex[252..256], &[219, 148, 148, 255]);
    assert_eq!(missing_sprite(), (vec![255, 0, 255, 255], 1, 1));
}

#[test]
fn inventory_crop() {
    let full_w = 256u32;
    let full_h = 256u32;
    let rgba: Vec<u8> = (0..full_w * full_h * 4).map(|i| (i % 251) as u8).collect();
    let (out, w, h) = crop_inventory(&rgba, full_w, full_h);
    assert_eq!((w, h), (INV_TEX_W, INV_TEX_H));
    assert_eq!(out.len(), (176 * 166 * 4) as usize);
    let y = 10usize;
    let x = 5usize;
    assert_eq!(out[y * 176 * 4 + x], rgba[y * 256 * 4 + x]);

    let small: Vec<u8> = vec![9u8; 4 * 4 * 4];
    let (out, w, h) = crop_inventory(&small, 4, 4);
    assert_eq!((w, h), (4, 4));
    assert_eq!(out, small);
}

#[test]
fn sprite_packing() {
    let sizes = vec![(10, 10), (10, 5), (30, 20), (2, 2), (5, 5)];
    let placed = pack_sprites(&sizes, 32);
    assert_eq!(placed[0], Some((0, 0)));
    assert_eq!(placed[1], Some((10, 0)));
    assert_eq!(placed[2], Some((0, 10)));
    assert_eq!(placed[3], Some((30, 10)));
    assert_eq!(placed[4], None);
}

#[test]
fn item_slots() {
    assert_eq!(item_slot_origin(0), Some((0, 0)));
    assert_eq!(item_slot_origin(33), Some((16, 16)));
    assert_eq!(item_slot_origin(1023), Some((496, 496)));
    assert_eq!(item_slot_origin(1024), None);
}

#[test]
fn sprites() {
    let all = SpriteId::all();
    assert_eq!(all.len(), 14);
    assert_eq!(all[13], SpriteId::InventoryBackground);
    assert_eq!(SpriteId::Hotbar.asset_key(), "minecraft/textures/gui/sprites/hud/hotbar.png");
    assert_eq!(SpriteId::InventoryBackground.asset_key(), "minecraft/textures/gui/container/inventory.png");
}

#[test]
fn item_slots_do_not_overlap() {
    let mut seen = std::collections::HashSet::new();
    for slot in 0..1024 {
        let (x, y) = item_slot_origin(slot).unwrap();
        assert!(x + 16 <= 512 && y + 16 <= 512);
        assert!(seen.insert((x, y)));
    }
}

#[test]
fn sound_weights_add_up() {
    assert_eq!(total_weight(&vec![]), 0);
    assert_eq!(total_weight(&vec![1, 2, 3]), 6);
    assert_eq!(total_weight(&vec![5, -2]), 3);
}

#[test]
fn blit_rows_running_past_the_target_wrap_and_the_last_write_wins() {
    // a 2-pixel-wide target; a 3-pixel-wide source row copied at x = 1 wraps
    // its second and third pixels into the next target row
    let mut dst = vec![0u8; 2 * 3 * 4];
    let src: Vec<u8> = (1..=24).collect();
    blit_image(&mut dst, 2, &src, 3, 1, 0, 3, 2);
    // target pixel 3 gets source (2,0) and then (0,1), which stays
    assert_eq!(&dst[4..8], &[1, 2, 3, 4]);
    assert_eq!(&dst[12..16], &[13, 14, 15, 16]);
    assert_eq!(&dst[16..20], &[17, 18, 19, 20]);
    assert_eq!(&dst[20..24], &[21, 22, 23, 24]);
}

#[test]
fn title_screen_buttons() {
    assert_eq!(main_button_choice(MainButton::Quit, false), MainChoice::Quit);
    assert_eq!(main_button_choice(MainButton::Multiplayer, true), MainChoice::ServerList);
    assert_eq!(main_button_choice(MainButton::Singleplayer, true), MainChoice::Stay);
    assert_eq!(
        main_button_choice(MainButton::Multiplayer, false),
        MainChoice::SignIn(AuthPending::Multiplayer)
    );
    let closed = Dropdowns { links_open: false, theme_open: false };
    let (t, d) = icon_click(MenuIcon::Link, true, closed);
    assert_eq!(t, IconTarget::Stay);
    assert!(d.links_open && !d.theme_open);
    let (_, d) = icon_click(MenuIcon::Paintbrush, true, d);
    assert!(!d.links_open && d.theme_open);
    let (_, d) = icon_click(MenuIcon::Paintbrush, true, d);
    assert_eq!(d, closed);
    assert_eq!(icon_click(MenuIcon::User, false, closed).0, IconTarget::SignIn);
    assert_eq!(icon_click(MenuIcon::User, true, closed).0, IconTarget::Stay);
    assert_eq!(icon_click(MenuIcon::Gear, true, closed).0, IconTarget::Options);
}

#[test]
fn breaking_stages_stack_into_one_atlas() {
    let mut stages: Vec<Option<(Vec<u8>, u32)>> = Vec::new();
    stages.push(None);
    stages.push(Some((vec![7u8; 2 * 2 * 4], 2)));
    for _ in 2..STAGE_COUNT {
        stages.push(None);
    }
    let (pixels, w, h) = destroy_atlas(&stages);
    // the first stage is a transparent 16x16 tile, later missing ones 2x2
    assert_eq!(pixels.len(), 16 * 16 * 4 + 16 + 8 * 16);
    assert!(pixels[..1024].iter().all(|&b| b == 0));
    assert!(pixels[1024..1040].iter().all(|&b| b == 7));
    assert!(pixels[1040..].iter().all(|&b| b == 0));
    assert_eq!((w, h), (2, 20));
}

#[test]
fn sign_in_resumes_the_button_pressed() {
    match main_button_choice(MainButton::Multiplayer, false) {
        MainChoice::SignIn(p) => assert!(matches!(screen_after_sign_in(p), Screen::ServerList)),
        _ => panic!("expected a sign-in"),
    }
    match main_button_choice(MainButton::Singleplayer, false) {
        MainChoice::SignIn(p) => assert!(matches!(screen_after_sign_in(p), Screen::Main)),
        _ => panic!("expected a sign-in"),
    }
    assert!(matches!(screen_after_sign_in(AuthPending::NotPending), Screen::Main));
}

#[test]
fn chat_closed_shows_only_young_lines() {
    let mut chat = ChatState::new();
    for t in ["old", "mid", "new"] {
        chat.push_message(t.to_string());
    }
    // ages are given oldest line first
    let lines = chat.visible_lines_at(&vec![20_000, 9_999, 0]);
    assert_eq!(lines, vec!["new".to_string(), "mid".to_string()]);
    let none = chat.visible_lines_at(&vec![10_000, 10_000, 10_001]);
    assert!(none.is_empty());
    chat.open();
    let all = chat.visible_lines_at(&vec![20_000, 20_000, 20_000]);
    assert_eq!(all, vec!["new".to_string(), "mid".to_string(), "old".to_string()]);
}

#[test]
fn chat_closed_shows_at_most_ten_young_lines() {
    let mut chat = ChatState::new();
    for i in 0..15 {
        chat.push_message(format!("m{i}"));
    }
    let mut ages = vec![0u128; 15];
    ages[14] = 50_000;
    let lines = chat.visible_lines_at(&ages);
    assert_eq!(lines.len(), 10);
    assert_eq!(lines[0], "m13");
    assert_eq!(lines[9], "m4");
}

#[test]
fn sprite_packing_with_sizes_near_the_limit() {
    let big = u32::MAX;
    let sizes = vec![(big, 1), (big, 1), (1, 1)];
    let placed = pack_sprites(&sizes, big);
    assert_eq!(placed[0], Some((0, 0)));
    assert_eq!(placed[1], Some((0, 1)));
    assert_eq!(placed[2], Some((0, 2)));
    let tall = pack_sprites(&vec![(1, big), (1, 1)], 8);
    assert_eq!(tall, vec![None, Some((0, 0))]);
}

fn list_state() -> ServerListState {
    ServerListState {
        screen: Screen::ServerList,
        servers: vec![
            ServerEntry { name: "Home".to_string(), address: "localhost".to_string() },
            ServerEntry { name: "Hub".to_string(), address: "hub.example.org:25566".to_string() },
        ],
        selected: None,
        last_click: None,
        edit_name: "old".to_string(),
        edit_address: "old".to_string(),
        focused_field: None,
        last_mp_ip: "10.0.0.2".to_string(),
        username: "Steve".to_string(),
    }
}

fn connects_to(o: &ServerListOutcome) -> Option<(String, String)> {
    match &o.action {
        MenuAction::Connect { server, username } => Some((server.clone(), username.clone())),
        _ => None,
    }
}

#[test]
fn server_list_click_selects_and_double_click_joins() {
    let mut s = list_state();
    let first = server_list_step(&mut s, ServerListInput::ClickEntry { index: 1, since_last_click: 5000 });
    assert_eq!(connects_to(&first), None);
    assert_eq!(s.selected, Some(1));
    assert_eq!(s.last_click, Some(1));
    let slow = server_list_step(&mut s, ServerListInput::ClickEntry { index: 1, since_last_click: 400 });
    assert_eq!(connects_to(&slow), None);
    let quick = server_list_step(&mut s, ServerListInput::ClickEntry { index: 1, since_last_click: 399 });
    assert_eq!(connects_to(&quick), Some(("hub.example.org:25566".to_string(), "Steve".to_string())));
    let other = server_list_step(&mut s, ServerListInput::ClickEntry { index: 0, since_last_click: 10 });
    assert_eq!(connects_to(&other), None);
    assert_eq!(s.selected, Some(0));
    let past_end = server_list_step(&mut s, ServerListInput::ClickEntry { index: 2, since_last_click: 10 });
    assert_eq!(connects_to(&past_end), None);
    assert_eq!(s.selected, Some(0));
}

#[test]
fn server_list_buttons() {
    let mut s = list_state();
    assert_eq!(connects_to(&server_list_step(&mut s, ServerListInput::Join)), None);
    server_list_step(&mut s, ServerListInput::Edit);
    assert!(matches!(s.screen, Screen::ServerList));
    server_list_step(&mut s, ServerListInput::ClickEntry { index: 0, since_last_click: 9999 });
    let join = server_list_step(&mut s, ServerListInput::Join);
    assert_eq!(connects_to(&join), Some(("localhost".to_string(), "Steve".to_string())));
    server_list_step(&mut s, ServerListInput::Edit);
    assert!(matches!(s.screen, Screen::EditServer(0)));
    assert_eq!(s.edit_name, "Home");
    assert_eq!(s.edit_address, "localhost");
    assert_eq!(s.focused_field, Some(0));
    server_list_step(&mut s, ServerListInput::Delete);
    assert!(matches!(s.screen, Screen::ConfirmDelete(0)));
    server_list_step(&mut s, ServerListInput::AddServer);
    assert!(matches!(s.screen, Screen::AddServer));
    assert_eq!(s.edit_name, "");
    assert_eq!(s.edit_address, "");
    server_list_step(&mut s, ServerListInput::DirectConnect);
    assert!(matches!(s.screen, Screen::DirectConnect));
    assert_eq!(s.edit_address, "10.0.0.2");
    assert!(server_list_step(&mut s, ServerListInput::Refresh).refresh);
    server_list_step(&mut s, ServerListInput::Escape);
    assert!(matches!(s.screen, Screen::Main));
    assert_eq!(s.servers.len(), 2);
}

#[test]
fn escape_and_back_leave_the_server_list_without_an_action() {
    let mut s = list_state();
    s.selected = Some(1);
    let esc = server_list_step(&mut s, ServerListInput::Escape);
    assert!(matches!(esc.action, MenuAction::NoAction));
    assert!(!esc.refresh);
    assert!(matches!(s.screen, Screen::Main));
    assert_eq!(s.selected, Some(1));
    assert_eq!(s.servers.len(), 2);
    s.screen = Screen::ServerList;
    let back = server_list_step(&mut s, ServerListInput::Back);
    assert!(matches!(back.action, MenuAction::NoAction));
    assert!(matches!(s.screen, Screen::Main));
}

#[test]
fn opening_the_server_list_clears_the_selection() {
    let mut s = list_state();
    s.screen = Screen::Main;
    s.selected = Some(1);
    enter_server_list(&mut s);
    assert!(matches!(s.screen, Screen::ServerList));
    assert_eq!(s.selected, None);
}

#[test]
fn direct_connect_form() {
    let mut s = list_state();
    s.screen = Screen::DirectConnect;
    s.edit_address = "play.example.net".to_string();
    let bad = direct_connect_step(&mut s, FormInput::Submit { address_valid: false });
    assert!(matches!(bad.action, MenuAction::NoAction));
    assert_eq!(s.last_mp_ip, "10.0.0.2");
    let ok = direct_connect_step(&mut s, FormInput::Submit { address_valid: true });
    assert!(matches!(&ok.action, MenuAction::Connect { server, username } if server == "play.example.net" && username == "Steve"));
    assert_eq!(s.last_mp_ip, "play.example.net");
    direct_connect_step(&mut s, FormInput::Escape);
    assert!(matches!(s.screen, Screen::ServerList));
}

#[test]
fn server_forms_save_with_a_default_name() {
    let mut s = list_state();
    s.screen = Screen::AddServer;
    s.edit_name = String::new();
    s.edit_address = "mc.example.org".to_string();
    let out = server_form_step(&mut s, FormInput::Submit { address_valid: true });
    match out.edit {
        Some(ListEdit::Add(e)) => {
            assert_eq!(e.name, "Minecraft Server");
            assert_eq!(e.address, "mc.example.org");
        },
        _ => panic!("expected an added entry"),
    }
    assert_eq!(out.ping, Some("mc.example.org".to_string()));
    assert!(matches!(s.screen, Screen::ServerList));

    s.screen = Screen::EditServer(1);
    s.edit_name = "Lobby".to_string();
    let out = server_form_step(&mut s, FormInput::Submit { address_valid: true });
    assert!(matches!(&out.edit, Some(ListEdit::Update(1, e)) if e.name == "Lobby"));

    s.screen = Screen::AddServer;
    let none = server_form_step(&mut s, FormInput::Submit { address_valid: false });
    assert!(none.edit.is_none() && none.ping.is_none());
    assert!(matches!(s.screen, Screen::AddServer));
    server_form_step(&mut s, FormInput::Cancel);
    assert!(matches!(s.screen, Screen::ServerList));
}

#[test]
fn confirming_a_deletion() {
    let mut s = list_state();
    s.selected = Some(0);
    s.screen = Screen::ConfirmDelete(0);
    let keep = confirm_delete_step(&mut s, 0, FormInput::Cancel);
    assert!(keep.edit.is_none());
    assert_eq!(s.selected, Some(0));
    s.screen = Screen::ConfirmDelete(0);
    let del = confirm_delete_step(&mut s, 0, FormInput::Submit { address_valid: true });
    assert!(matches!(del.edit, Some(ListEdit::Remove(0))));
    assert_eq!(s.selected, None);
    assert!(matches!(s.screen, Screen::ServerList));
}
