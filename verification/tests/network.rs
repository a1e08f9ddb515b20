use pomc::chat::ChatState;
use pomc::drain::{apply_event, drain_events, DrainState, MAX_EVENTS_PER_DRAIN};
use pomc::interaction::Predictions;
use pomc::packets::{chat_outgoing, packet_response, EntityData, GamePacket, NetEvent, Outgoing, Reply};

fn replies(p: &GamePacket) -> Vec<Reply> {
    packet_response(p).1
}

#[test]
fn keep_alive_is_echoed() {
    let (events, rep) = packet_response(&GamePacket::KeepAlive { id: 0xdead_beef_1234 });
    assert!(events.is_empty());
    assert_eq!(rep, vec![Reply::KeepAlive { id: 0xdead_beef_1234 }]);
}

#[test]
fn teleports_are_accepted() {
    let (events, rep) = packet_response(&GamePacket::PlayerPosition { teleport_id: 7 });
    assert!(matches!(events[..], [NetEvent::PlayerPosition]));
    assert_eq!(rep, vec![Reply::AcceptTeleportation { teleport_id: 7 }]);
}

#[test]
fn chunk_batches_ask_for_at_least_25() {
    assert_eq!(replies(&GamePacket::ChunkBatchFinished { batch_size: 3 }), vec![Reply::ChunkBatchReceived {
        desired_chunks_per_tick: 25
    }]);
    assert_eq!(replies(&GamePacket::ChunkBatchFinished { batch_size: 64 }), vec![Reply::ChunkBatchReceived {
        desired_chunks_per_tick: 64
    }]);
}

#[test]
fn only_the_players_inventory_is_reported() {
    let item = Some((12u32, 3i32));
    let (own, _) = packet_response(&GamePacket::ContainerSetSlot { container_id: 0, slot: 36, item });
    assert!(matches!(own[..], [NetEvent::InventorySlot { index: 36, item: Some((12, 3)) }]));
    let (cursor, _) = packet_response(&GamePacket::ContainerSetSlot { container_id: -2, slot: 1, item: None });
    assert_eq!(cursor.len(), 1);
    let (chest, _) = packet_response(&GamePacket::ContainerSetSlot { container_id: 5, slot: 1, item });
    assert!(chest.is_empty());
    let (all, _) = packet_response(&GamePacket::ContainerSetContent { container_id: 0, items: vec![None, item] });
    match &all[..] {
        [NetEvent::InventoryContent { items }] => assert_eq!(items, &vec![None, item]),
        _ => panic!("expected the inventory"),
    }
    let (other, _) = packet_response(&GamePacket::ContainerSetContent { container_id: 1, items: vec![item] });
    assert!(other.is_empty());
}

#[test]
fn section_updates_are_placed_in_the_world() {
    let p = GamePacket::SectionBlocksUpdate { section: (-1, 4, 2), states: vec![((0, 1, 15), 9), ((15, 0, 0), 1)] };
    let (events, rep) = packet_response(&p);
    assert!(rep.is_empty());
    match &events[..] {
        [NetEvent::SectionBlocksUpdate { updates }] => {
            assert_eq!(updates, &vec![((-16, 65, 47), 9), ((-1, 64, 32), 1)]);
        },
        _ => panic!("expected one section update"),
    }
}

#[test]
fn login_chat_time_and_others() {
    let (login, _) = packet_response(&GamePacket::Login { game_mode: 1, dimension: Some((384, -64)) });
    assert!(matches!(
        login[..],
        [NetEvent::DimensionInfo { height: 384, min_y: -64 }, NetEvent::GameModeChanged { game_mode: 1 }]
    ));
    let (login, _) = packet_response(&GamePacket::Login { game_mode: 0, dimension: None });
    assert!(matches!(login[..], [NetEvent::GameModeChanged { game_mode: 0 }]));
    let (overlay, _) = packet_response(&GamePacket::SystemChat { overlay: true, text: "x".to_string() });
    assert!(overlay.is_empty());
    let (chat, _) = packet_response(&GamePacket::SystemChat { overlay: false, text: "hi".to_string() });
    assert!(matches!(&chat[..], [NetEvent::ChatMessage { text }] if text == "hi"));
    let (time, _) = packet_response(&GamePacket::SetTime { game_time: 100, first_clock: None });
    assert!(matches!(time[..], [NetEvent::TimeUpdate { game_time: 100, day_time: 0 }]));
    let (game, _) = packet_response(&GamePacket::GameEvent { changes_game_mode: false, game_mode: 3 });
    assert!(game.is_empty());
    let (other, rep) = packet_response(&GamePacket::Other);
    assert!(other.is_empty() && rep.is_empty());
}

fn drain_state() -> DrainState {
    DrainState { predictions: Predictions::new(), chat: ChatState::new(), to_mesh: Vec::new() }
}

#[test]
fn block_updates_wait_for_predictions_to_be_acknowledged() {
    let mut s = drain_state();
    s.predictions.predict((17, 64, -3), 5);
    let held = apply_event(&mut s, &NetEvent::BlockUpdate { pos: (17, 64, -3), state: 2 });
    assert!(held.is_empty());
    assert!(s.to_mesh.is_empty());
    let elsewhere = apply_event(&mut s, &NetEvent::BlockUpdate { pos: (0, 64, 0), state: 2 });
    assert_eq!(elsewhere, vec![((0, 64, 0), 2)]);
    assert_eq!(s.to_mesh, vec![(0, 0)]);
    apply_event(&mut s, &NetEvent::BlockChangedAck { seq: 4 });
    assert!(apply_event(&mut s, &NetEvent::BlockUpdate { pos: (17, 64, -3), state: 2 }).is_empty());
    apply_event(&mut s, &NetEvent::BlockChangedAck { seq: 5 });
    let applied = apply_event(&mut s, &NetEvent::BlockUpdate { pos: (17, 64, -3), state: 2 });
    assert_eq!(applied, vec![((17, 64, -3), 2)]);
    assert_eq!(s.to_mesh, vec![(0, 0), (1, -1)]);
}

#[test]
fn section_updates_mesh_each_chunk_once() {
    let mut s = drain_state();
    s.predictions.predict((1, 1, 1), 1);
    let updates = vec![((1, 1, 1), 4), ((2, 5, 3), 4), ((-1, 0, 0), 4)];
    let writes = apply_event(&mut s, &NetEvent::SectionBlocksUpdate { updates: updates.clone() });
    assert_eq!(writes, updates);
    assert_eq!(s.to_mesh, vec![(0, 0), (-1, 0)]);
}

#[test]
fn chat_lines_join_the_history() {
    let mut s = drain_state();
    apply_event(&mut s, &NetEvent::ChatMessage { text: "hello".to_string() });
    s.chat.open();
    assert_eq!(s.chat.visible_lines_at(&vec![0]), vec!["hello".to_string()]);
    assert!(apply_event(&mut s, &NetEvent::ServerViewDistance { distance: 8 }).is_empty());
}

#[test]
fn chat_lines_go_out_as_commands_or_messages() {
    assert!(matches!(chat_outgoing("/gamemode creative"), Outgoing::ChatCommand { command } if command == "gamemode creative"));
    assert!(matches!(chat_outgoing("//wand"), Outgoing::ChatCommand { command } if command == "/wand"));
    assert!(matches!(chat_outgoing("/"), Outgoing::ChatCommand { command } if command.is_empty()));
    assert!(matches!(chat_outgoing("hello /all"), Outgoing::Chat { message } if message == "hello /all"));
    assert!(matches!(chat_outgoing(""), Outgoing::Chat { message } if message.is_empty()));
}

#[test]
fn chunk_columns_and_entities_are_reported() {
    let (ev, _) = packet_response(&GamePacket::LevelChunkWithLight {
        x: 3,
        z: -4,
        data: vec![1, 2, 3],
        heightmaps: vec![(1, vec![7, 8])],
    });
    match &ev[..] {
        [NetEvent::ChunkLoaded { x: 3, z: -4, data, heightmaps }] => {
            assert_eq!(data, &vec![1, 2, 3]);
            assert_eq!(heightmaps, &vec![(1, vec![7, 8])]);
        },
        _ => panic!("expected a chunk"),
    }
    let (ev, _) = packet_response(&GamePacket::RemoveEntities { ids: vec![5, 9] });
    assert!(matches!(&ev[..], [NetEvent::EntitiesRemoved { ids }] if ids == &vec![5, 9]));
    let (ev, _) = packet_response(&GamePacket::SetEntityData {
        entity_id: 12,
        values: vec![
            (8, EntityData::Item { name: "minecraft:apple".to_string(), count: 2 }),
            (16, EntityData::Flag(true)),
            (8, EntityData::NoItem),
            (3, EntityData::Flag(false)),
            (16, EntityData::Other),
        ],
    });
    assert_eq!(ev.len(), 2);
    assert!(matches!(&ev[0], NetEvent::EntityItemData { id: 12, item_name, count: 2 } if item_name == "minecraft:apple"));
    assert!(matches!(ev[1], NetEvent::EntityBabyFlag { id: 12, is_baby: true }));
}

#[test]
fn a_drain_handles_at_most_512_events() {
    let mut s = drain_state();
    let events: Vec<NetEvent> =
        (0..600).map(|i| NetEvent::BlockUpdate { pos: (i * 16, 0, 0), state: 1 }).collect();
    let batch = drain_events(&mut s, &events);
    assert_eq!(batch.consumed, MAX_EVENTS_PER_DRAIN + 1);
    assert_eq!(batch.writes.len(), MAX_EVENTS_PER_DRAIN);
    assert_eq!(batch.mesh.len(), MAX_EVENTS_PER_DRAIN);
    assert!(batch.disconnect.is_none());
    assert!(s.to_mesh.is_empty());
    let first_three: Vec<NetEvent> =
        (0..3).map(|i| NetEvent::BlockUpdate { pos: (i * 16, 0, 0), state: 1 }).collect();
    let few = drain_events(&mut s, &first_three);
    assert_eq!(few.consumed, 3);
    assert_eq!(few.mesh, vec![(0, 0), (1, 0), (2, 0)]);
}

#[test]
fn a_disconnect_meshes_nothing_and_keeps_the_last_reason() {
    let mut s = drain_state();
    let events = vec![
        NetEvent::Disconnected { reason: "first".to_string() },
        NetEvent::BlockUpdate { pos: (1, 2, 3), state: 4 },
        NetEvent::ChatMessage { text: "bye".to_string() },
        NetEvent::Disconnected { reason: "kicked".to_string() },
    ];
    let batch = drain_events(&mut s, &events);
    assert_eq!(batch.disconnect, Some("kicked".to_string()));
    assert!(batch.mesh.is_empty());
    assert_eq!(batch.writes, vec![((1, 2, 3), 4)]);
    assert_eq!(batch.consumed, 4);
    s.chat.open();
    assert_eq!(s.chat.visible_lines_at(&vec![0]), vec!["bye".to_string()]);
}
