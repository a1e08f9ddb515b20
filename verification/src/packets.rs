//! What the client makes of a game packet from the server: the events it
//! hands to the game loop and the packets it answers with. The packets are
//! those whose contents are integers, text and flags; the ones that carry
//! floating-point positions and angles are dealt with beside this.
use vstd::prelude::*;

use crate::text::strip_prefix_text;

verus! {

use vstd::string::StringExecFns;

/// The contents of an inventory slot: the item's kind and count, or nothing.
pub type Slot = Option<(u32, i32)>;

/// A game packet from the server, by the contents the client reads.
pub enum GamePacket {
    /// Joining the world: the player's game mode and, when the server's
    /// registries describe the dimension, its height and lowest `y`.
    Login { game_mode: u8, dimension: Option<(u32, i32)> },
    ForgetLevelChunk { x: i32, z: i32 },
    SetChunkCacheCenter { x: i32, z: i32 },
    /// The server moves the player; the client must accept the teleport.
    PlayerPosition { teleport_id: u32 },
    KeepAlive { id: u64 },
    ChunkBatchFinished { batch_size: u32 },
    ContainerSetContent { container_id: i32, items: Vec<Slot> },
    ContainerSetSlot { container_id: i32, slot: u16, item: Slot },
    SystemChat { overlay: bool, text: String },
    PlayerChat { text: String },
    DisguisedChat { text: String },
    BlockUpdate { pos: (i32, i32, i32), state: u16 },
    /// Block changes inside one section, at positions relative to it.
    SectionBlocksUpdate { section: (i32, i32, i32), states: Vec<((u8, u8, u8), u16)> },
    BlockChangedAck { seq: u32 },
    /// The game time and the total ticks of the first clock listed, if any.
    SetTime { game_time: u64, first_clock: Option<u64> },
    SetChunkCacheRadius { radius: u32 },
    SetSimulationDistance { distance: u32 },
    GameEvent { changes_game_mode: bool, game_mode: u8 },
    Disconnect { reason: String },
    /// A chunk column's data and height maps (each by its kind's number).
    LevelChunkWithLight { x: i32, z: i32, data: Vec<u8>, heightmaps: Vec<(u8, Vec<u64>)> },
    RemoveEntities { ids: Vec<i32> },
    /// An entity's changed data values, each under its index.
    SetEntityData { entity_id: i32, values: Vec<(u8, EntityData)> },
    /// Any other packet.
    Other,
}

/// A value of an entity's data, as far as the client reads it: an item (by
/// its resource name, and count), no item, a flag, or anything else.
pub enum EntityData {
    Item { name: String, count: i32 },
    NoItem,
    Flag(bool),
    Other,
}

/// What the network side tells the game loop.
pub enum NetEvent {
    DimensionInfo { height: u32, min_y: i32 },
    GameModeChanged { game_mode: u8 },
    ChunkUnloaded { x: i32, z: i32 },
    ChunkCacheCenter { x: i32, z: i32 },
    /// The server placed the player; the position itself is floating point
    /// and travels beside this event.
    PlayerPosition,
    InventoryContent { items: Vec<Slot> },
    InventorySlot { index: u16, item: Slot },
    ChatMessage { text: String },
    BlockUpdate { pos: (i32, i32, i32), state: u16 },
    SectionBlocksUpdate { updates: Vec<((i32, i32, i32), u16)> },
    BlockChangedAck { seq: u32 },
    TimeUpdate { game_time: u64, day_time: u64 },
    ServerViewDistance { distance: u32 },
    ServerSimulationDistance { distance: u32 },
    Disconnected { reason: String },
    ChunkLoaded { x: i32, z: i32, data: Vec<u8>, heightmaps: Vec<(u8, Vec<u64>)> },
    EntitiesRemoved { ids: Vec<i32> },
    EntityItemData { id: i32, item_name: String, count: i32 },
    EntityBabyFlag { id: i32, is_baby: bool },
}

/// The contents of a `NetEvent`.
pub enum NetEventView {
    DimensionInfo { height: u32, min_y: i32 },
    GameModeChanged { game_mode: u8 },
    ChunkUnloaded { x: i32, z: i32 },
    ChunkCacheCenter { x: i32, z: i32 },
    PlayerPosition,
    InventoryContent { items: Seq<Slot> },
    InventorySlot { index: u16, item: Slot },
    ChatMessage { text: Seq<char> },
    BlockUpdate { pos: (i32, i32, i32), state: u16 },
    SectionBlocksUpdate { updates: Seq<((i32, i32, i32), u16)> },
    BlockChangedAck { seq: u32 },
    TimeUpdate { game_time: u64, day_time: u64 },
    ServerViewDistance { distance: u32 },
    ServerSimulationDistance { distance: u32 },
    Disconnected { reason: Seq<char> },
    ChunkLoaded { x: i32, z: i32, data: Seq<u8>, heightmaps: Seq<(u8, Seq<u64>)> },
    EntitiesRemoved { ids: Seq<i32> },
    EntityItemData { id: i32, item_name: Seq<char>, count: i32 },
    EntityBabyFlag { id: i32, is_baby: bool },
}

/// The contents of a list of height maps.
pub open spec fn heightmaps_view(h: Seq<(u8, Vec<u64>)>) -> Seq<(u8, Seq<u64>)> {
    h.map_values(|m: (u8, Vec<u64>)| (m.0, m.1@))
}

/// The events an entity's changed data gives, in order: the item it shows
/// (data index 8, an item), and whether it is a baby (data index 16, a flag).
pub open spec fn entity_data_events(id: i32, values: Seq<(u8, EntityData)>) -> Seq<NetEventView>
    decreases values.len(),
{
    if values.len() == 0 {
        Seq::empty()
    } else {
        entity_data_events(id, values.drop_last()) + match values.last() {
            (8, EntityData::Item { name, count }) => seq![NetEventView::EntityItemData { id, item_name: name@, count }],
            (16, EntityData::Flag(b)) => seq![NetEventView::EntityBabyFlag { id, is_baby: b }],
            _ => Seq::empty(),
        }
    }
}

/// A packet the client answers with.
#[derive(PartialEq, Eq, Structural, Clone, Copy, Debug)]
pub enum Reply {
    AcceptTeleportation { teleport_id: u32 },
    KeepAlive { id: u64 },
    /// How many chunks per tick the client asks for; the packet carries it
    /// as floating point, converted from this whole number.
    ChunkBatchReceived { desired_chunks_per_tick: u32 },
}

/// The contents of an event.
pub open spec fn event_view(e: NetEvent) -> NetEventView {
    match e {
        NetEvent::DimensionInfo { height, min_y } => NetEventView::DimensionInfo { height, min_y },
        NetEvent::GameModeChanged { game_mode } => NetEventView::GameModeChanged { game_mode },
        NetEvent::ChunkUnloaded { x, z } => NetEventView::ChunkUnloaded { x, z },
        NetEvent::ChunkCacheCenter { x, z } => NetEventView::ChunkCacheCenter { x, z },
        NetEvent::PlayerPosition => NetEventView::PlayerPosition,
        NetEvent::InventoryContent { items } => NetEventView::InventoryContent { items: items@ },
        NetEvent::InventorySlot { index, item } => NetEventView::InventorySlot { index, item },
        NetEvent::ChatMessage { text } => NetEventView::ChatMessage { text: text@ },
        NetEvent::BlockUpdate { pos, state } => NetEventView::BlockUpdate { pos, state },
        NetEvent::SectionBlocksUpdate { updates } => NetEventView::SectionBlocksUpdate { updates: updates@ },
        NetEvent::BlockChangedAck { seq } => NetEventView::BlockChangedAck { seq },
        NetEvent::TimeUpdate { game_time, day_time } => NetEventView::TimeUpdate { game_time, day_time },
        NetEvent::ServerViewDistance { distance } => NetEventView::ServerViewDistance { distance },
        NetEvent::ServerSimulationDistance { distance } => NetEventView::ServerSimulationDistance { distance },
        NetEvent::Disconnected { reason } => NetEventView::Disconnected { reason: reason@ },
        NetEvent::ChunkLoaded { x, z, data, heightmaps } => NetEventView::ChunkLoaded {
            x,
            z,
            data: data@,
            heightmaps: heightmaps_view(heightmaps@),
        },
        NetEvent::EntitiesRemoved { ids } => NetEventView::EntitiesRemoved { ids: ids@ },
        NetEvent::EntityItemData { id, item_name, count } => NetEventView::EntityItemData {
            id,
            item_name: item_name@,
            count,
        },
        NetEvent::EntityBabyFlag { id, is_baby } => NetEventView::EntityBabyFlag { id, is_baby },
    }
}

/// The contents of a list of events.
pub open spec fn events_view(v: Seq<NetEvent>) -> Seq<NetEventView> {
    v.map_values(|e: NetEvent| event_view(e))
}

/// The world coordinate of offset `o` inside section coordinate `s`.
pub open spec fn in_section(s: i32, o: u8) -> int {
    s * 16 + o
}

/// The world position of each changed block of a section, with its state.
pub open spec fn section_updates(section: (i32, i32, i32), states: Seq<((u8, u8, u8), u16)>) -> Seq<((i32, i32, i32), u16)> {
    states.map_values(
        |c: ((u8, u8, u8), u16)|
            (
                (
                    in_section(section.0, c.0.0) as i32,
                    in_section(section.1, c.0.1) as i32,
                    in_section(section.2, c.0.2) as i32,
                ),
                c.1,
            ),
    )
}

/// A coordinate of a section, and every changed block's coordinate in it,
/// are within `i32`: for each change, `s * 16` and `s * 16 + o` are.
pub open spec fn axis_fits(s: i32, o: u8) -> bool {
    i32::MIN <= s * 16 && s * 16 + o <= i32::MAX
}

/// The world positions of a section's changes are all within `i32`.
pub open spec fn section_fits(section: (i32, i32, i32), states: Seq<((u8, u8, u8), u16)>) -> bool {
    forall|k: int|
        0 <= k < states.len() ==> axis_fits(section.0, (#[trigger] states[k]).0.0) && axis_fits(section.1, states[k].0.1)
            && axis_fits(section.2, states[k].0.2)
}

/// A packet whose block positions are all within `i32`.
pub open spec fn packet_fits(p: GamePacket) -> bool {
    match p {
        GamePacket::SectionBlocksUpdate { section, states } => section_fits(section, states@),
        _ => true,
    }
}

/// The events and replies a packet gives. Logging in tells the dimension
/// (when known) and the game mode; a teleport is reported and accepted; a
/// keep-alive is echoed with its id; a finished chunk batch is answered by
/// asking for the batch's size in chunks per tick, at least 25; only the
/// player's own inventory (container 0, and -2 for a single slot) is
/// reported; overlay system messages are not chat; a section's block changes
/// are reported at their world positions; the first clock gives the day
/// time, 0 without one; a game event is reported only when it changes the
/// game mode; a chunk column and removed entities are reported; an entity's
/// data is reported as `entity_data_events` says; other packets give nothing.
pub open spec fn response_of(p: GamePacket) -> (Seq<NetEventView>, Seq<Reply>) {
    let quiet = (Seq::<NetEventView>::empty(), Seq::<Reply>::empty());
    match p {
        GamePacket::Login { game_mode, dimension } => (
            match dimension {
                Some(d) => seq![
                    NetEventView::DimensionInfo { height: d.0, min_y: d.1 },
                    NetEventView::GameModeChanged { game_mode },
                ],
                None => seq![NetEventView::GameModeChanged { game_mode }],
            },
            Seq::empty(),
        ),
        GamePacket::ForgetLevelChunk { x, z } => (seq![NetEventView::ChunkUnloaded { x, z }], Seq::empty()),
        GamePacket::SetChunkCacheCenter { x, z } => (seq![NetEventView::ChunkCacheCenter { x, z }], Seq::empty()),
        GamePacket::PlayerPosition { teleport_id } => (
            seq![NetEventView::PlayerPosition],
            seq![Reply::AcceptTeleportation { teleport_id }],
        ),
        GamePacket::KeepAlive { id } => (Seq::empty(), seq![Reply::KeepAlive { id }]),
        GamePacket::ChunkBatchFinished { batch_size } => (
            Seq::empty(),
            seq![Reply::ChunkBatchReceived {
                desired_chunks_per_tick: if batch_size >= 25 { batch_size } else { 25 },
            }],
        ),
        GamePacket::ContainerSetContent { container_id, items } => if container_id == 0 {
            (seq![NetEventView::InventoryContent { items: items@ }], Seq::empty())
        } else {
            quiet
        },
        GamePacket::ContainerSetSlot { container_id, slot, item } => if container_id == 0 || container_id == -2 {
            (seq![NetEventView::InventorySlot { index: slot, item }], Seq::empty())
        } else {
            quiet
        },
        GamePacket::SystemChat { overlay, text } => if !overlay {
            (seq![NetEventView::ChatMessage { text: text@ }], Seq::empty())
        } else {
            quiet
        },
        GamePacket::PlayerChat { text } => (seq![NetEventView::ChatMessage { text: text@ }], Seq::empty()),
        GamePacket::DisguisedChat { text } => (seq![NetEventView::ChatMessage { text: text@ }], Seq::empty()),
        GamePacket::BlockUpdate { pos, state } => (seq![NetEventView::BlockUpdate { pos, state }], Seq::empty()),
        GamePacket::SectionBlocksUpdate { section, states } => (
            seq![NetEventView::SectionBlocksUpdate { updates: section_updates(section, states@) }],
            Seq::empty(),
        ),
        GamePacket::BlockChangedAck { seq } => (seq![NetEventView::BlockChangedAck { seq }], Seq::empty()),
        GamePacket::SetTime { game_time, first_clock } => (
            seq![NetEventView::TimeUpdate {
                game_time,
                day_time: match first_clock {
                    Some(t) => t,
                    None => 0,
                },
            }],
            Seq::empty(),
        ),
        GamePacket::SetChunkCacheRadius { radius } => (
            seq![NetEventView::ServerViewDistance { distance: radius }],
            Seq::empty(),
        ),
        GamePacket::SetSimulationDistance { distance } => (
            seq![NetEventView::ServerSimulationDistance { distance }],
            Seq::empty(),
        ),
        GamePacket::GameEvent { changes_game_mode, game_mode } => if changes_game_mode {
            (seq![NetEventView::GameModeChanged { game_mode }], Seq::empty())
        } else {
            quiet
        },
        GamePacket::Disconnect { reason } => (seq![NetEventView::Disconnected { reason: reason@ }], Seq::empty()),
        GamePacket::LevelChunkWithLight { x, z, data, heightmaps } => (
            seq![NetEventView::ChunkLoaded { x, z, data: data@, heightmaps: heightmaps_view(heightmaps@) }],
            Seq::empty(),
        ),
        GamePacket::RemoveEntities { ids } => (seq![NetEventView::EntitiesRemoved { ids: ids@ }], Seq::empty()),
        GamePacket::SetEntityData { entity_id, values } => (entity_data_events(entity_id, values@), Seq::empty()),
        GamePacket::Other => quiet,
    }
}

/// The world positions of a section's changes, in order.
fn section_block_positions(section: (i32, i32, i32), states: &Vec<((u8, u8, u8), u16)>) -> (r: Vec<((i32, i32, i32), u16)>)
    requires
        section_fits(section, states@),
    ensures
        r@ == section_updates(section, states@),
{
    let mut r: Vec<((i32, i32, i32), u16)> = Vec::new();
    let mut k: usize = 0;
    while k < states.len()
        invariant
            k <= states@.len(),
            section_fits(section, states@),
            r@ == section_updates(section, states@).take(k as int),
        decreases states.len() - k,
    {
        let ((ox, oy, oz), state) = states[k];
        assert(axis_fits(section.0, states@[k as int].0.0));
        let x = section.0 * 16 + ox as i32;
        let y = section.1 * 16 + oy as i32;
        let z = section.2 * 16 + oz as i32;
        r.push(((x, y, z), state));
        k = k + 1;
        assert(r@ =~= section_updates(section, states@).take(k as int));
    }
    assert(section_updates(section, states@).take(states@.len() as int) =~= section_updates(section, states@));
    r
}

/// A copy of a list of plain values.
fn copy_vec<T: Copy>(v: &Vec<T>) -> (r: Vec<T>)
    ensures
        r@ == v@,
{
    let mut r: Vec<T> = Vec::new();
    let mut k: usize = 0;
    while k < v.len()
        invariant
            k <= v@.len(),
            r@ == v@.take(k as int),
        decreases v.len() - k,
    {
        r.push(v[k]);
        k = k + 1;
        assert(r@ =~= v@.take(k as int));
    }
    assert(v@.take(v@.len() as int) =~= v@);
    r
}

/// A copy of a list of height maps.
fn copy_heightmaps(v: &Vec<(u8, Vec<u64>)>) -> (r: Vec<(u8, Vec<u64>)>)
    ensures
        heightmaps_view(r@) == heightmaps_view(v@),
{
    let mut r: Vec<(u8, Vec<u64>)> = Vec::new();
    let mut k: usize = 0;
    while k < v.len()
        invariant
            k <= v@.len(),
            heightmaps_view(r@) == heightmaps_view(v@).take(k as int),
        decreases v.len() - k,
    {
        let kind = v[k].0;
        let m = copy_vec(&v[k].1);
        let ghost r0 = heightmaps_view(r@);
        r.push((kind, m));
        k = k + 1;
        assert(heightmaps_view(r@) =~= r0.push((kind, m@)));
        assert(heightmaps_view(r@) =~= heightmaps_view(v@).take(k as int));
    }
    assert(heightmaps_view(v@).take(v@.len() as int) =~= heightmaps_view(v@));
    r
}

/// The events an entity's changed data gives, as `entity_data_events` says.
fn entity_events(id: i32, values: &Vec<(u8, EntityData)>) -> (r: Vec<NetEvent>)
    ensures
        events_view(r@) == entity_data_events(id, values@),
{
    let mut r: Vec<NetEvent> = Vec::new();
    let mut k: usize = 0;
    while k < values.len()
        invariant
            k <= values@.len(),
            events_view(r@) == entity_data_events(id, values@.take(k as int)),
        decreases values.len() - k,
    {
        proof {
            assert(values@.take(k + 1).drop_last() =~= values@.take(k as int));
            assert(values@.take(k + 1).last() == values@[k as int]);
        }
        let ghost r0 = events_view(r@);
        let index = values[k].0;
        match &values[k].1 {
            EntityData::Item { name, count } => {
                if index == 8 {
                    r.push(NetEvent::EntityItemData { id, item_name: name.clone(), count: *count });
                    assert(events_view(r@) =~= r0 + seq![
                        NetEventView::EntityItemData { id, item_name: name@, count: *count },
                    ]);
                } else {
                    assert(r0 + Seq::<NetEventView>::empty() =~= r0);
                }
            },
            EntityData::Flag(b) => {
                if index == 16 {
                    r.push(NetEvent::EntityBabyFlag { id, is_baby: *b });
                    assert(events_view(r@) =~= r0 + seq![NetEventView::EntityBabyFlag { id, is_baby: *b }]);
                } else {
                    assert(r0 + Seq::<NetEventView>::empty() =~= r0);
                }
            },
            _ => {
                assert(r0 + Seq::<NetEventView>::empty() =~= r0);
            },
        }
        k = k + 1;
    }
    assert(values@.take(values@.len() as int) =~= values@);
    r
}

/// A list of one event.
fn one(e: NetEvent) -> (r: Vec<NetEvent>)
    ensures
        events_view(r@) == seq![event_view(e)],
{
    let mut r: Vec<NetEvent> = Vec::new();
    r.push(e);
    assert(events_view(r@) =~= seq![event_view(e)]);
    r
}

/// The events and replies for a game packet, as `response_of` says.
pub fn packet_response(p: &GamePacket) -> (r: (Vec<NetEvent>, Vec<Reply>))
    requires
        packet_fits(*p),
    ensures
        events_view(r.0@) == response_of(*p).0,
        r.1@ == response_of(*p).1,
{
    let none: Vec<NetEvent> = Vec::new();
    let no_reply: Vec<Reply> = Vec::new();
    proof {
        assert(events_view(none@) =~= Seq::<NetEventView>::empty());
    }
    match p {
        GamePacket::Login { game_mode, dimension } => {
            let mut ev: Vec<NetEvent> = Vec::new();
            if let Some((height, min_y)) = dimension {
                ev.push(NetEvent::DimensionInfo { height: *height, min_y: *min_y });
            }
            ev.push(NetEvent::GameModeChanged { game_mode: *game_mode });
            proof {
                match dimension {
                    Some(d) => assert(events_view(ev@) =~= seq![
                        NetEventView::DimensionInfo { height: d.0, min_y: d.1 },
                        NetEventView::GameModeChanged { game_mode: *game_mode },
                    ]),
                    None => assert(events_view(ev@) =~= seq![NetEventView::GameModeChanged { game_mode: *game_mode }]),
                }
            }
            (ev, no_reply)
        },
        GamePacket::ForgetLevelChunk { x, z } => (one(NetEvent::ChunkUnloaded { x: *x, z: *z }), no_reply),
        GamePacket::SetChunkCacheCenter { x, z } => (one(NetEvent::ChunkCacheCenter { x: *x, z: *z }), no_reply),
        GamePacket::PlayerPosition { teleport_id } => {
            let mut rep: Vec<Reply> = Vec::new();
            rep.push(Reply::AcceptTeleportation { teleport_id: *teleport_id });
            assert(rep@ =~= seq![Reply::AcceptTeleportation { teleport_id: *teleport_id }]);
            (one(NetEvent::PlayerPosition), rep)
        },
        GamePacket::KeepAlive { id } => {
            let mut rep: Vec<Reply> = Vec::new();
            rep.push(Reply::KeepAlive { id: *id });
            assert(rep@ =~= seq![Reply::KeepAlive { id: *id }]);
            (none, rep)
        },
        GamePacket::ChunkBatchFinished { batch_size } => {
            let desired = if *batch_size >= 25 { *batch_size } else { 25 };
            let mut rep: Vec<Reply> = Vec::new();
            rep.push(Reply::ChunkBatchReceived { desired_chunks_per_tick: desired });
            assert(rep@ =~= seq![Reply::ChunkBatchReceived { desired_chunks_per_tick: desired }]);
            (none, rep)
        },
        GamePacket::ContainerSetContent { container_id, items } => if *container_id == 0 {
            (one(NetEvent::InventoryContent { items: copy_vec(items) }), no_reply)
        } else {
            (none, no_reply)
        },
        GamePacket::ContainerSetSlot { container_id, slot, item } => if *container_id == 0 || *container_id == -2 {
            (one(NetEvent::InventorySlot { index: *slot, item: *item }), no_reply)
        } else {
            (none, no_reply)
        },
        GamePacket::SystemChat { overlay, text } => if !*overlay {
            (one(NetEvent::ChatMessage { text: text.clone() }), no_reply)
        } else {
            (none, no_reply)
        },
        GamePacket::PlayerChat { text } => (one(NetEvent::ChatMessage { text: text.clone() }), no_reply),
        GamePacket::DisguisedChat { text } => (one(NetEvent::ChatMessage { text: text.clone() }), no_reply),
        GamePacket::BlockUpdate { pos, state } => (one(NetEvent::BlockUpdate { pos: *pos, state: *state }), no_reply),
        GamePacket::SectionBlocksUpdate { section, states } => {
            let updates = section_block_positions(*section, states);
            (one(NetEvent::SectionBlocksUpdate { updates }), no_reply)
        },
        GamePacket::BlockChangedAck { seq } => (one(NetEvent::BlockChangedAck { seq: *seq }), no_reply),
        GamePacket::SetTime { game_time, first_clock } => {
            let day_time = match first_clock {
                Some(t) => *t,
                None => 0,
            };
            (one(NetEvent::TimeUpdate { game_time: *game_time, day_time }), no_reply)
        },
        GamePacket::SetChunkCacheRadius { radius } => (
            one(NetEvent::ServerViewDistance { distance: *radius }),
            no_reply,
        ),
        GamePacket::SetSimulationDistance { distance } => (
            one(NetEvent::ServerSimulationDistance { distance: *distance }),
            no_reply,
        ),
        GamePacket::GameEvent { changes_game_mode, game_mode } => if *changes_game_mode {
            (one(NetEvent::GameModeChanged { game_mode: *game_mode }), no_reply)
        } else {
            (none, no_reply)
        },
        GamePacket::Disconnect { reason } => (one(NetEvent::Disconnected { reason: reason.clone() }), no_reply),
        GamePacket::LevelChunkWithLight { x, z, data, heightmaps } => (
            one(NetEvent::ChunkLoaded { x: *x, z: *z, data: copy_vec(data), heightmaps: copy_heightmaps(heightmaps) }),
            no_reply,
        ),
        GamePacket::RemoveEntities { ids } => (one(NetEvent::EntitiesRemoved { ids: copy_vec(ids) }), no_reply),
        GamePacket::SetEntityData { entity_id, values } => (entity_events(*entity_id, values), no_reply),
        GamePacket::Other => (none, no_reply),
    }
}

/// A chat line the player sends, as the packet it goes out in: a command
/// without its leading `/`, or a chat message. The chat message's timestamp
/// comes from the clock and is added beside this.
pub enum Outgoing {
    ChatCommand { command: String },
    Chat { message: String },
}

/// The packet a chat line goes out in: a line that starts with `/` is a
/// command, the rest of the line after that one `/`; any other line is a
/// chat message.
pub open spec fn outgoing_of(msg: Seq<char>) -> (bool, Seq<char>) {
    if msg.len() > 0 && msg[0] == '/' {
        (true, msg.skip(1))
    } else {
        (false, msg)
    }
}

/// The packet a chat line goes out in, as `outgoing_of` says: `true` with
/// the text for a command.
pub fn chat_outgoing(msg: &str) -> (r: Outgoing)
    ensures
        match r {
            Outgoing::ChatCommand { command } => outgoing_of(msg@) == (true, command@),
            Outgoing::Chat { message } => outgoing_of(msg@) == (false, message@),
        },
{
    proof {
        reveal_strlit("/");
    }
    match strip_prefix_text(msg, "/") {
        Some(rest) => {
            proof {
                assert("/"@ =~= seq!['/']);
                assert(msg@.take(1)[0] == msg@[0]);
            }
            Outgoing::ChatCommand { command: String::from_str(rest) }
        },
        None => {
            proof {
                if msg@.len() > 0 && msg@[0] == '/' {
                    assert(msg@.take(1) =~= "/"@);
                }
            }
            Outgoing::Chat { message: String::from_str(msg) }
        },
    }
}

/// Every chat line the server sends reaches the chat as one message with
/// the line's text and no answer: a player's chat, a disguised chat and a
/// system message not shown above the hotbar; a system message shown above
/// the hotbar is not chat.
pub proof fn law_chat_reaches_the_chat(text: String, overlay: bool)
    ensures
        ({
            let p = response_of(GamePacket::PlayerChat { text });
            &&& p.0.len() == 1 && p.0[0] == NetEventView::ChatMessage { text: text@ } && p.1.len() == 0
        }),
        ({
            let d = response_of(GamePacket::DisguisedChat { text });
            &&& d.0.len() == 1 && d.0[0] == NetEventView::ChatMessage { text: text@ } && d.1.len() == 0
        }),
        ({
            let sys = response_of(GamePacket::SystemChat { overlay, text });
            &&& !overlay ==> sys.0.len() == 1 && sys.0[0] == NetEventView::ChatMessage { text: text@ }
            &&& overlay ==> sys.0.len() == 0
            &&& sys.1.len() == 0
        }),
{
}

/// A packet gives events only for what it reports: a packet the client does
/// not read gives nothing; a block change, a chunk unloading or a cache
/// centre gives exactly one event carrying the packet's own values.
pub proof fn law_events_carry_packet_values(pos: (i32, i32, i32), state: u16, x: i32, z: i32, seq: u32)
    ensures
        response_of(GamePacket::Other).0.len() == 0 && response_of(GamePacket::Other).1.len() == 0,
        response_of(GamePacket::BlockUpdate { pos, state }).0 =~= seq![NetEventView::BlockUpdate { pos, state }],
        response_of(GamePacket::ForgetLevelChunk { x, z }).0 =~= seq![NetEventView::ChunkUnloaded { x, z }],
        response_of(GamePacket::SetChunkCacheCenter { x, z }).0 =~= seq![NetEventView::ChunkCacheCenter { x, z }],
        response_of(GamePacket::BlockChangedAck { seq }).0 =~= seq![NetEventView::BlockChangedAck { seq }],
        response_of(GamePacket::PlayerPosition { teleport_id: seq }).1 =~= seq![
            Reply::AcceptTeleportation { teleport_id: seq },
        ],
{
}

/// A finished chunk batch is answered by asking for at least 25 chunks per
/// tick, and for the batch's size when it is larger.
pub proof fn law_chunk_batch_answer(batch_size: u32)
    ensures
        ({
            let r = response_of(GamePacket::ChunkBatchFinished { batch_size }).1;
            &&& r.len() == 1
            &&& r[0] matches Reply::ChunkBatchReceived { desired_chunks_per_tick: d } && d >= 25 && d
                >= batch_size && (batch_size >= 25 ==> d == batch_size)
        }),
{
}

/// Only the player's own inventory is reported: a whole container only for
/// container 0, a single slot only for containers 0 and -2, each with the
/// packet's contents.
pub proof fn law_own_inventory_only(container_id: i32, slot: u16, item: Slot, items: Vec<Slot>)
    ensures
        ({
            let all = response_of(GamePacket::ContainerSetContent { container_id, items }).0;
            let one = response_of(GamePacket::ContainerSetSlot { container_id, slot, item }).0;
            &&& all.len() == (if container_id == 0 { 1int } else { 0 })
            &&& container_id == 0 ==> all[0] == NetEventView::InventoryContent { items: items@ }
            &&& one.len() == (if container_id == 0 || container_id == -2 { 1int } else { 0 })
            &&& container_id == 0 || container_id == -2 ==> one[0] == NetEventView::InventorySlot {
                index: slot,
                item,
            }
        }),
{
}

/// A section's block changes are reported in order, each at the world
/// position of its offset inside the section: sixteen blocks per section
/// along each axis.
pub proof fn law_section_positions(section: (i32, i32, i32), states: Seq<((u8, u8, u8), u16)>, k: int)
    requires
        section_fits(section, states),
        0 <= k < states.len(),
    ensures
        ({
            let u = section_updates(section, states);
            &&& u.len() == states.len()
            &&& u[k].1 == states[k].1
            &&& u[k].0.0 == section.0 * 16 + states[k].0.0
            &&& u[k].0.1 == section.1 * 16 + states[k].0.1
            &&& u[k].0.2 == section.2 * 16 + states[k].0.2
        }),
{
    assert(axis_fits(section.0, states[k].0.0) && axis_fits(section.1, states[k].0.1) && axis_fits(
        section.2,
        states[k].0.2,
    ));
}

/// Every packet is answered at most once, and only a keep-alive, a teleport
/// or a finished chunk batch is answered; a keep-alive is answered by
/// echoing its id.
pub proof fn law_replies(p: GamePacket)
    ensures
        response_of(p).1.len() <= 1,
        response_of(p).1.len() == 1 <==> (p is KeepAlive || p is PlayerPosition || p is ChunkBatchFinished),
        p matches GamePacket::KeepAlive { id } ==> response_of(p).1 == seq![Reply::KeepAlive { id }],
{
}

} // verus!
