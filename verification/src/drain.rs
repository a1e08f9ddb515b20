//! One step of the game loop's handling of network events: block updates
//! (held back while a change of that block made here awaits the server),
//! acknowledgements of such changes, and chat lines. The step returns the
//! block writes to make in the chunk store and keeps the list of chunks to
//! mesh again; the other events are dealt with beside it.
use vstd::prelude::*;

use crate::chat::{history_after_push, ChatState};
use crate::interaction::{after_seq, law_pending_until_acknowledged, BlockPos, Predictions};
use crate::light::div16;
use crate::packets::{event_view, events_view, NetEvent, NetEventView};

verus! {

/// The chunk column a block is in.
pub open spec fn chunk_of(pos: BlockPos) -> (i32, i32) {
    ((pos.0 as int / 16) as i32, (pos.2 as int / 16) as i32)
}

/// The chunks to mesh with `c` added, unless it is already listed.
pub open spec fn with_chunk(v: Seq<(i32, i32)>, c: (i32, i32)) -> Seq<(i32, i32)> {
    if v.contains(c) {
        v
    } else {
        v.push(c)
    }
}

/// The chunks to mesh with the chunk of each update added in order, each
/// chunk at most once more.
pub open spec fn with_chunks(v: Seq<(i32, i32)>, updates: Seq<(BlockPos, u16)>) -> Seq<(i32, i32)>
    decreases updates.len(),
{
    if updates.len() == 0 {
        v
    } else {
        with_chunk(with_chunks(v, updates.drop_last()), chunk_of(updates.last().0))
    }
}

/// What an event does: the pending predictions, the chat history and the
/// chunks to mesh after it, and the block writes it asks for. A block update
/// is held back while a change of that block awaits the server; otherwise it
/// is written and its chunk is meshed again. A section's updates are all
/// written and their chunks meshed again, each once. An acknowledgement
/// settles the predictions up to it. A chat line joins the history.
pub open spec fn drain_after(
    pending: Map<BlockPos, u32>,
    lines: Seq<Seq<char>>,
    to_mesh: Seq<(i32, i32)>,
    e: NetEventView,
) -> (Map<BlockPos, u32>, Seq<Seq<char>>, Seq<(i32, i32)>, Seq<(BlockPos, u16)>) {
    match e {
        NetEventView::BlockUpdate { pos, state } => if pending.contains_key(pos) {
            (pending, lines, to_mesh, Seq::empty())
        } else {
            (pending, lines, to_mesh.push(chunk_of(pos)), seq![(pos, state)])
        },
        NetEventView::SectionBlocksUpdate { updates } => (pending, lines, with_chunks(to_mesh, updates), updates),
        NetEventView::BlockChangedAck { seq } => (after_seq(pending, seq), lines, to_mesh, Seq::empty()),
        NetEventView::ChatMessage { text } => (pending, history_after_push(lines, text), to_mesh, Seq::empty()),
        _ => (pending, lines, to_mesh, Seq::empty()),
    }
}

/// The state the step reads and changes.
pub struct DrainState {
    pub predictions: Predictions,
    pub chat: ChatState,
    pub to_mesh: Vec<(i32, i32)>,
}

/// The chunk column a block is in.
fn chunk_pos(pos: BlockPos) -> (c: (i32, i32))
    ensures
        c == chunk_of(pos),
{
    (div16(pos.0), div16(pos.2))
}

/// Whether `c` is listed.
fn listed(v: &Vec<(i32, i32)>, c: (i32, i32)) -> (b: bool)
    ensures
        b == v@.contains(c),
{
    let mut i: usize = 0;
    while i < v.len()
        invariant
            i <= v@.len(),
            forall|j: int| 0 <= j < i ==> v@[j] != c,
        decreases v.len() - i,
    {
        if v[i].0 == c.0 && v[i].1 == c.1 {
            return true;
        }
        i = i + 1;
    }
    false
}

/// A copy of a list of block writes.
fn copy_writes(v: &Vec<(BlockPos, u16)>) -> (r: Vec<(BlockPos, u16)>)
    ensures
        r@ == v@,
{
    let mut r: Vec<(BlockPos, u16)> = Vec::new();
    let mut k: usize = 0;
    while k < v.len()
        invariant
            k <= v@.len(),
            r@ == v@.take(k as int),
        decreases v.len() - k,
    {
        r.push(v[k]);
        k = k + 1;
        assert(r@ =~= v@.take(k as int));
    }
    assert(v@.take(v@.len() as int) =~= v@);
    r
}

/// Handles one network event, as `drain_after` says, and returns the block
/// writes to make.
pub fn apply_event(s: &mut DrainState, e: &NetEvent) -> (writes: Vec<(BlockPos, u16)>)
    requires
        old(s).chat.wf(),
        old(s).predictions.wf(),
    ensures
        final(s).chat.wf(),
        final(s).predictions.wf(),
        final(s).chat.typed() == old(s).chat.typed(),
        final(s).chat.opened() == old(s).chat.opened(),
        (
            final(s).predictions.pending_view(),
            final(s).chat.lines(),
            final(s).to_mesh@,
            writes@,
        ) == drain_after(
            old(s).predictions.pending_view(),
            old(s).chat.lines(),
            old(s).to_mesh@,
            event_view(*e),
        ),
{
    let mut writes: Vec<(BlockPos, u16)> = Vec::new();
    match e {
        NetEvent::BlockUpdate { pos, state } => {
            if !s.predictions.has_pending_prediction(*pos) {
                s.to_mesh.push(chunk_pos(*pos));
                writes.push((*pos, *state));
                assert(writes@ =~= seq![(*pos, *state)]);
            }
        },
        NetEvent::SectionBlocksUpdate { updates } => {
            let ghost start = s.to_mesh@;
            let mut k: usize = 0;
            while k < updates.len()
                invariant
                    k <= updates@.len(),
                    s.to_mesh@ == with_chunks(start, updates@.take(k as int)),
                    s.predictions == old(s).predictions,
                    s.chat == old(s).chat,
                decreases updates.len() - k,
            {
                proof {
                    assert(updates@.take(k + 1).drop_last() =~= updates@.take(k as int));
                    assert(updates@.take(k + 1).last() == updates@[k as int]);
                }
                let c = chunk_pos(updates[k].0);
                if !listed(&s.to_mesh, c) {
                    s.to_mesh.push(c);
                }
                k = k + 1;
            }
            assert(updates@.take(updates@.len() as int) =~= updates@);
            writes = copy_writes(updates);
        },
        NetEvent::BlockChangedAck { seq } => {
            s.predictions.acknowledge(*seq);
        },
        NetEvent::ChatMessage { text } => {
            s.chat.push_message(text.clone());
        },
        _ => {},
    }
    writes
}

/// At most this many events are handled in one drain; the next one is taken
/// from the queue and dropped, and the rest wait for the next drain.
pub const MAX_EVENTS_PER_DRAIN: usize = 512;

/// What a run of events does, one after the other, as `drain_after` says:
/// the predictions, chat history and chunks to mesh after them, and all the
/// block writes they ask for, in order.
pub open spec fn drain_all(
    pending: Map<BlockPos, u32>,
    lines: Seq<Seq<char>>,
    to_mesh: Seq<(i32, i32)>,
    evs: Seq<NetEventView>,
) -> (Map<BlockPos, u32>, Seq<Seq<char>>, Seq<(i32, i32)>, Seq<(BlockPos, u16)>)
    decreases evs.len(),
{
    if evs.len() == 0 {
        (pending, lines, to_mesh, Seq::empty())
    } else {
        let p = drain_all(pending, lines, to_mesh, evs.drop_last());
        let q = drain_after(p.0, p.1, p.2, evs.last());
        (q.0, q.1, q.2, p.3 + q.3)
    }
}

/// The reason of the last disconnection among the events, if any.
pub open spec fn last_disconnect(evs: Seq<NetEventView>) -> Option<Seq<char>>
    decreases evs.len(),
{
    if evs.len() == 0 {
        None
    } else {
        match evs.last() {
            NetEventView::Disconnected { reason } => Some(reason),
            _ => last_disconnect(evs.drop_last()),
        }
    }
}

/// How many of `n` queued events one drain handles.
pub open spec fn handled_count(n: nat) -> nat {
    if n > MAX_EVENTS_PER_DRAIN {
        MAX_EVENTS_PER_DRAIN as nat
    } else {
        n
    }
}

/// How many of `n` queued events one drain takes from the queue: the ones
/// it handles, and one more that it drops when there are more than it handles.
pub open spec fn consumed_count(n: nat) -> nat {
    if n > MAX_EVENTS_PER_DRAIN {
        MAX_EVENTS_PER_DRAIN as nat + 1
    } else {
        n
    }
}

/// The outcome of one drain of the event queue: the block writes to make,
/// how many events were taken from the queue, the reason of a disconnection
/// (after which the game goes back to the menu and meshes nothing), and the
/// chunks to mesh again otherwise.
pub struct DrainBatch {
    pub writes: Vec<(BlockPos, u16)>,
    pub consumed: usize,
    pub disconnect: Option<String>,
    pub mesh: Vec<(i32, i32)>,
}

/// One drain of the queued events, oldest first: at most
/// `MAX_EVENTS_PER_DRAIN` of them are handled, as `drain_all` says, starting
/// with no chunk to mesh. A disconnection among them leaves the last reason
/// given, and then no chunk is meshed.
pub fn drain_events(s: &mut DrainState, events: &Vec<NetEvent>) -> (r: DrainBatch)
    requires
        old(s).chat.wf(),
        old(s).predictions.wf(),
    ensures
        final(s).chat.wf(),
        final(s).predictions.wf(),
        final(s).chat.typed() == old(s).chat.typed(),
        final(s).chat.opened() == old(s).chat.opened(),
        final(s).to_mesh@ == Seq::<(i32, i32)>::empty(),
        ({
            let evs = events_view(events@).take(handled_count(events@.len()) as int);
            let d = drain_all(old(s).predictions.pending_view(), old(s).chat.lines(), Seq::empty(), evs);
            &&& final(s).predictions.pending_view() == d.0
            &&& final(s).chat.lines() == d.1
            &&& r.writes@ == d.3
            &&& r.consumed == consumed_count(events@.len())
            &&& match last_disconnect(evs) {
                Some(reason) => r.disconnect matches Some(t) && t@ == reason && r.mesh@ == Seq::<(i32, i32)>::empty(),
                None => r.disconnect is None && r.mesh@ == d.2,
            }
        }),
{
    let ghost ev = events_view(events@);
    let ghost p0 = s.predictions.pending_view();
    let ghost l0 = s.chat.lines();
    s.to_mesh = Vec::new();
    let n = if events.len() > MAX_EVENTS_PER_DRAIN { MAX_EVENTS_PER_DRAIN } else { events.len() };
    let mut writes: Vec<(BlockPos, u16)> = Vec::new();
    let mut disconnect: Option<String> = None;
    let mut k: usize = 0;
    while k < n
        invariant
            n <= events@.len(),
            n == handled_count(events@.len()),
            ev == events_view(events@),
            k <= n,
            s.chat.wf(),
            s.predictions.wf(),
            s.chat.typed() == old(s).chat.typed(),
            s.chat.opened() == old(s).chat.opened(),
            ({
                let d = drain_all(p0, l0, Seq::empty(), ev.take(k as int));
                &&& s.predictions.pending_view() == d.0
                &&& s.chat.lines() == d.1
                &&& s.to_mesh@ == d.2
                &&& writes@ == d.3
            }),
            match last_disconnect(ev.take(k as int)) {
                Some(reason) => disconnect matches Some(t) && t@ == reason,
                None => disconnect is None,
            },
        decreases n - k,
    {
        proof {
            assert(ev.take(k + 1).drop_last() =~= ev.take(k as int));
            assert(ev.take(k + 1).last() == event_view(events@[k as int]));
        }
        let ghost w0 = writes@;
        let w = apply_event(s, &events[k]);
        let mut j: usize = 0;
        while j < w.len()
            invariant
                j <= w@.len(),
                writes@ == w0 + w@.take(j as int),
            decreases w.len() - j,
        {
            writes.push(w[j]);
            j = j + 1;
            assert(writes@ =~= w0 + w@.take(j as int));
        }
        assert(w@.take(w@.len() as int) =~= w@);
        match &events[k] {
            NetEvent::Disconnected { reason } => {
                disconnect = Some(reason.clone());
            },
            _ => {},
        }
        k = k + 1;
    }
    let consumed = if events.len() > MAX_EVENTS_PER_DRAIN { MAX_EVENTS_PER_DRAIN + 1 } else { events.len() };
    let mut mesh: Vec<(i32, i32)> = Vec::new();
    std::mem::swap(&mut mesh, &mut s.to_mesh);
    if disconnect.is_some() {
        mesh = Vec::new();
    }
    DrainBatch { writes, consumed, disconnect, mesh }
}

/// A drain that meets a disconnection meshes nothing, whatever else came.
pub proof fn law_disconnect_meshes_nothing(
    pending: Map<BlockPos, u32>,
    lines: Seq<Seq<char>>,
    evs: Seq<NetEventView>,
    reason: Seq<char>,
)
    ensures
        last_disconnect(evs.push(NetEventView::Disconnected { reason })) == Some(reason),
        drain_all(pending, lines, Seq::empty(), evs.push(NetEventView::Disconnected { reason })).3
            == drain_all(pending, lines, Seq::empty(), evs).3,
{
    assert(evs.push(NetEventView::Disconnected { reason }).drop_last() =~= evs);
    assert(drain_all(pending, lines, Seq::empty(), evs).3 + Seq::<(BlockPos, u16)>::empty()
        =~= drain_all(pending, lines, Seq::empty(), evs).3);
}

/// Adding the chunks of some updates keeps the chunks listed before, first
/// and in order, lists the chunk of every update, adds no other chunk, and
/// lists no chunk twice that was not listed twice before.
proof fn lemma_with_chunks(v: Seq<(i32, i32)>, updates: Seq<(BlockPos, u16)>)
    ensures
        with_chunks(v, updates).len() >= v.len(),
        with_chunks(v, updates).take(v.len() as int) == v,
        forall|k: int| 0 <= k < updates.len() ==> with_chunks(v, updates).contains(chunk_of(#[trigger] updates[k].0)),
        forall|c: (i32, i32)| #[trigger] with_chunks(v, updates).contains(c) && !v.contains(c) ==> exists|k: int|
            0 <= k < updates.len() && chunk_of(updates[k].0) == c,
        v.no_duplicates() ==> with_chunks(v, updates).no_duplicates(),
    decreases updates.len(),
{
    if updates.len() > 0 {
        let p = updates.drop_last();
        lemma_with_chunks(v, p);
        let w = with_chunks(v, p);
        let c = chunk_of(updates.last().0);
        let r = with_chunks(v, updates);
        if !w.contains(c) {
            assert(r == w.push(c));
            assert(w.push(c).take(v.len() as int) =~= w.take(v.len() as int));
            assert(r[w.len() as int] == c);
        }
        assert forall|k: int| 0 <= k < updates.len() implies r.contains(chunk_of(#[trigger] updates[k].0)) by {
            if k < p.len() {
                assert(p[k] == updates[k]);
                let j = choose|j: int| 0 <= j < w.len() && w[j] == chunk_of(p[k].0);
                assert(r[j] == w[j]);
            }
        }
        assert forall|d: (i32, i32)| #[trigger] r.contains(d) && !v.contains(d) implies exists|k: int|
            0 <= k < updates.len() && chunk_of(updates[k].0) == d by {
            if w.contains(d) {
                let k = choose|k: int| 0 <= k < p.len() && chunk_of(p[k].0) == d;
                assert(updates[k] == p[k]);
            } else {
                let j = choose|j: int| 0 <= j < r.len() && r[j] == d;
                assert(j == w.len());
                assert(chunk_of(updates[updates.len() - 1].0) == d);
            }
        }
    }
}

/// A section's update writes every one of its changes, in order, and meshes
/// again the chunk of each of them, once each, after those already listed;
/// it meshes no other chunk and leaves the predictions and the chat as they
/// were.
pub proof fn law_section_update_writes_all(
    pending: Map<BlockPos, u32>,
    lines: Seq<Seq<char>>,
    to_mesh: Seq<(i32, i32)>,
    updates: Seq<(BlockPos, u16)>,
)
    ensures
        ({
            let d = drain_after(pending, lines, to_mesh, NetEventView::SectionBlocksUpdate { updates });
            &&& d.0 == pending && d.1 == lines
            &&& d.3 == updates
            &&& d.2.take(to_mesh.len() as int) == to_mesh
            &&& forall|k: int| 0 <= k < updates.len() ==> d.2.contains(chunk_of(#[trigger] updates[k].0))
            &&& forall|c: (i32, i32)| #[trigger] d.2.contains(c) && !to_mesh.contains(c) ==> exists|k: int|
                0 <= k < updates.len() && chunk_of(updates[k].0) == c
            &&& to_mesh.no_duplicates() ==> d.2.no_duplicates()
        }),
{
    lemma_with_chunks(to_mesh, updates);
}

/// A block update for a block with no change awaiting the server writes
/// that block and meshes its chunk column again; predictions and chat stay.
pub proof fn law_free_update_applies(
    pending: Map<BlockPos, u32>,
    lines: Seq<Seq<char>>,
    to_mesh: Seq<(i32, i32)>,
    pos: BlockPos,
    state: u16,
)
    requires
        !pending.contains_key(pos),
    ensures
        ({
            let d = drain_after(pending, lines, to_mesh, NetEventView::BlockUpdate { pos, state });
            &&& d.0 == pending && d.1 == lines
            &&& d.3.len() == 1 && d.3[0] == (pos, state)
            &&& d.2.len() == to_mesh.len() + 1 && d.2.take(to_mesh.len() as int) == to_mesh
            &&& d.2.last() == ((pos.0 as int / 16) as i32, (pos.2 as int / 16) as i32)
        }),
{
    assert(to_mesh.push(chunk_of(pos)).take(to_mesh.len() as int) =~= to_mesh);
}

/// A block update for a block whose change awaits the server writes nothing
/// and leaves the predictions, the chat and the chunks to mesh as they were.
pub proof fn law_pending_update_ignored(
    pending: Map<BlockPos, u32>,
    lines: Seq<Seq<char>>,
    to_mesh: Seq<(i32, i32)>,
    pos: BlockPos,
    state: u16,
)
    requires
        pending.contains_key(pos),
    ensures
        drain_after(pending, lines, to_mesh, NetEventView::BlockUpdate { pos, state }) == (
            pending,
            lines,
            to_mesh,
            Seq::<(BlockPos, u16)>::empty(),
        ),
{
}

/// After a change made here by action `seq`, the server's updates of that
/// block are held back until it acknowledges an action at least as late,
/// and written from then on.
pub proof fn law_update_waits_for_acknowledgement(
    pending: Map<BlockPos, u32>,
    lines: Seq<Seq<char>>,
    to_mesh: Seq<(i32, i32)>,
    pos: BlockPos,
    seq: u32,
    ack: u32,
    state: u16,
)
    ensures
        ({
            let predicted = pending.insert(pos, seq);
            let acked = drain_after(predicted, lines, to_mesh, NetEventView::BlockChangedAck { seq: ack }).0;
            let after = drain_after(predicted, lines, to_mesh, NetEventView::BlockUpdate { pos, state });
            let later = drain_after(acked, lines, to_mesh, NetEventView::BlockUpdate { pos, state });
            &&& after.3 == Seq::<(BlockPos, u16)>::empty()
            &&& (later.3 == seq![(pos, state)] <==> seq <= ack)
        }),
{
    let predicted = pending.insert(pos, seq);
    law_pending_until_acknowledged(pending, pos, seq, ack);
    assert(predicted.contains_key(pos));
    let acked = after_seq(predicted, ack);
    let later = drain_after(acked, lines, to_mesh, NetEventView::BlockUpdate { pos, state });
    if seq <= ack {
        assert(!acked.contains_key(pos));
        assert(later.3 == seq![(pos, state)]);
    } else {
        assert(acked.contains_key(pos));
        assert(later.3.len() == 0);
        assert(seq![(pos, state)].len() == 1);
    }
}

} // verus!
