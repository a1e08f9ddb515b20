//! The arm swing timer and the chunk columns that a block change makes stale.
use std::collections::HashMap;
use vstd::prelude::*;
use crate::light::{div16, rem16};

verus! {

broadcast use vstd::std_specs::hash::group_hash_axioms;

use vstd::std_specs::hash::spec_hash_map_iter;
use vstd::std_specs::iter::IteratorSpec;

/// Ticks that one arm swing lasts.
pub const SWING_DURATION: i32 = 6;

/// The arm swing: whether the arm is swinging and the tick of the swing,
/// from -1 (just started) up to `SWING_DURATION - 1`.
pub struct SwingState {
    swinging: bool,
    swing_time: i32,
}

/// The swing as a pair: swinging, and the tick of the swing.
pub open spec fn swing_started(s: (bool, int)) -> (bool, int) {
    if !s.0 || s.1 >= SWING_DURATION / 2 || s.1 < 0 {
        (true, -1)
    } else {
        s
    }
}

/// The swing one tick later.
pub open spec fn swing_ticked(s: (bool, int)) -> (bool, int) {
    if s.0 {
        if s.1 + 1 >= SWING_DURATION {
            (false, 0)
        } else {
            (true, s.1 + 1)
        }
    } else {
        (false, 0)
    }
}

/// The swing after `n` ticks.
pub open spec fn swing_after(s: (bool, int), n: nat) -> (bool, int)
    decreases n,
{
    if n == 0 {
        s
    } else {
        swing_ticked(swing_after(s, (n - 1) as nat))
    }
}

impl SwingState {
    /// The swing as a pair: swinging, and the tick of the swing.
    pub closed spec fn view_pair(&self) -> (bool, int) {
        (self.swinging, self.swing_time as int)
    }

    /// A swing tick lies from -1 to `SWING_DURATION - 1`, and a resting arm
    /// is at tick 0.
    pub closed spec fn wf(&self) -> bool {
        &&& -1 <= self.swing_time < SWING_DURATION
        &&& !self.swinging ==> self.swing_time == 0
    }

    /// An arm at rest.
    pub fn new() -> (s: Self)
        ensures
            s.wf(),
            s.view_pair() == (false, 0int),
    {
        SwingState { swinging: false, swing_time: 0 }
    }

    /// Starts a swing, unless one started less than half a swing ago.
    pub fn swing(&mut self)
        requires
            old(self).wf(),
        ensures
            final(self).wf(),
            final(self).view_pair() == swing_started(old(self).view_pair()),
    {
        if !self.swinging || self.swing_time >= SWING_DURATION / 2 || self.swing_time < 0 {
            self.swing_time = -1;
            self.swinging = true;
        }
    }

    /// Advances the swing by one tick; a swing ends when it has run its length.
    pub fn update_swing(&mut self)
        requires
            old(self).wf(),
        ensures
            final(self).wf(),
            final(self).view_pair() == swing_ticked(old(self).view_pair()),
    {
        if self.swinging {
            self.swing_time = self.swing_time + 1;
            if self.swing_time >= SWING_DURATION {
                self.swing_time = 0;
                self.swinging = false;
            }
        } else {
            self.swing_time = 0;
        }
    }

    /// The tick of the swing; the arm's progress is this over `SWING_DURATION`.
    pub fn swing_ticks(&self) -> (t: i32)
        requires
            self.wf(),
        ensures
            t == self.view_pair().1,
            0 <= t + 1 <= SWING_DURATION,
    {
        self.swing_time
    }

    /// Whether the arm is swinging.
    pub fn is_swinging(&self) -> (b: bool)
        ensures
            b == self.view_pair().0,
    {
        self.swinging
    }
}

/// A swing started from rest brings the arm back to rest after
/// `SWING_DURATION + 1` ticks, and not before.
pub proof fn law_swing_returns_to_rest()
    ensures
        swing_after(swing_started((false, 0)), (SWING_DURATION + 1) as nat) == (false, 0int),
        forall|n: nat| n <= SWING_DURATION ==> #[trigger] swing_after(swing_started((false, 0)), n).0,
{
    reveal_with_fuel(swing_after, 8);
    let s = swing_started((false, 0));
    assert(swing_after(s, 0) == (true, -1int));
    assert(swing_after(s, 1) == (true, 0int));
    assert(swing_after(s, 2) == (true, 1int));
    assert(swing_after(s, 3) == (true, 2int));
    assert(swing_after(s, 4) == (true, 3int));
    assert(swing_after(s, 5) == (true, 4int));
    assert(swing_after(s, 6) == (true, 5int));
    assert(swing_after(s, 7) == (false, 0int));
}

/// The chunk column that holds block column `(x, z)`, and each neighbouring
/// column that the block touches: west, east, north and south, in that order.
pub open spec fn affected_chunks(x: int, z: int) -> Seq<(i32, i32)> {
    let cx = x / 16;
    let cz = z / 16;
    seq![(cx as i32, cz as i32)]
        + (if x % 16 == 0 { seq![((cx - 1) as i32, cz as i32)] } else { Seq::empty() })
        + (if x % 16 == 15 { seq![((cx + 1) as i32, cz as i32)] } else { Seq::empty() })
        + (if z % 16 == 0 { seq![(cx as i32, (cz - 1) as i32)] } else { Seq::empty() })
        + (if z % 16 == 15 { seq![(cx as i32, (cz + 1) as i32)] } else { Seq::empty() })
}

/// `v` with each item of `items` that it lacks appended, in order.
pub open spec fn add_missing<T>(v: Seq<T>, items: Seq<T>) -> Seq<T>
    decreases items.len(),
{
    if items.len() == 0 {
        v
    } else {
        let w = add_missing(v, items.drop_last());
        if w.contains(items.last()) {
            w
        } else {
            w.push(items.last())
        }
    }
}

/// No item occurs twice.
pub open spec fn no_duplicates<T>(v: Seq<T>) -> bool {
    forall|i: int, j: int| 0 <= i < j < v.len() ==> v[i] != v[j]
}

fn push_missing(dirty: &mut Vec<(i32, i32)>, c: (i32, i32))
    ensures
        final(dirty)@ == if old(dirty)@.contains(c) { old(dirty)@ } else { old(dirty)@.push(c) },
{
    let mut k: usize = 0;
    while k < dirty.len()
        invariant
            k <= dirty@.len(),
            forall|j: int| 0 <= j < k ==> dirty@[j] != c,
        decreases dirty.len() - k,
    {
        if dirty[k].0 == c.0 && dirty[k].1 == c.1 {
            assert(dirty@[k as int] == c);
            return;
        }
        k = k + 1;
    }
    dirty.push(c);
}

/// Records the chunk columns that a change of the block at `(x, _, z)` makes
/// stale: its own column, and the neighbour across each edge it lies on;
/// columns already listed are not listed again.
pub fn mark_dirty(x: i32, z: i32, dirty: &mut Vec<(i32, i32)>)
    ensures
        final(dirty)@ == add_missing(old(dirty)@, affected_chunks(x as int, z as int)),
{
    let cx = div16(x);
    let cz = div16(z);
    let lx = rem16(x);
    let lz = rem16(z);
    let ghost items = affected_chunks(x as int, z as int);
    let ghost v0 = dirty@;
    let mut cands: Vec<(i32, i32)> = Vec::new();
    cands.push((cx, cz));
    if lx == 0 {
        cands.push((cx - 1, cz));
    }
    if lx == 15 {
        cands.push((cx + 1, cz));
    }
    if lz == 0 {
        cands.push((cx, cz - 1));
    }
    if lz == 15 {
        cands.push((cx, cz + 1));
    }
    assert(cands@ =~= items);
    let mut i: usize = 0;
    while i < cands.len()
        invariant
            i <= cands@.len(),
            cands@ == items,
            dirty@ == add_missing(v0, items.take(i as int)),
        decreases cands.len() - i,
    {
        assert(items.take(i + 1).drop_last() =~= items.take(i as int));
        push_missing(dirty, cands[i]);
        i = i + 1;
    }
    assert(items.take(items.len() as int) =~= items);
}

/// Appending what is missing keeps what was there, lists every item, and
/// lists nothing twice where nothing was listed twice before.
pub proof fn law_add_missing<T>(v: Seq<T>, items: Seq<T>)
    ensures
        add_missing(v, items).len() >= v.len(),
        add_missing(v, items).take(v.len() as int) == v,
        forall|i: int| 0 <= i < items.len() ==> add_missing(v, items).contains(#[trigger] items[i]),
        no_duplicates(v) ==> no_duplicates(add_missing(v, items)),
    decreases items.len(),
{
    if items.len() > 0 {
        let p = items.drop_last();
        law_add_missing(v, p);
        let w = add_missing(v, p);
        assert forall|i: int| 0 <= i < items.len() implies add_missing(v, items).contains(#[trigger] items[i]) by {
            if i < items.len() - 1 {
                assert(p[i] == items[i]);
                assert(w.contains(p[i]));
                if !w.contains(items.last()) {
                    let k = choose|k: int| 0 <= k < w.len() && w[k] == p[i];
                    assert(w.push(items.last())[k] == items[i]);
                }
            } else {
                if !w.contains(items.last()) {
                    assert(w.push(items.last())[w.len() as int] == items.last());
                }
            }
        }
        if !w.contains(items.last()) {
            assert(w.push(items.last()).take(v.len() as int) =~= w.take(v.len() as int));
        }
    }
}

/// What appending the missing items lists is either listed before or one
/// of the items.
proof fn lemma_add_missing_from<T>(v: Seq<T>, items: Seq<T>, c: T)
    requires
        add_missing(v, items).contains(c),
    ensures
        v.contains(c) || items.contains(c),
    decreases items.len(),
{
    if items.len() > 0 {
        let p = items.drop_last();
        let w = add_missing(v, p);
        if w.contains(c) {
            lemma_add_missing_from(v, p, c);
            if p.contains(c) {
                let k = choose|k: int| 0 <= k < p.len() && p[k] == c;
                assert(items[k] == c);
            }
        } else {
            assert(c == items.last());
            assert(items[items.len() - 1] == c);
        }
    }
}

/// After a change of the block at `(x, _, z)`, the columns to remesh still
/// list what they listed, in the same order, and also list the block's own
/// chunk column and the neighbouring column across each chunk edge the
/// block lies on: west when it is in the first block row along `x`, east in
/// the last, north in the first along `z`, south in the last. Nothing else is
/// added, and nothing is listed twice that was not listed twice before.
pub proof fn law_mark_dirty_columns(v: Seq<(i32, i32)>, x: i32, z: i32)
    ensures
        ({
            let r = add_missing(v, affected_chunks(x as int, z as int));
            let cx = x as int / 16;
            let cz = z as int / 16;
            let lx = x as int % 16;
            let lz = z as int % 16;
            &&& r.take(v.len() as int) == v
            &&& r.contains((cx as i32, cz as i32))
            &&& lx == 0 ==> r.contains(((cx - 1) as i32, cz as i32))
            &&& lx == 15 ==> r.contains(((cx + 1) as i32, cz as i32))
            &&& lz == 0 ==> r.contains((cx as i32, (cz - 1) as i32))
            &&& lz == 15 ==> r.contains((cx as i32, (cz + 1) as i32))
            &&& forall|c: (i32, i32)| #[trigger] r.contains(c) && !v.contains(c) ==> {
                ||| c == (cx as i32, cz as i32)
                ||| (lx == 0 && c == ((cx - 1) as i32, cz as i32))
                ||| (lx == 15 && c == ((cx + 1) as i32, cz as i32))
                ||| (lz == 0 && c == (cx as i32, (cz - 1) as i32))
                ||| (lz == 15 && c == (cx as i32, (cz + 1) as i32))
            }
            &&& no_duplicates(v) ==> no_duplicates(r)
        }),
{
    let items = affected_chunks(x as int, z as int);
    let r = add_missing(v, items);
    law_add_missing(v, items);
    let cx = x as int / 16;
    let cz = z as int / 16;
    let own = (cx as i32, cz as i32);
    assert(items[0] == own);
    let west = if x as int % 16 == 0 { seq![((cx - 1) as i32, cz as i32)] } else { Seq::empty() };
    let east = if x as int % 16 == 15 { seq![((cx + 1) as i32, cz as i32)] } else { Seq::empty() };
    let north = if z as int % 16 == 0 { seq![(cx as i32, (cz - 1) as i32)] } else { Seq::empty() };
    let south = if z as int % 16 == 15 { seq![(cx as i32, (cz + 1) as i32)] } else { Seq::empty() };
    assert(items =~= seq![own] + west + east + north + south);
    if x as int % 16 == 0 {
        assert(items[1] == ((cx - 1) as i32, cz as i32));
    }
    if x as int % 16 == 15 {
        assert(items[1] == ((cx + 1) as i32, cz as i32));
    }
    if z as int % 16 == 0 {
        assert(items[(1 + west.len() + east.len()) as int] == (cx as i32, (cz - 1) as i32));
    }
    if z as int % 16 == 15 {
        assert(items[(1 + west.len() + east.len()) as int] == (cx as i32, (cz + 1) as i32));
    }
    assert forall|c: (i32, i32)| #[trigger] r.contains(c) && !v.contains(c) implies {
        ||| c == own
        ||| (x as int % 16 == 0 && c == ((cx - 1) as i32, cz as i32))
        ||| (x as int % 16 == 15 && c == ((cx + 1) as i32, cz as i32))
        ||| (z as int % 16 == 0 && c == (cx as i32, (cz - 1) as i32))
        ||| (z as int % 16 == 15 && c == (cx as i32, (cz + 1) as i32))
    } by {
        lemma_add_missing_from(v, items, c);
        let k = choose|k: int| 0 <= k < items.len() && items[k] == c;
    }
}

/// A block position.
pub type BlockPos = (i32, i32, i32);

/// The key a block position is stored under: the three coordinates as
/// digits of a number in base 2^32, the last two shifted to be non-negative.
pub open spec fn pos_key(pos: BlockPos) -> int {
    (pos.0 * 0x1_0000_0000 + (pos.1 + 0x8000_0000)) * 0x1_0000_0000 + (pos.2 + 0x8000_0000)
}

/// Different positions have different keys.
proof fn lemma_pos_key_injective(p: BlockPos, q: BlockPos)
    requires
        pos_key(p) == pos_key(q),
    ensures
        p == q,
{
    let b: int = 0x1_0000_0000;
    let (py, pz) = (p.1 + 0x8000_0000, p.2 + 0x8000_0000);
    let (qy, qz) = (q.1 + 0x8000_0000, q.2 + 0x8000_0000);
    assert(0 <= pz < b && 0 <= qz < b && 0 <= py < b && 0 <= qy < b);
    let hp = p.0 * b + py;
    let hq = q.0 * b + qy;
    assert(hp * b + pz == hq * b + qz);
    assert(hp == hq && pz == qz) by (nonlinear_arith)
        requires
            hp * b + pz == hq * b + qz,
            0 <= pz < b,
            0 <= qz < b,
            b > 0,
    {
        if hp < hq {
            assert(hp * b + b <= hq * b);
        } else if hp > hq {
            assert(hq * b + b <= hp * b);
        }
    }
    assert(p.0 == q.0 && py == qy) by (nonlinear_arith)
        requires
            p.0 * b + py == q.0 * b + qy,
            0 <= py < b,
            0 <= qy < b,
            b > 0,
    {
        if p.0 < q.0 {
            assert(p.0 * b + b <= q.0 * b);
        } else if p.0 > q.0 {
            assert(q.0 * b + b <= p.0 * b);
        }
    }
}

/// The key of a block position, as `pos_key` says.
fn key_of(pos: BlockPos) -> (k: i128)
    ensures
        k == pos_key(pos),
{
    ((pos.0 as i128) * 0x1_0000_0000 + (pos.1 as i128 + 0x8000_0000)) * 0x1_0000_0000 + (pos.2 as i128
        + 0x8000_0000)
}

/// The pending changes made by actions after `seq`.
pub open spec fn after_seq(m: Map<BlockPos, u32>, seq: u32) -> Map<BlockPos, u32> {
    Map::new(|p: BlockPos| m.contains_key(p) && m[p] > seq, |p: BlockPos| m[p])
}

/// Blocks changed on this side before the server confirmed them: each
/// position with the sequence number of the action that changed it. Updates
/// the server sends for such a block are ignored until it acknowledges the
/// change.
pub struct Predictions {
    pending: HashMap<i128, (BlockPos, u32)>,
}

impl Predictions {
    /// Each entry is stored under its position's key.
    pub closed spec fn wf(&self) -> bool {
        forall|k: i128| #[trigger] self.pending@.contains_key(k) ==> pos_key(self.pending@[k].0) == k
    }

    /// The pending changes: the action's sequence number for each position.
    pub closed spec fn pending_view(&self) -> Map<BlockPos, u32> {
        Map::new(
            |p: BlockPos| self.pending@.contains_key(pos_key(p) as i128),
            |p: BlockPos| self.pending@[pos_key(p) as i128].1,
        )
    }

    /// No change pending.
    pub fn new() -> (p: Self)
        ensures
            p.wf(),
            p.pending_view() == Map::<BlockPos, u32>::empty(),
    {
        let p = Predictions { pending: HashMap::new() };
        assert(p.pending_view() =~= Map::<BlockPos, u32>::empty());
        p
    }

    /// Whether a change of the block at `pos` awaits the server.
    pub fn has_pending_prediction(&self, pos: BlockPos) -> (b: bool)
        ensures
            b == self.pending_view().contains_key(pos),
    {
        let k = key_of(pos);
        self.pending.contains_key(&k)
    }

    /// Records a change of the block at `pos` made by action `seq`,
    /// replacing an earlier pending change there.
    pub fn predict(&mut self, pos: BlockPos, seq: u32)
        requires
            old(self).wf(),
        ensures
            final(self).wf(),
            final(self).pending_view() == old(self).pending_view().insert(pos, seq),
    {
        let k = key_of(pos);
        self.pending.insert(k, (pos, seq));
        proof {
            assert forall|p: BlockPos| #[trigger] self.pending_view().contains_key(p)
                == old(self).pending_view().insert(pos, seq).contains_key(p) by {
                if pos_key(p) == pos_key(pos) {
                    lemma_pos_key_injective(p, pos);
                }
            }
            assert(self.pending_view() =~= old(self).pending_view().insert(pos, seq));
        }
    }

    /// The server confirmed every change up to action `seq`: only the
    /// changes made by later actions stay pending.
    pub fn acknowledge(&mut self, seq: u32)
        requires
            old(self).wf(),
        ensures
            final(self).wf(),
            final(self).pending_view() == after_seq(old(self).pending_view(), seq),
    {
        let ghost m = self.pending@;
        let ghost all = spec_hash_map_iter(&self.pending).remaining();
        let ghost mut count: int = 0;
        let mut kept: HashMap<i128, (BlockPos, u32)> = HashMap::new();
        for e in it: self.pending.iter()
            invariant
                m == self.pending@,
                it.seq() == all,
                count == it.index(),
                forall|k: i128| #[trigger] m.contains_key(k) ==> pos_key(m[k].0) == k,
                forall|k: i128| #[trigger] kept@.contains_key(k) ==> m.contains_key(k) && m[k].1 > seq
                    && kept@[k] == m[k],
                forall|j: int| 0 <= j < count && (*all[j].1).1 > seq ==> #[trigger] kept@.contains_key(
                    *all[j].0,
                ),
        {
            let (k, v) = e;
            if v.1 > seq {
                kept.insert(*k, *v);
            }
            proof {
                count = count + 1;
            }
        }
        proof {
            assert(count == all.len());
            assert forall|k: i128| m.contains_key(k) && m[k].1 > seq implies #[trigger] kept@.contains_key(k) by {
                assert(all.contains((&k, &m[k])));
                let j = choose|j: int| 0 <= j < all.len() && all[j] == (&k, &m[k]);
                assert(*all[j].0 == k);
            }
        }
        self.pending = kept;
        proof {
            assert forall|p: BlockPos| #[trigger] self.pending_view().contains_key(p)
                == after_seq(old(self).pending_view(), seq).contains_key(p) by {}
            assert(self.pending_view() =~= after_seq(old(self).pending_view(), seq));
        }
    }
}

/// A change stays pending until the server acknowledges an action at least
/// as late as it, and every change left pending comes from a later action.
pub proof fn law_pending_until_acknowledged(m: Map<BlockPos, u32>, pos: BlockPos, seq: u32, ack: u32)
    ensures
        after_seq(m.insert(pos, seq), ack).contains_key(pos) <==> seq > ack,
        forall|p: BlockPos| #[trigger] after_seq(m, ack).contains_key(p) ==> after_seq(m, ack)[p] > ack,
{
}

} // verus!
