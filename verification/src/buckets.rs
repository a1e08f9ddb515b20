//! The pool of fixed-size buckets that chunk meshes are uploaded into: each
//! chunk takes as many buckets as its vertices need, every bucket belongs to
//! the free list or to exactly one chunk, and a chunk's quads are split
//! among its buckets with their indices made relative to each bucket.
use std::collections::{HashMap, VecDeque};
use vstd::prelude::*;


verus! {

broadcast use vstd::std_specs::hash::group_hash_axioms;

use vstd::std_specs::hash::spec_hash_map_iter;
use vstd::std_specs::iter::IteratorSpec;

/// Vertices one bucket holds.
pub const BUCKET_VERTICES: u32 = 32768;

/// Indices one bucket holds.
pub const BUCKET_INDICES: u32 = 49152;

/// Buckets in the pool.
pub const TOTAL_BUCKETS: u32 = 4096;

/// The buckets a chunk holds, and how many indices each of them draws.
pub struct ChunkAlloc {
    pub buckets: Vec<u32>,
    pub index_counts: Vec<u32>,
}

/// Every bucket of the pool, in order.
pub open spec fn bucket_ids() -> Seq<u32> {
    Seq::new(TOTAL_BUCKETS as nat, |i: int| i as u32)
}

/// The buckets a mesh of `vertex_count` vertices takes: one per
/// `BUCKET_VERTICES` vertices, rounding up.
pub open spec fn buckets_for(vertex_count: int) -> int {
    if vertex_count % BUCKET_VERTICES as int == 0 {
        vertex_count / BUCKET_VERTICES as int
    } else {
        vertex_count / BUCKET_VERTICES as int + 1
    }
}

/// One bucket to draw: where its indices start in the index pool, where its
/// vertices start in the vertex pool, and how many indices it draws.
#[derive(PartialEq, Eq, Structural, Clone, Copy, Debug)]
pub struct DrawRange {
    pub first_index: u32,
    pub vertex_offset: i32,
    pub index_count: u32,
}

/// The draw range of bucket `b` drawing `count` indices.
pub open spec fn range_of(b: u32, count: u32) -> DrawRange {
    DrawRange {
        first_index: (b * BUCKET_INDICES) as u32,
        vertex_offset: (b * BUCKET_VERTICES) as i32,
        index_count: count,
    }
}

/// The draw ranges of a chunk's buckets, in order.
pub open spec fn chunk_ranges(a: ChunkAlloc) -> Seq<DrawRange> {
    Seq::new(a.buckets@.len(), |j: int| range_of(a.buckets@[j], a.index_counts@[j]))
}

/// The draw ranges of the chunks with the given keys, chunk after chunk.
pub open spec fn ranges_in(chunks: Map<i64, ChunkAlloc>, keys: Seq<i64>) -> Seq<DrawRange>
    decreases keys.len(),
{
    if keys.len() == 0 {
        Seq::empty()
    } else {
        ranges_in(chunks, keys.drop_last()) + chunk_ranges(chunks[keys.last()])
    }
}

/// `keys` lists each key of the chunks once, and nothing else.
pub open spec fn keys_of(chunks: Map<i64, ChunkAlloc>, keys: Seq<i64>) -> bool {
    &&& keys.no_duplicates()
    &&& forall|i: int| 0 <= i < keys.len() ==> chunks.contains_key(#[trigger] keys[i])
    &&& forall|k: i64| #[trigger] chunks.contains_key(k) ==> keys.contains(k)
}

/// The larger of two indices.
pub open spec fn max_of(a: u32, b: u32) -> u32 {
    if a >= b { a } else { b }
}

/// The largest of the six indices of the quad starting at `c`.
pub open spec fn quad_max(ix: Seq<u32>, c: int) -> u32 {
    max_of(max_of(max_of(max_of(max_of(ix[c], ix[c + 1]), ix[c + 2]), ix[c + 3]), ix[c + 4]), ix[c + 5])
}

/// Where the quads a bucket takes end, from `c` on: whole quads of six
/// indices are taken while all their indices are below `end`.
pub open spec fn quads_end(ix: Seq<u32>, c: int, end: int) -> int
    decreases ix.len() - c,
{
    if 0 <= c && c + 6 <= ix.len() && quad_max(ix, c) < end {
        quads_end(ix, c + 6, end)
    } else {
        c
    }
}

/// The first vertex of bucket `k` of a mesh.
pub open spec fn bucket_start(k: int) -> int {
    k * BUCKET_VERTICES
}

/// The end of the vertices of bucket `k` of a mesh of `v` vertices.
pub open spec fn bucket_end(k: int, v: int) -> int {
    if (k + 1) * BUCKET_VERTICES <= v { (k + 1) * BUCKET_VERTICES } else { v }
}

/// Where the quads of bucket `k` start in the index list.
pub open spec fn quads_start(ix: Seq<u32>, v: int, k: nat) -> int
    decreases k,
{
    if k == 0 {
        0
    } else {
        quads_end(ix, quads_start(ix, v, (k - 1) as nat), bucket_end(k - 1, v))
    }
}

/// The vertex that the indices left over after the last bucket's quads are
/// made relative to.
pub open spec fn rest_base(v: int) -> int {
    v - if v % BUCKET_VERTICES as int >= 1 { v % BUCKET_VERTICES as int } else { 1 }
}

/// Indices made relative to a base vertex.
pub open spec fn rebased(s: Seq<u32>, base: int) -> Seq<u32> {
    s.map_values(|x: u32| (x - base) as u32)
}

/// The indices that bucket `k` of `n` draws, relative to its first vertex:
/// its whole quads, and for the last bucket the indices no bucket took,
/// relative to `rest_base`.
pub open spec fn bucket_indices(ix: Seq<u32>, v: int, n: nat, k: nat) -> Seq<u32> {
    let own = rebased(ix.subrange(quads_start(ix, v, k), quads_start(ix, v, k + 1)), bucket_start(k as int));
    if k + 1 == n && quads_start(ix, v, n) < ix.len() {
        own + rebased(ix.skip(quads_start(ix, v, n)), rest_base(v))
    } else {
        own
    }
}

/// No index is below the vertex it is made relative to.
pub open spec fn rebase_fits(ix: Seq<u32>, v: int, n: nat) -> bool {
    &&& forall|k: nat, j: int| #![trigger quads_start(ix, v, k), ix[j]]
        k < n && quads_start(ix, v, k) <= j < quads_start(ix, v, k + 1) && j < ix.len()
        ==> ix[j] >= bucket_start(k as int)
    &&& forall|j: int| quads_start(ix, v, n) <= j < ix.len() ==> #[trigger] ix[j] >= rest_base(v)
}

/// One bucket of a mesh being uploaded: the bucket, the range of the mesh's
/// vertices it holds, and the indices it draws, relative to its first vertex.
pub struct BucketUpload {
    pub bucket: u32,
    pub vertex_start: usize,
    pub vertex_end: usize,
    pub indices: Vec<u32>,
}

/// The chunks after the chunk with the given key gave its buckets back.
pub open spec fn chunks_without(chunks: Map<i64, ChunkAlloc>, key: i64) -> Map<i64, ChunkAlloc> {
    chunks.remove(key)
}

/// The free list after the chunk with the given key gave its buckets back.
pub open spec fn free_without(free: Seq<u32>, chunks: Map<i64, ChunkAlloc>, key: i64) -> Seq<u32> {
    if chunks.contains_key(key) {
        free + chunks[key].buckets@
    } else {
        free
    }
}

/// Bucket `b` is held by some chunk.
pub open spec fn held(chunks: Map<i64, ChunkAlloc>, b: u32) -> bool {
    exists|k: i64| chunks.contains_key(k) && #[trigger] chunks[k].buckets@.contains(b)
}

/// Bucket `b` is free or held by some chunk.
pub open spec fn covered(free: Seq<u32>, chunks: Map<i64, ChunkAlloc>, b: u32) -> bool {
    free.contains(b) || held(chunks, b)
}

/// The pool's invariant over its free list and its chunks: the free list and
/// each chunk's buckets list pool buckets, none twice; a held bucket is not
/// free and is held by one chunk only; every bucket of the pool is free or
/// held; each held bucket has its index count.
pub open spec fn pool_inv(free: Seq<u32>, chunks: Map<i64, ChunkAlloc>) -> bool {
    &&& free.no_duplicates()
    &&& forall|i: int| 0 <= i < free.len() ==> free[i] < TOTAL_BUCKETS
    &&& forall|k: i64| #[trigger] chunks.contains_key(k) ==> {
        &&& chunks[k].buckets@.no_duplicates()
        &&& chunks[k].buckets@.len() == chunks[k].index_counts@.len()
        &&& forall|j: int| 0 <= j < chunks[k].buckets@.len() ==> chunks[k].buckets@[j] < TOTAL_BUCKETS
            && !free.contains(chunks[k].buckets@[j])
    }
    &&& forall|k1: i64, k2: i64, b: u32|
        chunks.contains_key(k1) && chunks.contains_key(k2) && k1 != k2 && #[trigger] chunks[k1].buckets@.contains(b)
            ==> !#[trigger] chunks[k2].buckets@.contains(b)
    &&& forall|b: u32| b < TOTAL_BUCKETS ==> #[trigger] covered(free, chunks, b)
}

/// The bucket pool: the free buckets in the order they are handed out, and
/// the chunks with the buckets they hold, by key.
pub struct BucketPool {
    free_buckets: VecDeque<u32>,
    chunks: HashMap<i64, ChunkAlloc>,
}

impl BucketPool {
    /// The free buckets, first to be handed out first.
    pub closed spec fn free(&self) -> Seq<u32> {
        self.free_buckets@
    }

    /// The chunks holding buckets, by key.
    pub closed spec fn chunks(&self) -> Map<i64, ChunkAlloc> {
        self.chunks@
    }

    /// Every bucket is free or held by one chunk, once; each held bucket has
    /// its index count.
    pub open spec fn wf(&self) -> bool {
        pool_inv(self.free(), self.chunks())
    }

    fn all_free() -> (v: VecDeque<u32>)
        ensures
            v@ == bucket_ids(),
    {
        let mut v: VecDeque<u32> = VecDeque::new();
        let mut i: u32 = 0;
        while i < TOTAL_BUCKETS
            invariant
                i <= TOTAL_BUCKETS,
                v@ == bucket_ids().take(i as int),
            decreases TOTAL_BUCKETS - i,
        {
            v.push_back(i);
            i = i + 1;
            assert(v@ =~= bucket_ids().take(i as int));
        }
        assert(bucket_ids().take(TOTAL_BUCKETS as int) =~= bucket_ids());
        v
    }

    /// A pool with every bucket free, in order, and no chunk.
    pub fn new() -> (p: Self)
        ensures
            p.wf(),
            p.free() == bucket_ids(),
            p.chunks() == Map::<i64, ChunkAlloc>::empty(),
    {
        let free_buckets = Self::all_free();
        let p = BucketPool { free_buckets, chunks: HashMap::new() };
        proof {
            let f = p.free();
            assert forall|b: u32| b < TOTAL_BUCKETS implies #[trigger] covered(f, p.chunks(), b) by {
                assert(f[b as int] == b);
            }
        }
        p
    }

    /// Frees every bucket, in order, and forgets every chunk.
    pub fn clear(&mut self)
        ensures
            final(self).wf(),
            final(self).free() == bucket_ids(),
            final(self).chunks() == Map::<i64, ChunkAlloc>::empty(),
    {
        *self = Self::new();
    }

    /// How many chunks hold buckets.
    pub fn chunk_count(&self) -> (n: usize)
        ensures
            n == self.chunks().len(),
    {
        self.chunks.len()
    }

    /// The buckets held by the chunk with the given key, if any.
    pub fn buckets_of(&self, key: i64) -> (r: Option<&Vec<u32>>)
        ensures
            self.chunks().contains_key(key) ==> r is Some && r->0@ == self.chunks()[key].buckets@,
            !self.chunks().contains_key(key) ==> r is None,
    {
        match self.chunks.get(&key) {
            Some(a) => Some(&a.buckets),
            None => None,
        }
    }

    /// Gives the buckets of the chunk with the given key back to the end of
    /// the free list, in the chunk's order, and forgets the chunk.
    pub fn remove(&mut self, key: i64)
        requires
            old(self).wf(),
        ensures
            final(self).wf(),
            final(self).chunks() == chunks_without(old(self).chunks(), key),
            final(self).free() == free_without(old(self).free(), old(self).chunks(), key),
    {
        let ghost free0 = self.free_buckets@;
        let ghost chunks0 = self.chunks@;
        match self.chunks.remove(&key) {
            None => {},
            Some(alloc) => {
                let mut j: usize = 0;
                while j < alloc.buckets.len()
                    invariant
                        j <= alloc.buckets@.len(),
                        self.free_buckets@ == free0 + alloc.buckets@.take(j as int),
                        self.chunks@ == chunks0.remove(key),
                    decreases alloc.buckets.len() - j,
                {
                    self.free_buckets.push_back(alloc.buckets[j]);
                    j = j + 1;
                    assert(self.free_buckets@ =~= free0 + alloc.buckets@.take(j as int));
                }
                assert(alloc.buckets@.take(alloc.buckets@.len() as int) =~= alloc.buckets@);
            },
        }
        proof {
            lemma_pool_without(free0, chunks0, key);
        }
    }

    /// Uploads the mesh of the chunk with the given key, given its vertex
    /// count and its indices (six to a quad): the chunk first gives back the
    /// buckets it held; a mesh without vertices or indices is then done. It
    /// takes one bucket per `BUCKET_VERTICES` vertices from the front of the
    /// free list, or nothing when too few are free. Each bucket holds the
    /// next run of vertices and draws the quads, in order, whose indices all
    /// fall below its end; the last bucket also draws every index left over.
    pub fn upload(&mut self, key: i64, vertex_count: usize, indices: &Vec<u32>) -> (r: Option<Vec<BucketUpload>>)
        requires
            old(self).wf(),
            vertex_count <= u32::MAX,
            indices@.len() <= u32::MAX,
            vertex_count > 0 && indices@.len() > 0 ==> rebase_fits(
                indices@,
                vertex_count as int,
                buckets_for(vertex_count as int) as nat,
            ),
        ensures
            final(self).wf(),
            ({
                let c0 = chunks_without(old(self).chunks(), key);
                let f0 = free_without(old(self).free(), old(self).chunks(), key);
                let n = buckets_for(vertex_count as int);
                if vertex_count == 0 || indices@.len() == 0 || f0.len() < n {
                    r is None && final(self).chunks() == c0 && final(self).free() == f0
                } else {
                    &&& r is Some
                    &&& uploaded(r->0@, indices@, vertex_count as int, n, f0)
                    &&& final(self).free() == f0.skip(n)
                    &&& final(self).chunks().remove(key) == c0
                    &&& final(self).chunks().contains_key(key)
                    &&& final(self).chunks()[key].buckets@ == f0.take(n)
                    &&& final(self).chunks()[key].index_counts@ == Seq::new(
                        n as nat,
                        |k: int| bucket_indices(indices@, vertex_count as int, n as nat, k as nat).len() as u32,
                    )
                }
            }),
    {
        let ghost ix = indices@;
        let ghost v = vertex_count as int;
        self.remove(key);
        let ghost c0 = self.chunks@;
        let ghost f0 = self.free_buckets@;
        if vertex_count == 0 || indices.len() == 0 {
            return None;
        }
        let num_buckets: usize = vertex_count / 32768 + if vertex_count % 32768 != 0 { 1 } else { 0 };
        let ghost n = num_buckets as int;
        assert(n == buckets_for(v));
        if self.free_buckets.len() < num_buckets {
            return None;
        }
        let mut out: Vec<BucketUpload> = Vec::new();
        let mut held: Vec<u32> = Vec::new();
        let mut counts: Vec<u32> = Vec::new();
        let mut idx_cursor: usize = 0;
        let mut k: usize = 0;
        while k < num_buckets
            invariant
                ix == indices@,
                v == vertex_count,
                vertex_count <= u32::MAX,
                ix.len() <= u32::MAX,
                0 < n,
                n == num_buckets,
                n == buckets_for(v),
                n <= f0.len(),
                rebase_fits(ix, v, n as nat),
                k <= n,
                self.free_buckets@ == f0.skip(k as int),
                self.chunks@ == c0,
                held@ == f0.take(k as int),
                idx_cursor == quads_start(ix, v, k as nat),
                out@.len() == k,
                counts@.len() == k,
                forall|t: int| 0 <= t < k ==> {
                    &&& (#[trigger] out@[t]).bucket == f0[t]
                    &&& out@[t].vertex_start == bucket_start(t)
                    &&& out@[t].vertex_end == bucket_end(t, v)
                    &&& out@[t].indices@ == bucket_indices(ix, v, n as nat, t as nat)
                    &&& counts@[t] == out@[t].indices@.len() as u32
                },
            decreases num_buckets - k,
        {
            let bucket = match self.free_buckets.pop_front() {
                Some(b) => b,
                None => {
                    assert(false);
                    return None;
                },
            };
            assert(self.free_buckets@ =~= f0.skip(k + 1));
            let (bi, next, start, end) = fill_bucket(indices, vertex_count, num_buckets, k, idx_cursor);
            counts.push(bi.len() as u32);
            held.push(bucket);
            assert(held@ =~= f0.take(k + 1));
            out.push(BucketUpload { bucket, vertex_start: start, vertex_end: end, indices: bi });
            idx_cursor = next;
            k = k + 1;
        }
        let ghost alloc_counts = counts@;
        let alloc = ChunkAlloc { buckets: held, index_counts: counts };
        let ghost a = alloc;
        self.chunks.insert(key, alloc);
        proof {
            assert forall|t: int| 0 <= t < n implies alloc_counts[t]
                == bucket_indices(ix, v, n as nat, t as nat).len() as u32 by {
                assert(out@[t].indices@ == bucket_indices(ix, v, n as nat, t as nat));
            }
            assert(alloc_counts =~= Seq::new(
                n as nat,
                |t: int| bucket_indices(ix, v, n as nat, t as nat).len() as u32,
            ));
            assert(self.chunks@.remove(key) =~= c0);
            lemma_pool_after_take(f0, c0, key, n as nat, a);
        }
        Some(out)
    }

    /// The draw ranges of every bucket held, chunk after chunk, with the
    /// chunks in the order the map of chunks is walked, which is not known:
    /// each chunk comes once.
    pub fn draw_ranges(&self) -> (r: Vec<DrawRange>)
        requires
            self.wf(),
        ensures
            exists|keys: Seq<i64>|
                #[trigger] keys_of(self.chunks(), keys) && r@ == ranges_in(self.chunks(), keys),
    {
        let ghost m = self.chunks@;
        let ghost all = spec_hash_map_iter(&self.chunks).remaining();
        let ghost keys = all.map_values(|e: (&i64, &ChunkAlloc)| *e.0);
        let ghost mut count: int = 0;
        let mut r: Vec<DrawRange> = Vec::new();
        for e in it: self.chunks.iter()
            invariant
                m == self.chunks@,
                pool_inv(self.free_buckets@, m),
                it.seq() == all,
                keys == all.map_values(|e: (&i64, &ChunkAlloc)| *e.0),
                count == it.index(),
                0 <= count <= all.len(),
                forall|j: int| 0 <= j < all.len() ==> m.contains_key(*all[j].0) && m[*all[j].0] == *all[j].1,
                r@ == ranges_in(m, keys.take(count)),
        {
            let (key, alloc) = e;
            proof {
                assert(keys.take(count + 1).drop_last() =~= keys.take(count));
                assert(keys.take(count + 1).last() == *key);
                assert(m.contains_key(*key));
            }
            let ghost r0 = r@;
            let mut j: usize = 0;
            while j < alloc.buckets.len()
                invariant
                    m.contains_key(*key),
                    *alloc == m[*key],
                    pool_inv(self.free_buckets@, m),
                    alloc.buckets@.len() == alloc.index_counts@.len(),
                    j <= alloc.buckets@.len(),
                    r@ == r0 + chunk_ranges(*alloc).take(j as int),
                decreases alloc.buckets.len() - j,
            {
                let b = alloc.buckets[j];
                assert(b < TOTAL_BUCKETS);
                let d = DrawRange {
                    first_index: b * BUCKET_INDICES,
                    vertex_offset: (b * BUCKET_VERTICES) as i32,
                    index_count: alloc.index_counts[j],
                };
                r.push(d);
                j = j + 1;
                assert(r@ =~= r0 + chunk_ranges(*alloc).take(j as int));
            }
            assert(chunk_ranges(*alloc).take(alloc.buckets@.len() as int) =~= chunk_ranges(*alloc));
            proof {
                count = count + 1;
            }
        }
        proof {
            assert(count == all.len());
            assert(keys.take(count) =~= keys);
            lemma_iter_keys(m, all);
        }
        r
    }
}

/// An upload of a mesh of `v` vertices with indices `ix` into `n` buckets,
/// handed out from the front of the free list `free`.
pub open spec fn uploaded(u: Seq<BucketUpload>, ix: Seq<u32>, v: int, n: int, free: Seq<u32>) -> bool {
    &&& u.len() == n
    &&& forall|k: int| 0 <= k < n ==> {
        &&& (#[trigger] u[k]).bucket == free[k]
        &&& u[k].vertex_start == bucket_start(k)
        &&& u[k].vertex_end == bucket_end(k, v)
        &&& u[k].indices@ == bucket_indices(ix, v, n as nat, k as nat)
    }
}

fn quad_max_at(ix: &Vec<u32>, c: usize) -> (m: u32)
    requires
        c + 6 <= ix.len(),
    ensures
        m == quad_max(ix@, c as int),
{
    let mut m = ix[c];
    m = if m >= ix[c + 1] { m } else { ix[c + 1] };
    m = if m >= ix[c + 2] { m } else { ix[c + 2] };
    m = if m >= ix[c + 3] { m } else { ix[c + 3] };
    m = if m >= ix[c + 4] { m } else { ix[c + 4] };
    m = if m >= ix[c + 5] { m } else { ix[c + 5] };
    m
}

/// Quads taken from `c` on end no earlier than `c` and within the list.
pub proof fn lemma_quads_end_bounds(ix: Seq<u32>, c: int, end: int)
    requires
        0 <= c <= ix.len(),
    ensures
        c <= quads_end(ix, c, end) <= ix.len(),
    decreases ix.len() - c,
{
    if c + 6 <= ix.len() && quad_max(ix, c) < end {
        lemma_quads_end_bounds(ix, c + 6, end);
    }
}

/// The quads of each bucket start within the list, no earlier than those of
/// the bucket before.
pub proof fn lemma_quads_start_bounds(ix: Seq<u32>, v: int, k: nat)
    ensures
        0 <= quads_start(ix, v, k) <= quads_start(ix, v, k + 1) <= ix.len(),
    decreases k,
{
    if k > 0 {
        lemma_quads_start_bounds(ix, v, (k - 1) as nat);
    }
    lemma_quads_end_bounds(ix, quads_start(ix, v, k), bucket_end(k as int, v));
}

/// The quads of one bucket from `start` on, taken while all their indices
/// are below `end`, made relative to `base`.
fn take_quads(indices: &Vec<u32>, start: usize, base: u32, end: u32) -> (r: (Vec<u32>, usize))
    requires
        start <= indices@.len(),
        forall|j: int| start <= j < quads_end(indices@, start as int, end as int) ==> #[trigger] indices@[j] >= base,
    ensures
        r.1 == quads_end(indices@, start as int, end as int),
        r.0@ == rebased(indices@.subrange(start as int, r.1 as int), base as int),
{
    let ghost ix = indices@;
    let ghost target = quads_end(ix, start as int, end as int);
    let mut out: Vec<u32> = Vec::new();
    let mut cursor = start;
    let mut done = false;
    proof {
        lemma_quads_end_bounds(ix, start as int, end as int);
    }
    while !done
        invariant
            start <= cursor <= ix.len(),
            ix == indices@,
            target == quads_end(ix, start as int, end as int),
            quads_end(ix, cursor as int, end as int) == target,
            cursor <= target <= ix.len(),
            forall|j: int| start <= j < target ==> #[trigger] ix[j] >= base,
            out@ == rebased(ix.subrange(start as int, cursor as int), base as int),
            done ==> cursor == target,
        decreases ix.len() - cursor + if done { 0int } else { 1int },
    {
        if indices.len() - cursor < 6 {
            done = true;
        } else {
            let m = quad_max_at(indices, cursor);
            if m >= end {
                done = true;
            } else {
                proof {
                    lemma_quads_end_bounds(ix, cursor + 6, end as int);
                }
                let mut t: usize = 0;
                while t < 6
                    invariant
                        t <= 6,
                        cursor + 6 <= target,
                        target <= indices.len(),
                        start <= cursor,
                        ix == indices@,
                        forall|j: int| start <= j < target ==> #[trigger] ix[j] >= base,
                        out@ == rebased(ix.subrange(start as int, cursor + t), base as int),
                    decreases 6 - t,
                {
                    assert(ix[cursor + t] >= base);
                    out.push(indices[cursor + t] - base);
                    t = t + 1;
                    assert(out@ =~= rebased(ix.subrange(start as int, cursor + t), base as int));
                }
                cursor = cursor + 6;
            }
        }
    }
    (out, cursor)
}

/// The indices of bucket `k` of a mesh, its first vertex and the end of its
/// vertices, and where the next bucket's quads start.
fn fill_bucket(indices: &Vec<u32>, vertex_count: usize, n: usize, k: usize, idx_cursor: usize) -> (r: (Vec<u32>, usize, usize, usize))
    requires
        vertex_count <= u32::MAX,
        indices@.len() <= u32::MAX,
        n == buckets_for(vertex_count as int),
        k < n,
        idx_cursor == quads_start(indices@, vertex_count as int, k as nat),
        rebase_fits(indices@, vertex_count as int, n as nat),
    ensures
        r.0@ == bucket_indices(indices@, vertex_count as int, n as nat, k as nat),
        r.0@.len() <= indices@.len(),
        r.1 == quads_start(indices@, vertex_count as int, (k + 1) as nat),
        r.2 == bucket_start(k as int),
        r.3 == bucket_end(k as int, vertex_count as int),
{
    let ghost ix = indices@;
    let ghost v = vertex_count as int;
    assert((k as int) * 32768 < v);
    let vert_cursor: usize = k * 32768;
    let vert_end: usize = if vertex_count - vert_cursor >= 32768 { vert_cursor + 32768 } else { vertex_count };
    let local_base = vert_cursor as u32;
    let local_end = vert_end as u32;
    proof {
        lemma_quads_start_bounds(ix, v, k as nat);
        assert(quads_start(ix, v, (k + 1) as nat) == quads_end(ix, quads_start(ix, v, k as nat), bucket_end(k as int, v)));
        assert forall|j: int| idx_cursor <= j < quads_end(ix, idx_cursor as int, local_end as int) implies #[trigger] ix[j] >= local_base by {
            assert(quads_start(ix, v, k as nat) <= j < quads_start(ix, v, (k + 1) as nat));
            assert(ix[j] >= bucket_start(k as int));
        }
    }
    let (mut bi, next) = take_quads(indices, idx_cursor, local_base, local_end);
    let ghost own = bi@;
    if k + 1 == n && next < indices.len() {
        let rest: u32 = if vertex_count % 32768 >= 1 {
            (vertex_count - vertex_count % 32768) as u32
        } else {
            (vertex_count - 1) as u32
        };
        let mut j: usize = next;
        while j < indices.len()
            invariant
                next <= j <= ix.len(),
                ix == indices@,
                next == quads_start(ix, v, n as nat),
                rebase_fits(ix, v, n as nat),
                rest == rest_base(v),
                bi@ == own + rebased(ix.subrange(next as int, j as int), rest as int),
            decreases indices.len() - j,
        {
            assert(ix[j as int] >= rest_base(v));
            bi.push(indices[j] - rest);
            j = j + 1;
            assert(bi@ =~= own + rebased(ix.subrange(next as int, j as int), rest as int));
        }
        assert(ix.subrange(next as int, ix.len() as int) =~= ix.skip(next as int));
    }
    (bi, next, vert_cursor, vert_end)
}

fn scan_quads(indices: &Vec<u32>, start: usize, end: u32) -> (c: usize)
    requires
        start <= indices@.len(),
    ensures
        c == quads_end(indices@, start as int, end as int),
{
    let ghost ix = indices@;
    let mut cursor = start;
    let mut done = false;
    proof {
        lemma_quads_end_bounds(ix, start as int, end as int);
    }
    while !done
        invariant
            start <= cursor <= ix.len(),
            ix == indices@,
            quads_end(ix, cursor as int, end as int) == quads_end(ix, start as int, end as int),
            done ==> cursor == quads_end(ix, start as int, end as int),
        decreases ix.len() - cursor + if done { 0int } else { 1int },
    {
        if indices.len() - cursor < 6 {
            done = true;
        } else if quad_max_at(indices, cursor) >= end {
            done = true;
        } else {
            cursor = cursor + 6;
        }
    }
    cursor
}

/// Whether no index of a mesh lies below the vertex it is made relative to
/// on upload; `upload` takes only meshes for which this holds.
pub fn indices_fit(indices: &Vec<u32>, vertex_count: usize) -> (b: bool)
    requires
        0 < vertex_count <= u32::MAX,
        indices@.len() <= u32::MAX,
    ensures
        b == rebase_fits(indices@, vertex_count as int, buckets_for(vertex_count as int) as nat),
{
    let ghost ix = indices@;
    let ghost v = vertex_count as int;
    let n: usize = vertex_count / 32768 + if vertex_count % 32768 != 0 { 1 } else { 0 };
    assert(n == buckets_for(v));
    let mut cursor: usize = 0;
    let mut k: usize = 0;
    while k < n
        invariant
            ix == indices@,
            v == vertex_count,
            0 < vertex_count <= u32::MAX,
            n == buckets_for(v),
            k <= n,
            cursor == quads_start(ix, v, k as nat),
            cursor <= ix.len(),
            forall|k2: nat, j: int| #![trigger quads_start(ix, v, k2), ix[j]]
                k2 < k && quads_start(ix, v, k2) <= j < quads_start(ix, v, k2 + 1) && j < ix.len()
                ==> ix[j] >= bucket_start(k2 as int),
        decreases n - k,
    {
        assert((k as int) * 32768 < v);
        let base: u32 = (k * 32768) as u32;
        let end: u32 = if vertex_count - k * 32768 >= 32768 { (k * 32768 + 32768) as u32 } else { vertex_count as u32 };
        assert(end == bucket_end(k as int, v));
        let next = scan_quads(indices, cursor, end);
        proof {
            lemma_quads_start_bounds(ix, v, k as nat);
            assert(quads_start(ix, v, (k + 1) as nat) == next);
        }
        let mut j = cursor;
        while j < next
            invariant
                cursor <= j <= next,
                next <= ix.len(),
                ix == indices@,
                v == vertex_count,
                k < n,
                n == buckets_for(v),
                cursor == quads_start(ix, v, k as nat),
                next == quads_start(ix, v, (k + 1) as nat),
                base == bucket_start(k as int),
                forall|i: int| cursor <= i < j ==> #[trigger] ix[i] >= base,
            decreases next - j,
        {
            if indices[j] < base {
                proof {
                    assert(quads_start(ix, v, k as nat) <= j < quads_start(ix, v, (k + 1) as nat));
                    assert(!(ix[j as int] >= bucket_start(k as int)));
                }
                return false;
            }
            j = j + 1;
        }
        cursor = next;
        k = k + 1;
    }
    let rest: u32 = if vertex_count % 32768 >= 1 {
        (vertex_count - vertex_count % 32768) as u32
    } else {
        (vertex_count - 1) as u32
    };
    assert(rest == rest_base(v));
    let mut j = cursor;
    while j < indices.len()
        invariant
            cursor <= j <= ix.len(),
            ix == indices@,
            cursor == quads_start(ix, v, n as nat),
            n == buckets_for(v),
            v == vertex_count,
            rest == rest_base(v),
            forall|i: int| cursor <= i < j ==> #[trigger] ix[i] >= rest_base(v),
        decreases indices.len() - j,
    {
        if indices[j] < rest {
            assert(!(ix[j as int] >= rest_base(v)));
            return false;
        }
        j = j + 1;
    }
    true
}

/// The keys of a walk over the chunks list each chunk once.
proof fn lemma_iter_keys(m: Map<i64, ChunkAlloc>, all: Seq<(&i64, &ChunkAlloc)>)
    requires
        all.no_duplicates(),
        forall|j: int| 0 <= j < all.len() ==> m.contains_key(*all[j].0) && m[*all[j].0] == *all[j].1,
        forall|k: i64| #[trigger] m.contains_key(k) ==> all.contains((&k, &m[k])),
    ensures
        keys_of(m, all.map_values(|e: (&i64, &ChunkAlloc)| *e.0)),
{
    let keys = all.map_values(|e: (&i64, &ChunkAlloc)| *e.0);
    assert forall|i: int, j: int| 0 <= i < keys.len() && 0 <= j < keys.len() && i != j implies keys[i] != keys[j] by {
        if keys[i] == keys[j] {
            assert(all[i] == all[j]);
        }
    }
    assert forall|i: int| 0 <= i < keys.len() implies m.contains_key(#[trigger] keys[i]) by {}
    assert forall|k: i64| #[trigger] m.contains_key(k) implies keys.contains(k) by {
        assert(all.contains((&k, &m[k])));
        let j = choose|j: int| 0 <= j < all.len() && all[j] == (&k, &m[k]);
        assert(keys[j] == k);
    }
}

/// A chunk giving its buckets back keeps the pool's invariant.
pub proof fn lemma_pool_without(free: Seq<u32>, chunks: Map<i64, ChunkAlloc>, key: i64)
    requires
        pool_inv(free, chunks),
    ensures
        pool_inv(free_without(free, chunks, key), chunks_without(chunks, key)),
{
    if chunks.contains_key(key) {
        let b = chunks[key].buckets@;
        let f1 = free + b;
        let c1 = chunks.remove(key);
        assert(forall|j: int| 0 <= j < b.len() ==> b[j] < TOTAL_BUCKETS && !free.contains(b[j]));
        assert forall|i: int, j: int| 0 <= i < f1.len() && 0 <= j < f1.len() && i != j implies f1[i] != f1[j] by {
            if i < free.len() && j >= free.len() {
                assert(!free.contains(b[j - free.len()]));
            } else if j < free.len() && i >= free.len() {
                assert(!free.contains(b[i - free.len()]));
            }
        }
        assert forall|i: int| 0 <= i < f1.len() implies f1[i] < TOTAL_BUCKETS by {}
        assert forall|k: i64| #[trigger] c1.contains_key(k) implies {
            &&& c1[k].buckets@.no_duplicates()
            &&& c1[k].buckets@.len() == c1[k].index_counts@.len()
            &&& forall|j: int| 0 <= j < c1[k].buckets@.len() ==> c1[k].buckets@[j] < TOTAL_BUCKETS
                && !f1.contains(c1[k].buckets@[j])
        } by {
            assert(chunks.contains_key(k) && k != key);
            assert forall|j: int| 0 <= j < c1[k].buckets@.len() implies !f1.contains(c1[k].buckets@[j]) by {
                let x = c1[k].buckets@[j];
                assert(chunks[k].buckets@.contains(x));
                assert(!free.contains(x));
                assert(!b.contains(x));
                if f1.contains(x) {
                    let w = choose|w: int| 0 <= w < f1.len() && f1[w] == x;
                    if w < free.len() {
                        assert(free[w] == x);
                    } else {
                        assert(b[w - free.len()] == x);
                    }
                }
            }
        }
        assert forall|k1: i64, k2: i64, x: u32|
            c1.contains_key(k1) && c1.contains_key(k2) && k1 != k2 && #[trigger] c1[k1].buckets@.contains(x)
            implies !#[trigger] c1[k2].buckets@.contains(x) by {
            assert(chunks[k1].buckets@.contains(x));
        }
        assert(f1.no_duplicates());
        assert forall|x: u32| x < TOTAL_BUCKETS implies #[trigger] covered(f1, c1, x) by {
            assert(covered(free, chunks, x));
            if free.contains(x) {
                let w = choose|w: int| 0 <= w < free.len() && free[w] == x;
                assert(f1[w] == x);
            } else {
                let k = choose|k: i64| chunks.contains_key(k) && #[trigger] chunks[k].buckets@.contains(x);
                if k == key {
                    let w = choose|w: int| 0 <= w < b.len() && b[w] == x;
                    assert(f1[free.len() + w] == x);
                } else {
                    assert(c1.contains_key(k) && c1[k].buckets@.contains(x));
                }
            }
        }
    } else {
        assert(chunks.remove(key) =~= chunks);
    }
}

/// A chunk that is not held taking the first `n` free buckets keeps the
/// pool's invariant.
pub proof fn lemma_pool_after_take(f0: Seq<u32>, c0: Map<i64, ChunkAlloc>, key: i64, n: nat, alloc: ChunkAlloc)
    requires
        pool_inv(f0, c0),
        !c0.contains_key(key),
        n <= f0.len(),
        alloc.buckets@ == f0.take(n as int),
        alloc.index_counts@.len() == n,
    ensures
        pool_inv(f0.skip(n as int), c0.insert(key, alloc)),
{
    let f1 = f0.skip(n as int);
    let t = f0.take(n as int);
    let c1 = c0.insert(key, alloc);
    assert forall|i: int, j: int| 0 <= i < f1.len() && 0 <= j < f1.len() && i != j implies f1[i] != f1[j] by {
        assert(f1[i] == f0[i + n] && f1[j] == f0[j + n]);
    }
    assert forall|i: int, j: int| 0 <= i < t.len() && 0 <= j < t.len() && i != j implies t[i] != t[j] by {
        assert(t[i] == f0[i] && t[j] == f0[j]);
    }
    assert(t.no_duplicates());
    assert forall|i: int| 0 <= i < f1.len() implies f1[i] < TOTAL_BUCKETS by {
        assert(f1[i] == f0[i + n]);
    }
    assert forall|k: i64| #[trigger] c1.contains_key(k) implies {
        &&& c1[k].buckets@.no_duplicates()
        &&& c1[k].buckets@.len() == c1[k].index_counts@.len()
        &&& forall|j: int| 0 <= j < c1[k].buckets@.len() ==> c1[k].buckets@[j] < TOTAL_BUCKETS
            && !f1.contains(c1[k].buckets@[j])
    } by {
        if k == key {
            assert forall|j: int| 0 <= j < t.len() implies t[j] < TOTAL_BUCKETS && !f1.contains(t[j]) by {
                assert(t[j] == f0[j]);
                if f1.contains(t[j]) {
                    let w = choose|w: int| 0 <= w < f1.len() && f1[w] == t[j];
                    assert(f0[w + n] == f0[j]);
                }
            }
        } else {
            assert forall|j: int| 0 <= j < c1[k].buckets@.len() implies !f1.contains(c1[k].buckets@[j]) by {
                let x = c1[k].buckets@[j];
                assert(!f0.contains(x));
                if f1.contains(x) {
                    let w = choose|w: int| 0 <= w < f1.len() && f1[w] == x;
                    assert(f0[w + n] == x);
                }
            }
        }
    }
    assert forall|k1: i64, k2: i64, x: u32|
        c1.contains_key(k1) && c1.contains_key(k2) && k1 != k2 && #[trigger] c1[k1].buckets@.contains(x)
        implies !#[trigger] c1[k2].buckets@.contains(x) by {
        if k1 == key {
            let w = choose|w: int| 0 <= w < t.len() && t[w] == x;
            assert(f0[w] == x);
            assert(f0.contains(x));
            if c1[k2].buckets@.contains(x) {
                let u = choose|u: int| 0 <= u < c0[k2].buckets@.len() && c0[k2].buckets@[u] == x;
            }
        } else if k2 == key {
            let u = choose|u: int| 0 <= u < c0[k1].buckets@.len() && c0[k1].buckets@[u] == x;
            assert(!f0.contains(x));
            if t.contains(x) {
                let w = choose|w: int| 0 <= w < t.len() && t[w] == x;
                assert(f0[w] == x);
            }
        } else {
            assert(c0[k1].buckets@.contains(x));
        }
    }
    assert forall|x: u32| x < TOTAL_BUCKETS implies #[trigger] covered(f1, c1, x) by {
        assert(covered(f0, c0, x));
        if f0.contains(x) {
            let w = choose|w: int| 0 <= w < f0.len() && f0[w] == x;
            if w < n {
                assert(t[w] == x);
                assert(c1.contains_key(key) && c1[key].buckets@.contains(x));
            } else {
                assert(f1[w - n] == x);
            }
        } else {
            let k = choose|k: i64| c0.contains_key(k) && #[trigger] c0[k].buckets@.contains(x);
            assert(c1.contains_key(k) && c1[k].buckets@.contains(x));
        }
    }
}

/// What an upload does to the pool keeps its invariant, for every mesh and
/// whatever its sizes: the chunk with the key gives its buckets back, and
/// then either nothing more happens or a chunk under that key takes the
/// first `n` free buckets, with one index count for each.
pub proof fn law_upload_keeps_pool(
    free: Seq<u32>,
    chunks: Map<i64, ChunkAlloc>,
    key: i64,
    n: nat,
    alloc: ChunkAlloc,
)
    requires
        pool_inv(free, chunks),
        n <= free_without(free, chunks, key).len(),
        alloc.buckets@ == free_without(free, chunks, key).take(n as int),
        alloc.index_counts@.len() == n,
    ensures
        pool_inv(free_without(free, chunks, key), chunks_without(chunks, key)),
        pool_inv(
            free_without(free, chunks, key).skip(n as int),
            chunks_without(chunks, key).insert(key, alloc),
        ),
{
    lemma_pool_without(free, chunks, key);
    lemma_pool_after_take(free_without(free, chunks, key), chunks_without(chunks, key), key, n, alloc);
}

/// Every bucket is counted once in a well-formed pool: no bucket is held by
/// two chunks, none is both held and free, the free list lists none twice,
/// and every bucket of the pool is free or held.
pub proof fn law_buckets_held_once(p: &BucketPool, k1: i64, k2: i64, b: u32)
    requires
        p.wf(),
        p.chunks().contains_key(k1),
        p.chunks().contains_key(k2),
    ensures
        k1 != k2 ==> !(p.chunks()[k1].buckets@.contains(b) && p.chunks()[k2].buckets@.contains(b)),
        !(p.free().contains(b) && p.chunks()[k1].buckets@.contains(b)),
        p.free().no_duplicates(),
        b < TOTAL_BUCKETS ==> p.free().contains(b) || exists|k: i64|
            p.chunks().contains_key(k) && #[trigger] p.chunks()[k].buckets@.contains(b),
{
    if p.chunks()[k1].buckets@.contains(b) {
        let j = choose|j: int| 0 <= j < p.chunks()[k1].buckets@.len() && p.chunks()[k1].buckets@[j] == b;
    }
    if b < TOTAL_BUCKETS {
        assert(covered(p.free(), p.chunks(), b));
    }
}

} // verus!
