//! What the chunk mesher needs to know of block states: the fluid or solid
//! kind of a block, and the numbering of the block states that are meshed as
//! merged faces.
use std::collections::HashMap;
use vstd::prelude::*;
use crate::model::{FaceTextures, FaceTexturesView};
use crate::text::same_text;

verus! {

broadcast use vstd::std_specs::hash::group_hash_axioms;

/// How the mesher treats a block.
#[derive(PartialEq, Eq, Structural, Clone, Copy, Debug)]
pub enum BlockKind {
    Air,
    Water,
    Lava,
    Solid,
}

/// The kind of a block by whether it is air and by its block id: the
/// invisible blocks count as air, water and bubble columns as water.
pub open spec fn kind_of(is_air: bool, id: Seq<char>) -> BlockKind {
    if is_air || id == "cave_air"@ || id == "void_air"@ || id == "light"@ || id == "barrier"@
        || id == "structure_void"@ || id == "moving_piston"@ {
        BlockKind::Air
    } else if id == "water"@ || id == "bubble_column"@ {
        BlockKind::Water
    } else if id == "lava"@ {
        BlockKind::Lava
    } else {
        BlockKind::Solid
    }
}

/// The kind of a block by whether it is air and by its block id.
pub fn classify_block(is_air: bool, block_id: &str) -> (k: BlockKind)
    ensures
        k == kind_of(is_air, block_id@),
{
    if is_air {
        return BlockKind::Air;
    }
    if same_text(block_id, "cave_air") || same_text(block_id, "void_air") || same_text(block_id, "light")
        || same_text(block_id, "barrier") || same_text(block_id, "structure_void")
        || same_text(block_id, "moving_piston") {
        BlockKind::Air
    } else if same_text(block_id, "water") || same_text(block_id, "bubble_column") {
        BlockKind::Water
    } else if same_text(block_id, "lava") {
        BlockKind::Lava
    } else {
        BlockKind::Solid
    }
}

/// The invisible blocks are never drawn: a block flagged as air, and each of
/// `cave_air`, `void_air`, `light`, `barrier`, `structure_void` and
/// `moving_piston` whatever its flag, is air. Of the other blocks, water and
/// bubble columns are water, lava is lava, and every other block is solid.
pub proof fn law_block_kinds(is_air: bool, id: Seq<char>)
    ensures
        is_air ==> kind_of(is_air, id) == BlockKind::Air,
        kind_of(is_air, "cave_air"@) == BlockKind::Air,
        kind_of(is_air, "void_air"@) == BlockKind::Air,
        kind_of(is_air, "light"@) == BlockKind::Air,
        kind_of(is_air, "barrier"@) == BlockKind::Air,
        kind_of(is_air, "structure_void"@) == BlockKind::Air,
        kind_of(is_air, "moving_piston"@) == BlockKind::Air,
        !is_air ==> kind_of(is_air, "water"@) == BlockKind::Water,
        !is_air ==> kind_of(is_air, "bubble_column"@) == BlockKind::Water,
        !is_air ==> kind_of(is_air, "lava"@) == BlockKind::Lava,
        !is_air && id != "cave_air"@ && id != "void_air"@ && id != "light"@ && id != "barrier"@
            && id != "structure_void"@ && id != "moving_piston"@ && id != "water"@ && id != "bubble_column"@
            && id != "lava"@ ==> kind_of(is_air, id) == BlockKind::Solid,
{
    reveal_strlit("cave_air");
    reveal_strlit("void_air");
    reveal_strlit("light");
    reveal_strlit("barrier");
    reveal_strlit("structure_void");
    reveal_strlit("moving_piston");
    reveal_strlit("water");
    reveal_strlit("bubble_column");
    reveal_strlit("lava");
    let air = seq!["cave_air"@, "void_air"@, "light"@, "barrier"@, "structure_void"@, "moving_piston"@];
    assert forall|k: int| 0 <= k < 6 implies air[k] != "water"@ && air[k] != "bubble_column"@ && air[k] != "lava"@ by {
        assert(air[k][0] != "water"@[0]);
        assert(air[k][0] != "bubble_column"@[0] || air[k][1] != "bubble_column"@[1]);
        assert(air[k][0] != "lava"@[0] || air[k][1] != "lava"@[1]);
    }
    assert("lava"@[0] != "water"@[0] && "lava"@[0] != "bubble_column"@[0]);
}

/// How the mesher draws a block that is not merged into greedy faces.
#[derive(PartialEq, Eq, Structural, Clone, Copy, Debug)]
pub enum Emitter {
    /// Nothing is drawn: air, or a block whose faces were merged.
    Skip,
    /// A cube standing for the blocks of a coarser level of detail.
    LodCube,
    /// A fluid surface, lava or water.
    Fluid { lava: bool },
    /// The block's baked model.
    BakedModel,
    /// The quads of the block's multipart model.
    Multipart,
    /// A full cube with the block's face textures.
    CubeFaces,
    /// The cube drawn for a block without a model.
    MissingCube,
}

/// How a block is drawn: air and merged blocks are skipped; at a coarser
/// level of detail every other block is a detail cube; otherwise fluids,
/// then the baked model, the multipart model and the face textures are tried
/// in turn, and a block with none of them is drawn as the missing cube.
pub open spec fn emitter_for(
    kind: BlockKind,
    lod: u32,
    greedy_id: u16,
    has_baked: bool,
    has_multipart: bool,
    has_textures: bool,
) -> Emitter {
    if kind == BlockKind::Air || (lod == 0 && greedy_id != 0) {
        Emitter::Skip
    } else if lod > 0 {
        Emitter::LodCube
    } else if kind == BlockKind::Water || kind == BlockKind::Lava {
        Emitter::Fluid { lava: kind == BlockKind::Lava }
    } else if has_baked {
        Emitter::BakedModel
    } else if has_multipart {
        Emitter::Multipart
    } else if has_textures {
        Emitter::CubeFaces
    } else {
        Emitter::MissingCube
    }
}

/// How a block is drawn, given its kind, the level of detail, its number
/// among the merged states (0 when not merged) and which models it has.
pub fn choose_emitter(
    kind: BlockKind,
    lod: u32,
    greedy_id: u16,
    has_baked: bool,
    has_multipart: bool,
    has_textures: bool,
) -> (e: Emitter)
    ensures
        e == emitter_for(kind, lod, greedy_id, has_baked, has_multipart, has_textures),
{
    if kind == BlockKind::Air {
        return Emitter::Skip;
    }
    if lod == 0 && greedy_id != 0 {
        return Emitter::Skip;
    }
    if lod > 0 {
        Emitter::LodCube
    } else if kind == BlockKind::Water || kind == BlockKind::Lava {
        Emitter::Fluid { lava: kind == BlockKind::Lava }
    } else if has_baked {
        Emitter::BakedModel
    } else if has_multipart {
        Emitter::Multipart
    } else if has_textures {
        Emitter::CubeFaces
    } else {
        Emitter::MissingCube
    }
}

/// A block whose faces were merged is not drawn again, and every block
/// that is not air is drawn some way unless merged.
pub proof fn law_merged_blocks_drawn_once(
    kind: BlockKind,
    lod: u32,
    greedy_id: u16,
    has_baked: bool,
    has_multipart: bool,
    has_textures: bool,
)
    ensures
        lod == 0 && greedy_id != 0 ==> emitter_for(kind, lod, greedy_id, has_baked, has_multipart, has_textures)
            == Emitter::Skip,
        kind != BlockKind::Air && !(lod == 0 && greedy_id != 0) ==> emitter_for(
            kind,
            lod,
            greedy_id,
            has_baked,
            has_multipart,
            has_textures,
        ) != Emitter::Skip,
{
}

/// Blocks along each side of a padded section: the section's 16 and one
/// neighbour on either side.
pub const PADDED: usize = 18;

/// Where the block at padded position `(lx, ly, lz)` goes in the voxel array
/// of a section.
pub open spec fn voxel_index_of(lx: int, ly: int, lz: int) -> int {
    (ly * PADDED + lx) * PADDED + lz
}

/// Where the block at padded position `(lx, ly, lz)` goes in the voxel array
/// of a section.
pub fn voxel_index(lx: usize, ly: usize, lz: usize) -> (i: usize)
    requires
        lx < PADDED,
        ly < PADDED,
        lz < PADDED,
    ensures
        i == voxel_index_of(lx as int, ly as int, lz as int),
        i < PADDED * PADDED * PADDED,
{
    assert((ly * 18 + lx) * 18 + lz < 5832) by (nonlinear_arith)
        requires lx < 18, ly < 18, lz < 18;
    (ly * PADDED + lx) * PADDED + lz
}

/// Distinct padded positions go to distinct places of the voxel array.
pub proof fn law_voxel_index_distinct(ax: int, ay: int, az: int, bx: int, by: int, bz: int)
    requires
        0 <= ax < 18,
        0 <= ay < 18,
        0 <= az < 18,
        0 <= bx < 18,
        0 <= by < 18,
        0 <= bz < 18,
        voxel_index_of(ax, ay, az) == voxel_index_of(bx, by, bz),
    ensures
        ax == bx && ay == by && az == bz,
{
    assert(ax == bx && ay == by && az == bz) by (nonlinear_arith)
        requires
            0 <= ax < 18, 0 <= ay < 18, 0 <= az < 18,
            0 <= bx < 18, 0 <= by < 18, 0 <= bz < 18,
            (ay * 18 + ax) * 18 + az == (by * 18 + bx) * 18 + bz;
}

/// The block state id of air.
pub const AIR_STATE: u16 = 0;

/// The textures of a block state whose faces are merged when meshed.
pub struct GreedyBlockInfo {
    pub textures: FaceTextures,
}

/// Whether a block state's faces are merged into greedy faces: it has no
/// baked or multipart model, it has face textures, they carry no side
/// overlay, and it is an opaque full cube.
pub open spec fn merges(
    has_baked: bool,
    has_multipart: bool,
    has_textures: bool,
    has_overlay: bool,
    opaque_full_cube: bool,
) -> bool {
    !has_baked && !has_multipart && has_textures && !has_overlay && opaque_full_cube
}

/// Decides whether a block state's faces are merged into greedy faces.
pub fn greedy_eligible(
    has_baked: bool,
    has_multipart: bool,
    has_textures: bool,
    has_overlay: bool,
    opaque_full_cube: bool,
) -> (r: bool)
    ensures
        r == merges(has_baked, has_multipart, has_textures, has_overlay, opaque_full_cube),
{
    if has_baked || has_multipart {
        return false;
    }
    if !has_textures {
        return false;
    }
    !has_overlay && opaque_full_cube
}

/// The entry of a scan for a block state, from what the block registry
/// knows of it: the state with its face textures when its faces are merged,
/// else the state alone.
pub fn scan_entry(
    state: u16,
    has_baked: bool,
    has_multipart: bool,
    textures: Option<FaceTextures>,
    opaque_full_cube: bool,
) -> (e: (u16, Option<FaceTextures>))
    ensures
        e.0 == state,
        e.1 is Some <==> merges(
            has_baked,
            has_multipart,
            textures is Some,
            textures is Some && textures->0.side_overlay is Some,
            opaque_full_cube,
        ),
        e.1 matches Some(t) ==> textures matches Some(u) && t@ == u@,
{
    let has_textures = textures.is_some();
    let has_overlay = match &textures {
        Some(t) => t.side_overlay.is_some(),
        None => false,
    };
    if greedy_eligible(has_baked, has_multipart, has_textures, has_overlay, opaque_full_cube) {
        (state, textures)
    } else {
        (state, None)
    }
}

/// The block states met while scanning a chunk, each with its face textures
/// where its faces can be merged (a full opaque cube without overlay or
/// special model), in the order they were met.
pub open spec fn scan_views(scan: Seq<(u16, Option<FaceTextures>)>) -> Seq<(u16, Option<FaceTexturesView>)> {
    scan.map_values(
        |e: (u16, Option<FaceTextures>)|
            (e.0, match e.1 {
                Some(t) => Some(t@),
                None => None,
            }),
    )
}

/// The numbering of the states of a scan: each non-air state gets, when first
/// met, the next number from 1 if its faces can be merged and 0 otherwise;
/// with the textures of the numbered states, in number order.
pub open spec fn type_table(scan: Seq<(u16, Option<FaceTexturesView>)>) -> (Map<u16, u16>, Seq<FaceTexturesView>)
    decreases scan.len(),
{
    if scan.len() == 0 {
        (Map::empty(), Seq::empty())
    } else {
        let prev = type_table(scan.drop_last());
        let s = scan.last().0;
        if s == AIR_STATE || prev.0.contains_key(s) {
            prev
        } else {
            match scan.last().1 {
                Some(t) => (prev.0.insert(s, (prev.1.len() + 1) as u16), prev.1.push(t)),
                None => (prev.0.insert(s, 0u16), prev.1),
            }
        }
    }
}

/// How a state was classed when the scan first met it, if it did.
pub open spec fn first_class(scan: Seq<(u16, Option<FaceTexturesView>)>, s: u16) -> Option<Option<FaceTexturesView>>
    decreases scan.len(),
{
    if scan.len() == 0 {
        None
    } else {
        match first_class(scan.drop_last(), s) {
            Some(c) => Some(c),
            None => if scan.last().0 == s {
                Some(scan.last().1)
            } else {
                None
            },
        }
    }
}

/// The numbering of the block states of a chunk whose faces are merged.
pub struct BlockTypeMap {
    state_to_id: HashMap<u16, u16>,
    id_to_info: Vec<GreedyBlockInfo>,
}

impl BlockTypeMap {
    /// The number of each numbered state.
    pub closed spec fn ids(&self) -> Map<u16, u16> {
        self.state_to_id@
    }

    /// The textures of the numbered states, in number order from 1.
    pub closed spec fn infos(&self) -> Seq<FaceTexturesView> {
        self.id_to_info@.map_values(|i: GreedyBlockInfo| i.textures@)
    }

    /// Numbers the states of a scan, as `type_table` says.
    pub fn build(scan: &Vec<(u16, Option<FaceTextures>)>) -> (m: Self)
        requires
            type_table(scan_views(scan@)).1.len() < u16::MAX,
        ensures
            m.ids() == type_table(scan_views(scan@)).0,
            m.infos() == type_table(scan_views(scan@)).1,
    {
        let ghost sc = scan_views(scan@);
        let mut state_to_id: HashMap<u16, u16> = HashMap::new();
        let mut id_to_info: Vec<GreedyBlockInfo> = Vec::new();
        let mut next_id: u16 = 1;
        let mut i: usize = 0;
        while i < scan.len()
            invariant
                i <= scan@.len(),
                sc == scan_views(scan@),
                type_table(sc).1.len() < u16::MAX,
                state_to_id@ == type_table(sc.take(i as int)).0,
                id_to_info@.map_values(|i: GreedyBlockInfo| i.textures@) == type_table(sc.take(i as int)).1,
                next_id as int == id_to_info@.len() + 1,
            decreases scan.len() - i,
        {
            proof {
                lemma_table_grows(sc, i + 1);
                assert(sc.take(i + 1).drop_last() =~= sc.take(i as int));
                assert(sc.take(i + 1).last() == sc[i as int]);
            }
            let state = scan[i].0;
            let known = state_to_id.contains_key(&state);
            if state != AIR_STATE && !known {
                match &scan[i].1 {
                    Some(t) => {
                        let ghost before = id_to_info@;
                        state_to_id.insert(state, next_id);
                        id_to_info.push(GreedyBlockInfo { textures: t.clone() });
                        assert(id_to_info@.map_values(|i: GreedyBlockInfo| i.textures@)
                            =~= before.map_values(|i: GreedyBlockInfo| i.textures@).push(t@));
                        next_id = next_id + 1;
                    },
                    None => {
                        state_to_id.insert(state, 0);
                    },
                }
            }
            i = i + 1;
        }
        proof {
            assert(sc.take(scan@.len() as int) =~= sc);
        }
        BlockTypeMap { state_to_id, id_to_info }
    }

    /// The number of a state: 0 for air and for states not numbered.
    pub fn get_id(&self, state: u16) -> (r: u16)
        ensures
            r == if state != AIR_STATE && self.ids().contains_key(state) { self.ids()[state] } else { 0 },
    {
        if state == AIR_STATE {
            return 0;
        }
        match self.state_to_id.get(&state) {
            Some(id) => *id,
            None => 0,
        }
    }

    /// The textures of the state numbered `id`; none for 0 or an unused number.
    pub fn get_info(&self, id: u16) -> (r: Option<&GreedyBlockInfo>)
        ensures
            match r {
                Some(info) => 1 <= id <= self.infos().len() && info.textures@ == self.infos()[id - 1],
                None => id == 0 || id > self.infos().len(),
            },
    {
        if id == 0 {
            return None;
        }
        let k = (id - 1) as usize;
        if k < self.id_to_info.len() {
            Some(&self.id_to_info[k])
        } else {
            None
        }
    }
}

/// A longer part of a scan numbers at least as many states.
pub proof fn lemma_table_grows(scan: Seq<(u16, Option<FaceTexturesView>)>, i: int)
    requires
        0 <= i <= scan.len(),
    ensures
        type_table(scan.take(i)).1.len() <= type_table(scan).1.len(),
    decreases scan.len(),
{
    if i < scan.len() {
        lemma_table_grows(scan.drop_last(), i);
        assert(scan.drop_last().take(i) =~= scan.take(i));
    } else {
        assert(scan.take(i) =~= scan);
    }
}

/// The numbering of a scan: the states numbered are the non-air states met;
/// a state gets 0 exactly when it was first met with unmergeable faces; the
/// other states get distinct numbers from 1, under which the textures it was
/// first met with are listed.
pub proof fn law_type_table(scan: Seq<(u16, Option<FaceTexturesView>)>)
    requires
        type_table(scan).1.len() < u16::MAX,
    ensures
        table_numbers_first_classes(scan),
    decreases scan.len(),
{
    if scan.len() > 0 {
        let p = scan.drop_last();
        lemma_table_grows(scan, scan.len() - 1);
        assert(scan.take(scan.len() - 1) =~= p);
        law_type_table(p);
        let s0 = scan.last().0;
        let pm = type_table(p).0;
        let pinfos = type_table(p).1;
        let m = type_table(scan).0;
        let infos = type_table(scan).1;
        assert forall|s: u16| s != s0 implies #[trigger] first_class(scan, s) == first_class(p, s) by {}
        assert forall|s: u16| #[trigger] first_class(p, s) is Some implies first_class(scan, s) == first_class(p, s) by {}
        if s0 == AIR_STATE || pm.contains_key(s0) {
            assert(m == pm && infos == pinfos);
        } else {
            assert(first_class(p, s0) is None);
            assert(first_class(scan, s0) == Some(scan.last().1));
            match scan.last().1 {
                Some(t) => {
                    assert(m == pm.insert(s0, (pinfos.len() + 1) as u16));
                    assert(infos == pinfos.push(t));
                    assert forall|s: u16| #[trigger] m.contains_key(s) && m[s] != 0 implies 1 <= m[s] <= infos.len()
                        && infos[m[s] - 1] == first_class(scan, s)->0->0 by {
                        if s != s0 {
                            assert(infos[m[s] - 1] == pinfos[m[s] - 1]);
                        }
                    }
                },
                None => {
                    assert(m == pm.insert(s0, 0u16));
                    assert(infos == pinfos);
                },
            }
        }
    }
}

/// What `law_type_table` states of a scan.
pub open spec fn table_numbers_first_classes(scan: Seq<(u16, Option<FaceTexturesView>)>) -> bool {
    let m = type_table(scan).0;
    let infos = type_table(scan).1;
    &&& forall|s: u16| #[trigger] m.contains_key(s) <==> (s != AIR_STATE && first_class(scan, s) is Some)
    &&& forall|s: u16| #[trigger] m.contains_key(s) ==> (m[s] == 0 <==> first_class(scan, s)->0 is None)
    &&& forall|s: u16| #[trigger] m.contains_key(s) && m[s] != 0 ==> 1 <= m[s] <= infos.len()
        && infos[m[s] - 1] == first_class(scan, s)->0->0
    &&& forall|s: u16, u: u16| #[trigger] m.contains_key(s) && #[trigger] m.contains_key(u) && s != u
        && m[s] != 0 ==> m[s] != m[u]
}


/// Voxels in a section's buffer: 18 along each axis, the section's 16 and a
/// border of one on each side.
pub const PADDED_VOXELS: usize = 5832;

/// What a `binary_greedy_meshing::Mesher::<16>` leaves in its `quads` after
/// `mesh` on a padded voxel buffer with no transparent voxel value: six lists
/// of packed quads, one per face.
pub uninterp spec fn greedy_quads(voxels: Seq<u16>) -> Seq<Seq<u64>>;

/// Calls `binary_greedy_meshing::Mesher::<16>::new` and then `mesh` on the
/// voxels with an empty set of transparent values, and hands back the
/// packed quads of each face: per the crate's source, six lists, which are
/// the named result of the voxels. The crate packs the voxel value above bit
/// 32 of a `usize` (a panic, or wrong values, where `usize` has 32 bits), so
/// the call is only made where `usize` has 64.
#[verifier::external_body]
fn mesh_voxels(voxels: &Vec<u16>) -> (q: Vec<Vec<u64>>)
    requires
        voxels@.len() == PADDED_VOXELS,
        usize::BITS == 64,
    ensures
        q@.len() == 6,
        q@.map_values(|f: Vec<u64>| f@) == greedy_quads(voxels@),
{
    let mut mesher = binary_greedy_meshing::Mesher::<16>::new();
    mesher.mesh(voxels.as_slice(), &std::collections::BTreeSet::new());
    mesher.quads.iter().map(|f| f.iter().map(|q| q.0).collect()).collect()
}

/// The number a state is meshed under: 0 for air and for states not numbered.
pub open spec fn id_of(ids: Map<u16, u16>, state: u16) -> u16 {
    if state != AIR_STATE && ids.contains_key(state) {
        ids[state]
    } else {
        0
    }
}

/// The voxel buffer of a section: each block state's number.
pub open spec fn voxel_ids(ids: Map<u16, u16>, states: Seq<u16>) -> Seq<u16> {
    states.map_values(|s: u16| id_of(ids, s))
}

/// The voxel value a packed quad was merged from.
pub open spec fn quad_voxel(q: u64) -> u16 {
    (q >> 32u64) as u16
}

/// The quads of one face that are drawn, in order, each with the face: those
/// whose voxel value numbers one of the `n` merged textures.
pub open spec fn face_drawn(face: u8, qs: Seq<u64>, n: nat) -> Seq<(u8, u64)>
    decreases qs.len(),
{
    if qs.len() == 0 {
        Seq::empty()
    } else {
        let rest = face_drawn(face, qs.drop_last(), n);
        let id = quad_voxel(qs.last());
        if 1 <= id && id <= n {
            rest.push((face, qs.last()))
        } else {
            rest
        }
    }
}

/// The quads that are drawn, face after face.
pub open spec fn drawn(quads: Seq<Seq<u64>>, n: nat) -> Seq<(u8, u64)>
    decreases quads.len(),
{
    if quads.len() == 0 {
        Seq::empty()
    } else {
        drawn(quads.drop_last(), n) + face_drawn((quads.len() - 1) as u8, quads.last(), n)
    }
}

/// The six indices of the quad whose four vertices start at `b`: two
/// triangles, `b, b+1, b+2` and `b+1, b+3, b+2`.
pub open spec fn quad_pattern(b: int) -> Seq<u32> {
    seq![b as u32, (b + 1) as u32, (b + 2) as u32, (b + 1) as u32, (b + 3) as u32, (b + 2) as u32]
}

/// The indices of `k` quads whose vertices follow each other from `first`.
pub open spec fn quad_indices(first: int, k: nat) -> Seq<u32>
    decreases k,
{
    if k == 0 {
        Seq::empty()
    } else {
        quad_indices(first, (k - 1) as nat) + quad_pattern(first + 4 * (k - 1))
    }
}

impl BlockTypeMap {
    /// The voxel buffer of a section from the block states of its padded
    /// buffer.
    pub fn section_voxels(&self, states: &Vec<u16>) -> (v: Vec<u16>)
        ensures
            v@ == voxel_ids(self.ids(), states@),
    {
        let mut v: Vec<u16> = Vec::new();
        let mut i: usize = 0;
        while i < states.len()
            invariant
                i <= states@.len(),
                v@ == voxel_ids(self.ids(), states@).take(i as int),
            decreases states.len() - i,
        {
            let id = self.get_id(states[i]);
            v.push(id);
            i = i + 1;
            assert(v@ =~= voxel_ids(self.ids(), states@).take(i as int));
        }
        assert(voxel_ids(self.ids(), states@).take(states@.len() as int) =~= voxel_ids(self.ids(), states@));
        v
    }

    /// Greedy-meshes a section from the block states of its padded buffer
    /// (`PADDED_VOXELS` of them): the quads that are drawn, each with its
    /// face, and their indices, the vertices of the section starting at
    /// `first_vertex`. `None` when the indices would not fit in a `u32`.
    pub fn mesh_section(&self, states: &Vec<u16>, first_vertex: u32) -> (r: Option<(Vec<(u8, u64)>, Vec<u32>)>)
        requires
            states@.len() == PADDED_VOXELS,
        ensures
            ({
                let d = drawn(
                    greedy_quads(voxel_ids(self.ids(), states@)),
                    self.infos().len(),
                );
                &&& r is Some <==> usize::BITS == 64 && first_vertex + 4 * d.len() <= u32::MAX
                &&& r matches Some(out) ==> out.0@ == d && out.1@ == quad_indices(first_vertex as int, d.len())
            }),
    {
        if usize::BITS != 64 {
            return None;
        }
        let voxels = self.section_voxels(states);
        let quads = mesh_voxels(&voxels);
        let d = drawn_quads(&quads, self.id_to_info.len());
        if d.len() > ((u32::MAX - first_vertex) / 4) as usize {
            return None;
        }
        let ix = quad_index_list(first_vertex, d.len());
        Some((d, ix))
    }

    /// Greedy-meshes the sections of a chunk column, bottom first, from the
    /// block states of each section's padded buffer: the quads drawn in each
    /// section, and the indices of them all, their vertices following each
    /// other from 0 across the sections. `None` when the indices would not
    /// fit in a `u32`.
    pub fn mesh_sections(&self, sections: &Vec<Vec<u16>>) -> (r: Option<(Vec<Vec<(u8, u64)>>, Vec<u32>)>)
        requires
            forall|i: int| 0 <= i < sections@.len() ==> (#[trigger] sections@[i])@.len() == PADDED_VOXELS,
        ensures
            ({
                let ds = sections_drawn(self.ids(), self.infos().len(), sections@.map_values(|v: Vec<u16>| v@));
                &&& r is Some <==> usize::BITS == 64 && 4 * total_len(ds) <= u32::MAX
                &&& r matches Some(out) ==> out.0@.map_values(|v: Vec<(u8, u64)>| v@) == ds
                    && out.1@ == quad_indices(0, total_len(ds))
            }),
    {
        let ghost sv = sections@.map_values(|v: Vec<u16>| v@);
        let ghost ds = sections_drawn(self.ids(), self.infos().len(), sv);
        if usize::BITS != 64 {
            return None;
        }
        let mut quads: Vec<Vec<(u8, u64)>> = Vec::new();
        let mut indices: Vec<u32> = Vec::new();
        let mut first: u32 = 0;
        let mut i: usize = 0;
        while i < sections.len()
            invariant
                usize::BITS == 64,
                sv == sections@.map_values(|v: Vec<u16>| v@),
                ds == sections_drawn(self.ids(), self.infos().len(), sv),
                forall|j: int| 0 <= j < sections@.len() ==> (#[trigger] sections@[j])@.len() == PADDED_VOXELS,
                i <= sections@.len(),
                first == 4 * total_len(ds.take(i as int)),
                quads@.map_values(|v: Vec<(u8, u64)>| v@) == ds.take(i as int),
                indices@ == quad_indices(0, total_len(ds.take(i as int))),
            decreases sections.len() - i,
        {
            proof {
                assert(ds.take(i + 1).drop_last() =~= ds.take(i as int));
                assert(ds[i as int] == drawn(greedy_quads(voxel_ids(self.ids(), sections@[i as int]@)), self.infos().len()));
                lemma_total_len_prefix(ds, i + 1);
                lemma_total_len_prefix(ds, ds.len() as int);
                assert(ds.take(ds.len() as int) =~= ds);
            }
            match self.mesh_section(&sections[i], first) {
                None => {
                    return None;
                },
                Some((d, ix)) => {
                    let ghost before = indices@;
                    let ghost t = total_len(ds.take(i as int));
                    let ghost k = d@.len();
                    let mut j: usize = 0;
                    while j < ix.len()
                        invariant
                            j <= ix@.len(),
                            indices@ == before + ix@.take(j as int),
                        decreases ix.len() - j,
                    {
                        indices.push(ix[j]);
                        j = j + 1;
                        assert(indices@ =~= before + ix@.take(j as int));
                    }
                    proof {
                        assert(ix@.take(ix@.len() as int) =~= ix@);
                        lemma_quad_indices_append(0, t, k);
                        assert(ds.take(i + 1).last() == ds[i as int]);
                    }
                    first = first + 4 * (d.len() as u32);
                    let ghost q0 = quads@.map_values(|v: Vec<(u8, u64)>| v@);
                    quads.push(d);
                    assert(quads@.map_values(|v: Vec<(u8, u64)>| v@) =~= q0.push(ds[i as int]));
                    assert(ds.take(i + 1) =~= ds.take(i as int).push(ds[i as int]));
                },
            }
            i = i + 1;
        }
        assert(ds.take(sections@.len() as int) =~= ds);
        Some((quads, indices))
    }
}

/// The quads drawn in each section of a column, from the block states of
/// each section's padded buffer.
pub open spec fn sections_drawn(ids: Map<u16, u16>, n: nat, sections: Seq<Seq<u16>>) -> Seq<Seq<(u8, u64)>> {
    sections.map_values(|st: Seq<u16>| drawn(greedy_quads(voxel_ids(ids, st)), n))
}

/// How many quads there are in all the lists together.
pub open spec fn total_len(v: Seq<Seq<(u8, u64)>>) -> nat
    decreases v.len(),
{
    if v.len() == 0 {
        0
    } else {
        total_len(v.drop_last()) + v.last().len()
    }
}

/// The quads of a first part of the lists are no more than all of them.
proof fn lemma_total_len_prefix(v: Seq<Seq<(u8, u64)>>, i: int)
    requires
        0 <= i <= v.len(),
    ensures
        total_len(v.take(i)) <= total_len(v),
    decreases v.len(),
{
    if i < v.len() {
        lemma_total_len_prefix(v.drop_last(), i);
        assert(v.drop_last().take(i) =~= v.take(i));
    } else {
        assert(v.take(i) =~= v);
    }
}

/// The indices of `a` quads and then of `b` more, their vertices following
/// on, are those of the `a + b` quads.
proof fn lemma_quad_indices_append(first: int, a: nat, b: nat)
    ensures
        quad_indices(first, a) + quad_indices(first + 4 * a, b) == quad_indices(first, a + b),
    decreases b,
{
    if b == 0 {
        assert(quad_indices(first, a) + quad_indices(first + 4 * a, 0) =~= quad_indices(first, a));
    } else {
        lemma_quad_indices_append(first, a, (b - 1) as nat);
        assert(first + 4 * a + 4 * (b - 1) == first + 4 * ((a + b) - 1));
        assert((quad_indices(first, a) + quad_indices(first + 4 * a, (b - 1) as nat)) + quad_pattern(
            first + 4 * a + 4 * (b - 1),
        ) =~= quad_indices(first, a) + (quad_indices(first + 4 * a, (b - 1) as nat) + quad_pattern(
            first + 4 * a + 4 * (b - 1),
        )));
    }
}

/// The quads that are drawn, face after face, each with its face: those
/// whose voxel value numbers one of the `n` merged textures.
pub fn drawn_quads(quads: &Vec<Vec<u64>>, n: usize) -> (d: Vec<(u8, u64)>)
    requires
        quads@.len() <= 6,
    ensures
        d@ == drawn(quads@.map_values(|f: Vec<u64>| f@), n as nat),
{
    let ghost qv = quads@.map_values(|f: Vec<u64>| f@);
    let mut d: Vec<(u8, u64)> = Vec::new();
    let mut f: usize = 0;
    while f < quads.len()
        invariant
            quads@.len() <= 6,
            qv == quads@.map_values(|f: Vec<u64>| f@),
            f <= quads@.len(),
            d@ == drawn(qv.take(f as int), n as nat),
        decreases quads.len() - f,
    {
        let face = f as u8;
        let qs = &quads[f];
        let ghost before = d@;
        let mut j: usize = 0;
        while j < qs.len()
            invariant
                *qs == quads@[f as int],
                face == f,
                j <= qs@.len(),
                d@ == before + face_drawn(face, qs@.take(j as int), n as nat),
            decreases qs.len() - j,
        {
            let q = qs[j];
            let id = (q >> 32u64) as u16;
            proof {
                assert(qs@.take(j + 1).drop_last() =~= qs@.take(j as int));
                assert(qs@.take(j + 1).last() == q);
            }
            if 1 <= id && (id as usize) <= n {
                d.push((face, q));
            }
            j = j + 1;
            assert(d@ =~= before + face_drawn(face, qs@.take(j as int), n as nat));
        }
        proof {
            assert(qs@.take(qs@.len() as int) =~= qs@);
            assert(qv.take(f + 1).drop_last() =~= qv.take(f as int));
            assert(qv.take(f + 1).last() == qs@);
        }
        f = f + 1;
    }
    assert(qv.take(quads@.len() as int) =~= qv);
    d
}

/// The indices of `k` quads whose vertices follow each other from `first`.
pub fn quad_index_list(first: u32, k: usize) -> (ix: Vec<u32>)
    requires
        first + 4 * k <= u32::MAX,
    ensures
        ix@ == quad_indices(first as int, k as nat),
{
    let mut ix: Vec<u32> = Vec::new();
    let mut i: usize = 0;
    while i < k
        invariant
            first + 4 * k <= u32::MAX,
            i <= k,
            ix@ == quad_indices(first as int, i as nat),
        decreases k - i,
    {
        let b = first + 4 * (i as u32);
        ix.push(b);
        ix.push(b + 1);
        ix.push(b + 2);
        ix.push(b + 1);
        ix.push(b + 3);
        ix.push(b + 2);
        i = i + 1;
        assert(ix@ =~= quad_indices(first as int, i as nat));
    }
    ix
}

/// What one face keeps: exactly its quads whose voxel value numbers a merged
/// texture, each under that face.
proof fn lemma_face_drawn(face: u8, qs: Seq<u64>, n: nat, e: (u8, u64))
    ensures
        face_drawn(face, qs, n).contains(e) <==> (e.0 == face && qs.contains(e.1) && 1 <= quad_voxel(e.1)
            && quad_voxel(e.1) <= n),
    decreases qs.len(),
{
    if qs.len() > 0 {
        let p = qs.drop_last();
        lemma_face_drawn(face, p, n, e);
        let rest = face_drawn(face, p, n);
        if qs.contains(e.1) && !p.contains(e.1) {
            let k = choose|k: int| 0 <= k < qs.len() && qs[k] == e.1;
            if k < p.len() {
                assert(p[k] == e.1);
            }
        }
        if p.contains(e.1) {
            let k = choose|k: int| 0 <= k < p.len() && p[k] == e.1;
            assert(qs[k] == e.1);
        }
        let id = quad_voxel(qs.last());
        if 1 <= id && id <= n {
            if face_drawn(face, qs, n).contains(e) && !rest.contains(e) {
                let k = choose|k: int| 0 <= k < rest.push((face, qs.last())).len() && rest.push((face, qs.last()))[k] == e;
                assert(e == (face, qs.last()));
                assert(qs[qs.len() - 1] == e.1);
            }
            if rest.contains(e) {
                let k = choose|k: int| 0 <= k < rest.len() && rest[k] == e;
                assert(rest.push((face, qs.last()))[k] == e);
            }
            if e == (face, qs.last()) {
                assert(rest.push((face, qs.last()))[rest.len() as int] == e);
            }
        } else {
            if qs.contains(e.1) && !p.contains(e.1) {
                let k = choose|k: int| 0 <= k < qs.len() && qs[k] == e.1;
                assert(k == qs.len() - 1);
            }
        }
    }
}

/// The greedy mesher draws exactly the quads whose voxel value numbers one
/// of the `n` merged textures, each with the face it belongs to: every quad
/// drawn comes from that face's list and names a merged texture, and every
/// such quad is drawn.
pub proof fn law_drawn_quads(quads: Seq<Seq<u64>>, n: nat, f: int, q: u64)
    requires
        quads.len() <= 256,
    ensures
        drawn(quads, n).contains((f as u8, q)) && 0 <= f < quads.len() <==> (0 <= f < quads.len()
            && quads[f].contains(q) && 1 <= quad_voxel(q) && quad_voxel(q) <= n),
        forall|e: (u8, u64)| #[trigger] drawn(quads, n).contains(e) ==> e.0 < quads.len() && quads[e.0 as int].contains(
            e.1,
        ) && 1 <= quad_voxel(e.1) && quad_voxel(e.1) <= n,
    decreases quads.len(),
{
    if quads.len() > 0 {
        let p = quads.drop_last();
        law_drawn_quads(p, n, f, q);
        let last = (quads.len() - 1) as u8;
        let a = drawn(p, n);
        let b = face_drawn(last, quads.last(), n);
        assert(drawn(quads, n) == a + b);
        assert forall|e: (u8, u64)| #[trigger] (a + b).contains(e) <==> a.contains(e) || b.contains(e) by {
            if (a + b).contains(e) {
                let k = choose|k: int| 0 <= k < (a + b).len() && (a + b)[k] == e;
                if k < a.len() {
                    assert(a[k] == e);
                } else {
                    assert(b[k - a.len()] == e);
                }
            }
            if a.contains(e) {
                let k = choose|k: int| 0 <= k < a.len() && a[k] == e;
                assert((a + b)[k] == e);
            }
            if b.contains(e) {
                let k = choose|k: int| 0 <= k < b.len() && b[k] == e;
                assert((a + b)[a.len() + k] == e);
            }
        }
        lemma_face_drawn(last, quads.last(), n, (f as u8, q));
        assert forall|e: (u8, u64)| #[trigger] drawn(quads, n).contains(e) implies e.0 < quads.len()
            && quads[e.0 as int].contains(e.1) && 1 <= quad_voxel(e.1) && quad_voxel(e.1) <= n by {
            lemma_face_drawn(last, quads.last(), n, e);
            if a.contains(e) {
                assert(p[e.0 as int] == quads[e.0 as int]);
            }
        }
        if 0 <= f < p.len() {
            assert(p[f] == quads[f]);
            assert((f as u8) != last);
        }
    }
}

/// Every index of the quads of a section names one of their vertices: the
/// `k` quads from `first` use the vertices `first` to `first + 4k - 1`, six
/// indices each.
pub proof fn law_quad_indices_in_range(first: int, k: nat)
    requires
        0 <= first,
        first + 4 * k <= u32::MAX,
    ensures
        quad_indices(first, k).len() == 6 * k,
        forall|i: int| 0 <= i < 6 * k ==> first <= #[trigger] quad_indices(first, k)[i] < first + 4 * k,
    decreases k,
{
    if k > 0 {
        law_quad_indices_in_range(first, (k - 1) as nat);
        let p = quad_indices(first, (k - 1) as nat);
        let q = quad_pattern(first + 4 * (k - 1));
        assert forall|i: int| 0 <= i < 6 * k implies first <= #[trigger] quad_indices(first, k)[i] < first + 4 * k by {
            if i < 6 * (k - 1) {
                assert(quad_indices(first, k)[i] == p[i]);
            } else {
                assert(quad_indices(first, k)[i] == q[i - 6 * (k - 1)]);
            }
        }
    }
}

} // verus!
