//! Sky and block light of loaded chunks, stored as 4-bit values per block.
use std::collections::HashMap;
use vstd::prelude::*;

verus! {

broadcast use vstd::std_specs::hash::group_hash_axioms;

/// Bytes of light data per 16x16x16 chunk section: two 4-bit values a byte.
pub const SECTION_LIGHT_BYTES: usize = 2048;

/// The light level reported where no sky light data is known.
pub const DEFAULT_SKY_LIGHT: u8 = 15;

/// The light level reported where no block light data is known for a column.
pub const DEFAULT_BLOCK_LIGHT: u8 = 0;

/// A chunk could not be read.
pub enum ChunkError {
    /// The chunk data did not parse; the parser's message.
    Parse(String),
}

/// The light data of one chunk column, one optional array per section,
/// starting one section below `min_y`.
pub struct ChunkLightData {
    pub sky_sections: Vec<Option<Box<[u8; 2048]>>>,
    pub block_sections: Vec<Option<Box<[u8; 2048]>>>,
    pub min_y: i32,
}

/// Integer division rounding toward zero, as Rust's `/` does.
pub open spec fn trunc_div(a: int, b: int) -> int {
    if a >= 0 {
        a / b
    } else {
        -((-a) / b)
    }
}

/// The position of a block's light value inside its section.
pub open spec fn light_index(x: int, y: int, z: int) -> int {
    (y % 16) * 256 + (z % 16) * 16 + (x % 16)
}

/// The 4-bit value at an index of packed light data: low half of the byte
/// for even indices, high half for odd ones.
pub open spec fn nibble_at(data: Seq<u8>, idx: int) -> u8 {
    if idx % 2 == 0 {
        data[idx / 2] & 0x0F
    } else {
        (data[idx / 2] >> 4u8) & 0x0F
    }
}

/// The contents of a section array, if present.
pub open spec fn section_view(s: Option<Box<[u8; 2048]>>) -> Option<Seq<u8>> {
    match s {
        Some(b) => Some(b@),
        None => None,
    }
}

/// The light at a block of a column: the value stored in the block's section,
/// or 15 when the section is outside the data or has none.
pub open spec fn light_at(sections: Seq<Option<Seq<u8>>>, min_y: int, x: int, y: int, z: int) -> u8 {
    let q = trunc_div(y - min_y + 16, 16);
    if q < 0 || q >= sections.len() {
        15
    } else {
        match sections[q] {
            None => 15,
            Some(d) => nibble_at(d, light_index(x, y, z)),
        }
    }
}

/// The contents of a list of sections.
pub open spec fn sections_view(v: Seq<Option<Box<[u8; 2048]>>>) -> Seq<Option<Seq<u8>>> {
    v.map_values(|s: Option<Box<[u8; 2048]>>| section_view(s))
}

/// `a` modulo 16, from 0 to 15, as `i32::rem_euclid(16)` computes it.
pub fn rem16(a: i32) -> (r: i32)
    ensures
        r == a as int % 16,
        0 <= r < 16,
{
    let r = a % 16;
    if r < 0 {
        r + 16
    } else {
        r
    }
}

/// `a` divided by 16 rounding down, as `i32::div_euclid(16)` computes it.
pub fn div16(a: i32) -> (r: i32)
    ensures
        r == a as int / 16,
{
    let q = a / 16;
    if a % 16 < 0 {
        q - 1
    } else {
        q
    }
}

impl ChunkLightData {
    /// The light of a block from one of the column's section lists; 15 where
    /// no data is known.
    fn get_nibble(&self, sections: &Vec<Option<Box<[u8; 2048]>>>, x: i32, y: i32, z: i32) -> (r: u8)
        requires
            i32::MIN <= y - self.min_y && y - self.min_y + 16 <= i32::MAX,
        ensures
            r == light_at(sections_view(sections@), self.min_y as int, x as int, y as int, z as int),
    {
        let t = y - self.min_y + 16;
        let q = t / 16;
        assert(q as int == trunc_div(t as int, 16));
        if q < 0 {
            return 15;
        }
        let section_idx = q as usize;
        if section_idx >= sections.len() {
            return 15;
        }
        assert(sections_view(sections@)[section_idx as int] == section_view(sections@[section_idx as int]));
        match &sections[section_idx] {
            None => 15,
            Some(data) => {
                let lx = rem16(x) as usize;
                let ly = rem16(y) as usize;
                let lz = rem16(z) as usize;
                let idx = ly * 256 + lz * 16 + lx;
                let byte = data[idx / 2];
                if idx % 2 == 0 {
                    byte & 0x0F
                } else {
                    (byte >> 4u8) & 0x0F
                }
            },
        }
    }

    /// The sky light of a block of this column.
    pub fn get_sky_light(&self, x: i32, y: i32, z: i32) -> (r: u8)
        requires
            i32::MIN <= y - self.min_y && y - self.min_y + 16 <= i32::MAX,
        ensures
            r == light_at(sections_view(self.sky_sections@), self.min_y as int, x as int, y as int, z as int),
    {
        self.get_nibble(&self.sky_sections, x, y, z)
    }

    /// The block light of a block of this column.
    pub fn get_block_light(&self, x: i32, y: i32, z: i32) -> (r: u8)
        requires
            i32::MIN <= y - self.min_y && y - self.min_y + 16 <= i32::MAX,
        ensures
            r == light_at(sections_view(self.block_sections@), self.min_y as int, x as int, y as int, z as int),
    {
        self.get_nibble(&self.block_sections, x, y, z)
    }
}

/// How many set bits of `mask` come before position `i`.
pub open spec fn set_before(mask: Seq<bool>, i: int) -> nat
    decreases i,
{
    if i <= 0 || mask.len() == 0 {
        0
    } else {
        let j = i - 1;
        set_before(mask, j) + if j < mask.len() && mask[j] { 1nat } else { 0nat }
    }
}

/// The light data of section `i` after an update: the section's bit in
/// `mask` must be set, and the updates list one array per set bit, in order;
/// an array of the wrong size leaves the section without data.
pub open spec fn updated_section(updates: Seq<Seq<u8>>, mask: Seq<bool>, i: int) -> Option<Seq<u8>> {
    if i < mask.len() && mask[i] {
        let k = set_before(mask, i);
        if k < updates.len() && updates[k as int].len() == SECTION_LIGHT_BYTES {
            Some(updates[k as int])
        } else {
            None
        }
    } else {
        None
    }
}

/// The contents of a list of byte vectors.
pub open spec fn byte_views(v: Seq<Vec<u8>>) -> Seq<Seq<u8>> {
    v.map_values(|b: Vec<u8>| b@)
}

fn copy_section(src: &Vec<u8>) -> (b: Box<[u8; 2048]>)
    requires
        src@.len() == SECTION_LIGHT_BYTES,
    ensures
        b@ == src@,
{
    let mut a: [u8; 2048] = [0u8; 2048];
    let mut k: usize = 0;
    while k < SECTION_LIGHT_BYTES
        invariant
            k <= SECTION_LIGHT_BYTES,
            src@.len() == SECTION_LIGHT_BYTES,
            forall|j: int| 0 <= j < k ==> a@[j] == src@[j],
        decreases SECTION_LIGHT_BYTES - k,
    {
        a[k] = src[k];
        k = k + 1;
    }
    assert(a@ =~= src@);
    Box::new(a)
}

/// The sections of a column after a light update covering `num_sections` sections.
pub fn build_sections(num_sections: usize, updates: &Vec<Vec<u8>>, mask: &Vec<bool>) -> (r: Vec<Option<Box<[u8; 2048]>>>)
    ensures
        r@.len() == num_sections,
        forall|i: int| 0 <= i < num_sections ==> section_view(#[trigger] r@[i]) == updated_section(byte_views(updates@), mask@, i),
{
    let mut sections: Vec<Option<Box<[u8; 2048]>>> = Vec::new();
    let mut idx: usize = 0;
    let mut i: usize = 0;
    while i < num_sections
        invariant
            i <= num_sections,
            sections@.len() == i,
            idx as nat == set_before(mask@, i as int),
            idx <= i,
            forall|j: int| 0 <= j < i ==> section_view(#[trigger] sections@[j]) == updated_section(byte_views(updates@), mask@, j),
        decreases num_sections - i,
    {
        let mut section: Option<Box<[u8; 2048]>> = None;
        if i < mask.len() && mask[i] {
            if idx < updates.len() && updates[idx].len() == SECTION_LIGHT_BYTES {
                section = Some(copy_section(&updates[idx]));
            }
            idx = idx + 1;
        }
        assert(byte_views(updates@).len() == updates@.len());
        proof {
            if idx < updates.len() {
                assert(byte_views(updates@)[idx as int] == updates@[idx as int]@);
            }
        }
        sections.push(section);
        i = i + 1;
    }
    sections
}

/// The key a chunk column is stored under; distinct columns get distinct keys.
pub open spec fn column_key_of(cx: int, cz: int) -> int {
    cx * 0x1_0000_0000 + (cz + 0x8000_0000)
}

/// The key a chunk column is stored under.
pub fn column_key(cx: i32, cz: i32) -> (k: i64)
    ensures
        k == column_key_of(cx as int, cz as int),
{
    assert(-0x8000_0000 <= cx <= 0x7fff_ffff);
    assert(-0x8000_0000_0000_0000 <= cx * 0x1_0000_0000 <= 0x7fff_ffff_0000_0000) by (nonlinear_arith)
        requires -0x8000_0000 <= cx <= 0x7fff_ffff;
    (cx as i64) * 0x1_0000_0000i64 + (cz as i64 + 0x8000_0000i64)
}

/// Distinct chunk columns are stored under distinct keys.
pub proof fn law_column_key_injective(ax: i32, az: i32, bx: i32, bz: i32)
    ensures
        column_key_of(ax as int, az as int) == column_key_of(bx as int, bz as int) ==> ax == bx && az == bz,
{
    if column_key_of(ax as int, az as int) == column_key_of(bx as int, bz as int) {
        let d = ax as int - bx as int;
        assert(d * 0x1_0000_0000 == bz as int - az as int);
        if d > 0 {
            assert(d * 0x1_0000_0000 >= 0x1_0000_0000) by (nonlinear_arith) requires d > 0;
        } else if d < 0 {
            assert(d * 0x1_0000_0000 <= -0x1_0000_0000) by (nonlinear_arith) requires d < 0;
        }
    }
}

/// The column holds the sections of a light update covering `height` blocks
/// from `min_y`: one section per 16 blocks plus one below and one above.
pub open spec fn column_stored(
    c: ChunkLightData,
    sky_updates: Seq<Seq<u8>>,
    block_updates: Seq<Seq<u8>>,
    sky_mask: Seq<bool>,
    block_mask: Seq<bool>,
    height: u32,
    min_y: i32,
) -> bool {
    &&& c.min_y == min_y
    &&& c.sky_sections@.len() == height / 16 + 2
    &&& c.block_sections@.len() == height / 16 + 2
    &&& forall|i: int| 0 <= i < height / 16 + 2 ==> section_view(#[trigger] c.sky_sections@[i])
        == updated_section(sky_updates, sky_mask, i)
    &&& forall|i: int| 0 <= i < height / 16 + 2 ==> section_view(#[trigger] c.block_sections@[i])
        == updated_section(block_updates, block_mask, i)
}

/// The light that a light update gives a block: the nibble of the update's
/// array for the block's section, or 15 where the update has none.
pub open spec fn updated_light(
    updates: Seq<Seq<u8>>,
    mask: Seq<bool>,
    height: u32,
    min_y: i32,
    x: int,
    y: int,
    z: int,
) -> u8 {
    let q = trunc_div(y - min_y + 16, 16);
    if 0 <= q < height / 16 + 2 {
        match updated_section(updates, mask, q) {
            Some(d) => nibble_at(d, light_index(x, y, z)),
            None => 15,
        }
    } else {
        15
    }
}

/// No light level exceeds 15.
pub proof fn law_light_at_most_15(sections: Seq<Option<Seq<u8>>>, min_y: int, x: int, y: int, z: int)
    ensures
        light_at(sections, min_y, x, y, z) <= 15,
{
    let q = trunc_div(y - min_y + 16, 16);
    if 0 <= q < sections.len() {
        if let Some(d) = sections[q] {
            let idx = light_index(x, y, z);
            let b = d[idx / 2];
            assert(b & 0x0F <= 15) by (bit_vector);
            assert((b >> 4u8) & 0x0F <= 15) by (bit_vector);
        }
    }
}

/// Reading a column after a light update gives back, for every block, the
/// light that the update holds for it, sky and block light alike.
pub proof fn law_read_after_store(
    c: ChunkLightData,
    sky_updates: Seq<Seq<u8>>,
    block_updates: Seq<Seq<u8>>,
    sky_mask: Seq<bool>,
    block_mask: Seq<bool>,
    height: u32,
    min_y: i32,
    x: int,
    y: int,
    z: int,
)
    requires
        column_stored(c, sky_updates, block_updates, sky_mask, block_mask, height, min_y),
    ensures
        light_at(sections_view(c.sky_sections@), c.min_y as int, x, y, z)
            == updated_light(sky_updates, sky_mask, height, min_y, x, y, z),
        light_at(sections_view(c.block_sections@), c.min_y as int, x, y, z)
            == updated_light(block_updates, block_mask, height, min_y, x, y, z),
{
    let q = trunc_div(y - min_y + 16, 16);
    if 0 <= q < height / 16 + 2 {
        assert(sections_view(c.sky_sections@)[q] == section_view(c.sky_sections@[q]));
        assert(sections_view(c.block_sections@)[q] == section_view(c.block_sections@[q]));
    }
}

/// The light data of the loaded chunk columns.
pub struct LightStore {
    light_data: HashMap<i64, ChunkLightData>,
}

impl LightStore {
    /// The stored columns, by key.
    pub closed spec fn columns(&self) -> Map<i64, ChunkLightData> {
        self.light_data@
    }

    /// No column stored.
    pub fn new() -> (s: Self)
        ensures
            s.columns() == Map::<i64, ChunkLightData>::empty(),
    {
        LightStore { light_data: HashMap::new() }
    }

    /// Stores the light of the column at `(cx, cz)` from a light update,
    /// replacing what was stored: one section per 16 blocks of `height` plus
    /// one below and one above, starting at `min_y`.
    pub fn store_light(
        &mut self,
        cx: i32,
        cz: i32,
        sky_updates: &Vec<Vec<u8>>,
        block_updates: &Vec<Vec<u8>>,
        sky_mask: &Vec<bool>,
        block_mask: &Vec<bool>,
        height: u32,
        min_y: i32,
    )
        ensures
            ({
                let key = column_key_of(cx as int, cz as int) as i64;
                &&& final(self).columns().dom() == old(self).columns().dom().insert(key)
                &&& forall|k: i64| k != key && #[trigger] old(self).columns().contains_key(k)
                    ==> final(self).columns()[k] == old(self).columns()[k]
                &&& column_stored(final(self).columns()[key], byte_views(sky_updates@), byte_views(block_updates@),
                        sky_mask@, block_mask@, height, min_y)
            }),
    {
        let num_sections = (height / 16 + 2) as usize;
        let sky_sections = build_sections(num_sections, sky_updates, sky_mask);
        let block_sections = build_sections(num_sections, block_updates, block_mask);
        let key = column_key(cx, cz);
        self.light_data.insert(key, ChunkLightData { sky_sections, block_sections, min_y });
    }

    /// Forgets the light of the column at `(cx, cz)`.
    pub fn unload(&mut self, cx: i32, cz: i32)
        ensures
            final(self).columns() == old(self).columns().remove(column_key_of(cx as int, cz as int) as i64),
    {
        let key = column_key(cx, cz);
        self.light_data.remove(&key);
    }

    /// The light data stored for the column holding block `(x, z)`.
    pub fn column_at(&self, x: i32, z: i32) -> (r: Option<&ChunkLightData>)
        ensures
            ({
                let key = column_key_of(x as int / 16, z as int / 16) as i64;
                &&& self.columns().contains_key(key) ==> r == Some(&self.columns()[key])
                &&& !self.columns().contains_key(key) ==> r is None
            }),
    {
        let key = column_key(div16(x), div16(z));
        self.light_data.get(&key)
    }

    /// The sky light of a block: 15 where its column has no data.
    pub fn get_sky_light(&self, x: i32, y: i32, z: i32) -> (r: u8)
        requires
            ({
                let key = column_key_of(x as int / 16, z as int / 16) as i64;
                self.columns().contains_key(key) ==> i32::MIN <= y - self.columns()[key].min_y
                    && y - self.columns()[key].min_y + 16 <= i32::MAX
            }),
        ensures
            ({
                let key = column_key_of(x as int / 16, z as int / 16) as i64;
                let c = self.columns()[key];
                &&& self.columns().contains_key(key) ==> r == light_at(sections_view(c.sky_sections@), c.min_y as int, x as int % 16, y as int, z as int % 16)
                &&& !self.columns().contains_key(key) ==> r == DEFAULT_SKY_LIGHT
            }),
    {
        match self.column_at(x, z) {
            Some(light) => light.get_sky_light(rem16(x), y, rem16(z)),
            None => DEFAULT_SKY_LIGHT,
        }
    }

    /// The block light of a block: 0 where its column has no data.
    pub fn get_block_light(&self, x: i32, y: i32, z: i32) -> (r: u8)
        requires
            ({
                let key = column_key_of(x as int / 16, z as int / 16) as i64;
                self.columns().contains_key(key) ==> i32::MIN <= y - self.columns()[key].min_y
                    && y - self.columns()[key].min_y + 16 <= i32::MAX
            }),
        ensures
            ({
                let key = column_key_of(x as int / 16, z as int / 16) as i64;
                let c = self.columns()[key];
                &&& self.columns().contains_key(key) ==> r == light_at(sections_view(c.block_sections@), c.min_y as int, x as int % 16, y as int, z as int % 16)
                &&& !self.columns().contains_key(key) ==> r == DEFAULT_BLOCK_LIGHT
            }),
    {
        match self.column_at(x, z) {
            Some(light) => light.get_block_light(rem16(x), y, rem16(z)),
            None => DEFAULT_BLOCK_LIGHT,
        }
    }
}

} // verus!
