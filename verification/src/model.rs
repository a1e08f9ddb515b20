//! Block models: face directions and their rotations, model references in
//! blockstate files, texture references, and the choice of a block's face
//! textures from its model's texture variables.
use vstd::prelude::*;

use crate::search::{first_where, lemma_first_where, lemma_first_where_is};
use crate::text::{ends_with_text, same_text, strip_prefix_text, after_prefix};

verus! {

pub use vstd::hash_map::StringHashMap;
use vstd::string::StringExecFns;

/// A face direction of a block.
#[derive(PartialEq, Eq, Structural, Clone, Copy, Debug, Hash)]
pub enum Direction {
    Down,
    Up,
    North,
    South,
    West,
    East,
}

/// The unit step towards a direction.
pub open spec fn offset_of(d: Direction) -> (int, int, int) {
    match d {
        Direction::Down => (0, -1, 0),
        Direction::Up => (0, 1, 0),
        Direction::North => (0, 0, -1),
        Direction::South => (0, 0, 1),
        Direction::West => (-1, 0, 0),
        Direction::East => (1, 0, 0),
    }
}

/// The direction a model file names, if any.
pub open spec fn direction_named(s: Seq<char>) -> Option<Direction> {
    if s == "down"@ {
        Some(Direction::Down)
    } else if s == "up"@ {
        Some(Direction::Up)
    } else if s == "north"@ {
        Some(Direction::North)
    } else if s == "south"@ {
        Some(Direction::South)
    } else if s == "west"@ {
        Some(Direction::West)
    } else if s == "east"@ {
        Some(Direction::East)
    } else {
        None
    }
}

/// A quarter turn about the vertical axis: north to east to south to west.
pub open spec fn quarter_y(d: Direction) -> Direction {
    match d {
        Direction::North => Direction::East,
        Direction::East => Direction::South,
        Direction::South => Direction::West,
        Direction::West => Direction::North,
        other => other,
    }
}

/// A quarter turn about the east-west axis: north to down to south to up.
pub open spec fn quarter_x(d: Direction) -> Direction {
    match d {
        Direction::North => Direction::Down,
        Direction::Down => Direction::South,
        Direction::South => Direction::Up,
        Direction::Up => Direction::North,
        other => other,
    }
}

/// `n` quarter turns about the vertical axis.
pub open spec fn turns_y(d: Direction, n: nat) -> Direction
    decreases n,
{
    if n == 0 {
        d
    } else {
        quarter_y(turns_y(d, (n - 1) as nat))
    }
}

/// `n` quarter turns about the east-west axis.
pub open spec fn turns_x(d: Direction, n: nat) -> Direction
    decreases n,
{
    if n == 0 {
        d
    } else {
        quarter_x(turns_x(d, (n - 1) as nat))
    }
}

/// The whole quarter turns in a rotation by `degrees`, counted in `0..4`.
pub open spec fn quarter_steps(degrees: int) -> nat {
    ((degrees % 360) / 90) as nat
}

fn quarter_steps_of(degrees: i32) -> (n: i32)
    ensures
        n == quarter_steps(degrees as int),
        0 <= n < 4,
{
    let r = degrees % 360;
    let r = if r < 0 {
        r + 360
    } else {
        r
    };
    r / 90
}

impl Direction {
    /// The unit step towards this direction.
    pub fn offset(&self) -> (o: [i32; 3])
        ensures
            (o[0] as int, o[1] as int, o[2] as int) == offset_of(*self),
    {
        match self {
            Direction::Down => [0, -1, 0],
            Direction::Up => [0, 1, 0],
            Direction::North => [0, 0, -1],
            Direction::South => [0, 0, 1],
            Direction::West => [-1, 0, 0],
            Direction::East => [1, 0, 0],
        }
    }

    /// The direction a model file names: `down`, `up`, `north`, `south`, `west` or `east`.
    pub fn from_str(s: &str) -> (r: Option<Direction>)
        ensures
            r == direction_named(s@),
    {
        if same_text(s, "down") {
            Some(Direction::Down)
        } else if same_text(s, "up") {
            Some(Direction::Up)
        } else if same_text(s, "north") {
            Some(Direction::North)
        } else if same_text(s, "south") {
            Some(Direction::South)
        } else if same_text(s, "west") {
            Some(Direction::West)
        } else if same_text(s, "east") {
            Some(Direction::East)
        } else {
            None
        }
    }

    /// This direction turned about the vertical axis by the whole quarter
    /// turns in `degrees`.
    pub fn rotate_y(self, degrees: i32) -> (r: Direction)
        ensures
            r == turns_y(self, quarter_steps(degrees as int)),
    {
        let steps = quarter_steps_of(degrees);
        let mut d = self;
        let mut i: i32 = 0;
        while i < steps
            invariant
                0 <= i <= steps,
                d == turns_y(self, i as nat),
            decreases steps - i,
        {
            d = match d {
                Direction::North => Direction::East,
                Direction::East => Direction::South,
                Direction::South => Direction::West,
                Direction::West => Direction::North,
                other => other,
            };
            i = i + 1;
        }
        d
    }

    /// This direction turned about the east-west axis by the whole quarter
    /// turns in `degrees`.
    pub fn rotate_x(self, degrees: i32) -> (r: Direction)
        ensures
            r == turns_x(self, quarter_steps(degrees as int)),
    {
        let steps = quarter_steps_of(degrees);
        let mut d = self;
        let mut i: i32 = 0;
        while i < steps
            invariant
                0 <= i <= steps,
                d == turns_x(self, i as nat),
            decreases steps - i,
        {
            d = match d {
                Direction::North => Direction::Down,
                Direction::Down => Direction::South,
                Direction::South => Direction::Up,
                Direction::Up => Direction::North,
                other => other,
            };
            i = i + 1;
        }
        d
    }
}

/// Four quarter turns about either axis bring every direction back.
pub proof fn law_four_quarter_turns(d: Direction)
    ensures
        turns_y(d, 4) == d,
        turns_x(d, 4) == d,
{
    reveal_with_fuel(turns_y, 5);
    reveal_with_fuel(turns_x, 5);
}

proof fn lemma_turns_y_add(d: Direction, a: nat, b: nat)
    ensures
        turns_y(turns_y(d, a), b) == turns_y(d, a + b),
    decreases b,
{
    if b > 0 {
        lemma_turns_y_add(d, a, (b - 1) as nat);
    }
}

proof fn lemma_turns_y_mod(d: Direction, n: nat)
    ensures
        turns_y(d, n) == turns_y(d, n % 4),
    decreases n,
{
    if n >= 4 {
        lemma_turns_y_mod(d, (n - 4) as nat);
        lemma_turns_y_add(d, 4, (n - 4) as nat);
        law_four_quarter_turns(d);
        assert((n - 4) as nat % 4 == n % 4);
    }
}

/// Turning about the vertical axis never changes up or down, and a rotation
/// by a whole number of turns changes nothing.
pub proof fn law_rotate_y_fixes(d: Direction, degrees: int)
    ensures
        turns_y(Direction::Up, quarter_steps(degrees)) == Direction::Up,
        turns_y(Direction::Down, quarter_steps(degrees)) == Direction::Down,
        degrees % 360 == 0 ==> turns_y(d, quarter_steps(degrees)) == d,
{
    reveal_with_fuel(turns_y, 4);
}

/// Two rotations about the vertical axis by multiples of 90 degrees add up.
pub proof fn law_rotate_y_compose(d: Direction, a: int, b: int)
    requires
        a % 90 == 0,
        b % 90 == 0,
    ensures
        turns_y(turns_y(d, quarter_steps(a)), quarter_steps(b)) == turns_y(d, quarter_steps(a + b)),
{
    lemma_turns_y_add(d, quarter_steps(a), quarter_steps(b));
    lemma_turns_y_mod(d, quarter_steps(a) + quarter_steps(b));
    assert((quarter_steps(a) + quarter_steps(b)) % 4 == quarter_steps(a + b)) by (nonlinear_arith)
        requires
            a % 90 == 0,
            b % 90 == 0,
            quarter_steps(a) == (a % 360) / 90,
            quarter_steps(b) == (b % 360) / 90,
            quarter_steps(a + b) == ((a + b) % 360) / 90;
}

/// A reference from a blockstate file to a model, with its rotation.
pub struct ModelRef {
    pub model: String,
    pub x: i32,
    pub y: i32,
    pub uvlock: bool,
}

impl Clone for ModelRef {
    fn clone(&self) -> (r: Self)
        ensures
            r == *self,
    {
        ModelRef { model: self.model.clone(), x: self.x, y: self.y, uvlock: self.uvlock }
    }
}

/// A blockstate variant: one model or a weighted list of them.
pub enum VariantEntry {
    Single(ModelRef),
    Array(Vec<ModelRef>),
}

/// What a multipart case applies: one model or a list of them.
pub enum MultipartApply {
    Single(ModelRef),
    Array(Vec<ModelRef>),
}

impl VariantEntry {
    /// The model used for the variant: the single one, or the first of the list.
    pub fn first(&self) -> (r: Option<&ModelRef>)
        ensures
            match self {
                VariantEntry::Single(m) => r == Some(m),
                VariantEntry::Array(v) => if v@.len() > 0 {
                    r == Some(&v@[0])
                } else {
                    r is None
                },
            },
    {
        match self {
            VariantEntry::Single(r) => Some(r),
            VariantEntry::Array(arr) => if arr.len() > 0 {
                Some(&arr[0])
            } else {
                None
            },
        }
    }
}

impl MultipartApply {
    /// The model applied: the single one, or the first of the list.
    pub fn first(&self) -> (r: Option<&ModelRef>)
        ensures
            match self {
                MultipartApply::Single(m) => r == Some(m),
                MultipartApply::Array(v) => if v@.len() > 0 {
                    r == Some(&v@[0])
                } else {
                    r is None
                },
            },
    {
        match self {
            MultipartApply::Single(r) => Some(r),
            MultipartApply::Array(arr) => if arr.len() > 0 {
                Some(&arr[0])
            } else {
                None
            },
        }
    }
}

/// The default of a model element's `shade` flag.
pub fn default_true() -> (b: bool)
    ensures
        b,
{
    true
}

/// The asset key of a model file: `minecraft/models/<id>.json`, with a
/// leading `minecraft:` namespace removed from the id.
pub open spec fn asset_key_of(model_id: Seq<char>) -> Seq<char> {
    let stripped = match after_prefix(model_id, "minecraft:"@) {
        Some(rest) => rest,
        None => model_id,
    };
    "minecraft/models/"@ + stripped + ".json"@
}

/// The asset key of a model file.
pub fn model_id_to_asset_key(model_id: &str) -> (k: String)
    ensures
        k@ == asset_key_of(model_id@),
{
    let stripped = match strip_prefix_text(model_id, "minecraft:") {
        Some(rest) => rest,
        None => model_id,
    };
    let mut k = String::from_str("minecraft/models/");
    k.append(stripped);
    k.append(".json");
    k
}

/// The block texture a resolved texture reference names: `None` for an
/// unresolved `#variable`, otherwise the part after `block/` (after an
/// optional `minecraft:` namespace), if it is there.
pub open spec fn texture_name(r: Seq<char>) -> Option<Seq<char>> {
    if r.len() > 0 && r[0] == '#' {
        None
    } else {
        let stripped = match after_prefix(r, "minecraft:"@) {
            Some(rest) => rest,
            None => r,
        };
        after_prefix(stripped, "block/"@)
    }
}

/// The block texture a resolved texture reference names.
pub fn texture_to_name(texture_ref: &str) -> (r: Option<&str>)
    ensures
        match texture_name(texture_ref@) {
            Some(n) => r is Some && r->0@ == n,
            None => r is None,
        },
{
    proof {
        lemma_hash_prefix(texture_ref@);
    }
    if strip_prefix_text(texture_ref, "#").is_some() {
        return None;
    }
    let stripped = match strip_prefix_text(texture_ref, "minecraft:") {
        Some(rest) => rest,
        None => texture_ref,
    };
    strip_prefix_text(stripped, "block/")
}

/// Lemma: text starts with `#` exactly when the prefix `#` can be stripped,
/// leaving everything after the first character.
proof fn lemma_hash_prefix(s: Seq<char>)
    ensures
        (after_prefix(s, "#"@) is Some) == (s.len() > 0 && s[0] == '#'),
        after_prefix(s, "#"@) is Some ==> after_prefix(s, "#"@)->0 == s.skip(1),
{
    reveal_strlit("#");
    if s.len() > 0 && s[0] == '#' {
        assert(s.take(1) =~= "#"@);
    }
    if after_prefix(s, "#"@) is Some {
        assert(s.take(1)[0] == "#"@[0]);
    }
}

/// The contents of a texture-variable map.
pub open spec fn text_map(m: Map<Seq<char>, String>) -> Map<Seq<char>, Seq<char>> {
    m.map_values(|v: String| v@)
}

/// What a texture value resolves to: a `#name` reference is replaced by the
/// value of `name` in the map, repeatedly, at most 11 times; anything else
/// stands for itself.
pub open spec fn resolved_ref(value: Seq<char>, map: Map<Seq<char>, Seq<char>>, depth: nat) -> Seq<char>
    decreases 11 - depth,
{
    if depth > 10 {
        value
    } else if value.len() > 0 && value[0] == '#' && map.contains_key(value.skip(1)) {
        resolved_ref(map[value.skip(1)], map, depth + 1)
    } else {
        value
    }
}

/// Resolving a texture value: a value that is not a `#` reference stands for
/// itself; a `#name` reference to a variable whose value is not a reference
/// is that value; a reference to a variable the model lacks stays as it is.
pub proof fn law_resolve_references(name: Seq<char>, value: Seq<char>, map: Map<Seq<char>, Seq<char>>, depth: nat)
    requires
        depth <= 10,
    ensures
        !(value.len() > 0 && value[0] == '#') ==> resolved_ref(value, map, depth) == value,
        map.contains_key(name) && !(map[name].len() > 0 && map[name][0] == '#') ==> resolved_ref(
            seq!['#'] + name,
            map,
            depth,
        ) == map[name],
        !map.contains_key(name) ==> resolved_ref(seq!['#'] + name, map, depth) == seq!['#'] + name,
{
    let r = seq!['#'] + name;
    assert(r.skip(1) =~= name);
    assert(r[0] == '#');
    if map.contains_key(name) && !(map[name].len() > 0 && map[name][0] == '#') {
        assert(resolved_ref(r, map, depth) == resolved_ref(map[name], map, depth + 1));
    }
}

/// Resolves a texture value against the model's texture variables.
pub fn resolve_ref(value: &str, map: &StringHashMap<String>, depth: u32) -> (r: String)
    ensures
        r@ == resolved_ref(value@, text_map(map@), depth as nat),
    decreases 11 - depth,
{
    if depth > 10 {
        return String::from_str(value);
    }
    proof {
        lemma_hash_prefix(value@);
    }
    match strip_prefix_text(value, "#") {
        Some(ref_name) => {
            match map.get(ref_name) {
                Some(target) => {
                    assert(text_map(map@)[ref_name@] == target@);
                    resolve_ref(target.as_str(), map, depth + 1)
                },
                None => String::from_str(value),
            }
        },
        None => String::from_str(value),
    }
}

/// How a block's faces are tinted by the biome.
#[derive(PartialEq, Eq, Structural, Clone, Copy, Debug)]
pub enum Tint {
    /// Not tinted.
    NoTint,
    Grass,
    Foliage,
}

/// The textures of the six faces of a full block, an optional overlay for
/// its sides, and its tint.
pub struct FaceTextures {
    pub top: String,
    pub bottom: String,
    pub north: String,
    pub south: String,
    pub east: String,
    pub west: String,
    pub side_overlay: Option<String>,
    pub tint: Tint,
}

/// The contents of a `FaceTextures`.
pub struct FaceTexturesView {
    pub top: Seq<char>,
    pub bottom: Seq<char>,
    pub north: Seq<char>,
    pub south: Seq<char>,
    pub east: Seq<char>,
    pub west: Seq<char>,
    pub side_overlay: Option<Seq<char>>,
    pub tint: Tint,
}

impl View for FaceTextures {
    type V = FaceTexturesView;

    open spec fn view(&self) -> FaceTexturesView {
        FaceTexturesView {
            top: self.top@,
            bottom: self.bottom@,
            north: self.north@,
            south: self.south@,
            east: self.east@,
            west: self.west@,
            side_overlay: match self.side_overlay {
                Some(s) => Some(s@),
                None => None,
            },
            tint: self.tint,
        }
    }
}

/// Face textures given face by face.
pub open spec fn faces(
    up: Seq<char>,
    down: Seq<char>,
    north: Seq<char>,
    south: Seq<char>,
    east: Seq<char>,
    west: Seq<char>,
    side_overlay: Option<Seq<char>>,
    tint: Tint,
) -> FaceTexturesView {
    FaceTexturesView { top: up, bottom: down, north, south, east, west, side_overlay, tint }
}

impl Clone for FaceTextures {
    fn clone(&self) -> (r: Self)
        ensures
            r == *self,
    {
        FaceTextures {
            top: self.top.clone(),
            bottom: self.bottom.clone(),
            north: self.north.clone(),
            south: self.south.clone(),
            east: self.east.clone(),
            west: self.west.clone(),
            side_overlay: match &self.side_overlay {
                Some(s) => Some(s.clone()),
                None => None,
            },
            tint: self.tint,
        }
    }
}

impl FaceTextures {
    /// Face textures given face by face.
    pub fn new(
        up: &str,
        down: &str,
        north: &str,
        south: &str,
        east: &str,
        west: &str,
        side_overlay: Option<&str>,
        tint: Tint,
    ) -> (f: FaceTextures)
        ensures
            f@ == faces(up@, down@, north@, south@, east@, west@,
                match side_overlay { Some(s) => Some(s@), None => None }, tint),
    {
        FaceTextures {
            top: String::from_str(up),
            bottom: String::from_str(down),
            north: String::from_str(north),
            south: String::from_str(south),
            east: String::from_str(east),
            west: String::from_str(west),
            side_overlay: match side_overlay {
                Some(s) => Some(String::from_str(s)),
                None => None,
            },
            tint,
        }
    }

    /// The same texture on every face.
    pub fn uniform(t: &str, tint: Tint) -> (f: FaceTextures)
        ensures
            f@ == faces(t@, t@, t@, t@, t@, t@, None, tint),
    {
        FaceTextures::new(t, t, t, t, t, t, None, tint)
    }
}

/// Blocks tinted with the grass colour.
pub open spec fn grass_tinted(name: Seq<char>) -> bool {
    name == "grass_block"@ || name == "short_grass"@ || name == "tall_grass"@ || name == "fern"@
        || name == "large_fern"@
}

/// Blocks tinted with the foliage colour, besides every block named `*_leaves`.
pub open spec fn foliage_listed(name: Seq<char>) -> bool {
    name == "oak_leaves"@ || name == "dark_oak_leaves"@ || name == "jungle_leaves"@
        || name == "acacia_leaves"@ || name == "mangrove_leaves"@ || name == "vine"@
}

/// The tint of a block by its name.
pub open spec fn tint_of(name: Seq<char>) -> Tint {
    if grass_tinted(name) {
        Tint::Grass
    } else if foliage_listed(name) || ("_leaves"@.len() <= name.len() && name.skip(name.len() - "_leaves"@.len()) == "_leaves"@) {
        Tint::Foliage
    } else {
        Tint::NoTint
    }
}

/// The tint of a block by its name.
pub fn determine_tint(block_name: &str) -> (t: Tint)
    ensures
        t == tint_of(block_name@),
{
    if same_text(block_name, "grass_block") || same_text(block_name, "short_grass")
        || same_text(block_name, "tall_grass") || same_text(block_name, "fern")
        || same_text(block_name, "large_fern") {
        Tint::Grass
    } else if same_text(block_name, "oak_leaves") || same_text(block_name, "dark_oak_leaves")
        || same_text(block_name, "jungle_leaves") || same_text(block_name, "acacia_leaves")
        || same_text(block_name, "mangrove_leaves") || same_text(block_name, "vine")
        || ends_with_text(block_name, "_leaves") {
        Tint::Foliage
    } else {
        Tint::NoTint
    }
}

/// The block texture a texture variable names, if the model has that variable.
pub open spec fn var_texture(m: Map<Seq<char>, Seq<char>>, key: Seq<char>) -> Option<Seq<char>> {
    if m.contains_key(key) {
        texture_name(m[key])
    } else {
        None
    }
}

/// The face textures of a full block from its model's resolved texture
/// variables, trying in turn: all six faces named; `all`; `end` and `side`;
/// `top` and `side`; `cross`; `front` and `side`; `particle`.
pub open spec fn face_textures_for(name: Seq<char>, m: Map<Seq<char>, Seq<char>>) -> Option<FaceTexturesView> {
    let up = var_texture(m, "up"@);
    let down = var_texture(m, "down"@);
    let north = var_texture(m, "north"@);
    let south = var_texture(m, "south"@);
    let east = var_texture(m, "east"@);
    let west = var_texture(m, "west"@);
    let tint = tint_of(name);
    if up is Some && down is Some && north is Some && south is Some && east is Some && west is Some {
        if name == "grass_block"@ {
            Some(faces(up->0, down->0, north->0, south->0, east->0, west->0,
                Some("grass_block_side_overlay"@), Tint::Grass))
        } else {
            Some(faces(up->0, down->0, north->0, south->0, east->0, west->0, None, tint))
        }
    } else if var_texture(m, "all"@) is Some {
        let a = var_texture(m, "all"@)->0;
        Some(faces(a, a, a, a, a, a, None, tint))
    } else if var_texture(m, "end"@) is Some && var_texture(m, "side"@) is Some {
        let e = var_texture(m, "end"@)->0;
        let s = var_texture(m, "side"@)->0;
        Some(faces(e, e, s, s, s, s, None, Tint::NoTint))
    } else if var_texture(m, "top"@) is Some && var_texture(m, "side"@) is Some {
        let t = var_texture(m, "top"@)->0;
        let s = var_texture(m, "side"@)->0;
        let b = match var_texture(m, "bottom"@) {
            Some(b) => b,
            None => t,
        };
        Some(faces(t, b, s, s, s, s, None, tint))
    } else if var_texture(m, "cross"@) is Some {
        let c = var_texture(m, "cross"@)->0;
        Some(faces(c, c, c, c, c, c, None, tint))
    } else if var_texture(m, "front"@) is Some && var_texture(m, "side"@) is Some {
        let f = var_texture(m, "front"@)->0;
        let s = var_texture(m, "side"@)->0;
        let t = match var_texture(m, "top"@) {
            Some(t) => t,
            None => match var_texture(m, "end"@) {
                Some(e) => e,
                None => s,
            },
        };
        let b = match var_texture(m, "bottom"@) {
            Some(b) => b,
            None => t,
        };
        Some(faces(t, b, f, s, s, s, None, Tint::NoTint))
    } else if var_texture(m, "particle"@) is Some {
        let p = var_texture(m, "particle"@)->0;
        Some(faces(p, p, p, p, p, p, None, tint))
    } else {
        None
    }
}

/// Which faces a model's texture variables give a block, case by case, in
/// the order the variables are tried: six named faces give each face its
/// own texture (the grass block also gets its side overlay); otherwise
/// `all` gives every face one texture; otherwise `end` and `side` give the
/// top and bottom the end texture and the four sides the side texture;
/// otherwise `top` and `side` give the top its texture, the bottom the
/// `bottom` texture when there is one and the top texture when there is
/// not, and the sides the side texture; otherwise `cross` gives every face
/// one texture; otherwise `front` and `side` give the north face the front
/// texture and the other sides the side texture; otherwise `particle` gives
/// every face one texture; with none of these there are no face textures.
pub proof fn law_face_texture_choices(name: Seq<char>, m: Map<Seq<char>, Seq<char>>)
    ensures
        ({
            let v = |k: Seq<char>| var_texture(m, k);
            let r = face_textures_for(name, m);
            let six = v("up"@) is Some && v("down"@) is Some && v("north"@) is Some && v("south"@) is Some
                && v("east"@) is Some && v("west"@) is Some;
            let all = v("all"@) is Some;
            let end_side = v("end"@) is Some && v("side"@) is Some;
            let top_side = v("top"@) is Some && v("side"@) is Some;
            let cross = v("cross"@) is Some;
            let front_side = v("front"@) is Some && v("side"@) is Some;
            &&& six ==> (r matches Some(f) && f.top == v("up"@)->0 && f.bottom == v("down"@)->0
                && f.north == v("north"@)->0 && f.south == v("south"@)->0 && f.east == v("east"@)->0
                && f.west == v("west"@)->0)
            &&& !six && all ==> (r matches Some(f) && f.top == v("all"@)->0 && f.bottom == f.top
                && f.north == f.top && f.south == f.top && f.east == f.top && f.west == f.top
                && f.side_overlay is None)
            &&& !six && !all && end_side ==> (r matches Some(f) && f.top == v("end"@)->0
                && f.bottom == v("end"@)->0 && f.north == v("side"@)->0 && f.south == v("side"@)->0
                && f.east == v("side"@)->0 && f.west == v("side"@)->0 && f.tint == Tint::NoTint)
            &&& !six && !all && !end_side && top_side ==> (r matches Some(f) && f.top == v("top"@)->0
                && (v("bottom"@) matches Some(b) ==> f.bottom == b)
                && (v("bottom"@) is None ==> f.bottom == v("top"@)->0)
                && f.north == v("side"@)->0 && f.south == v("side"@)->0 && f.east == v("side"@)->0
                && f.west == v("side"@)->0 && f.side_overlay is None && f.tint == tint_of(name))
            &&& !six && !all && !end_side && !top_side && cross ==> (r matches Some(f)
                && f.top == v("cross"@)->0 && f.bottom == f.top && f.north == f.top && f.south == f.top
                && f.east == f.top && f.west == f.top)
            &&& !six && !all && !end_side && !top_side && !cross && front_side ==> (r matches Some(f)
                && f.north == v("front"@)->0 && f.south == v("side"@)->0 && f.east == v("side"@)->0
                && f.west == v("side"@)->0 && (v("bottom"@) matches Some(b) ==> f.bottom == b)
                && (v("bottom"@) is None ==> f.bottom == f.top) && f.tint == Tint::NoTint)
            &&& !six && !all && !end_side && !top_side && !cross && !front_side ==> (r is Some
                <==> v("particle"@) is Some)
            &&& (!six ==> (r matches Some(f) ==> f.side_overlay is None))
        }),
{
}

/// Stripping a prefix from text that starts with it leaves the rest.
proof fn lemma_after_prefix_of(prefix: Seq<char>, rest: Seq<char>)
    ensures
        after_prefix(prefix + rest, prefix) == Some(rest),
{
    assert((prefix + rest).take(prefix.len() as int) =~= prefix);
    assert((prefix + rest).skip(prefix.len() as int) =~= rest);
}

/// A block texture reference names the texture after `block/`, with or
/// without the `minecraft:` namespace; an unresolved `#` reference names
/// none.
pub proof fn law_texture_names(rest: Seq<char>)
    ensures
        texture_name("block/"@ + rest) == Some(rest),
        texture_name("minecraft:block/"@ + rest) == Some(rest),
        texture_name(seq!['#'] + rest) is None,
{
    reveal_strlit("block/");
    reveal_strlit("minecraft:block/");
    reveal_strlit("minecraft:");
    lemma_after_prefix_of("block/"@, rest);
    let b = "block/"@ + rest;
    if after_prefix(b, "minecraft:"@) is Some {
        assert(b.take(10)[0] == "minecraft:"@[0]);
    }
    let full = "minecraft:block/"@ + rest;
    assert(full =~= "minecraft:"@ + ("block/"@ + rest));
    lemma_after_prefix_of("minecraft:"@, "block/"@ + rest);
    assert((seq!['#'] + rest)[0] == '#');
}

/// A model's asset key is `minecraft/models/<id>.json`, the same whether the
/// id names the `minecraft:` namespace or not.
pub proof fn law_asset_keys(id: Seq<char>)
    ensures
        after_prefix(id, "minecraft:"@) is None ==> asset_key_of(id) == "minecraft/models/"@ + id + ".json"@,
        asset_key_of("minecraft:"@ + id) == "minecraft/models/"@ + id + ".json"@,
{
    lemma_after_prefix_of("minecraft:"@, id);
}

/// The tints: the five grass blocks take the grass colour; the listed
/// foliage blocks and every other block named `*_leaves` take the foliage
/// colour; any other block is not tinted.
pub proof fn law_tints(name: Seq<char>)
    ensures
        tint_of("grass_block"@) == Tint::Grass,
        tint_of("short_grass"@) == Tint::Grass,
        tint_of("tall_grass"@) == Tint::Grass,
        tint_of("fern"@) == Tint::Grass,
        tint_of("large_fern"@) == Tint::Grass,
        tint_of("vine"@) == Tint::Foliage,
        tint_of("oak_leaves"@) == Tint::Foliage,
        tint_of(name + "_leaves"@) == Tint::Foliage,
        tint_of(name) == Tint::NoTint <==> !grass_tinted(name) && !foliage_listed(name)
            && !(name.len() >= 7 && name.skip(name.len() - 7) == "_leaves"@),
{
    reveal_strlit("_leaves");
    reveal_strlit("vine");
    reveal_strlit("oak_leaves");
    reveal_strlit("grass_block");
    reveal_strlit("short_grass");
    reveal_strlit("tall_grass");
    reveal_strlit("fern");
    reveal_strlit("large_fern");
    let n = name + "_leaves"@;
    assert(n.skip(n.len() - 7) =~= "_leaves"@);
    let grass = seq!["grass_block"@, "short_grass"@, "tall_grass"@, "fern"@, "large_fern"@];
    assert(n[n.len() - 1] == 's' && n[n.len() - 2] == 'e');
    assert forall|k: int| 0 <= k < 5 implies grass[k] != n && grass[k] != "vine"@ && grass[k] != "oak_leaves"@ by {
        let g = grass[k];
        assert(g[g.len() - 1] != 's' || g[g.len() - 2] != 'e');
        assert(g[g.len() - 1] != "vine"@[3] || g.len() != 4);
        assert(g.len() != 10 || g[0] != 'o');
    }
}

/// The block texture a texture variable names, computed.
fn get_var<'a>(m: &'a StringHashMap<String>, key: &str) -> (r: Option<&'a str>)
    ensures
        match var_texture(text_map(m@), key@) {
            Some(n) => r is Some && r->0@ == n,
            None => r is None,
        },
{
    match m.get(key) {
        Some(v) => {
            assert(text_map(m@)[key@] == v@);
            texture_to_name(v.as_str())
        },
        None => None,
    }
}

/// The face textures of a full block from its model's resolved texture variables.
pub fn build_face_textures(block_name: &str, textures: &StringHashMap<String>) -> (r: Option<FaceTextures>)
    ensures
        match face_textures_for(block_name@, text_map(textures@)) {
            Some(f) => r is Some && r->0@ == f,
            None => r is None,
        },
{
    let up = get_var(textures, "up");
    let down = get_var(textures, "down");
    let north = get_var(textures, "north");
    let south = get_var(textures, "south");
    let east = get_var(textures, "east");
    let west = get_var(textures, "west");
    let tint = determine_tint(block_name);
    if let (Some(up), Some(down), Some(north), Some(south), Some(east), Some(west)) = (up, down, north, south, east, west) {
        if same_text(block_name, "grass_block") {
            return Some(FaceTextures::new(up, down, north, south, east, west, Some("grass_block_side_overlay"), Tint::Grass));
        }
        return Some(FaceTextures::new(up, down, north, south, east, west, None, tint));
    }
    if let Some(all) = get_var(textures, "all") {
        return Some(FaceTextures::uniform(all, tint));
    }
    let side = get_var(textures, "side");
    if let (Some(end), Some(side)) = (get_var(textures, "end"), side) {
        return Some(FaceTextures::new(end, end, side, side, side, side, None, Tint::NoTint));
    }
    if let (Some(top), Some(side)) = (get_var(textures, "top"), side) {
        let bottom = match get_var(textures, "bottom") {
            Some(b) => b,
            None => top,
        };
        return Some(FaceTextures::new(top, bottom, side, side, side, side, None, tint));
    }
    if let Some(cross) = get_var(textures, "cross") {
        return Some(FaceTextures::uniform(cross, tint));
    }
    if let (Some(front), Some(side)) = (get_var(textures, "front"), side) {
        let top = match get_var(textures, "top") {
            Some(t) => t,
            None => match get_var(textures, "end") {
                Some(e) => e,
                None => side,
            },
        };
        let bottom = match get_var(textures, "bottom") {
            Some(b) => b,
            None => top,
        };
        return Some(FaceTextures::new(top, bottom, front, side, side, side, None, Tint::NoTint));
    }
    if let Some(p) = get_var(textures, "particle") {
        return Some(FaceTextures::uniform(p, tint));
    }
    None
}

/// Each block's name, whether its blockstate names a default model, and the
/// resolved texture variables of that model.
pub open spec fn block_views(
    blocks: Seq<(String, BlockstateFile, StringHashMap<String>)>,
) -> Seq<(Seq<char>, bool, Map<Seq<char>, Seq<char>>)> {
    blocks.map_values(
        |b: (String, BlockstateFile, StringHashMap<String>)|
            (b.0@, default_model(b.1) is Some, text_map(b.2@)),
    )
}

/// The face textures of every block whose blockstate names a default model
/// and whose model's texture variables give them, from the blocks in the
/// order they were read; a later block of the same name replaces an earlier
/// one, and a block without a default model is left out.
pub open spec fn texture_table(blocks: Seq<(Seq<char>, bool, Map<Seq<char>, Seq<char>>)>) -> Map<Seq<char>, FaceTexturesView>
    decreases blocks.len(),
{
    if blocks.len() == 0 {
        Map::empty()
    } else {
        let rest = texture_table(blocks.drop_last());
        let (name, has_model, vars) = blocks.last();
        if !has_model {
            rest
        } else {
            match face_textures_for(name, vars) {
                Some(f) => rest.insert(name, f),
                None => rest,
            }
        }
    }
}

/// The contents of a table of face textures.
pub open spec fn table_view(m: Map<Seq<char>, FaceTextures>) -> Map<Seq<char>, FaceTexturesView> {
    m.map_values(|f: FaceTextures| f@)
}

/// The face textures of every block, from each block's name, its blockstate
/// and the resolved texture variables of the blockstate's default model
/// (which a block without one does not use).
pub fn load_all_block_textures(
    blocks: &Vec<(String, BlockstateFile, StringHashMap<String>)>,
) -> (r: StringHashMap<FaceTextures>)
    ensures
        table_view(r@) == texture_table(block_views(blocks@)),
{
    let mut results: StringHashMap<FaceTextures> = StringHashMap::new();
    let mut i: usize = 0;
    while i < blocks.len()
        invariant
            i <= blocks.len(),
            table_view(results@) == texture_table(block_views(blocks@).take(i as int)),
        decreases blocks.len() - i,
    {
        let ghost before = results@;
        let name = &blocks[i].0;
        let vars = &blocks[i].2;
        let model = extract_default_model_ref(&blocks[i].1);
        proof {
            let bv = block_views(blocks@);
            assert(bv.take(i + 1).drop_last() =~= bv.take(i as int));
            assert(bv.take(i + 1).last() == bv[i as int]);
            assert(bv[i as int] == (name@, default_model(blocks@[i as int].1) is Some, text_map(vars@)));
        }
        if model.is_some() {
            let built = build_face_textures(name.as_str(), vars);
            match built {
                Some(f) => {
                    results.insert(name.clone(), f);
                    proof {
                        assert(table_view(results@) =~= table_view(before).insert(name@, f@));
                    }
                },
                None => {},
            }
        }
        i = i + 1;
    }
    proof {
        assert(block_views(blocks@).take(blocks@.len() as int) =~= block_views(blocks@));
    }
    results
}

/// A baked model is a full cube when it has exactly six quads whose cull
/// faces are given and cover all six directions.
pub open spec fn full_cube(cullfaces: Seq<Option<Direction>>) -> bool {
    &&& cullfaces.len() == 6
    &&& forall|i: int| 0 <= i < 6 ==> (#[trigger] cullfaces[i]) is Some
    &&& forall|d: Direction| #[trigger] covers(cullfaces, d)
}

/// Some quad culls towards `d`.
pub open spec fn covers(cullfaces: Seq<Option<Direction>>, d: Direction) -> bool {
    exists|i: int| 0 <= i < 6 && cullfaces[i] == Some(d)
}

/// The direction numbered `k`, in declaration order.
pub open spec fn dir_at(k: int) -> Direction {
    if k == 0 {
        Direction::Down
    } else if k == 1 {
        Direction::Up
    } else if k == 2 {
        Direction::North
    } else if k == 3 {
        Direction::South
    } else if k == 4 {
        Direction::West
    } else {
        Direction::East
    }
}

fn dir_index(d: Direction) -> (k: usize)
    ensures
        k < 6,
        d == dir_at(k as int),
{
    match d {
        Direction::Down => 0,
        Direction::Up => 1,
        Direction::North => 2,
        Direction::South => 3,
        Direction::West => 4,
        Direction::East => 5,
    }
}

/// Whether a baked model, given by the cull faces of its quads, is a full cube.
pub fn check_full_cube(cullfaces: &[Option<Direction>]) -> (r: bool)
    ensures
        r == full_cube(cullfaces@),
{
    if cullfaces.len() != 6 {
        return false;
    }
    let mut seen: [bool; 6] = [false; 6];
    let mut i: usize = 0;
    while i < 6
        invariant
            cullfaces@.len() == 6,
            i <= 6,
            forall|j: int| 0 <= j < i ==> (#[trigger] cullfaces@[j]) is Some,
            forall|k: int| 0 <= k < 6 ==> (#[trigger] seen@[k] <==> exists|j: int| 0 <= j < i
                && cullfaces@[j] == Some(dir_at(k))),
        decreases 6 - i,
    {
        match cullfaces[i] {
            Some(d) => {
                let k = dir_index(d);
                let ghost old_seen = seen@;
                seen[k] = true;
                assert forall|m: int| 0 <= m < 6 implies (#[trigger] seen@[m] <==> exists|j: int| 0 <= j < i + 1
                    && cullfaces@[j] == Some(dir_at(m))) by {
                    if m == k as int {
                        assert(cullfaces@[i as int] == Some(d));
                    } else {
                        assert(seen@[m] == old_seen[m]);
                        if exists|j: int| 0 <= j < i + 1 && cullfaces@[j] == Some(dir_at(m)) {
                            let j = choose|j: int| 0 <= j < i + 1 && cullfaces@[j] == Some(dir_at(m));
                            if j == i as int {
                                assert(dir_at(m) == dir_at(k as int));
                                assert(false);
                            }
                        }
                    }
                }
            },
            None => {
                assert(!full_cube(cullfaces@));
                return false;
            },
        }
        i = i + 1;
    }
    let all = seen[0] && seen[1] && seen[2] && seen[3] && seen[4] && seen[5];
    proof {
        if all {
            assert forall|d: Direction| #[trigger] covers(cullfaces@, d) by {
                let k: int = match d {
                    Direction::Down => 0,
                    Direction::Up => 1,
                    Direction::North => 2,
                    Direction::South => 3,
                    Direction::West => 4,
                    Direction::East => 5,
                };
                assert(seen@[k]);
                assert(dir_at(k) == d);
            }
        } else {
            let k: int = if !seen[0] { 0 } else if !seen[1] { 1 } else if !seen[2] { 2 } else if !seen[3] { 3 } else if !seen[4] { 4 } else { 5 };
            let d = dir_at(k);
            assert(!seen@[k]);
            assert(!covers(cullfaces@, d));
        }
    }
    all
}

/// The quarter turns of a face's texture rotation, counted in `0..4`.
pub open spec fn uv_steps(rotation: int) -> int {
    ((rotation % 360) / 90)
}

/// The quarter turns of a face's texture rotation,
/// `((rot % 360 + 360) % 360) / 90`.
pub fn uv_rotation_steps(rotation: i32) -> (n: usize)
    ensures
        n == uv_steps(rotation as int),
        n < 4,
{
    let r = (rotation % 360 + 360) % 360;
    (r / 90) as usize
}

/// The four corners of a face after `steps` rotations to the right by one
/// place, as `<[T]>::rotate_right(1)` applied `steps` times leaves them.
pub open spec fn rotated_right<T>(c: Seq<T>, steps: int) -> Seq<T> {
    Seq::new(4, |i: int| c[(i - steps) % 4])
}

/// Rotates the four corners of a face `steps` places to the right.
pub fn rotate_corners<T: Copy>(corners: [T; 4], steps: usize) -> (r: [T; 4])
    ensures
        r@ == rotated_right(corners@, steps as int),
{
    let mut c = corners;
    let mut s: usize = 0;
    while s < steps
        invariant
            s <= steps,
            c@ == rotated_right(corners@, s as int),
        decreases steps - s,
    {
        let last = c[3];
        let c2 = c[2];
        let c1 = c[1];
        let c0 = c[0];
        c = [last, c0, c1, c2];
        assert(c@ =~= rotated_right(corners@, s + 1)) by {
            assert forall|i: int| 0 <= i < 4 implies c@[i] == corners@[(i - (s + 1)) % 4] by {
                if i == 0 {
                    assert((3 - s) % 4 == (0 - (s + 1)) % 4);
                } else {
                    assert((i - 1 - s) % 4 == (i - (s + 1)) % 4);
                }
            }
        }
        s = s + 1;
    }
    c
}

/// A value of a multipart case's `when` object, as far as conditions use it.
pub enum WhenValue {
    Text(String),
    Flag(bool),
    Other,
}

/// One case of a multipart blockstate.
pub struct MultipartCase {
    pub apply: MultipartApply,
    /// The `when` object's entries, or `None` when there is no object.
    pub when: Option<Vec<(String, WhenValue)>>,
}

/// A blockstate file: its variants by key (in the order the file's map
/// yields them) or its multipart cases.
pub struct BlockstateFile {
    pub variants: Option<Vec<(String, VariantEntry)>>,
    pub multipart: Option<Vec<MultipartCase>>,
}

/// The variant used when a block is shown without state: the one with the
/// empty key, or else the first listed.
pub open spec fn default_variant(v: Seq<(String, VariantEntry)>) -> Option<int> {
    if first_where(v, empty_key()) is Some {
        first_where(v, empty_key())
    } else if v.len() > 0 {
        Some(0)
    } else {
        None
    }
}

/// A variant listed under the empty key.
pub open spec fn empty_key() -> spec_fn((String, VariantEntry)) -> bool {
    |e: (String, VariantEntry)| e.0@ == Seq::<char>::empty()
}

/// The model a variant entry uses, if any.
pub open spec fn entry_model(e: VariantEntry) -> Option<ModelRef> {
    match e {
        VariantEntry::Single(m) => Some(m),
        VariantEntry::Array(v) => if v@.len() > 0 {
            Some(v@[0])
        } else {
            None
        },
    }
}

/// The model a multipart application uses, if any.
pub open spec fn apply_model(a: MultipartApply) -> Option<ModelRef> {
    match a {
        MultipartApply::Single(m) => Some(m),
        MultipartApply::Array(v) => if v@.len() > 0 {
            Some(v@[0])
        } else {
            None
        },
    }
}

/// The model that stands for a block: from its default variant, or else from
/// its first multipart case.
pub open spec fn default_model(b: BlockstateFile) -> Option<ModelRef> {
    match b.variants {
        Some(v) => match default_variant(v@) {
            Some(i) => entry_model(v@[i].1),
            None => None,
        },
        None => match b.multipart {
            Some(m) => if m@.len() > 0 {
                apply_model(m@[0].apply)
            } else {
                None
            },
            None => None,
        },
    }
}

/// The model that stands for a block: the first variant listed under the
/// empty key when there is one, else the first variant listed; a blockstate
/// without variants uses its first multipart case; the model of a variant or
/// case is its single model or the first of its list.
pub proof fn law_default_model(b: BlockstateFile, k: int)
    ensures
        ({
            let v = b.variants->0@;
            let m = b.multipart->0@;
            let empty = Seq::<char>::empty();
            &&& b.variants is Some && 0 <= k < v.len() && v[k].0@ == empty && (forall|j: int| 0 <= j < k
                ==> v[j].0@ != empty) ==> default_model(b) == entry_model(v[k].1)
            &&& b.variants is Some && v.len() > 0 && (forall|j: int| 0 <= j < v.len() ==> v[j].0@ != empty)
                ==> default_model(b) == entry_model(v[0].1)
            &&& b.variants is Some && v.len() == 0 ==> default_model(b) is None
            &&& b.variants is None && b.multipart is Some && m.len() > 0 ==> default_model(b) == apply_model(
                m[0].apply,
            )
            &&& b.variants is None && b.multipart is None ==> default_model(b) is None
        }),
        forall|e: VariantEntry| #[trigger] entry_model(e) is Some ==> (e is Single && e->Single_0 == entry_model(
            e,
        )->0) || (e is Array && e->Array_0@.len() > 0 && e->Array_0@[0] == entry_model(e)->0),
{
    if let Some(v) = b.variants {
        lemma_first_where(v@, empty_key());
        if 0 <= k < v@.len() && v@[k].0@ == Seq::<char>::empty() && (forall|j: int| 0 <= j < k ==> v@[j].0@
            != Seq::<char>::empty()) {
            assert(empty_key()(v@[k]));
            assert forall|j: int| 0 <= j < k implies !empty_key()(v@[j]) by {}
            lemma_first_where_is(v@, empty_key(), k);
        }
        if v@.len() > 0 && (forall|j: int| 0 <= j < v@.len() ==> v@[j].0@ != Seq::<char>::empty()) {
            if first_where(v@, empty_key()) is Some {
                let i = first_where(v@, empty_key())->0;
                assert(empty_key()(v@[i]));
            }
        }
    }
}

/// The model that stands for a block.
pub fn extract_default_model_ref(blockstate: &BlockstateFile) -> (r: Option<ModelRef>)
    ensures
        r == default_model(*blockstate),
{
    if let Some(variants) = &blockstate.variants {
        let mut found: Option<usize> = None;
        let mut i: usize = 0;
        while i < variants.len() && found.is_none()
            invariant
                i <= variants@.len(),
                found is None ==> forall|j: int| 0 <= j < i ==> !(#[trigger] empty_key()(variants@[j])),
                found matches Some(k) ==> first_where(variants@, empty_key()) == Some(k as int) && k < variants@.len(),
            decreases variants.len() - i,
        {
            if variants[i].0.as_str().is_empty() {
                proof {
                    assert(variants@[i as int].0@ =~= Seq::<char>::empty());
                    lemma_first_where_is(variants@, empty_key(), i as int);
                }
                found = Some(i);
            }
            i = i + 1;
        }
        let idx = match found {
            Some(k) => k,
            None => {
                proof {
                    lemma_first_where(variants@, empty_key());
                }
                if variants.len() == 0 {
                    return None;
                }
                0
            },
        };
        match variants[idx].1.first() {
            Some(m) => Some(m.clone()),
            None => None,
        }
    } else if let Some(multipart) = &blockstate.multipart {
        if multipart.len() == 0 {
            return None;
        }
        match multipart[0].apply.first() {
            Some(m) => Some(m.clone()),
            None => None,
        }
    } else {
        None
    }
}

/// The conditions of a multipart case: every text or boolean entry of its
/// `when` object, booleans written as `true` or `false`, later entries winning.
pub open spec fn when_map(entries: Seq<(String, WhenValue)>) -> Map<Seq<char>, Seq<char>>
    decreases entries.len(),
{
    if entries.len() == 0 {
        Map::empty()
    } else {
        let m = when_map(entries.drop_last());
        let e = entries.last();
        match e.1 {
            WhenValue::Text(s) => m.insert(e.0@, s@),
            WhenValue::Flag(b) => m.insert(e.0@, if b {
                "true"@
            } else {
                "false"@
            }),
            WhenValue::Other => m,
        }
    }
}

/// The conditions of a multipart case; none when it has no `when` object.
pub fn parse_when_condition(when: &Option<Vec<(String, WhenValue)>>) -> (r: StringHashMap<String>)
    ensures
        match when {
            Some(entries) => text_map(r@) == when_map(entries@),
            None => text_map(r@) == Map::<Seq<char>, Seq<char>>::empty(),
        },
{
    let mut result: StringHashMap<String> = StringHashMap::new();
    if let Some(entries) = when {
        let mut i: usize = 0;
        while i < entries.len()
            invariant
                i <= entries@.len(),
                text_map(result@) == when_map(entries@.take(i as int)),
            decreases entries.len() - i,
        {
            let ghost before = result@;
            proof {
                assert(entries@.take(i + 1).drop_last() =~= entries@.take(i as int));
                assert(entries@.take(i + 1).last() == entries@[i as int]);
            }
            let (key, value) = &entries[i];
            match value {
                WhenValue::Text(s) => {
                    result.insert(key.clone(), s.clone());
                    assert(text_map(result@) =~= text_map(before).insert(key@, s@));
                },
                WhenValue::Flag(b) => {
                    let t = if *b {
                        String::from_str("true")
                    } else {
                        String::from_str("false")
                    };
                    let ghost tv = t@;
                    result.insert(key.clone(), t);
                    assert(text_map(result@) =~= text_map(before).insert(key@, tv));
                },
                WhenValue::Other => {},
            }
            i = i + 1;
        }
        assert(entries@.take(entries.len() as int) =~= entries@);
    } else {
        assert(text_map(result@) =~= Map::<Seq<char>, Seq<char>>::empty());
    }
    result
}

/// How many models of a parent chain are read at most.
pub const MAX_MODEL_CHAIN: u32 = 20;

/// A model file: its parent, its texture variables (in file order) and its
/// elements, whose geometry this module does not look into.
pub struct ModelFile<E> {
    pub parent: Option<String>,
    pub textures: Vec<(String, String)>,
    pub elements: Vec<E>,
}

/// The texture variables after adding a model's variables: a variable already
/// set keeps its value, so the model nearest the start of the chain wins.
pub open spec fn merge_into(m: Map<Seq<char>, Seq<char>>, pairs: Seq<(Seq<char>, Seq<char>)>) -> Map<Seq<char>, Seq<char>>
    decreases pairs.len(),
{
    if pairs.len() == 0 {
        m
    } else {
        let p = pairs[0];
        let m2 = if m.contains_key(p.0) {
            m
        } else {
            m.insert(p.0, p.1)
        };
        merge_into(m2, pairs.drop_first())
    }
}

/// The contents of a model file's texture list.
pub open spec fn pair_views(v: Seq<(String, String)>) -> Seq<(Seq<char>, Seq<char>)> {
    v.map_values(|p: (String, String)| (p.0@, p.1@))
}

/// The resolution of a model along its parent chain, one model file at a
/// time: the caller loads the model `next_load` names and feeds it in,
/// until `next_load` names none.
pub struct ModelResolution<E> {
    texture_map: StringHashMap<String>,
    keys: Vec<String>,
    elements: Option<Vec<E>>,
    current_id: String,
    loads: u32,
    done: bool,
}

/// A model with its texture variables resolved.
pub struct ResolvedModel<E> {
    pub textures: StringHashMap<String>,
    pub elements: Vec<E>,
}

impl<E> ModelResolution<E> {
    /// The texture variables gathered so far.
    pub closed spec fn merged(&self) -> Map<Seq<char>, Seq<char>> {
        text_map(self.texture_map@)
    }

    /// The elements found so far: those of the first model that has any.
    pub closed spec fn found_elements(&self) -> Option<Seq<E>> {
        match self.elements {
            Some(v) => Some(v@),
            None => None,
        }
    }

    /// The model to be read next.
    pub closed spec fn current(&self) -> Seq<char> {
        self.current_id@
    }

    /// How many model files were fed in.
    pub closed spec fn loaded(&self) -> nat {
        self.loads as nat
    }

    /// Whether the chain has ended.
    pub closed spec fn finished(&self) -> bool {
        self.done
    }

    /// The gathered variables are listed once each, and the chain is not
    /// longer than `MAX_MODEL_CHAIN`.
    pub closed spec fn wf(&self) -> bool {
        &&& self.loads <= MAX_MODEL_CHAIN
        &&& !self.done ==> self.loads < MAX_MODEL_CHAIN
        &&& forall|i: int, j: int| 0 <= i < j < self.keys@.len() ==> self.keys@[i]@ != self.keys@[j]@
        &&& forall|k: Seq<char>| #[trigger] self.texture_map@.contains_key(k) <==> exists|i: int| 0 <= i < self.keys@.len() && self.keys@[i]@ == k
    }

    /// Starts resolving a model.
    pub fn start(model_id: &str) -> (r: Self)
        ensures
            r.wf(),
            r.merged() == Map::<Seq<char>, Seq<char>>::empty(),
            r.found_elements() is None,
            r.current() == model_id@,
            r.loaded() == 0,
            !r.finished(),
    {
        let r = ModelResolution {
            texture_map: StringHashMap::new(),
            keys: Vec::new(),
            elements: None,
            current_id: String::from_str(model_id),
            loads: 0,
            done: false,
        };
        assert(text_map(r.texture_map@) =~= Map::<Seq<char>, Seq<char>>::empty());
        r
    }

    /// The model to load next, or `None` once the chain has ended.
    pub fn next_load(&self) -> (r: Option<String>)
        ensures
            self.finished() ==> r is None,
            !self.finished() ==> r is Some && r->0@ == self.current(),
    {
        if self.done {
            None
        } else {
            Some(self.current_id.clone())
        }
    }

    /// Feeds in the model that `next_load` named, or `None` when it could not
    /// be loaded, which ends the chain. A loaded model adds its texture
    /// variables, gives its elements if none were found yet, and names its
    /// parent as the next model; the chain ends at a model without a parent
    /// or after `MAX_MODEL_CHAIN` models.
    pub fn feed(&mut self, loaded: Option<ModelFile<E>>)
        requires
            old(self).wf(),
            !old(self).finished(),
        ensures
            final(self).wf(),
            loaded is None ==> final(self).finished() && final(self).merged() == old(self).merged()
                && final(self).found_elements() == old(self).found_elements()
                && final(self).loaded() == old(self).loaded(),
            loaded matches Some(m) ==> {
                &&& final(self).merged() == merge_into(old(self).merged(), pair_views(m.textures@))
                &&& final(self).found_elements() == if old(self).found_elements() is None && m.elements@.len() > 0 {
                    Some(m.elements@)
                } else {
                    old(self).found_elements()
                }
                &&& final(self).loaded() == old(self).loaded() + 1
                &&& final(self).finished() == (m.parent is None || final(self).loaded() >= MAX_MODEL_CHAIN)
                &&& !final(self).finished() ==> final(self).current() == m.parent->0@
            },
    {
        match loaded {
            None => {
                self.done = true;
                assert(self.texture_map@ == old(self).texture_map@ && self.keys@ == old(self).keys@);
                assert(self.wf());
            },
            Some(m) => {
                let ghost pairs = pair_views(m.textures@);
                assert(pairs.skip(0) =~= pairs);
                let mut i: usize = 0;
                while i < m.textures.len()
                    invariant
                        i <= m.textures@.len(),
                        pairs == pair_views(m.textures@),
                        merge_into(old(self).merged(), pairs) == merge_into(text_map(self.texture_map@), pairs.skip(i as int)),
                        forall|a: int, b: int| 0 <= a < b < self.keys@.len() ==> self.keys@[a]@ != self.keys@[b]@,
                        forall|k: Seq<char>| #[trigger] self.texture_map@.contains_key(k) <==> exists|a: int| 0 <= a < self.keys@.len() && self.keys@[a]@ == k,
                        self.loads == old(self).loads,
                        self.elements == old(self).elements,
                        self.done == old(self).done,
                        self.current_id == old(self).current_id,
                    decreases m.textures.len() - i,
                {
                    let (k, v) = &m.textures[i];
                    let ghost before = text_map(self.texture_map@);
                    proof {
                        assert(pairs.skip(i as int)[0] == (k@, v@));
                        assert(pairs.skip(i as int).drop_first() =~= pairs.skip(i + 1));
                    }
                    if !self.texture_map.contains_key(k.as_str()) {
                        let ghost old_keys = self.keys@;
                        self.texture_map.insert(k.clone(), v.clone());
                        self.keys.push(k.clone());
                        assert(text_map(self.texture_map@) =~= before.insert(k@, v@));
                        assert forall|kk: Seq<char>| #[trigger] self.texture_map@.contains_key(kk) <==> exists|a: int| 0 <= a < self.keys@.len() && self.keys@[a]@ == kk by {
                            if kk == k@ {
                                assert(self.keys@[old_keys.len() as int]@ == kk);
                            }
                            if kk != k@ && self.texture_map@.contains_key(kk) {
                                let a = choose|a: int| 0 <= a < old_keys.len() && old_keys[a]@ == kk;
                                assert(self.keys@[a] == old_keys[a]);
                            }
                            if exists|a: int| 0 <= a < self.keys@.len() && self.keys@[a]@ == kk {
                                let a = choose|a: int| 0 <= a < self.keys@.len() && self.keys@[a]@ == kk;
                                if a < old_keys.len() {
                                    assert(self.keys@[a] == old_keys[a]);
                                }
                            }
                        }
                        assert forall|a: int, b: int| 0 <= a < b < self.keys@.len() implies self.keys@[a]@ != self.keys@[b]@ by {
                            if b == old_keys.len() {
                                assert(self.keys@[a] == old_keys[a]);
                                assert(before.contains_key(old_keys[a]@));
                            } else {
                                assert(self.keys@[a] == old_keys[a] && self.keys@[b] == old_keys[b]);
                            }
                        }
                    } else {
                        assert(before.contains_key(k@));
                    }
                    i = i + 1;
                }
                proof {
                    assert(pairs.skip(m.textures@.len() as int) =~= Seq::<(Seq<char>, Seq<char>)>::empty());
                }
                if self.elements.is_none() && m.elements.len() > 0 {
                    self.elements = Some(m.elements);
                }
                self.loads = self.loads + 1;
                match m.parent {
                    Some(p) => {
                        if self.loads < MAX_MODEL_CHAIN {
                            self.current_id = p;
                        } else {
                            self.done = true;
                        }
                    },
                    None => {
                        self.done = true;
                    },
                }
                assert(self.wf());
            },
        }
    }

    /// The resolved model: each gathered texture variable resolved against
    /// the others, and the elements found (none when no model had any).
    pub fn finish(self) -> (r: ResolvedModel<E>)
        requires
            self.wf(),
        ensures
            text_map(r.textures@) == Map::new(
                |k: Seq<char>| self.merged().contains_key(k),
                |k: Seq<char>| resolved_ref(self.merged()[k], self.merged(), 0),
            ),
            r.elements@ == match self.found_elements() {
                Some(e) => e,
                None => Seq::<E>::empty(),
            },
    {
        let ghost merged = self.merged();
        let mut out: StringHashMap<String> = StringHashMap::new();
        assert(text_map(out@) =~= Map::new(
            |k: Seq<char>| exists|a: int| 0 <= a < 0 && self.keys@[a]@ == k,
            |k: Seq<char>| resolved_ref(merged[k], merged, 0),
        ));
        let mut i: usize = 0;
        while i < self.keys.len()
            invariant
                i <= self.keys@.len(),
                merged == text_map(self.texture_map@),
                forall|a: int, b: int| 0 <= a < b < self.keys@.len() ==> self.keys@[a]@ != self.keys@[b]@,
                forall|k: Seq<char>| #[trigger] self.texture_map@.contains_key(k) <==> exists|a: int| 0 <= a < self.keys@.len() && self.keys@[a]@ == k,
                text_map(out@) == Map::new(
                    |k: Seq<char>| exists|a: int| 0 <= a < i && self.keys@[a]@ == k,
                    |k: Seq<char>| resolved_ref(merged[k], merged, 0),
                ),
            decreases self.keys.len() - i,
        {
            let key = &self.keys[i];
            assert(self.texture_map@.contains_key(key@));
            let value = match self.texture_map.get(key.as_str()) {
                Some(v) => v,
                None => {
                    assert(false);
                    return ResolvedModel { textures: out, elements: Vec::new() };
                },
            };
            assert(merged[key@] == value@);
            let resolved = resolve_ref(value.as_str(), &self.texture_map, 0);
            let ghost before = text_map(out@);
            let ghost rv = resolved@;
            out.insert(key.clone(), resolved);
            assert(text_map(out@) =~= before.insert(key@, rv));
            assert forall|k: Seq<char>| #[trigger] text_map(out@).contains_key(k)
                <==> (exists|a: int| 0 <= a < i + 1 && self.keys@[a]@ == k) by {
                if exists|a: int| 0 <= a < i + 1 && self.keys@[a]@ == k {
                    let a = choose|a: int| 0 <= a < i + 1 && self.keys@[a]@ == k;
                    if a < i {
                        assert(before.contains_key(k));
                    }
                }
                if k == key@ {
                    assert(self.keys@[i as int]@ == k);
                }
                if before.contains_key(k) {
                    let a = choose|a: int| 0 <= a < i && self.keys@[a]@ == k;
                    assert(0 <= a < i + 1 && self.keys@[a]@ == k);
                }
            }
            assert forall|k: Seq<char>| #[trigger] text_map(out@).contains_key(k)
                implies text_map(out@)[k] == resolved_ref(merged[k], merged, 0) by {
                if k != key@ {
                    assert(before.contains_key(k));
                }
            }
            assert(text_map(out@) =~= Map::new(
                |k: Seq<char>| exists|a: int| 0 <= a < i + 1 && self.keys@[a]@ == k,
                |k: Seq<char>| resolved_ref(merged[k], merged, 0),
            ));
            i = i + 1;
        }
        assert(text_map(out@) =~= Map::new(
            |k: Seq<char>| merged.contains_key(k),
            |k: Seq<char>| resolved_ref(merged[k], merged, 0),
        ));
        let elements = match self.elements {
            Some(e) => e,
            None => Vec::new(),
        };
        ResolvedModel { textures: out, elements }
    }
}

/// A texture variable set by a model nearer the start of the chain is never
/// overridden by a parent, and every variable a parent sets is present after it.
pub proof fn law_merge_first_wins(m: Map<Seq<char>, Seq<char>>, pairs: Seq<(Seq<char>, Seq<char>)>, k: Seq<char>)
    ensures
        m.contains_key(k) ==> merge_into(m, pairs).contains_key(k) && merge_into(m, pairs)[k] == m[k],
        (exists|i: int| 0 <= i < pairs.len() && pairs[i].0 == k) ==> merge_into(m, pairs).contains_key(k),
    decreases pairs.len(),
{
    if pairs.len() > 0 {
        let p = pairs[0];
        let m2 = if m.contains_key(p.0) {
            m
        } else {
            m.insert(p.0, p.1)
        };
        law_merge_first_wins(m2, pairs.drop_first(), k);
        if exists|i: int| 0 <= i < pairs.len() && pairs[i].0 == k {
            let i = choose|i: int| 0 <= i < pairs.len() && pairs[i].0 == k;
            if i > 0 {
                assert(pairs.drop_first()[i - 1].0 == k);
            }
        }
    }
}

} // verus!
