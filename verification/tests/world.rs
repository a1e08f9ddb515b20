use pomc::hud::{gui_scale, max_gui_scale};
use pomc::interaction::{mark_dirty, Predictions, SwingState, SWING_DURATION};
use pomc::light::{column_key, div16, rem16, ChunkLightData, LightStore};
use pomc::mesher::{
    choose_emitter, classify_block, drawn_quads, greedy_eligible, quad_index_list, scan_entry, voxel_index, BlockKind,
    BlockTypeMap, Emitter, PADDED_VOXELS,
};
use pomc::model::{
    build_face_textures, check_full_cube, determine_tint, extract_default_model_ref,
    load_all_block_textures, model_id_to_asset_key, parse_when_condition, resolve_ref,
    rotate_corners, texture_to_name, uv_rotation_steps, BlockstateFile, Direction, FaceTextures,
    ModelFile, ModelRef, ModelResolution, MultipartApply, MultipartCase, StringHashMap, Tint,
    VariantEntry, WhenValue,
};
use pomc::net::chunk_lod;

fn section(fill: u8) -> Option<Box<[u8; 2048]>> {
    Some(Box::new([fill; 2048]))
}

#[test]
fn nibbles_of_a_section() {
    let mut data = [0u8; 2048];
    data[0] = 0xAB;
    let light = ChunkLightData {
        sky_sections: vec![None, Some(Box::new(data)), None],
        block_sections: vec![None, section(0x21), None],
        min_y: 0,
    };
    assert_eq!(light.get_sky_light(0, 0, 0), 0x0B);
    assert_eq!(light.get_sky_light(1, 0, 0), 0x0A);
    assert_eq!(light.get_sky_light(2, 0, 0), 0);
    assert_eq!(light.get_block_light(0, 5, 3), 1);
    assert_eq!(light.get_block_light(1, 5, 3), 2);
    // no data for the section below, and nothing beyond the list
    assert_eq!(light.get_sky_light(0, -1, 0), 15);
    assert_eq!(light.get_sky_light(0, 40, 0), 15);
    assert_eq!(light.get_sky_light(0, -100, 0), 15);
}

#[test]
fn light_never_exceeds_15() {
    let light = ChunkLightData { sky_sections: vec![section(0xFF)], block_sections: vec![], min_y: 16 };
    for x in 0..16 {
        assert!(light.get_sky_light(x, 3, 7) <= 15);
        assert!(light.get_block_light(x, 3, 7) <= 15);
    }
}

#[test]
fn read_after_store() {
    let mut store = LightStore::new();
    let mut sky = vec![0u8; 2048];
    sky[0] = 0x7C;
    let sky_updates = vec![sky];
    let block_updates = vec![vec![0x35u8; 2048], vec![1u8; 10]];
    let sky_mask = vec![false, true];
    let block_mask = vec![true, false, true];
    store.store_light(1, -1, &sky_updates, &block_updates, &sky_mask, &block_mask, 16, 0);
    // block (16, 0, -16) lies in column (1, -1), section 1
    assert_eq!(store.get_sky_light(16, 0, -16), 0x0C);
    assert_eq!(store.get_sky_light(17, 0, -16), 0x07);
    // the block update for section 0 fills y in -16..0
    assert_eq!(store.get_block_light(16, -5, -16), 5);
    assert_eq!(store.get_block_light(17, -5, -16), 3);
    // a wrongly sized array leaves its section without data
    assert_eq!(store.get_block_light(16, 20, -16), 15);
    // other columns have the defaults
    assert_eq!(store.get_sky_light(0, 0, 0), 15);
    assert_eq!(store.get_block_light(0, 0, 0), 0);
    store.unload(1, -1);
    assert_eq!(store.get_sky_light(16, 0, -16), 15);
    assert!(store.column_at(16, -16).is_none());
}

#[test]
fn column_keys_are_distinct() {
    assert_ne!(column_key(0, 1), column_key(1, 0));
    assert_ne!(column_key(-1, 0), column_key(0, -1));
    assert_eq!(column_key(3, 4), column_key(3, 4));
    assert_eq!(div16(-1), -1);
    assert_eq!(div16(16), 1);
    assert_eq!(rem16(-1), 15);
    assert_eq!(rem16(33), 1);
}

#[test]
fn direction_basics() {
    assert_eq!(Direction::Up.offset(), [0, 1, 0]);
    assert_eq!(Direction::West.offset(), [-1, 0, 0]);
    assert_eq!(Direction::from_str("north"), Some(Direction::North));
    assert_eq!(Direction::from_str("sideways"), None);
}

#[test]
fn direction_rotations() {
    assert_eq!(Direction::North.rotate_y(90), Direction::East);
    assert_eq!(Direction::North.rotate_y(180), Direction::South);
    assert_eq!(Direction::North.rotate_y(-90), Direction::West);
    assert_eq!(Direction::Up.rotate_y(90), Direction::Up);
    assert_eq!(Direction::North.rotate_x(90), Direction::Down);
    assert_eq!(Direction::Up.rotate_x(270), Direction::South);
    assert_eq!(Direction::East.rotate_x(90), Direction::East);
    // four quarter turns bring a direction back
    for d in [Direction::North, Direction::Up, Direction::West] {
        assert_eq!(d.rotate_y(360), d);
        assert_eq!(d.rotate_y(90).rotate_y(90).rotate_y(90).rotate_y(90), d);
        assert_eq!(d.rotate_y(90).rotate_y(180), d.rotate_y(270));
    }
}

#[test]
fn model_keys_and_texture_names() {
    assert_eq!(model_id_to_asset_key("minecraft:block/stone"), "minecraft/models/block/stone.json");
    assert_eq!(model_id_to_asset_key("block/dirt"), "minecraft/models/block/dirt.json");
    assert_eq!(texture_to_name("minecraft:block/stone"), Some("stone"));
    assert_eq!(texture_to_name("block/dirt"), Some("dirt"));
    assert_eq!(texture_to_name("#side"), None);
    assert_eq!(texture_to_name("item/apple"), None);
}

fn vars(pairs: &[(&str, &str)]) -> StringHashMap<String> {
    let mut m = StringHashMap::new();
    for (k, v) in pairs {
        m.insert(k.to_string(), v.to_string());
    }
    m
}

#[test]
fn texture_references_resolve() {
    let m = vars(&[("all", "#side"), ("side", "block/stone"), ("loop", "#loop")]);
    assert_eq!(resolve_ref("#all", &m, 0), "block/stone");
    assert_eq!(resolve_ref("#missing", &m, 0), "#missing");
    assert_eq!(resolve_ref("block/dirt", &m, 0), "block/dirt");
    assert_eq!(resolve_ref("#loop", &m, 0), "#loop");
}

#[test]
fn tints() {
    assert_eq!(determine_tint("grass_block"), Tint::Grass);
    assert_eq!(determine_tint("birch_leaves"), Tint::Foliage);
    assert_eq!(determine_tint("vine"), Tint::Foliage);
    assert_eq!(determine_tint("stone"), Tint::NoTint);
}

#[test]
fn face_textures_from_variables() {
    let all = build_face_textures("stone", &vars(&[("all", "minecraft:block/stone")])).unwrap();
    assert_eq!(all.top, "stone");
    assert_eq!(all.west, "stone");
    assert_eq!(all.tint, Tint::NoTint);

    let log = build_face_textures(
        "oak_log",
        &vars(&[("end", "block/oak_log_top"), ("side", "block/oak_log")]),
    )
    .unwrap();
    assert_eq!(log.top, "oak_log_top");
    assert_eq!(log.bottom, "oak_log_top");
    assert_eq!(log.north, "oak_log");

    let grass = build_face_textures(
        "grass_block",
        &vars(&[
            ("up", "block/grass_block_top"),
            ("down", "block/dirt"),
            ("north", "block/grass_block_side"),
            ("south", "block/grass_block_side"),
            ("east", "block/grass_block_side"),
            ("west", "block/grass_block_side"),
        ]),
    )
    .unwrap();
    assert_eq!(grass.side_overlay.as_deref(), Some("grass_block_side_overlay"));
    assert_eq!(grass.tint, Tint::Grass);

    let pillar = build_face_textures(
        "pillar",
        &vars(&[("front", "block/pillar_front"), ("side", "block/pillar_side"), ("top", "block/pillar_top")]),
    )
    .unwrap();
    assert_eq!(pillar.north, "pillar_side");
    assert_eq!(pillar.top, "pillar_top");
    assert_eq!(pillar.bottom, "pillar_top");

    let furnace = build_face_textures(
        "furnace",
        &vars(&[("front", "block/furnace_front"), ("side", "block/furnace_side")]),
    )
    .unwrap();
    assert_eq!(furnace.north, "furnace_front");
    assert_eq!(furnace.south, "furnace_side");
    assert_eq!(furnace.top, "furnace_side");
    assert_eq!(furnace.bottom, "furnace_side");

    assert!(build_face_textures("air", &vars(&[("foo", "block/bar")])).is_none());
    assert!(build_face_textures("x", &vars(&[("all", "#unresolved")])).is_none());
}

fn with_model(model: &str) -> BlockstateFile {
    BlockstateFile { variants: Some(vec![("".to_string(), VariantEntry::Single(mref(model)))]), multipart: None }
}

#[test]
fn all_block_textures_table() {
    let blocks = vec![
        ("stone".to_string(), with_model("block/stone"), vars(&[("all", "block/stone")])),
        ("air".to_string(), with_model("block/air"), vars(&[])),
        ("stone".to_string(), with_model("block/smooth_stone"), vars(&[("all", "block/smooth_stone")])),
        ("fern".to_string(), with_model("block/fern"), vars(&[("cross", "block/fern")])),
        (
            "light".to_string(),
            BlockstateFile { variants: Some(vec![]), multipart: None },
            vars(&[("all", "block/light")]),
        ),
        ("void".to_string(), BlockstateFile { variants: None, multipart: None }, vars(&[("all", "block/void")])),
    ];
    let table = load_all_block_textures(&blocks);
    assert_eq!(table.get("stone").unwrap().top, "smooth_stone");
    assert!(table.get("air").is_none());
    assert_eq!(table.get("fern").unwrap().tint, Tint::Grass);
    // a block whose blockstate names no default model gets no textures
    assert!(table.get("light").is_none());
    assert!(table.get("void").is_none());
    assert_eq!(table.len(), 2);
}

#[test]
fn full_cube_check() {
    let all = [
        Some(Direction::Down),
        Some(Direction::Up),
        Some(Direction::North),
        Some(Direction::South),
        Some(Direction::West),
        Some(Direction::East),
    ];
    assert!(check_full_cube(&all));
    let mut missing_one = all;
    missing_one[5] = Some(Direction::West);
    assert!(!check_full_cube(&missing_one));
    let mut unculled = all;
    unculled[0] = None;
    assert!(!check_full_cube(&unculled));
    assert!(!check_full_cube(&all[..5]));
}

#[test]
fn uv_rotation() {
    assert_eq!(uv_rotation_steps(0), 0);
    assert_eq!(uv_rotation_steps(90), 1);
    assert_eq!(uv_rotation_steps(270), 3);
    assert_eq!(uv_rotation_steps(-90), 3);
    assert_eq!(uv_rotation_steps(450), 1);
    assert_eq!(rotate_corners([1, 2, 3, 4], 1), [4, 1, 2, 3]);
    assert_eq!(rotate_corners([1, 2, 3, 4], 2), [3, 4, 1, 2]);
    assert_eq!(rotate_corners([1, 2, 3, 4], 0), [1, 2, 3, 4]);
}

fn mref(model: &str) -> ModelRef {
    ModelRef { model: model.to_string(), x: 0, y: 90, uvlock: false }
}

#[test]
fn default_model_of_blockstates() {
    let variants = BlockstateFile {
        variants: Some(vec![
            ("facing=north".to_string(), VariantEntry::Single(mref("block/a"))),
            ("".to_string(), VariantEntry::Array(vec![mref("block/b"), mref("block/c")])),
        ]),
        multipart: None,
    };
    let r = extract_default_model_ref(&variants).unwrap();
    assert_eq!(r.model, "block/b");
    assert_eq!(r.y, 90);

    let first = BlockstateFile {
        variants: Some(vec![("facing=north".to_string(), VariantEntry::Single(mref("block/a")))]),
        multipart: None,
    };
    assert_eq!(extract_default_model_ref(&first).unwrap().model, "block/a");

    let multipart = BlockstateFile {
        variants: None,
        multipart: Some(vec![MultipartCase { apply: MultipartApply::Single(mref("block/post")), when: None }]),
    };
    assert_eq!(extract_default_model_ref(&multipart).unwrap().model, "block/post");

    let empty = BlockstateFile { variants: None, multipart: None };
    assert!(extract_default_model_ref(&empty).is_none());
}

#[test]
fn when_conditions() {
    let when = Some(vec![
        ("north".to_string(), WhenValue::Text("side".to_string())),
        ("up".to_string(), WhenValue::Flag(true)),
        ("OR".to_string(), WhenValue::Other),
    ]);
    let m = parse_when_condition(&when);
    assert_eq!(m.get("north").map(|s| s.as_str()), Some("side"));
    assert_eq!(m.get("up").map(|s| s.as_str()), Some("true"));
    assert!(m.get("OR").is_none());
    assert!(parse_when_condition(&None).get("north").is_none());
}

fn model_file(parent: Option<&str>, textures: &[(&str, &str)], elements: Vec<u32>) -> ModelFile<u32> {
    ModelFile {
        parent: parent.map(|p| p.to_string()),
        textures: textures.iter().map(|(k, v)| (k.to_string(), v.to_string())).collect(),
        elements,
    }
}

#[test]
fn model_chain_resolution() {
    let mut files = std::collections::HashMap::new();
    files.insert("block/stone".to_string(), model_file(Some("block/cube_all"), &[("all", "block/stone")], vec![]));
    files.insert(
        "block/cube_all".to_string(),
        model_file(Some("block/cube"), &[("particle", "#all"), ("all", "block/ignored")], vec![]),
    );
    files.insert("block/cube".to_string(), model_file(None, &[], vec![1, 2, 3]));
    let mut res: ModelResolution<u32> = ModelResolution::start("block/stone");
    let mut loads = Vec::new();
    while let Some(id) = res.next_load() {
        loads.push(id.clone());
        let loaded = files.remove(&id);
        res.feed(loaded);
    }
    assert_eq!(loads, vec!["block/stone", "block/cube_all", "block/cube"]);
    let resolved = res.finish();
    assert_eq!(resolved.textures.get("all").map(|s| s.as_str()), Some("block/stone"));
    assert_eq!(resolved.textures.get("particle").map(|s| s.as_str()), Some("block/stone"));
    assert_eq!(resolved.elements, vec![1, 2, 3]);
}

#[test]
fn model_chain_stops_at_missing_file() {
    let mut res: ModelResolution<u32> = ModelResolution::start("block/nowhere");
    assert_eq!(res.next_load().as_deref(), Some("block/nowhere"));
    res.feed(None);
    assert!(res.next_load().is_none());
    let resolved = res.finish();
    assert!(resolved.elements.is_empty());
    assert!(resolved.textures.get("all").is_none());
}

#[test]
fn model_chain_is_bounded() {
    let mut res: ModelResolution<u32> = ModelResolution::start("block/a");
    let mut n = 0;
    while res.next_load().is_some() {
        res.feed(Some(model_file(Some("block/a"), &[], vec![])));
        n += 1;
    }
    assert_eq!(n, 20);
}

#[test]
fn block_kinds() {
    assert_eq!(classify_block(true, "air"), BlockKind::Air);
    assert_eq!(classify_block(false, "cave_air"), BlockKind::Air);
    assert_eq!(classify_block(false, "barrier"), BlockKind::Air);
    assert_eq!(classify_block(false, "water"), BlockKind::Water);
    assert_eq!(classify_block(false, "bubble_column"), BlockKind::Water);
    assert_eq!(classify_block(false, "lava"), BlockKind::Lava);
    assert_eq!(classify_block(false, "stone"), BlockKind::Solid);
}

#[test]
fn block_type_numbering() {
    let stone = FaceTextures::uniform("stone", Tint::NoTint);
    let dirt = FaceTextures::uniform("dirt", Tint::NoTint);
    let scan = vec![
        (0u16, None),
        (5u16, Some(stone.clone())),
        (9u16, None),
        (5u16, Some(dirt.clone())),
        (7u16, Some(dirt.clone())),
        (9u16, Some(stone.clone())),
    ];
    let map = BlockTypeMap::build(&scan);
    assert_eq!(map.get_id(0), 0);
    assert_eq!(map.get_id(5), 1);
    assert_eq!(map.get_id(9), 0);
    assert_eq!(map.get_id(7), 2);
    assert_eq!(map.get_id(42), 0);
    assert_eq!(map.get_info(1).unwrap().textures.top, "stone");
    assert_eq!(map.get_info(2).unwrap().textures.top, "dirt");
    assert!(map.get_info(0).is_none());
    assert!(map.get_info(3).is_none());
}

#[test]
fn swing_timer() {
    let mut s = SwingState::new();
    assert!(!s.is_swinging());
    s.swing();
    assert!(s.is_swinging());
    assert_eq!(s.swing_ticks(), -1);
    let mut ticks = 0;
    while s.is_swinging() {
        s.update_swing();
        ticks += 1;
    }
    assert_eq!(ticks, SWING_DURATION + 1);
    assert_eq!(s.swing_ticks(), 0);
}

#[test]
fn swing_restarts_only_after_half_way() {
    let mut s = SwingState::new();
    s.swing();
    s.update_swing();
    s.update_swing();
    assert_eq!(s.swing_ticks(), 1);
    s.swing();
    assert_eq!(s.swing_ticks(), 1);
    s.update_swing();
    s.update_swing();
    assert_eq!(s.swing_ticks(), 3);
    s.swing();
    assert_eq!(s.swing_ticks(), -1);
}

#[test]
fn dirty_chunks_of_a_block_change() {
    let mut dirty = Vec::new();
    mark_dirty(5, 5, &mut dirty);
    assert_eq!(dirty, vec![(0, 0)]);

    let mut dirty = Vec::new();
    mark_dirty(0, 15, &mut dirty);
    assert_eq!(dirty, vec![(0, 0), (-1, 0), (0, 1)]);

    let mut dirty = vec![(-1, -1)];
    mark_dirty(-16, -1, &mut dirty);
    assert_eq!(dirty, vec![(-1, -1), (-2, -1), (-1, 0)]);

    // nothing is listed twice
    mark_dirty(-16, -1, &mut dirty);
    assert_eq!(dirty.len(), 3);
}

#[test]
fn interface_scale() {
    assert_eq!(max_gui_scale(1920, 1080), 4);
    assert_eq!(max_gui_scale(854, 480), 2);
    assert_eq!(max_gui_scale(300, 200), 1);
    assert_eq!(max_gui_scale(640, 479), 1);
    assert_eq!(gui_scale(1920, 1080, 0), 4);
    assert_eq!(gui_scale(1920, 1080, 2), 2);
    assert_eq!(gui_scale(1920, 1080, 9), 4);
    assert_eq!(gui_scale(100, 100, 3), 1);
}

#[test]
fn level_of_detail() {
    assert_eq!(chunk_lod(0, 0, 0, 0), 0);
    assert_eq!(chunk_lod(8, -8, 0, 0), 0);
    assert_eq!(chunk_lod(9, 0, 0, 0), 1);
    assert_eq!(chunk_lod(0, -16, 0, 0), 1);
    assert_eq!(chunk_lod(3, 20, 3, 3), 2);
}

#[test]
fn larger_windows_never_shrink_the_interface() {
    let sizes = [(320u32, 240u32), (800, 600), (1280, 720), (1920, 1080), (3840, 2160)];
    for w in sizes.windows(2) {
        assert!(max_gui_scale(w[0].0, w[0].1) <= max_gui_scale(w[1].0, w[1].1));
    }
}

#[test]
fn farther_chunks_never_get_more_detail() {
    let mut last = 0;
    for d in 0..40 {
        let lod = chunk_lod(d, 0, 0, 0);
        assert!(lod >= last);
        last = lod;
    }
}

#[test]
fn block_drawing_choice() {
    assert_eq!(choose_emitter(BlockKind::Air, 0, 0, true, true, true), Emitter::Skip);
    assert_eq!(choose_emitter(BlockKind::Solid, 0, 3, true, false, true), Emitter::Skip);
    assert_eq!(choose_emitter(BlockKind::Solid, 1, 3, false, false, false), Emitter::LodCube);
    assert_eq!(choose_emitter(BlockKind::Lava, 0, 0, true, false, false), Emitter::Fluid { lava: true });
    assert_eq!(choose_emitter(BlockKind::Water, 0, 0, false, false, false), Emitter::Fluid { lava: false });
    assert_eq!(choose_emitter(BlockKind::Solid, 0, 0, true, true, true), Emitter::BakedModel);
    assert_eq!(choose_emitter(BlockKind::Solid, 0, 0, false, true, true), Emitter::Multipart);
    assert_eq!(choose_emitter(BlockKind::Solid, 0, 0, false, false, true), Emitter::CubeFaces);
    assert_eq!(choose_emitter(BlockKind::Solid, 0, 0, false, false, false), Emitter::MissingCube);
    assert_eq!(voxel_index(0, 0, 0), 0);
    assert_eq!(voxel_index(1, 0, 0), 18);
    assert_eq!(voxel_index(0, 1, 0), 324);
    assert_eq!(voxel_index(17, 17, 17), 5831);
}

#[test]
fn predicted_block_changes() {
    let mut p = Predictions::new();
    assert!(!p.has_pending_prediction((1, 2, 3)));
    p.predict((1, 2, 3), 5);
    p.predict((4, 5, 6), 6);
    p.predict((1, 2, 3), 7);
    assert!(p.has_pending_prediction((1, 2, 3)));
    p.acknowledge(6);
    assert!(p.has_pending_prediction((1, 2, 3)));
    assert!(!p.has_pending_prediction((4, 5, 6)));
    p.acknowledge(7);
    assert!(!p.has_pending_prediction((1, 2, 3)));
}

#[test]
fn greedy_merging_needs_a_plain_opaque_cube() {
    assert!(greedy_eligible(false, false, true, false, true));
    assert!(!greedy_eligible(true, false, true, false, true));
    assert!(!greedy_eligible(false, true, true, false, true));
    assert!(!greedy_eligible(false, false, false, false, true));
    assert!(!greedy_eligible(false, false, true, true, true));
    assert!(!greedy_eligible(false, false, true, false, false));

    let stone = FaceTextures::uniform("stone", Tint::NoTint);
    let (state, merged) = scan_entry(7, false, false, Some(stone), true);
    assert_eq!(state, 7);
    assert_eq!(merged.unwrap().top, "stone");
    let mut grass = FaceTextures::uniform("grass_block_side", Tint::Grass);
    grass.side_overlay = Some("grass_block_side_overlay".to_string());
    assert!(scan_entry(8, false, false, Some(grass), true).1.is_none());
    let glass = FaceTextures::uniform("glass", Tint::NoTint);
    assert!(scan_entry(9, false, false, Some(glass), false).1.is_none());
    assert!(scan_entry(10, false, false, None, true).1.is_none());
}

#[test]
fn a_lone_block_is_meshed_as_six_quads() {
    let map = BlockTypeMap::build(&vec![(5, Some(FaceTextures::uniform("stone", Tint::NoTint)))]);
    let mut states = vec![0u16; PADDED_VOXELS];
    states[voxel_index(9, 9, 9)] = 5;
    let (quads, indices) = map.mesh_section(&states, 40).unwrap();
    assert_eq!(quads.len(), 6);
    let mut faces: Vec<u8> = quads.iter().map(|q| q.0).collect();
    faces.sort();
    assert_eq!(faces, vec![0, 1, 2, 3, 4, 5]);
    assert!(quads.iter().all(|q| q.1 >> 32 == 1));
    assert_eq!(indices.len(), 36);
    assert_eq!(indices[..6], [40, 41, 42, 41, 43, 42]);
    assert_eq!(indices[30..], [60, 61, 62, 61, 63, 62]);
    // a state that is not merged is not meshed here, and nothing fits past the end of u32
    let mut other = vec![0u16; PADDED_VOXELS];
    other[voxel_index(3, 4, 5)] = 7;
    assert_eq!(map.mesh_section(&other, 0).unwrap().0.len(), 0);
    assert!(map.mesh_section(&states, u32::MAX - 20).is_none());
}

#[test]
fn drawn_quads_and_their_indices() {
    let q = |v: u64, x: u64| (v << 32) | x;
    let quads = vec![vec![q(1, 0), q(0, 1)], vec![], vec![q(3, 2), q(2, 3)]];
    assert_eq!(drawn_quads(&quads, 2), vec![(0, q(1, 0)), (2, q(2, 3))]);
    assert_eq!(quad_index_list(4, 2), vec![4, 5, 6, 5, 7, 6, 8, 9, 10, 9, 11, 10]);
    assert!(quad_index_list(0, 0).is_empty());
}

#[test]
fn sections_of_a_column_number_their_vertices_on() {
    let map = BlockTypeMap::build(&vec![(5, Some(FaceTextures::uniform("stone", Tint::NoTint)))]);
    let mut one = vec![0u16; PADDED_VOXELS];
    one[voxel_index(9, 9, 9)] = 5;
    let empty = vec![0u16; PADDED_VOXELS];
    let (quads, indices) = map.mesh_sections(&vec![one.clone(), empty, one]).unwrap();
    assert_eq!(quads.iter().map(|q| q.len()).collect::<Vec<_>>(), vec![6, 0, 6]);
    assert_eq!(indices.len(), 72);
    assert_eq!(indices[..6], [0, 1, 2, 1, 3, 2]);
    assert_eq!(indices[36..42], [24, 25, 26, 25, 27, 26]);
    assert_eq!(*indices.iter().max().unwrap(), 47);
    assert_eq!(map.mesh_sections(&vec![]).unwrap(), (vec![], vec![]));
}
