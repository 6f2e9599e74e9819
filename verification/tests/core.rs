use rendering::block_types::{parse_block_id, BlockColor, BlockTypeManager, ConfigError, COLOR_UNIT};
use rendering::chunk::{coord_to_index, is_block_solid, is_face_visible, CHUNK_VOLUME};
use rendering::chunk_renderer::ChunkRenderer;
use rendering::exchange::{
    check_and_clear_update_flag, get_chunk_data, get_update_flag, update_chunk, BoundaryError,
    ChunkExchange,
};
use rendering::orchestrator::{
    demo_chunk, next_phase, plan_surface_recovery, poll_chunk_update, FrameAction, Phase,
    PhaseEvent, SurfaceStatus,
};
use rendering::scene::{Instance, InstanceBuffer, Material, Scene, SceneObject};

const MAGENTA: [u32; 4] = [COLOR_UNIT, 0, COLOR_UNIT, COLOR_UNIT];

fn test_registry() -> BlockTypeManager {
    let key_json = "{\"1\":\"dirt\",\"2\":\"stone\"}";
    let color_rows = vec![
        ("dirt".to_string(), vec![600u32, 400, 200]),
        ("stone".to_string(), vec![500u32, 500, 500]),
    ];
    BlockTypeManager::new(key_json, color_rows).unwrap()
}

fn empty_registry() -> BlockTypeManager {
    BlockTypeManager::new("{}", Vec::new()).unwrap()
}

#[test]
fn registry_lookups_compose_the_two_tables() {
    let registry = test_registry();
    assert_eq!(registry.get_name(1), Some("dirt"));
    assert_eq!(registry.get_name(2), Some("stone"));
    assert_eq!(registry.get_name(3), None);
    assert_eq!(registry.get_color(1), Some([600, 400, 200, COLOR_UNIT]));
    assert_eq!(registry.get_color(2), Some([500, 500, 500, COLOR_UNIT]));
    assert_eq!(registry.get_color(3), None);
    assert_eq!(registry.display_name(2), "stone".to_string());
    assert_eq!(registry.display_name(9), "unknown".to_string());
}

#[test]
fn resolve_color_falls_back_to_magenta() {
    let registry = test_registry();
    assert_eq!(registry.resolve_color(1), [600, 400, 200, COLOR_UNIT]);
    // absent id: magenta, never a failure
    assert_eq!(registry.resolve_color(7), MAGENTA);
    // known id whose color is missing from the color table: magenta too
    let key_json = "{\"4\":\"glass\"}";
    let partial = BlockTypeManager::new(key_json, Vec::new()).unwrap();
    assert_eq!(partial.get_name(4), Some("glass"));
    assert_eq!(partial.resolve_color(4), MAGENTA);
}

#[test]
fn registry_construction_rejects_malformed_text() {
    match BlockTypeManager::new("not json", Vec::new()) {
        Err(e) => assert_eq!(e, ConfigError::MalformedKeyTable),
        Ok(_) => panic!("malformed key text was accepted"),
    }
    // values must be strings
    assert!(BlockTypeManager::new("{\"1\": 5}", Vec::new()).is_err());
}

#[test]
fn registry_drops_non_numeric_keys() {
    let key_json = "{\"+7\":\"lava\",\"9999999999\":\"overflow\",\"abc\":\"junk\"}";
    let registry = BlockTypeManager::new(key_json, Vec::new()).unwrap();
    assert_eq!(registry.get_name(7), Some("lava"));
    assert_eq!(registry.get_name(0), None);
}

#[test]
fn registry_color_rows_default_missing_components() {
    let rows = vec![("fog".to_string(), vec![250u32])];
    let registry = BlockTypeManager::new("{\"5\":\"fog\"}", rows).unwrap();
    assert_eq!(registry.get_color(5), Some([250, COLOR_UNIT, COLOR_UNIT, COLOR_UNIT]));
}

#[test]
fn block_ids_parse_as_plain_decimals() {
    assert_eq!(parse_block_id("0"), Some(0));
    assert_eq!(parse_block_id("42"), Some(42));
    assert_eq!(parse_block_id("+7"), Some(7));
    assert_eq!(parse_block_id("007"), Some(7));
    assert_eq!(parse_block_id("4294967295"), Some(u32::MAX));
    assert_eq!(parse_block_id("4294967296"), None);
    assert_eq!(parse_block_id("99999999999999999999"), None);
    assert_eq!(parse_block_id(""), None);
    assert_eq!(parse_block_id("+"), None);
    assert_eq!(parse_block_id("12a"), None);
    assert_eq!(parse_block_id("-3"), None);
    assert_eq!(parse_block_id(" 5"), None);
}

#[test]
fn block_color_expands_to_opaque_rgba() {
    let color = BlockColor { r: 600, g: 400, b: 200 };
    assert_eq!(color.to_rgba(), [600, 400, 200, COLOR_UNIT]);
}

#[test]
fn coord_to_index_is_height_major() {
    assert_eq!(coord_to_index(0, 0, 0), 0);
    assert_eq!(coord_to_index(1, 2, 3), 2 * 1024 + 3 * 32 + 1);
    assert_eq!(coord_to_index(31, 31, 31), CHUNK_VOLUME - 1);
}

#[test]
fn solidity_respects_bounds_and_emptiness() {
    let mut chunk = vec![0u32; CHUNK_VOLUME];
    chunk[coord_to_index(3, 0, 3)] = 2;
    assert!(is_block_solid(&chunk, 3, 0, 3));
    assert!(!is_block_solid(&chunk, 4, 0, 3));
    assert!(!is_block_solid(&chunk, -1, 0, 3));
    assert!(!is_block_solid(&chunk, 3, 32, 3));
    // the face toward an out-of-bounds neighbor is exposed
    assert!(is_face_visible(&chunk, 0, 0, 0, -1, 0, 0));
}

#[test]
fn empty_chunk_produces_zero_batches() {
    let renderer = ChunkRenderer::new(test_registry());
    let chunk = vec![0u32; CHUNK_VOLUME];
    let mut scene = Scene::new();
    renderer.generate_scene(&chunk, &mut scene);
    assert_eq!(scene.objects().len(), 0);
}

#[test]
fn single_stone_cell_yields_one_single_instance_batch() {
    let renderer = ChunkRenderer::new(test_registry());
    let mut chunk = vec![0u32; CHUNK_VOLUME];
    chunk[coord_to_index(5, 0, 5)] = 2;
    let mut scene = Scene::new();
    renderer.generate_scene(&chunk, &mut scene);
    assert_eq!(scene.objects().len(), 1);
    let batch = &scene.objects()[0];
    assert_eq!(batch.block_id(), 2);
    assert_eq!(batch.material().color, [500, 500, 500, COLOR_UNIT]);
    assert_eq!(batch.material().name, "stone".to_string());
    assert_eq!(batch.instance_buffer().len(), 1);
    assert_eq!(batch.instance_buffer().instances()[0], Instance { x: 5, y: 0, z: 5 });
}

#[test]
fn adjacent_cells_of_one_type_share_a_batch() {
    let renderer = ChunkRenderer::new(test_registry());
    let mut chunk = vec![0u32; CHUNK_VOLUME];
    chunk[coord_to_index(4, 0, 4)] = 1;
    chunk[coord_to_index(5, 0, 4)] = 1;
    let mut scene = Scene::new();
    renderer.generate_scene(&chunk, &mut scene);
    assert_eq!(scene.objects().len(), 1);
    let batch = &scene.objects()[0];
    assert_eq!(batch.block_id(), 1);
    assert_eq!(batch.instance_buffer().len(), 2);
    let instances = batch.instance_buffer().instances();
    assert_eq!(instances[0], Instance { x: 4, y: 0, z: 4 });
    assert_eq!(instances[1], Instance { x: 5, y: 0, z: 4 });
}

#[test]
fn fully_enclosed_cell_is_culled() {
    let renderer = ChunkRenderer::new(test_registry());
    let mut chunk = vec![0u32; CHUNK_VOLUME];
    // a solid 3x3x3 cube away from the boundary; its center is enclosed
    for x in 4..7 {
        for y in 4..7 {
            for z in 4..7 {
                chunk[coord_to_index(x, y, z)] = 1;
            }
        }
    }
    let mut scene = Scene::new();
    renderer.generate_scene(&chunk, &mut scene);
    assert_eq!(scene.objects().len(), 1);
    let batch = &scene.objects()[0];
    assert_eq!(batch.instance_buffer().len(), 26);
    for instance in batch.instance_buffer().instances() {
        assert_ne!(*instance, Instance { x: 5, y: 5, z: 5 });
    }
}

#[test]
fn one_batch_per_type_with_magenta_for_unregistered() {
    let renderer = ChunkRenderer::new(test_registry());
    let mut chunk = vec![0u32; CHUNK_VOLUME];
    chunk[coord_to_index(0, 0, 0)] = 1;
    chunk[coord_to_index(2, 0, 0)] = 2;
    chunk[coord_to_index(4, 0, 0)] = 9;
    let mut scene = Scene::new();
    renderer.generate_scene(&chunk, &mut scene);
    assert_eq!(scene.objects().len(), 3);
    let mut seen = Vec::new();
    for batch in scene.objects() {
        assert_eq!(batch.instance_buffer().len(), 1);
        if batch.block_id() == 9 {
            assert_eq!(batch.material().color, MAGENTA);
            assert_eq!(batch.material().name, "unknown".to_string());
        }
        seen.push(batch.block_id());
    }
    seen.sort();
    assert_eq!(seen, vec![1, 2, 9]);
}

#[test]
fn submit_then_take_then_snapshot_returns_the_submitted_buffer() {
    let mut ex = ChunkExchange::new();
    let mut buffer = vec![0u32; CHUNK_VOLUME];
    buffer[coord_to_index(1, 2, 3)] = 7;
    ex.submit(buffer.clone());
    assert!(ex.take_dirty());
    assert_eq!(ex.snapshot(), buffer);
}

#[test]
fn back_to_back_submits_collapse_to_one_dirty_observation() {
    let mut ex = ChunkExchange::new();
    let first = vec![1u32; CHUNK_VOLUME];
    let mut second = vec![0u32; CHUNK_VOLUME];
    second[0] = 42;
    ex.submit(first);
    ex.submit(second.clone());
    assert!(check_and_clear_update_flag(&mut ex));
    assert!(!check_and_clear_update_flag(&mut ex));
    assert_eq!(ex.snapshot(), second);
}

#[test]
fn fresh_exchange_is_empty_and_clean() {
    let ex = ChunkExchange::new();
    assert!(!get_update_flag(&ex));
    let data = get_chunk_data(&ex);
    assert_eq!(data.len(), CHUNK_VOLUME);
    assert!(data.iter().all(|&v| v == 0));
}

#[test]
fn wrong_length_update_is_rejected_and_preserves_state() {
    let mut ex = ChunkExchange::new();
    let mut good = vec![0u32; CHUNK_VOLUME];
    good[5] = 3;
    assert_eq!(update_chunk(&mut ex, good.clone()), Ok(CHUNK_VOLUME));
    assert!(check_and_clear_update_flag(&mut ex));
    assert_eq!(
        update_chunk(&mut ex, vec![1u32; 100]),
        Err(BoundaryError::WrongLength)
    );
    assert!(!get_update_flag(&ex));
    assert_eq!(ex.snapshot(), good);
}

#[test]
fn polling_rebuilds_only_when_dirty() {
    let renderer = ChunkRenderer::new(test_registry());
    let mut ex = ChunkExchange::new();
    let mut scene = Scene::new();
    assert!(!poll_chunk_update(&renderer, &mut ex, &mut scene));
    assert_eq!(scene.objects().len(), 0);

    let mut chunk = vec![0u32; CHUNK_VOLUME];
    chunk[coord_to_index(5, 0, 5)] = 2;
    ex.submit(chunk);
    assert!(poll_chunk_update(&renderer, &mut ex, &mut scene));
    assert_eq!(scene.objects().len(), 1);
    assert_eq!(scene.objects()[0].block_id(), 2);

    // a second poll with nothing pending leaves the scene alone
    assert!(!poll_chunk_update(&renderer, &mut ex, &mut scene));
    assert_eq!(scene.objects().len(), 1);
}

#[test]
fn lost_and_outdated_surfaces_reconfigure_others_skip() {
    assert_eq!(plan_surface_recovery(SurfaceStatus::Lost), FrameAction::Reconfigure);
    assert_eq!(plan_surface_recovery(SurfaceStatus::Outdated), FrameAction::Reconfigure);
    assert_eq!(plan_surface_recovery(SurfaceStatus::Timeout), FrameAction::SkipFrame);
    assert_eq!(plan_surface_recovery(SurfaceStatus::OutOfMemory), FrameAction::SkipFrame);
    assert_eq!(plan_surface_recovery(SurfaceStatus::Other), FrameAction::SkipFrame);
}

#[test]
fn phase_machine_follows_the_render_loop() {
    let p = next_phase(Phase::Uninitialized, PhaseEvent::DeviceReady);
    assert_eq!(p, Phase::Ready);
    let p = next_phase(p, PhaseEvent::FrameBegun);
    assert_eq!(p, Phase::Rendering);
    let p = next_phase(p, PhaseEvent::SurfaceLost);
    assert_eq!(p, Phase::Recovering);
    let p = next_phase(p, PhaseEvent::SurfaceRecovered);
    assert_eq!(p, Phase::Ready);
    let p = next_phase(p, PhaseEvent::FrameBegun);
    let p = next_phase(p, PhaseEvent::FramePresented);
    assert_eq!(p, Phase::Ready);
    let p = next_phase(p, PhaseEvent::ShutdownRequested);
    assert_eq!(p, Phase::Terminated);
    // events that do not apply change nothing
    assert_eq!(next_phase(Phase::Ready, PhaseEvent::FramePresented), Phase::Ready);
}

#[test]
fn demo_chunk_seeds_floor_and_dirt_pattern() {
    let chunk = demo_chunk();
    assert_eq!(chunk.len(), CHUNK_VOLUME);
    assert_eq!(chunk[coord_to_index(0, 0, 0)], 2);
    assert_eq!(chunk[coord_to_index(9, 0, 9)], 2);
    assert_eq!(chunk[coord_to_index(10, 0, 0)], 0);
    assert_eq!(chunk[coord_to_index(0, 1, 0)], 1);
    assert_eq!(chunk[coord_to_index(1, 1, 0)], 0);
    assert_eq!(chunk[coord_to_index(2, 1, 2)], 1);
    assert_eq!(chunk[coord_to_index(0, 2, 0)], 0);
}

#[test]
fn instance_buffer_updates_in_place_and_ignores_bad_indices() {
    let mut buffer = InstanceBuffer::new(vec![
        Instance { x: 0, y: 0, z: 0 },
        Instance { x: 1, y: 1, z: 1 },
    ]);
    buffer.update_instance(1, 7, 8, 9);
    assert_eq!(buffer.instances()[1], Instance { x: 7, y: 8, z: 9 });
    buffer.update_instance(2, 3, 3, 3);
    assert_eq!(buffer.len(), 2);
    assert_eq!(buffer.instances()[0], Instance { x: 0, y: 0, z: 0 });
}

#[test]
fn scene_mutators_touch_only_their_target() {
    let registry = empty_registry();
    let mut scene = Scene::new();
    let material = Material::with_color(registry.resolve_color(3), registry.display_name(3));
    let instances = vec![Instance::new(0, 0, 0), Instance::new(1, 0, 0)];
    scene.add_object(SceneObject::new(3, material, InstanceBuffer::new(instances)));
    scene.update_instance(0, 1, 5, 6, 7);
    assert_eq!(
        scene.objects()[0].instance_buffer().instances()[1],
        Instance { x: 5, y: 6, z: 7 }
    );
    scene.update_material_color(0, [9, 9, 9, 9]);
    assert_eq!(scene.objects()[0].material().color, [9, 9, 9, 9]);
    // out-of-range object indices are ignored
    scene.update_instance(4, 0, 1, 1, 1);
    scene.update_material_color(4, [0, 0, 0, 0]);
    assert_eq!(scene.objects().len(), 1);
    assert_eq!(scene.objects()[0].material().color, [9, 9, 9, 9]);
}

#[test]
fn default_scene_is_empty() {
    let scene = Scene::default();
    assert_eq!(scene.objects().len(), 0);
}
