use clicker::feedback::{
    click_effect, ghost_depth, palette, play_sfx, request_click_particles, request_click_sfx,
    request_level_up_sfx, request_placement_sfx, request_selection_sfx, request_spawn_particles,
    spawn_bursts, tile_meshes, toggle, toggle_debug_ui, DebugUi, EffectSpawn, GhostDepth,
    ParticleBurst, ParticleBurstKind, ParticleEffectKind, ParticlePalette, ParticleSettings,
    SfxCue, ShowAxes,
};
use clicker::progression::LevelUp;
use clicker::skill_ui::{
    handle_button_interact, skill_tree_menu_action, spawn_skills, update_selected_skill_button,
    ButtonShade, Interaction,
};
use clicker::tile::{TileCoord, TileKind};
use clicker::world::{TileClicked, TileDeselected, TilePlaced, TileSelected, TileWorld};

fn world_with_stone_at_origin() -> (TileWorld, u64) {
    let mut world = TileWorld::new();
    world.initialize_world(1);
    let ghost = world.hexes()[0].entity;
    world.place_tiles_with_rolls(&vec![ghost], &vec![2]);
    let tile = world
        .hexes()
        .iter()
        .find(|h| h.coord == TileCoord::zero())
        .unwrap()
        .entity;
    (world, tile)
}

#[test]
fn disabled_sfx_consumes_cues_without_spawning_players() {
    let players = play_sfx(&vec![SfxCue::LevelUp], false);
    assert_eq!(players.len(), 0);
}

#[test]
fn enabled_sfx_spawns_one_named_player_per_cue() {
    let players = play_sfx(
        &vec![
            SfxCue::TileClick(TileKind::Empty),
            SfxCue::TileClick(TileKind::Wheat),
            SfxCue::Selection,
            SfxCue::Placement,
            SfxCue::LevelUp,
        ],
        true,
    );
    assert_eq!(
        players,
        vec![
            "Sfx_ClickEmpty",
            "Sfx_ClickWheat",
            "Sfx_Selection",
            "Sfx_Placement",
            "Sfx_LevelUp"
        ]
    );
}

#[test]
fn tile_click_requests_the_cue_for_its_kind() {
    let (world, entity) = world_with_stone_at_origin();
    let cues = request_click_sfx(
        &world,
        &vec![TileClicked {
            entity,
            coord: TileCoord::zero(),
        }],
    );
    assert_eq!(cues, vec![SfxCue::TileClick(TileKind::Stone)]);
}

#[test]
fn clicks_on_entities_without_a_kind_request_no_cue() {
    let (world, _) = world_with_stone_at_origin();
    let ghost = world
        .hexes()
        .iter()
        .find(|h| h.coord == TileCoord::new(1, 0))
        .unwrap()
        .entity;
    let cues = request_click_sfx(
        &world,
        &vec![
            TileClicked {
                entity: ghost,
                coord: TileCoord::new(1, 0),
            },
            TileClicked {
                entity: 777,
                coord: TileCoord::zero(),
            },
        ],
    );
    assert!(cues.is_empty());
}

#[test]
fn placement_and_level_up_request_distinct_cues() {
    let mut cues = request_placement_sfx(&vec![TilePlaced {
        coord: TileCoord::zero(),
        kind: TileKind::Tree,
    }]);
    cues.extend(request_level_up_sfx(&vec![LevelUp]));
    assert_eq!(cues, vec![SfxCue::Placement, SfxCue::LevelUp]);
}

#[test]
fn simultaneous_deselect_and_select_request_one_selection_cue() {
    let cue = request_selection_sfx(
        &vec![TileSelected {
            entity: 2,
            coord: TileCoord::new(1, 0),
        }],
        &vec![TileDeselected {
            entity: 1,
            coord: TileCoord::zero(),
        }],
    );
    let collected: Vec<SfxCue> = cue.into_iter().collect();
    assert_eq!(collected, vec![SfxCue::Selection]);
    assert_eq!(request_selection_sfx(&vec![], &vec![]), None);
}

#[test]
fn click_and_placement_request_distinct_bursts() {
    let (world, entity) = world_with_stone_at_origin();
    let mut bursts = request_click_particles(
        &world,
        &vec![TileClicked {
            entity,
            coord: TileCoord::zero(),
        }],
    );
    bursts.extend(request_spawn_particles(&vec![TilePlaced {
        coord: TileCoord::new(1, 0),
        kind: TileKind::Tree,
    }]));
    assert_eq!(bursts.len(), 2);
    assert_eq!(
        bursts[0].kind,
        ParticleBurstKind::TileClick(ParticlePalette::Stone)
    );
    assert_eq!(bursts[1].kind, ParticleBurstKind::TileSpawn);
    assert_eq!(bursts[0].coord, TileCoord::zero());
    assert_eq!(bursts[1].coord, TileCoord::new(1, 0));
}

#[test]
fn disabled_particles_consume_bursts_without_spawning_effects() {
    let effects = spawn_bursts(
        &vec![ParticleBurst {
            kind: ParticleBurstKind::TileClick(ParticlePalette::Stone),
            coord: TileCoord::zero(),
        }],
        &ParticleSettings { enabled: false },
    );
    assert_eq!(effects.len(), 0);
}

#[test]
fn bursts_spawn_their_effects_in_order() {
    assert!(ParticleSettings::default().enabled);
    let effects = spawn_bursts(
        &vec![
            ParticleBurst {
                kind: ParticleBurstKind::TileSpawn,
                coord: TileCoord::new(0, 1),
            },
            ParticleBurst {
                kind: ParticleBurstKind::TileClick(ParticlePalette::Leaves),
                coord: TileCoord::zero(),
            },
        ],
        &ParticleSettings::default(),
    );
    assert_eq!(
        effects,
        vec![
            EffectSpawn {
                effect: ParticleEffectKind::TileSpawnRing,
                coord: TileCoord::new(0, 1)
            },
            EffectSpawn {
                effect: ParticleEffectKind::TileSpawnRise,
                coord: TileCoord::new(0, 1)
            },
            EffectSpawn {
                effect: ParticleEffectKind::LeavesClick,
                coord: TileCoord::zero()
            },
        ]
    );
    assert_eq!(ParticleEffectKind::TileSpawnRing.entity_name(), "Particles_TileSpawnRing");
    assert_eq!(ParticleEffectKind::TileSpawnRise.lifetime_ms(), 900);
    assert_eq!(ParticleEffectKind::WheatClick.entity_name(), "Particles_TileClick");
    assert_eq!(ParticleEffectKind::GrassClick.lifetime_ms(), 650);
}

#[test]
fn palettes_and_click_effects_follow_the_tile_kind() {
    assert_eq!(palette(TileKind::Empty), ParticlePalette::Grass);
    assert_eq!(palette(TileKind::Tree), ParticlePalette::Leaves);
    assert_eq!(palette(TileKind::Stone), ParticlePalette::Stone);
    assert_eq!(palette(TileKind::Wheat), ParticlePalette::Wheat);
    assert_eq!(click_effect(ParticlePalette::Stone), ParticleEffectKind::StoneClick);
    assert_eq!(click_effect(ParticlePalette::Grass), ParticleEffectKind::GrassClick);
}

#[test]
fn rendered_tiles_spawn_base_and_decorations() {
    assert_eq!(tile_meshes(TileKind::Empty), vec!["HexTileMesh"]);
    assert_eq!(tile_meshes(TileKind::Tree), vec!["HexTileMesh", "HexTreeMesh"]);
    assert_eq!(tile_meshes(TileKind::Stone), vec!["HexTileMesh", "HexStoneMesh"]);
    assert_eq!(
        tile_meshes(TileKind::Wheat),
        vec!["HexTileMesh", "HexDirtMesh", "HexWheatMesh"]
    );
    assert_eq!(ghost_depth(TileCoord::zero()), GhostDepth::Shallow);
    assert_eq!(ghost_depth(TileCoord::new(0, 1)), GhostDepth::Full);
}

#[test]
fn f11_toggles_debug_ui_and_fps_overlay_together() {
    let mut state = DebugUi::default();
    let mut overlay = false;
    toggle_debug_ui(true, &mut state, &mut overlay);
    assert!(state.visible);
    assert!(overlay);
    toggle_debug_ui(false, &mut state, &mut overlay);
    assert!(state.visible && overlay);
    toggle_debug_ui(true, &mut state, &mut overlay);
    assert!(!state.visible && !overlay);
}

#[test]
fn f12_toggles_axes_and_performance_text() {
    let mut axes = ShowAxes(false);
    let mut text = false;
    toggle(true, &mut axes, &mut text);
    assert!(axes.0 && text);
    toggle(false, &mut axes, &mut text);
    assert!(axes.0 && text);
    toggle(true, &mut axes, &mut text);
    assert!(!axes.0 && !text);
}

#[test]
fn sfx_cue_names_cover_every_cue() {
    assert_eq!(SfxCue::TileClick(TileKind::Tree).player_name(), "Sfx_ClickTree");
    assert_eq!(SfxCue::TileClick(TileKind::Stone).player_name(), "Sfx_ClickStone");
}

#[test]
fn button_shades_follow_interaction_and_selection() {
    assert_eq!(handle_button_interact(Interaction::Pressed, false), ButtonShade::Pressed);
    assert_eq!(handle_button_interact(Interaction::Pressed, true), ButtonShade::Pressed);
    assert_eq!(handle_button_interact(Interaction::Idle, true), ButtonShade::Pressed);
    assert_eq!(handle_button_interact(Interaction::Hovered, true), ButtonShade::HoveredPressed);
    assert_eq!(handle_button_interact(Interaction::Hovered, false), ButtonShade::Hovered);
    assert_eq!(handle_button_interact(Interaction::Idle, false), ButtonShade::Normal);
}

#[test]
fn at_most_four_skills_get_buttons() {
    assert_eq!(spawn_skills(&vec![1, 2, 3, 4, 5, 6]), vec![1, 2, 3, 4]);
    assert_eq!(spawn_skills(&vec![7, 8]), vec![7, 8]);
    assert!(spawn_skills::<u8>(&vec![]).is_empty());
}

#[test]
fn pressing_a_skill_button_moves_the_selection() {
    let change = update_selected_skill_button(&vec![10], &vec![11]);
    assert_eq!(change.selected, vec![11]);
    assert_eq!(change.reset, Some(10));
    let unchanged = update_selected_skill_button(&vec![10], &vec![]);
    assert_eq!(unchanged.selected, vec![10]);
    assert_eq!(unchanged.reset, None);
    let first = update_selected_skill_button(&vec![], &vec![12]);
    assert_eq!(first.selected, vec![12]);
    assert_eq!(first.reset, None);
    let again = update_selected_skill_button(&vec![10], &vec![10]);
    assert_eq!(again.selected, vec![10]);
    assert_eq!(again.reset, Some(10));
}

#[test]
fn choosing_sends_the_selected_skill_per_press() {
    assert_eq!(skill_tree_menu_action(&vec![3u8], 2), vec![3, 3]);
    assert!(skill_tree_menu_action(&vec![3u8, 4], 1).is_empty());
    assert!(skill_tree_menu_action::<u8>(&vec![], 1).is_empty());
}
