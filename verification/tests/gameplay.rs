use bevy_rand::prelude::WyRand;
use rand_core::SeedableRng;

use clicker::progression::{
    apply_level_up, earn_xp, handle_fill_bar_value_reached_max, handle_level_up_player,
    skill_points_notification_visible, skill_tree_description, skill_tree_points_alert_visible,
    spend_skill_point, update_skill_tree_description_points_ui, update_skill_tree_points_ui, FillBar, FillBarValueReachedMax, LevelXP,
    NextLevelXP, PlaceTile, ProgressionRecorder, SkillPoints, SkillTreePoints, XpMax, XpValue,
    INITIAL_SKILL_POINTS, INITIAL_XP_MAX,
};
use clicker::text::parse_u64;
use clicker::tile::{seed_from_env, tile_is_in_world, TileCoord, TileKind};
use clicker::world::{ClickTile, GhostClicked, Occupant, Role, TileClicked, TilePlaced, TileWorld};

#[test]
fn progression_defaults_are_explicit() {
    assert_eq!(XpValue::default().0, 0);
    assert_eq!(XpMax::default().0, INITIAL_XP_MAX);
    assert_eq!(SkillPoints::default().0, INITIAL_SKILL_POINTS);
}

#[test]
fn xp_below_the_threshold_does_not_change_progression() {
    let mut xp = 9;
    let mut max = 10;
    let mut points = 0;
    assert!(!apply_level_up(&mut xp, &mut max, &mut points));
    assert_eq!((xp, max, points), (9, 10, 0));
}

#[test]
fn xp_at_the_threshold_rolls_over_and_grants_one_skill_point() {
    let mut xp = 10;
    let mut max = 10;
    let mut points = 0;
    assert!(apply_level_up(&mut xp, &mut max, &mut points));
    assert_eq!((xp, max, points), (0, 20, 1));
}

#[test]
fn world_bounds_include_radius_three_and_exclude_radius_four() {
    assert!(tile_is_in_world(TileCoord::new(3, 0)));
    assert!(tile_is_in_world(TileCoord::new(-3, 3)));
    assert!(!tile_is_in_world(TileCoord::new(4, 0)));
    assert!(!tile_is_in_world(TileCoord::new(-4, 4)));
}

#[test]
fn world_world_bounds_include_radius_three_and_exclude_radius_four() {
    assert!(tile_is_in_world(TileCoord::new(3, 0)));
    assert!(tile_is_in_world(TileCoord::new(-3, 3)));
    assert!(!tile_is_in_world(TileCoord::new(4, 0)));
    assert!(!tile_is_in_world(TileCoord::new(-4, 4)));
}

#[test]
fn tile_kinds_follow_the_seeded_wyrand_sequence() {
    let mut rng = WyRand::from_seed(7u64.to_le_bytes());
    let kinds = (0..8)
        .map(|_| TileKind::random(&mut rng))
        .collect::<Vec<_>>();
    assert_eq!(
        kinds,
        vec![
            TileKind::Tree,
            TileKind::Empty,
            TileKind::Wheat,
            TileKind::Tree,
            TileKind::Empty,
            TileKind::Tree,
            TileKind::Tree,
            TileKind::Empty,
        ]
    );
}

#[test]
fn world_tile_kinds_follow_the_seeded_wyrand_sequence() {
    let mut rng = WyRand::from_seed([7; 8]);
    let kinds = (0..8)
        .map(|_| TileKind::random(&mut rng))
        .collect::<Vec<_>>();
    assert_eq!(
        kinds,
        vec![
            TileKind::Wheat,
            TileKind::Tree,
            TileKind::Wheat,
            TileKind::Empty,
            TileKind::Tree,
            TileKind::Tree,
            TileKind::Stone,
            TileKind::Empty,
        ]
    );
}

#[test]
fn world_radius_edges_and_far_coordinates() {
    assert!(tile_is_in_world(TileCoord::zero()));
    assert!(tile_is_in_world(TileCoord::new(0, -3)));
    assert!(tile_is_in_world(TileCoord::new(2, 1)));
    assert!(!tile_is_in_world(TileCoord::new(2, 2)));
    assert!(!tile_is_in_world(TileCoord::new(i32::MAX, 0)));
    assert!(!tile_is_in_world(TileCoord::new(0, i32::MIN)));
}

#[test]
fn tile_kind_of_a_draw_is_the_draw_modulo_four() {
    assert_eq!(TileKind::from_roll(0), TileKind::Empty);
    assert_eq!(TileKind::from_roll(5), TileKind::Tree);
    assert_eq!(TileKind::from_roll(10), TileKind::Stone);
    assert_eq!(TileKind::from_roll(u32::MAX), TileKind::Wheat);
    assert_eq!(TileKind::Wheat.name(), "wheat");
    assert_eq!(TileKind::Empty.name(), "empty");
}

fn world_with_origin_ghost() -> TileWorld {
    let mut world = TileWorld::new();
    world.initialize_world(1);
    world
}

#[test]
fn initializing_spawns_one_ghost_at_the_origin() {
    let world = world_with_origin_ghost();
    let hexes = world.hexes();
    assert_eq!(hexes.len(), 1);
    assert_eq!(hexes[0].coord, TileCoord::zero());
    assert_eq!(hexes[0].occupant, Occupant::HexGhost);
    assert!(!hexes[0].selected);
}

#[test]
fn reinitializing_replaces_the_world() {
    let mut world = world_with_origin_ghost();
    let ghost = world.hexes()[0].entity;
    world.place_tiles_with_rolls(&vec![ghost], &vec![1]);
    assert_eq!(world.hexes().len(), 7);
    world.initialize_world(1);
    assert_eq!(world.hexes().len(), 1);
    assert_eq!(world.hexes()[0].occupant, Occupant::HexGhost);
    world.initialize_world(0);
    assert_eq!(world.hexes().len(), 1);
}

#[test]
fn placing_the_origin_ghost_opens_its_six_neighbours() {
    let mut world = world_with_origin_ghost();
    let ghost = world.hexes()[0].entity;
    let placed = world.place_tiles_with_rolls(&vec![ghost], &vec![2]);
    assert_eq!(
        placed,
        vec![TilePlaced {
            coord: TileCoord::zero(),
            kind: TileKind::Stone
        }]
    );
    let hexes = world.hexes();
    assert_eq!(hexes.len(), 7);
    let tiles: Vec<_> = hexes
        .iter()
        .filter(|h| h.occupant == Occupant::HexTile(TileKind::Stone))
        .collect();
    assert_eq!(tiles.len(), 1);
    assert_eq!(tiles[0].coord, TileCoord::zero());
    let ghosts: Vec<TileCoord> = hexes
        .iter()
        .filter(|h| h.occupant == Occupant::HexGhost)
        .map(|h| h.coord)
        .collect();
    assert_eq!(
        ghosts,
        vec![
            TileCoord::new(1, 0),
            TileCoord::new(0, 1),
            TileCoord::new(-1, 1),
            TileCoord::new(-1, 0),
            TileCoord::new(0, -1),
            TileCoord::new(1, -1),
        ]
    );
}

#[test]
fn a_request_for_a_missing_ghost_changes_nothing() {
    let mut world = world_with_origin_ghost();
    let placed = world.place_tiles_with_rolls(&vec![999], &vec![]);
    assert!(placed.is_empty());
    assert_eq!(world.hexes().len(), 1);
}

#[test]
fn a_second_placement_opens_only_free_neighbours() {
    let mut world = world_with_origin_ghost();
    let ghost = world.hexes()[0].entity;
    world.place_tiles_with_rolls(&vec![ghost], &vec![0]);
    let east = world
        .hexes()
        .iter()
        .find(|h| h.coord == TileCoord::new(1, 0))
        .unwrap()
        .entity;
    let placed = world.place_tiles_with_rolls(&vec![east], &vec![3]);
    assert_eq!(placed[0].kind, TileKind::Wheat);
    assert!(world
        .hexes()
        .iter()
        .any(|h| h.coord == TileCoord::zero() && h.occupant == Occupant::HexTile(TileKind::Empty)));
    let coords: Vec<TileCoord> = world.hexes().iter().map(|h| h.coord).collect();
    assert_eq!(coords.len(), 10);
    for (i, a) in coords.iter().enumerate() {
        for b in coords.iter().skip(i + 1) {
            assert_ne!(a, b);
        }
    }
}

#[test]
fn selection_follows_the_pointer_and_reports_both_ends() {
    let mut world = world_with_origin_ghost();
    let ghost = world.hexes()[0].entity;
    world.place_tiles_with_rolls(&vec![ghost], &vec![1]);
    let first = world.update_selected(Some(TileCoord::zero()));
    assert!(first.deselected.is_none());
    assert_eq!(first.selected.unwrap().coord, TileCoord::zero());
    let same = world.update_selected(Some(TileCoord::zero()));
    assert!(same.selected.is_none() && same.deselected.is_none());
    let moved = world.update_selected(Some(TileCoord::new(1, 0)));
    assert_eq!(moved.deselected.unwrap().coord, TileCoord::zero());
    assert_eq!(moved.selected.unwrap().coord, TileCoord::new(1, 0));
    let away = world.update_selected(None);
    assert_eq!(away.deselected.unwrap().coord, TileCoord::new(1, 0));
    assert!(away.selected.is_none());
    assert_eq!(world.hexes().iter().filter(|h| h.selected).count(), 0);
}

#[test]
fn clicking_needs_a_press_and_a_selection() {
    let mut world = world_with_origin_ghost();
    assert_eq!(world.click_selected(true), None);
    world.update_selected(Some(TileCoord::zero()));
    assert_eq!(world.click_selected(false), None);
    assert_eq!(world.click_selected(true), Some(ClickTile(TileCoord::zero())));
    let ghost = world.hexes()[0].entity;
    assert_eq!(world.click_selected_of(true, Role::Ghosts), Some(ghost));
    assert_eq!(world.click_selected_of(true, Role::Tiles), None);
}

#[test]
fn clicks_resolve_to_ghosts_or_tiles_in_order() {
    let mut world = world_with_origin_ghost();
    let ghost = world.hexes()[0].entity;
    world.place_tiles_with_rolls(&vec![ghost], &vec![1]);
    let tile = world
        .hexes()
        .iter()
        .find(|h| h.coord == TileCoord::zero())
        .unwrap()
        .entity;
    let east = world
        .hexes()
        .iter()
        .find(|h| h.coord == TileCoord::new(1, 0))
        .unwrap()
        .entity;
    let (ghosts, tiles) = world.resolve_click(&vec![
        ClickTile(TileCoord::new(1, 0)),
        ClickTile(TileCoord::zero()),
        ClickTile(TileCoord::new(3, 3)),
    ]);
    assert_eq!(
        ghosts,
        vec![GhostClicked {
            entity: east,
            coord: TileCoord::new(1, 0)
        }]
    );
    assert_eq!(
        tiles,
        vec![TileClicked {
            entity: tile,
            coord: TileCoord::zero()
        }]
    );
    assert_eq!(world.kind_of(tile), Some(TileKind::Tree));
    assert_eq!(world.kind_of(east), None);
    assert_eq!(world.kind_of(12345), None);
}

#[test]
fn ghost_clicks_spend_skill_points_until_none_are_left() {
    let mut world = world_with_origin_ghost();
    let ghost = world.hexes()[0].entity;
    let mut points = 1;
    let mut rng = WyRand::from_seed([7; 8]);
    let placed = world.clicked_ghost_spawn(&vec![ghost], &mut points, &mut rng);
    assert_eq!(points, 0);
    assert_eq!(placed.len(), 1);
    assert_eq!(placed[0].coord, TileCoord::zero());
    assert_eq!(world.hexes().len(), 7);
    let east = world
        .hexes()
        .iter()
        .find(|h| h.coord == TileCoord::new(1, 0))
        .unwrap()
        .entity;
    let none = world.clicked_ghost_spawn(&vec![east], &mut points, &mut rng);
    assert!(none.is_empty());
    assert_eq!(points, 0);
    assert_eq!(world.hexes().len(), 7);
}

#[test]
fn skill_points_turn_ghost_clicks_into_placements() {
    let mut points = SkillPoints(2);
    let clicks = vec![
        GhostClicked {
            entity: 4,
            coord: TileCoord::zero(),
        },
        GhostClicked {
            entity: 5,
            coord: TileCoord::new(1, 0),
        },
        GhostClicked {
            entity: 6,
            coord: TileCoord::new(0, 1),
        },
    ];
    let placements = spend_skill_point(&clicks, &mut points);
    assert_eq!(placements, vec![PlaceTile(4), PlaceTile(5)]);
    assert_eq!(points.0, 0);
    assert!(!skill_points_notification_visible(&points));
    assert!(skill_points_notification_visible(&SkillPoints(1)));
}

#[test]
fn earning_xp_levels_up_at_the_maximum() {
    let mut xp = XpValue(7);
    let mut max = XpMax(10);
    let mut points = SkillPoints(0);
    assert!(earn_xp(0, &mut xp, &mut max, &mut points).is_none());
    assert_eq!((xp.0, max.0, points.0), (7, 10, 0));
    assert!(earn_xp(2, &mut xp, &mut max, &mut points).is_none());
    assert_eq!((xp.0, max.0, points.0), (9, 10, 0));
    assert!(earn_xp(3, &mut xp, &mut max, &mut points).is_some());
    assert_eq!((xp.0, max.0, points.0), (2, 20, 1));
}

#[test]
fn skill_tree_levels_and_alerts() {
    let mut skill = SkillTreePoints(0);
    let mut level = LevelXP(12);
    let mut next = NextLevelXP(10);
    assert!(!skill_tree_points_alert_visible(&skill));
    handle_level_up_player(&mut skill, &mut level, &mut next);
    assert_eq!((skill.0, level.0, next.0), (1, 2, 20));
    handle_level_up_player(&mut skill, &mut level, &mut next);
    assert_eq!((skill.0, level.0, next.0), (1, 2, 20));
    assert!(skill_tree_points_alert_visible(&skill));
    assert_eq!(
        skill_tree_description(&SkillTreePoints(12)),
        "You have 12 skill points available."
    );
}

#[test]
fn full_fill_bars_report_reaching_their_maximum() {
    let bars = vec![
        FillBar {
            entity: 1,
            value: 3,
            max_value: 3,
        },
        FillBar {
            entity: 2,
            value: 2,
            max_value: 3,
        },
        FillBar {
            entity: 3,
            value: 9,
            max_value: 3,
        },
    ];
    assert_eq!(
        handle_fill_bar_value_reached_max(&bars),
        vec![FillBarValueReachedMax(1), FillBarValueReachedMax(3)]
    );
}

#[test]
fn progression_recorder_reports_only_changes() {
    let mut recorder = ProgressionRecorder::new();
    assert!(recorder.observe((0, 10, 1)));
    assert!(!recorder.observe((0, 10, 1)));
    assert!(recorder.observe((1, 10, 1)));
    assert!(recorder.observe((0, 10, 1)));
}

#[test]
fn seeds_are_read_as_unsigned_decimal_numerals() {
    assert_eq!(parse_u64("7"), Some(7));
    assert_eq!(parse_u64("+42"), Some(42));
    assert_eq!(parse_u64("007"), Some(7));
    assert_eq!(parse_u64("18446744073709551615"), Some(u64::MAX));
    assert_eq!(parse_u64("18446744073709551616"), None);
    assert_eq!(parse_u64(""), None);
    assert_eq!(parse_u64("+"), None);
    assert_eq!(parse_u64("-1"), None);
    assert_eq!(parse_u64("1 "), None);
    assert_eq!(parse_u64("٣"), None);
    assert_eq!(seed_from_env(None), None);
    assert_eq!(seed_from_env(Some("99")), Some(99));
}

#[test]
fn skill_tree_alert_changes_only_with_exactly_one_holder() {
    assert_eq!(update_skill_tree_points_ui(&vec![SkillTreePoints(2)]), Some(true));
    assert_eq!(update_skill_tree_points_ui(&vec![SkillTreePoints(0)]), Some(false));
    assert_eq!(update_skill_tree_points_ui(&vec![]), None);
    assert_eq!(
        update_skill_tree_points_ui(&vec![SkillTreePoints(1), SkillTreePoints(0)]),
        None
    );
    assert_eq!(
        update_skill_tree_description_points_ui(&vec![SkillTreePoints(3)]),
        Some("You have 3 skill points available.".to_string())
    );
    assert_eq!(update_skill_tree_description_points_ui(&vec![]), None);
}
