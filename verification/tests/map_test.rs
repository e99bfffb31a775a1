use noise::utils::{NoiseMapBuilder, PlaneMapBuilder};
use noise::Perlin;
use rand::Rng;
use rand_pcg::Pcg64;
use rand_seeder::Seeder;
use stw_game_lib::game::map::{GameMap, TilePos, MAX_MAP_SIZE};
use stw_game_lib::game::tile::GameTile;
use stw_game_lib::game::GameFault;
use stw_game_lib::random::noise_seed;
use stw_game_lib::resource::enums::{
    FieldCharacteristic, FieldInstantEffect, FieldRequirment, GResource,
};
use stw_game_lib::resource::resource_data::{FieldTypeData, Globals, OriginFieldData};
use stw_game_lib::resource::tables::Ledger;
use stw_game_lib::resource::{Resource, ResourceManager};

fn fixed(value: f64) -> i64 {
    (value * 1_000_000.0).round() as i64
}

fn names(list: &[&str]) -> Vec<String> {
    list.iter().map(|name| name.to_string()).collect()
}

fn meadow() -> Resource<OriginFieldData> {
    Resource {
        id: "meadow".to_string(),
        data: OriginFieldData {
            height: fixed(0.6),
            vegetation: fixed(0.4),
            possible_actions: names(&["exploration_meadow", "gathering_meadow"]),
            color: (200, 255, 0),
        },
    }
}

fn globals() -> Resource<Globals> {
    let mut start = Ledger::new();
    start.insert(GResource::Gold, 5);
    Resource {
        id: "globals".to_string(),
        data: Globals {
            init_path_length_per_hero: 3,
            start_game_resources: start,
            map_frequency: fixed(0.3),
            map_middle: "village_small".to_string(),
            map_near_mid_enable: names(&["meadow", "forest", "hills"]),
            map_visible_on_start: 3,
            win_cond_build_path: "town".to_string(),
        },
    }
}

fn village_small() -> Resource<FieldTypeData> {
    let mut cost = Ledger::new();
    cost.insert(GResource::Gold, 10);
    cost.insert(GResource::RareTrophy, 1);
    Resource {
        id: "village_small".to_string(),
        data: FieldTypeData {
            build_path: "town".to_string(),
            path_level: 0,
            characteristic: FieldCharacteristic::Habited,
            requirments: vec![
                FieldRequirment::NoNearFieldWithCharacteristic {
                    characteristic: FieldCharacteristic::Mysterious,
                    distance: 2,
                },
                FieldRequirment::NoNearFieldWithPath { build_path: "town".to_string(), distance: 5 },
            ],
            cost,
            instant_effects: vec![FieldInstantEffect::ShowFields {
                only_first_time: false,
                amount: 18,
            }],
            quest_family: "".to_string(),
            quest_levels: vec![],
            hero_family: "village".to_string(),
            hero_levels: vec![1_000_000],
            possible_actions: names(&["collect_info_village", "shopping_village"]),
            color: (139, 69, 19),
        },
    }
}

fn simple_catalog() -> &'static ResourceManager {
    let mut rm = ResourceManager::new();
    rm.add_origin_field(meadow());
    rm.add_globals(globals());
    rm.add_field_type(village_small());
    Box::leak(Box::new(rm))
}

fn sample_noise(size: u32, seed: &str, frequency: f64) -> Vec<Vec<(i64, i64)>> {
    let perlin = Perlin::new(noise_seed(seed));
    let noise_map = PlaneMapBuilder::<_, 2>::new(perlin)
        .set_size((size + (size - 1) / 2) as usize, (size * 2) as usize)
        .set_x_bounds(0.0, size as f64 * frequency)
        .set_y_bounds(0.0, size as f64 * frequency)
        .build();
    let shift = (size as i32 - 1) / 2;
    let mut field = Vec::new();
    for r in 0..size as i32 {
        let mut row = Vec::new();
        for c in 0..size as i32 {
            let q = c - r / 2;
            let x = (q + shift) as usize;
            let height = (noise_map.get_value(x, r as usize) as f32).abs() - 0.001;
            let vegetation =
                (noise_map.get_value(x, (r + size as i32) as usize) as f32).abs() - 0.001;
            row.push((fixed(height as f64), fixed(vegetation as f64)));
        }
        field.push(row);
    }
    field
}

fn prepare_simple_map() -> GameMap<'static> {
    let mut map = GameMap::new(simple_catalog());
    let noise = sample_noise(7, "test", 0.3f32 as f64);
    map.generate(7, &noise).unwrap();
    map
}

fn positions(tiles: &[&GameTile]) -> Vec<TilePos> {
    tiles.iter().map(|tile| tile.get_position()).collect()
}

fn has(list: &[TilePos], q: i32, r: i32) -> bool {
    list.iter().any(|pos| pos.q == q && pos.r == r)
}

#[test]
fn test_generate() {
    let map = prepare_simple_map();
    assert!(map.size == 7);
    let center = map.get(&TilePos { q: 1, r: 3 }).unwrap();
    assert!(center.get_field_content().is_some());
    assert!(map.len() == 49);
}

#[test]
fn test_get_adjacent_tiles() {
    let map = prepare_simple_map();
    let res = positions(&map.get_adjacent_tiles(&TilePos { q: 2, r: 4 }));
    assert!(res.len() == 6);
    assert!(has(&res, 2, 3));
    assert!(has(&res, 3, 3));
    assert!(has(&res, 3, 4));
    assert!(has(&res, 2, 5));
    assert!(has(&res, 1, 5));
    assert!(has(&res, 1, 4));

    let res = positions(&map.get_adjacent_tiles(&TilePos { q: 0, r: 0 }));
    assert!(res.len() == 2);
    assert!(has(&res, 1, 0));
    assert!(has(&res, 0, 1));
}

#[test]
fn test_get_tiles_in_range() {
    let map = prepare_simple_map();
    let res = map.get_tiles_in_range(&TilePos { q: 2, r: 4 }, 2);
    assert_eq!(res.len(), 3);
    let el0 = res[0][0].get_position();
    assert!(el0.q == 2 && el0.r == 4);
    let elem1 = positions(&res[1]);
    assert_eq!(elem1.len(), 6);
    assert!(has(&elem1, 2, 3));
    assert!(has(&elem1, 3, 3));
    assert!(has(&elem1, 3, 4));
    assert!(has(&elem1, 2, 5));
    assert!(has(&elem1, 1, 5));
    assert!(has(&elem1, 1, 4));
    let elem2 = positions(&res[2]);
    assert_eq!(elem2.len(), 12);
    assert!(has(&elem2, 2, 2));
    assert!(has(&elem2, 3, 2));
    assert!(has(&elem2, 4, 2));
    assert!(has(&elem2, 4, 3));
    assert!(has(&elem2, 4, 4));
    assert!(has(&elem2, 3, 5));
    assert!(has(&elem2, 2, 6));
    assert!(has(&elem2, 1, 6));
    assert!(has(&elem2, 0, 6));
    assert!(has(&elem2, 0, 5));
    assert!(has(&elem2, 0, 4));
    assert!(has(&elem2, 1, 3));

    let res = map.get_tiles_in_range(&TilePos { q: 0, r: 0 }, 2);
    assert_eq!(res.len(), 3);
    let el0 = res[0][0].get_position();
    assert!(el0.q == 0 && el0.r == 0);
    let elem1 = positions(&res[1]);
    assert_eq!(elem1.len(), 2);
    assert!(has(&elem1, 1, 0));
    assert!(has(&elem1, 0, 1));
    let elem2 = positions(&res[2]);
    assert_eq!(elem2.len(), 4);
    assert!(has(&elem2, 2, 0));
    assert!(has(&elem2, 1, 1));
    assert!(has(&elem2, 0, 2));
    assert!(has(&elem2, -1, 2));
}

#[test]
fn test_get_tiles_in_range_together() {
    let map = prepare_simple_map();
    let res = map.get_tiles_in_range_together(&TilePos { q: 2, r: 4 }, 2);
    assert_eq!(res.len(), 19);
    let res = map.get_tiles_in_range_together(&TilePos { q: 0, r: 0 }, 2);
    assert_eq!(res.len(), 7);
}

#[test]
fn test_check_if_exists_tile_with_field_content() {
    let map = prepare_simple_map();
    let res = map.check_if_exists_tile_with_field_content("village_small");
    assert!(res);
    let res = map.check_if_exists_tile_with_field_content("not_exist");
    assert!(!res);
}

#[test]
fn test_check_if_exists_tile_with_field_path() {
    let map = prepare_simple_map();
    let res = map.check_if_exists_tile_with_field_path("town");
    assert!(res);
    let res = map.check_if_exists_tile_with_field_content("not_exist");
    assert!(!res);
}

#[test]
fn distance_counts_hex_steps() {
    let a = TilePos { q: 2, r: 4 };
    let b = TilePos { q: 0, r: 6 };
    assert_eq!(a.distance(&b), 2);
    assert_eq!(b.distance(&a), 2);
    assert_eq!(a.distance(&a), 0);
    assert_eq!(TilePos { q: 0, r: 0 }.distance(&TilePos { q: 3, r: -1 }), 3);
    assert_eq!(TilePos { q: -4, r: 9 }.distance(&TilePos { q: 5, r: 1 }), 9);
}

#[test]
fn distance_obeys_the_triangle_inequality() {
    let points = [
        TilePos { q: 0, r: 0 },
        TilePos { q: 3, r: -2 },
        TilePos { q: -5, r: 4 },
        TilePos { q: 7, r: 7 },
        TilePos { q: -1, r: -6 },
    ];
    for a in points.iter() {
        for b in points.iter() {
            assert_eq!(a.distance(b), b.distance(a));
            assert_eq!(a.distance(b) == 0, a == b);
            for c in points.iter() {
                assert!(a.distance(c) <= a.distance(b) + b.distance(c));
            }
        }
    }
}

#[test]
fn neighbours_follow_the_six_directions() {
    let pos = TilePos { q: 4, r: -3 };
    assert_eq!(pos.neightbour(0), TilePos { q: 5, r: -3 });
    assert_eq!(pos.neightbour(1), TilePos { q: 5, r: -4 });
    assert_eq!(pos.neightbour(2), TilePos { q: 4, r: -4 });
    assert_eq!(pos.neightbour(3), TilePos { q: 3, r: -3 });
    assert_eq!(pos.neightbour(4), TilePos { q: 3, r: -2 });
    assert_eq!(pos.neightbour(5), TilePos { q: 4, r: -2 });
    assert_eq!(pos.moved(-4, 3), TilePos { q: 0, r: 0 });
    let around = pos.adjacent_positions();
    assert_eq!(around[0], TilePos { q: 4, r: -2 });
    assert_eq!(around[1], TilePos { q: 4, r: -4 });
    assert_eq!(around[2], TilePos { q: 5, r: -3 });
    assert_eq!(around[3], TilePos { q: 3, r: -3 });
    assert_eq!(around[4], TilePos { q: 3, r: -2 });
    assert_eq!(around[5], TilePos { q: 5, r: -4 });
}

#[test]
fn ring_has_six_times_its_radius_in_members() {
    let center = TilePos { q: 2, r: -1 };
    for k in 1..6u32 {
        let ring = center.positions_in_distance(k);
        assert_eq!(ring.len(), 6 * k as usize);
        for pos in ring.iter() {
            assert_eq!(center.distance(pos), k);
        }
        for i in 0..ring.len() {
            for j in 0..i {
                assert_ne!(ring[i], ring[j]);
            }
        }
    }
    let ring = TilePos { q: 0, r: 0 }.positions_in_distance(1);
    assert_eq!(
        ring,
        vec![
            TilePos { q: -1, r: 1 },
            TilePos { q: 0, r: 1 },
            TilePos { q: 1, r: 0 },
            TilePos { q: 1, r: -1 },
            TilePos { q: 0, r: -1 },
            TilePos { q: -1, r: 0 },
        ]
    );
}

#[test]
fn grid_positions_fill_the_diamond() {
    let list = GameMap::get_tile_positions_for_grid(3);
    assert_eq!(
        list,
        vec![
            TilePos { q: 0, r: 0 },
            TilePos { q: 1, r: 0 },
            TilePos { q: 2, r: 0 },
            TilePos { q: 0, r: 1 },
            TilePos { q: 1, r: 1 },
            TilePos { q: 2, r: 1 },
            TilePos { q: -1, r: 2 },
            TilePos { q: 0, r: 2 },
            TilePos { q: 1, r: 2 },
        ]
    );
    assert_eq!(GameMap::get_tile_positions_for_grid(37).len(), 37 * 37);
    assert_eq!(GameMap::get_min_max_coords(7), (0, 7, -3, 7));
}

#[test]
fn generation_is_deterministic() {
    let first = prepare_simple_map();
    let second = prepare_simple_map();
    for pos in GameMap::get_tile_positions_for_grid(7) {
        let a = first.get_tile(&pos);
        let b = second.get_tile(&pos);
        assert_eq!(a.get_base_field_type().id, b.get_base_field_type().id);
        assert_eq!(a.is_visible(), b.is_visible());
        assert_eq!(a.get_field_content().is_some(), b.get_field_content().is_some());
    }
    assert_eq!(noise_seed("test seed"), noise_seed("test seed"));
    assert_ne!(noise_seed("test seed"), noise_seed("another seed"));
}

#[test]
fn generation_marks_the_start_region() {
    let map = prepare_simple_map();
    let mid = map.get_mid_position();
    assert_eq!(mid, TilePos { q: 1, r: 3 });
    let mut with_content = 0;
    for pos in GameMap::get_tile_positions_for_grid(7) {
        let tile = map.get_tile(&pos);
        assert_eq!(tile.get_position(), pos);
        assert_eq!(tile.is_visible(), pos.distance(&mid) <= 3);
        assert!(!tile.get_quest_completed_till_last_build());
        if tile.get_field_content().is_some() {
            with_content += 1;
            assert_eq!(pos, mid);
        }
    }
    assert_eq!(with_content, 1);
    assert!(map.get(&TilePos { q: 7, r: 0 }).is_none());
    assert!(map.get(&TilePos { q: -1, r: 0 }).is_none());
    assert!(map.get(&TilePos { q: -1, r: 2 }).is_some());
}

#[test]
fn terrain_prefers_the_smallest_threshold_sum() {
    let mut origins = vec![meadow()];
    origins.push(Resource {
        id: "forest".to_string(),
        data: OriginFieldData {
            height: fixed(0.5),
            vegetation: fixed(0.3),
            possible_actions: vec![],
            color: (0, 100, 0),
        },
    });
    origins.push(Resource {
        id: "hills".to_string(),
        data: OriginFieldData {
            height: fixed(0.3),
            vegetation: fixed(0.5),
            possible_actions: vec![],
            color: (90, 90, 90),
        },
    });
    let all = names(&["meadow", "forest", "hills"]);
    let pick = |h: f64, v: f64, near: bool, enabled: &Vec<String>| {
        GameMap::find_proper_resource(&origins, fixed(h), fixed(v), near, enabled)
    };
    // no sample lies above any threshold: the first record of the catalog
    assert_eq!(pick(0.1, 0.1, false, &all), 0);
    // all three qualify; forest and hills share the smallest sum, forest is first
    assert_eq!(pick(0.9, 0.9, false, &all), 1);
    assert_eq!(pick(0.55, 0.35, false, &all), 1);
    assert_eq!(pick(0.4, 0.6, false, &all), 2);
    assert_eq!(pick(0.7, 0.45, false, &all), 1);
    // a sample equal to a threshold does not exceed it
    assert_eq!(pick(0.5, 0.9, false, &all), 2);
    assert_eq!(pick(0.6, 0.4, false, &names(&["meadow"])), 1);
    assert_eq!(pick(0.9, 0.9, true, &names(&["hills"])), 2);
    assert_eq!(pick(0.9, 0.9, true, &names(&["meadow"])), 0);
    assert_eq!(pick(0.9, 0.9, true, &names(&["swamp"])), 0);
    assert_eq!(pick(0.9, 0.9, false, &names(&["swamp"])), 1);

    let mut pair = vec![meadow(), meadow()];
    pair[0].data.height = 10;
    pair[0].data.vegetation = 10;
    pair[1].id = "plain".to_string();
    pair[1].data.height = 0;
    pair[1].data.vegetation = 0;
    assert_eq!(GameMap::find_proper_resource(&pair, 5, 5, false, &all), 1);
    assert_eq!(GameMap::find_proper_resource(&pair, 11, 11, false, &all), 1);
    assert_eq!(GameMap::find_proper_resource(&pair, 0, 0, false, &all), 0);
}

#[test]
fn generation_refuses_what_it_cannot_build() {
    let rm = simple_catalog();
    let noise = sample_noise(7, "test", 0.3f32 as f64);
    let mut map = GameMap::new(rm);
    assert_eq!(map.generate(0, &Vec::new()).unwrap_err().kind, GameFault::BadMapSize);
    assert_eq!(map.generate(6, &noise).unwrap_err().kind, GameFault::BadMapSize);
    assert_eq!(map.generate(MAX_MAP_SIZE + 1, &noise).unwrap_err().kind, GameFault::BadMapSize);
    assert_eq!(map.size, 0);

    let empty: &'static ResourceManager = Box::leak(Box::new(ResourceManager::new()));
    let mut map = GameMap::new(empty);
    assert_eq!(map.generate(7, &noise).unwrap_err().kind, GameFault::NoGlobals);

    let mut no_origin = ResourceManager::new();
    no_origin.add_globals(globals());
    let no_origin: &'static ResourceManager = Box::leak(Box::new(no_origin));
    let mut map = GameMap::new(no_origin);
    assert_eq!(map.generate(7, &noise).unwrap_err().kind, GameFault::NoOrigin);

    let mut no_middle = ResourceManager::new();
    no_middle.add_globals(globals());
    no_middle.add_origin_field(meadow());
    let no_middle: &'static ResourceManager = Box::leak(Box::new(no_middle));
    let mut map = GameMap::new(no_middle);
    assert_eq!(map.generate(7, &noise).unwrap_err().kind, GameFault::MissingResource);
}

#[test]
fn far_bands_are_empty() {
    let map = prepare_simple_map();
    let bands = map.get_tiles_in_range(&TilePos { q: 1, r: 3 }, 30);
    assert_eq!(bands.len(), 31);
    let total: usize = bands.iter().map(|band| band.len()).sum();
    assert_eq!(total, 49);
    assert!(bands[25].is_empty());
    let all = map.get_tiles_in_range_together(&TilePos { q: 1, r: 3 }, u32::MAX);
    assert_eq!(all.len(), 49);
}

#[test]
fn tiles_take_and_show_content() {
    let rm = simple_catalog();
    let mut tile = GameTile::new(&TilePos { q: 0, r: 0 }, rm, "meadow", false).unwrap();
    assert_eq!(tile.get_color(), (66, 85, 0));
    assert_eq!(tile.get_shown_id(), "meadow");
    assert!(!tile.is_inhabited());
    assert_eq!(tile.get_possible_actions().len(), 2);
    tile.set_visible(true);
    assert_eq!(tile.get_color(), (200, 255, 0));
    assert_eq!(tile.set_field_content("palace").unwrap_err().kind, GameFault::MissingResource);
    assert!(tile.get_field_content().is_none());
    tile.set_field_content("village_small").unwrap();
    assert_eq!(tile.get_shown_id(), "village_small");
    assert_eq!(tile.get_color(), (139, 69, 19));
    assert_eq!(tile.color_based_on_visibility((9, 30, 2)), (9, 30, 2));
    assert!(tile.is_inhabited());
    assert_eq!(
        GameTile::new(&TilePos { q: 0, r: 0 }, rm, "swamp", true).unwrap_err().kind,
        GameFault::MissingResource
    );
    let mut map = prepare_simple_map();
    let corner = TilePos { q: 0, r: 0 };
    assert_eq!(map.set_field_content(&corner, "palace").unwrap_err().kind, GameFault::MissingResource);
    map.set_field_content(&corner, "village_small").unwrap();
    assert_eq!(map.get_tile(&corner).get_shown_id(), "village_small");
    assert_eq!(map.tiles_in_order().len(), 49);
}

#[test]
fn noise_seed_is_the_first_value_of_the_seeded_generator() {
    for seed in ["test seed", "test", "", "another seed"] {
        let mut rng: Pcg64 = Seeder::from(seed).make_rng();
        let expected: u32 = rng.gen();
        assert_eq!(noise_seed(seed), expected);
    }
}

#[test]
fn tiles_show_two_letters_in_their_colour() {
    let rm = simple_catalog();
    let mut tile = GameTile::new(&TilePos { q: 0, r: 0 }, rm, "meadow", true).unwrap();
    let shown = tile.get_colored_string();
    assert_eq!(shown.text, "me");
    assert_eq!(shown.color, (200, 255, 0));
    tile.set_visible(false);
    assert_eq!(tile.get_colored_string().color, (66, 85, 0));
    tile.set_field_content("village_small").unwrap();
    let shown = tile.get_colored_string();
    assert_eq!(shown.text, "vi");
    assert_eq!(shown.color, (46, 23, 6));

    let mut short = ResourceManager::new();
    let mut origin = meadow();
    origin.id = "m".to_string();
    short.add_origin_field(origin);
    let mut origin = meadow();
    origin.id = "\u{17c}\u{f3}\u{142}w".to_string();
    short.add_origin_field(origin);
    let short: &'static ResourceManager = Box::leak(Box::new(short));
    let tile = GameTile::new(&TilePos { q: 0, r: 0 }, short, "m", true).unwrap();
    assert_eq!(tile.get_colored_string().text, "m");
    let tile = GameTile::new(&TilePos { q: 0, r: 0 }, short, "\u{17c}\u{f3}\u{142}w", true).unwrap();
    assert_eq!(tile.get_colored_string().text, "\u{17c}\u{f3}");
}

#[test]
fn printed_map_has_a_line_for_each_row() {
    let map = prepare_simple_map();
    let lines = map.get_colored_lines();
    assert_eq!(lines.len(), 7);
    for line in lines.iter() {
        assert_eq!(line.len(), 10);
    }
    // row 0 starts at column 0, so the three places before it are off the map
    assert_eq!(lines[0][0].text, "##");
    assert_eq!(lines[0][0].color, (255, 255, 255));
    assert_eq!(lines[0][2].text, "##");
    assert_eq!(lines[0][3].text, "me");
    assert_eq!(lines[0][9].text, "me");
    // row 6 starts at column -3 and ends at column 3
    assert_eq!(lines[6][0].text, "me");
    assert_eq!(lines[6][6].text, "me");
    assert_eq!(lines[6][7].text, "##");
    // the middle tile (1, 3) carries the village and is visible
    assert_eq!(lines[3][4].text, "vi");
    assert_eq!(lines[3][4].color, (139, 69, 19));
    assert!(GameMap::new(simple_catalog()).get_colored_lines().is_empty());
}
