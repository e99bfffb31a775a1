use noise::utils::{NoiseMapBuilder, PlaneMapBuilder};
use noise::Perlin;
use stw_game_lib::game::game_controller::hero_controller::HeroController;
use stw_game_lib::game::game_controller::quest_controller::QuestController;
use stw_game_lib::game::game_controller::{bearing_tiles, GameCallback, GameController};
use stw_game_lib::game::game_move::GameMove;
use stw_game_lib::game::map::TilePos;
use stw_game_lib::game::{GameFault, MoveError, Rejection, STWGame};
use stw_game_lib::random::noise_seed;
use stw_game_lib::resource::enums::{
    ActionRequirment, FieldCharacteristic, FieldInstantEffect, FieldRequirment, GResource,
    HeroSkill,
};
use stw_game_lib::resource::resource_data::{
    ActionData, EternalModificator, FieldTypeData, Globals, HeroData, OriginFieldData, QuestData,
};
use stw_game_lib::resource::tables::{Ledger, SkillLevels, SkillRanges};
use stw_game_lib::resource::{Resource, ResourceManager};

fn fixed(value: f64) -> i64 {
    (value * 1_000_000.0).round() as i64
}

fn names(list: &[&str]) -> Vec<String> {
    list.iter().map(|name| name.to_string()).collect()
}

fn gold(amount: u32) -> Ledger {
    let mut ledger = Ledger::new();
    ledger.insert(GResource::Gold, amount);
    ledger
}

fn field(
    id: &str,
    build_path: &str,
    path_level: u32,
    characteristic: FieldCharacteristic,
    requirments: Vec<FieldRequirment>,
    cost: Ledger,
) -> Resource<FieldTypeData> {
    Resource {
        id: id.to_string(),
        data: FieldTypeData {
            build_path: build_path.to_string(),
            path_level,
            characteristic,
            requirments,
            cost,
            instant_effects: vec![],
            quest_family: "".to_string(),
            quest_levels: vec![],
            hero_family: "".to_string(),
            hero_levels: vec![],
            possible_actions: vec![],
            color: (139, 69, 19),
        },
    }
}

fn action(id: &str, family: &str) -> Resource<ActionData> {
    let mut points = SkillRanges::new();
    points.insert(HeroSkill::Charisma, fixed(1.0), fixed(3.0));
    let mut modificators = SkillLevels::new();
    modificators.insert(HeroSkill::Charisma, fixed(0.5));
    Resource {
        id: id.to_string(),
        data: ActionData {
            action_family: family.to_string(),
            modificators,
            points,
            bonus_points: vec![],
            requirments: vec![],
            eternal_modificator: EternalModificator { skills: SkillLevels::new(), probability: 0 },
            modificator_info: vec![(HeroSkill::Charisma, 1)],
        },
    }
}

fn catalog() -> ResourceManager {
    let mut rm = ResourceManager::new();
    rm.add_globals(Resource {
        id: "globals".to_string(),
        data: Globals {
            init_path_length_per_hero: 3,
            start_game_resources: gold(10),
            map_frequency: fixed(0.3),
            map_middle: "village_small".to_string(),
            map_near_mid_enable: names(&["meadow", "forest", "hills"]),
            map_visible_on_start: 3,
            win_cond_build_path: "town".to_string(),
        },
    });
    rm.add_origin_field(Resource {
        id: "meadow".to_string(),
        data: OriginFieldData {
            height: fixed(0.6),
            vegetation: fixed(0.4),
            possible_actions: names(&["exploration_meadow", "gathering_meadow"]),
            color: (200, 255, 0),
        },
    });
    let mut village_small = field(
        "village_small",
        "town",
        0,
        FieldCharacteristic::Habited,
        vec![
            FieldRequirment::NoNearFieldWithCharacteristic {
                characteristic: FieldCharacteristic::Mysterious,
                distance: 2,
            },
            FieldRequirment::NoNearFieldWithPath { build_path: "town".to_string(), distance: 5 },
        ],
        gold(10),
    );
    village_small.data.hero_family = "village".to_string();
    village_small.data.hero_levels = vec![fixed(1.0) as u64];
    village_small.data.possible_actions = names(&["collect_info_village", "shopping_village"]);
    rm.add_field_type(village_small);
    let mut village = field("village", "town", 1, FieldCharacteristic::Habited, vec![], gold(100));
    village.data.possible_actions = names(&["collect_info_village", "shopping_village"]);
    rm.add_field_type(village);
    let mut cottage = field(
        "cottage",
        "cottage",
        0,
        FieldCharacteristic::Habited,
        vec![FieldRequirment::NearFieldWithPath { build_path: "town".to_string(), distance: 1 }],
        gold(7),
    );
    cottage.data.quest_family = "cottage".to_string();
    cottage.data.quest_levels = vec![fixed(1.0) as u64];
    cottage.data.possible_actions = names(&["collect_info_village"]);
    rm.add_field_type(cottage);
    rm.add_field_type(field(
        "wilderness",
        "wild",
        0,
        FieldCharacteristic::Mysterious,
        vec![FieldRequirment::NoNearFieldWithCharacteristic {
            characteristic: FieldCharacteristic::Habited,
            distance: 1,
        }],
        Ledger::new(),
    ));
    rm.add_hero(Resource {
        id: "villager".to_string(),
        data: HeroData {
            hero_family: "village".to_string(),
            hero_level: 0,
            init_skills: SkillLevels::new(),
        },
    });
    rm.add_quest(Resource {
        id: "lost_sheep".to_string(),
        data: QuestData {
            quest_family: "cottage".to_string(),
            quest_level: 0,
            quest_decisions: vec![],
            penalty: vec![],
        },
    });
    rm.add_action(action("collect_info_village", "talk"));
    rm.add_action(action("shopping_village", "trade"));
    rm.add_action(action("exploration_meadow", "explore"));
    rm.add_action(action("gathering_meadow", "gather"));
    rm
}

fn sample_noise(size: u32, seed: &str, frequency: f64) -> Vec<Vec<(i64, i64)>> {
    let perlin = Perlin::new(noise_seed(seed));
    let noise_map = PlaneMapBuilder::<_, 2>::new(perlin)
        .set_size((size + (size - 1) / 2) as usize, (size * 2) as usize)
        .set_x_bounds(0.0, size as f64 * frequency)
        .set_y_bounds(0.0, size as f64 * frequency)
        .build();
    let shift = (size as i32 - 1) / 2;
    let mut field = Vec::new();
    for r in 0..size as i32 {
        let mut row = Vec::new();
        for c in 0..size as i32 {
            let q = c - r / 2;
            let x = (q + shift) as usize;
            let height = (noise_map.get_value(x, r as usize) as f32).abs() - 0.001;
            let vegetation =
                (noise_map.get_value(x, (r + size as i32) as usize) as f32).abs() - 0.001;
            row.push((fixed(height as f64), fixed(vegetation as f64)));
        }
        field.push(row);
    }
    field
}

fn start(rm: ResourceManager) -> STWGame<'static> {
    let rm: &'static ResourceManager = Box::leak(Box::new(rm));
    let mut game = STWGame::new(rm).unwrap();
    game.start_game(37, &sample_noise(37, "test seed", 0.3f32 as f64)).unwrap();
    game
}

fn rejection(result: Result<Vec<GameCallback>, MoveError>) -> Rejection {
    match result {
        Err(MoveError::Rejected(bad)) => bad.kind,
        other => panic!("not a rejection: {:?}", other),
    }
}

fn fault(result: Result<Vec<GameCallback>, MoveError>) -> GameFault {
    match result {
        Err(MoveError::Broken(e)) => e.kind,
        other => panic!("not a broken move: {:?}", other),
    }
}

fn option_ids(game: &STWGame, q: i32, r: i32) -> Vec<String> {
    game.get_possible_building_at_position(&TilePos { q, r }).into_iter().map(|b| b.id).collect()
}

#[test]
fn game_test() {
    let mut game = start(catalog());

    // getting possible buildings
    assert!(game
        .get_possible_building_at_position(&TilePos { q: 7, r: 18 })
        .iter()
        .find(|e| e.id == "wilderness")
        .is_some());
    assert!(game
        .get_possible_building_at_position(&TilePos { q: 8, r: 18 })
        .iter()
        .find(|e| e.id == "cottage")
        .is_some());
    assert_eq!(game.get_possible_building_at_position(&TilePos { q: 9, r: 18 })[0].id, "village");
    assert!(game.get_possible_building_at_position(&TilePos { q: 9, r: 18 })[0].not_enought_resources);
    assert_eq!(game.get_possible_building_at_position(&TilePos { q: 4, r: 18 }).len(), 0);

    // building
    let build_res_good =
        game.perform_move(&GameMove::Build(TilePos { q: 8, r: 18 }, "cottage".to_string()));
    println!("{:?}", build_res_good);
    assert!(build_res_good.is_ok());
    let res = build_res_good.unwrap();
    assert!(res.contains(&GameCallback::ChangedResource { resource: GResource::Gold, new_value: 3 }));
    assert!(res.contains(&GameCallback::NewTileContent {
        position: TilePos { q: 8, r: 18 },
        field_type_id: "cottage".to_string()
    }));

    let build_res_bad =
        game.perform_move(&GameMove::Build(TilePos { q: 9, r: 18 }, "village".to_string()));
    assert!(build_res_bad.is_err());

    // waiting
    let wait_res = game.perform_move(&GameMove::Wait);
    assert!(wait_res.unwrap().len() == 2);
    let wait_res = game.perform_move(&GameMove::Wait);
    assert!(wait_res.unwrap().len() == 0);

    // history
    let can_start_history_bad = game.can_start_history(&TilePos { q: 7, r: 18 });
    assert!(can_start_history_bad.is_err());
    let can_start_history_good = game.can_start_history(&TilePos { q: 8, r: 18 });
    assert!(can_start_history_good.is_ok());

    let start_history = game.perform_move(&GameMove::StartHistory(TilePos { q: 8, r: 18 }, 0));
    assert!(start_history.unwrap().len() == 1);

    let wait_res = game.perform_move(&GameMove::Wait);
    assert!(wait_res.is_err());

    let possible_moves = game.get_possible_hero_moves().unwrap();
    assert!(possible_moves.len() == 3);
    assert!(possible_moves.contains(&(TilePos { q: 8, r: 18 }, "collect_info_village".to_string())));
    assert!(possible_moves.contains(&(TilePos { q: 9, r: 18 }, "collect_info_village".to_string())));
    assert!(possible_moves.contains(&(TilePos { q: 9, r: 18 }, "shopping_village".to_string())));

    let move_play = game
        .perform_move(&GameMove::PlayMove(TilePos { q: 9, r: 18 }, "shopping_village".to_string()));
    assert!(move_play
        .expect("Cant move in test")
        .iter()
        .find(|e| match e {
            GameCallback::HeroMoved { .. } => true,
            _ => false,
        })
        .is_some());

    game.get_possible_hero_moves().unwrap();

    assert!(game
        .perform_move(&GameMove::PlayMove(TilePos { q: 9, r: 17 }, "gathering_meadow".to_string()))
        .is_ok());
    game.get_possible_hero_moves().unwrap();

    assert!(game
        .perform_move(&GameMove::PlayMove(TilePos { q: 8, r: 17 }, "gathering_meadow".to_string()))
        .is_ok());

    // with no path left the hero can do nothing but pass
    let possible_moves = game.get_possible_hero_moves().unwrap();
    assert!(possible_moves.iter().all(|e| e.1.is_empty()));
    assert_eq!(possible_moves, vec![(TilePos { q: 8, r: 18 }, "".to_string())]);

    let move_play = game
        .perform_move(&GameMove::PlayMove(TilePos { q: 8, r: 17 }, "gathering_meadow".to_string()));
    assert!(move_play.is_err());
}

#[test]
fn build_pays_exactly_the_cost() {
    let mut game = start(catalog());
    assert_eq!(game.game_resources.get(GResource::Gold), Some(10));
    assert_eq!(game.game_resources.get(GResource::Story), Some(0));
    let report = game.build(&TilePos { q: 8, r: 18 }, "cottage").unwrap();
    assert_eq!(
        report,
        vec![
            GameCallback::ChangedResource { resource: GResource::Gold, new_value: 3 },
            GameCallback::NewTileContent {
                position: TilePos { q: 8, r: 18 },
                field_type_id: "cottage".to_string()
            },
        ]
    );
    for i in 0..9 {
        let kind = GResource::from_index(i);
        let expected = if kind == GResource::Gold { 3 } else { 0 };
        assert_eq!(game.game_resources.get(kind), Some(expected));
    }
    assert_eq!(game.builded, vec!["cottage".to_string()]);
    let tile = game.map.get_tile(&TilePos { q: 8, r: 18 });
    assert_eq!(tile.get_field_content().unwrap().id, "cottage");
    let free = game.build(&TilePos { q: 6, r: 18 }, "wilderness").unwrap();
    assert_eq!(free.len(), 1);
    assert_eq!(game.game_resources.get(GResource::Gold), Some(3));
}

#[test]
fn build_is_refused_for_each_reason() {
    let mut game = start(catalog());
    let near = TilePos { q: 8, r: 18 };
    let far = TilePos { q: 7, r: 18 };
    let mid = TilePos { q: 9, r: 18 };
    let kind = |game: &STWGame, pos: &TilePos, id: &str| game.can_be_build(pos, id).unwrap_err().kind;
    assert_eq!(kind(&game, &near, "palace"), Rejection::CantBuild);
    assert_eq!(kind(&game, &far, "cottage"), Rejection::CantBuild);
    assert_eq!(kind(&game, &near, "wilderness"), Rejection::CantBuild);
    assert_eq!(kind(&game, &near, "village"), Rejection::CantBuild);
    assert_eq!(kind(&game, &mid, "cottage"), Rejection::CantBuild);
    assert_eq!(kind(&game, &TilePos { q: 4, r: 18 }, "wilderness"), Rejection::CantBuild);
    assert_eq!(kind(&game, &TilePos { q: 90, r: 18 }, "wilderness"), Rejection::CantBuild);
    assert_eq!(kind(&game, &mid, "village"), Rejection::NotEnoughResources);
    assert!(game.can_be_build(&near, "cottage").is_ok());
    assert!(game.can_be_build(&far, "wilderness").is_ok());

    game.build(&near, "cottage").unwrap();
    assert_eq!(kind(&game, &TilePos { q: 10, r: 18 }, "cottage"), Rejection::NotEnoughResources);
    game.wait().unwrap();
    assert_eq!(game.get_quests().len(), 1);
    assert_eq!(game.get_quests()[0].get_position(), near);
    assert_eq!(kind(&game, &near, "cottage"), Rejection::QuestOnTile);
    game.start_history(&near, 0).unwrap();
    assert_eq!(kind(&game, &far, "wilderness"), Rejection::PlayingHistory);
    assert_eq!(
        rejection(game.perform_move(&GameMove::Build(far, "wilderness".to_string()))),
        Rejection::PlayingHistory
    );
}

#[test]
fn rejected_moves_change_nothing() {
    let mut game = start(catalog());
    let snapshot = |game: &STWGame| format!("{:?}", game);
    let before = snapshot(&game);
    let moves = vec![
        GameMove::Build(TilePos { q: 9, r: 18 }, "village".to_string()),
        GameMove::Build(TilePos { q: 7, r: 18 }, "cottage".to_string()),
        GameMove::Build(TilePos { q: 700, r: 18 }, "cottage".to_string()),
        GameMove::StartHistory(TilePos { q: 8, r: 18 }, 0),
        GameMove::PlayMove(TilePos { q: 9, r: 18 }, "shopping_village".to_string()),
        GameMove::MakeDecision("fight".to_string()),
        GameMove::RenameHero(0, "Ziomek".to_string()),
    ];
    for game_move in moves.iter() {
        assert!(matches!(game.perform_move(game_move), Err(MoveError::Rejected(_))));
        assert_eq!(snapshot(&game), before);
    }
    assert_eq!(
        rejection(game.perform_move(&GameMove::MakeDecision("fight".to_string()))),
        Rejection::Unsupported
    );
    assert_eq!(
        rejection(game.perform_move(&GameMove::RenameHero(0, "Ziomek".to_string()))),
        Rejection::Unsupported
    );
}

#[test]
fn waiting_needs_the_required_building() {
    let mut rm = catalog();
    let mut globals = Resource {
        id: "globals".to_string(),
        data: Globals {
            init_path_length_per_hero: 3,
            start_game_resources: gold(10),
            map_frequency: fixed(0.3),
            map_middle: "village_small".to_string(),
            map_near_mid_enable: names(&["meadow"]),
            map_visible_on_start: 3,
            win_cond_build_path: "castle".to_string(),
        },
    };
    globals.data.start_game_resources.insert(GResource::Story, 2);
    rm.add_globals(globals);
    assert_eq!(rm.globals.len(), 1);
    let mut game = start(rm);
    assert_eq!(game.game_resources.get(GResource::Story), Some(2));
    assert_eq!(game.can_wait().unwrap_err().kind, Rejection::NoRequiredBuildings);
    assert_eq!(rejection(game.wait()), Rejection::NoRequiredBuildings);
    assert_eq!(game.game_turn, 0);
}

#[test]
fn waiting_spawns_one_hero_and_one_quest() {
    let mut game = start(catalog());
    game.build(&TilePos { q: 8, r: 18 }, "cottage").unwrap();
    let report = game.wait().unwrap();
    assert_eq!(
        report,
        vec![
            GameCallback::NewHero {
                where_born: TilePos { q: 9, r: 18 },
                hero_id: "villager".to_string()
            },
            GameCallback::NewQuest {
                where_created: TilePos { q: 8, r: 18 },
                quest_id: "lost_sheep".to_string()
            },
        ]
    );
    assert_eq!(game.game_turn, 1);
    assert_eq!(game.get_heroes().len(), 1);
    let hero = &game.get_heroes()[0];
    assert_eq!(hero.background.id, "villager");
    for i in 0..9 {
        assert_eq!(hero.get_skills().get(HeroSkill::from_index(i)), Some(1_000_000));
    }
    assert_eq!(game.get_quests()[0].creation_turn, 1);
    assert_eq!(game.get_quests()[0].quest_type.id, "lost_sheep");
    assert!(game.wait().unwrap().is_empty());
    assert_eq!(game.game_turn, 2);
    assert_eq!(game.get_heroes().len(), 1);
    assert_eq!(game.get_quests().len(), 1);
}

#[test]
fn controllers_step_on_their_own() {
    let mut game = start(catalog());
    assert_eq!(QuestController::process_game_step(&mut game).unwrap(), vec![]);
    let born = HeroController::process_game_step(&mut game).unwrap();
    assert_eq!(born.len(), 1);
    assert_eq!(HeroController::process_game_step(&mut game).unwrap(), vec![]);
    assert_eq!(game.get_heroes().len(), 1);
    game.build(&TilePos { q: 8, r: 18 }, "cottage").unwrap();
    assert_eq!(QuestController::process_game_step(&mut game).unwrap().len(), 1);
    assert_eq!(QuestController::process_game_step(&mut game).unwrap(), vec![]);
    assert_eq!(game.get_quests().len(), 1);
}

#[test]
fn spawns_fail_on_broken_data() {
    let mut rm = catalog();
    rm.heroes.clear();
    let mut game = start(rm);
    let before = format!("{:?}", game);
    assert_eq!(fault(game.wait()), GameFault::NoTemplate);
    assert_eq!(format!("{:?}", game), before);
    assert_eq!(
        HeroController::process_game_step(&mut game).unwrap_err().kind,
        GameFault::NoTemplate
    );

    let mut rm = catalog();
    rm.field_types[0].data.hero_levels = vec![];
    let mut game = start(rm);
    assert_eq!(fault(game.perform_move(&GameMove::Wait)), GameFault::NoCandidate);
    assert_eq!(game.game_turn, 0);

    let mut rm = catalog();
    rm.field_types[0].data.hero_levels = vec![0, 0];
    let mut game = start(rm);
    assert_eq!(fault(game.wait()), GameFault::NoCandidate);

    let mut rm = catalog();
    rm.quests.clear();
    let mut game = start(rm);
    game.build(&TilePos { q: 8, r: 18 }, "cottage").unwrap();
    assert_eq!(fault(game.wait()), GameFault::NoTemplate);
    assert!(game.get_heroes().is_empty());
    assert_eq!(game.game_turn, 0);
}

#[test]
fn hero_level_is_drawn_by_weight() {
    let mut rm = catalog();
    rm.field_types[0].data.hero_levels = vec![0, 0, 5];
    rm.add_hero(Resource {
        id: "elder".to_string(),
        data: HeroData {
            hero_family: "village".to_string(),
            hero_level: 2,
            init_skills: {
                let mut skills = SkillLevels::new();
                skills.insert(HeroSkill::Magic, fixed(2.5));
                skills
            },
        },
    });
    let mut game = start(rm);
    let report = game.wait().unwrap();
    assert_eq!(
        report,
        vec![GameCallback::NewHero {
            where_born: TilePos { q: 9, r: 18 },
            hero_id: "elder".to_string()
        }]
    );
    let skills = game.get_heroes()[0].get_skills();
    assert_eq!(skills.get(HeroSkill::Magic), Some(2_500_000));
    assert_eq!(skills.get(HeroSkill::Strength), Some(1_000_000));
}

#[test]
fn second_expedition_is_refused() {
    let mut game = start(catalog());
    let quest = TilePos { q: 8, r: 18 };
    assert_eq!(game.can_start_history(&quest).unwrap_err().kind, Rejection::NoQuest);
    game.build(&quest, "cottage").unwrap();
    assert_eq!(rejection(game.perform_move(&GameMove::StartHistory(quest, 0))), Rejection::NoQuest);
    assert_eq!(
        rejection(game.perform_move(&GameMove::PlayMove(quest, "".to_string()))),
        Rejection::NoHistory
    );
    assert!(game.get_possible_hero_moves().unwrap().is_empty());
    game.wait().unwrap();
    assert_eq!(game.start_history(&quest, 1).unwrap_err().kind, Rejection::NoHero);
    let report = game.start_history(&quest, 0).unwrap();
    assert_eq!(report, vec![GameCallback::StartedHistory { quest_pos: quest, choosen_hero: 0 }]);
    let before = format!("{:?}", game);
    assert_eq!(game.start_history(&quest, 0).unwrap_err().kind, Rejection::PlayingHistory);
    assert_eq!(game.start_history(&quest, 7).unwrap_err().kind, Rejection::PlayingHistory);
    assert_eq!(
        game.start_history(&TilePos { q: 0, r: 0 }, 0).unwrap_err().kind,
        Rejection::PlayingHistory
    );
    assert_eq!(format!("{:?}", game), before);
    assert_eq!(rejection(game.wait()), Rejection::PlayingHistory);
    assert!(game.finish_history());
    assert!(!game.finish_history());
    assert!(game.start_history(&quest, 0).is_ok());
}

#[test]
fn expedition_needs_an_inhabited_tile_in_reach() {
    let mut rm = catalog();
    rm.field_types[0].data.characteristic = FieldCharacteristic::Mysterious;
    rm.field_types[2].data.characteristic = FieldCharacteristic::Mysterious;
    let mut game = start(rm);
    let quest = TilePos { q: 8, r: 18 };
    game.build(&quest, "cottage").unwrap();
    game.wait().unwrap();
    assert_eq!(game.start_history(&quest, 0).unwrap_err().kind, Rejection::TooFar);
    assert!(game.history.is_none());
}

#[test]
fn path_left_falls_by_one_on_each_action_and_not_on_a_pass() {
    let mut rm = catalog();
    rm.origin_fields[0].data.possible_actions = vec![];
    let mut game = start(rm);
    let quest = TilePos { q: 8, r: 18 };
    game.build(&quest, "cottage").unwrap();
    game.wait().unwrap();
    game.start_history(&quest, 0).unwrap();
    assert_eq!(game.history.as_ref().unwrap().path_left, 3);
    assert_eq!(game.history.as_ref().unwrap().current_pos, None);

    let report = game.play_move(&quest, "collect_info_village").unwrap();
    assert_eq!(report.len(), 1);
    assert_eq!(game.history.as_ref().unwrap().path_left, 2);
    assert_eq!(game.history.as_ref().unwrap().current_pos, Some(quest));

    let empty = TilePos { q: 8, r: 17 };
    let moves = game.get_possible_hero_moves().unwrap();
    assert!(moves.contains(&(empty, "".to_string())));
    assert!(moves.contains(&(TilePos { q: 9, r: 18 }, "shopping_village".to_string())));
    let report = game.play_move(&empty, "").unwrap();
    assert_eq!(
        report,
        vec![GameCallback::HeroMoved {
            dest_position: empty,
            hero_number: 0,
            success: 0,
            action_performed: "".to_string()
        }]
    );
    assert_eq!(game.history.as_ref().unwrap().path_left, 2);
    assert_eq!(game.history.as_ref().unwrap().current_pos, Some(empty));
    assert_eq!(game.history.as_ref().unwrap().steps.len(), 2);

    let before = format!("{:?}", game);
    assert_eq!(
        rejection(game.play_move(&TilePos { q: 8, r: 15 }, "")),
        Rejection::IllegalStep
    );
    assert_eq!(rejection(game.play_move(&quest, "shopping_village")), Rejection::IllegalStep);
    assert_eq!(rejection(game.play_move(&quest, "collect_info_village")), Rejection::IllegalStep);
    assert_eq!(rejection(game.play_move(&TilePos { q: 800, r: 15 }, "")), Rejection::IllegalStep);
    assert_eq!(format!("{:?}", game), before);

    game.play_move(&TilePos { q: 9, r: 17 }, "").unwrap();
    game.play_move(&TilePos { q: 9, r: 18 }, "shopping_village").unwrap();
    assert_eq!(game.history.as_ref().unwrap().path_left, 1);
    game.play_move(&TilePos { q: 9, r: 18 }, "collect_info_village").unwrap_err();
    game.play_move(&TilePos { q: 9, r: 17 }, "").unwrap();
    game.play_move(&TilePos { q: 9, r: 18 }, "collect_info_village").unwrap();
    assert_eq!(game.history.as_ref().unwrap().path_left, 0);
    for step in game.get_possible_hero_moves().unwrap() {
        assert_eq!(step.1, "");
        assert_eq!(step.0, quest);
    }
    game.play_move(&quest, "").unwrap();
    assert_eq!(game.history.as_ref().unwrap().path_left, 0);
}

#[test]
fn missing_action_breaks_the_expedition() {
    let mut rm = catalog();
    rm.actions.remove(0);
    let mut game = start(rm);
    let quest = TilePos { q: 8, r: 18 };
    game.build(&quest, "cottage").unwrap();
    game.wait().unwrap();
    game.start_history(&quest, 0).unwrap();
    assert_eq!(game.get_possible_hero_moves().unwrap_err().kind, GameFault::MissingResource);
    let before = format!("{:?}", game);
    assert_eq!(fault(game.play_move(&quest, "shopping_village")), GameFault::MissingResource);
    assert_eq!(format!("{:?}", game), before);
}

#[test]
fn instant_effects_play_in_order() {
    let mut rm = catalog();
    rm.field_types[3].data.instant_effects = vec![
        FieldInstantEffect::IncreaseMaxHeroes { only_first_time: false },
        FieldInstantEffect::GiveResources {
            only_first_time: false,
            resource: GResource::Story,
            amount: 4,
        },
        FieldInstantEffect::GiveResources {
            only_first_time: true,
            resource: GResource::Gold,
            amount: 50,
        },
        FieldInstantEffect::ShowFields { only_first_time: false, amount: 3 },
        FieldInstantEffect::IncreaseSkill {
            only_first_time: false,
            skill: HeroSkill::Magic,
            amount: 1,
        },
        FieldInstantEffect::LearnAboutAction { only_first_time: false },
    ];
    let mut game = start(rm);
    let first = game.build(&TilePos { q: 7, r: 18 }, "wilderness").unwrap();
    assert_eq!(
        first,
        vec![
            GameCallback::MaxHeroesIncreased { current_max_heroes: 2 },
            GameCallback::ChangedResource { resource: GResource::Story, new_value: 4 },
            GameCallback::NewTileContent {
                position: TilePos { q: 7, r: 18 },
                field_type_id: "wilderness".to_string()
            },
        ]
    );
    assert_eq!(game.max_heroes, 2);
    assert_eq!(game.game_resources.get(GResource::Gold), Some(10));
    let second = game.build(&TilePos { q: 6, r: 18 }, "wilderness").unwrap();
    assert_eq!(
        second,
        vec![
            GameCallback::MaxHeroesIncreased { current_max_heroes: 3 },
            GameCallback::ChangedResource { resource: GResource::Story, new_value: 8 },
            GameCallback::ChangedResource { resource: GResource::Gold, new_value: 60 },
            GameCallback::NewTileContent {
                position: TilePos { q: 6, r: 18 },
                field_type_id: "wilderness".to_string()
            },
        ]
    );
    let wilderness = &game.resource_manager.field_types[3];
    assert!(game.check_if_should_play_effect(wilderness, true));
    assert!(!game.check_if_should_play_effect(&game.resource_manager.field_types[1], true));
}

#[test]
fn replacement_skips_the_build_path() {
    let mut rm = catalog();
    rm.add_field_type(field(
        "ruin",
        "ruins",
        4,
        FieldCharacteristic::Mysterious,
        vec![FieldRequirment::Replaces("village_small".to_string())],
        Ledger::new(),
    ));
    rm.add_field_type(field(
        "swamp_hut",
        "huts",
        0,
        FieldCharacteristic::Habited,
        vec![FieldRequirment::HasOrigin("swamp".to_string())],
        Ledger::new(),
    ));
    rm.add_field_type(field(
        "meadow_hut",
        "huts",
        0,
        FieldCharacteristic::Habited,
        vec![FieldRequirment::HasOriginOneOf(names(&["hills", "meadow"]))],
        Ledger::new(),
    ));
    rm.add_field_type(field(
        "shrine",
        "shrines",
        0,
        FieldCharacteristic::Mysterious,
        vec![FieldRequirment::QuestCompleted],
        Ledger::new(),
    ));
    rm.add_field_type(field(
        "nothing",
        "nothing",
        0,
        FieldCharacteristic::Mysterious,
        vec![FieldRequirment::CantBuild],
        Ledger::new(),
    ));
    rm.add_field_type(field(
        "inn",
        "inns",
        0,
        FieldCharacteristic::Habited,
        vec![
            FieldRequirment::NearFieldWithId { id: "village_small".to_string(), distance: 2 },
            FieldRequirment::NearFieldWithCharacteristic {
                characteristic: FieldCharacteristic::Habited,
                distance: 2,
            },
            FieldRequirment::NoNearFieldWithId { id: "inn".to_string(), distance: 40 },
        ],
        Ledger::new(),
    ));
    let mut game = start(rm);
    assert_eq!(option_ids(&game, 9, 18), names(&["village", "ruin"]));
    assert_eq!(option_ids(&game, 7, 18), names(&["wilderness", "meadow_hut", "inn"]));
    assert_eq!(option_ids(&game, 6, 18), names(&["wilderness", "meadow_hut"]));
    game.build(&TilePos { q: 7, r: 18 }, "inn").unwrap();
    assert_eq!(option_ids(&game, 9, 16), names(&["wilderness", "meadow_hut"]));
    assert_eq!(option_ids(&game, 7, 18), Vec::<String>::new());
    game.build(&TilePos { q: 9, r: 18 }, "ruin").unwrap();
    assert_eq!(option_ids(&game, 8, 18), names(&["meadow_hut"]));
    assert_eq!(option_ids(&game, 12, 18), names(&["village_small", "wilderness", "meadow_hut"]));
}

#[test]
fn ordering_requirements_gate_actions() {
    let mut rm = catalog();
    rm.actions[1].data.requirments = vec![ActionRequirment::IsBefore("collect_info_village".to_string())];
    rm.actions[2].data.requirments = vec![ActionRequirment::IsBeforeFamily("trade".to_string())];
    rm.actions[3].data.requirments = vec![ActionRequirment::IsBeforePosition(1)];
    rm.field_types[2].data.possible_actions = names(&["collect_info_village", "shopping_village"]);
    let mut game = start(rm);
    let quest = TilePos { q: 8, r: 18 };
    let mid = TilePos { q: 9, r: 18 };
    game.build(&quest, "cottage").unwrap();
    game.wait().unwrap();
    game.start_history(&quest, 0).unwrap();
    let moves = game.get_possible_hero_moves().unwrap();
    assert_eq!(
        moves,
        vec![
            (quest, "collect_info_village".to_string()),
            (mid, "collect_info_village".to_string()),
        ]
    );
    game.play_move(&mid, "collect_info_village").unwrap();
    let moves = game.get_possible_hero_moves().unwrap();
    assert!(moves.contains(&(quest, "collect_info_village".to_string())));
    assert!(moves.contains(&(quest, "shopping_village".to_string())));
    assert!(moves.contains(&(TilePos { q: 9, r: 17 }, "".to_string())));
    assert!(!moves.iter().any(|step| step.1 == "gathering_meadow"));
    assert!(!moves.iter().any(|step| step.1 == "exploration_meadow"));
    game.play_move(&quest, "shopping_village").unwrap();
    let moves = game.get_possible_hero_moves().unwrap();
    assert!(moves.contains(&(TilePos { q: 8, r: 17 }, "exploration_meadow".to_string())));
    assert!(moves.contains(&(mid, "shopping_village".to_string())));
    assert!(!moves.contains(&(mid, "collect_info_village".to_string())));
    assert!(!moves.iter().any(|step| step.1 == "gathering_meadow"));
    let history = game.history.as_ref().unwrap();
    assert!(history.permits(&game.resource_manager.actions[2]));
    assert!(!history.permits(&game.resource_manager.actions[3]));
    assert_eq!(history.is_action_permited(&"shopping_village".to_string(), &game).unwrap(), true);
    assert!(history.is_action_permited(&"dance".to_string(), &game).is_err());
    assert!(history.was_performed(&quest, "shopping_village"));
    assert!(!history.was_performed(&mid, "shopping_village"));
}

#[test]
fn new_game_needs_settings() {
    let rm: &'static ResourceManager = Box::leak(Box::new(ResourceManager::new()));
    assert_eq!(STWGame::new(rm).unwrap_err().kind, GameFault::NoGlobals);
    let rm: &'static ResourceManager = Box::leak(Box::new(catalog()));
    let mut game = STWGame::new(rm).unwrap();
    assert_eq!(game.max_heroes, 1);
    assert_eq!(game.max_path_length, 3);
    assert_eq!(game.start_game(0, &vec![]).unwrap_err().kind, GameFault::BadMapSize);
    assert_eq!(game.map.size, 0);
    game.start_game(37, &sample_noise(37, "test seed", 0.3f32 as f64)).unwrap();
    assert_eq!(game.map.len(), 37 * 37);
    assert_eq!(game.map.get_mid_position(), TilePos { q: 9, r: 18 });
}

#[test]
fn three_draws_fix_the_spawn() {
    let mut rm = catalog();
    // the village knows three hero levels, the middle one without weight
    rm.field_types[0].data.hero_levels = vec![2, 0, 3];
    rm.field_types[2].data.hero_family = "cottage".to_string();
    rm.field_types[2].data.hero_levels = vec![1];
    for (id, family, level) in
        [("elder", "village", 2), ("smith", "village", 2), ("hermit", "cottage", 0)]
    {
        rm.add_hero(Resource {
            id: id.to_string(),
            data: HeroData {
                hero_family: family.to_string(),
                hero_level: level,
                init_skills: SkillLevels::new(),
            },
        });
    }
    let mut game = start(rm);
    let quest = TilePos { q: 8, r: 18 };
    let mid = TilePos { q: 9, r: 18 };
    game.build(&quest, "cottage").unwrap();
    let rm = game.resource_manager;

    let bearers = bearing_tiles(&game, false);
    // in the order of the map: the cottage at (8, 18), then the village at (9, 18)
    assert_eq!(bearers.tiles.len(), 2);
    assert_eq!(bearers.tiles[0].get_position(), quest);
    assert_eq!(bearers.tiles[1].get_position(), mid);
    assert_eq!(bearers.families, vec!["cottage", "village"]);
    assert_eq!(bearers.weights, vec![1, 3]);
    assert_eq!(bearers.level_bound(0), 1);
    assert_eq!(bearers.level_bound(1), 5);
    assert_eq!(bearers.level_bound(3), 5);
    assert_eq!(bearers.level_bound(4), 0);
    assert_eq!(bearers.place_for(0, 0), Some((0, 0)));
    assert_eq!(bearers.place_for(0, 1), None);
    assert_eq!(bearers.place_for(1, 1), Some((1, 0)));
    assert_eq!(bearers.place_for(3, 2), Some((1, 2)));
    assert_eq!(bearers.place_for(3, 4), Some((1, 2)));
    assert_eq!(bearers.place_for(3, 5), None);
    assert_eq!(bearers.place_for(4, 0), None);
    assert_eq!(HeroController::template_bound(rm, &bearers, 0, 0), 1);
    assert_eq!(HeroController::template_bound(rm, &bearers, 1, 0), 1);
    assert_eq!(HeroController::template_bound(rm, &bearers, 1, 2), 2);
    assert_eq!(HeroController::template_bound(rm, &bearers, 4, 0), 0);

    let spawn = |a: u128, b: u128, c: u128| {
        HeroController::spawn_for(rm, &bearers, a, b, c)
            .map(|(pos, template)| (pos, template.id.clone()))
            .map_err(|e| e.kind)
    };
    assert_eq!(spawn(0, 0, 0), Ok((quest, "hermit".to_string())));
    assert_eq!(spawn(1, 0, 0), Ok((mid, "villager".to_string())));
    assert_eq!(spawn(2, 1, 0), Ok((mid, "villager".to_string())));
    assert_eq!(spawn(3, 2, 0), Ok((mid, "elder".to_string())));
    assert_eq!(spawn(3, 4, 1), Ok((mid, "smith".to_string())));
    assert_eq!(spawn(3, 4, 2), Err(GameFault::NoTemplate));
    assert_eq!(spawn(0, 0, 1), Err(GameFault::NoTemplate));
    assert_eq!(spawn(3, 5, 0), Err(GameFault::NoCandidate));
    assert_eq!(spawn(4, 0, 0), Err(GameFault::NoCandidate));

    let quests = bearing_tiles(&game, true);
    assert_eq!(quests.tiles.len(), 1);
    assert_eq!(quests.tiles[0].get_position(), quest);
    assert_eq!(quests.families, vec!["cottage"]);
    let spawn = |a: u128, b: u128, c: u128| {
        QuestController::spawn_for(rm, &quests, a, b, c)
            .map(|(pos, template)| (pos, template.id.clone()))
            .map_err(|e| e.kind)
    };
    assert_eq!(spawn(0, 0, 0), Ok((quest, "lost_sheep".to_string())));
    assert_eq!(spawn(0, 0, 1), Err(GameFault::NoTemplate));
    assert_eq!(spawn(0, 999_999, 0), Ok((quest, "lost_sheep".to_string())));
    assert_eq!(spawn(0, 1_000_000, 0), Err(GameFault::NoCandidate));
    assert_eq!(spawn(1, 0, 0), Err(GameFault::NoCandidate));
    assert_eq!(QuestController::template_bound(rm, &quests, 0, 0), 1);
    assert_eq!(QuestController::template_bound(rm, &quests, 1, 0), 0);
}

#[test]
fn failures_say_why() {
    let mut game = start(catalog());
    let bad = game.build(&TilePos { q: 9, r: 18 }, "village").unwrap_err();
    assert_eq!(bad.kind, Rejection::NotEnoughResources);
    assert_eq!(bad.msg, "Not enought resources to build");
    let bad = game.can_start_history(&TilePos { q: 9, r: 18 }).unwrap_err();
    assert_eq!(bad.msg, "No quest at position");
    match game.perform_move(&GameMove::PlayMove(TilePos { q: 9, r: 18 }, "".to_string())) {
        Err(MoveError::Rejected(bad)) => {
            assert_eq!(bad.kind, Rejection::NoHistory);
            assert_eq!(bad.msg, Rejection::NoHistory.text());
        }
        other => panic!("not a rejection: {:?}", other),
    }
    let mut rm = catalog();
    rm.heroes.clear();
    let mut game = start(rm);
    match game.wait() {
        Err(MoveError::Broken(e)) => {
            assert_eq!(e.kind, GameFault::NoTemplate);
            assert_eq!(e.msg, GameFault::NoTemplate.text());
        }
        other => panic!("not a broken move: {:?}", other),
    }
}
