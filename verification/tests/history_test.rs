use stw_game_lib::game::game_controller::GameCallback;
use stw_game_lib::game::hero::Hero;
use stw_game_lib::game::history::History;
use stw_game_lib::game::map::TilePos;
use stw_game_lib::game::quest::Quest;
use stw_game_lib::game::GameFault;
use stw_game_lib::resource::enums::{ActionRequirment, HeroSkill};
use stw_game_lib::resource::resource_data::{ActionData, EternalModificator, HeroData, QuestData};
use stw_game_lib::resource::tables::{SkillLevels, SkillRanges};
use stw_game_lib::resource::{Resource, ResourceManager};

fn levels(list: &[(HeroSkill, i64)]) -> SkillLevels {
    let mut table = SkillLevels::new();
    for (skill, level) in list.iter() {
        table.insert(*skill, *level);
    }
    table
}

fn ranges(list: &[(HeroSkill, i64, i64)]) -> SkillRanges {
    let mut table = SkillRanges::new();
    for (skill, min, max) in list.iter() {
        table.insert(*skill, *min, *max);
    }
    table
}

fn catalog() -> &'static ResourceManager {
    let mut rm = ResourceManager::new();
    rm.add_hero(Resource {
        id: "scout".to_string(),
        data: HeroData {
            hero_family: "forest".to_string(),
            hero_level: 1,
            init_skills: levels(&[(HeroSkill::Tracking, 2_000_000), (HeroSkill::Magic, 500_000)]),
        },
    });
    rm.add_quest(Resource {
        id: "wolves".to_string(),
        data: QuestData {
            quest_family: "forest".to_string(),
            quest_level: 0,
            quest_decisions: vec![],
            penalty: vec![],
        },
    });
    rm.add_action(Resource {
        id: "track".to_string(),
        data: ActionData {
            action_family: "hunt".to_string(),
            modificators: levels(&[(HeroSkill::Tracking, 250_000), (HeroSkill::Magic, -100_000)]),
            points: ranges(&[
                (HeroSkill::Tracking, 1_000_000, 3_000_000),
                (HeroSkill::Strength, 0, 2_000_000),
            ]),
            bonus_points: vec![
                (
                    ActionRequirment::IsBeforeFamily("camp".to_string()),
                    ranges(&[(HeroSkill::Tracking, 4_000_000, 4_000_000)]),
                ),
                (
                    ActionRequirment::IsBeforePosition(1),
                    ranges(&[(HeroSkill::Magic, 2_000_000, 6_000_000)]),
                ),
            ],
            requirments: vec![],
            eternal_modificator: EternalModificator {
                skills: levels(&[(HeroSkill::Tracking, 100_000), (HeroSkill::Charisma, 50_000)]),
                probability: 400_000,
            },
            modificator_info: vec![],
        },
    });
    rm.add_action(Resource {
        id: "rest".to_string(),
        data: ActionData {
            action_family: "camp".to_string(),
            modificators: SkillLevels::new(),
            points: SkillRanges::new(),
            bonus_points: vec![],
            requirments: vec![],
            eternal_modificator: EternalModificator { skills: SkillLevels::new(), probability: 0 },
            modificator_info: vec![],
        },
    });
    Box::leak(Box::new(rm))
}

fn expedition(hero: &Hero) -> History<'static> {
    History {
        hero_index: 0,
        quest_pos: TilePos { q: 0, r: 0 },
        steps: Vec::new(),
        points_got: SkillLevels::new(),
        current_modificators: *hero.get_skills(),
        current_pos: None,
        path_left: 3,
    }
}

#[test]
fn step_counts_points_by_the_roll() {
    let rm = catalog();
    let track = rm.get_action("track").unwrap();
    let mut heroes = vec![Hero::new(rm, "scout").unwrap()];
    assert_eq!(heroes[0].name, "Ziom");
    let mut history = expedition(&heroes[0]);
    let pos = TilePos { q: 1, r: 0 };

    // half a roll: no lasting growth, since 1 - 0.4 is not below 0.5
    let report = history.apply_step(pos, Some(track), 500_000, &mut heroes);
    assert_eq!(
        report,
        vec![GameCallback::HeroMoved {
            dest_position: pos,
            hero_number: 0,
            success: 500_000,
            action_performed: "track".to_string()
        }]
    );
    assert_eq!(history.path_left, 2);
    assert_eq!(history.current_pos, Some(pos));
    assert_eq!(history.steps.len(), 1);
    // tracking: 2.0 * (0.5 * (3 - 1) + 1) = 4.0; strength: 1.0 * (0.5 * 2) = 1.0
    assert_eq!(history.points_got.get(HeroSkill::Tracking), Some(4_000_000));
    assert_eq!(history.points_got.get(HeroSkill::Strength), Some(1_000_000));
    // the bonus for an early step: magic 0.5 * (0.5 * 4 + 2) = 2.0
    assert_eq!(history.points_got.get(HeroSkill::Magic), Some(2_000_000));
    assert_eq!(history.points_got.get(HeroSkill::Charisma), None);
    assert_eq!(history.current_modificators.get(HeroSkill::Tracking), Some(2_250_000));
    assert_eq!(history.current_modificators.get(HeroSkill::Magic), Some(400_000));
    assert_eq!(history.current_modificators.get(HeroSkill::Strength), Some(1_000_000));
    assert_eq!(heroes[0].get_skills().get(HeroSkill::Tracking), Some(2_000_000));

    // a pass costs nothing and counts nothing
    let camp = TilePos { q: 1, r: 1 };
    let report = history.apply_step(camp, None, 0, &mut heroes);
    assert_eq!(report.len(), 1);
    assert_eq!(history.path_left, 2);
    assert_eq!(history.current_pos, Some(camp));
    let rest = rm.get_action("rest").unwrap();
    history.apply_step(camp, Some(rest), 999_999, &mut heroes);
    assert_eq!(history.path_left, 1);
    assert_eq!(history.points_got.get(HeroSkill::Tracking), Some(4_000_000));

    // a high roll after a camp: the camp bonus counts, the early one does not,
    // and the skills grow for good
    let report = history.apply_step(pos, Some(track), 750_000, &mut heroes);
    assert_eq!(
        report,
        vec![
            GameCallback::HeroMoved {
                dest_position: pos,
                hero_number: 0,
                success: 750_000,
                action_performed: "track".to_string()
            },
            GameCallback::HeroLeveled {
                hero_number: 0,
                skill: HeroSkill::Charisma,
                new_skill_value: 1_050_000
            },
            GameCallback::HeroLeveled {
                hero_number: 0,
                skill: HeroSkill::Tracking,
                new_skill_value: 2_100_000
            },
        ]
    );
    assert_eq!(history.path_left, 0);
    // tracking: 4.0 + 2.25 * (0.75 * 2 + 1) + 2.25 * 4.0 = 4.0 + 5.625 + 9.0
    assert_eq!(history.points_got.get(HeroSkill::Tracking), Some(18_625_000));
    // strength: 1.0 + 1.0 * 1.5
    assert_eq!(history.points_got.get(HeroSkill::Strength), Some(2_500_000));
    assert_eq!(history.points_got.get(HeroSkill::Magic), Some(2_000_000));
    assert_eq!(history.current_modificators.get(HeroSkill::Tracking), Some(2_500_000));
    assert_eq!(heroes[0].get_skills().get(HeroSkill::Tracking), Some(2_100_000));
    assert_eq!(heroes[0].get_skills().get(HeroSkill::Charisma), Some(1_050_000));
    assert_eq!(heroes[0].get_skills().get(HeroSkill::Magic), Some(500_000));
    assert_eq!(history.steps.len(), 4);
}

#[test]
fn lasting_growth_needs_a_roll_above_the_threshold() {
    let rm = catalog();
    let track = rm.get_action("track").unwrap();
    let pos = TilePos { q: 1, r: 0 };
    for (roll, grown) in [(600_000, false), (600_001, true), (0, false), (999_999, true)] {
        let mut heroes = vec![Hero::new(rm, "scout").unwrap()];
        let mut history = expedition(&heroes[0]);
        let report = history.apply_step(pos, Some(track), roll, &mut heroes);
        assert_eq!(report.len(), if grown { 3 } else { 1 });
        let expected = if grown { 2_100_000 } else { 2_000_000 };
        assert_eq!(heroes[0].get_skills().get(HeroSkill::Tracking), Some(expected));
    }
}

#[test]
fn perform_move_draws_its_own_roll() {
    let rm = catalog();
    let mut heroes = vec![Hero::new(rm, "scout").unwrap()];
    let mut history = expedition(&heroes[0]);
    let pos = TilePos { q: 1, r: 0 };
    let report = history.perform_move(pos, "track".to_string(), rm, &mut heroes);
    match &report[0] {
        GameCallback::HeroMoved { dest_position, hero_number, success, action_performed } => {
            assert_eq!(*dest_position, pos);
            assert_eq!(*hero_number, 0);
            assert!(0 <= *success && *success < 1_000_000);
            assert_eq!(action_performed, "track");
            let tracking = 2 * (*success * 2 + 1_000_000);
            assert_eq!(history.points_got.get(HeroSkill::Tracking), Some(tracking));
            assert_eq!(report.len(), if *success > 600_000 { 3 } else { 1 });
        }
        other => panic!("no move reported: {:?}", other),
    }
    assert_eq!(history.path_left, 2);
    let report = history.perform_move(pos, "".to_string(), rm, &mut heroes);
    assert_eq!(report.len(), 1);
    assert_eq!(history.path_left, 2);
    assert_eq!(history.steps.len(), 2);
    assert!(History::action_meats_requirment(
        &history.steps,
        &ActionRequirment::IsBefore("".to_string())
    ));
    assert!(History::action_meats_requirment(
        &history.steps,
        &ActionRequirment::IsBefore("track".to_string())
    ));
    assert!(!History::action_meats_requirment(
        &history.steps,
        &ActionRequirment::IsBefore("rest".to_string())
    ));
    assert!(History::action_meats_requirment(
        &history.steps,
        &ActionRequirment::IsBeforeFamily("hunt".to_string())
    ));
    assert!(History::action_meats_requirment(
        &history.steps,
        &ActionRequirment::IsBeforePosition(3)
    ));
    assert!(!History::action_meats_requirment(
        &history.steps,
        &ActionRequirment::IsBeforePosition(2)
    ));
}

#[test]
fn heroes_and_quests_come_from_templates() {
    let rm = catalog();
    let mut hero = Hero::new(rm, "scout").unwrap();
    assert_eq!(hero.background.data.hero_level, 1);
    assert_eq!(hero.get_skills().get(HeroSkill::Tracking), Some(2_000_000));
    assert_eq!(hero.get_skills().get(HeroSkill::Magic), Some(500_000));
    assert_eq!(hero.get_skills().get(HeroSkill::Alechemy), Some(1_000_000));
    hero.get_skills_mut().insert(HeroSkill::Alechemy, 7);
    assert_eq!(hero.get_skills().get(HeroSkill::Alechemy), Some(7));
    assert_eq!(Hero::new(rm, "knight").unwrap_err().kind, GameFault::MissingResource);
    let quest = Quest::new(rm, "wolves", 4, &TilePos { q: 2, r: 5 }).unwrap();
    assert_eq!(quest.get_position(), TilePos { q: 2, r: 5 });
    assert_eq!(quest.creation_turn, 4);
    assert_eq!(quest.quest_type.id, "wolves");
    assert_eq!(
        Quest::new(rm, "dragons", 4, &TilePos { q: 2, r: 5 }).unwrap_err().kind,
        GameFault::MissingResource
    );
}

#[test]
fn a_pass_reads_no_hero() {
    let rm: &'static ResourceManager = Box::leak(Box::new(ResourceManager::new()));
    let mut heroes: Vec<Hero> = vec![];
    let mut history = History {
        hero_index: 0,
        quest_pos: TilePos { q: 0, r: 0 },
        steps: vec![],
        points_got: SkillLevels::new(),
        current_modificators: SkillLevels::new(),
        current_pos: None,
        path_left: 3,
    };
    let pos = TilePos { q: 1, r: 0 };
    let report = history.perform_move(pos, String::new(), rm, &mut heroes);
    assert_eq!(
        report,
        vec![GameCallback::HeroMoved {
            dest_position: pos,
            hero_number: 0,
            success: 0,
            action_performed: "".to_string()
        }]
    );
    assert_eq!(history.steps.len(), 1);
    assert_eq!(history.steps[0].0, pos);
    assert!(history.steps[0].1.is_none());
    assert_eq!(history.path_left, 3);
    for i in 0..9 {
        assert_eq!(history.points_got.get(HeroSkill::from_index(i)), None);
    }
    assert_eq!(history.current_pos, Some(pos));
    assert!(heroes.is_empty());
}
