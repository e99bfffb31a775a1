use stw_game_lib::game::game_controller::{draw_below, pick_weighted, total_weight};
use stw_game_lib::game::{BadMove, GameError, GameFault, Rejection};
use stw_game_lib::quantity::{add_quantities, award, interpolate, multiply_quantities, UNIT};
use stw_game_lib::random::roll;
use stw_game_lib::resource::enums::{
    FieldCharacteristic, FieldInstantEffect, FieldRequirment, GResource, HeroSkill,
};
use stw_game_lib::resource::resource_data::{
    distance_of, FieldTypeData, Globals, NearProbe, OriginFieldData,
};
use stw_game_lib::resource::tables::{Ledger, SkillLevels, SkillRanges};
use stw_game_lib::resource::{contains_id, find_record, get_record, Resource, ResourceManager};

fn names(list: &[&str]) -> Vec<String> {
    list.iter().map(|name| name.to_string()).collect()
}

fn meadow() -> Resource<OriginFieldData> {
    Resource {
        id: "meadow".to_string(),
        data: OriginFieldData {
            height: 600_000,
            vegetation: 400_000,
            possible_actions: names(&["exploration_meadow", "gathering_meadow"]),
            color: (200, 255, 0),
        },
    }
}

fn village_small() -> Resource<FieldTypeData> {
    let mut cost = Ledger::new();
    cost.insert(GResource::Gold, 10);
    cost.insert(GResource::RareTrophy, 1);
    Resource {
        id: "village_small".to_string(),
        data: FieldTypeData {
            build_path: "town".to_string(),
            path_level: 0,
            characteristic: FieldCharacteristic::Habited,
            requirments: vec![
                FieldRequirment::NoNearFieldWithCharacteristic {
                    characteristic: FieldCharacteristic::Mysterious,
                    distance: 2,
                },
                FieldRequirment::NoNearFieldWithPath { build_path: "town".to_string(), distance: 5 },
            ],
            cost,
            instant_effects: vec![FieldInstantEffect::ShowFields {
                only_first_time: false,
                amount: 18,
            }],
            quest_family: "".to_string(),
            quest_levels: vec![],
            hero_family: "village".to_string(),
            hero_levels: vec![600_000, 400_000],
            possible_actions: names(&["collect_info_village", "shopping_village"]),
            color: (139, 69, 19),
        },
    }
}

fn generate_test_resources() -> ResourceManager {
    let mut resource_manager = ResourceManager::new();
    let mut start = Ledger::new();
    start.insert(GResource::Gold, 5);
    resource_manager.add_globals(Resource {
        id: "globals".to_string(),
        data: Globals {
            init_path_length_per_hero: 3,
            start_game_resources: start,
            map_frequency: 300_000,
            map_middle: "village_small".to_string(),
            map_near_mid_enable: names(&["meadow", "forest", "hills"]),
            map_visible_on_start: 3,
            win_cond_build_path: "town".to_string(),
        },
    });
    resource_manager.add_origin_field(meadow());
    resource_manager.add_field_type(village_small());
    resource_manager
}

#[test]
fn test_resource_manager_all_types() {
    let resource_manager = generate_test_resources();
    assert_eq!(resource_manager.globals.len(), 1);
    assert_eq!(resource_manager.origin_fields.len(), 1);
    assert_eq!(resource_manager.field_types.len(), 1);
}

#[test]
fn catalog_finds_records_by_id() {
    let mut rm = generate_test_resources();
    assert_eq!(rm.get_origin_field("meadow").unwrap().data.height, 600_000);
    assert_eq!(rm.get_field_type("village_small").unwrap().data.path_level, 0);
    assert_eq!(rm.get_field_type("meadow").unwrap_err().kind, GameFault::MissingResource);
    assert_eq!(rm.get_origin_field("Meadow").unwrap_err().kind, GameFault::MissingResource);
    assert_eq!(rm.get_hero("villager").unwrap_err().kind, GameFault::MissingResource);
    assert_eq!(rm.get_quest("lost_sheep").unwrap_err().kind, GameFault::MissingResource);
    assert_eq!(rm.get_action("dance").unwrap_err().kind, GameFault::MissingResource);
    assert_eq!(rm.get_globals().unwrap().id, "globals");
    assert_eq!(ResourceManager::new().get_globals().unwrap_err().kind, GameFault::NoGlobals);

    let mut other = meadow();
    other.data.height = 1;
    rm.add_origin_field(other);
    assert_eq!(rm.origin_fields.len(), 1);
    assert_eq!(rm.get_origin_field("meadow").unwrap().data.height, 1);
    let mut forest = meadow();
    forest.id = "forest".to_string();
    rm.add_origin_field(forest);
    assert_eq!(rm.origin_fields.len(), 2);
    assert_eq!(find_record(&rm.origin_fields, "forest"), Some(1));
    assert_eq!(find_record(&rm.origin_fields, "hills"), None);
    assert_eq!(get_record(&rm.origin_fields, "forest").unwrap().id, "forest");
    assert!(contains_id(&names(&["a", "b"]), "b"));
    assert!(!contains_id(&names(&["a", "b"]), "ab"));
    assert!(!contains_id(&names(&[]), ""));
    assert_eq!(rm.build_reach(), 5);
    assert_eq!(ResourceManager::new().build_reach(), 0);
    assert_eq!(distance_of(&FieldRequirment::CantBuild), 0);
    assert_eq!(distance_of(&FieldRequirment::NearFieldWithId { id: "x".to_string(), distance: 9 }), 9);
}

#[test]
fn ledger_pays_costs() {
    let village = village_small();
    let mut ledger = Ledger::new();
    assert!(!village.has_enough_resources(&ledger));
    ledger.insert(GResource::Gold, 10);
    assert!(!village.has_enough_resources(&ledger));
    ledger.insert(GResource::RareTrophy, 0);
    assert!(!village.has_enough_resources(&ledger));
    ledger.insert(GResource::RareTrophy, 3);
    ledger.insert(GResource::Story, 8);
    assert!(village.has_enough_resources(&ledger));
    village.spent_resources(&mut ledger);
    assert_eq!(ledger.get(GResource::Gold), Some(0));
    assert_eq!(ledger.get(GResource::RareTrophy), Some(2));
    assert_eq!(ledger.get(GResource::Story), Some(8));
    assert_eq!(ledger.get(GResource::EpicTrophy), None);
    assert!(!village.has_enough_resources(&ledger));
    let filled = ledger.filled();
    for i in 0..9 {
        let kind = GResource::from_index(i);
        assert_eq!(kind.index(), i);
        assert_eq!(filled.get(kind), Some(ledger.get(kind).unwrap_or(0)));
    }
}

#[test]
fn legality_reads_the_bands() {
    let village = village_small();
    let origin = meadow();
    let mut ruin = village_small();
    ruin.id = "ruin".to_string();
    ruin.data.build_path = "ruins".to_string();
    ruin.data.characteristic = FieldCharacteristic::Mysterious;
    let mut town = village_small();
    town.id = "town_hall".to_string();
    town.data.path_level = 1;
    town.data.requirments = vec![];

    let empty: Vec<Vec<&Resource<FieldTypeData>>> = vec![vec![], vec![], vec![], vec![]];
    assert!(village.is_possible_to_be_build(&origin, &None, &empty, false));
    assert!(!village.is_possible_to_be_build(&origin, &Some(&village), &empty, false));
    assert!(!town.is_possible_to_be_build(&origin, &None, &empty, false));
    assert!(town.is_possible_to_be_build(&origin, &Some(&village), &empty, false));
    assert!(!town.is_possible_to_be_build(&origin, &Some(&ruin), &empty, false));
    assert!(!town.is_possible_to_be_build(&origin, &Some(&town), &empty, false));

    let on_tile: Vec<Vec<&Resource<FieldTypeData>>> = vec![vec![&ruin], vec![], vec![]];
    assert!(village.is_possible_to_be_build(&origin, &None, &on_tile, false));
    let at_two: Vec<Vec<&Resource<FieldTypeData>>> = vec![vec![], vec![], vec![&ruin], vec![]];
    assert!(!village.is_possible_to_be_build(&origin, &None, &at_two, false));
    let at_three: Vec<Vec<&Resource<FieldTypeData>>> = vec![vec![], vec![], vec![], vec![&ruin]];
    assert!(village.is_possible_to_be_build(&origin, &None, &at_three, false));
    let town_at_five: Vec<Vec<&Resource<FieldTypeData>>> =
        vec![vec![], vec![], vec![], vec![], vec![], vec![&village, &ruin]];
    assert!(!village.is_possible_to_be_build(&origin, &None, &town_at_five, false));
    let town_at_six: Vec<Vec<&Resource<FieldTypeData>>> =
        vec![vec![], vec![], vec![], vec![], vec![], vec![], vec![&village]];
    assert!(village.is_possible_to_be_build(&origin, &None, &town_at_six, false));

    assert!(NearProbe::Id("ruin").found_near(&at_two, 2));
    assert!(!NearProbe::Id("ruin").found_near(&at_two, 1));
    assert!(!NearProbe::Id("ruin").found_near(&on_tile, 9));
    assert!(NearProbe::Path("ruins").found_near(&at_three, 3));
    assert!(NearProbe::Characteristic(FieldCharacteristic::Mysterious).found_near(&at_three, 9));
    assert!(!NearProbe::Characteristic(FieldCharacteristic::Habited).found_near(&at_three, 9));
    assert!(ruin.is_replacement_for("x") == false);
    let mut heir = village_small();
    heir.data.requirments = vec![FieldRequirment::Replaces("ruin".to_string())];
    heir.data.path_level = 7;
    assert!(heir.is_replacement_for("ruin"));
    assert!(heir.is_possible_to_be_build(&origin, &Some(&ruin), &empty, false));
    assert!(!heir.is_possible_to_be_build(&origin, &Some(&village), &empty, false));
    assert!(!heir.is_possible_to_be_build(&origin, &None, &empty, false));
    let mut shrine = village_small();
    shrine.data.requirments = vec![FieldRequirment::QuestCompleted];
    assert!(!shrine.is_possible_to_be_build(&origin, &None, &empty, false));
    assert!(shrine.is_possible_to_be_build(&origin, &None, &empty, true));
    shrine.data.requirments = vec![FieldRequirment::QuestCompleted, FieldRequirment::CantBuild];
    assert!(!shrine.is_possible_to_be_build(&origin, &None, &empty, true));
}

#[test]
fn quantities_follow_their_formulas() {
    assert_eq!(UNIT, 1_000_000);
    assert_eq!(add_quantities(1_500_000, 2_250_000), 3_750_000);
    assert_eq!(add_quantities(i64::MAX, 1), i64::MAX);
    assert_eq!(add_quantities(i64::MIN, -1), i64::MIN);
    assert_eq!(multiply_quantities(1_500_000, 2_000_000), 3_000_000);
    assert_eq!(multiply_quantities(-1_500_000, 2_000_000), -3_000_000);
    assert_eq!(multiply_quantities(3, 500_000), 1);
    assert_eq!(multiply_quantities(-3, 500_000), -1);
    assert_eq!(multiply_quantities(1, 999_999), 0);
    assert_eq!(multiply_quantities(i64::MAX, i64::MAX), i64::MAX);
    assert_eq!(multiply_quantities(i64::MAX, i64::MIN), i64::MIN);
    assert_eq!(interpolate(1_000_000, 3_000_000, 0), 1_000_000);
    assert_eq!(interpolate(1_000_000, 3_000_000, 500_000), 2_000_000);
    assert_eq!(interpolate(1_000_000, 3_000_000, 999_999), 2_999_998);
    assert_eq!(interpolate(3_000_000, 1_000_000, 250_000), 2_500_000);
    assert_eq!(interpolate(i64::MIN, i64::MAX, 500_000), -1);
    assert_eq!(interpolate(i64::MAX, i64::MIN, 999_999), i64::MIN + 18_446_744_073_710);
    assert_eq!(award(1_500_000, 1_000_000, 3_000_000, 500_000), 3_000_000);
    assert_eq!(award(-1_000_000, 1_000_000, 3_000_000, 250_000), -1_500_000);
    assert_eq!(award(0, 1_000_000, 3_000_000, 250_000), 0);
}

#[test]
fn skill_tables_accrue_and_raise() {
    let mut points = SkillLevels::new();
    let mut modifiers = SkillLevels::new();
    modifiers.insert(HeroSkill::Magic, 2_000_000);
    let mut ranges = SkillRanges::new();
    ranges.insert(HeroSkill::Magic, 1_000_000, 3_000_000);
    ranges.insert(HeroSkill::Charisma, 0, 4_000_000);
    assert_eq!(ranges.get(HeroSkill::Magic), Some((1_000_000, 3_000_000)));
    assert_eq!(ranges.get(HeroSkill::Strength), None);
    points.accrue(&modifiers, &ranges, 500_000);
    assert_eq!(points.get(HeroSkill::Magic), Some(4_000_000));
    assert_eq!(points.get(HeroSkill::Charisma), Some(2_000_000));
    assert_eq!(points.get(HeroSkill::Strength), None);
    points.accrue(&modifiers, &ranges, 0);
    assert_eq!(points.get(HeroSkill::Magic), Some(6_000_000));
    assert_eq!(points.get(HeroSkill::Charisma), Some(2_000_000));

    let mut deltas = SkillLevels::new();
    deltas.insert(HeroSkill::Magic, -500_000);
    deltas.insert(HeroSkill::Tracking, 1);
    modifiers.raise(&deltas);
    assert_eq!(modifiers.get(HeroSkill::Magic), Some(1_500_000));
    assert_eq!(modifiers.get(HeroSkill::Tracking), None);
    let filled = modifiers.filled(UNIT);
    for i in 0..9 {
        let skill = HeroSkill::from_index(i);
        assert_eq!(skill.index(), i);
        let expected = if skill == HeroSkill::Magic { 1_500_000 } else { 1_000_000 };
        assert_eq!(filled.get(skill), Some(expected));
    }
}

#[test]
fn weighted_pick_takes_the_first_sum_above_the_draw() {
    let weights: Vec<u64> = vec![2, 0, 3, 1];
    assert_eq!(total_weight(&weights), 6);
    assert_eq!(pick_weighted(&weights, 0), Some(0));
    assert_eq!(pick_weighted(&weights, 1), Some(0));
    assert_eq!(pick_weighted(&weights, 2), Some(2));
    assert_eq!(pick_weighted(&weights, 4), Some(2));
    assert_eq!(pick_weighted(&weights, 5), Some(3));
    assert_eq!(pick_weighted(&weights, 6), None);
    assert_eq!(pick_weighted(&vec![], 0), None);
    assert_eq!(total_weight(&vec![u64::MAX, u64::MAX]), 2 * (u64::MAX as u128));
    assert_eq!(pick_weighted(&vec![u64::MAX, u64::MAX], u64::MAX as u128), Some(1));
    assert_eq!(draw_below(0), 0);
    assert_eq!(draw_below(1), 0);
    for _ in 0..200 {
        assert!(draw_below(3) < 3);
        // a draw below the sum of the weights never falls on an entry without weight
        let drawn = pick_weighted(&weights, draw_below(total_weight(&weights))).unwrap();
        assert!(drawn == 0 || drawn == 2 || drawn == 3);
        assert_eq!(pick_weighted(&vec![0, 5, 0], draw_below(5)), Some(1));
        let rolled = roll();
        assert!(0 <= rolled && rolled < UNIT);
    }
}

#[test]
fn errors_carry_kind_and_message() {
    let error = GameError::new("broken".to_string());
    assert_eq!(error.kind, GameFault::Other);
    assert_eq!(error.msg, "broken");
    let bad = BadMove::new("no".to_string());
    assert_eq!(bad.kind, Rejection::Other);
    assert_eq!(bad.msg, "no");
    assert_eq!(BadMove::of(Rejection::PlayingHistory).msg, "Game is playing history");
    assert_eq!(
        BadMove::of(Rejection::TooFar).msg,
        "Hero can't go so many tiles to get to the quest"
    );
    assert_eq!(BadMove::of(Rejection::NoHero).kind, Rejection::NoHero);
    assert_eq!(GameError::of(GameFault::NoTemplate).kind, GameFault::NoTemplate);
    assert_eq!(GameError::of(GameFault::NoTemplate).msg, GameFault::NoTemplate.text());
    assert_eq!(BadMove::of(Rejection::CantBuild).msg, Rejection::CantBuild.text());
    assert!(!GameError::of(GameFault::MissingResource).msg.is_empty());
}
