//! Lets quests appear as turns pass.

use vstd::prelude::*;
use crate::game::game_controller::{
    bearing_tiles,
    bears,
    draw_below,
    drawable,
    family_of,
    fitting_quests,
    has_template,
    lemma_fitting_quests,
    quest_fits,
    spawn_can_fail,
    total_weight,
    Bearers,
    GameCallback,
    GameController,
};
use crate::game::map::TilePos;
use crate::game::quest::Quest;
use crate::game::{GameError, GameFault, STWGame};
use crate::resource::resource_data::QuestData;
use crate::resource::{Resource, ResourceManager};

verus! {

/// Lets a quest appear on a tile that carries a content and no quest yet.
pub struct QuestController {}

/// The quest templates of the family and the level, in the order of the catalog.
pub fn quest_templates<'a>(rm: &'a ResourceManager, family: &str, level: usize) -> (res: Vec<
    &'a Resource<QuestData>,
>)
    ensures
        res@ == fitting_quests(rm, family@, level as int, rm.quests@.len()),
        forall|i: int|
            0 <= i < res@.len() ==> quest_fits(#[trigger] res@[i], family@, level as int)
                && exists|k: int| 0 <= k < rm.quests@.len() && #[trigger] rm.quests@[k] == *res@[i],
        res@.len() == 0 ==> !has_template(rm, true, family@, level as int),
{
    let mut res: Vec<&'a Resource<QuestData>> = Vec::new();
    let mut k: usize = 0;
    while k < rm.quests.len()
        invariant
            k <= rm.quests@.len(),
            res@ == fitting_quests(rm, family@, level as int, k as nat),
            forall|i: int|
                0 <= i < res@.len() ==> quest_fits(#[trigger] res@[i], family@, level as int)
                    && exists|j: int|
                    0 <= j < rm.quests@.len() && #[trigger] rm.quests@[j] == *res@[i],
            res@.len() == 0 ==> forall|j: int|
                0 <= j < k ==> !quest_fits(#[trigger] &rm.quests@[j], family@, level as int),
        decreases rm.quests@.len() - k,
    {
        let template = &rm.quests[k];
        if *template.data.quest_family.as_str() == *family && template.data.quest_level as usize
            == level {
            res.push(template);
        }
        k += 1;
    }
    res
}

impl QuestController {
    /// Whether a quest of the template can appear on the tile at `p`: a draw
    /// can fall on a level on the tile, and the template is one of the catalog
    /// for the quest family of the tile and that level.
    pub open spec fn can_spawn<'a>(
        game: &STWGame<'a>,
        p: (int, int),
        template: &Resource<QuestData>,
    ) -> bool {
        &&& exists|k: int|
            0 <= k < game.resource_manager.quests@.len()
                && #[trigger] game.resource_manager.quests@[k] == *template
        &&& exists|level: int| #[trigger]
            drawable(game, p, true, level) && quest_fits(
                template,
                family_of(game.map.tile(p).field_content->0, true),
                level,
            )
    }

    /// Whether `after` and `report` are what the appearance of a quest of the
    /// template at `pos` makes of `before`: the quest is the last of the
    /// quests, it waits at `pos` since the turn of the game, and nothing else
    /// has changed.
    pub open spec fn spawned<'a>(
        before: &STWGame<'a>,
        pos: TilePos,
        template: &'a Resource<QuestData>,
        after: &STWGame<'a>,
        report: Seq<GameCallback>,
    ) -> bool {
        &&& after.quests@ == before.quests@.push(
            Quest {
                quest_type: template,
                position: pos,
                creation_turn: before.game_turn,
                _resource_manager: before.resource_manager,
            },
        )
        &&& report == seq![GameCallback::NewQuest { where_created: pos, quest_id: template.id }]
        &&& after.map == before.map
        &&& after.heroes == before.heroes
        &&& after.history == before.history
        &&& after.game_turn == before.game_turn
        &&& after.game_resources == before.game_resources
        &&& after.max_heroes == before.max_heroes
        &&& after.max_path_length == before.max_path_length
        &&& after.builded == before.builded
        &&& after.resource_manager == before.resource_manager
    }

    /// The spawn that three drawn numbers lead to, or why they lead to none.
    /// The first two fall on a tile and on a level of its content; it is an
    /// error if they fall on none. The third is the place of the template
    /// among the templates of the catalog that fit the family of the tile and
    /// the level, in the order of the catalog; it is an error if the list has
    /// no such place.
    pub open spec fn spawn_of<'a, 'b>(
        rm: &'a ResourceManager,
        bearers: &Bearers<'a, 'b>,
        tile_draw: nat,
        level_draw: nat,
        template_draw: nat,
    ) -> Result<(TilePos, &'a Resource<QuestData>), GameFault> {
        match bearers.drawn_place(tile_draw, level_draw) {
            None => Err(GameFault::NoCandidate),
            Some((i, level)) => {
                let fitting = fitting_quests(rm, bearers.families@[i]@, level, rm.quests@.len());
                if template_draw < fitting.len() {
                    Ok((bearers.tiles@[i].position, fitting[template_draw as int]))
                } else {
                    Err(GameFault::NoTemplate)
                }
            },
        }
    }

    /// How many templates fit the tile and the level on which two draws fall;
    /// zero if they fall on none.
    pub open spec fn template_count<'a, 'b>(
        rm: &'a ResourceManager,
        bearers: &Bearers<'a, 'b>,
        tile_draw: nat,
        level_draw: nat,
    ) -> nat {
        match bearers.drawn_place(tile_draw, level_draw) {
            None => 0,
            Some((i, level)) => fitting_quests(
                rm,
                bearers.families@[i]@,
                level,
                rm.quests@.len(),
            ).len(),
        }
    }

    /// How many templates fit the tile and the level on which two draws fall.
    pub fn template_bound<'a, 'b>(
        rm: &'a ResourceManager,
        bearers: &Bearers<'a, 'b>,
        tile_draw: u128,
        level_draw: u128,
    ) -> (res: usize)
        requires
            bearers.aligned(),
        ensures
            res == Self::template_count(rm, bearers, tile_draw as nat, level_draw as nat),
    {
        match bearers.place_for(tile_draw, level_draw) {
            Some((i, level)) => quest_templates(rm, bearers.families[i], level).len(),
            None => 0,
        }
    }

    /// The spawn that three drawn numbers lead to, or the error.
    pub fn spawn_for<'a, 'b>(
        rm: &'a ResourceManager,
        bearers: &Bearers<'a, 'b>,
        tile_draw: u128,
        level_draw: u128,
        template_draw: u128,
    ) -> (res: Result<(TilePos, &'a Resource<QuestData>), GameError>)
        requires
            bearers.aligned(),
        ensures
            res matches Err(e) ==> e.says_why(),
            match res {
                Ok(spawn) => Self::spawn_of(
                    rm,
                    bearers,
                    tile_draw as nat,
                    level_draw as nat,
                    template_draw as nat,
                ) == Ok::<(TilePos, &'a Resource<QuestData>), GameFault>(spawn),
                Err(e) => Self::spawn_of(
                    rm,
                    bearers,
                    tile_draw as nat,
                    level_draw as nat,
                    template_draw as nat,
                ) == Err::<(TilePos, &'a Resource<QuestData>), GameFault>(e.kind),
            },
    {
        let (i, level) = match bearers.place_for(tile_draw, level_draw) {
            Some(place) => place,
            None => {
                return Err(GameError::of(GameFault::NoCandidate));
            },
        };
        let templates = quest_templates(rm, bearers.families[i], level);
        if template_draw < templates.len() as u128 {
            Ok((bearers.tiles[i].position, templates[template_draw as usize]))
        } else {
            Err(GameError::of(GameFault::NoTemplate))
        }
    }

    /// Draws the quest that is to appear, if any tile can bear one: the tile
    /// and the level by weight, then one of the fitting templates, each with
    /// the same chance. The three numbers drawn are handed to `spawn_for`.
    pub fn draw<'a>(game: &STWGame<'a>) -> (res: Result<
        Option<(TilePos, &'a Resource<QuestData>)>,
        GameError,
    >)
        requires
            game.wf(),
        ensures
            res matches Err(e) ==> e.says_why(),
            match res {
                Ok(None) => forall|p: (int, int)|
                    game.map.contains(p) ==> !bears(game, #[trigger] game.map.tile(p), true),
                Ok(Some((pos, template))) => game.map.tile(pos@).position == pos
                    && Self::can_spawn(game, pos@, template),
                Err(e) => spawn_can_fail(game, true, e.kind),
            },
    {
        let bearers = bearing_tiles(game, true);
        if bearers.tiles.len() == 0 {
            proof {
                assert forall|p: (int, int)| game.map.contains(p) implies !bears(
                    game,
                    #[trigger] game.map.tile(p),
                    true,
                ) by {
                    if bears(game, game.map.tile(p), true) {
                        let i = choose|i: int|
                            0 <= i < bearers.tiles@.len() && #[trigger] bearers.tiles@[i]
                                == game.map.tile(p);
                    }
                }
            }
            return Ok(None);
        }
        let tile_draw = draw_below(total_weight(&bearers.weights));
        let level_draw = draw_below(bearers.level_bound(tile_draw));
        let template_draw = draw_below(
            Self::template_bound(game.resource_manager, &bearers, tile_draw, level_draw) as u128,
        );
        proof {
            bearers.lemma_drawn_place(game, true, tile_draw as nat, level_draw as nat);
            match bearers.drawn_place(tile_draw as nat, level_draw as nat) {
                Some((i, level)) => {
                    lemma_fitting_quests(
                        game.resource_manager,
                        bearers.families@[i]@,
                        level,
                        game.resource_manager.quests@.len(),
                    );
                    let fitting = fitting_quests(
                        game.resource_manager,
                        bearers.families@[i]@,
                        level,
                        game.resource_manager.quests@.len(),
                    );
                    let p = bearers.tiles@[i].position@;
                    if template_draw < fitting.len() {
                        let template = fitting[template_draw as int];
                        assert(quest_fits(template, bearers.families@[i]@, level));
                        assert(drawable(game, p, true, level) && quest_fits(
                            template,
                            family_of(game.map.tile(p).field_content->0, true),
                            level,
                        ));
                    } else {
                        assert(fitting.len() == 0);
                        assert(!has_template(
                            game.resource_manager,
                            true,
                            family_of(game.map.tile(p).field_content->0, true),
                            level,
                        ));
                        assert(drawable(game, p, true, level));
                    }
                },
                None => {
                    let p = bearers.tiles@[0].position@;
                    assert(bears(game, bearers.tiles@[0], true));
                    assert(game.map.contains(p) && bears(game, game.map.tile(p), true));
                },
            }
        }
        match Self::spawn_for(
            game.resource_manager,
            &bearers,
            tile_draw,
            level_draw,
            template_draw,
        ) {
            Ok(spawn) => Ok(Some(spawn)),
            Err(e) => Err(e),
        }
    }

    /// Adds a quest of the template to the game, on the tile at `pos`, and
    /// reports where the quest was created.
    pub fn settle<'a>(game: &mut STWGame<'a>, pos: TilePos, template: &'a Resource<QuestData>) -> (res:
        Vec<GameCallback>)
        requires
            old(game).wf(),
            old(game).map.contains(pos@),
            !old(game).has_quest_at(pos),
        ensures
            final(game).wf(),
            Self::spawned(old(game), pos, template, final(game), res@),
    {
        let quest = Quest::of_type(game.resource_manager, template, game.game_turn, &pos);
        game.quests.push(quest);
        let mut res: Vec<GameCallback> = Vec::new();
        res.push(GameCallback::NewQuest { where_created: pos, quest_id: template.id.clone() });
        res
    }
}

impl GameController for QuestController {
    /// Lets a quest appear if some tile can bear one. Which quest appears,
    /// and where, depends on chance; a step that fails changes nothing.
    fn process_game_step<'a>(game: &mut STWGame<'a>) -> (res: Result<Vec<GameCallback>, GameError>)
        ensures
            res matches Err(e) ==> e.says_why(),
            (forall|kind: GameFault| !#[trigger] spawn_can_fail(old(game), true, kind))
                ==> res is Ok,
            match res {
                Ok(report) => {
                    ||| {
                        &&& forall|p: (int, int)|
                            old(game).map.contains(p) ==> !bears(
                                old(game),
                                #[trigger] old(game).map.tile(p),
                                true,
                            )
                        &&& report@.len() == 0
                        &&& *final(game) == *old(game)
                    }
                    ||| exists|p: (int, int), k: int|
                        0 <= k < old(game).resource_manager.quests@.len()
                            && #[trigger] Self::can_spawn(
                            old(game),
                            p,
                            &old(game).resource_manager.quests@[k],
                        ) && Self::spawned(
                            old(game),
                            old(game).map.tile(p).position,
                            &old(game).resource_manager.quests@[k],
                            final(game),
                            report@,
                        )
                },
                Err(e) => spawn_can_fail(old(game), true, e.kind) && *final(game) == *old(game),
            },
    {
        match Self::draw(game) {
            Ok(Some((pos, template))) => {
                proof {
                    let level = choose|level: int| #[trigger]
                        drawable(game, pos@, true, level) && quest_fits(
                            template,
                            family_of(game.map.tile(pos@).field_content->0, true),
                            level,
                        );
                    assert(drawable(game, pos@, true, level));
                }
                let report = Self::settle(game, pos, template);
                proof {
                    let k = choose|k: int|
                        0 <= k < old(game).resource_manager.quests@.len()
                            && #[trigger] old(game).resource_manager.quests@[k] == *template;
                    assert(Self::can_spawn(old(game), pos@, &old(game).resource_manager.quests@[k]));
                }
                Ok(report)
            },
            Ok(None) => Ok(Vec::new()),
            Err(e) => Err(e),
        }
    }
}

} // verus!
