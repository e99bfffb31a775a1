//! Lets heroes appear as turns pass.

use vstd::prelude::*;
use crate::game::game_controller::{
    bearing_tiles,
    draw_below,
    drawable,
    family_of,
    fitting_heroes,
    has_template,
    hero_fits,
    lemma_fitting_heroes,
    spawn_can_fail,
    total_weight,
    Bearers,
    GameCallback,
    GameController,
};
use crate::game::hero::{starting_skills, Hero};
use crate::game::map::TilePos;
use crate::game::{GameError, GameFault, STWGame};
use crate::resource::resource_data::HeroData;
use crate::resource::{Resource, ResourceManager};

verus! {

/// Lets a hero appear, while the game has fewer heroes than it may have.
pub struct HeroController {}

/// The hero templates of the family and the level, in the order of the catalog.
pub fn hero_templates<'a>(rm: &'a ResourceManager, family: &str, level: usize) -> (res: Vec<
    &'a Resource<HeroData>,
>)
    ensures
        res@ == fitting_heroes(rm, family@, level as int, rm.heroes@.len()),
        forall|i: int|
            0 <= i < res@.len() ==> hero_fits(#[trigger] res@[i], family@, level as int)
                && exists|k: int| 0 <= k < rm.heroes@.len() && #[trigger] rm.heroes@[k] == *res@[i],
        res@.len() == 0 ==> !has_template(rm, false, family@, level as int),
{
    let mut res: Vec<&'a Resource<HeroData>> = Vec::new();
    let mut k: usize = 0;
    while k < rm.heroes.len()
        invariant
            k <= rm.heroes@.len(),
            res@ == fitting_heroes(rm, family@, level as int, k as nat),
            forall|i: int|
                0 <= i < res@.len() ==> hero_fits(#[trigger] res@[i], family@, level as int)
                    && exists|j: int|
                    0 <= j < rm.heroes@.len() && #[trigger] rm.heroes@[j] == *res@[i],
            res@.len() == 0 ==> forall|j: int|
                0 <= j < k ==> !hero_fits(#[trigger] &rm.heroes@[j], family@, level as int),
        decreases rm.heroes@.len() - k,
    {
        let template = &rm.heroes[k];
        if *template.data.hero_family.as_str() == *family && template.data.hero_level as usize
            == level {
            res.push(template);
        }
        k += 1;
    }
    res
}

impl HeroController {
    /// Whether a hero of the template can appear on the tile at `p`: a draw
    /// can fall on a level on the tile, and the template is one of the catalog
    /// for the hero family of the tile and that level.
    pub open spec fn can_spawn<'a>(
        game: &STWGame<'a>,
        p: (int, int),
        template: &Resource<HeroData>,
    ) -> bool {
        &&& exists|k: int|
            0 <= k < game.resource_manager.heroes@.len()
                && #[trigger] game.resource_manager.heroes@[k] == *template
        &&& exists|level: int| #[trigger]
            drawable(game, p, false, level) && hero_fits(
                template,
                family_of(game.map.tile(p).field_content->0, false),
                level,
            )
    }

    /// Whether `after` and `report` are what the appearance of a hero of the
    /// template at `pos` makes of `before`: the hero is the last of the
    /// heroes, fresh from the template, and nothing else has changed.
    pub open spec fn spawned<'a>(
        before: &STWGame<'a>,
        pos: TilePos,
        template: &'a Resource<HeroData>,
        after: &STWGame<'a>,
        report: Seq<GameCallback>,
    ) -> bool {
        &&& after.heroes@.len() == before.heroes@.len() + 1
        &&& forall|i: int|
            0 <= i < before.heroes@.len() ==> #[trigger] after.heroes@[i] == before.heroes@[i]
        &&& after.heroes@.last().background == template
        &&& after.heroes@.last().skills@ == starting_skills(template)
        &&& after.heroes@.last().learning_count == 0
        &&& after.heroes@.last().wf()
        &&& report == seq![GameCallback::NewHero { where_born: pos, hero_id: template.id }]
        &&& after.map == before.map
        &&& after.quests == before.quests
        &&& after.history == before.history
        &&& after.game_turn == before.game_turn
        &&& after.game_resources == before.game_resources
        &&& after.max_heroes == before.max_heroes
        &&& after.max_path_length == before.max_path_length
        &&& after.builded == before.builded
        &&& after.resource_manager == before.resource_manager
    }

    /// The spawn that three drawn numbers lead to, or why they lead to none.
    /// The first two fall on a tile and on a level of its content; it is an
    /// error if they fall on none. The third is the place of the template
    /// among the templates of the catalog that fit the family of the tile and
    /// the level, in the order of the catalog; it is an error if the list has
    /// no such place.
    pub open spec fn spawn_of<'a, 'b>(
        rm: &'a ResourceManager,
        bearers: &Bearers<'a, 'b>,
        tile_draw: nat,
        level_draw: nat,
        template_draw: nat,
    ) -> Result<(TilePos, &'a Resource<HeroData>), GameFault> {
        match bearers.drawn_place(tile_draw, level_draw) {
            None => Err(GameFault::NoCandidate),
            Some((i, level)) => {
                let fitting = fitting_heroes(rm, bearers.families@[i]@, level, rm.heroes@.len());
                if template_draw < fitting.len() {
                    Ok((bearers.tiles@[i].position, fitting[template_draw as int]))
                } else {
                    Err(GameFault::NoTemplate)
                }
            },
        }
    }

    /// How many templates fit the tile and the level on which two draws fall;
    /// zero if they fall on none.
    pub open spec fn template_count<'a, 'b>(
        rm: &'a ResourceManager,
        bearers: &Bearers<'a, 'b>,
        tile_draw: nat,
        level_draw: nat,
    ) -> nat {
        match bearers.drawn_place(tile_draw, level_draw) {
            None => 0,
            Some((i, level)) => fitting_heroes(
                rm,
                bearers.families@[i]@,
                level,
                rm.heroes@.len(),
            ).len(),
        }
    }

    /// How many templates fit the tile and the level on which two draws fall.
    pub fn template_bound<'a, 'b>(
        rm: &'a ResourceManager,
        bearers: &Bearers<'a, 'b>,
        tile_draw: u128,
        level_draw: u128,
    ) -> (res: usize)
        requires
            bearers.aligned(),
        ensures
            res == Self::template_count(rm, bearers, tile_draw as nat, level_draw as nat),
    {
        match bearers.place_for(tile_draw, level_draw) {
            Some((i, level)) => hero_templates(rm, bearers.families[i], level).len(),
            None => 0,
        }
    }

    /// The spawn that three drawn numbers lead to, or the error.
    pub fn spawn_for<'a, 'b>(
        rm: &'a ResourceManager,
        bearers: &Bearers<'a, 'b>,
        tile_draw: u128,
        level_draw: u128,
        template_draw: u128,
    ) -> (res: Result<(TilePos, &'a Resource<HeroData>), GameError>)
        requires
            bearers.aligned(),
        ensures
            res matches Err(e) ==> e.says_why(),
            match res {
                Ok(spawn) => Self::spawn_of(
                    rm,
                    bearers,
                    tile_draw as nat,
                    level_draw as nat,
                    template_draw as nat,
                ) == Ok::<(TilePos, &'a Resource<HeroData>), GameFault>(spawn),
                Err(e) => Self::spawn_of(
                    rm,
                    bearers,
                    tile_draw as nat,
                    level_draw as nat,
                    template_draw as nat,
                ) == Err::<(TilePos, &'a Resource<HeroData>), GameFault>(e.kind),
            },
    {
        let (i, level) = match bearers.place_for(tile_draw, level_draw) {
            Some(place) => place,
            None => {
                return Err(GameError::of(GameFault::NoCandidate));
            },
        };
        let templates = hero_templates(rm, bearers.families[i], level);
        if template_draw < templates.len() as u128 {
            Ok((bearers.tiles[i].position, templates[template_draw as usize]))
        } else {
            Err(GameError::of(GameFault::NoTemplate))
        }
    }

    /// Draws the hero that is to appear, if one is due: the tile and the
    /// level by weight, then one of the fitting templates, each with the same
    /// chance. The three numbers drawn are handed to `spawn_for`.
    pub fn draw<'a>(game: &STWGame<'a>) -> (res: Result<
        Option<(TilePos, &'a Resource<HeroData>)>,
        GameError,
    >)
        requires
            game.wf(),
        ensures
            res matches Err(e) ==> e.says_why(),
            match res {
                Ok(None) => game.heroes@.len() >= game.max_heroes,
                Ok(Some((pos, template))) => game.heroes@.len() < game.max_heroes
                    && Self::can_spawn(game, pos@, template),
                Err(e) => game.heroes@.len() < game.max_heroes && spawn_can_fail(
                    game,
                    false,
                    e.kind,
                ),
            },
    {
        if game.heroes.len() >= game.max_heroes as usize {
            return Ok(None);
        }
        let bearers = bearing_tiles(game, false);
        let tile_draw = draw_below(total_weight(&bearers.weights));
        let level_draw = draw_below(bearers.level_bound(tile_draw));
        let template_draw = draw_below(
            Self::template_bound(game.resource_manager, &bearers, tile_draw, level_draw) as u128,
        );
        proof {
            bearers.lemma_drawn_place(game, false, tile_draw as nat, level_draw as nat);
            match bearers.drawn_place(tile_draw as nat, level_draw as nat) {
                Some((i, level)) => {
                    lemma_fitting_heroes(
                        game.resource_manager,
                        bearers.families@[i]@,
                        level,
                        game.resource_manager.heroes@.len(),
                    );
                    let fitting = fitting_heroes(
                        game.resource_manager,
                        bearers.families@[i]@,
                        level,
                        game.resource_manager.heroes@.len(),
                    );
                    let p = bearers.tiles@[i].position@;
                    if template_draw < fitting.len() {
                        let template = fitting[template_draw as int];
                        assert(hero_fits(template, bearers.families@[i]@, level));
                        assert(drawable(game, p, false, level) && hero_fits(
                            template,
                            family_of(game.map.tile(p).field_content->0, false),
                            level,
                        ));
                    } else {
                        assert(fitting.len() == 0);
                        assert(!has_template(
                            game.resource_manager,
                            false,
                            family_of(game.map.tile(p).field_content->0, false),
                            level,
                        ));
                        assert(drawable(game, p, false, level));
                    }
                },
                None => {},
            }
        }
        match Self::spawn_for(
            game.resource_manager,
            &bearers,
            tile_draw,
            level_draw,
            template_draw,
        ) {
            Ok(spawn) => Ok(Some(spawn)),
            Err(e) => Err(e),
        }
    }

    /// Adds a fresh hero of the template to the game and reports where the
    /// hero was born.
    pub fn settle<'a>(game: &mut STWGame<'a>, pos: TilePos, template: &'a Resource<HeroData>) -> (res:
        Vec<GameCallback>)
        requires
            old(game).wf(),
        ensures
            final(game).wf(),
            Self::spawned(old(game), pos, template, final(game), res@),
    {
        let hero = Hero::of_background(game.resource_manager, template);
        game.heroes.push(hero);
        let mut res: Vec<GameCallback> = Vec::new();
        res.push(GameCallback::NewHero { where_born: pos, hero_id: template.id.clone() });
        res
    }
}

impl GameController for HeroController {
    /// Lets a hero appear if the game has fewer heroes than it may have.
    /// Which hero appears, and where, depends on chance; a step that fails
    /// changes nothing.
    fn process_game_step<'a>(game: &mut STWGame<'a>) -> (res: Result<Vec<GameCallback>, GameError>)
        ensures
            res matches Err(e) ==> e.says_why(),
            (forall|kind: GameFault| !#[trigger] spawn_can_fail(old(game), false, kind))
                ==> res is Ok,
            match res {
                Ok(report) => {
                    if old(game).heroes@.len() >= old(game).max_heroes {
                        report@.len() == 0 && *final(game) == *old(game)
                    } else {
                        exists|p: (int, int), k: int|
                            0 <= k < old(game).resource_manager.heroes@.len()
                                && #[trigger] Self::can_spawn(
                                old(game),
                                p,
                                &old(game).resource_manager.heroes@[k],
                            ) && Self::spawned(
                                old(game),
                                old(game).map.tile(p).position,
                                &old(game).resource_manager.heroes@[k],
                                final(game),
                                report@,
                            )
                    }
                },
                Err(e) => {
                    &&& old(game).heroes@.len() < old(game).max_heroes
                    &&& spawn_can_fail(old(game), false, e.kind)
                    &&& *final(game) == *old(game)
                },
            },
    {
        match Self::draw(game) {
            Ok(Some((pos, template))) => {
                let report = Self::settle(game, pos, template);
                proof {
                    let k = choose|k: int|
                        0 <= k < old(game).resource_manager.heroes@.len()
                            && #[trigger] old(game).resource_manager.heroes@[k] == *template;
                    let level = choose|level: int| #[trigger]
                        drawable(old(game), pos@, false, level) && hero_fits(
                            template,
                            family_of(old(game).map.tile(pos@).field_content->0, false),
                            level,
                        );
                    assert(old(game).map.tile(pos@).position@ == pos@);
                    assert(Self::can_spawn(old(game), pos@, &old(game).resource_manager.heroes@[k]));
                }
                Ok(report)
            },
            Ok(None) => Ok(Vec::new()),
            Err(e) => Err(e),
        }
    }
}

} // verus!
