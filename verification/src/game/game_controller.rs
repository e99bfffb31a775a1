//! What a move does to the game, told to the caller, and the controllers that
//! let heroes and quests appear as turns pass.

pub mod hero_controller;
pub mod quest_controller;

use vstd::prelude::*;
use crate::game::map::{grid_column, TilePos};
use crate::game::tile::GameTile;
use crate::game::{GameError, GameFault, STWGame};
use crate::random::random_below;
use crate::resource::enums::{GResource, HeroSkill};
use crate::resource::resource_data::{FieldTypeData, HeroData, QuestData};
use crate::resource::{Resource, ResourceManager};

verus! {

/// One observable effect of a move. A move reports its effects in the order
/// in which they came about.
#[derive(Debug, Clone, PartialEq)]
pub enum GameCallback {
    ChangedResource { resource: GResource, new_value: u32 },
    NewTileContent { position: TilePos, field_type_id: String },
    MaxHeroesIncreased { current_max_heroes: u32 },
    NewHero { where_born: TilePos, hero_id: String },
    NewQuest { where_created: TilePos, quest_id: String },
    StartedHistory { quest_pos: TilePos, choosen_hero: usize },
    HeroLeveled { hero_number: usize, skill: HeroSkill, new_skill_value: i64 },
    HeroMoved { dest_position: TilePos, hero_number: usize, success: i64, action_performed: String },
}

/// A controller lets one kind of thing happen to the game when a turn passes.
pub trait GameController {
    /// Does to the game what a passing turn brings, and reports it.
    fn process_game_step<'a>(game: &mut STWGame<'a>) -> (res: Result<Vec<GameCallback>, GameError>)
        requires
            old(game).wf(),
        ensures
            res matches Err(e) ==> e.says_why(),
            final(game).wf(),
    ;
}

/// The sum of the first `n` weights.
pub open spec fn weight_sum(weights: Seq<u64>, n: nat) -> nat
    decreases n,
{
    if n == 0 {
        0
    } else {
        weight_sum(weights, (n - 1) as nat) + weights[n - 1] as nat
    }
}

/// Whether a draw falls on the entry at place `i`: counting the weights up
/// from the first entry, the entry at `i` is the first at which the running
/// sum exceeds the draw.
pub open spec fn picked(weights: Seq<u64>, draw: nat, i: int) -> bool {
    &&& 0 <= i < weights.len()
    &&& weight_sum(weights, i as nat) <= draw
    &&& draw < weight_sum(weights, (i + 1) as nat)
}

/// A draw falls on at most one entry.
pub proof fn lemma_picked_once(weights: Seq<u64>, draw: nat, i: int, j: int)
    requires
        picked(weights, draw, i),
        picked(weights, draw, j),
    ensures
        i == j,
{
    if i < j {
        lemma_weight_sum_grows(weights, (i + 1) as nat, j as nat);
    }
    if j < i {
        lemma_weight_sum_grows(weights, (j + 1) as nat, i as nat);
    }
}

/// The entry on which a draw falls, if it falls on any.
pub open spec fn fallen_on(weights: Seq<u64>, draw: nat) -> Option<int> {
    if exists|i: int| picked(weights, draw, i) {
        Some(choose|i: int| picked(weights, draw, i))
    } else {
        None
    }
}

/// The entry on which a draw falls is the only one it can be said to fall on.
pub proof fn lemma_fallen_on_picked(weights: Seq<u64>, draw: nat, i: int)
    requires
        picked(weights, draw, i),
    ensures
        fallen_on(weights, draw) == Some(i),
{
    let chosen = choose|k: int| picked(weights, draw, k);
    lemma_picked_once(weights, draw, i, chosen);
}

/// A draw falls on an entry exactly if it lies below the sum of all the
/// weights.
pub proof fn lemma_fallen_on_any(weights: Seq<u64>, draw: nat)
    ensures
        fallen_on(weights, draw) is Some <==> draw < weight_sum(weights, weights.len()),
        fallen_on(weights, draw) matches Some(i) ==> picked(weights, draw, i),
{
    if draw < weight_sum(weights, weights.len()) {
        let i = lemma_draw_falls(weights, draw, weights.len());
    }
    if fallen_on(weights, draw) is Some {
        let i = fallen_on(weights, draw)->0;
        lemma_weight_sum_grows(weights, (i + 1) as nat, weights.len());
    }
}

/// A draw below the sum of the first `n` weights falls on one of the first
/// `n` entries.
pub proof fn lemma_draw_falls(weights: Seq<u64>, draw: nat, n: nat) -> (i: int)
    requires
        n <= weights.len(),
        draw < weight_sum(weights, n),
    ensures
        0 <= i < n,
        picked(weights, draw, i),
    decreases n,
{
    if draw < weight_sum(weights, (n - 1) as nat) {
        lemma_draw_falls(weights, draw, (n - 1) as nat)
    } else {
        n - 1
    }
}

/// A sum of weights is at most their number times the largest weight.
pub proof fn lemma_weight_sum_bound(weights: Seq<u64>, n: nat)
    requires
        n <= weights.len(),
    ensures
        weight_sum(weights, n) <= n * 0xffff_ffff_ffff_ffff,
    decreases n,
{
    if n > 0 {
        lemma_weight_sum_bound(weights, (n - 1) as nat);
        assert((n - 1) * 0xffff_ffff_ffff_ffff + 0xffff_ffff_ffff_ffff == n
            * 0xffff_ffff_ffff_ffff) by (nonlinear_arith);
    }
}

/// Sums of weights grow with the number of weights summed.
pub proof fn lemma_weight_sum_grows(weights: Seq<u64>, m: nat, n: nat)
    requires
        m <= n,
    ensures
        weight_sum(weights, m) <= weight_sum(weights, n),
    decreases n,
{
    if m < n {
        lemma_weight_sum_grows(weights, m, (n - 1) as nat);
    }
}

/// The sum of all the weights.
pub fn total_weight(weights: &Vec<u64>) -> (res: u128)
    ensures
        res == weight_sum(weights@, weights@.len()),
{
    let mut res: u128 = 0;
    let mut i: usize = 0;
    while i < weights.len()
        invariant
            i <= weights@.len(),
            res == weight_sum(weights@, i as nat),
        decreases weights@.len() - i,
    {
        proof {
            lemma_weight_sum_bound(weights@, (i + 1) as nat);
            assert((i + 1) * 0xffff_ffff_ffff_ffff <= 0xffff_ffff_ffff_ffff
                * 0xffff_ffff_ffff_ffff) by (nonlinear_arith)
                requires
                    0 <= i + 1 <= 0xffff_ffff_ffff_ffff,
            ;
        }
        res = res + weights[i] as u128;
        i += 1;
    }
    res
}

/// The entry on which a draw falls, if the draw lies below the sum of all
/// the weights.
pub fn pick_weighted(weights: &Vec<u64>, draw: u128) -> (res: Option<usize>)
    ensures
        match res {
            Some(i) => picked(weights@, draw as nat, i as int) && fallen_on(
                weights@,
                draw as nat,
            ) == Some(i as int),
            None => draw >= weight_sum(weights@, weights@.len()) && fallen_on(
                weights@,
                draw as nat,
            ) is None,
        },
{
    let mut sum: u128 = 0;
    let mut i: usize = 0;
    while i < weights.len()
        invariant
            i <= weights@.len(),
            sum == weight_sum(weights@, i as nat),
            sum <= draw,
        decreases weights@.len() - i,
    {
        proof {
            lemma_weight_sum_bound(weights@, (i + 1) as nat);
            assert((i + 1) * 0xffff_ffff_ffff_ffff <= 0xffff_ffff_ffff_ffff
                * 0xffff_ffff_ffff_ffff) by (nonlinear_arith)
                requires
                    0 <= i + 1 <= 0xffff_ffff_ffff_ffff,
            ;
        }
        let next: u128 = sum + weights[i] as u128;
        if next > draw {
            proof {
                lemma_fallen_on_picked(weights@, draw as nat, i as int);
            }
            return Some(i);
        }
        sum = next;
        i += 1;
    }
    proof {
        lemma_fallen_on_any(weights@, draw as nat);
    }
    None
}

/// Draws a number evenly from those below `bound`; zero if there is none.
pub fn draw_below(bound: u128) -> (res: u128)
    ensures
        bound > 0 ==> res < bound,
        bound == 0 ==> res == 0,
{
    if bound > 0 {
        random_below(bound)
    } else {
        0
    }
}

/// The weights by level that a content gives to the quests, or to the
/// heroes, that appear on it.
pub open spec fn levels_of(content: &Resource<FieldTypeData>, quests: bool) -> Seq<u64> {
    if quests {
        content.data.quest_levels@
    } else {
        content.data.hero_levels@
    }
}

/// The family of the quests, or of the heroes, that appear on a content.
pub open spec fn family_of(content: &Resource<FieldTypeData>, quests: bool) -> Seq<char> {
    if quests {
        content.data.quest_family@
    } else {
        content.data.hero_family@
    }
}

/// Whether a quest, or a hero, can appear on the tile: the tile carries a
/// content that knows at least one level, and for a quest no quest waits on
/// the tile yet.
pub open spec fn bears<'a>(game: &STWGame<'a>, tile: &GameTile<'a>, quests: bool) -> bool {
    &&& tile.field_content matches Some(content) && levels_of(content, quests).len() > 0
    &&& quests ==> !game.has_quest_at(tile.position)
}

/// Of the first `n` of the listed tiles, those on which a quest, or a hero,
/// can appear, in the same order.
pub open spec fn bearing_of<'a, 'b>(
    game: &STWGame<'a>,
    tiles: Seq<&'b GameTile<'a>>,
    quests: bool,
    n: nat,
) -> Seq<&'b GameTile<'a>>
    decreases n,
{
    if n == 0 {
        Seq::empty()
    } else {
        let earlier = bearing_of(game, tiles, quests, (n - 1) as nat);
        if bears(game, tiles[n - 1], quests) {
            earlier.push(tiles[n - 1])
        } else {
            earlier
        }
    }
}

/// The tiles on which a quest, or a hero, can appear, each with the family
/// and the level weights of its content, and with its own weight: the number
/// of levels its content knows.
pub struct Bearers<'a, 'b> {
    pub tiles: Vec<&'b GameTile<'a>>,
    pub families: Vec<&'a str>,
    pub levels: Vec<&'a Vec<u64>>,
    pub weights: Vec<u64>,
}

impl<'a, 'b> Bearers<'a, 'b> {
    /// Whether the lists are those of the tiles of the game on which a
    /// quest, or a hero, can appear, in the order of the map.
    pub open spec fn of(&self, game: &STWGame<'a>, quests: bool) -> bool {
        &&& self.tiles@ == bearing_of(
            game,
            game.map.all_tiles(),
            quests,
            game.map.all_tiles().len(),
        )
        &&& self.families@.len() == self.tiles@.len()
        &&& self.levels@.len() == self.tiles@.len()
        &&& self.weights@.len() == self.tiles@.len()
        &&& forall|i: int|
            0 <= i < self.tiles@.len() ==> {
                &&& bears(game, #[trigger] self.tiles@[i], quests)
                &&& game.map.contains(self.tiles@[i].position@)
                &&& game.map.tile(self.tiles@[i].position@) == self.tiles@[i]
                &&& self.families@[i]@ == family_of(self.tiles@[i].field_content->0, quests)
                &&& self.levels@[i]@ == levels_of(self.tiles@[i].field_content->0, quests)
                &&& self.weights@[i] == self.levels@[i]@.len()
            }
        &&& forall|p: (int, int)|
            game.map.contains(p) && bears(game, game.map.tile(p), quests) ==> exists|i: int|
                0 <= i < self.tiles@.len() && #[trigger] self.tiles@[i] == game.map.tile(p)
    }
}

impl<'a, 'b> Bearers<'a, 'b> {
    /// Whether the four lists are of one length.
    pub open spec fn aligned(&self) -> bool {
        &&& self.families@.len() == self.tiles@.len()
        &&& self.levels@.len() == self.tiles@.len()
        &&& self.weights@.len() == self.tiles@.len()
    }

    /// The sum of the level weights of the tile on which a draw falls; zero
    /// if it falls on none.
    pub open spec fn level_total(&self, tile_draw: nat) -> nat {
        match fallen_on(self.weights@, tile_draw) {
            Some(i) => weight_sum(self.levels@[i]@, self.levels@[i]@.len()),
            None => 0,
        }
    }

    /// The place in the lists and the level on which two draws fall: the
    /// first draw falls on a tile by the weights of the tiles, the second on a
    /// level by the weights that the content of that tile gives its levels.
    pub open spec fn drawn_place(&self, tile_draw: nat, level_draw: nat) -> Option<(int, int)> {
        match fallen_on(self.weights@, tile_draw) {
            Some(i) => match fallen_on(self.levels@[i]@, level_draw) {
                Some(level) => Some((i, level)),
                None => None,
            },
            None => None,
        }
    }

    /// The sum of the level weights of the tile on which a draw falls.
    pub fn level_bound(&self, tile_draw: u128) -> (res: u128)
        requires
            self.aligned(),
        ensures
            res == self.level_total(tile_draw as nat),
    {
        match pick_weighted(&self.weights, tile_draw) {
            Some(i) => total_weight(self.levels[i]),
            None => 0,
        }
    }

    /// The place in the lists and the level on which two draws fall.
    pub fn place_for(&self, tile_draw: u128, level_draw: u128) -> (res: Option<(usize, usize)>)
        requires
            self.aligned(),
        ensures
            match res {
                Some((i, level)) => self.drawn_place(tile_draw as nat, level_draw as nat) == Some(
                    (i as int, level as int),
                ),
                None => self.drawn_place(tile_draw as nat, level_draw as nat) is None,
            },
    {
        match pick_weighted(&self.weights, tile_draw) {
            Some(i) => match pick_weighted(self.levels[i], level_draw) {
                Some(level) => Some((i, level)),
                None => None,
            },
            None => None,
        }
    }

    /// What two draws in their ranges fall on, for the tiles of a game: a
    /// tile that can bear the spawn and a level that its content gives a
    /// weight, or nothing where no tile can bear the spawn or the tile drawn
    /// gives no level any weight.
    pub proof fn lemma_drawn_place(
        &self,
        game: &STWGame<'a>,
        quests: bool,
        tile_draw: nat,
        level_draw: nat,
    )
        requires
            self.of(game, quests),
            tile_draw < weight_sum(self.weights@, self.weights@.len()) || tile_draw == 0,
            level_draw < self.level_total(tile_draw) || level_draw == 0,
        ensures
            match self.drawn_place(tile_draw, level_draw) {
                Some((i, level)) => {
                    &&& 0 <= i < self.tiles@.len()
                    &&& drawable(game, self.tiles@[i].position@, quests, level)
                    &&& game.map.tile(self.tiles@[i].position@) == self.tiles@[i]
                    &&& self.families@[i]@ == family_of(self.tiles@[i].field_content->0, quests)
                },
                None => {
                    ||| forall|p: (int, int)|
                        game.map.contains(p) ==> !bears(game, #[trigger] game.map.tile(p), quests)
                    ||| exists|p: (int, int)|
                        game.map.contains(p) && bears(game, #[trigger] game.map.tile(p), quests)
                            && weight_sum(
                            levels_of(game.map.tile(p).field_content->0, quests),
                            levels_of(game.map.tile(p).field_content->0, quests).len(),
                        ) == 0
                },
            },
    {
        lemma_fallen_on_any(self.weights@, tile_draw);
        match fallen_on(self.weights@, tile_draw) {
            Some(i) => {
                assert(bears(game, self.tiles@[i], quests));
                let p = self.tiles@[i].position@;
                lemma_fallen_on_any(self.levels@[i]@, level_draw);
                assert(game.map.contains(p) && bears(game, game.map.tile(p), quests));
            },
            None => {
                if self.tiles@.len() > 0 {
                    assert(bears(game, self.tiles@[0], quests));
                    assert(self.weights@[0] > 0);
                    lemma_weight_sum_grows(self.weights@, 1, self.weights@.len());
                    assert(weight_sum(self.weights@, 1) == weight_sum(self.weights@, 0)
                        + self.weights@[0]);
                } else {
                    assert forall|p: (int, int)| game.map.contains(p) implies !bears(
                        game,
                        #[trigger] game.map.tile(p),
                        quests,
                    ) by {
                        if bears(game, game.map.tile(p), quests) {
                            let i = choose|i: int|
                                0 <= i < self.tiles@.len() && #[trigger] self.tiles@[i]
                                    == game.map.tile(p);
                        }
                    }
                }
            },
        }
    }
}

/// The tiles on which a quest, or a hero, can appear, in the order of the map.
pub fn bearing_tiles<'a, 'b>(game: &'b STWGame<'a>, quests: bool) -> (res: Bearers<'a, 'b>)
    requires
        game.wf(),
    ensures
        res.of(game, quests),
{
    let tiles = game.map.tiles_in_order();
    let mut res = Bearers {
        tiles: Vec::new(),
        families: Vec::new(),
        levels: Vec::new(),
        weights: Vec::new(),
    };
    let mut i: usize = 0;
    while i < tiles.len()
        invariant
            game.wf(),
            tiles@ == game.map.all_tiles(),
            i <= tiles@.len(),
            res.tiles@ == bearing_of(game, tiles@, quests, i as nat),
            res.families@.len() == res.tiles@.len(),
            res.levels@.len() == res.tiles@.len(),
            res.weights@.len() == res.tiles@.len(),
            forall|k: int|
                0 <= k < res.tiles@.len() ==> {
                    &&& bears(game, #[trigger] res.tiles@[k], quests)
                    &&& game.map.contains(res.tiles@[k].position@)
                    &&& game.map.tile(res.tiles@[k].position@) == res.tiles@[k]
                    &&& res.families@[k]@ == family_of(res.tiles@[k].field_content->0, quests)
                    &&& res.levels@[k]@ == levels_of(res.tiles@[k].field_content->0, quests)
                    &&& res.weights@[k] == res.levels@[k]@.len()
                },
            forall|j: int|
                0 <= j < i && bears(game, #[trigger] tiles@[j], quests) ==> exists|k: int|
                    0 <= k < res.tiles@.len() && #[trigger] res.tiles@[k] == tiles@[j],
        decreases tiles@.len() - i,
    {
        let tile = tiles[i];
        proof {
            game.map.lemma_all_tiles_sound(game.map.size as nat, i as int);
        }
        let ghost listed = res.tiles@;
        match tile.field_content {
            Some(content) => {
                let levels = if quests {
                    &content.data.quest_levels
                } else {
                    &content.data.hero_levels
                };
                if levels.len() > 0 && !(quests && game.is_quest_at(&tile.position)) {
                    let family = if quests {
                        content.data.quest_family.as_str()
                    } else {
                        content.data.hero_family.as_str()
                    };
                    res.tiles.push(tile);
                    res.families.push(family);
                    res.levels.push(levels);
                    res.weights.push(levels.len() as u64);
                    assert(res.tiles@[res.tiles@.len() - 1] == tiles@[i as int]);
                }
            },
            None => {},
        }
        assert forall|j: int|
            0 <= j < i + 1 && bears(game, #[trigger] tiles@[j], quests) implies exists|k: int|
            0 <= k < res.tiles@.len() && #[trigger] res.tiles@[k] == tiles@[j] by {
            if j < i {
                let k = choose|k: int| 0 <= k < listed.len() && #[trigger] listed[k] == tiles@[j];
                assert(res.tiles@[k] == tiles@[j]);
            } else {
                assert(res.tiles@[res.tiles@.len() - 1] == tiles@[j]);
            }
        }
        i += 1;
    }
    proof {
        assert forall|p: (int, int)|
            game.map.contains(p) && bears(game, game.map.tile(p), quests) implies exists|i: int|
            0 <= i < res.tiles@.len() && #[trigger] res.tiles@[i] == game.map.tile(p) by {
            game.map.lemma_all_tiles_complete(game.map.size as nat, p.1, grid_column(p));
            let j = choose|j: int|
                0 <= j < tiles@.len() && #[trigger] tiles@[j]
                    == &game.map.tiles@[p.1]@[grid_column(p)];
            assert(bears(game, tiles@[j], quests));
        }
    }
    res
}

/// Whether a hero template is of the family and the level.
pub open spec fn hero_fits(template: &Resource<HeroData>, family: Seq<char>, level: int) -> bool {
    template.data.hero_family@ == family && template.data.hero_level == level
}

/// Of the first `n` hero templates, those of the family and the level, in
/// the same order.
pub open spec fn fitting_heroes<'a>(
    rm: &'a ResourceManager,
    family: Seq<char>,
    level: int,
    n: nat,
) -> Seq<&'a Resource<HeroData>>
    decreases n,
{
    if n == 0 {
        Seq::empty()
    } else {
        let earlier = fitting_heroes(rm, family, level, (n - 1) as nat);
        if hero_fits(&rm.heroes@[n - 1], family, level) {
            earlier.push(&rm.heroes@[n - 1])
        } else {
            earlier
        }
    }
}

/// Of the first `n` quest templates, those of the family and the level, in
/// the same order.
pub open spec fn fitting_quests<'a>(
    rm: &'a ResourceManager,
    family: Seq<char>,
    level: int,
    n: nat,
) -> Seq<&'a Resource<QuestData>>
    decreases n,
{
    if n == 0 {
        Seq::empty()
    } else {
        let earlier = fitting_quests(rm, family, level, (n - 1) as nat);
        if quest_fits(&rm.quests@[n - 1], family, level) {
            earlier.push(&rm.quests@[n - 1])
        } else {
            earlier
        }
    }
}

/// Every hero template listed as fitting is one of the catalog and fits; the
/// list is empty only if the catalog has no hero template that fits.
pub proof fn lemma_fitting_heroes(rm: &ResourceManager, family: Seq<char>, level: int, n: nat)
    requires
        n <= rm.heroes@.len(),
    ensures
        forall|k: int|
            0 <= k < fitting_heroes(rm, family, level, n).len() ==> hero_fits(
                #[trigger] fitting_heroes(rm, family, level, n)[k],
                family,
                level,
            ) && exists|j: int|
                0 <= j < n && #[trigger] rm.heroes@[j] == *fitting_heroes(rm, family, level, n)[k],
        fitting_heroes(rm, family, level, n).len() == 0 ==> forall|j: int|
            0 <= j < n ==> !hero_fits(#[trigger] &rm.heroes@[j], family, level),
    decreases n,
{
    if n > 0 {
        lemma_fitting_heroes(rm, family, level, (n - 1) as nat);
        let earlier = fitting_heroes(rm, family, level, (n - 1) as nat);
        let all = fitting_heroes(rm, family, level, n);
        assert forall|k: int| 0 <= k < all.len() implies hero_fits(
            #[trigger] all[k],
            family,
            level,
        ) && exists|j: int| 0 <= j < n && #[trigger] rm.heroes@[j] == *all[k] by {
            if k < earlier.len() {
                assert(all[k] == earlier[k]);
                let j = choose|j: int| 0 <= j < n - 1 && #[trigger] rm.heroes@[j] == *earlier[k];
                assert(rm.heroes@[j] == *all[k]);
            } else {
                assert(rm.heroes@[n - 1] == *all[k]);
            }
        }
    }
}

/// Every quest template listed as fitting is one of the catalog and fits; the
/// list is empty only if the catalog has no quest template that fits.
pub proof fn lemma_fitting_quests(rm: &ResourceManager, family: Seq<char>, level: int, n: nat)
    requires
        n <= rm.quests@.len(),
    ensures
        forall|k: int|
            0 <= k < fitting_quests(rm, family, level, n).len() ==> quest_fits(
                #[trigger] fitting_quests(rm, family, level, n)[k],
                family,
                level,
            ) && exists|j: int|
                0 <= j < n && #[trigger] rm.quests@[j] == *fitting_quests(rm, family, level, n)[k],
        fitting_quests(rm, family, level, n).len() == 0 ==> forall|j: int|
            0 <= j < n ==> !quest_fits(#[trigger] &rm.quests@[j], family, level),
    decreases n,
{
    if n > 0 {
        lemma_fitting_quests(rm, family, level, (n - 1) as nat);
        let earlier = fitting_quests(rm, family, level, (n - 1) as nat);
        let all = fitting_quests(rm, family, level, n);
        assert forall|k: int| 0 <= k < all.len() implies quest_fits(
            #[trigger] all[k],
            family,
            level,
        ) && exists|j: int| 0 <= j < n && #[trigger] rm.quests@[j] == *all[k] by {
            if k < earlier.len() {
                assert(all[k] == earlier[k]);
                let j = choose|j: int| 0 <= j < n - 1 && #[trigger] rm.quests@[j] == *earlier[k];
                assert(rm.quests@[j] == *all[k]);
            } else {
                assert(rm.quests@[n - 1] == *all[k]);
            }
        }
    }
}

/// Whether a quest template is of the family and the level.
pub open spec fn quest_fits(template: &Resource<QuestData>, family: Seq<char>, level: int) -> bool {
    template.data.quest_family@ == family && template.data.quest_level == level
}

/// Whether the catalog has a quest template, or a hero template, of the
/// family and the level.
pub open spec fn has_template(
    rm: &ResourceManager,
    quests: bool,
    family: Seq<char>,
    level: int,
) -> bool {
    if quests {
        exists|k: int| 0 <= k < rm.quests@.len() && quest_fits(#[trigger] &rm.quests@[k], family, level)
    } else {
        exists|k: int| 0 <= k < rm.heroes@.len() && hero_fits(#[trigger] &rm.heroes@[k], family, level)
    }
}

/// Whether a draw can fall on the level on the tile: a quest, or a hero, can
/// appear on the tile, and the content of the tile gives the level a weight.
pub open spec fn drawable<'a>(
    game: &STWGame<'a>,
    p: (int, int),
    quests: bool,
    level: int,
) -> bool {
    &&& game.map.contains(p)
    &&& bears(game, game.map.tile(p), quests)
    &&& 0 <= level < levels_of(game.map.tile(p).field_content->0, quests).len()
    &&& levels_of(game.map.tile(p).field_content->0, quests)[level] > 0
}

/// Whether a spawn can fail in the given way. It can find no candidate if a
/// hero is due and no tile can bear one, or if some tile that can bear the
/// spawn gives no level any weight. It can find no template if a draw can
/// fall on a level of which the catalog has no template.
pub open spec fn spawn_can_fail<'a>(game: &STWGame<'a>, quests: bool, kind: GameFault) -> bool {
    match kind {
        GameFault::NoCandidate => {
            ||| !quests && forall|p: (int, int)|
                game.map.contains(p) ==> !bears(game, #[trigger] game.map.tile(p), quests)
            ||| exists|p: (int, int)|
                game.map.contains(p) && bears(game, #[trigger] game.map.tile(p), quests)
                    && weight_sum(
                    levels_of(game.map.tile(p).field_content->0, quests),
                    levels_of(game.map.tile(p).field_content->0, quests).len(),
                ) == 0
        },
        GameFault::NoTemplate => exists|p: (int, int), level: int| #[trigger]
            drawable(game, p, quests, level) && !has_template(
                game.resource_manager,
                quests,
                family_of(game.map.tile(p).field_content->0, quests),
                level,
            ),
        _ => false,
    }
}

} // verus!
