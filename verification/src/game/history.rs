//! The expedition a hero walks to a quest.

use vstd::prelude::*;
use crate::game::game_controller::GameCallback;
use crate::game::hero::Hero;
use crate::game::map::{
    grid_column,
    grid_position,
    hex_adjacent,
    hex_distance,
    views,
    GameMap,
    TilePos,
};
use crate::game::tile::GameTile;
use crate::game::{BadMove, GameError, GameFault, Rejection, STWGame};
use crate::quantity::UNIT;
use crate::resource::enums::{ActionRequirment, HeroSkill, SKILL_KINDS};
use crate::resource::resource_data::ActionData;
use crate::resource::tables::{accrued, raised, SkillLevels, SkillRanges};
use crate::resource::{place_of_id, record_of_id, Resource, ResourceManager};

verus! {

/// One step of an expedition: the tile stepped on and the action performed
/// there, or none for a pass.
pub type Step<'a> = (TilePos, Option<&'a Resource<ActionData>>);

/// An expedition under way.
#[derive(Debug)]
pub struct History<'a> {
    pub hero_index: usize,
    pub quest_pos: TilePos,
    pub steps: Vec<Step<'a>>,
    pub points_got: SkillLevels,
    pub current_modificators: SkillLevels,
    pub current_pos: Option<TilePos>,
    pub path_left: u32,
}

/// The id of the action of a step; the empty id for a pass.
pub open spec fn step_action_id(step: Step) -> Seq<char> {
    match step.1 {
        Some(action) => action.id@,
        None => Seq::empty(),
    }
}

/// The family of the action of a step; the empty family for a pass.
pub open spec fn step_family(step: Step) -> Seq<char> {
    match step.1 {
        Some(action) => action.data.action_family@,
        None => Seq::empty(),
    }
}

/// Whether some step was taken on the tile at `pos` with the action `id`.
pub open spec fn performed(steps: Seq<Step>, pos: TilePos, id: Seq<char>) -> bool {
    exists|i: int|
        0 <= i < steps.len() && (#[trigger] steps[i]).0 == pos && step_action_id(steps[i]) == id
}

/// Whether the steps taken so far meet an ordering requirement: some step
/// used the named action, some step used an action of the named family, or
/// fewer steps than the named number were taken.
pub open spec fn requirement_holds(steps: Seq<Step>, requirment: &ActionRequirment) -> bool {
    match requirment {
        ActionRequirment::IsBefore(id) => exists|i: int|
            0 <= i < steps.len() && step_action_id(#[trigger] steps[i]) == id@,
        ActionRequirment::IsBeforeFamily(family) => exists|i: int|
            0 <= i < steps.len() && step_family(#[trigger] steps[i]) == family@,
        ActionRequirment::IsBeforePosition(position) => steps.len() < *position,
    }
}

/// Whether the steps taken so far meet every ordering requirement of the action.
pub open spec fn permitted(steps: Seq<Step>, action: &Resource<ActionData>) -> bool {
    forall|j: int|
        0 <= j < action.data.requirments@.len() ==> requirement_holds(
            steps,
            #[trigger] &action.data.requirments@[j],
        )
}

/// The positions and action ids of a list of moves.
pub open spec fn move_views(moves: Seq<(TilePos, String)>) -> Seq<(TilePos, Seq<char>)> {
    moves.map_values(|m: (TilePos, String)| (m.0, m.1@))
}

/// Of the listed tiles, those in which people live, in the same order.
pub open spec fn inhabited_of<'a, 'b>(tiles: Seq<&'b GameTile<'a>>) -> Seq<&'b GameTile<'a>>
    decreases tiles.len(),
{
    if tiles.len() == 0 {
        Seq::empty()
    } else {
        let rest = inhabited_of(tiles.drop_last());
        if tiles.last().inhabited() {
            rest.push(tiles.last())
        } else {
            rest
        }
    }
}

/// The inhabited ones of tiles that lie on the map lie on the map.
pub proof fn lemma_inhabited_on_map<'a>(map: &GameMap<'a>, tiles: Seq<&GameTile<'a>>)
    requires
        map.all_on_map(tiles),
    ensures
        map.all_on_map(inhabited_of(tiles)),
    decreases tiles.len(),
{
    if tiles.len() > 0 {
        let rest = tiles.drop_last();
        assert forall|i: int| 0 <= i < rest.len() implies map.contains(
            (#[trigger] rest[i]).position@,
        ) by {
            assert(rest[i] == tiles[i]);
        }
        lemma_inhabited_on_map(map, rest);
        let earlier = inhabited_of(rest);
        let all = inhabited_of(tiles);
        assert forall|i: int| 0 <= i < all.len() implies map.contains(
            (#[trigger] all[i]).position@,
        ) by {
            if i < earlier.len() {
                assert(all[i] == earlier[i]);
            } else {
                assert(all[i] == tiles[tiles.len() - 1]);
            }
        }
    }
}

/// The points after the first `n` bonus tables of an action are counted: a
/// table counts if the steps taken so far meet its requirement.
pub open spec fn bonus_accrued(
    points: Map<HeroSkill, i64>,
    modifiers: Map<HeroSkill, i64>,
    bonus: Seq<(ActionRequirment, SkillRanges)>,
    steps: Seq<Step>,
    roll: int,
    n: nat,
) -> Map<HeroSkill, i64>
    decreases n,
{
    if n == 0 {
        points
    } else {
        let earlier = bonus_accrued(points, modifiers, bonus, steps, roll, (n - 1) as nat);
        if requirement_holds(steps, &bonus[n - 1].0) {
            accrued(earlier, modifiers, bonus[n - 1].1@, roll)
        } else {
            earlier
        }
    }
}

/// What is reported of the first `n` skills when a hero's skills grow for
/// good: each skill that `deltas` names, with the level it has now.
pub open spec fn levels_reported(
    hero_number: usize,
    skills: Map<HeroSkill, i64>,
    deltas: Map<HeroSkill, i64>,
    n: nat,
) -> Seq<GameCallback>
    decreases n,
{
    if n == 0 {
        Seq::empty()
    } else {
        let earlier = levels_reported(hero_number, skills, deltas, (n - 1) as nat);
        let skill = HeroSkill::spec_from_index(n - 1);
        if deltas.contains_key(skill) {
            earlier.push(
                GameCallback::HeroLeveled { hero_number, skill, new_skill_value: skills[skill] },
            )
        } else {
            earlier
        }
    }
}

/// Whether a roll grants the lasting skill growth of an action: it does when
/// the roll lies above one whole less the probability of the growth.
pub open spec fn grants(action: &Resource<ActionData>, roll: int) -> bool {
    UNIT - action.data.eternal_modificator.probability < roll
}

impl<'a> History<'a> {
    /// Whether the expedition belongs to the game: its hero exists, and its
    /// quest and the tile it stands on lie on the map.
    pub open spec fn fits(&self, game: &STWGame<'a>) -> bool {
        &&& self.hero_index < game.heroes@.len()
        &&& game.map.contains(self.quest_pos@)
        &&& self.current_pos matches Some(current) ==> game.map.contains(current@)
    }

    /// Why no expedition to the quest at `quest_pos` can start with the hero,
    /// if none can. The reasons are tried in this order: an expedition is
    /// under way; no quest waits at the position; no hero has the index; no
    /// inhabited tile lies within the path length of the quest.
    pub open spec fn start_fault(
        quest_pos: TilePos,
        hero_index: usize,
        game: &STWGame<'a>,
    ) -> Option<Rejection> {
        if game.history is Some {
            Some(Rejection::PlayingHistory)
        } else if !game.has_quest_at(quest_pos) {
            Some(Rejection::NoQuest)
        } else if hero_index >= game.heroes@.len() {
            Some(Rejection::NoHero)
        } else if inhabited_of(
            game.map.bands_together(quest_pos@, (game.max_path_length + 1) as nat),
        ).len() == 0 {
            Some(Rejection::TooFar)
        } else {
            None
        }
    }

    /// The expedition as it starts: no step taken, no points, the modifiers
    /// equal to the hero's skills, the whole path length left.
    pub open spec fn started(
        quest_pos: TilePos,
        hero_index: usize,
        game: &STWGame<'a>,
        history: &History<'a>,
    ) -> bool {
        &&& history.hero_index == hero_index
        &&& history.quest_pos == quest_pos
        &&& history.steps@.len() == 0
        &&& history.points_got@ == Map::<HeroSkill, i64>::empty()
        &&& history.current_modificators == game.heroes@[hero_index as int].skills
        &&& history.current_pos is None
        &&& history.path_left == game.max_path_length
    }

    /// Of the listed tiles, those in which people live.
    pub fn inhabited_tiles<'b>(tiles: &Vec<&'b GameTile<'a>>) -> (res: Vec<&'b GameTile<'a>>)
        ensures
            res@ == inhabited_of(tiles@),
    {
        let mut res: Vec<&'b GameTile<'a>> = Vec::new();
        let mut i: usize = 0;
        while i < tiles.len()
            invariant
                i <= tiles@.len(),
                res@ == inhabited_of(tiles@.take(i as int)),
            decreases tiles@.len() - i,
        {
            assert(tiles@.take(i + 1).drop_last() =~= tiles@.take(i as int));
            if tiles[i].is_inhabited() {
                res.push(tiles[i]);
            }
            i += 1;
        }
        assert(tiles@.take(tiles@.len() as int) =~= tiles@);
        res
    }

    /// Whether an expedition to the quest at `quest_pos` can start with the hero.
    pub fn can_start_new(quest_pos: &TilePos, hero_index: usize, game: &STWGame<'a>) -> (res:
        Result<(), BadMove>)
        requires
            game.wf(),
        ensures
            res matches Err(e) ==> e.says_why(),
            match res {
                Ok(()) => Self::start_fault(*quest_pos, hero_index, game) is None,
                Err(bad) => Self::start_fault(*quest_pos, hero_index, game) == Some(bad.kind),
            },
    {
        if game.history.is_some() {
            return Err(BadMove::of(Rejection::PlayingHistory));
        }
        if !game.is_quest_at(quest_pos) {
            return Err(BadMove::of(Rejection::NoQuest));
        }
        if hero_index >= game.heroes.len() {
            return Err(BadMove::of(Rejection::NoHero));
        }
        proof {
            let i = choose|i: int|
                0 <= i < game.quests@.len() && (#[trigger] game.quests@[i]).position == *quest_pos;
            assert(game.map.contains(game.quests@[i].position@));
        }
        let around = game.map.get_tiles_in_range_together(quest_pos, game.max_path_length);
        let homes = Self::inhabited_tiles(&around);
        if homes.len() == 0 {
            return Err(BadMove::of(Rejection::TooFar));
        }
        Ok(())
    }

    /// A new expedition to the quest at `quest_pos` with the hero.
    pub fn new(quest_pos: &TilePos, hero_index: usize, game: &STWGame<'a>) -> (res: Result<
        History<'a>,
        BadMove,
    >)
        requires
            game.wf(),
        ensures
            res matches Err(e) ==> e.says_why(),
            match res {
                Ok(history) => {
                    &&& Self::start_fault(*quest_pos, hero_index, game) is None
                    &&& Self::started(*quest_pos, hero_index, game, &history)
                    &&& history.fits(game)
                },
                Err(bad) => Self::start_fault(*quest_pos, hero_index, game) == Some(bad.kind),
            },
    {
        match Self::can_start_new(quest_pos, hero_index, game) {
            Ok(()) => {},
            Err(bad) => {
                return Err(bad);
            },
        }
        proof {
            let i = choose|i: int|
                0 <= i < game.quests@.len() && (#[trigger] game.quests@[i]).position == *quest_pos;
            assert(game.map.contains(game.quests@[i].position@));
        }
        Ok(
            History {
                hero_index,
                quest_pos: *quest_pos,
                steps: Vec::new(),
                points_got: SkillLevels::new(),
                current_modificators: game.heroes[hero_index].skills,
                current_pos: None,
                path_left: game.max_path_length,
            },
        )
    }

    /// Whether some step was taken on the tile at `pos` with the action `id`.
    pub fn was_performed(&self, pos: &TilePos, id: &str) -> (res: bool)
        ensures
            res == performed(self.steps@, *pos, id@),
    {
        let mut i: usize = 0;
        while i < self.steps.len()
            invariant
                i <= self.steps@.len(),
                forall|j: int|
                    0 <= j < i ==> !((#[trigger] self.steps@[j]).0 == *pos && step_action_id(
                        self.steps@[j],
                    ) == id@),
            decreases self.steps@.len() - i,
        {
            if self.steps[i].0 == *pos {
                let same = match self.steps[i].1 {
                    Some(action) => *action.id.as_str() == *id,
                    None => id.is_empty(),
                };
                if same {
                    assert(step_action_id(self.steps@[i as int]) =~= id@);
                    return true;
                }
            }
            i += 1;
        }
        false
    }

    /// Whether some step used the action that has the id; a pass counts as
    /// the action with the empty id.
    pub fn used_action(steps: &Vec<Step<'a>>, id: &str) -> (res: bool)
        ensures
            res == exists|i: int|
                0 <= i < steps@.len() && step_action_id(#[trigger] steps@[i]) == id@,
    {
        let mut i: usize = 0;
        while i < steps.len()
            invariant
                i <= steps@.len(),
                forall|j: int| 0 <= j < i ==> step_action_id(#[trigger] steps@[j]) != id@,
            decreases steps@.len() - i,
        {
            let same = match steps[i].1 {
                Some(action) => *action.id.as_str() == *id,
                None => id.is_empty(),
            };
            if same {
                assert(step_action_id(steps@[i as int]) =~= id@);
                return true;
            }
            i += 1;
        }
        false
    }

    /// Whether some step used an action of the family; a pass counts as an
    /// action of the empty family.
    pub fn used_family(steps: &Vec<Step<'a>>, family: &str) -> (res: bool)
        ensures
            res == exists|i: int|
                0 <= i < steps@.len() && step_family(#[trigger] steps@[i]) == family@,
    {
        let mut i: usize = 0;
        while i < steps.len()
            invariant
                i <= steps@.len(),
                forall|j: int| 0 <= j < i ==> step_family(#[trigger] steps@[j]) != family@,
            decreases steps@.len() - i,
        {
            let same = match steps[i].1 {
                Some(action) => *action.data.action_family.as_str() == *family,
                None => family.is_empty(),
            };
            if same {
                assert(step_family(steps@[i as int]) =~= family@);
                return true;
            }
            i += 1;
        }
        false
    }

    /// Whether the steps meet an ordering requirement.
    pub fn action_meats_requirment(steps: &Vec<Step<'a>>, req: &ActionRequirment) -> (res: bool)
        ensures
            res == requirement_holds(steps@, req),
    {
        match req {
            ActionRequirment::IsBefore(before) => Self::used_action(steps, before.as_str()),
            ActionRequirment::IsBeforeFamily(before) => Self::used_family(steps, before.as_str()),
            ActionRequirment::IsBeforePosition(position) => steps.len() < *position,
        }
    }

    /// Whether the steps taken so far meet every ordering requirement of the action.
    pub fn permits(&self, action: &Resource<ActionData>) -> (res: bool)
        ensures
            res == permitted(self.steps@, action),
    {
        let mut j: usize = 0;
        while j < action.data.requirments.len()
            invariant
                j <= action.data.requirments@.len(),
                forall|k: int|
                    0 <= k < j ==> requirement_holds(
                        self.steps@,
                        #[trigger] &action.data.requirments@[k],
                    ),
            decreases action.data.requirments@.len() - j,
        {
            if !Self::action_meats_requirment(&self.steps, &action.data.requirments[j]) {
                return false;
            }
            j += 1;
        }
        true
    }

    /// Whether the steps taken so far meet every ordering requirement of the
    /// action that has the id. It is an error if the catalog has no such action.
    pub fn is_action_permited(&self, id: &String, game: &STWGame<'a>) -> (res: Result<
        bool,
        GameError,
    >)
        ensures
            res matches Err(e) ==> e.says_why(),
            match res {
                Ok(answer) => record_of_id(game.resource_manager.actions@, id@) matches Some(
                    action,
                ) && answer == permitted(self.steps@, &action),
                Err(e) => record_of_id(game.resource_manager.actions@, id@) is None && e.kind
                    == GameFault::MissingResource,
            },
    {
        match game.resource_manager.get_action(id.as_str()) {
            Ok(action) => Ok(self.permits(action)),
            Err(e) => Err(e),
        }
    }

    /// Whether the catalog is asked about the action `id` on the tile: the
    /// action was not performed on the tile yet, and some path is left.
    pub open spec fn asks(&self, tile: &GameTile<'a>, id: Seq<char>) -> bool {
        !performed(self.steps@, tile.position, id) && self.path_left > 0
    }

    /// Whether the action `id` is open to the hero on the tile: the catalog is
    /// asked about it, has it, and the steps taken so far permit it.
    pub open spec fn offers(&self, rm: &ResourceManager, tile: &GameTile<'a>, id: Seq<char>) -> bool {
        &&& self.asks(tile, id)
        &&& record_of_id(rm.actions@, id) matches Some(action) && permitted(self.steps@, &action)
    }

    /// Of the first `n` actions of the tile, those open to the hero, each with
    /// the position of the tile.
    pub open spec fn tile_moves(&self, rm: &ResourceManager, tile: &GameTile<'a>, n: nat) -> Seq<
        (TilePos, Seq<char>),
    >
        decreases n,
    {
        if n == 0 {
            Seq::empty()
        } else {
            let earlier = self.tile_moves(rm, tile, (n - 1) as nat);
            let id = tile.action_ids()[n - 1]@;
            if self.offers(rm, tile, id) {
                earlier.push((tile.position, id))
            } else {
                earlier
            }
        }
    }

    /// The moves onto the tile: one for each action open to the hero, or a
    /// single pass, with the empty id, if no action is open.
    pub open spec fn tile_options(&self, rm: &ResourceManager, tile: &GameTile<'a>) -> Seq<
        (TilePos, Seq<char>),
    > {
        let moves = self.tile_moves(rm, tile, tile.action_ids().len());
        if moves.len() == 0 {
            seq![(tile.position, Seq::<char>::empty())]
        } else {
            moves
        }
    }

    /// Whether the tile names an action that the catalog is asked about and
    /// does not have.
    pub open spec fn tile_broken(&self, rm: &ResourceManager, tile: &GameTile<'a>) -> bool {
        exists|k: int|
            0 <= k < tile.action_ids().len() && self.asks(tile, #[trigger] tile.action_ids()[k]@)
                && record_of_id(rm.actions@, tile.action_ids()[k]@) is None
    }

    /// The moves the hero can make onto the tile.
    pub fn get_possible_actions_for_field_content(
        &self,
        game_tile: &GameTile<'a>,
        game: &STWGame<'a>,
    ) -> (res: Result<Vec<(TilePos, String)>, GameError>)
        ensures
            res matches Err(e) ==> e.says_why(),
            match res {
                Ok(moves) => !self.tile_broken(game.resource_manager, game_tile) && move_views(
                    moves@,
                ) == self.tile_options(game.resource_manager, game_tile),
                Err(e) => self.tile_broken(game.resource_manager, game_tile) && e.kind
                    == GameFault::MissingResource,
            },
    {
        let ids = game_tile.get_possible_actions();
        let position = game_tile.get_position();
        let mut res: Vec<(TilePos, String)> = Vec::new();
        let mut k: usize = 0;
        assert(move_views(res@) =~= Seq::empty());
        while k < ids.len()
            invariant
                ids@ == game_tile.action_ids(),
                position == game_tile.position,
                k <= ids@.len(),
                forall|j: int|
                    0 <= j < k ==> !(self.asks(game_tile, #[trigger] game_tile.action_ids()[j]@)
                        && record_of_id(game.resource_manager.actions@, game_tile.action_ids()[j]@)
                        is None),
                move_views(res@) == self.tile_moves(game.resource_manager, game_tile, k as nat),
            decreases ids@.len() - k,
        {
            let id = &ids[k];
            if !self.was_performed(&position, id.as_str()) && self.path_left > 0 {
                match self.is_action_permited(id, game) {
                    Ok(answer) => {
                        if answer {
                            let ghost listed = res@;
                            res.push((position, id.clone()));
                            assert(move_views(res@) =~= move_views(listed).push((position, id@)));
                        }
                    },
                    Err(e) => {
                        return Err(e);
                    },
                }
            }
            k += 1;
        }
        if res.len() == 0 {
            res.push((position, String::new()));
            assert(move_views(res@) =~= seq![(position, Seq::<char>::empty())]);
        }
        Ok(res)
    }

    /// Of the listed coordinates, the tiles of the map that lie within the
    /// path left of the quest.
    pub open spec fn stones<'b>(&self, map: &'b GameMap<'a>, around: Seq<(int, int)>) -> Seq<
        &'b GameTile<'a>,
    >
        decreases around.len(),
    {
        if around.len() == 0 {
            Seq::empty()
        } else {
            let rest = self.stones(map, around.drop_last());
            if hex_distance(around.last(), self.quest_pos@) <= self.path_left && map.contains(
                around.last(),
            ) {
                rest.push(map.tile(around.last()))
            } else {
                rest
            }
        }
    }

    /// The tiles the hero can step on next: from a tile, the tiles next to it
    /// that lie within the path left of the quest; before the first step,
    /// every inhabited tile within the path left of the quest.
    pub open spec fn reachable<'b>(&self, map: &'b GameMap<'a>) -> Seq<&'b GameTile<'a>> {
        match self.current_pos {
            Some(current) => self.stones(map, hex_adjacent(current@)),
            None => inhabited_of(map.bands_together(self.quest_pos@, (self.path_left + 1) as nat)),
        }
    }

    /// The moves onto the listed tiles, tile after tile.
    pub open spec fn moves_over(&self, rm: &ResourceManager, tiles: Seq<&GameTile<'a>>) -> Seq<
        (TilePos, Seq<char>),
    >
        decreases tiles.len(),
    {
        if tiles.len() == 0 {
            Seq::empty()
        } else {
            self.moves_over(rm, tiles.drop_last()) + self.tile_options(rm, tiles.last())
        }
    }

    /// Whether one of the listed tiles names an action that the catalog is
    /// asked about and does not have.
    pub open spec fn any_broken(&self, rm: &ResourceManager, tiles: Seq<&GameTile<'a>>) -> bool {
        exists|i: int| 0 <= i < tiles.len() && self.tile_broken(rm, #[trigger] tiles[i])
    }

    /// Every tile the hero can step on next lies on the map.
    pub proof fn lemma_reachable_on_map(&self, map: &GameMap<'a>)
        requires
            map.wf(),
            map.contains(self.quest_pos@),
        ensures
            map.all_on_map(self.reachable(map)),
    {
        match self.current_pos {
            Some(current) => {
                self.lemma_stones_on_map(map, hex_adjacent(current@));
            },
            None => {
                let around = map.bands_together(self.quest_pos@, (self.path_left + 1) as nat);
                map.lemma_bands_on_map(self.quest_pos@, (self.path_left + 1) as nat);
                lemma_inhabited_on_map(map, around);
            },
        }
    }

    /// The tiles within the path left, of listed coordinates, lie on the map.
    pub proof fn lemma_stones_on_map(&self, map: &GameMap<'a>, around: Seq<(int, int)>)
        requires
            map.wf(),
        ensures
            map.all_on_map(self.stones(map, around)),
        decreases around.len(),
    {
        if around.len() > 0 {
            self.lemma_stones_on_map(map, around.drop_last());
            let earlier = self.stones(map, around.drop_last());
            let all = self.stones(map, around);
            assert forall|i: int| 0 <= i < all.len() implies map.contains(
                (#[trigger] all[i]).position@,
            ) by {
                if i < earlier.len() {
                    assert(all[i] == earlier[i]);
                } else {
                    let p = around.last();
                    assert(map.tiles@[p.1]@[grid_column(p)].position@ == grid_position(
                        p.1,
                        grid_column(p),
                    ));
                }
            }
        }
    }

    /// Every move onto a tile names the position of the tile, and either is
    /// a pass or names an action that is open to the hero there.
    pub proof fn lemma_tile_options_open(&self, rm: &ResourceManager, tile: &GameTile<'a>, i: int)
        requires
            0 <= i < self.tile_options(rm, tile).len(),
        ensures
            self.tile_options(rm, tile)[i].0 == tile.position,
            self.tile_options(rm, tile)[i].1.len() == 0 || self.offers(
                rm,
                tile,
                self.tile_options(rm, tile)[i].1,
            ),
    {
        let moves = self.tile_moves(rm, tile, tile.action_ids().len());
        if moves.len() > 0 {
            self.lemma_tile_moves_open(rm, tile, tile.action_ids().len(), i);
        }
    }

    /// Every move among the first actions of a tile names the position of the
    /// tile and an action that is open to the hero there.
    pub proof fn lemma_tile_moves_open(
        &self,
        rm: &ResourceManager,
        tile: &GameTile<'a>,
        n: nat,
        i: int,
    )
        requires
            0 <= i < self.tile_moves(rm, tile, n).len(),
        ensures
            self.tile_moves(rm, tile, n)[i].0 == tile.position,
            self.offers(rm, tile, self.tile_moves(rm, tile, n)[i].1),
        decreases n,
    {
        if n > 0 {
            let earlier = self.tile_moves(rm, tile, (n - 1) as nat);
            if i < earlier.len() {
                self.lemma_tile_moves_open(rm, tile, (n - 1) as nat, i);
            }
        }
    }

    /// Every move onto listed tiles is a move onto one of them.
    pub proof fn lemma_moves_over_open(
        &self,
        rm: &ResourceManager,
        tiles: Seq<&GameTile<'a>>,
        i: int,
    ) -> (t: int)
        requires
            0 <= i < self.moves_over(rm, tiles).len(),
        ensures
            0 <= t < tiles.len(),
            self.moves_over(rm, tiles)[i].0 == tiles[t].position,
            self.moves_over(rm, tiles)[i].1.len() == 0 || self.offers(
                rm,
                tiles[t],
                self.moves_over(rm, tiles)[i].1,
            ),
        decreases tiles.len(),
    {
        let earlier = self.moves_over(rm, tiles.drop_last());
        if i < earlier.len() {
            self.lemma_moves_over_open(rm, tiles.drop_last(), i)
        } else {
            self.lemma_tile_options_open(rm, tiles.last(), i - earlier.len());
            tiles.len() - 1
        }
    }

    /// The tiles the hero can step on next.
    pub fn reachable_tiles<'b>(&self, map: &'b GameMap<'a>) -> (res: Vec<&'b GameTile<'a>>)
        requires
            map.wf(),
            map.contains(self.quest_pos@),
            self.current_pos matches Some(current) ==> map.contains(current@),
        ensures
            res@ == self.reachable(map),
    {
        match self.current_pos {
            Some(current) => {
                let around = current.adjacent_positions();
                let ghost positions = hex_adjacent(current@);
                let mut res: Vec<&'b GameTile<'a>> = Vec::new();
                let mut i: usize = 0;
                while i < 6
                    invariant
                        map.wf(),
                        map.contains(self.quest_pos@),
                        map.contains(current@),
                        self.current_pos == Some(current),
                        views(around@) == positions,
                        positions == hex_adjacent(current@),
                        i <= 6,
                        res@ == self.stones(map, positions.take(i as int)),
                    decreases 6 - i,
                {
                    assert(positions.take(i + 1).drop_last() =~= positions.take(i as int));
                    let next = around[i];
                    assert(next@ == positions[i as int]);
                    if next.distance(&self.quest_pos) <= self.path_left {
                        match map.get(&next) {
                            Some(tile) => {
                                res.push(tile);
                            },
                            None => {},
                        }
                    }
                    i += 1;
                }
                assert(positions.take(6) =~= positions);
                res
            },
            None => {
                let around = map.get_tiles_in_range_together(&self.quest_pos, self.path_left);
                Self::inhabited_tiles(&around)
            },
        }
    }

    /// The moves the hero can make next, as positions with action ids; the
    /// empty id is a pass. It is an error if a tile in reach names an action
    /// that the catalog is asked about and does not have.
    pub fn get_possible_next_move(&self, game: &STWGame<'a>) -> (res: Result<
        Vec<(TilePos, String)>,
        GameError,
    >)
        requires
            game.map.wf(),
            self.fits(game),
        ensures
            res matches Err(e) ==> e.says_why(),
            match res {
                Ok(moves) => !self.any_broken(game.resource_manager, self.reachable(&game.map))
                    && move_views(moves@) == self.moves_over(
                    game.resource_manager,
                    self.reachable(&game.map),
                ),
                Err(e) => self.any_broken(game.resource_manager, self.reachable(&game.map))
                    && e.kind == GameFault::MissingResource,
            },
    {
        let tiles = self.reachable_tiles(&game.map);
        let mut res: Vec<(TilePos, String)> = Vec::new();
        let mut i: usize = 0;
        assert(move_views(res@) =~= Seq::empty());
        while i < tiles.len()
            invariant
                tiles@ == self.reachable(&game.map),
                i <= tiles@.len(),
                forall|j: int|
                    0 <= j < i ==> !self.tile_broken(game.resource_manager, #[trigger] tiles@[j]),
                move_views(res@) == self.moves_over(game.resource_manager, tiles@.take(i as int)),
            decreases tiles@.len() - i,
        {
            assert(tiles@.take(i + 1).drop_last() =~= tiles@.take(i as int));
            match self.get_possible_actions_for_field_content(tiles[i], game) {
                Ok(mut moves) => {
                    let ghost listed = res@;
                    let ghost added = moves@;
                    res.append(&mut moves);
                    assert(move_views(res@) =~= move_views(listed) + move_views(added));
                },
                Err(e) => {
                    return Err(e);
                },
            }
            i += 1;
        }
        assert(tiles@.take(tiles@.len() as int) =~= tiles@);
        Ok(res)
    }

    /// Whether `after`, `heroes_after` and `report` are what a step onto the
    /// tile at `pos` makes of `before` and `heroes_before`.
    ///
    /// Every step is added to the steps taken and moves the hero to `pos`. A
    /// pass, a step without action, changes nothing else, reads no hero, and
    /// reports a move with a roll of zero and the empty action id. A step
    /// with an action
    /// counts the roll into the points, first by the action's own ranges and
    /// then by each bonus table whose requirement the earlier steps meet, all
    /// weighted by the modifiers as they were before the step; it then raises
    /// the modifiers by those of the action and takes one from the path left.
    /// If the roll grants the lasting growth of the action, the hero's skills
    /// rise by it. The step reports the move and then, if granted, each skill
    /// that grew.
    pub open spec fn stepped(
        before: &History<'a>,
        heroes_before: Seq<Hero<'a>>,
        pos: TilePos,
        action: Option<&'a Resource<ActionData>>,
        roll: int,
        after: &History<'a>,
        heroes_after: Seq<Hero<'a>>,
        report: Seq<GameCallback>,
    ) -> bool {
        let hero = before.hero_index as int;
        &&& after.hero_index == before.hero_index
        &&& after.quest_pos == before.quest_pos
        &&& after.steps@ == before.steps@.push((pos, action))
        &&& after.current_pos == Some(pos)
        &&& heroes_after.len() == heroes_before.len()
        &&& match action {
            None => {
                &&& heroes_after == heroes_before
                &&& after.points_got@ == before.points_got@
                &&& after.current_modificators@ == before.current_modificators@
                &&& after.path_left == before.path_left
                &&& report.len() == 1
                &&& report[0] matches GameCallback::HeroMoved {
                    dest_position,
                    hero_number,
                    success,
                    action_performed,
                }
                &&& dest_position == pos
                &&& hero_number == before.hero_index
                &&& success == 0
                &&& action_performed@ == Seq::<char>::empty()
            },
            Some(action) => {
                &&& forall|k: int|
                    0 <= k < heroes_before.len() && k != hero ==> #[trigger] heroes_after[k]
                        == heroes_before[k]
                &&& heroes_after[hero].background == heroes_before[hero].background
                &&& heroes_after[hero].name == heroes_before[hero].name
                &&& heroes_after[hero].learning_count == heroes_before[hero].learning_count
                &&& heroes_after[hero]._stories_get == heroes_before[hero]._stories_get
                &&& heroes_after[hero]._resource_manager == heroes_before[hero]._resource_manager
                &&& after.points_got@ == bonus_accrued(
                    accrued(
                        before.points_got@,
                        before.current_modificators@,
                        action.data.points@,
                        roll,
                    ),
                    before.current_modificators@,
                    action.data.bonus_points@,
                    before.steps@,
                    roll,
                    action.data.bonus_points@.len(),
                )
                &&& after.current_modificators@ == raised(
                    before.current_modificators@,
                    action.data.modificators@,
                )
                &&& after.path_left == before.path_left - 1
                &&& heroes_after[hero].skills@ == (if grants(action, roll) {
                    raised(heroes_before[hero].skills@, action.data.eternal_modificator.skills@)
                } else {
                    heroes_before[hero].skills@
                })
                &&& report == seq![
                    GameCallback::HeroMoved {
                        dest_position: pos,
                        hero_number: before.hero_index,
                        success: roll as i64,
                        action_performed: action.id,
                    },
                ] + (if grants(action, roll) {
                    levels_reported(
                        before.hero_index,
                        heroes_after[hero].skills@,
                        action.data.eternal_modificator.skills@,
                        SKILL_KINDS as nat,
                    )
                } else {
                    Seq::empty()
                })
            },
        }
    }

    /// Reports each skill that `deltas` names, with the level `skills` holds for it.
    pub fn report_levels(hero_number: usize, skills: &SkillLevels, deltas: &SkillLevels) -> (res:
        Vec<GameCallback>)
        requires
            forall|skill: HeroSkill| #[trigger] skills@.contains_key(skill),
        ensures
            res@ == levels_reported(hero_number, skills@, deltas@, SKILL_KINDS as nat),
    {
        let mut res: Vec<GameCallback> = Vec::new();
        let mut i: usize = 0;
        while i < SKILL_KINDS
            invariant
                forall|skill: HeroSkill| #[trigger] skills@.contains_key(skill),
                i <= SKILL_KINDS,
                res@ == levels_reported(hero_number, skills@, deltas@, i as nat),
            decreases SKILL_KINDS - i,
        {
            let skill = HeroSkill::from_index(i);
            assert(skills@.contains_key(skill));
            match (deltas.get(skill), skills.get(skill)) {
                (Some(_), Some(level)) => {
                    res.push(
                        GameCallback::HeroLeveled { hero_number, skill, new_skill_value: level },
                    );
                },
                _ => {},
            }
            i += 1;
        }
        res
    }

    /// Takes one step onto the tile at `pos` with the given action, or a pass
    /// if there is none, for the given roll.
    pub fn apply_step(
        &mut self,
        pos: TilePos,
        action: Option<&'a Resource<ActionData>>,
        roll: i64,
        heroes: &mut Vec<Hero<'a>>,
    ) -> (res: Vec<GameCallback>)
        requires
            0 <= roll < UNIT,
            action is Some ==> {
                &&& old(self).path_left > 0
                &&& old(self).hero_index < old(heroes)@.len()
                &&& old(heroes)@[old(self).hero_index as int].wf()
            },
        ensures
            Self::stepped(
                old(self),
                old(heroes)@,
                pos,
                action,
                roll as int,
                final(self),
                final(heroes)@,
                res@,
            ),
            forall|k: int|
                0 <= k < old(heroes)@.len() && old(heroes)@[k].wf() ==> (
                #[trigger] final(heroes)@[k]).wf(),
    {
        let hero = self.hero_index;
        match action {
            None => {
                self.steps.push((pos, None));
                self.current_pos = Some(pos);
                let mut res: Vec<GameCallback> = Vec::new();
                res.push(
                    GameCallback::HeroMoved {
                        dest_position: pos,
                        hero_number: hero,
                        success: 0,
                        action_performed: String::new(),
                    },
                );
                res
            },
            Some(action) => {
                let modifiers = self.current_modificators;
                self.points_got.accrue(&modifiers, &action.data.points, roll);
                let ghost counted = self.points_got@;
                let bonus = &action.data.bonus_points;
                let mut i: usize = 0;
                while i < bonus.len()
                    invariant
                        0 <= roll < UNIT,
                        bonus == &action.data.bonus_points,
                        i <= bonus@.len(),
                        self.steps == old(self).steps,
                        self.hero_index == old(self).hero_index,
                        self.quest_pos == old(self).quest_pos,
                        self.current_modificators == old(self).current_modificators,
                        self.current_pos == old(self).current_pos,
                        self.path_left == old(self).path_left,
                        modifiers == old(self).current_modificators,
                        self.points_got@ == bonus_accrued(
                            counted,
                            modifiers@,
                            bonus@,
                            self.steps@,
                            roll as int,
                            i as nat,
                        ),
                    decreases bonus@.len() - i,
                {
                    if Self::action_meats_requirment(&self.steps, &bonus[i].0) {
                        self.points_got.accrue(&modifiers, &bonus[i].1, roll);
                    }
                    i += 1;
                }
                self.current_modificators.raise(&action.data.modificators);
                let mut res: Vec<GameCallback> = Vec::new();
                res.push(
                    GameCallback::HeroMoved {
                        dest_position: pos,
                        hero_number: hero,
                        success: roll,
                        action_performed: action.id.clone(),
                    },
                );
                let threshold: i128 = UNIT as i128 - action.data.eternal_modificator.probability as i128;
                if threshold < roll as i128 {
                    let mut skills = heroes[hero].skills;
                    skills.raise(&action.data.eternal_modificator.skills);
                    heroes[hero].skills = skills;
                    let mut leveled = Self::report_levels(
                        hero,
                        &skills,
                        &action.data.eternal_modificator.skills,
                    );
                    res.append(&mut leveled);
                }
                self.steps.push((pos, Some(action)));
                self.current_pos = Some(pos);
                self.path_left = self.path_left - 1;
                res
            },
        }
    }

    /// The action a move names: none for the empty id, else the action of
    /// the catalog that has the id.
    pub open spec fn named_action(rm: &'a ResourceManager, action: Seq<char>) -> Option<
        &'a Resource<ActionData>,
    > {
        if action.len() == 0 {
            None
        } else {
            Some(&rm.actions@[place_of_id(rm.actions@, action)->0])
        }
    }

    /// Lets the hero step onto the tile at `pos` and perform the action that
    /// has the id there; the empty id is a pass. The roll of the step is drawn
    /// from the random source, so the outcome is that of some roll.
    pub fn perform_move(
        &mut self,
        pos: TilePos,
        action: String,
        rm: &'a ResourceManager,
        heroes: &mut Vec<Hero<'a>>,
    ) -> (res: Vec<GameCallback>)
        requires
            action@.len() > 0 ==> {
                &&& place_of_id(rm.actions@, action@) is Some
                &&& old(self).path_left > 0
                &&& old(self).hero_index < old(heroes)@.len()
                &&& old(heroes)@[old(self).hero_index as int].wf()
            },
        ensures
            exists|roll: int|
                0 <= roll < UNIT && #[trigger] Self::stepped(
                    old(self),
                    old(heroes)@,
                    pos,
                    Self::named_action(rm, action@),
                    roll,
                    final(self),
                    final(heroes)@,
                    res@,
                ),
            forall|k: int|
                0 <= k < old(heroes)@.len() && old(heroes)@[k].wf() ==> (
                #[trigger] final(heroes)@[k]).wf(),
            final(self).path_left == (if action@.len() > 0 {
                old(self).path_left - 1
            } else {
                old(self).path_left as int
            }),
    {
        if action.as_str().is_empty() {
            let res = self.apply_step(pos, None, 0, heroes);
            assert(Self::stepped(
                old(self),
                old(heroes)@,
                pos,
                Self::named_action(rm, action@),
                0,
                self,
                heroes@,
                res@,
            ));
            res
        } else {
            match rm.get_action(action.as_str()) {
                Ok(found) => {
                    let roll = crate::random::roll();
                    let res = self.apply_step(pos, Some(found), roll, heroes);
                    assert(Self::stepped(
                        old(self),
                        old(heroes)@,
                        pos,
                        Self::named_action(rm, action@),
                        roll as int,
                        self,
                        heroes@,
                        res@,
                    ));
                    res
                },
                // Not reached: the catalog has the action, as the caller has made sure.
                Err(_) => Vec::new(),
            }
        }
    }
}

} // verus!
