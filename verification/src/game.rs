//! The game session and the parts it is composed of.

pub mod game_controller;
pub mod game_move;
pub mod hero;
pub mod history;
pub mod map;
pub mod quest;
pub mod tile;

use vstd::prelude::*;
use crate::game::game_controller::hero_controller::HeroController;
use crate::game::game_controller::quest_controller::QuestController;
use crate::game::game_controller::{
    bears,
    drawable,
    family_of,
    hero_fits,
    quest_fits,
    spawn_can_fail,
    GameCallback,
};
use crate::game::hero::starting_skills;
use crate::game::game_move::{GameMove, PossibleBuilding};
use crate::game::hero::Hero;
use crate::game::history::{move_views, History};
use crate::game::map::{
    hex_distance,
    lemma_contents_members,
    lemma_grid_diameter,
    lemma_ring_complete,
    lemma_ring_distance,
    ring,
    GameMap,
    TilePos,
};
use crate::game::quest::Quest;
use crate::game::tile::GameTile;
use crate::resource::enums::{FieldInstantEffect, GResource, RESOURCE_KINDS};
use crate::resource::resource_data::{
    affordable,
    band_views,
    debited,
    lemma_debit_exact,
    lemma_requirement_same,
    near_has,
    passes,
    requirement_distance,
    requirement_met,
    ActionData,
    FieldTypeData,
    NearTest,
};
use crate::quantity::UNIT;
use crate::resource::tables::Ledger;
use crate::resource::{
    contains_id,
    lemma_place_is_first,
    lists_id,
    place_of_id,
    record_of_id,
    Resource,
    ResourceManager,
};
use crate::game::map::contents_of;

verus! {

/// Why the rule catalog, or what was asked of it, cannot support an operation.
#[derive(Debug, Clone, Copy, PartialEq, Eq, Structural)]
pub enum GameFault {
    /// The catalog holds no record under an id that is referred to.
    MissingResource,
    /// The catalog holds no settings record.
    NoGlobals,
    /// The catalog holds no origin terrain.
    NoOrigin,
    /// The map size is zero, larger than a map can be, or not the size of the
    /// noise field.
    BadMapSize,
    /// A spawn was due, but no tile carries any weight.
    NoCandidate,
    /// No template has the family and level that a spawn drew.
    NoTemplate,
    /// Any other failure, described by the message alone.
    Other,
}

/// A failure that shows the game data to be broken. It is no fault of the
/// player's move.
#[derive(Debug, Clone)]
pub struct GameError {
    pub kind: GameFault,
    pub msg: String,
}

impl GameError {
    /// Whether the message is the one that belongs to the kind of the error.
    pub open spec fn says_why(&self) -> bool {
        self.msg@ == self.kind.spec_text()@
    }

    /// An error of kind `Other` with the given message.
    pub fn new(msg: String) -> (res: GameError)
        ensures
            res.kind == GameFault::Other,
            res.msg == msg,
    {
        GameError { kind: GameFault::Other, msg }
    }

    /// The error of the given kind, with the message that belongs to the kind.
    pub fn of(kind: GameFault) -> (res: GameError)
        ensures
            res.kind == kind,
            res.msg@ == kind.spec_text()@,
            res.says_why(),
    {
        GameError { kind, msg: kind.text().to_owned() }
    }
}

impl GameFault {
    /// The message that belongs to the kind.
    pub open spec fn spec_text(self) -> &'static str {
        match self {
            GameFault::MissingResource => "No resource with the given id. Probably missing resource",
            GameFault::NoGlobals => "Can not read global resources. Add min. one instance",
            GameFault::NoOrigin => "No origin field in resources",
            GameFault::BadMapSize => "Map size is zero, too large, or not the size of the noise field",
            GameFault::NoCandidate => "Game badly configured, no tile to draw from",
            GameFault::NoTemplate => "Game badly configured, there is a lack of a template that should be in resources",
            GameFault::Other => "Error occured while simulating game",
        }
    }

    /// The message that belongs to the kind.
    pub fn text(self) -> (res: &'static str)
        ensures
            res == self.spec_text(),
    {
        match self {
            GameFault::MissingResource => "No resource with the given id. Probably missing resource",
            GameFault::NoGlobals => "Can not read global resources. Add min. one instance",
            GameFault::NoOrigin => "No origin field in resources",
            GameFault::BadMapSize => "Map size is zero, too large, or not the size of the noise field",
            GameFault::NoCandidate => "Game badly configured, no tile to draw from",
            GameFault::NoTemplate => "Game badly configured, there is a lack of a template that should be in resources",
            GameFault::Other => "Error occured while simulating game",
        }
    }
}

/// Why a move is refused.
#[derive(Debug, Clone, Copy, PartialEq, Eq, Structural)]
pub enum Rejection {
    /// An expedition is under way.
    PlayingHistory,
    /// No expedition is under way.
    NoHistory,
    /// The tile holds a quest that has to be completed first.
    QuestOnTile,
    /// The content can be built here, but the ledger cannot pay for it.
    NotEnoughResources,
    /// The content cannot be built here.
    CantBuild,
    /// No building of the required build path stands on the map.
    NoRequiredBuildings,
    /// No quest waits at the position.
    NoQuest,
    /// No hero has the index.
    NoHero,
    /// No inhabited tile lies within the path length of the quest.
    TooFar,
    /// The step is not among the next steps the expedition may take.
    IllegalStep,
    /// The kind of move is not played by this game.
    Unsupported,
    /// Any other reason, described by the message alone.
    Other,
}

/// The refusal of a move. The game is as it was before the move.
#[derive(Debug, Clone)]
pub struct BadMove {
    pub kind: Rejection,
    pub msg: String,
}

impl BadMove {
    /// Whether the message is the one that belongs to the kind of the refusal.
    pub open spec fn says_why(&self) -> bool {
        self.msg@ == self.kind.spec_text()@
    }

    /// A refusal of kind `Other` with the given message.
    pub fn new(msg: String) -> (res: BadMove)
        ensures
            res.kind == Rejection::Other,
            res.msg == msg,
    {
        BadMove { kind: Rejection::Other, msg }
    }

    /// The refusal of the given kind, with the message that belongs to the kind.
    pub fn of(kind: Rejection) -> (res: BadMove)
        ensures
            res.kind == kind,
            res.msg@ == kind.spec_text()@,
            res.says_why(),
    {
        BadMove { kind, msg: kind.text().to_owned() }
    }
}

impl Rejection {
    /// The message that belongs to the kind.
    pub open spec fn spec_text(self) -> &'static str {
        match self {
            Rejection::PlayingHistory => "Game is playing history",
            Rejection::NoHistory => "Game is not playing history",
            Rejection::QuestOnTile => "To build here complete quest",
            Rejection::NotEnoughResources => "Not enought resources to build",
            Rejection::CantBuild => "Cant build this here",
            Rejection::NoRequiredBuildings => "Can not perform game step because there are no required buildings",
            Rejection::NoQuest => "No quest at position",
            Rejection::NoHero => "No hero with index",
            Rejection::TooFar => "Hero can't go so many tiles to get to the quest",
            Rejection::IllegalStep => "Hero can not make this step",
            Rejection::Unsupported => "This move is not played",
            Rejection::Other => "Bad move",
        }
    }

    /// The message that belongs to the kind.
    pub fn text(self) -> (res: &'static str)
        ensures
            res == self.spec_text(),
    {
        match self {
            Rejection::PlayingHistory => "Game is playing history",
            Rejection::NoHistory => "Game is not playing history",
            Rejection::QuestOnTile => "To build here complete quest",
            Rejection::NotEnoughResources => "Not enought resources to build",
            Rejection::CantBuild => "Cant build this here",
            Rejection::NoRequiredBuildings => "Can not perform game step because there are no required buildings",
            Rejection::NoQuest => "No quest at position",
            Rejection::NoHero => "No hero with index",
            Rejection::TooFar => "Hero can't go so many tiles to get to the quest",
            Rejection::IllegalStep => "Hero can not make this step",
            Rejection::Unsupported => "This move is not played",
            Rejection::Other => "Bad move",
        }
    }
}

/// Why a move did not take place.
#[derive(Debug)]
pub enum MoveError {
    /// The move is against the rules. The game is as it was.
    Rejected(BadMove),
    /// The game data cannot support the move. The game is as it was.
    Broken(GameError),
}

impl MoveError {
    /// Whether the refusal or the error inside carries the message that
    /// belongs to its kind.
    pub open spec fn says_why(&self) -> bool {
        match self {
            MoveError::Rejected(bad) => bad.msg@ == bad.kind.spec_text()@,
            MoveError::Broken(e) => e.msg@ == e.kind.spec_text()@,
        }
    }
}

/// A game in progress: the map, the economy, the heroes and quests, and the
/// expedition under way, if any.
#[derive(Debug)]
pub struct STWGame<'a> {
    pub map: GameMap<'a>,
    pub heroes: Vec<Hero<'a>>,
    pub quests: Vec<Quest<'a>>,
    pub history: Option<History<'a>>,
    pub game_turn: u32,
    pub game_resources: Ledger,
    pub max_heroes: u32,
    pub _max_additional_learning_hero: u32,
    pub max_path_length: u32,
    pub builded: Vec<String>,
    pub resource_manager: &'a ResourceManager,
}

/// `x` held to the range of `u32`.
pub open spec fn saturated_u32(x: int) -> u32 {
    if x > u32::MAX {
        u32::MAX
    } else if x < 0 {
        0
    } else {
        x as u32
    }
}

/// The ids and flags of a list of possible buildings.
pub open spec fn building_views(list: Seq<PossibleBuilding>) -> Seq<(Seq<char>, bool)> {
    list.map_values(|b: PossibleBuilding| (b.id@, b.not_enought_resources))
}

/// The holdings and the limit of heroes after one instant effect of a
/// content. An effect marked `only_first_time` plays only if the content was
/// built before. A gift is added to a kind the ledger holds, up to the
/// largest amount a ledger can hold; of the other effects only the one that
/// raises the limit of heroes changes anything.
pub open spec fn effect_applied(
    state: (Map<GResource, u32>, u32),
    effect: FieldInstantEffect,
    built_before: bool,
) -> (Map<GResource, u32>, u32) {
    match effect {
        FieldInstantEffect::GiveResources { only_first_time, resource, amount } => {
            if (!only_first_time || built_before) && state.0.contains_key(resource) {
                (state.0.insert(resource, saturated_u32(state.0[resource] + amount)), state.1)
            } else {
                state
            }
        },
        FieldInstantEffect::IncreaseMaxHeroes { only_first_time } => {
            if !only_first_time || built_before {
                (state.0, saturated_u32(state.1 + 1))
            } else {
                state
            }
        },
        _ => state,
    }
}

/// The holdings and the limit of heroes after the first `n` of the effects.
pub open spec fn effects_applied(
    state: (Map<GResource, u32>, u32),
    effects: Seq<FieldInstantEffect>,
    built_before: bool,
    n: nat,
) -> (Map<GResource, u32>, u32)
    decreases n,
{
    if n == 0 {
        state
    } else {
        effect_applied(
            effects_applied(state, effects, built_before, (n - 1) as nat),
            effects[n - 1],
            built_before,
        )
    }
}

/// What the first `n` of the effects report: each raise of the limit of
/// heroes, with the limit it led to.
pub open spec fn effects_reported(
    state: (Map<GResource, u32>, u32),
    effects: Seq<FieldInstantEffect>,
    built_before: bool,
    n: nat,
) -> Seq<GameCallback>
    decreases n,
{
    if n == 0 {
        Seq::empty()
    } else {
        let earlier = effects_reported(state, effects, built_before, (n - 1) as nat);
        match effects[n - 1] {
            FieldInstantEffect::IncreaseMaxHeroes { only_first_time } => {
                if !only_first_time || built_before {
                    earlier.push(
                        GameCallback::MaxHeroesIncreased {
                            current_max_heroes: effects_applied(state, effects, built_before, n).1,
                        },
                    )
                } else {
                    earlier
                }
            },
            _ => earlier,
        }
    }
}

/// What is reported of the first `n` kinds of resource: each kind that both
/// ledgers hold in different amounts, with the amount after.
pub open spec fn changes_reported(
    before: Map<GResource, u32>,
    after: Map<GResource, u32>,
    n: nat,
) -> Seq<GameCallback>
    decreases n,
{
    if n == 0 {
        Seq::empty()
    } else {
        let earlier = changes_reported(before, after, (n - 1) as nat);
        let kind = GResource::spec_from_index(n - 1);
        if before.contains_key(kind) && after.contains_key(kind) && before[kind] != after[kind] {
            earlier.push(GameCallback::ChangedResource { resource: kind, new_value: after[kind] })
        } else {
            earlier
        }
    }
}

/// Whether an effect is a gift of resources that plays: it is not marked
/// `only_first_time`, or the content was built before.
pub open spec fn gift_plays(effect: FieldInstantEffect, built_before: bool) -> bool {
    effect matches FieldInstantEffect::GiveResources { only_first_time, .. } && (!only_first_time
        || built_before)
}

/// Effects among which no gift plays leave the holdings as they are.
pub proof fn lemma_effects_without_gifts(
    state: (Map<GResource, u32>, u32),
    effects: Seq<FieldInstantEffect>,
    built_before: bool,
    n: nat,
)
    requires
        n <= effects.len(),
        forall|i: int| 0 <= i < n ==> !gift_plays(#[trigger] effects[i], built_before),
    ensures
        effects_applied(state, effects, built_before, n).0 == state.0,
    decreases n,
{
    if n > 0 {
        lemma_effects_without_gifts(state, effects, built_before, (n - 1) as nat);
    }
}

impl<'a> STWGame<'a> {
    /// Whether a quest waits at the position.
    pub open spec fn has_quest_at(&self, pos: TilePos) -> bool {
        exists|i: int| 0 <= i < self.quests@.len() && (#[trigger] self.quests@[i]).position == pos
    }

    /// Whether the parts of the game fit together: the map is whole, every
    /// hero has all skills, quests wait on tiles of the map and no two on the
    /// same, and an expedition under way has its hero and lies on the map.
    pub open spec fn wf(&self) -> bool {
        &&& self.map.wf()
        &&& self.map.resource_manager == self.resource_manager
        &&& self.resource_manager.globals@.len() > 0
        &&& forall|i: int| 0 <= i < self.heroes@.len() ==> (#[trigger] self.heroes@[i]).wf()
        &&& forall|i: int|
            0 <= i < self.quests@.len() ==> self.map.contains(
                (#[trigger] self.quests@[i]).position@,
            )
        &&& forall|i: int, j: int|
            0 <= i < j < self.quests@.len() ==> (#[trigger] self.quests@[i]).position != (
            #[trigger] self.quests@[j]).position
        &&& self.history matches Some(history) ==> {
            &&& history.hero_index < self.heroes@.len()
            &&& self.map.contains(history.quest_pos@)
            &&& history.current_pos matches Some(current) ==> self.map.contains(current@)
        }
    }

    /// The contents around a position of the map, in bands by distance: band
    /// `b` lists the contents on the tiles exactly `b` steps away.
    pub open spec fn surroundings(&self, pos: (int, int)) -> Seq<Seq<&'a Resource<FieldTypeData>>> {
        Seq::new(0x1_0000_0000, |b: int| contents_of(self.map.band(pos, b as nat)))
    }

    /// Whether some tile of the map that lies at least one step and at most
    /// `distance` steps from `pos` carries a content with the property.
    pub open spec fn found_within(&self, pos: (int, int), distance: nat, test: NearTest) -> bool {
        exists|p: (int, int)|
            self.map.contains(p) && 1 <= hex_distance(pos, p) <= distance && (
            #[trigger] self.map.tile(p)).shows(test)
    }

    /// What the bands around a tile show within a distance is what stands on
    /// the tiles of the map that lie within the distance of the tile, the
    /// tile itself left out.
    pub proof fn lemma_near_is_within(&self, pos: (int, int), distance: nat, test: NearTest)
        requires
            self.map.wf(),
            self.map.contains(pos),
        ensures
            near_has(self.surroundings(pos), distance, test) <==> self.found_within(
                pos,
                distance,
                test,
            ),
    {
        let full = self.surroundings(pos);
        if near_has(full, distance, test) {
            let (b, j) = choose|b: int, j: int|
                1 <= b <= distance && b < full.len() && 0 <= j < full[b].len() && passes(
                    #[trigger] full[b][j],
                    test,
                );
            let content = full[b][j];
            let around = ring(pos, b as nat);
            let band = self.map.tiles_on(around);
            assert(contents_of(band)[j] == content);
            lemma_contents_members(band, content);
            let k = choose|k: int|
                0 <= k < band.len() && (#[trigger] band[k]).field_content == Some(content);
            assert(band.contains(band[k]));
            self.map.lemma_tiles_on_members(around, band[k]);
            let m = choose|m: int|
                0 <= m < around.len() && self.map.contains(#[trigger] around[m]) && self.map.tile(
                    around[m],
                ) == band[k];
            lemma_ring_distance(pos, b as nat);
            assert(self.map.tile(around[m]).shows(test));
        }
        if self.found_within(pos, distance, test) {
            let p = choose|p: (int, int)|
                self.map.contains(p) && 1 <= hex_distance(pos, p) <= distance && (
                #[trigger] self.map.tile(p)).shows(test);
            let b = hex_distance(pos, p);
            let content = self.map.tile(p).field_content->0;
            let around = ring(pos, b as nat);
            let band = self.map.tiles_on(around);
            let n = lemma_ring_complete(pos, b as nat, p);
            lemma_ring_distance(pos, b as nat);
            assert(self.map.contains(around[n]) && self.map.tile(around[n]) == self.map.tile(p));
            self.map.lemma_tiles_on_members(around, self.map.tile(p));
            assert(band.contains(self.map.tile(p)));
            let k = choose|k: int| 0 <= k < band.len() && band[k] == self.map.tile(p);
            assert(band[k].field_content == Some(content));
            lemma_contents_members(band, content);
            assert(contents_of(band).contains(content));
            let j = choose|j: int|
                0 <= j < contents_of(band).len() && contents_of(band)[j] == content;
            lemma_grid_diameter(self.map.size as int, pos, p);
            assert(full[b][j] == content);
        }
    }

    /// Whether `near` shows every requirement of the catalog what the
    /// surroundings of the position show it.
    pub open spec fn surveyed(&self, near: Seq<Seq<&'a Resource<FieldTypeData>>>, pos: (int, int)) -> bool {
        forall|i: int, j: int, test: NearTest|
            0 <= i < self.resource_manager.field_types@.len() && 0 <= j
                < self.resource_manager.field_types@[i].data.requirments@.len() ==> #[trigger] near_has(
                near,
                requirement_distance(&self.resource_manager.field_types@[i].data.requirments@[j]),
                test,
            ) == near_has(
                self.surroundings(pos),
                requirement_distance(&self.resource_manager.field_types@[i].data.requirments@[j]),
                test,
            )
    }

    /// Whether the rules allow the content on the tile at a position of the
    /// map, whatever it costs.
    pub open spec fn can_build(&self, candidate: &Resource<FieldTypeData>, pos: (int, int)) -> bool {
        candidate.buildable(
            self.map.tile(pos).base_field_type,
            self.map.tile(pos).field_content,
            self.surroundings(pos),
            self.map.tile(pos).quest_completed_till_last_build,
        )
    }

    /// Of the first `n` contents of the catalog, those the rules allow at the
    /// position, each with its id and with whether the ledger cannot pay for it.
    pub open spec fn options(&self, pos: (int, int), n: nat) -> Seq<(Seq<char>, bool)>
        decreases n,
    {
        if n == 0 {
            Seq::empty()
        } else {
            let earlier = self.options(pos, (n - 1) as nat);
            let candidate = &self.resource_manager.field_types@[n - 1];
            if self.can_build(candidate, pos) {
                earlier.push(
                    (candidate.id@, !affordable(candidate.data.cost@, self.game_resources@)),
                )
            } else {
                earlier
            }
        }
    }

    /// The contents that can be built at a position: none on a hidden tile or
    /// off the map, else those of the catalog that the rules allow there.
    pub open spec fn buildings_at(&self, pos: (int, int)) -> Seq<(Seq<char>, bool)> {
        if self.map.contains(pos) && self.map.tile(pos).visible {
            self.options(pos, self.resource_manager.field_types@.len())
        } else {
            Seq::empty()
        }
    }

    /// A game without map, heroes or quests, on the given catalog.
    pub fn new(rm: &'a ResourceManager) -> (res: Result<STWGame<'a>, GameError>)
        ensures
            res matches Err(e) ==> e.says_why(),
            match res {
                Ok(game) => {
                    &&& rm.globals@.len() > 0
                    &&& game.wf()
                    &&& game.resource_manager == rm
                    &&& game.map.size == 0
                    &&& game.heroes@.len() == 0
                    &&& game.quests@.len() == 0
                    &&& game.history is None
                    &&& game.game_turn == 0
                    &&& game.game_resources@ == Map::<GResource, u32>::empty()
                    &&& game.max_heroes == 1
                    &&& game.max_path_length == rm.globals@[0].data.init_path_length_per_hero
                    &&& game.builded@.len() == 0
                },
                Err(e) => rm.globals@.len() == 0 && e.kind == GameFault::NoGlobals,
            },
    {
        let globals = match rm.get_globals() {
            Ok(globals) => globals,
            Err(e) => {
                return Err(e);
            },
        };
        Ok(
            STWGame {
                map: GameMap::new(rm),
                heroes: Vec::new(),
                quests: Vec::new(),
                history: None,
                game_turn: 0,
                game_resources: Ledger::new(),
                max_heroes: 1,
                _max_additional_learning_hero: 0,
                max_path_length: globals.data.init_path_length_per_hero,
                builded: Vec::new(),
                resource_manager: rm,
            },
        )
    }

    /// Starts the game: generates the map of the given size from the noise
    /// field, fills the ledger with the starting resources, every other kind
    /// at zero, and clears heroes, quests and expedition. A game that cannot
    /// be started is left as it is.
    pub fn start_game(&mut self, size: u32, noise: &Vec<Vec<(i64, i64)>>) -> (res: Result<
        (),
        GameError,
    >)
        requires
            old(self).map.resource_manager == old(self).resource_manager,
        ensures
            res matches Err(e) ==> e.says_why(),
            match res {
                Ok(()) => {
                    &&& GameMap::generation_fault(old(self).resource_manager, size as int, noise@)
                        is None
                    &&& final(self).wf()
                    &&& final(self).resource_manager == old(self).resource_manager
                    &&& final(self).map.is_generated(size as int, noise@)
                    &&& forall|kind: GResource| #[trigger]
                        final(self).game_resources@.contains_key(kind)
                    &&& forall|kind: GResource|
                        #[trigger] final(self).game_resources@[kind] == (if old(
                            self,
                        ).resource_manager.globals@[0].data.start_game_resources@.contains_key(
                            kind,
                        ) {
                            old(self).resource_manager.globals@[0].data.start_game_resources@[kind]
                        } else {
                            0
                        })
                    &&& final(self).heroes@.len() == 0
                    &&& final(self).quests@.len() == 0
                    &&& final(self).history is None
                    &&& final(self).game_turn == 0
                    &&& final(self).max_heroes == 1
                    &&& final(self).max_path_length == old(
                        self,
                    ).resource_manager.globals@[0].data.init_path_length_per_hero
                    &&& final(self).builded@.len() == 0
                },
                Err(e) => {
                    &&& GameMap::generation_fault(old(self).resource_manager, size as int, noise@)
                        == Some(e.kind)
                    &&& *final(self) == *old(self)
                },
            },
    {
        match self.map.generate(size, noise) {
            Ok(()) => {},
            Err(e) => {
                return Err(e);
            },
        }
        let globals = &self.resource_manager.globals[0];
        self.game_resources = globals.data.start_game_resources.filled();
        self.heroes = Vec::new();
        self.quests = Vec::new();
        self.history = None;
        self.game_turn = 0;
        self.max_heroes = 1;
        self.max_path_length = globals.data.init_path_length_per_hero;
        self.builded = Vec::new();
        Ok(())
    }

    /// The heroes of the game, in the order in which they appeared.
    pub fn get_heroes(&self) -> (res: &Vec<Hero<'a>>)
        ensures
            *res == self.heroes,
    {
        &self.heroes
    }

    /// The quests that wait on the map, in the order in which they appeared.
    pub fn get_quests(&self) -> (res: &Vec<Quest<'a>>)
        ensures
            *res == self.quests,
    {
        &self.quests
    }

    /// Whether a quest waits at the position.
    pub fn is_quest_at(&self, pos: &TilePos) -> (res: bool)
        ensures
            res == self.has_quest_at(*pos),
    {
        let mut i: usize = 0;
        while i < self.quests.len()
            invariant
                i <= self.quests@.len(),
                forall|j: int| 0 <= j < i ==> (#[trigger] self.quests@[j]).position != *pos,
            decreases self.quests@.len() - i,
        {
            if self.quests[i].position == *pos {
                return true;
            }
            i += 1;
        }
        false
    }

    /// Why the content that has the id cannot be built at the position, if it
    /// cannot. The reasons are tried in this order: an expedition is under
    /// way; a quest waits on the tile; the catalog has no such content, the
    /// tile is off the map or hidden, or the rules do not allow the content
    /// there; the ledger cannot pay for it.
    pub open spec fn build_fault(&self, pos: TilePos, id: Seq<char>) -> Option<Rejection> {
        if self.history is Some {
            Some(Rejection::PlayingHistory)
        } else if self.has_quest_at(pos) {
            Some(Rejection::QuestOnTile)
        } else {
            match record_of_id(self.resource_manager.field_types@, id) {
                None => Some(Rejection::CantBuild),
                Some(candidate) => {
                    if !self.map.contains(pos@) || !self.map.tile(pos@).visible || !self.can_build(
                        &candidate,
                        pos@,
                    ) {
                        Some(Rejection::CantBuild)
                    } else if !affordable(candidate.data.cost@, self.game_resources@) {
                        Some(Rejection::NotEnoughResources)
                    } else {
                        None
                    }
                },
            }
        }
    }

    /// The contents on each of the listed bands of tiles.
    pub fn contents_in_bands<'b>(bands: &Vec<Vec<&'b GameTile<'a>>>) -> (res: Vec<
        Vec<&'a Resource<FieldTypeData>>,
    >)
        ensures
            res@.len() == bands@.len(),
            forall|b: int|
                0 <= b < bands@.len() ==> (#[trigger] res@[b])@ == contents_of(bands@[b]@),
    {
        let mut res: Vec<Vec<&'a Resource<FieldTypeData>>> = Vec::new();
        let mut b: usize = 0;
        while b < bands.len()
            invariant
                b <= bands@.len(),
                res@.len() == b,
                forall|k: int| 0 <= k < b ==> (#[trigger] res@[k])@ == contents_of(bands@[k]@),
            decreases bands@.len() - b,
        {
            let band = &bands[b];
            let mut line: Vec<&'a Resource<FieldTypeData>> = Vec::new();
            let mut j: usize = 0;
            while j < band.len()
                invariant
                    j <= band@.len(),
                    line@ == contents_of(band@.take(j as int)),
                decreases band@.len() - j,
            {
                assert(band@.take(j + 1).drop_last() =~= band@.take(j as int));
                match band[j].field_content {
                    Some(content) => {
                        line.push(content);
                    },
                    None => {},
                }
                j += 1;
            }
            assert(band@.take(band@.len() as int) =~= band@);
            res.push(line);
            b += 1;
        }
        res
    }

    /// The contents around a position of the map, in bands by distance, as
    /// far as any content of the catalog looks and the map reaches.
    pub fn survey(&self, pos: &TilePos) -> (res: Vec<Vec<&'a Resource<FieldTypeData>>>)
        requires
            self.wf(),
            self.map.contains(pos@),
        ensures
            forall|b: int|
                0 <= b < res@.len() ==> (#[trigger] res@[b])@ == self.surroundings(pos@)[b],
            self.surveyed(band_views(res@), pos@),
    {
        let catalog_reach = self.resource_manager.build_reach();
        let map_reach: u32 = 3 * self.map.size - 1;
        let reach = if catalog_reach < map_reach {
            catalog_reach
        } else {
            map_reach
        };
        let bands = self.map.get_tiles_in_range(pos, reach);
        let res = Self::contents_in_bands(&bands);
        proof {
            let near = band_views(res@);
            let full = self.surroundings(pos@);
            assert forall|b: int| 0 <= b < res@.len() implies (#[trigger] res@[b])@ == full[b] by {
                assert(bands@[b]@ == self.map.band(pos@, b as nat));
            }
            assert forall|i: int, j: int, test: NearTest|
                0 <= i < self.resource_manager.field_types@.len() && 0 <= j
                    < self.resource_manager.field_types@[i].data.requirments@.len() implies #[trigger] near_has(
                near,
                requirement_distance(&self.resource_manager.field_types@[i].data.requirments@[j]),
                test,
            ) == near_has(
                full,
                requirement_distance(&self.resource_manager.field_types@[i].data.requirments@[j]),
                test,
            ) by {
                let distance = requirement_distance(
                    &self.resource_manager.field_types@[i].data.requirments@[j],
                );
                assert(distance <= catalog_reach);
                if near_has(near, distance, test) {
                    let (b, k) = choose|b: int, k: int|
                        1 <= b <= distance && b < near.len() && 0 <= k < near[b].len() && passes(
                            #[trigger] near[b][k],
                            test,
                        );
                    assert(near[b] == res@[b]@);
                    assert(passes(full[b][k], test));
                }
                if near_has(full, distance, test) {
                    let (b, k) = choose|b: int, k: int|
                        1 <= b <= distance && b < full.len() && 0 <= k < full[b].len() && passes(
                            #[trigger] full[b][k],
                            test,
                        );
                    if b >= 3 * self.map.size {
                        self.map.lemma_far_band_empty(pos@, b as nat);
                    }
                    assert(b < near.len());
                    assert(near[b] == res@[b]@);
                    assert(passes(near[b][k], test));
                }
            }
        }
        res
    }

    /// Whether the rules allow the content on the tile, given the contents
    /// around the tile as `survey` lists them.
    pub fn is_allowed(
        &self,
        candidate: &Resource<FieldTypeData>,
        tile: &GameTile<'a>,
        near: &Vec<Vec<&'a Resource<FieldTypeData>>>,
    ) -> (res: bool)
        requires
            self.wf(),
            self.map.contains(tile.position@),
            tile == self.map.tile(tile.position@),
            self.surveyed(band_views(near@), tile.position@),
            exists|i: int|
                0 <= i < self.resource_manager.field_types@.len()
                    && #[trigger] self.resource_manager.field_types@[i] == *candidate,
        ensures
            res == self.can_build(candidate, tile.position@),
    {
        let res = candidate.is_possible_to_be_build(
            tile.base_field_type,
            &tile.field_content,
            near,
            tile.quest_completed_till_last_build,
        );
        proof {
            let i = choose|i: int|
                0 <= i < self.resource_manager.field_types@.len()
                    && #[trigger] self.resource_manager.field_types@[i] == *candidate;
            let full = self.surroundings(tile.position@);
            assert forall|j: int| 0 <= j < candidate.data.requirments@.len() implies requirement_met(
                #[trigger] &candidate.data.requirments@[j],
                tile.base_field_type,
                band_views(near@),
                tile.quest_completed_till_last_build,
            ) == requirement_met(
                &candidate.data.requirments@[j],
                tile.base_field_type,
                full,
                tile.quest_completed_till_last_build,
            ) by {
                let requirment = &candidate.data.requirments@[j];
                assert(requirment == &self.resource_manager.field_types@[i].data.requirments@[j]);
                assert forall|test: NearTest| #[trigger]
                    near_has(band_views(near@), requirement_distance(requirment), test)
                        == near_has(full, requirement_distance(requirment), test) by {
                    assert(near_has(
                        band_views(near@),
                        requirement_distance(
                            &self.resource_manager.field_types@[i].data.requirments@[j],
                        ),
                        test,
                    ) == near_has(
                        full,
                        requirement_distance(
                            &self.resource_manager.field_types@[i].data.requirments@[j],
                        ),
                        test,
                    ));
                }
                lemma_requirement_same(
                    requirment,
                    tile.base_field_type,
                    band_views(near@),
                    full,
                    tile.quest_completed_till_last_build,
                );
            }
        }
        res
    }

    /// The contents that can be built on the tile at the position, in the
    /// order of the catalog, each with whether the ledger cannot pay for it
    /// at present. A hidden tile has none, nor has a position off the map.
    pub fn get_possible_building_at_position(&self, pos: &TilePos) -> (res: Vec<PossibleBuilding>)
        requires
            self.wf(),
        ensures
            building_views(res@) == self.buildings_at(pos@),
    {
        let tile = match self.map.get(pos) {
            Some(tile) => tile,
            None => {
                assert(building_views(Seq::<PossibleBuilding>::empty()) =~= Seq::empty());
                return Vec::new();
            },
        };
        if !tile.is_visible() {
            assert(building_views(Seq::<PossibleBuilding>::empty()) =~= Seq::empty());
            return Vec::new();
        }
        let near = self.survey(pos);
        let catalog = &self.resource_manager.field_types;
        let mut res: Vec<PossibleBuilding> = Vec::new();
        let mut i: usize = 0;
        assert(building_views(res@) =~= Seq::empty());
        while i < catalog.len()
            invariant
                self.wf(),
                self.map.contains(pos@),
                tile == self.map.tile(pos@),
                tile.position == *pos,
                catalog == &self.resource_manager.field_types,
                self.surveyed(band_views(near@), pos@),
                i <= catalog@.len(),
                building_views(res@) == self.options(pos@, i as nat),
            decreases catalog@.len() - i,
        {
            let candidate = &catalog[i];
            if self.is_allowed(candidate, tile, &near) {
                let ghost listed = res@;
                let option = PossibleBuilding {
                    id: candidate.id.clone(),
                    not_enought_resources: !candidate.has_enough_resources(&self.game_resources),
                };
                res.push(option);
                assert(building_views(res@) =~= building_views(listed).push(
                    (option.id@, option.not_enought_resources),
                ));
            }
            i += 1;
        }
        res
    }

    /// The content that has the id, if it can be built at the position now.
    pub fn buildable_content(&self, pos: &TilePos, id: &str) -> (res: Result<
        &'a Resource<FieldTypeData>,
        BadMove,
    >)
        requires
            self.wf(),
        ensures
            res matches Err(e) ==> e.says_why(),
            match res {
                Ok(content) => self.build_fault(*pos, id@) is None && record_of_id(
                    self.resource_manager.field_types@,
                    id@,
                ) == Some(*content),
                Err(bad) => self.build_fault(*pos, id@) == Some(bad.kind),
            },
    {
        if self.history.is_some() {
            return Err(BadMove::of(Rejection::PlayingHistory));
        }
        if self.is_quest_at(pos) {
            return Err(BadMove::of(Rejection::QuestOnTile));
        }
        let candidate = match self.resource_manager.get_field_type(id) {
            Ok(candidate) => candidate,
            Err(_) => {
                return Err(BadMove::of(Rejection::CantBuild));
            },
        };
        let tile = match self.map.get(pos) {
            Some(tile) => tile,
            None => {
                return Err(BadMove::of(Rejection::CantBuild));
            },
        };
        if !tile.is_visible() {
            return Err(BadMove::of(Rejection::CantBuild));
        }
        let near = self.survey(pos);
        proof {
            lemma_place_is_first(self.resource_manager.field_types@, id@);
            let at = place_of_id(self.resource_manager.field_types@, id@)->0;
            assert(self.resource_manager.field_types@[at] == *candidate);
        }
        if !self.is_allowed(candidate, tile, &near) {
            return Err(BadMove::of(Rejection::CantBuild));
        }
        if !candidate.has_enough_resources(&self.game_resources) {
            return Err(BadMove::of(Rejection::NotEnoughResources));
        }
        Ok(candidate)
    }

    /// Whether the content that has the id can be built at the position now.
    pub fn can_be_build(&self, pos: &TilePos, id: &str) -> (res: Result<(), BadMove>)
        requires
            self.wf(),
        ensures
            res matches Err(e) ==> e.says_why(),
            match res {
                Ok(()) => self.build_fault(*pos, id@) is None,
                Err(bad) => self.build_fault(*pos, id@) == Some(bad.kind),
            },
    {
        match self.buildable_content(pos, id) {
            Ok(_) => Ok(()),
            Err(bad) => Err(bad),
        }
    }
}

impl<'a> STWGame<'a> {
    /// Whether two games differ in nothing but ledger and limit of heroes.
    pub open spec fn same_but_economy(&self, other: &STWGame<'a>) -> bool {
        &&& self.map == other.map
        &&& self.heroes == other.heroes
        &&& self.quests == other.quests
        &&& self.history == other.history
        &&& self.game_turn == other.game_turn
        &&& self._max_additional_learning_hero == other._max_additional_learning_hero
        &&& self.max_path_length == other.max_path_length
        &&& self.builded == other.builded
        &&& self.resource_manager == other.resource_manager
    }

    /// Whether an instant effect of the content plays now: always, unless it
    /// is marked `only_first_time` and the content was not built before.
    pub fn check_if_should_play_effect(
        &self,
        ftd: &Resource<FieldTypeData>,
        only_first_time: bool,
    ) -> (res: bool)
        ensures
            res == (!only_first_time || lists_id(self.builded@, ftd.id@)),
    {
        !only_first_time || contains_id(&self.builded, ftd.id.as_str())
    }

    /// Plays the instant effects of a content, in their order, and reports
    /// each raise of the limit of heroes.
    pub fn play_instant_effects(&mut self, ftd: &Resource<FieldTypeData>) -> (res: Vec<
        GameCallback,
    >)
        ensures
            final(self).same_but_economy(old(self)),
            (final(self).game_resources@, final(self).max_heroes) == effects_applied(
                (old(self).game_resources@, old(self).max_heroes),
                ftd.data.instant_effects@,
                lists_id(old(self).builded@, ftd.id@),
                ftd.data.instant_effects@.len(),
            ),
            res@ == effects_reported(
                (old(self).game_resources@, old(self).max_heroes),
                ftd.data.instant_effects@,
                lists_id(old(self).builded@, ftd.id@),
                ftd.data.instant_effects@.len(),
            ),
    {
        let ghost start = (self.game_resources@, self.max_heroes);
        let ghost built_before = lists_id(self.builded@, ftd.id@);
        let effects = &ftd.data.instant_effects;
        let mut res: Vec<GameCallback> = Vec::new();
        let mut i: usize = 0;
        while i < effects.len()
            invariant
                effects == &ftd.data.instant_effects,
                self.same_but_economy(old(self)),
                built_before == lists_id(self.builded@, ftd.id@),
                i <= effects@.len(),
                (self.game_resources@, self.max_heroes) == effects_applied(
                    start,
                    effects@,
                    built_before,
                    i as nat,
                ),
                res@ == effects_reported(start, effects@, built_before, i as nat),
            decreases effects@.len() - i,
        {
            match effects[i] {
                FieldInstantEffect::GiveResources { only_first_time, resource, amount } => {
                    if self.check_if_should_play_effect(ftd, only_first_time) {
                        match self.game_resources.get(resource) {
                            Some(held) => {
                                self.game_resources.insert(resource, held.saturating_add(amount));
                            },
                            None => {},
                        }
                    }
                },
                FieldInstantEffect::IncreaseMaxHeroes { only_first_time } => {
                    if self.check_if_should_play_effect(ftd, only_first_time) {
                        self.max_heroes = self.max_heroes.saturating_add(1);
                        res.push(
                            GameCallback::MaxHeroesIncreased { current_max_heroes: self.max_heroes },
                        );
                    }
                },
                _ => {},
            }
            i += 1;
        }
        res
    }

    /// Reports every kind of resource of which the ledger now holds another
    /// amount than `before` held, in the order of the kinds.
    pub fn get_changed_resource_callbacks(&self, before: &Ledger) -> (res: Vec<GameCallback>)
        ensures
            res@ == changes_reported(before@, self.game_resources@, RESOURCE_KINDS as nat),
    {
        let mut res: Vec<GameCallback> = Vec::new();
        let mut i: usize = 0;
        while i < RESOURCE_KINDS
            invariant
                i <= RESOURCE_KINDS,
                res@ == changes_reported(before@, self.game_resources@, i as nat),
            decreases RESOURCE_KINDS - i,
        {
            let kind = GResource::from_index(i);
            match (before.get(kind), self.game_resources.get(kind)) {
                (Some(was), Some(is)) => {
                    if was != is {
                        res.push(GameCallback::ChangedResource { resource: kind, new_value: is });
                    }
                },
                _ => {},
            }
            i += 1;
        }
        res
    }

    /// What a build reports: what its instant effects report, then the
    /// changed resources, then the new content of the tile.
    pub open spec fn build_report(
        &self,
        pos: TilePos,
        content: &Resource<FieldTypeData>,
        after: Map<GResource, u32>,
    ) -> Seq<GameCallback> {
        effects_reported(
            (debited(self.game_resources@, content.data.cost@), self.max_heroes),
            content.data.instant_effects@,
            lists_id(self.builded@, content.id@),
            content.data.instant_effects@.len(),
        ) + changes_reported(self.game_resources@, after, RESOURCE_KINDS as nat)
            + seq![GameCallback::NewTileContent { position: pos, field_type_id: content.id }]
    }

    /// Whether `after` and `report` are what the build of the content that
    /// has the id at `pos` makes of `before`: the tile carries the content and
    /// its quest flag is cleared; the ledger has paid the cost and taken the
    /// gifts of the instant effects, which may also have raised the limit of
    /// heroes; the content is noted as built; nothing else has changed.
    pub open spec fn built(
        before: &STWGame<'a>,
        pos: TilePos,
        id: Seq<char>,
        after: &STWGame<'a>,
        report: Seq<GameCallback>,
    ) -> bool {
        let content = &before.resource_manager.field_types@[place_of_id(
            before.resource_manager.field_types@,
            id,
        )->0];
        &&& after.map.size == before.map.size
        &&& after.map.resource_manager == before.map.resource_manager
        &&& *after.map.tile(pos@) == (GameTile {
            field_content: Some(content),
            quest_completed_till_last_build: false,
            ..*before.map.tile(pos@)
        })
        &&& forall|p: (int, int)|
            before.map.contains(p) && p != pos@ ==> after.map.tile(p) == before.map.tile(p)
        &&& (after.game_resources@, after.max_heroes) == effects_applied(
            (debited(before.game_resources@, content.data.cost@), before.max_heroes),
            content.data.instant_effects@,
            lists_id(before.builded@, content.id@),
            content.data.instant_effects@.len(),
        )
        &&& after.builded@ == before.builded@.push(content.id)
        &&& report == before.build_report(pos, content, after.game_resources@)
        &&& after.heroes == before.heroes
        &&& after.quests == before.quests
        &&& after.history == before.history
        &&& after.game_turn == before.game_turn
        &&& after.max_path_length == before.max_path_length
        &&& after.resource_manager == before.resource_manager
    }

    /// Builds the content that has the id on the tile at the position: puts
    /// it on the tile, pays its cost, plays its instant effects and notes it
    /// as built. A build that is refused changes nothing.
    pub fn build(&mut self, pos: &TilePos, id: &str) -> (res: Result<Vec<GameCallback>, BadMove>)
        requires
            old(self).wf(),
        ensures
            res matches Err(e) ==> e.says_why(),
            final(self).wf(),
            match res {
                Ok(report) => old(self).build_fault(*pos, id@) is None && Self::built(
                    old(self),
                    *pos,
                    id@,
                    final(self),
                    report@,
                ),
                Err(bad) => old(self).build_fault(*pos, id@) == Some(bad.kind) && *final(self)
                    == *old(self),
            },
    {
        let content = match self.buildable_content(pos, id) {
            Ok(content) => content,
            Err(bad) => {
                return Err(bad);
            },
        };
        self.map.put_field_content(pos, content);
        let before = self.game_resources;
        content.spent_resources(&mut self.game_resources);
        let mut report = self.play_instant_effects(content);
        let mut changes = self.get_changed_resource_callbacks(&before);
        report.append(&mut changes);
        report.push(
            GameCallback::NewTileContent { position: *pos, field_type_id: content.id.clone() },
        );
        self.builded.push(content.id.clone());
        proof {
            lemma_place_is_first(old(self).resource_manager.field_types@, id@);
            assert(report@ =~= old(self).build_report(*pos, content, self.game_resources@));
        }
        Ok(report)
    }

    /// Why no turn can pass, if none can: an expedition is under way, or no
    /// building of the build path that the settings require stands on the map.
    pub open spec fn wait_fault(&self) -> Option<Rejection> {
        if self.history is Some {
            Some(Rejection::PlayingHistory)
        } else if !self.map.has_path(
            self.resource_manager.globals@[0].data.win_cond_build_path@,
        ) {
            Some(Rejection::NoRequiredBuildings)
        } else {
            None
        }
    }

    /// Whether a turn can pass now.
    pub fn can_wait(&self) -> (res: Result<(), BadMove>)
        requires
            self.wf(),
        ensures
            res matches Err(e) ==> e.says_why(),
            match res {
                Ok(()) => self.wait_fault() is None,
                Err(bad) => self.wait_fault() == Some(bad.kind),
            },
    {
        if self.history.is_some() {
            return Err(BadMove::of(Rejection::PlayingHistory));
        }
        let globals = &self.resource_manager.globals[0];
        if self.map.check_if_exists_tile_with_field_path(
            globals.data.win_cond_build_path.as_str(),
        ) {
            Ok(())
        } else {
            Err(BadMove::of(Rejection::NoRequiredBuildings))
        }
    }

    /// Whether an expedition to the quest at the position can start with the
    /// first hero.
    pub fn can_start_history(&self, pos: &TilePos) -> (res: Result<(), BadMove>)
        requires
            self.wf(),
        ensures
            res matches Err(e) ==> e.says_why(),
            match res {
                Ok(()) => History::start_fault(*pos, 0, self) is None,
                Err(bad) => History::start_fault(*pos, 0, self) == Some(bad.kind),
            },
    {
        History::can_start_new(pos, 0, self)
    }

    /// Whether `after` and `report` are what a passing turn makes of
    /// `before`. The turn is counted. If fewer heroes live than may live, one
    /// hero appears and is reported first. If some tile can bear a quest, one
    /// quest appears there, with the new turn as its turn of creation, and is
    /// reported next. Nothing else changes.
    pub open spec fn waited(
        before: &STWGame<'a>,
        after: &STWGame<'a>,
        report: Seq<GameCallback>,
    ) -> bool {
        let heroes_new = after.heroes@.len() - before.heroes@.len();
        let quests_new = after.quests@.len() - before.quests@.len();
        &&& after.game_turn == saturated_u32(before.game_turn + 1)
        &&& after.map == before.map
        &&& after.history == before.history
        &&& after.game_resources == before.game_resources
        &&& after.max_heroes == before.max_heroes
        &&& after.max_path_length == before.max_path_length
        &&& after.builded == before.builded
        &&& after.resource_manager == before.resource_manager
        &&& report.len() == heroes_new + quests_new
        &&& if before.heroes@.len() >= before.max_heroes {
            after.heroes == before.heroes
        } else {
            &&& heroes_new == 1
            &&& forall|i: int|
                0 <= i < before.heroes@.len() ==> #[trigger] after.heroes@[i] == before.heroes@[i]
            &&& exists|p: (int, int), k: int|
                0 <= k < before.resource_manager.heroes@.len()
                    && #[trigger] HeroController::can_spawn(
                    before,
                    p,
                    &before.resource_manager.heroes@[k],
                ) && after.heroes@.last().background == &before.resource_manager.heroes@[k]
                    && report[0] == (GameCallback::NewHero {
                    where_born: before.map.tile(p).position,
                    hero_id: before.resource_manager.heroes@[k].id,
                })
            &&& after.heroes@.last().skills@ == starting_skills(after.heroes@.last().background)
            &&& after.heroes@.last().learning_count == 0
        }
        &&& if forall|p: (int, int)|
            before.map.contains(p) ==> !bears(before, #[trigger] before.map.tile(p), true) {
            after.quests == before.quests
        } else {
            &&& quests_new == 1
            &&& forall|i: int|
                0 <= i < before.quests@.len() ==> #[trigger] after.quests@[i] == before.quests@[i]
            &&& exists|p: (int, int), k: int|
                0 <= k < before.resource_manager.quests@.len()
                    && #[trigger] QuestController::can_spawn(
                    before,
                    p,
                    &before.resource_manager.quests@[k],
                ) && after.quests@.last() == (Quest {
                    quest_type: &before.resource_manager.quests@[k],
                    position: before.map.tile(p).position,
                    creation_turn: after.game_turn,
                    _resource_manager: before.resource_manager,
                }) && report[heroes_new] == (GameCallback::NewQuest {
                    where_created: before.map.tile(p).position,
                    quest_id: before.resource_manager.quests@[k].id,
                })
        }
    }

    /// Whether a passing turn can fail in the given way: in the spawn of the
    /// hero, if one is due, or in the spawn of the quest.
    pub open spec fn wait_can_fail(&self, kind: GameFault) -> bool {
        ||| self.heroes@.len() < self.max_heroes && spawn_can_fail(self, false, kind)
        ||| spawn_can_fail(self, true, kind)
    }

    /// Lets one turn pass: counts the turn, then lets a hero appear and then a
    /// quest. Who appears, and where, depends on chance. A turn that cannot
    /// pass changes nothing.
    pub fn wait(&mut self) -> (res: Result<Vec<GameCallback>, MoveError>)
        requires
            old(self).wf(),
        ensures
            res matches Err(e) ==> e.says_why(),
            final(self).wf(),
            old(self).wait_fault() is None && (forall|kind: GameFault|
                !#[trigger] old(self).wait_can_fail(kind)) ==> res is Ok,
            match res {
                Ok(report) => old(self).wait_fault() is None && Self::waited(
                    old(self),
                    final(self),
                    report@,
                ),
                Err(MoveError::Rejected(bad)) => old(self).wait_fault() == Some(bad.kind)
                    && *final(self) == *old(self),
                Err(MoveError::Broken(e)) => old(self).wait_fault() is None && old(
                    self,
                ).wait_can_fail(e.kind) && *final(self) == *old(self),
            },
    {
        match self.can_wait() {
            Ok(()) => {},
            Err(bad) => {
                return Err(MoveError::Rejected(bad));
            },
        }
        let hero = match HeroController::draw(self) {
            Ok(hero) => hero,
            Err(e) => {
                assert(self.wait_can_fail(e.kind));
                return Err(MoveError::Broken(e));
            },
        };
        let quest = match QuestController::draw(self) {
            Ok(quest) => quest,
            Err(e) => {
                assert(self.wait_can_fail(e.kind));
                return Err(MoveError::Broken(e));
            },
        };
        self.game_turn = self.game_turn.saturating_add(1);
        let mut report: Vec<GameCallback> = match hero {
            Some((pos, template)) => {
                proof {
                    let k = choose|k: int|
                        0 <= k < old(self).resource_manager.heroes@.len()
                            && #[trigger] old(self).resource_manager.heroes@[k] == *template;
                    let level = choose|level: int| #[trigger]
                        drawable(old(self), pos@, false, level) && hero_fits(
                            template,
                            family_of(old(self).map.tile(pos@).field_content->0, false),
                            level,
                        );
                    assert(old(self).map.tile(pos@).position@ == pos@);
                    assert(HeroController::can_spawn(
                        old(self),
                        pos@,
                        &old(self).resource_manager.heroes@[k],
                    ));
                }
                HeroController::settle(self, pos, template)
            },
            None => Vec::new(),
        };
        match quest {
            Some((pos, template)) => {
                proof {
                    let k = choose|k: int|
                        0 <= k < old(self).resource_manager.quests@.len()
                            && #[trigger] old(self).resource_manager.quests@[k] == *template;
                    let level = choose|level: int| #[trigger]
                        drawable(old(self), pos@, true, level) && quest_fits(
                            template,
                            family_of(old(self).map.tile(pos@).field_content->0, true),
                            level,
                        );
                    assert(drawable(old(self), pos@, true, level));
                    assert(bears(old(self), old(self).map.tile(pos@), true));
                    assert(QuestController::can_spawn(
                        old(self),
                        pos@,
                        &old(self).resource_manager.quests@[k],
                    ));
                }
                let mut created = QuestController::settle(self, pos, template);
                report.append(&mut created);
            },
            None => {},
        }
        Ok(report)
    }

    /// Whether `after` and `report` are what the start of an expedition to
    /// the quest at `pos` with the hero makes of `before`: the expedition is
    /// under way, as it starts, and nothing else has changed.
    pub open spec fn started(
        before: &STWGame<'a>,
        pos: TilePos,
        hero_index: usize,
        after: &STWGame<'a>,
        report: Seq<GameCallback>,
    ) -> bool {
        &&& after.history matches Some(history) && History::started(
            pos,
            hero_index,
            before,
            &history,
        )
        &&& report == seq![GameCallback::StartedHistory { quest_pos: pos, choosen_hero: hero_index }]
        &&& after.map == before.map
        &&& after.heroes == before.heroes
        &&& after.quests == before.quests
        &&& after.game_turn == before.game_turn
        &&& after.game_resources == before.game_resources
        &&& after.max_heroes == before.max_heroes
        &&& after.max_path_length == before.max_path_length
        &&& after.builded == before.builded
        &&& after.resource_manager == before.resource_manager
    }

    /// Starts an expedition to the quest at the position with the hero that
    /// has the index. A start that is refused changes nothing.
    pub fn start_history(&mut self, pos: &TilePos, hero_index: usize) -> (res: Result<
        Vec<GameCallback>,
        BadMove,
    >)
        requires
            old(self).wf(),
        ensures
            res matches Err(e) ==> e.says_why(),
            final(self).wf(),
            match res {
                Ok(report) => History::start_fault(*pos, hero_index, old(self)) is None
                    && Self::started(old(self), *pos, hero_index, final(self), report@),
                Err(bad) => History::start_fault(*pos, hero_index, old(self)) == Some(bad.kind)
                    && *final(self) == *old(self),
            },
    {
        match History::new(pos, hero_index, self) {
            Ok(history) => {
                self.history = Some(history);
                let mut report: Vec<GameCallback> = Vec::new();
                report.push(
                    GameCallback::StartedHistory { quest_pos: *pos, choosen_hero: hero_index },
                );
                assert(report@ =~= seq![
                    GameCallback::StartedHistory { quest_pos: *pos, choosen_hero: hero_index },
                ]);
                Ok(report)
            },
            Err(bad) => Err(bad),
        }
    }

    /// Ends the expedition under way, if there is one, and tells whether
    /// there was. Nothing else changes.
    pub fn finish_history(&mut self) -> (res: bool)
        requires
            old(self).wf(),
        ensures
            final(self).wf(),
            res == old(self).history is Some,
            final(self).history is None,
            final(self).map == old(self).map,
            final(self).heroes == old(self).heroes,
            final(self).quests == old(self).quests,
            final(self).game_turn == old(self).game_turn,
            final(self).game_resources == old(self).game_resources,
            final(self).max_heroes == old(self).max_heroes,
            final(self).max_path_length == old(self).max_path_length,
            final(self).builded == old(self).builded,
            final(self).resource_manager == old(self).resource_manager,
    {
        let res = self.history.is_some();
        self.history = None;
        res
    }

    /// The moves the hero on expedition can make next; none while no
    /// expedition is under way.
    pub open spec fn hero_moves(&self) -> Seq<(TilePos, Seq<char>)> {
        match self.history {
            Some(history) => history.moves_over(
                self.resource_manager,
                history.reachable(&self.map),
            ),
            None => Seq::empty(),
        }
    }

    /// Whether a tile that the hero on expedition can reach names an action
    /// that the catalog is asked about and does not have.
    pub open spec fn moves_broken(&self) -> bool {
        self.history matches Some(history) && history.any_broken(
            self.resource_manager,
            history.reachable(&self.map),
        )
    }

    /// The moves the hero on expedition can make next, as positions with
    /// action ids; the empty id is a pass.
    pub fn get_possible_hero_moves(&self) -> (res: Result<Vec<(TilePos, String)>, GameError>)
        requires
            self.wf(),
        ensures
            res matches Err(e) ==> e.says_why(),
            match res {
                Ok(moves) => !self.moves_broken() && move_views(moves@) == self.hero_moves(),
                Err(e) => self.moves_broken() && e.kind == GameFault::MissingResource,
            },
    {
        match &self.history {
            Some(history) => history.get_possible_next_move(self),
            None => {
                assert(move_views(Seq::<(TilePos, String)>::empty()) =~= Seq::empty());
                Ok(Vec::new())
            },
        }
    }

    /// Whether the step is among the moves the hero can make next.
    pub open spec fn step_listed(&self, pos: TilePos, action: Seq<char>) -> bool {
        exists|i: int|
            0 <= i < self.hero_moves().len() && #[trigger] self.hero_moves()[i] == (pos, action)
    }

    /// Why the hero on expedition cannot take the step, if the hero cannot:
    /// no expedition is under way, or the step is not among the moves the
    /// hero can make next.
    pub open spec fn play_fault(&self, pos: TilePos, action: Seq<char>) -> Option<Rejection> {
        if self.history is None {
            Some(Rejection::NoHistory)
        } else if !self.step_listed(pos, action) {
            Some(Rejection::IllegalStep)
        } else {
            None
        }
    }

    /// A step among the moves the hero can make next leads onto the map, and
    /// if it names an action, some path is left and the catalog has the action.
    pub proof fn lemma_listed_step_is_sound(&self, pos: TilePos, action: Seq<char>)
        requires
            self.wf(),
            self.history is Some,
            self.step_listed(pos, action),
        ensures
            self.map.contains(pos@),
            action.len() > 0 ==> self.history->0.path_left > 0 && place_of_id(
                self.resource_manager.actions@,
                action,
            ) is Some,
    {
        let history = self.history->0;
        let tiles = history.reachable(&self.map);
        let i = choose|i: int|
            0 <= i < self.hero_moves().len() && #[trigger] self.hero_moves()[i] == (pos, action);
        let t = history.lemma_moves_over_open(self.resource_manager, tiles, i);
        history.lemma_reachable_on_map(&self.map);
        assert(self.map.contains(tiles[t].position@));
    }

    /// Whether `after` and `report` are what a step of the hero on expedition
    /// makes of `before`, for some roll: the expedition and the heroes are as
    /// the step leaves them, and nothing else has changed.
    pub open spec fn played(
        before: &STWGame<'a>,
        pos: TilePos,
        action: Seq<char>,
        after: &STWGame<'a>,
        report: Seq<GameCallback>,
    ) -> bool {
        &&& before.history is Some
        &&& after.history is Some
        &&& exists|roll: int|
            0 <= roll < UNIT && #[trigger] History::stepped(
                &before.history->0,
                before.heroes@,
                pos,
                History::named_action(before.resource_manager, action),
                roll,
                &after.history->0,
                after.heroes@,
                report,
            )
        &&& after.map == before.map
        &&& after.quests == before.quests
        &&& after.game_turn == before.game_turn
        &&& after.game_resources == before.game_resources
        &&& after.max_heroes == before.max_heroes
        &&& after.max_path_length == before.max_path_length
        &&& after.builded == before.builded
        &&& after.resource_manager == before.resource_manager
    }

    /// Whether `moves` lists the step.
    pub fn lists_step(moves: &Vec<(TilePos, String)>, pos: &TilePos, action: &str) -> (res: bool)
        ensures
            res == exists|i: int|
                0 <= i < moves@.len() && #[trigger] move_views(moves@)[i] == (*pos, action@),
    {
        let mut i: usize = 0;
        while i < moves.len()
            invariant
                i <= moves@.len(),
                forall|j: int| 0 <= j < i ==> #[trigger] move_views(moves@)[j] != (*pos, action@),
            decreases moves@.len() - i,
        {
            if moves[i].0 == *pos && *moves[i].1.as_str() == *action {
                assert(move_views(moves@)[i as int] == (*pos, action@));
                return true;
            }
            i += 1;
        }
        false
    }

    /// Lets the hero on expedition step onto the tile at the position and
    /// perform the action that has the id there; the empty id is a pass. The
    /// roll of the step is drawn from the random source. A step that is not
    /// taken changes nothing.
    pub fn play_move(&mut self, pos: &TilePos, action: &str) -> (res: Result<
        Vec<GameCallback>,
        MoveError,
    >)
        requires
            old(self).wf(),
        ensures
            res matches Err(e) ==> e.says_why(),
            final(self).wf(),
            match res {
                Ok(report) => {
                    &&& !old(self).moves_broken()
                    &&& old(self).play_fault(*pos, action@) is None
                    &&& Self::played(old(self), *pos, action@, final(self), report@)
                },
                Err(MoveError::Rejected(bad)) => {
                    &&& !old(self).moves_broken()
                    &&& old(self).play_fault(*pos, action@) == Some(bad.kind)
                    &&& *final(self) == *old(self)
                },
                Err(MoveError::Broken(e)) => {
                    &&& old(self).moves_broken()
                    &&& e.kind == GameFault::MissingResource
                    &&& *final(self) == *old(self)
                },
            },
    {
        if self.history.is_none() {
            return Err(MoveError::Rejected(BadMove::of(Rejection::NoHistory)));
        }
        let moves = match self.get_possible_hero_moves() {
            Ok(moves) => moves,
            Err(e) => {
                return Err(MoveError::Broken(e));
            },
        };
        if !Self::lists_step(&moves, pos, action) {
            return Err(MoveError::Rejected(BadMove::of(Rejection::IllegalStep)));
        }
        proof {
            self.lemma_listed_step_is_sound(*pos, action@);
        }
        match self.history.take() {
            Some(mut history) => {
                let ghost before = history;
                let report = history.perform_move(
                    *pos,
                    action.to_owned(),
                    self.resource_manager,
                    &mut self.heroes,
                );
                self.history = Some(history);
                proof {
                    let roll = choose|roll: int|
                        0 <= roll < UNIT && #[trigger] History::stepped(
                            &before,
                            old(self).heroes@,
                            *pos,
                            History::named_action(self.resource_manager, action@),
                            roll,
                            &history,
                            self.heroes@,
                            report@,
                        );
                    assert(History::stepped(
                        &old(self).history->0,
                        old(self).heroes@,
                        *pos,
                        History::named_action(old(self).resource_manager, action@),
                        roll,
                        &self.history->0,
                        self.heroes@,
                        report@,
                    ));
                }
                Ok(report)
            },
            None => Err(MoveError::Rejected(BadMove::of(Rejection::NoHistory))),
        }
    }

    /// Why a move is refused, if the rules refuse it.
    pub open spec fn move_fault(&self, game_move: &GameMove) -> Option<Rejection> {
        match game_move {
            GameMove::Build(pos, id) => self.build_fault(*pos, id@),
            GameMove::Wait => self.wait_fault(),
            GameMove::StartHistory(pos, hero_index) => History::start_fault(
                *pos,
                *hero_index,
                self,
            ),
            GameMove::PlayMove(pos, action) => self.play_fault(*pos, action@),
            GameMove::MakeDecision(_) => Some(Rejection::Unsupported),
            GameMove::RenameHero(_, _) => Some(Rejection::Unsupported),
        }
    }

    /// Whether the game data can fail a move in the given way.
    pub open spec fn move_can_break(&self, game_move: &GameMove, kind: GameFault) -> bool {
        match game_move {
            GameMove::Wait => self.wait_fault() is None && self.wait_can_fail(kind),
            GameMove::PlayMove(_, _) => self.moves_broken() && kind == GameFault::MissingResource,
            _ => false,
        }
    }

    /// Whether `after` and `report` are what a move makes of `before`.
    pub open spec fn moved(
        before: &STWGame<'a>,
        game_move: &GameMove,
        after: &STWGame<'a>,
        report: Seq<GameCallback>,
    ) -> bool {
        match game_move {
            GameMove::Build(pos, id) => Self::built(before, *pos, id@, after, report),
            GameMove::Wait => Self::waited(before, after, report),
            GameMove::StartHistory(pos, hero_index) => Self::started(
                before,
                *pos,
                *hero_index,
                after,
                report,
            ),
            GameMove::PlayMove(pos, action) => !before.moves_broken() && Self::played(
                before,
                *pos,
                action@,
                after,
                report,
            ),
            GameMove::MakeDecision(_) => false,
            GameMove::RenameHero(_, _) => false,
        }
    }

    /// Plays a move and reports its effects in the order in which they came
    /// about. A move that the rules refuse, or that the game data cannot
    /// support, leaves the game exactly as it was.
    pub fn perform_move(&mut self, game_move: &GameMove) -> (res: Result<
        Vec<GameCallback>,
        MoveError,
    >)
        requires
            old(self).wf(),
        ensures
            res matches Err(e) ==> e.says_why(),
            final(self).wf(),
            res is Err ==> *final(self) == *old(self),
            match res {
                Ok(report) => old(self).move_fault(game_move) is None && Self::moved(
                    old(self),
                    game_move,
                    final(self),
                    report@,
                ),
                Err(MoveError::Rejected(bad)) => old(self).move_fault(game_move) == Some(bad.kind),
                Err(MoveError::Broken(e)) => old(self).move_can_break(game_move, e.kind),
            },
    {
        match game_move {
            GameMove::Build(position, id) => {
                match self.build(position, id.as_str()) {
                    Ok(report) => Ok(report),
                    Err(bad) => Err(MoveError::Rejected(bad)),
                }
            },
            GameMove::Wait => self.wait(),
            GameMove::StartHistory(position, hero_index) => {
                match self.start_history(position, *hero_index) {
                    Ok(report) => Ok(report),
                    Err(bad) => Err(MoveError::Rejected(bad)),
                }
            },
            GameMove::PlayMove(position, action) => self.play_move(position, action.as_str()),
            GameMove::MakeDecision(_) => Err(
                MoveError::Rejected(BadMove::of(Rejection::Unsupported)),
            ),
            GameMove::RenameHero(_, _) => Err(
                MoveError::Rejected(BadMove::of(Rejection::Unsupported)),
            ),
        }
    }
}

/// Every content listed as possible at a position is a content of the
/// catalog that continues the build path of the tile and of which every
/// requirement holds there.
pub proof fn lemma_options_are_legal<'a>(game: &STWGame<'a>, pos: (int, int), n: nat, i: int) -> (k:
    int)
    requires
        n <= game.resource_manager.field_types@.len(),
        0 <= i < game.options(pos, n).len(),
    ensures
        0 <= k < n,
        game.options(pos, n)[i].0 == game.resource_manager.field_types@[k].id@,
        game.resource_manager.field_types@[k].continues_path(game.map.tile(pos).field_content),
        game.resource_manager.field_types@[k].requirements_met(
            game.map.tile(pos).base_field_type,
            game.surroundings(pos),
            game.map.tile(pos).quest_completed_till_last_build,
        ),
        game.options(pos, n)[i].1 == !affordable(
            game.resource_manager.field_types@[k].data.cost@,
            game.game_resources@,
        ),
    decreases n,
{
    let earlier = game.options(pos, (n - 1) as nat);
    if i < earlier.len() {
        lemma_options_are_legal(game, pos, (n - 1) as nat, i)
    } else {
        n - 1
    }
}

/// A build is refused unless the content is one of the catalog, the tile is a
/// visible tile of the map without a quest, no expedition is under way, the
/// content continues the build path of the tile, every requirement of the
/// content holds there, and the ledger can pay for it.
pub proof fn lemma_build_is_legal<'a>(game: &STWGame<'a>, pos: TilePos, id: Seq<char>)
    requires
        game.build_fault(pos, id) is None,
    ensures
        game.history is None,
        !game.has_quest_at(pos),
        game.map.contains(pos@),
        game.map.tile(pos@).visible,
        record_of_id(game.resource_manager.field_types@, id) matches Some(content) && {
            &&& content.continues_path(game.map.tile(pos@).field_content)
            &&& content.requirements_met(
                game.map.tile(pos@).base_field_type,
                game.surroundings(pos@),
                game.map.tile(pos@).quest_completed_till_last_build,
            )
            &&& affordable(content.data.cost@, game.game_resources@)
        },
{
}

/// A build in which no gift of resources plays takes from the ledger exactly
/// what the content costs: every kind the cost names is lowered by the amount
/// it names, every other kind is as before, and no kind is added or removed.
pub proof fn lemma_build_pays_exactly(
    held: Map<GResource, u32>,
    max_heroes: u32,
    content: &Resource<FieldTypeData>,
    built_before: bool,
)
    requires
        affordable(content.data.cost@, held),
        forall|i: int|
            0 <= i < content.data.instant_effects@.len() ==> !gift_plays(
                #[trigger] content.data.instant_effects@[i],
                built_before,
            ),
    ensures
        ({
            let after = effects_applied(
                (debited(held, content.data.cost@), max_heroes),
                content.data.instant_effects@,
                built_before,
                content.data.instant_effects@.len(),
            ).0;
            &&& after.dom() == held.dom()
            &&& forall|kind: GResource|
                content.data.cost@.contains_key(kind) ==> #[trigger] after[kind] == held[kind]
                    - content.data.cost@[kind]
            &&& forall|kind: GResource|
                held.contains_key(kind) && !content.data.cost@.contains_key(kind)
                    ==> #[trigger] after[kind] == held[kind]
        }),
{
    lemma_effects_without_gifts(
        (debited(held, content.data.cost@), max_heroes),
        content.data.instant_effects@,
        built_before,
        content.data.instant_effects@.len(),
    );
    lemma_debit_exact(held, content.data.cost@);
}

/// While an expedition is under way no other can start, whatever quest and
/// hero are named.
pub proof fn lemma_second_expedition_refused<'a>(
    game: &STWGame<'a>,
    quest_pos: TilePos,
    hero_index: usize,
)
    requires
        game.history is Some,
    ensures
        History::start_fault(quest_pos, hero_index, game) == Some(Rejection::PlayingHistory),
        game.move_fault(&GameMove::StartHistory(quest_pos, hero_index)) == Some(
            Rejection::PlayingHistory,
        ),
{
}

/// A step with an action takes exactly one from the path left, which was
/// not zero before; a pass leaves the path left as it is.
pub proof fn lemma_step_shortens_path<'a>(
    before: &History<'a>,
    heroes_before: Seq<Hero<'a>>,
    pos: TilePos,
    action: Option<&'a Resource<ActionData>>,
    roll: int,
    after: &History<'a>,
    heroes_after: Seq<Hero<'a>>,
    report: Seq<GameCallback>,
)
    requires
        History::stepped(before, heroes_before, pos, action, roll, after, heroes_after, report),
    ensures
        action is Some ==> before.path_left > 0 && after.path_left == before.path_left - 1,
        action is None ==> after.path_left == before.path_left,
        after.path_left >= 0,
{
}

} // verus!
