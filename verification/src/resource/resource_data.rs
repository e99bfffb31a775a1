//! The kinds of rule record, and the rules a build-content states about itself.

use vstd::prelude::*;
use crate::resource::enums::{
    ActionRequirment,
    FieldCharacteristic,
    FieldInstantEffect,
    FieldRequirment,
    GResource,
    HeroSkill,
    PointRequirment,
    QuestPenalty,
    RESOURCE_KINDS,
};
use crate::resource::tables::{Ledger, SkillLevels, SkillRanges};
use crate::resource::{contains_id, lists_id, Resource};

verus! {

/// Marks the kinds of data a rule record can carry.
pub trait BaseResource {

}

impl BaseResource for OriginFieldData {

}

impl BaseResource for FieldTypeData {

}

impl BaseResource for Globals {

}

impl BaseResource for QuestData {

}

impl BaseResource for HeroData {

}

impl BaseResource for ActionData {

}

/// The settings of a whole game.
#[derive(Debug)]
pub struct Globals {
    pub init_path_length_per_hero: u32,
    pub start_game_resources: Ledger,
    pub map_frequency: i64,
    pub map_middle: String,
    pub map_near_mid_enable: Vec<String>,
    pub map_visible_on_start: u32,
    pub win_cond_build_path: String,
}

/// An origin terrain. A tile can take the terrain if what the noise field
/// gives at the tile lies above both thresholds of the terrain.
#[derive(Debug)]
pub struct OriginFieldData {
    pub height: i64,
    pub vegetation: i64,
    pub possible_actions: Vec<String>,
    pub color: (u8, u8, u8),
}

/// A build-content: a structure that can stand on a tile.
#[derive(Debug)]
pub struct FieldTypeData {
    pub build_path: String,
    pub path_level: u32,
    pub characteristic: FieldCharacteristic,
    pub requirments: Vec<FieldRequirment>,
    pub cost: Ledger,
    pub instant_effects: Vec<FieldInstantEffect>,
    pub quest_family: String,
    pub quest_levels: Vec<u64>,
    pub hero_family: String,
    pub hero_levels: Vec<u64>,
    pub possible_actions: Vec<String>,
    pub color: (u8, u8, u8),
}

/// An action a hero can perform on a tile during an expedition.
#[derive(Debug)]
pub struct ActionData {
    pub action_family: String,
    pub modificators: SkillLevels,
    pub points: SkillRanges,
    pub bonus_points: Vec<(ActionRequirment, SkillRanges)>,
    pub requirments: Vec<ActionRequirment>,
    pub eternal_modificator: EternalModificator,
    pub modificator_info: Vec<(HeroSkill, i32)>,
}

/// A hero template.
#[derive(Debug)]
pub struct HeroData {
    pub hero_family: String,
    pub hero_level: u32,
    pub init_skills: SkillLevels,
}

/// A quest template.
#[derive(Debug)]
pub struct QuestData {
    pub quest_family: String,
    pub quest_level: u32,
    pub quest_decisions: Vec<QuestDecision>,
    pub penalty: Vec<QuestPenalty>,
}

/// A lasting change of a hero's skills that an action grants with some probability.
#[derive(Debug)]
pub struct EternalModificator {
    pub skills: SkillLevels,
    pub probability: i64,
}

/// One way to resolve a quest.
#[derive(Debug)]
pub struct QuestDecision {
    pub id: String,
    pub required_skills: SkillLevels,
    pub min_required_points: i64,
    pub points_50p: i64,
    pub additional_points: Vec<PointRequirment>,
    pub required: Vec<Vec<PointRequirment>>,
    pub treasure: Vec<(GResource, i64, i64)>,
}

/// A property of a build-content that a requirement looks for near a tile.
pub enum NearTest {
    Characteristic(FieldCharacteristic),
    Path(Seq<char>),
    Id(Seq<char>),
}

/// Whether `content` has the property `test` names.
pub open spec fn passes(content: &Resource<FieldTypeData>, test: NearTest) -> bool {
    match test {
        NearTest::Characteristic(characteristic) => content.data.characteristic == characteristic,
        NearTest::Path(build_path) => content.data.build_path@ == build_path,
        NearTest::Id(id) => content.id@ == id,
    }
}

/// Whether some content in the distance bands `1..=distance` passes `test`.
/// Band `b` of `near` lists the contents found exactly `b` steps away; band 0
/// is the tile itself and is not looked at.
pub open spec fn near_has(
    near: Seq<Seq<&Resource<FieldTypeData>>>,
    distance: nat,
    test: NearTest,
) -> bool {
    exists|b: int, j: int|
        1 <= b <= distance && b < near.len() && 0 <= j < near[b].len() && passes(
            #[trigger] near[b][j],
            test,
        )
}

/// The bands of a list of bands, each as a sequence.
pub open spec fn band_views<'a>(near: Seq<Vec<&'a Resource<FieldTypeData>>>) -> Seq<
    Seq<&'a Resource<FieldTypeData>>,
> {
    near.map_values(|band: Vec<&'a Resource<FieldTypeData>>| band@)
}

/// Whether one requirement holds of a tile with the given origin, surroundings
/// and quest flag.
pub open spec fn requirement_met(
    requirment: &FieldRequirment,
    origin: &Resource<OriginFieldData>,
    near: Seq<Seq<&Resource<FieldTypeData>>>,
    quest_completed: bool,
) -> bool {
    match requirment {
        FieldRequirment::CantBuild => false,
        FieldRequirment::Replaces(_) => true,
        FieldRequirment::QuestCompleted => quest_completed,
        FieldRequirment::NearFieldWithCharacteristic { characteristic, distance } => near_has(
            near,
            *distance as nat,
            NearTest::Characteristic(*characteristic),
        ),
        FieldRequirment::NearFieldWithPath { build_path, distance } => near_has(
            near,
            *distance as nat,
            NearTest::Path(build_path@),
        ),
        FieldRequirment::NearFieldWithId { id, distance } => near_has(
            near,
            *distance as nat,
            NearTest::Id(id@),
        ),
        FieldRequirment::NoNearFieldWithCharacteristic { characteristic, distance } => !near_has(
            near,
            *distance as nat,
            NearTest::Characteristic(*characteristic),
        ),
        FieldRequirment::NoNearFieldWithPath { build_path, distance } => !near_has(
            near,
            *distance as nat,
            NearTest::Path(build_path@),
        ),
        FieldRequirment::NoNearFieldWithId { id, distance } => !near_has(
            near,
            *distance as nat,
            NearTest::Id(id@),
        ),
        FieldRequirment::HasOrigin(id) => origin.id@ == id@,
        FieldRequirment::HasOriginOneOf(ids) => lists_id(ids@, origin.id@),
    }
}

/// The distance within which a requirement looks at the surroundings of a
/// tile; zero for a requirement that does not look at them.
pub open spec fn requirement_distance(requirment: &FieldRequirment) -> nat {
    match requirment {
        FieldRequirment::NearFieldWithCharacteristic { distance, .. } => *distance as nat,
        FieldRequirment::NearFieldWithPath { distance, .. } => *distance as nat,
        FieldRequirment::NearFieldWithId { distance, .. } => *distance as nat,
        FieldRequirment::NoNearFieldWithCharacteristic { distance, .. } => *distance as nat,
        FieldRequirment::NoNearFieldWithPath { distance, .. } => *distance as nat,
        FieldRequirment::NoNearFieldWithId { distance, .. } => *distance as nat,
        _ => 0,
    }
}

/// The distance within which a requirement looks at the surroundings of a tile.
pub fn distance_of(requirment: &FieldRequirment) -> (res: u32)
    ensures
        res == requirement_distance(requirment),
{
    match requirment {
        FieldRequirment::NearFieldWithCharacteristic { distance, .. } => *distance,
        FieldRequirment::NearFieldWithPath { distance, .. } => *distance,
        FieldRequirment::NearFieldWithId { distance, .. } => *distance,
        FieldRequirment::NoNearFieldWithCharacteristic { distance, .. } => *distance,
        FieldRequirment::NoNearFieldWithPath { distance, .. } => *distance,
        FieldRequirment::NoNearFieldWithId { distance, .. } => *distance,
        _ => 0,
    }
}

/// A requirement holds of two surroundings alike if they agree on what is
/// found within the distance of the requirement.
pub proof fn lemma_requirement_same(
    requirment: &FieldRequirment,
    origin: &Resource<OriginFieldData>,
    first: Seq<Seq<&Resource<FieldTypeData>>>,
    second: Seq<Seq<&Resource<FieldTypeData>>>,
    quest_completed: bool,
)
    requires
        forall|test: NearTest|
            #[trigger] near_has(first, requirement_distance(requirment), test) == near_has(
                second,
                requirement_distance(requirment),
                test,
            ),
    ensures
        requirement_met(requirment, origin, first, quest_completed) == requirement_met(
            requirment,
            origin,
            second,
            quest_completed,
        ),
{
    let distance = requirement_distance(requirment);
    let test = match requirment {
        FieldRequirment::NearFieldWithCharacteristic { characteristic, .. } => {
            NearTest::Characteristic(*characteristic)
        },
        FieldRequirment::NoNearFieldWithCharacteristic { characteristic, .. } => {
            NearTest::Characteristic(*characteristic)
        },
        FieldRequirment::NearFieldWithPath { build_path, .. } => NearTest::Path(build_path@),
        FieldRequirment::NoNearFieldWithPath { build_path, .. } => NearTest::Path(build_path@),
        FieldRequirment::NearFieldWithId { id, .. } => NearTest::Id(id@),
        FieldRequirment::NoNearFieldWithId { id, .. } => NearTest::Id(id@),
        _ => NearTest::Id(Seq::empty()),
    };
    assert(near_has(first, distance, test) == near_has(second, distance, test));
}

/// Whether every kind that `cost` names is held in at least the amount it names.
pub open spec fn affordable(cost: Map<GResource, u32>, held: Map<GResource, u32>) -> bool {
    forall|kind: GResource| #[trigger]
        cost.contains_key(kind) ==> held.contains_key(kind) && held[kind] >= cost[kind]
}

/// The holdings after `cost` is paid: each kind the cost names is lowered by
/// its amount and every other kind is as before.
pub open spec fn debited(held: Map<GResource, u32>, cost: Map<GResource, u32>) -> Map<
    GResource,
    u32,
> {
    Map::new(
        |kind: GResource| held.contains_key(kind),
        |kind: GResource|
            if cost.contains_key(kind) {
                (held[kind] - cost[kind]) as u32
            } else {
                held[kind]
            },
    )
}

/// Paying a cost that can be afforded lowers every kind the cost names by
/// exactly its amount, changes no other kind, and adds or removes no kind.
pub proof fn lemma_debit_exact(held: Map<GResource, u32>, cost: Map<GResource, u32>)
    requires
        affordable(cost, held),
    ensures
        debited(held, cost).dom() == held.dom(),
        forall|kind: GResource|
            cost.contains_key(kind) ==> #[trigger] debited(held, cost)[kind] == held[kind]
                - cost[kind],
        forall|kind: GResource|
            held.contains_key(kind) && !cost.contains_key(kind) ==> #[trigger] debited(
                held,
                cost,
            )[kind] == held[kind],
{
    assert(debited(held, cost).dom() =~= held.dom());
}

/// The property of a build-content that a near-field requirement looks for.
pub enum NearProbe<'a> {
    Characteristic(FieldCharacteristic),
    Path(&'a str),
    Id(&'a str),
}

impl<'a> View for NearProbe<'a> {
    type V = NearTest;

    open spec fn view(&self) -> NearTest {
        match self {
            NearProbe::Characteristic(characteristic) => NearTest::Characteristic(*characteristic),
            NearProbe::Path(build_path) => NearTest::Path(build_path@),
            NearProbe::Id(id) => NearTest::Id(id@),
        }
    }
}

impl<'a> NearProbe<'a> {
    /// Whether `content` has the property.
    pub fn accepts(&self, content: &Resource<FieldTypeData>) -> (res: bool)
        ensures
            res == passes(content, self@),
    {
        match self {
            NearProbe::Characteristic(characteristic) => content.data.characteristic
                == *characteristic,
            NearProbe::Path(build_path) => *content.data.build_path.as_str() == **build_path,
            NearProbe::Id(id) => *content.id.as_str() == **id,
        }
    }

    /// Whether some content in the distance bands `1..=distance` of `near` has
    /// the property.
    pub fn found_near(
        &self,
        near: &Vec<Vec<&Resource<FieldTypeData>>>,
        distance: u32,
    ) -> (res: bool)
        ensures
            res == near_has(band_views(near@), distance as nat, self@),
    {
        let ghost bands = band_views(near@);
        let mut b: usize = 1;
        while b < near.len() && b <= distance as usize
            invariant
                1 <= b,
                bands == band_views(near@),
                forall|c: int, j: int|
                    1 <= c < b && c < bands.len() && 0 <= j < bands[c].len() ==> !passes(
                        #[trigger] bands[c][j],
                        self@,
                    ),
            decreases near.len() - b,
        {
            let band = &near[b];
            assert(bands[b as int] == band@);
            let mut j: usize = 0;
            while j < band.len()
                invariant
                    1 <= b < near.len(),
                    b <= distance,
                    bands == band_views(near@),
                    bands[b as int] == band@,
                    j <= band.len(),
                    forall|i: int| 0 <= i < j ==> !passes(#[trigger] bands[b as int][i], self@),
                decreases band.len() - j,
            {
                if self.accepts(band[j]) {
                    return true;
                }
                j += 1;
            }
            b += 1;
        }
        false
    }
}

impl Resource<FieldTypeData> {
    /// Whether this content names `id` as a content it replaces.
    pub open spec fn replaces(&self, id: Seq<char>) -> bool {
        exists|i: int|
            0 <= i < self.data.requirments@.len() && (
            #[trigger] self.data.requirments@[i] matches FieldRequirment::Replaces(replaced)
                && replaced@ == id)
    }

    /// Whether this content may follow what stands on a tile: on an empty tile
    /// it must open its build path; on a built tile it must be the next level
    /// of the same path, or name the standing content as one it replaces.
    pub open spec fn continues_path(&self, old: Option<&Resource<FieldTypeData>>) -> bool {
        match old {
            None => self.data.path_level == 0,
            Some(standing) => (standing.data.build_path@ == self.data.build_path@
                && standing.data.path_level + 1 == self.data.path_level) || self.replaces(
                standing.id@,
            ),
        }
    }

    /// Whether every requirement of this content holds.
    pub open spec fn requirements_met(
        &self,
        origin: &Resource<OriginFieldData>,
        near: Seq<Seq<&Resource<FieldTypeData>>>,
        quest_completed: bool,
    ) -> bool {
        forall|i: int|
            0 <= i < self.data.requirments@.len() ==> requirement_met(
                #[trigger] &self.data.requirments@[i],
                origin,
                near,
                quest_completed,
            )
    }

    /// Whether this content may be built: it continues the build path of the
    /// tile and all its requirements hold.
    pub open spec fn buildable(
        &self,
        origin: &Resource<OriginFieldData>,
        old: Option<&Resource<FieldTypeData>>,
        near: Seq<Seq<&Resource<FieldTypeData>>>,
        quest_completed: bool,
    ) -> bool {
        self.continues_path(old) && self.requirements_met(origin, near, quest_completed)
    }

    /// Whether this content names `id` as a content it replaces.
    pub fn is_replacement_for(&self, id: &str) -> (res: bool)
        ensures
            res == self.replaces(id@),
    {
        let mut i: usize = 0;
        while i < self.data.requirments.len()
            invariant
                i <= self.data.requirments@.len(),
                forall|j: int|
                    0 <= j < i ==> !(#[trigger] self.data.requirments@[j] matches FieldRequirment::Replaces(
                        replaced,
                    ) && replaced@ == id@),
            decreases self.data.requirments@.len() - i,
        {
            match &self.data.requirments[i] {
                FieldRequirment::Replaces(replaced) => {
                    if *replaced.as_str() == *id {
                        return true;
                    }
                },
                _ => {},
            }
            i += 1;
        }
        false
    }

    /// Whether one requirement holds.
    pub fn meets(
        requirment: &FieldRequirment,
        origin: &Resource<OriginFieldData>,
        near: &Vec<Vec<&Resource<FieldTypeData>>>,
        quest_completed: bool,
    ) -> (res: bool)
        ensures
            res == requirement_met(requirment, origin, band_views(near@), quest_completed),
    {
        match requirment {
            FieldRequirment::CantBuild => false,
            FieldRequirment::Replaces(_) => true,
            FieldRequirment::QuestCompleted => quest_completed,
            FieldRequirment::NearFieldWithCharacteristic { characteristic, distance } => {
                NearProbe::Characteristic(*characteristic).found_near(near, *distance)
            },
            FieldRequirment::NearFieldWithPath { build_path, distance } => {
                NearProbe::Path(build_path.as_str()).found_near(near, *distance)
            },
            FieldRequirment::NearFieldWithId { id, distance } => {
                NearProbe::Id(id.as_str()).found_near(near, *distance)
            },
            FieldRequirment::NoNearFieldWithCharacteristic { characteristic, distance } => {
                !NearProbe::Characteristic(*characteristic).found_near(near, *distance)
            },
            FieldRequirment::NoNearFieldWithPath { build_path, distance } => {
                !NearProbe::Path(build_path.as_str()).found_near(near, *distance)
            },
            FieldRequirment::NoNearFieldWithId { id, distance } => {
                !NearProbe::Id(id.as_str()).found_near(near, *distance)
            },
            FieldRequirment::HasOrigin(id) => *origin.id.as_str() == *id.as_str(),
            FieldRequirment::HasOriginOneOf(ids) => contains_id(ids, origin.id.as_str()),
        }
    }

    /// Decides whether this content may be built on a tile with the given
    /// origin, standing content, surroundings and quest flag.
    pub fn is_possible_to_be_build(
        &self,
        origin: &Resource<OriginFieldData>,
        old: &Option<&Resource<FieldTypeData>>,
        near: &Vec<Vec<&Resource<FieldTypeData>>>,
        quest_completed: bool,
    ) -> (res: bool)
        ensures
            res == self.buildable(origin, *old, band_views(near@), quest_completed),
    {
        let continues = match old {
            None => self.data.path_level == 0,
            Some(standing) => {
                let next_level = *standing.data.build_path.as_str()
                    == *self.data.build_path.as_str() && standing.data.path_level
                    < self.data.path_level && self.data.path_level - standing.data.path_level
                    == 1;
                next_level || self.is_replacement_for(standing.id.as_str())
            },
        };
        if !continues {
            return false;
        }
        let mut i: usize = 0;
        while i < self.data.requirments.len()
            invariant
                i <= self.data.requirments@.len(),
                forall|j: int|
                    0 <= j < i ==> requirement_met(
                        #[trigger] &self.data.requirments@[j],
                        origin,
                        band_views(near@),
                        quest_completed,
                    ),
            decreases self.data.requirments@.len() - i,
        {
            if !Self::meets(&self.data.requirments[i], origin, near, quest_completed) {
                return false;
            }
            i += 1;
        }
        true
    }

    /// Whether `gres` holds enough of every resource this content costs. A kind
    /// that `gres` does not hold counts as not enough.
    pub fn has_enough_resources(&self, gres: &Ledger) -> (res: bool)
        ensures
            res == affordable(self.data.cost@, gres@),
    {
        let mut i: usize = 0;
        while i < RESOURCE_KINDS
            invariant
                i <= RESOURCE_KINDS,
                forall|kind: GResource|
                    kind.spec_index() < i && #[trigger] self.data.cost@.contains_key(kind)
                        ==> gres@.contains_key(kind) && gres@[kind] >= self.data.cost@[kind],
            decreases RESOURCE_KINDS - i,
        {
            let kind = GResource::from_index(i);
            match self.data.cost.get(kind) {
                Some(price) => {
                    match gres.get(kind) {
                        Some(held) => {
                            if held < price {
                                return false;
                            }
                        },
                        None => {
                            return false;
                        },
                    }
                },
                None => {},
            }
            proof {
                GResource::lemma_index_bijective();
            }
            i += 1;
        }
        true
    }

    /// Pays the cost of this content out of `gres`.
    pub fn spent_resources(&self, gres: &mut Ledger)
        requires
            affordable(self.data.cost@, old(gres)@),
        ensures
            final(gres)@ == debited(old(gres)@, self.data.cost@),
    {
        let mut i: usize = 0;
        while i < RESOURCE_KINDS
            invariant
                i <= RESOURCE_KINDS,
                affordable(self.data.cost@, old(gres)@),
                forall|j: int|
                    0 <= j < 9 ==> #[trigger] gres.slots[j] == (if j < i && self.data.cost.slots[j] is Some {
                        Some((old(gres).slots[j]->0 - self.data.cost.slots[j]->0) as u32)
                    } else {
                        old(gres).slots[j]
                    }),
            decreases RESOURCE_KINDS - i,
        {
            let kind = GResource::from_index(i);
            assert(self.data.cost@.contains_key(kind) ==> old(gres)@.contains_key(kind)
                && old(gres)@[kind] >= self.data.cost@[kind]);
            match self.data.cost.slots[i] {
                Some(price) => {
                    match gres.slots[i] {
                        Some(held) => {
                            gres.slots[i] = Some(held - price);
                        },
                        None => {},
                    }
                },
                None => {},
            }
            i += 1;
        }
        proof {
            GResource::lemma_index_bijective();
            assert forall|kind: GResource| #[trigger]
                gres@.contains_key(kind) == old(gres)@.contains_key(kind) by {
                if self.data.cost@.contains_key(kind) {
                    assert(old(gres)@.contains_key(kind));
                }
            }
            assert(gres@ =~= debited(old(gres)@, self.data.cost@));
        }
    }
}

/// A content that is found buildable continues the build path of the tile, and
/// none of its requirements fails.
pub proof fn lemma_buildable_respects_rules(
    candidate: &Resource<FieldTypeData>,
    origin: &Resource<OriginFieldData>,
    old: Option<&Resource<FieldTypeData>>,
    near: Seq<Seq<&Resource<FieldTypeData>>>,
    quest_completed: bool,
    i: int,
)
    requires
        candidate.buildable(origin, old, near, quest_completed),
        0 <= i < candidate.data.requirments@.len(),
    ensures
        old is None ==> candidate.data.path_level == 0,
        old matches Some(standing) ==> (standing.data.build_path@ == candidate.data.build_path@
            && standing.data.path_level + 1 == candidate.data.path_level) || candidate.replaces(
            standing.id@,
        ),
        requirement_met(&candidate.data.requirments@[i], origin, near, quest_completed),
        candidate.data.requirments@[i] !is CantBuild,
{
}

} // verus!
