//! The closed vocabularies of the rule catalog.

use vstd::prelude::*;

verus! {

/// What kind of place a build-content makes of its tile.
#[derive(Debug, Clone, Copy, PartialEq, Eq, Hash, Structural)]
pub enum FieldCharacteristic {
    Habited,
    Mysterious,
}

/// The kinds of resource the economy counts.
#[derive(Debug, Clone, Copy, PartialEq, Eq, Hash, Structural)]
pub enum GResource {
    Story,
    Gold,
    GreenTrophy,
    RedTrophy,
    BlueTrophy,
    WhiteTrophy,
    RareTrophy,
    EpicTrophy,
    LegendTrophy,
}

/// The skills of a hero.
#[derive(Debug, Clone, Copy, PartialEq, Eq, Hash, Structural)]
pub enum HeroSkill {
    Intnteligence,
    Alechemy,
    Magic,
    Strength,
    MleeFight,
    Charisma,
    Dextrity,
    Tracking,
    DistanceFight,
}

/// How many kinds of resource there are.
pub const RESOURCE_KINDS: usize = 9;

/// How many skills there are.
pub const SKILL_KINDS: usize = 9;

impl GResource {
    /// The place of this kind in the order of declaration.
    pub open spec fn spec_index(self) -> int {
        match self {
            GResource::Story => 0,
            GResource::Gold => 1,
            GResource::GreenTrophy => 2,
            GResource::RedTrophy => 3,
            GResource::BlueTrophy => 4,
            GResource::WhiteTrophy => 5,
            GResource::RareTrophy => 6,
            GResource::EpicTrophy => 7,
            GResource::LegendTrophy => 8,
        }
    }

    /// The kind at a place in the order of declaration.
    pub open spec fn spec_from_index(i: int) -> GResource {
        if i == 0 {
            GResource::Story
        } else if i == 1 {
            GResource::Gold
        } else if i == 2 {
            GResource::GreenTrophy
        } else if i == 3 {
            GResource::RedTrophy
        } else if i == 4 {
            GResource::BlueTrophy
        } else if i == 5 {
            GResource::WhiteTrophy
        } else if i == 6 {
            GResource::RareTrophy
        } else if i == 7 {
            GResource::EpicTrophy
        } else {
            GResource::LegendTrophy
        }
    }

    /// The place of this kind in the order of declaration.
    pub fn index(self) -> (i: usize)
        ensures
            i == self.spec_index(),
            i < RESOURCE_KINDS,
    {
        match self {
            GResource::Story => 0,
            GResource::Gold => 1,
            GResource::GreenTrophy => 2,
            GResource::RedTrophy => 3,
            GResource::BlueTrophy => 4,
            GResource::WhiteTrophy => 5,
            GResource::RareTrophy => 6,
            GResource::EpicTrophy => 7,
            GResource::LegendTrophy => 8,
        }
    }

    /// The kind at a place in the order of declaration.
    pub fn from_index(i: usize) -> (kind: GResource)
        requires
            i < RESOURCE_KINDS,
        ensures
            kind == Self::spec_from_index(i as int),
            kind.spec_index() == i,
    {
        if i == 0 {
            GResource::Story
        } else if i == 1 {
            GResource::Gold
        } else if i == 2 {
            GResource::GreenTrophy
        } else if i == 3 {
            GResource::RedTrophy
        } else if i == 4 {
            GResource::BlueTrophy
        } else if i == 5 {
            GResource::WhiteTrophy
        } else if i == 6 {
            GResource::RareTrophy
        } else if i == 7 {
            GResource::EpicTrophy
        } else {
            GResource::LegendTrophy
        }
    }

    /// Kinds and places correspond one to one.
    pub proof fn lemma_index_bijective()
        ensures
            forall|kind: GResource|
                0 <= #[trigger] kind.spec_index() < RESOURCE_KINDS && Self::spec_from_index(
                    kind.spec_index(),
                ) == kind,
            forall|i: int|
                0 <= i < RESOURCE_KINDS ==> (#[trigger] Self::spec_from_index(i)).spec_index()
                    == i,
    {
    }
}

impl HeroSkill {
    /// The place of this skill in the order of declaration.
    pub open spec fn spec_index(self) -> int {
        match self {
            HeroSkill::Intnteligence => 0,
            HeroSkill::Alechemy => 1,
            HeroSkill::Magic => 2,
            HeroSkill::Strength => 3,
            HeroSkill::MleeFight => 4,
            HeroSkill::Charisma => 5,
            HeroSkill::Dextrity => 6,
            HeroSkill::Tracking => 7,
            HeroSkill::DistanceFight => 8,
        }
    }

    /// The skill at a place in the order of declaration.
    pub open spec fn spec_from_index(i: int) -> HeroSkill {
        if i == 0 {
            HeroSkill::Intnteligence
        } else if i == 1 {
            HeroSkill::Alechemy
        } else if i == 2 {
            HeroSkill::Magic
        } else if i == 3 {
            HeroSkill::Strength
        } else if i == 4 {
            HeroSkill::MleeFight
        } else if i == 5 {
            HeroSkill::Charisma
        } else if i == 6 {
            HeroSkill::Dextrity
        } else if i == 7 {
            HeroSkill::Tracking
        } else {
            HeroSkill::DistanceFight
        }
    }

    /// The place of this skill in the order of declaration.
    pub fn index(self) -> (i: usize)
        ensures
            i == self.spec_index(),
            i < SKILL_KINDS,
    {
        match self {
            HeroSkill::Intnteligence => 0,
            HeroSkill::Alechemy => 1,
            HeroSkill::Magic => 2,
            HeroSkill::Strength => 3,
            HeroSkill::MleeFight => 4,
            HeroSkill::Charisma => 5,
            HeroSkill::Dextrity => 6,
            HeroSkill::Tracking => 7,
            HeroSkill::DistanceFight => 8,
        }
    }

    /// The skill at a place in the order of declaration.
    pub fn from_index(i: usize) -> (skill: HeroSkill)
        requires
            i < SKILL_KINDS,
        ensures
            skill == Self::spec_from_index(i as int),
            skill.spec_index() == i,
    {
        if i == 0 {
            HeroSkill::Intnteligence
        } else if i == 1 {
            HeroSkill::Alechemy
        } else if i == 2 {
            HeroSkill::Magic
        } else if i == 3 {
            HeroSkill::Strength
        } else if i == 4 {
            HeroSkill::MleeFight
        } else if i == 5 {
            HeroSkill::Charisma
        } else if i == 6 {
            HeroSkill::Dextrity
        } else if i == 7 {
            HeroSkill::Tracking
        } else {
            HeroSkill::DistanceFight
        }
    }

    /// Skills and places correspond one to one.
    pub proof fn lemma_index_bijective()
        ensures
            forall|skill: HeroSkill|
                0 <= #[trigger] skill.spec_index() < SKILL_KINDS && Self::spec_from_index(
                    skill.spec_index(),
                ) == skill,
            forall|i: int|
                0 <= i < SKILL_KINDS ==> (#[trigger] Self::spec_from_index(i)).spec_index() == i,
    {
    }
}

/// What happens at once when a content is built.
#[derive(Debug, Clone, Copy)]
#[allow(inconsistent_fields)]
pub enum FieldInstantEffect {
    ShowFields { only_first_time: bool, amount: u32 },
    GiveResources { only_first_time: bool, resource: GResource, amount: u32 },
    IncreaseSkill { only_first_time: bool, skill: HeroSkill, amount: i64 },
    LearnAboutAction { only_first_time: bool },
    IncreaseMaxHeroes { only_first_time: bool },
}

/// What a quest decision asks of the expedition before it grants extra points.
#[derive(Debug)]
pub enum PointRequirment {
    DidAction(String),
    DidActionFamily(String),
    HeroFromFamliy(String),
}

/// What a content asks of a tile and its surroundings before it can be built.
#[derive(Debug)]
pub enum FieldRequirment {
    CantBuild,
    Replaces(String),
    QuestCompleted,
    NearFieldWithCharacteristic { characteristic: FieldCharacteristic, distance: u32 },
    NearFieldWithPath { build_path: String, distance: u32 },
    NearFieldWithId { id: String, distance: u32 },
    NoNearFieldWithCharacteristic { characteristic: FieldCharacteristic, distance: u32 },
    NoNearFieldWithPath { build_path: String, distance: u32 },
    NoNearFieldWithId { id: String, distance: u32 },
    HasOrigin(String),
    HasOriginOneOf(Vec<String>),
}

/// What a failed quest costs.
#[derive(Debug)]
pub enum QuestPenalty {
    LooseResources { resource: GResource, amount: u32 },
    DestroyRandomNotMain,
    DestroyTileWithPath(String),
    DestroyQuestTile,
    KillHero(i64),
}

/// What an action asks of the steps an expedition has taken so far.
#[derive(Debug)]
pub enum ActionRequirment {
    IsBefore(String),
    IsBeforeFamily(String),
    IsBeforePosition(usize),
}

} // verus!
