//! The heroes of a game.

use vstd::prelude::*;
use crate::game::{GameError, GameFault};
use crate::quantity::UNIT;
use crate::resource::enums::HeroSkill;
use crate::resource::resource_data::HeroData;
use crate::resource::tables::SkillLevels;
use crate::resource::{record_of_id, Resource, ResourceManager};

verus! {

/// A hero: a background from the catalog and the skills grown from it.
#[derive(Debug)]
pub struct Hero<'a> {
    pub background: &'a Resource<HeroData>,
    pub name: String,
    pub skills: SkillLevels,
    pub learning_count: u32,
    pub _stories_get: u32,
    pub _resource_manager: &'a ResourceManager,
}

/// The skills a hero of the given background starts with: the levels the
/// background names, and one whole for every skill it does not name.
pub open spec fn starting_skills(background: &Resource<HeroData>) -> Map<HeroSkill, i64> {
    Map::new(
        |skill: HeroSkill| true,
        |skill: HeroSkill|
            if background.data.init_skills@.contains_key(skill) {
                background.data.init_skills@[skill]
            } else {
                UNIT
            },
    )
}

impl<'a> Hero<'a> {
    /// Whether the hero has a level in every skill.
    pub open spec fn wf(&self) -> bool {
        forall|skill: HeroSkill| #[trigger] self.skills@.contains_key(skill)
    }

    /// A new hero of the given background.
    pub fn of_background(rm: &'a ResourceManager, background: &'a Resource<HeroData>) -> (res:
        Hero<'a>)
        ensures
            res.wf(),
            res.background == background,
            res.name@ == "Ziom"@,
            res.skills@ == starting_skills(background),
            res.learning_count == 0,
            res._stories_get == 0,
            res._resource_manager == rm,
    {
        let skills = background.data.init_skills.filled(UNIT);
        assert(skills@ =~= starting_skills(background));
        Hero {
            background,
            name: "Ziom".to_owned(),
            skills,
            learning_count: 0,
            _stories_get: 0,
            _resource_manager: rm,
        }
    }

    /// A new hero of the background that has the id.
    pub fn new(rm: &'a ResourceManager, id: &str) -> (res: Result<Hero<'a>, GameError>)
        ensures
            res matches Err(e) ==> e.says_why(),
            match res {
                Ok(hero) => {
                    &&& record_of_id(rm.heroes@, id@) == Some(*hero.background)
                    &&& hero.wf()
                    &&& hero.name@ == "Ziom"@
                    &&& hero.skills@ == starting_skills(hero.background)
                    &&& hero.learning_count == 0
                    &&& hero._stories_get == 0
                    &&& hero._resource_manager == rm
                },
                Err(e) => record_of_id(rm.heroes@, id@) is None && e.kind
                    == GameFault::MissingResource,
            },
    {
        match rm.get_hero(id) {
            Ok(background) => Ok(Self::of_background(rm, background)),
            Err(e) => Err(e),
        }
    }

    /// The skills of the hero.
    pub fn get_skills(&self) -> (res: &SkillLevels)
        ensures
            *res == self.skills,
    {
        &self.skills
    }

    /// The skills of the hero, to be changed in place.
    pub fn get_skills_mut(&mut self) -> (res: &mut SkillLevels)
        ensures
            *res == old(self).skills,
            final(self).skills == *final(res),
            final(self).background == old(self).background,
            final(self).name == old(self).name,
            final(self).learning_count == old(self).learning_count,
            final(self)._stories_get == old(self)._stories_get,
            final(self)._resource_manager == old(self)._resource_manager,
    {
        &mut self.skills
    }
}

} // verus!
