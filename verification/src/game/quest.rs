//! The quests of a game.

use vstd::prelude::*;
use crate::game::map::TilePos;
use crate::game::{GameError, GameFault};
use crate::resource::resource_data::QuestData;
use crate::resource::{record_of_id, Resource, ResourceManager};

verus! {

/// A quest: a template from the catalog, the tile it waits on and the turn in
/// which it appeared.
#[derive(Debug)]
pub struct Quest<'a> {
    pub quest_type: &'a Resource<QuestData>,
    pub position: TilePos,
    pub creation_turn: u32,
    pub _resource_manager: &'a ResourceManager,
}

impl<'a> Quest<'a> {
    /// A new quest of the given template.
    pub fn of_type(
        rm: &'a ResourceManager,
        quest_type: &'a Resource<QuestData>,
        turn: u32,
        position: &TilePos,
    ) -> (res: Quest<'a>)
        ensures
            res == (Quest {
                quest_type,
                position: *position,
                creation_turn: turn,
                _resource_manager: rm,
            }),
    {
        Quest { quest_type, position: *position, creation_turn: turn, _resource_manager: rm }
    }

    /// A new quest of the template that has the id.
    pub fn new(rm: &'a ResourceManager, id: &str, turn: u32, position: &TilePos) -> (res: Result<
        Quest<'a>,
        GameError,
    >)
        ensures
            res matches Err(e) ==> e.says_why(),
            match res {
                Ok(quest) => {
                    &&& record_of_id(rm.quests@, id@) == Some(*quest.quest_type)
                    &&& quest.position == *position
                    &&& quest.creation_turn == turn
                    &&& quest._resource_manager == rm
                },
                Err(e) => record_of_id(rm.quests@, id@) is None && e.kind
                    == GameFault::MissingResource,
            },
    {
        match rm.get_quest(id) {
            Ok(quest_type) => Ok(Self::of_type(rm, quest_type, turn, position)),
            Err(e) => Err(e),
        }
    }

    /// Where the quest waits.
    pub fn get_position(&self) -> (res: TilePos)
        ensures
            res == self.position,
    {
        self.position
    }
}

} // verus!
