//! One hex cell of the world map.

use vstd::prelude::*;
use vstd::string::StrSliceExecFns;
use crate::game::map::TilePos;
use crate::game::GameError;
use crate::game::GameFault;
use crate::resource::enums::FieldCharacteristic;
use crate::resource::resource_data::{passes, FieldTypeData, NearTest, OriginFieldData};
use crate::resource::{record_of_id, Resource, ResourceManager};

verus! {

/// A tile: a position with its origin terrain, which never changes, and the
/// content built on it, which a build replaces.
#[derive(Debug)]
pub struct GameTile<'a> {
    pub position: TilePos,
    pub base_field_type: &'a Resource<OriginFieldData>,
    pub field_content: Option<&'a Resource<FieldTypeData>>,
    pub visible: bool,
    pub quest_completed_till_last_build: bool,
    pub resource_manager: &'a ResourceManager,
}

/// A short text with the colour in which it is to be shown.
#[derive(Debug)]
pub struct ColoredText {
    pub text: String,
    pub color: (u8, u8, u8),
}

/// The letters under which an id shows on the map: its first two, or all it
/// has if it has fewer.
pub open spec fn label(id: Seq<char>) -> Seq<char> {
    if id.len() <= 2 {
        id
    } else {
        id.subrange(0, 2)
    }
}

/// A colour as it shows on a tile: in full on a visible tile, at a third of
/// each part on a hidden one.
pub open spec fn shaded(color: (u8, u8, u8), visible: bool) -> (u8, u8, u8) {
    if visible {
        color
    } else {
        ((color.0 / 3) as u8, (color.1 / 3) as u8, (color.2 / 3) as u8)
    }
}

impl<'a> GameTile<'a> {
    /// Whether the tile carries the content that has the id.
    pub open spec fn holds_content(&self, id: Seq<char>) -> bool {
        self.field_content matches Some(content) && content.id@ == id
    }

    /// Whether the tile carries a content in which people live.
    pub open spec fn inhabited(&self) -> bool {
        self.field_content matches Some(content) && content.data.characteristic
            == FieldCharacteristic::Habited
    }

    /// The ids of the actions a hero can perform on the tile: those of its
    /// content, or those of its origin terrain if nothing is built.
    pub open spec fn action_ids(&self) -> Seq<String> {
        match self.field_content {
            Some(content) => content.data.possible_actions@,
            None => self.base_field_type.data.possible_actions@,
        }
    }

    /// Whether the tile carries a content that has the property `test` names.
    pub open spec fn shows(&self, test: NearTest) -> bool {
        self.field_content matches Some(content) && passes(content, test)
    }

    /// Whether the tile carries a content of the build path.
    pub open spec fn holds_path(&self, build_path: Seq<char>) -> bool {
        self.field_content matches Some(content) && content.data.build_path@ == build_path
    }

    /// A hidden or visible tile without content, on the origin terrain that
    /// has the id `bft`.
    pub fn new(p: &TilePos, rm: &'a ResourceManager, bft: &str, visible: bool) -> (res: Result<
        GameTile<'a>,
        GameError,
    >)
        ensures
            res matches Err(e) ==> e.says_why(),
            match res {
                Ok(tile) => {
                    &&& record_of_id(rm.origin_fields@, bft@) == Some(*tile.base_field_type)
                    &&& tile.position == *p
                    &&& tile.field_content is None
                    &&& tile.visible == visible
                    &&& !tile.quest_completed_till_last_build
                    &&& tile.resource_manager == rm
                },
                Err(e) => record_of_id(rm.origin_fields@, bft@) is None && e.kind
                    == GameFault::MissingResource,
            },
    {
        match rm.get_origin_field(bft) {
            Ok(origin) => Ok(
                GameTile {
                    position: *p,
                    base_field_type: origin,
                    field_content: None,
                    visible,
                    quest_completed_till_last_build: false,
                    resource_manager: rm,
                },
            ),
            Err(e) => Err(e),
        }
    }

    /// Whether the tile carries a content in which people live.
    pub fn is_inhabited(&self) -> (res: bool)
        ensures
            res == self.inhabited(),
    {
        match self.field_content {
            Some(content) => content.data.characteristic == FieldCharacteristic::Habited,
            None => false,
        }
    }

    /// The ids of the actions a hero can perform on the tile.
    pub fn get_possible_actions(&self) -> (res: &'a Vec<String>)
        ensures
            res@ == self.action_ids(),
    {
        match self.field_content {
            Some(content) => &content.data.possible_actions,
            None => &self.base_field_type.data.possible_actions,
        }
    }

    /// Where the tile lies.
    pub fn get_position(&self) -> (res: TilePos)
        ensures
            res == self.position,
    {
        self.position
    }

    /// Whether a quest was completed on the tile since its content last changed.
    pub fn get_quest_completed_till_last_build(&self) -> (res: bool)
        ensures
            res == self.quest_completed_till_last_build,
    {
        self.quest_completed_till_last_build
    }

    /// Whether the player sees the tile.
    pub fn is_visible(&self) -> (res: bool)
        ensures
            res == self.visible,
    {
        self.visible
    }

    /// The origin terrain of the tile.
    pub fn get_base_field_type(&self) -> (res: &'a Resource<OriginFieldData>)
        ensures
            res == self.base_field_type,
    {
        self.base_field_type
    }

    /// The content built on the tile, if any.
    pub fn get_field_content(&self) -> (res: Option<&'a Resource<FieldTypeData>>)
        ensures
            res == self.field_content,
    {
        self.field_content
    }

    /// Replaces the content of the tile by the build-content that has the id,
    /// and clears the quest flag. A tile is left as it is if the catalog has
    /// no such content.
    pub fn set_field_content(&mut self, id: &str) -> (res: Result<(), GameError>)
        ensures
            res matches Err(e) ==> e.says_why(),
            match res {
                Ok(()) => {
                    &&& final(self).field_content matches Some(content)
                    &&& record_of_id(old(self).resource_manager.field_types@, id@) == Some(
                        *content,
                    )
                    &&& !final(self).quest_completed_till_last_build
                    &&& final(self).position == old(self).position
                    &&& final(self).base_field_type == old(self).base_field_type
                    &&& final(self).visible == old(self).visible
                    &&& final(self).resource_manager == old(self).resource_manager
                },
                Err(e) => {
                    &&& record_of_id(old(self).resource_manager.field_types@, id@) is None
                    &&& e.kind == GameFault::MissingResource
                    &&& *final(self) == *old(self)
                },
            },
    {
        match self.resource_manager.get_field_type(id) {
            Ok(content) => {
                self.field_content = Some(content);
                self.quest_completed_till_last_build = false;
                Ok(())
            },
            Err(e) => Err(e),
        }
    }

    /// Shows or hides the tile.
    pub fn set_visible(&mut self, visible: bool)
        ensures
            final(self).visible == visible,
            final(self).position == old(self).position,
            final(self).base_field_type == old(self).base_field_type,
            final(self).field_content == old(self).field_content,
            final(self).quest_completed_till_last_build == old(
                self,
            ).quest_completed_till_last_build,
            final(self).resource_manager == old(self).resource_manager,
    {
        self.visible = visible;
    }

    /// The colour in which the tile shows: that of its content, or of its
    /// origin terrain if nothing is built, dimmed while the tile is hidden.
    pub fn get_color(&self) -> (res: (u8, u8, u8))
        ensures
            res == shaded(
                match self.field_content {
                    Some(content) => content.data.color,
                    None => self.base_field_type.data.color,
                },
                self.visible,
            ),
    {
        match self.field_content {
            Some(content) => self.color_based_on_visibility(content.data.color),
            None => self.color_based_on_visibility(self.base_field_type.data.color),
        }
    }

    /// The id under which the tile shows: that of its content, or of its
    /// origin terrain if nothing is built.
    pub fn get_shown_id(&self) -> (res: &'a str)
        ensures
            res@ == self.shown_id(),
    {
        match self.field_content {
            Some(content) => content.id.as_str(),
            None => self.base_field_type.id.as_str(),
        }
    }

    /// The id under which the tile shows, in the spec of the tile.
    pub open spec fn shown_id(&self) -> Seq<char> {
        match self.field_content {
            Some(content) => content.id@,
            None => self.base_field_type.id@,
        }
    }

    /// How the tile shows on the map: the first two letters of the id of its
    /// content, or of its origin terrain if nothing is built, in the colour
    /// of the same, dimmed while the tile is hidden.
    pub fn get_colored_string(&self) -> (res: ColoredText)
        ensures
            res.text@ == label(self.shown_id()),
            res.color == shaded(
                match self.field_content {
                    Some(content) => content.data.color,
                    None => self.base_field_type.data.color,
                },
                self.visible,
            ),
    {
        let id = self.get_shown_id();
        let text = if id.unicode_len() <= 2 {
            id.to_owned()
        } else {
            id.substring_char(0, 2).to_owned()
        };
        ColoredText { text, color: self.get_color() }
    }

    /// A colour as it shows on this tile.
    pub fn color_based_on_visibility(&self, color: (u8, u8, u8)) -> (res: (u8, u8, u8))
        ensures
            res == shaded(color, self.visible),
    {
        if self.visible {
            color
        } else {
            (color.0 / 3, color.1 / 3, color.2 / 3)
        }
    }
}

} // verus!
