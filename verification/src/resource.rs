//! The rule catalog: the read-only records that describe the game.

pub mod enums;
pub mod resource_data;
pub mod tables;

use vstd::prelude::*;
use crate::game::{GameError, GameFault};
use crate::resource::resource_data::{
    distance_of,
    requirement_distance,
    ActionData,
    FieldTypeData,
    Globals,
    HeroData,
    OriginFieldData,
    QuestData,
};

verus! {

/// `str::eq` of the standard library: two string slices are equal exactly
/// when they hold the same characters in the same order.
pub assume_specification[ <str as PartialEq>::eq ](a: &str, b: &str) -> (res: bool)
    ensures
        res == (a@ == b@),
;

/// A rule record: data of one kind under an id that is unique within the kind.
#[derive(Debug)]
pub struct Resource<T> {
    pub id: String,
    pub data: T,
}

/// Whether `id` occurs in `ids`.
pub open spec fn lists_id(ids: Seq<String>, id: Seq<char>) -> bool {
    exists|i: int| 0 <= i < ids.len() && #[trigger] ids[i]@ == id
}

/// Whether `id` occurs in `ids`.
pub fn contains_id(ids: &Vec<String>, id: &str) -> (res: bool)
    ensures
        res == lists_id(ids@, id@),
{
    let mut i: usize = 0;
    while i < ids.len()
        invariant
            i <= ids.len(),
            forall|j: int| 0 <= j < i ==> #[trigger] ids[j]@ != id@,
        decreases ids.len() - i,
    {
        if *ids[i].as_str() == *id {
            return true;
        }
        i += 1;
    }
    false
}

/// Whether some record of `table` has the id.
pub open spec fn has_id<T>(table: Seq<Resource<T>>, id: Seq<char>) -> bool {
    exists|i: int| 0 <= i < table.len() && #[trigger] table[i].id@ == id
}

/// Whether `i` is the place of the first record of `table` that has the id.
pub open spec fn is_first_with_id<T>(table: Seq<Resource<T>>, id: Seq<char>, i: int) -> bool {
    &&& 0 <= i < table.len()
    &&& table[i].id@ == id
    &&& forall|j: int| 0 <= j < i ==> #[trigger] table[j].id@ != id
}

/// The place of the first record of `table` that has the id, if there is one.
pub open spec fn place_of_id<T>(table: Seq<Resource<T>>, id: Seq<char>) -> Option<int> {
    if has_id(table, id) {
        Some(choose|i: int| is_first_with_id(table, id, i))
    } else {
        None
    }
}

/// Whether no two records of `table` share an id.
pub open spec fn ids_distinct<T>(table: Seq<Resource<T>>) -> bool {
    forall|i: int, j: int|
        0 <= i < j < table.len() ==> #[trigger] table[i].id@ != #[trigger] table[j].id@
}

/// The first record with an id is the only place `place_of_id` can name.
pub proof fn lemma_place_of_id<T>(table: Seq<Resource<T>>, id: Seq<char>, i: int)
    requires
        is_first_with_id(table, id, i),
    ensures
        has_id(table, id),
        place_of_id(table, id) == Some(i),
{
    let chosen = choose|k: int| is_first_with_id(table, id, k);
    assert(is_first_with_id(table, id, chosen));
    if chosen < i {
        assert(table[chosen].id@ != id);
    }
    if i < chosen {
        assert(table[i].id@ != id);
    }
}

/// The place that `place_of_id` names holds the first record with the id.
pub proof fn lemma_place_is_first<T>(table: Seq<Resource<T>>, id: Seq<char>)
    requires
        place_of_id(table, id) is Some,
    ensures
        is_first_with_id(table, id, place_of_id(table, id)->0),
{
    let i = choose|i: int| 0 <= i < table.len() && #[trigger] table[i].id@ == id;
    lemma_first_exists(table, id, i);
}

/// If the record at place `i` has the id, some place holds the first such record.
pub proof fn lemma_first_exists<T>(table: Seq<Resource<T>>, id: Seq<char>, i: int)
    requires
        0 <= i < table.len(),
        table[i].id@ == id,
    ensures
        exists|k: int| is_first_with_id(table, id, k),
    decreases i,
{
    if exists|j: int| 0 <= j < i && #[trigger] table[j].id@ == id {
        let j = choose|j: int| 0 <= j < i && #[trigger] table[j].id@ == id;
        lemma_first_exists(table, id, j);
    } else {
        assert(is_first_with_id(table, id, i));
    }
}

/// The place of the first record of `table` that has the id.
pub fn find_record<T>(table: &Vec<Resource<T>>, id: &str) -> (res: Option<usize>)
    ensures
        res matches Some(i) ==> is_first_with_id(table@, id@, i as int),
        match res {
            Some(i) => place_of_id(table@, id@) == Some(i as int),
            None => place_of_id(table@, id@) is None,
        },
{
    let mut i: usize = 0;
    while i < table.len()
        invariant
            i <= table.len(),
            forall|j: int| 0 <= j < i ==> #[trigger] table[j].id@ != id@,
        decreases table.len() - i,
    {
        if *table[i].id.as_str() == *id {
            proof {
                lemma_place_of_id(table@, id@, i as int);
            }
            return Some(i);
        }
        i += 1;
    }
    None
}

/// Puts `record` into `table`: in the place of the record that has its id, or
/// at the end if no record has it.
pub fn put_record<T>(table: &mut Vec<Resource<T>>, record: Resource<T>)
    ensures
        match place_of_id(old(table)@, record.id@) {
            Some(i) => final(table)@ == old(table)@.update(i, record),
            None => final(table)@ == old(table)@.push(record),
        },
        ids_distinct(old(table)@) ==> ids_distinct(final(table)@),
{
    match find_record(table, record.id.as_str()) {
        Some(i) => {
            table[i] = record;
        },
        None => {
            table.push(record);
        },
    }
}

/// The rule catalog: one table of records for each kind of rule.
#[derive(Debug)]
pub struct ResourceManager {
    pub globals: Vec<Resource<Globals>>,
    pub origin_fields: Vec<Resource<OriginFieldData>>,
    pub field_types: Vec<Resource<FieldTypeData>>,
    pub heroes: Vec<Resource<HeroData>>,
    pub quests: Vec<Resource<QuestData>>,
    pub actions: Vec<Resource<ActionData>>,
}

/// The record of `table` that `get` hands out for the id: the first that has it.
pub open spec fn record_of_id<T>(table: Seq<Resource<T>>, id: Seq<char>) -> Option<Resource<T>> {
    match place_of_id(table, id) {
        Some(i) => Some(table[i]),
        None => None,
    }
}

/// The record of `table` that has the id.
pub fn get_record<'a, T>(table: &'a Vec<Resource<T>>, id: &str) -> (res: Result<
    &'a Resource<T>,
    GameError,
>)
    ensures
        res matches Err(e) ==> e.says_why(),
        match res {
            Ok(record) => record_of_id(table@, id@) == Some(*record) && record.id@ == id@,
            Err(e) => record_of_id(table@, id@) is None && e.kind == GameFault::MissingResource,
        },
{
    match find_record(table, id) {
        Some(i) => Ok(&table[i]),
        None => Err(GameError::of(GameFault::MissingResource)),
    }
}

impl ResourceManager {
    /// Whether ids are unique within every kind of rule.
    pub open spec fn wf(&self) -> bool {
        &&& ids_distinct(self.globals@)
        &&& ids_distinct(self.origin_fields@)
        &&& ids_distinct(self.field_types@)
        &&& ids_distinct(self.heroes@)
        &&& ids_distinct(self.quests@)
        &&& ids_distinct(self.actions@)
    }

    /// A catalog without records.
    pub fn new() -> (res: ResourceManager)
        ensures
            res.wf(),
            res.globals@.len() == 0,
            res.origin_fields@.len() == 0,
            res.field_types@.len() == 0,
            res.heroes@.len() == 0,
            res.quests@.len() == 0,
            res.actions@.len() == 0,
    {
        ResourceManager {
            globals: Vec::new(),
            origin_fields: Vec::new(),
            field_types: Vec::new(),
            heroes: Vec::new(),
            quests: Vec::new(),
            actions: Vec::new(),
        }
    }

    /// Adds the settings record. A record that has the same id is replaced.
    pub fn add_globals(&mut self, record: Resource<Globals>)
        ensures
            match place_of_id(old(self).globals@, record.id@) {
                Some(i) => final(self).globals@ == old(self).globals@.update(i, record),
                None => final(self).globals@ == old(self).globals@.push(record),
            },
            final(self).origin_fields@ == old(self).origin_fields@,
            final(self).field_types@ == old(self).field_types@,
            final(self).heroes@ == old(self).heroes@,
            final(self).quests@ == old(self).quests@,
            final(self).actions@ == old(self).actions@,
            old(self).wf() ==> final(self).wf(),
    {
        put_record(&mut self.globals, record);
    }

    /// Adds an origin terrain. A record that has the same id is replaced.
    pub fn add_origin_field(&mut self, record: Resource<OriginFieldData>)
        ensures
            match place_of_id(old(self).origin_fields@, record.id@) {
                Some(i) => final(self).origin_fields@ == old(self).origin_fields@.update(i, record),
                None => final(self).origin_fields@ == old(self).origin_fields@.push(record),
            },
            final(self).globals@ == old(self).globals@,
            final(self).field_types@ == old(self).field_types@,
            final(self).heroes@ == old(self).heroes@,
            final(self).quests@ == old(self).quests@,
            final(self).actions@ == old(self).actions@,
            old(self).wf() ==> final(self).wf(),
    {
        put_record(&mut self.origin_fields, record);
    }

    /// The origin terrain that has the id.
    pub fn get_origin_field(&self, id: &str) -> (res: Result<&Resource<OriginFieldData>, GameError>)
        ensures
            res matches Err(e) ==> e.says_why(),
            match res {
                Ok(record) => record_of_id(self.origin_fields@, id@) == Some(*record) && record.id@ == id@,
                Err(e) => record_of_id(self.origin_fields@, id@) is None && e.kind
                    == GameFault::MissingResource,
            },
    {
        get_record(&self.origin_fields, id)
    }

    /// Adds a build-content. A record that has the same id is replaced.
    pub fn add_field_type(&mut self, record: Resource<FieldTypeData>)
        ensures
            match place_of_id(old(self).field_types@, record.id@) {
                Some(i) => final(self).field_types@ == old(self).field_types@.update(i, record),
                None => final(self).field_types@ == old(self).field_types@.push(record),
            },
            final(self).globals@ == old(self).globals@,
            final(self).origin_fields@ == old(self).origin_fields@,
            final(self).heroes@ == old(self).heroes@,
            final(self).quests@ == old(self).quests@,
            final(self).actions@ == old(self).actions@,
            old(self).wf() ==> final(self).wf(),
    {
        put_record(&mut self.field_types, record);
    }

    /// The build-content that has the id.
    pub fn get_field_type(&self, id: &str) -> (res: Result<&Resource<FieldTypeData>, GameError>)
        ensures
            res matches Err(e) ==> e.says_why(),
            match res {
                Ok(record) => record_of_id(self.field_types@, id@) == Some(*record) && record.id@ == id@,
                Err(e) => record_of_id(self.field_types@, id@) is None && e.kind
                    == GameFault::MissingResource,
            },
    {
        get_record(&self.field_types, id)
    }

    /// Adds a hero template. A record that has the same id is replaced.
    pub fn add_hero(&mut self, record: Resource<HeroData>)
        ensures
            match place_of_id(old(self).heroes@, record.id@) {
                Some(i) => final(self).heroes@ == old(self).heroes@.update(i, record),
                None => final(self).heroes@ == old(self).heroes@.push(record),
            },
            final(self).globals@ == old(self).globals@,
            final(self).origin_fields@ == old(self).origin_fields@,
            final(self).field_types@ == old(self).field_types@,
            final(self).quests@ == old(self).quests@,
            final(self).actions@ == old(self).actions@,
            old(self).wf() ==> final(self).wf(),
    {
        put_record(&mut self.heroes, record);
    }

    /// The hero template that has the id.
    pub fn get_hero(&self, id: &str) -> (res: Result<&Resource<HeroData>, GameError>)
        ensures
            res matches Err(e) ==> e.says_why(),
            match res {
                Ok(record) => record_of_id(self.heroes@, id@) == Some(*record) && record.id@ == id@,
                Err(e) => record_of_id(self.heroes@, id@) is None && e.kind
                    == GameFault::MissingResource,
            },
    {
        get_record(&self.heroes, id)
    }

    /// Adds a quest template. A record that has the same id is replaced.
    pub fn add_quest(&mut self, record: Resource<QuestData>)
        ensures
            match place_of_id(old(self).quests@, record.id@) {
                Some(i) => final(self).quests@ == old(self).quests@.update(i, record),
                None => final(self).quests@ == old(self).quests@.push(record),
            },
            final(self).globals@ == old(self).globals@,
            final(self).origin_fields@ == old(self).origin_fields@,
            final(self).field_types@ == old(self).field_types@,
            final(self).heroes@ == old(self).heroes@,
            final(self).actions@ == old(self).actions@,
            old(self).wf() ==> final(self).wf(),
    {
        put_record(&mut self.quests, record);
    }

    /// The quest template that has the id.
    pub fn get_quest(&self, id: &str) -> (res: Result<&Resource<QuestData>, GameError>)
        ensures
            res matches Err(e) ==> e.says_why(),
            match res {
                Ok(record) => record_of_id(self.quests@, id@) == Some(*record) && record.id@ == id@,
                Err(e) => record_of_id(self.quests@, id@) is None && e.kind
                    == GameFault::MissingResource,
            },
    {
        get_record(&self.quests, id)
    }

    /// Adds an action. A record that has the same id is replaced.
    pub fn add_action(&mut self, record: Resource<ActionData>)
        ensures
            match place_of_id(old(self).actions@, record.id@) {
                Some(i) => final(self).actions@ == old(self).actions@.update(i, record),
                None => final(self).actions@ == old(self).actions@.push(record),
            },
            final(self).globals@ == old(self).globals@,
            final(self).origin_fields@ == old(self).origin_fields@,
            final(self).field_types@ == old(self).field_types@,
            final(self).heroes@ == old(self).heroes@,
            final(self).quests@ == old(self).quests@,
            old(self).wf() ==> final(self).wf(),
    {
        put_record(&mut self.actions, record);
    }

    /// The action that has the id.
    pub fn get_action(&self, id: &str) -> (res: Result<&Resource<ActionData>, GameError>)
        ensures
            res matches Err(e) ==> e.says_why(),
            match res {
                Ok(record) => record_of_id(self.actions@, id@) == Some(*record) && record.id@ == id@,
                Err(e) => record_of_id(self.actions@, id@) is None && e.kind
                    == GameFault::MissingResource,
            },
    {
        get_record(&self.actions, id)
    }

    /// Whether no build-content of the catalog looks farther than `reach`
    /// steps from a tile.
    pub open spec fn reach_covers(&self, reach: nat) -> bool {
        forall|i: int, j: int|
            0 <= i < self.field_types@.len() && 0 <= j < self.field_types@[i].data.requirments@.len()
                ==> requirement_distance(#[trigger] &self.field_types@[i].data.requirments@[j])
                <= reach
    }

    /// The largest distance at which any build-content of the catalog looks at
    /// the surroundings of a tile; zero if none looks at them.
    pub fn build_reach(&self) -> (res: u32)
        ensures
            self.reach_covers(res as nat),
            res == 0 || exists|i: int, j: int|
                0 <= i < self.field_types@.len() && 0 <= j
                    < self.field_types@[i].data.requirments@.len() && requirement_distance(
                    #[trigger] &self.field_types@[i].data.requirments@[j],
                ) == res,
    {
        let mut res: u32 = 0;
        let mut i: usize = 0;
        while i < self.field_types.len()
            invariant
                i <= self.field_types@.len(),
                forall|k: int, j: int|
                    0 <= k < i && 0 <= j < self.field_types@[k].data.requirments@.len()
                        ==> requirement_distance(
                        #[trigger] &self.field_types@[k].data.requirments@[j],
                    ) <= res,
                res == 0 || exists|k: int, j: int|
                    0 <= k < self.field_types@.len() && 0 <= j
                        < self.field_types@[k].data.requirments@.len() && requirement_distance(
                        #[trigger] &self.field_types@[k].data.requirments@[j],
                    ) == res,
            decreases self.field_types@.len() - i,
        {
            let requirments = &self.field_types[i].data.requirments;
            let mut j: usize = 0;
            while j < requirments.len()
                invariant
                    i < self.field_types@.len(),
                    requirments == &self.field_types@[i as int].data.requirments,
                    j <= requirments@.len(),
                    forall|k: int, l: int|
                        0 <= k < i && 0 <= l < self.field_types@[k].data.requirments@.len()
                            ==> requirement_distance(
                            #[trigger] &self.field_types@[k].data.requirments@[l],
                        ) <= res,
                    forall|l: int|
                        0 <= l < j ==> requirement_distance(
                            #[trigger] &self.field_types@[i as int].data.requirments@[l],
                        ) <= res,
                    res == 0 || exists|k: int, l: int|
                        0 <= k < self.field_types@.len() && 0 <= l
                            < self.field_types@[k].data.requirments@.len()
                            && requirement_distance(
                            #[trigger] &self.field_types@[k].data.requirments@[l],
                        ) == res,
                decreases requirments@.len() - j,
            {
                let distance = distance_of(&requirments[j]);
                if distance > res {
                    res = distance;
                }
                j += 1;
            }
            i += 1;
        }
        res
    }

    /// The settings of the game: the first settings record.
    pub fn get_globals(&self) -> (res: Result<&Resource<Globals>, GameError>)
        ensures
            res matches Err(e) ==> e.says_why(),
            match res {
                Ok(record) => self.globals@.len() > 0 && *record == self.globals@[0],
                Err(e) => self.globals@.len() == 0 && e.kind == GameFault::NoGlobals,
            },
    {
        if self.globals.len() > 0 {
            Ok(&self.globals[0])
        } else {
            Err(GameError::of(GameFault::NoGlobals))
        }
    }
}

} // verus!
