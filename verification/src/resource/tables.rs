//! Small tables keyed by a resource kind or by a skill.
//!
//! Each table has one slot per key, so a key is either absent or bound to
//! exactly one value, and walking a table visits the keys in their order of
//! declaration.

use vstd::prelude::*;
use crate::quantity::{add_quantities, award, awarded, saturated, UNIT};
use crate::resource::enums::{GResource, HeroSkill, RESOURCE_KINDS, SKILL_KINDS};

verus! {

/// Amounts of resources, by kind. A kind may be absent.
#[derive(Debug, Clone, Copy)]
pub struct Ledger {
    pub slots: [Option<u32>; 9],
}

impl View for Ledger {
    type V = Map<GResource, u32>;

    open spec fn view(&self) -> Map<GResource, u32> {
        Map::new(
            |kind: GResource| self.slots[kind.spec_index()] is Some,
            |kind: GResource| self.slots[kind.spec_index()]->0,
        )
    }
}

impl Ledger {
    /// A ledger that holds no kind.
    pub fn new() -> (res: Ledger)
        ensures
            res@ == Map::<GResource, u32>::empty(),
    {
        let res = Ledger { slots: [None; 9] };
        assert(res@ =~= Map::<GResource, u32>::empty());
        res
    }

    /// The amount held of `kind`, if the ledger holds the kind.
    pub fn get(&self, kind: GResource) -> (res: Option<u32>)
        ensures
            res == self@.get(kind),
    {
        self.slots[kind.index()]
    }

    /// Binds `kind` to `amount`, whether or not the kind was held before.
    pub fn insert(&mut self, kind: GResource, amount: u32)
        ensures
            final(self)@ == old(self)@.insert(kind, amount),
    {
        self.slots[kind.index()] = Some(amount);
        assert(self@ =~= old(self)@.insert(kind, amount));
    }

    /// The ledger with every kind it lacks added at amount zero.
    pub fn filled(&self) -> (res: Ledger)
        ensures
            forall|kind: GResource| #[trigger] res@.contains_key(kind),
            forall|kind: GResource|
                #[trigger] res@[kind] == (if self@.contains_key(kind) {
                    self@[kind]
                } else {
                    0
                }),
    {
        let mut res = *self;
        let mut i: usize = 0;
        while i < RESOURCE_KINDS
            invariant
                i <= RESOURCE_KINDS,
                forall|j: int| 0 <= j < i ==> #[trigger] res.slots[j] is Some,
                forall|j: int|
                    0 <= j < 9 ==> #[trigger] res.slots[j] == (if self.slots[j] is Some || j >= i {
                        self.slots[j]
                    } else {
                        Some(0u32)
                    }),
            decreases RESOURCE_KINDS - i,
        {
            if res.slots[i].is_none() {
                res.slots[i] = Some(0);
            }
            i += 1;
        }
        res
    }
}

/// The levels after each skill that both tables hold is raised by its delta,
/// within the range of a quantity. No skill is added or removed.
pub open spec fn raised(levels: Map<HeroSkill, i64>, deltas: Map<HeroSkill, i64>) -> Map<
    HeroSkill,
    i64,
> {
    Map::new(
        |skill: HeroSkill| levels.contains_key(skill),
        |skill: HeroSkill|
            if deltas.contains_key(skill) {
                saturated(levels[skill] + deltas[skill]) as i64
            } else {
                levels[skill]
            },
    )
}

/// The points after a roll is counted: each skill for which `ranges` holds a
/// range gains the value the roll selects in the range, weighted by the
/// modifier of the skill, or by one whole if the skill has no modifier. A
/// skill without points so far starts at zero.
pub open spec fn accrued(
    points: Map<HeroSkill, i64>,
    modifiers: Map<HeroSkill, i64>,
    ranges: Map<HeroSkill, (i64, i64)>,
    roll: int,
) -> Map<HeroSkill, i64> {
    Map::new(
        |skill: HeroSkill| points.contains_key(skill) || ranges.contains_key(skill),
        |skill: HeroSkill|
            if ranges.contains_key(skill) {
                saturated(
                    (if points.contains_key(skill) {
                        points[skill] as int
                    } else {
                        0
                    }) + awarded(
                        if modifiers.contains_key(skill) {
                            modifiers[skill] as int
                        } else {
                            UNIT as int
                        },
                        ranges[skill].0 as int,
                        ranges[skill].1 as int,
                        roll,
                    ),
                ) as i64
            } else {
                points[skill]
            },
    )
}

/// Skill levels, modifiers or points, by skill. A skill may be absent.
#[derive(Debug, Clone, Copy)]
pub struct SkillLevels {
    pub slots: [Option<i64>; 9],
}

impl View for SkillLevels {
    type V = Map<HeroSkill, i64>;

    open spec fn view(&self) -> Map<HeroSkill, i64> {
        Map::new(
            |skill: HeroSkill| self.slots[skill.spec_index()] is Some,
            |skill: HeroSkill| self.slots[skill.spec_index()]->0,
        )
    }
}

impl SkillLevels {
    /// A table that holds no skill.
    pub fn new() -> (res: SkillLevels)
        ensures
            res@ == Map::<HeroSkill, i64>::empty(),
    {
        let res = SkillLevels { slots: [None; 9] };
        assert(res@ =~= Map::<HeroSkill, i64>::empty());
        res
    }

    /// The level held for `skill`, if the table holds the skill.
    pub fn get(&self, skill: HeroSkill) -> (res: Option<i64>)
        ensures
            res == self@.get(skill),
    {
        self.slots[skill.index()]
    }

    /// Binds `skill` to `level`, whether or not the skill was held before.
    pub fn insert(&mut self, skill: HeroSkill, level: i64)
        ensures
            final(self)@ == old(self)@.insert(skill, level),
    {
        self.slots[skill.index()] = Some(level);
        assert(self@ =~= old(self)@.insert(skill, level));
    }

    /// The table with every skill it lacks added at `level`.
    pub fn filled(&self, level: i64) -> (res: SkillLevels)
        ensures
            forall|skill: HeroSkill| #[trigger] res@.contains_key(skill),
            forall|skill: HeroSkill|
                #[trigger] res@[skill] == (if self@.contains_key(skill) {
                    self@[skill]
                } else {
                    level
                }),
    {
        let mut res = *self;
        let mut i: usize = 0;
        while i < SKILL_KINDS
            invariant
                i <= SKILL_KINDS,
                forall|j: int| 0 <= j < i ==> #[trigger] res.slots[j] is Some,
                forall|j: int|
                    0 <= j < 9 ==> #[trigger] res.slots[j] == (if self.slots[j] is Some || j >= i {
                        self.slots[j]
                    } else {
                        Some(level)
                    }),
            decreases SKILL_KINDS - i,
        {
            if res.slots[i].is_none() {
                res.slots[i] = Some(level);
            }
            i += 1;
        }
        res
    }
}

impl SkillLevels {
    /// Raises each skill that both tables hold by its delta.
    pub fn raise(&mut self, deltas: &SkillLevels)
        ensures
            final(self)@ == raised(old(self)@, deltas@),
    {
        let mut i: usize = 0;
        while i < SKILL_KINDS
            invariant
                i <= SKILL_KINDS,
                forall|j: int|
                    0 <= j < 9 ==> #[trigger] self.slots[j] == (if j < i && old(self).slots[j]
                        is Some && deltas.slots[j] is Some {
                        Some(saturated(old(self).slots[j]->0 + deltas.slots[j]->0) as i64)
                    } else {
                        old(self).slots[j]
                    }),
            decreases SKILL_KINDS - i,
        {
            match (self.slots[i], deltas.slots[i]) {
                (Some(level), Some(delta)) => {
                    self.slots[i] = Some(add_quantities(level, delta));
                },
                _ => {},
            }
            i += 1;
        }
        assert(self@ =~= raised(old(self)@, deltas@));
    }

    /// Counts a roll into the points: see `accrued`.
    pub fn accrue(&mut self, modifiers: &SkillLevels, ranges: &SkillRanges, roll: i64)
        requires
            0 <= roll < UNIT,
        ensures
            final(self)@ == accrued(old(self)@, modifiers@, ranges@, roll as int),
    {
        let mut i: usize = 0;
        while i < SKILL_KINDS
            invariant
                0 <= roll < UNIT,
                i <= SKILL_KINDS,
                forall|j: int|
                    0 <= j < 9 ==> #[trigger] self.slots[j] == (if j < i && ranges.slots[j]
                        is Some {
                        Some(
                            saturated(
                                (if old(self).slots[j] is Some {
                                    old(self).slots[j]->0 as int
                                } else {
                                    0
                                }) + awarded(
                                    if modifiers.slots[j] is Some {
                                        modifiers.slots[j]->0 as int
                                    } else {
                                        UNIT as int
                                    },
                                    (ranges.slots[j]->0).0 as int,
                                    (ranges.slots[j]->0).1 as int,
                                    roll as int,
                                ),
                            ) as i64,
                        )
                    } else {
                        old(self).slots[j]
                    }),
            decreases SKILL_KINDS - i,
        {
            match ranges.slots[i] {
                Some((min, max)) => {
                    let modifier = match modifiers.slots[i] {
                        Some(modifier) => modifier,
                        None => UNIT,
                    };
                    let so_far = match self.slots[i] {
                        Some(points) => points,
                        None => 0,
                    };
                    self.slots[i] = Some(add_quantities(so_far, award(modifier, min, max, roll)));
                },
                None => {},
            }
            i += 1;
        }
        assert(self@ =~= accrued(old(self)@, modifiers@, ranges@, roll as int));
    }
}

/// Ranges of points `(min, max)`, by skill. A skill may be absent.
#[derive(Debug, Clone, Copy)]
pub struct SkillRanges {
    pub slots: [Option<(i64, i64)>; 9],
}

impl View for SkillRanges {
    type V = Map<HeroSkill, (i64, i64)>;

    open spec fn view(&self) -> Map<HeroSkill, (i64, i64)> {
        Map::new(
            |skill: HeroSkill| self.slots[skill.spec_index()] is Some,
            |skill: HeroSkill| self.slots[skill.spec_index()]->0,
        )
    }
}

impl SkillRanges {
    /// A table that holds no skill.
    pub fn new() -> (res: SkillRanges)
        ensures
            res@ == Map::<HeroSkill, (i64, i64)>::empty(),
    {
        let res = SkillRanges { slots: [None; 9] };
        assert(res@ =~= Map::<HeroSkill, (i64, i64)>::empty());
        res
    }

    /// The range held for `skill`, if the table holds the skill.
    pub fn get(&self, skill: HeroSkill) -> (res: Option<(i64, i64)>)
        ensures
            res == self@.get(skill),
    {
        self.slots[skill.index()]
    }

    /// Binds `skill` to the range from `min` to `max`.
    pub fn insert(&mut self, skill: HeroSkill, min: i64, max: i64)
        ensures
            final(self)@ == old(self)@.insert(skill, (min, max)),
    {
        self.slots[skill.index()] = Some((min, max));
        assert(self@ =~= old(self)@.insert(skill, (min, max)));
    }
}

} // verus!
