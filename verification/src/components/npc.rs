//! Monsters: their strength tiers and the bundle a melee monster is made of.

use crate::components::{Blocking, BlockingType, Enemy, Health, ItemName, Level, Race, Stats};
use crate::random::random_u32;
use vstd::prelude::*;

verus! {

/// How strong a monster is, from the weakest tier to the strongest.
#[derive(Copy, Clone, Debug, PartialEq, Eq, Structural)]
pub enum MonsterStrength {
    Weak,
    Normal,
    Strong,
    Elite,
    Veteran,
    Leader,
    Boss,
}

/// The tier that a roll gives, the roll counted in hundredths: above 90 a
/// boss, above 80 a veteran, above 70 elite, above 60 strong, above 30 normal,
/// else weak. No roll gives a leader.
pub open spec fn tier_of_roll(roll: int) -> MonsterStrength {
    if roll > 90 {
        MonsterStrength::Boss
    } else if roll > 80 {
        MonsterStrength::Veteran
    } else if roll > 70 {
        MonsterStrength::Elite
    } else if roll > 60 {
        MonsterStrength::Strong
    } else if roll > 30 {
        MonsterStrength::Normal
    } else {
        MonsterStrength::Weak
    }
}

/// Whether `tier` is one that a random roll gives. A roll is one of the
/// hundredths from 1 to 100, each as likely as the other, so a tenth of the
/// rolls give a boss and three tenths a weak monster.
pub open spec fn is_rolled(tier: MonsterStrength) -> bool {
    exists|roll: int| 1 <= roll <= 100 && tier == #[trigger] tier_of_roll(roll)
}

impl MonsterStrength {
    /// The rank of the tier: tiers are ordered from `Weak`, 0, to `Boss`, 6.
    pub open spec fn rank(self) -> int {
        match self {
            MonsterStrength::Weak => 0,
            MonsterStrength::Normal => 1,
            MonsterStrength::Strong => 2,
            MonsterStrength::Elite => 3,
            MonsterStrength::Veteran => 4,
            MonsterStrength::Leader => 5,
            MonsterStrength::Boss => 6,
        }
    }

    /// What the tier adds to the level of a monster.
    pub open spec fn level_bonus(self) -> int {
        match self {
            MonsterStrength::Weak => -1,
            MonsterStrength::Normal => 0,
            MonsterStrength::Leader => 0,
            MonsterStrength::Strong => 1,
            MonsterStrength::Elite => 2,
            MonsterStrength::Veteran => 3,
            MonsterStrength::Boss => 5,
        }
    }

    /// The tier for a roll between 0 and 1, given in hundredths.
    pub fn new(n: u32) -> (tier: MonsterStrength)
        requires
            n <= 100,
        ensures
            tier == tier_of_roll(n as int),
    {
        if n > 90 {
            MonsterStrength::Boss
        } else if n > 80 {
            MonsterStrength::Veteran
        } else if n > 70 {
            MonsterStrength::Elite
        } else if n > 60 {
            MonsterStrength::Strong
        } else if n > 30 {
            MonsterStrength::Normal
        } else {
            MonsterStrength::Weak
        }
    }

    /// What the tier adds to the level of a monster.
    pub fn get_level_bonus(&self) -> (bonus: i32)
        ensures
            bonus == self.level_bonus(),
    {
        match self {
            MonsterStrength::Weak => -1,
            MonsterStrength::Normal | MonsterStrength::Leader => 0,
            MonsterStrength::Strong => 1,
            MonsterStrength::Elite => 2,
            MonsterStrength::Veteran => 3,
            MonsterStrength::Boss => 5,
        }
    }

    /// The tier for a roll drawn at random. Whatever is drawn, it is a tier
    /// that some roll gives.
    pub fn random() -> (tier: MonsterStrength)
        ensures
            is_rolled(tier),
    {
        let roll = random_u32(1, 100);
        let tier = Self::new(roll);
        assert(tier == tier_of_roll(roll as int));
        tier
    }
}

/// All that a monster that fights hand to hand is made of.
#[derive(Debug)]
pub struct MeleeEnemy {
    pub health: Health,
    pub name: ItemName,
    pub race: Race,
    pub level: Level,
    pub monster_strength: MonsterStrength,
    pub blocking: Blocking,
    pub _h: Enemy,
    pub stats: Stats,
}

impl MeleeEnemy {
    /// A new monster at full health. Its strength tier is drawn at random.
    pub fn new(name: String, max_health: usize, race: Race, level: usize, stats: Stats) -> (enemy:
        Self)
        ensures
            enemy.name.0@ == name@,
            enemy.health == (Health { current: max_health as i32, max: max_health as i32, min: 0 }),
            enemy.race == race,
            enemy.level.0 == level as i32,
            enemy.blocking.blocking_type == BlockingType::Enemy,
            enemy.stats == stats,
            is_rolled(enemy.monster_strength),
    {
        MeleeEnemy {
            name: ItemName(name),
            health: Health::new(max_health as i32, 0),
            race,
            level: Level(level as i32),
            monster_strength: MonsterStrength::random(),
            blocking: Blocking::enemy(),
            _h: Enemy,
            stats,
        }
    }
}

} // verus!
