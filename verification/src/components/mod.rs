//! What an entity of the game can carry: its name, health, race, stats, gear
//! and the way it blocks the path of others.

pub mod npc;
pub mod player;

use vstd::prelude::*;

verus! {

/// The name of a thing: a monster, the player, anything that is called something.
#[derive(Debug)]
pub struct ItemName(pub String);

impl ItemName {
    /// The name as text.
    pub fn to_text(&self) -> (text: String)
        ensures
            text@ == self.0@,
    {
        self.0.clone()
    }
}

#[derive(Debug)]
pub struct Level(pub i32);

#[derive(Debug, PartialEq, Eq, Structural)]
pub enum State {
    Idle,
    Moving,
    Attacking,
}

impl Default for State {
    fn default() -> (state: Self)
        ensures
            state == State::Idle,
    {
        Self::Idle
    }
}

/// How an entity stands in the way. Bumping into an enemy is an attack, the
/// other kinds just block the path.
#[derive(Clone, Copy, Debug, PartialEq, Eq, Structural)]
pub enum BlockingType {
    Wall,
    Obstacle,
    Enemy,
    Player,
}

/// Marks an entity that blocks the tile it stands on.
#[derive(Clone, Copy, Debug, PartialEq, Eq, Structural)]
pub struct Blocking {
    pub blocking_type: BlockingType,
}

impl Blocking {
    pub fn wall() -> (blocking: Self)
        ensures
            blocking.blocking_type == BlockingType::Wall,
    {
        Self { blocking_type: BlockingType::Wall }
    }

    pub fn obstacle() -> (blocking: Self)
        ensures
            blocking.blocking_type == BlockingType::Obstacle,
    {
        Self { blocking_type: BlockingType::Obstacle }
    }

    pub fn enemy() -> (blocking: Self)
        ensures
            blocking.blocking_type == BlockingType::Enemy,
    {
        Self { blocking_type: BlockingType::Enemy }
    }

    pub fn player() -> (blocking: Self)
        ensures
            blocking.blocking_type == BlockingType::Player,
    {
        Self { blocking_type: BlockingType::Player }
    }

    /// Whether walking into this entity attacks it. Only enemies can be attacked.
    pub open spec fn attackable(&self) -> bool {
        self.blocking_type == BlockingType::Enemy
    }

    /// Whether walking into this entity attacks it. Only enemies can be attacked.
    pub fn is_attackable(&self) -> (attackable: bool)
        ensures
            attackable == self.attackable(),
    {
        matches!(self.blocking_type, BlockingType::Enemy)
    }
}

/// The health of an entity: what it has now, the most it can have, and the
/// threshold at or below which it is dead.
#[derive(Clone, Copy, Debug, PartialEq, Eq, Structural)]
pub struct Health {
    pub current: i32,
    pub max: i32,
    pub min: i32,
}

impl Health {
    /// Full health.
    pub fn new(max: i32, min: i32) -> (health: Self)
        ensures
            health.current == max,
            health.max == max,
            health.min == min,
    {
        Health { current: max, max, min }
    }

    /// Whether the entity is dead: its health is at the threshold or below.
    pub open spec fn spent(&self) -> bool {
        self.current <= self.min
    }

    /// Whether the entity is dead: its health is at the threshold or below.
    pub fn is_spent(&self) -> (spent: bool)
        ensures
            spent == self.spent(),
    {
        self.current <= self.min
    }

    /// The health as the panels show it: the current and the greatest value
    /// in decimal, with " / " between them.
    pub fn to_ui_format(&self) -> (text: String)
        ensures
            text@ == decimal(self.current as int) + " / "@ + decimal(self.max as int),
    {
        let mut text = String::new();
        push_signed(&mut text, self.current);
        text.append(" / ");
        push_signed(&mut text, self.max);
        text
    }
}

/// The character of a decimal digit.
pub open spec fn digit_char(digit: int) -> char {
    if digit == 0 {
        '0'
    } else if digit == 1 {
        '1'
    } else if digit == 2 {
        '2'
    } else if digit == 3 {
        '3'
    } else if digit == 4 {
        '4'
    } else if digit == 5 {
        '5'
    } else if digit == 6 {
        '6'
    } else if digit == 7 {
        '7'
    } else if digit == 8 {
        '8'
    } else {
        '9'
    }
}

/// The decimal digits of a natural number, without leading zeros.
pub open spec fn decimal_nat(n: nat) -> Seq<char>
    decreases n,
{
    if n < 10 {
        seq![digit_char(n as int)]
    } else {
        decimal_nat(n / 10).push(digit_char((n % 10) as int))
    }
}

/// An integer in decimal, with a minus sign in front if it is negative.
pub open spec fn decimal(n: int) -> Seq<char> {
    if n < 0 {
        seq!['-'] + decimal_nat((-n) as nat)
    } else {
        decimal_nat(n as nat)
    }
}

fn digit_str(digit: u32) -> (text: &'static str)
    requires
        digit < 10,
    ensures
        text@ == seq![digit_char(digit as int)],
{
    proof {
        reveal_strlit("0");
        reveal_strlit("1");
        reveal_strlit("2");
        reveal_strlit("3");
        reveal_strlit("4");
        reveal_strlit("5");
        reveal_strlit("6");
        reveal_strlit("7");
        reveal_strlit("8");
        reveal_strlit("9");
    }
    let text = if digit == 0 {
        "0"
    } else if digit == 1 {
        "1"
    } else if digit == 2 {
        "2"
    } else if digit == 3 {
        "3"
    } else if digit == 4 {
        "4"
    } else if digit == 5 {
        "5"
    } else if digit == 6 {
        "6"
    } else if digit == 7 {
        "7"
    } else if digit == 8 {
        "8"
    } else {
        "9"
    };
    assert(text@ =~= seq![digit_char(digit as int)]);
    text
}

fn push_decimal(text: &mut String, n: u32)
    ensures
        final(text)@ == old(text)@ + decimal_nat(n as nat),
    decreases n,
{
    if n >= 10 {
        push_decimal(text, n / 10);
    }
    text.append(digit_str(n % 10));
    assert(text@ =~= old(text)@ + decimal_nat(n as nat));
}

fn push_signed(text: &mut String, n: i32)
    ensures
        final(text)@ == old(text)@ + decimal(n as int),
{
    if n < 0 {
        proof {
            reveal_strlit("-");
        }
        text.append("-");
        assert(text@ =~= old(text)@ + seq!['-']);
        let magnitude: u32 = if n == i32::MIN {
            2147483648
        } else {
            (-n) as u32
        };
        push_decimal(text, magnitude);
        assert(text@ =~= old(text)@ + decimal(n as int));
    } else {
        push_decimal(text, n as u32);
    }
}

/// Marks what is hostile to the player. It goes together with `Blocking::enemy()`.
#[derive(Clone, Copy, Debug)]
pub struct Enemy;

#[derive(Clone, Copy, Debug, PartialEq, Eq, Structural)]
pub enum Race {
    Unknown,
    Human,
    Elf,
    Orc,
    Goblin,
    Elemental,
}

impl Race {
    /// The name of the race as it is shown.
    pub open spec fn label(&self) -> Seq<char> {
        match self {
            Race::Unknown => "Unknown"@,
            Race::Human => "Human"@,
            Race::Elf => "Elf"@,
            Race::Orc => "Orc"@,
            Race::Goblin => "Goblin"@,
            Race::Elemental => "Elemental"@,
        }
    }

    /// The name of the race as it is shown.
    pub fn name(&self) -> (name: String)
        ensures
            name@ == self.label(),
    {
        match self {
            Race::Unknown => String::from_str("Unknown"),
            Race::Human => String::from_str("Human"),
            Race::Elf => String::from_str("Elf"),
            Race::Orc => String::from_str("Orc"),
            Race::Goblin => String::from_str("Goblin"),
            Race::Elemental => String::from_str("Elemental"),
        }
    }
}

/// How rare an item is. The rarer it is, the more it adds.
#[derive(Clone, Copy, Debug, PartialEq, Eq, Structural)]
pub enum Rarity {
    Damaged,
    Common,
    Uncommon,
    Rare,
    Epic,
    Legendary,
}

impl Rarity {
    /// What an item of this rarity adds.
    pub open spec fn bonus(&self) -> int {
        match self {
            Rarity::Damaged => -2,
            Rarity::Common => 0,
            Rarity::Uncommon => 1,
            Rarity::Rare => 4,
            Rarity::Epic => 7,
            Rarity::Legendary => 10,
        }
    }

    /// What an item of this rarity adds.
    pub fn get_bonus(&self) -> (bonus: i32)
        ensures
            bonus == self.bonus(),
    {
        match self {
            Rarity::Damaged => -2,
            Rarity::Common => 0,
            Rarity::Uncommon => 1,
            Rarity::Rare => 4,
            Rarity::Epic => 7,
            Rarity::Legendary => 10,
        }
    }
}

#[derive(Clone, Copy, Debug, PartialEq, Eq, Structural)]
pub enum WeaponType {
    Unarmed,
    Sword,
    TwoHandedSword,
    Mace,
    TwoHandedMace,
    Shield,
    Bow,
    Crossbow,
    Gun,
}

#[derive(Clone, Copy, Debug, PartialEq, Eq, Structural)]
pub struct Strength(pub usize);

#[derive(Clone, Copy, Debug, PartialEq, Eq, Structural)]
pub struct Agility(pub usize);

#[derive(Clone, Copy, Debug, PartialEq, Eq, Structural)]
pub struct Endurance(pub usize);

#[derive(Clone, Copy, Debug, PartialEq, Eq, Structural)]
pub struct Intelligence(pub usize);

impl Strength {
    pub fn inner(&self) -> (value: usize)
        ensures
            value == self.0,
    {
        self.0
    }
}

impl Agility {
    pub fn inner(&self) -> (value: usize)
        ensures
            value == self.0,
    {
        self.0
    }
}

impl Endurance {
    pub fn inner(&self) -> (value: usize)
        ensures
            value == self.0,
    {
        self.0
    }
}

impl Intelligence {
    pub fn inner(&self) -> (value: usize)
        ensures
            value == self.0,
    {
        self.0
    }
}

/// The four stats of a character.
#[derive(Clone, Copy, Debug, PartialEq, Eq, Structural)]
pub struct Stats {
    pub strength: Strength,
    pub agility: Agility,
    pub endurance: Endurance,
    pub intelligence: Intelligence,
}

impl Stats {
    pub fn new(strength: usize, agility: usize, endurance: usize, intelligence: usize) -> (stats:
        Self)
        ensures
            stats.strength.0 == strength,
            stats.agility.0 == agility,
            stats.endurance.0 == endurance,
            stats.intelligence.0 == intelligence,
    {
        Stats {
            strength: Strength(strength),
            agility: Agility(agility),
            endurance: Endurance(endurance),
            intelligence: Intelligence(intelligence),
        }
    }
}

#[derive(Debug)]
pub enum WeaponBonusType {
    Strength(Strength),
    Agility(Agility),
    Endurance(Endurance),
    Intelligence(Intelligence),
}

#[derive(Debug)]
pub enum WeaponRangeType {
    Ranged(i32, i32),
    Melee,
    Aoe,
}

#[derive(Debug)]
pub struct Weapon {
    pub name: String,
    pub attack_range: WeaponRangeType,
    pub rarity: Rarity,
    pub min: usize,
    pub max: usize,
    pub bonuses: Option<Vec<WeaponBonusType>>,
}

#[derive(Clone, Copy, Debug, PartialEq, Eq, Structural)]
pub enum ArmorType {
    Head,
    Torso,
    Hands,
    Legs,
    Feet,
}

#[derive(Debug)]
pub struct Armor {
    pub name: String,
    pub rarity: Rarity,
    pub kind: ArmorType,
    pub defense: usize,
}

/// Marks an entity whose health has run out, until it is taken off the map.
#[derive(Clone, Copy, Debug)]
pub struct Dead;

} // verus!
