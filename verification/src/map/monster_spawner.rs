//! Plans where monsters stand: on floor tiles, no two on one tile, and only
//! as many as the weight budget of the floor allows.

use crate::components::npc::{is_rolled, MeleeEnemy, MonsterStrength};
use crate::components::{BlockingType, Race, Stats};
use crate::map::is_floor;
use crate::position::GridPos;
use crate::random::{random_index, random_u32};
use crate::tile::{TileSet, TileType};
use std::hash::{Hash, Hasher};
use vstd::prelude::*;
use vstd::std_specs::cmp::PartialEqSpecImpl;

verus! {

/// A monster that is planned for a coordinate. Two monsters are the same
/// monster when they stand on the same coordinate, whatever their strength:
/// equality and hashing read the coordinate only.
#[derive(Clone, Copy, Debug)]
pub struct Monster {
    pub strength: MonsterStrength,
    pub pos: GridPos,
}

impl PartialEq for Monster {
    fn eq(&self, other: &Self) -> (same: bool) {
        self.pos.x == other.pos.x && self.pos.y == other.pos.y
    }
}

impl PartialEqSpecImpl for Monster {
    open spec fn obeys_eq_spec() -> bool {
        true
    }

    open spec fn eq_spec(&self, other: &Self) -> bool {
        self.pos.x == other.pos.x && self.pos.y == other.pos.y
    }
}

impl Eq for Monster {

}

impl Hash for Monster {
    fn hash<H: Hasher>(&self, state: &mut H) {
        self.pos.y.hash(state);
        self.pos.x.hash(state);
    }
}

/// What a monster of this strength takes from the weight budget, before doubling.
pub open spec fn weight_of(strength: MonsterStrength) -> int {
    match strength {
        MonsterStrength::Weak => 2,
        MonsterStrength::Normal => 3,
        MonsterStrength::Strong => 4,
        MonsterStrength::Elite => 5,
        MonsterStrength::Veteran => 6,
        MonsterStrength::Leader => 7,
        MonsterStrength::Boss => 10,
    }
}

/// What a monster of this strength takes from the weight budget, before doubling.
pub fn monster_weight(monster_strength: MonsterStrength) -> (weight: i32)
    ensures
        weight == weight_of(monster_strength),
{
    match monster_strength {
        MonsterStrength::Weak => 2,
        MonsterStrength::Normal => 3,
        MonsterStrength::Strong => 4,
        MonsterStrength::Elite => 5,
        MonsterStrength::Veteran => 6,
        MonsterStrength::Leader => 7,
        MonsterStrength::Boss => 10,
    }
}

/// The stronger a monster, the heavier it weighs on the budget, so the more
/// strong monsters are placed the fewer monsters the floor takes.
pub proof fn lemma_stronger_is_heavier(weaker: MonsterStrength, stronger: MonsterStrength)
    requires
        weaker.rank() < stronger.rank(),
    ensures
        weight_of(weaker) < weight_of(stronger),
{
}

impl Monster {
    pub fn new(pos: GridPos, strength: MonsterStrength) -> (monster: Self)
        ensures
            monster.pos == pos,
            monster.strength == strength,
    {
        Monster { strength, pos }
    }

    pub fn weight(&self) -> (weight: i32)
        ensures
            weight == weight_of(self.strength),
    {
        monster_weight(self.strength)
    }
}

/// The strength of the monster that is spawned when `count` monsters stand
/// already. Of the rules that apply the first decides: every 33rd is a
/// veteran, every 13th elite, every 7th strong, every 3rd normal; the very
/// first and all others are weak.
pub open spec fn tier_for_count(count: int) -> MonsterStrength {
    if count == 0 {
        MonsterStrength::Weak
    } else if count % 33 == 0 {
        MonsterStrength::Veteran
    } else if count % 13 == 0 {
        MonsterStrength::Elite
    } else if count % 7 == 0 {
        MonsterStrength::Strong
    } else if count % 3 == 0 {
        MonsterStrength::Normal
    } else {
        MonsterStrength::Weak
    }
}

/// The strength of the monster that is spawned when `count` monsters stand already.
pub fn strength_for_count(count: u32) -> (strength: MonsterStrength)
    ensures
        strength == tier_for_count(count as int),
{
    if count == 0 {
        MonsterStrength::Weak
    } else if count % 33 == 0 {
        MonsterStrength::Veteran
    } else if count % 13 == 0 {
        MonsterStrength::Elite
    } else if count % 7 == 0 {
        MonsterStrength::Strong
    } else if count % 3 == 0 {
        MonsterStrength::Normal
    } else {
        MonsterStrength::Weak
    }
}

/// What the spawn at running count `count` takes from the budget: twice the
/// weight of its strength.
pub open spec fn step_cost(count: int) -> int {
    2 * weight_of(tier_for_count(count))
}

/// What `n` spawns in a row take from the budget, the first of them at
/// running count `first`.
pub open spec fn cost_of(first: int, n: int) -> int
    decreases n,
{
    if n <= 0 {
        0
    } else {
        cost_of(first, n - 1) + step_cost(first + n - 1)
    }
}

/// The weight budget for a floor of `floor_tiles` tiles: half of them, in
/// whole units.
pub open spec fn weight_budget(floor_tiles: int) -> int {
    if floor_tiles / 2 > i32::MAX {
        i32::MAX as int
    } else {
        floor_tiles / 2
    }
}

/// The number of floor tiles of `tiles`.
pub open spec fn floor_count(tiles: Map<GridPos, TileType>) -> int {
    Set::new(|p: GridPos| is_floor(tiles, p)).len() as int
}

/// `monsters` after a monster was put on each coordinate of `placed` in turn,
/// the first of them at running count `first`.
pub open spec fn placed_on(
    monsters: Map<GridPos, MonsterStrength>,
    placed: Seq<GridPos>,
    first: int,
) -> Map<GridPos, MonsterStrength>
    decreases placed.len(),
{
    if placed.len() == 0 {
        monsters
    } else {
        placed_on(monsters, placed.drop_last(), first).insert(
            placed.last(),
            tier_for_count(first + placed.len() - 1),
        )
    }
}

/// Every spawn costs at least four units and at most twenty.
pub proof fn lemma_cost_bounds(first: int, n: int)
    requires
        0 <= n,
    ensures
        4 * n <= cost_of(first, n) <= 20 * n,
    decreases n,
{
    if n > 0 {
        lemma_cost_bounds(first, n - 1);
    }
}

/// Putting monsters on free coordinates changes none that stood before and
/// adds exactly the coordinates of `placed`.
pub proof fn lemma_placed_on(
    monsters: Map<GridPos, MonsterStrength>,
    placed: Seq<GridPos>,
    first: int,
    p: GridPos,
)
    ensures
        placed_on(monsters, placed, first).contains_key(p) <==> monsters.contains_key(p)
            || placed.contains(p),
        !placed.contains(p) && monsters.contains_key(p) ==> placed_on(monsters, placed, first)[p]
            == monsters[p],
    decreases placed.len(),
{
    if placed.len() > 0 {
        let rest = placed.drop_last();
        lemma_placed_on(monsters, rest, first, p);
        if placed.contains(p) {
            let k = choose|k: int| 0 <= k < placed.len() && placed[k] == p;
            if k < rest.len() {
                assert(rest[k] == p);
            }
        }
        if rest.contains(p) {
            let k = choose|k: int| 0 <= k < rest.len() && rest[k] == p;
            assert(placed[k] == p);
        }
        if placed.last() == p {
            assert(placed[placed.len() - 1] == p);
        }
    }
}

/// The planned monsters, at most one per coordinate. It is a hash set of the
/// `bevy` utilities, keyed by the monsters' own notion of equality.
#[verifier::external_body]
pub struct MonsterSet {
    inner: bevy::utils::HashSet<Monster>,
}

/// What a monster set holds: the strength of the one monster at each
/// coordinate that is taken.
pub uninterp spec fn monster_set_contents(set: MonsterSet) -> Map<GridPos, MonsterStrength>;

/// `Default::default` of hashbrown's `HashSet`, through bevy's alias: a set
/// without items.
#[verifier::external_body]
fn monster_set_empty() -> (set: MonsterSet)
    ensures
        (monster_set_contents(set) == Map::<GridPos, MonsterStrength>::empty()),
{
    MonsterSet { inner: Default::default() }
}

/// `HashSet::insert` of hashbrown: adds the monster unless the set holds a
/// monster equal to it, that is one on the same coordinate; the monster
/// already there stays as it is. Returns whether the monster was added.
#[verifier::external_body]
fn monster_set_insert(set: &mut MonsterSet, monster: Monster) -> (added: bool)
    ensures
        added == !monster_set_contents(*old(set)).contains_key(monster.pos),
        monster_set_contents(*final(set)) == if added {
            monster_set_contents(*old(set)).insert(monster.pos, monster.strength)
        } else {
            monster_set_contents(*old(set))
        },
{
    set.inner.insert(monster)
}

/// `HashSet::iter` of hashbrown, each item copied into a vector: every
/// monster of the set once, in an order that is not specified.
#[verifier::external_body]
fn monster_set_items(set: &MonsterSet) -> (monsters: Vec<Monster>)
    ensures
        forall|i: int|
            0 <= i < monsters@.len() ==> monster_set_contents(*set).contains_key(
                #[trigger] monsters@[i].pos,
            ) && monster_set_contents(*set)[monsters@[i].pos] == monsters@[i].strength,
        (forall|i: int, j: int|
            0 <= i < j < monsters@.len() ==> #[trigger] monsters@[i].pos
                != #[trigger] monsters@[j].pos),
        forall|p: GridPos| #[trigger]
            monster_set_contents(*set).contains_key(p) ==> exists|i: int|
                0 <= i < monsters@.len() && #[trigger] monsters@[i].pos == p,
{
    set.inner.iter().copied().collect()
}

impl View for MonsterSet {
    type V = Map<GridPos, MonsterStrength>;

    open spec fn view(&self) -> Map<GridPos, MonsterStrength> {
        monster_set_contents(*self)
    }
}

/// Plans the monsters of a map.
pub struct Spawner {
    monster_count: u32,
    monster_set: MonsterSet,
}

/// What one run of the spawner over `tiles` has done, when it put a monster
/// on each coordinate of `placed` in turn. Before the run `first` monsters
/// were counted and `before` stood; after it `count` are counted and `after`
/// stand. Every coordinate of `placed` is a floor tile that was free, none
/// is taken twice, the monsters that stood before stand as they did. The
/// weight budget still had room when the last of them was spawned; and the
/// run went on until the budget was overdrawn, or until no floor tile was
/// left without a monster.
pub open spec fn spawned(
    first: int,
    before: Map<GridPos, MonsterStrength>,
    count: int,
    after: Map<GridPos, MonsterStrength>,
    tiles: Map<GridPos, TileType>,
    placed: Seq<GridPos>,
) -> bool {
    let budget = weight_budget(floor_count(tiles));
    &&& count == first + placed.len()
    &&& placed.no_duplicates()
    &&& forall|j: int|
        0 <= j < placed.len() ==> is_floor(tiles, #[trigger] placed[j]) && !before.contains_key(
            placed[j],
        )
    &&& after == placed_on(before, placed, first)
    &&& placed.len() == 0 || cost_of(first, placed.len() - 1) <= budget
    &&& cost_of(first, placed.len() as int) > budget || forall|p: GridPos|
        is_floor(tiles, p) ==> #[trigger] after.contains_key(p)
}

proof fn lemma_swap_remove(s: Seq<GridPos>, i: int)
    requires
        0 <= i < s.len(),
        s.no_duplicates(),
    ensures
        s.update(i, s.last()).drop_last().no_duplicates(),
        forall|k: int|
            0 <= k < s.len() - 1 ==> s.contains(#[trigger] s.update(i, s.last()).drop_last()[k])
                && s.update(i, s.last()).drop_last()[k] != s[i],
        forall|p: GridPos|
            s.contains(p) && p != s[i] ==> #[trigger] s.update(i, s.last()).drop_last().contains(p),
{
    let r = s.update(i, s.last()).drop_last();
    assert forall|k: int| 0 <= k < r.len() implies s.contains(#[trigger] r[k]) && r[k] != s[i] by {
        if k == i {
            assert(r[k] == s[s.len() - 1]);
        } else {
            assert(r[k] == s[k]);
        }
    }
    assert forall|p: GridPos| s.contains(p) && p != s[i] implies #[trigger] r.contains(p) by {
        let k = choose|k: int| 0 <= k < s.len() && s[k] == p;
        if k == s.len() - 1 {
            assert(r[i] == p);
        } else {
            assert(r[k] == p);
        }
    }
    assert forall|a: int, b: int| 0 <= a < r.len() && 0 <= b < r.len() && a != b implies r[a]
        != r[b] by {
        let a0 = if a == i {
            s.len() - 1
        } else {
            a
        };
        let b0 = if b == i {
            s.len() - 1
        } else {
            b
        };
        assert(r[a] == s[a0] && r[b] == s[b0]);
    }
}

proof fn lemma_floor_count(tiles: Map<GridPos, TileType>, free: Seq<GridPos>)
    requires
        free.no_duplicates(),
        forall|k: int| 0 <= k < free.len() ==> is_floor(tiles, #[trigger] free[k]),
        forall|p: GridPos| is_floor(tiles, p) ==> #[trigger] free.contains(p),
    ensures
        floor_count(tiles) == free.len(),
{
    free.unique_seq_to_set();
    assert(free.to_set() =~= Set::new(|p: GridPos| is_floor(tiles, p)));
}

/// The coordinates of the floor tiles of `tiles`, each once, in an order that
/// is not specified.
pub fn floor_positions(tiles: &TileSet) -> (free: Vec<GridPos>)
    ensures
        free@.no_duplicates(),
        forall|k: int| 0 <= k < free@.len() ==> is_floor(tiles@, #[trigger] free@[k]),
        forall|p: GridPos| is_floor(tiles@, p) ==> #[trigger] free@.contains(p),
        free@.len() == floor_count(tiles@),
{
    let all = tiles.tiles();
    let mut free: Vec<GridPos> = Vec::new();
    let mut i: usize = 0;
    while i < all.len()
        invariant
            i <= all@.len(),
            free@.no_duplicates(),
            forall|a: int, b: int|
                0 <= a < b < all@.len() ==> #[trigger] all@[a].pos != #[trigger] all@[b].pos,
            forall|k: int|
                0 <= k < all@.len() ==> tiles@.contains_key(#[trigger] all@[k].pos)
                    && tiles@[all@[k].pos] == all@[k].kind,
            forall|k: int|
                0 <= k < free@.len() ==> is_floor(tiles@, #[trigger] free@[k]) && exists|a: int|
                    0 <= a < i && #[trigger] all@[a].pos == free@[k],
            forall|a: int|
                0 <= a < i && all@[a].kind == TileType::Floor ==> free@.contains(
                    #[trigger] all@[a].pos,
                ),
        decreases all@.len() - i,
    {
        let tile = all[i];
        match tile.kind {
            TileType::Floor => {
                let ghost before = free@;
                free.push(tile.pos);
                proof {
                    assert forall|a: int, b: int|
                        0 <= a < free@.len() && 0 <= b < free@.len() && a != b implies free@[a]
                        != free@[b] by {
                        if a < before.len() && b < before.len() {
                            assert(before[a] != before[b]);
                        } else if a < before.len() {
                            let w = choose|w: int| 0 <= w < i && #[trigger] all@[w].pos == before[a];
                            assert(all@[w].pos != all@[i as int].pos);
                        } else if b < before.len() {
                            let w = choose|w: int| 0 <= w < i && #[trigger] all@[w].pos == before[b];
                            assert(all@[w].pos != all@[i as int].pos);
                        }
                    }
                    assert forall|k: int| 0 <= k < free@.len() implies is_floor(
                        tiles@,
                        #[trigger] free@[k],
                    ) && exists|a: int| 0 <= a < i + 1 && #[trigger] all@[a].pos == free@[k] by {
                        if k < before.len() {
                            assert(free@[k] == before[k]);
                            let w = choose|w: int| 0 <= w < i && #[trigger] all@[w].pos == before[k];
                            assert(all@[w].pos == free@[k]);
                        } else {
                            assert(all@[i as int].pos == free@[k]);
                        }
                    }
                    assert forall|a: int|
                        0 <= a < i + 1 && all@[a].kind == TileType::Floor implies free@.contains(
                        #[trigger] all@[a].pos,
                    ) by {
                        if a < i {
                            let k = choose|k: int|
                                0 <= k < before.len() && before[k] == all@[a].pos;
                            assert(free@[k] == all@[a].pos);
                        } else {
                            assert(free@[before.len() as int] == all@[a].pos);
                        }
                    }
                }
            },
            TileType::Wall => {},
        }
        i += 1;
    }
    proof {
        assert forall|p: GridPos| is_floor(tiles@, p) implies #[trigger] free@.contains(p) by {
            let a = choose|a: int| 0 <= a < all@.len() && #[trigger] all@[a].pos == p;
            assert(free@.contains(all@[a].pos));
        }
        lemma_floor_count(tiles@, free@);
    }
    free
}

impl Spawner {
    /// How many monsters the spawner has placed.
    pub closed spec fn spec_monster_count(&self) -> nat {
        self.monster_count as nat
    }

    /// The monsters that are planned: the strength of the one on each
    /// coordinate that is taken.
    pub closed spec fn spec_monsters(&self) -> Map<GridPos, MonsterStrength> {
        self.monster_set@
    }

    /// A spawner that has not planned any monster.
    pub fn new() -> (spawner: Self)
        ensures
            spawner.spec_monster_count() == 0,
            spawner.spec_monsters() == Map::<GridPos, MonsterStrength>::empty(),
    {
        Spawner { monster_count: 0, monster_set: monster_set_empty() }
    }

    /// How many monsters the spawner has placed.
    pub fn monster_count(&self) -> (count: u32)
        ensures
            count == self.spec_monster_count(),
    {
        self.monster_count
    }

    /// Every planned monster once. No two of them share a coordinate. The
    /// order is not specified.
    pub fn monsters(&self) -> (monsters: Vec<Monster>)
        ensures
            forall|i: int|
                0 <= i < monsters@.len() ==> self.spec_monsters().contains_key(
                    #[trigger] monsters@[i].pos,
                ) && self.spec_monsters()[monsters@[i].pos] == monsters@[i].strength,
            forall|i: int, j: int|
                0 <= i < j < monsters@.len() ==> #[trigger] monsters@[i].pos
                    != #[trigger] monsters@[j].pos,
            forall|p: GridPos| #[trigger]
                self.spec_monsters().contains_key(p) ==> exists|i: int|
                    0 <= i < monsters@.len() && #[trigger] monsters@[i].pos == p,
    {
        monster_set_items(&self.monster_set)
    }

    /// The strength of the monster that is spawned next.
    pub fn decide_monster_strength(&self) -> (strength: MonsterStrength)
        ensures
            strength == tier_for_count(self.spec_monster_count() as int),
    {
        strength_for_count(self.monster_count)
    }

    /// Plans monsters on the floor of `tiles`. The weight budget is half the
    /// number of floor tiles. While it is not overdrawn, a floor tile is
    /// picked at random among those not tried yet and a monster of the next
    /// strength is put there, unless one stands there already; each monster
    /// takes twice its weight from the budget.
    pub fn generate_monsters(&mut self, tiles: &TileSet)
        requires
            old(self).spec_monster_count() <= u32::MAX / 2,
        ensures
            exists|placed: Seq<GridPos>|
                spawned(
                    old(self).spec_monster_count() as int,
                    old(self).spec_monsters(),
                    final(self).spec_monster_count() as int,
                    final(self).spec_monsters(),
                    tiles@,
                    placed,
                ),
    {
        let mut free = floor_positions(tiles);
        let max_index = free.len();
        let budget: i64 = if max_index / 2 > i32::MAX as usize {
            i32::MAX as i64
        } else {
            (max_index / 2) as i64
        };
        let mut total_monster_weight: i64 = budget;
        let ghost first = self.monster_count as int;
        let ghost mut placed: Seq<GridPos> = Seq::empty();
        while total_monster_weight >= 0 && free.len() > 0
            invariant
                first == old(self).spec_monster_count(),
                first <= u32::MAX / 2,
                budget == weight_budget(floor_count(tiles@)),
                0 <= budget <= i32::MAX,
                free@.no_duplicates(),
                forall|k: int| 0 <= k < free@.len() ==> is_floor(tiles@, #[trigger] free@[k]),
                forall|p: GridPos|
                    is_floor(tiles@, p) ==> #[trigger] free@.contains(p)
                        || self.spec_monsters().contains_key(p),
                placed.no_duplicates(),
                forall|j: int|
                    0 <= j < placed.len() ==> is_floor(tiles@, #[trigger] placed[j]) && !old(
                        self,
                    ).spec_monsters().contains_key(placed[j]),
                forall|j: int, k: int|
                    0 <= j < placed.len() && 0 <= k < free@.len() ==> #[trigger] placed[j]
                        != #[trigger] free@[k],
                self.spec_monster_count() == first + placed.len(),
                self.spec_monsters() == placed_on(old(self).spec_monsters(), placed, first),
                total_monster_weight == budget - cost_of(first, placed.len() as int),
                placed.len() == 0 || cost_of(first, placed.len() - 1) <= budget,
            decreases free@.len(),
        {
            let index = random_index(free.len());
            let ghost tried = free@;
            proof {
                lemma_swap_remove(free@, index as int);
                lemma_cost_bounds(first, placed.len() as int);
            }
            let pos = free.swap_remove(index);
            let monster = Monster::new(pos, self.decide_monster_strength());
            let weight = monster.weight() * 2;
            let ghost monsters_before = self.spec_monsters();
            if monster_set_insert(&mut self.monster_set, monster) {
                total_monster_weight -= weight as i64;
                self.monster_count += 1;
                proof {
                    let grown = placed.push(pos);
                    assert(grown.drop_last() =~= placed);
                    assert forall|p: GridPos| monsters_before.contains_key(p) implies p != pos by {}
                    assert forall|a: int, b: int|
                        0 <= a < grown.len() && 0 <= b < grown.len() && a != b implies grown[a]
                        != grown[b] by {
                        if a < placed.len() && b < placed.len() {
                            assert(placed[a] != placed[b]);
                        } else if a < placed.len() {
                            assert(placed[a] != tried[index as int]);
                        } else if b < placed.len() {
                            assert(placed[b] != tried[index as int]);
                        }
                    }
                    assert forall|j: int| 0 <= j < grown.len() implies is_floor(
                        tiles@,
                        #[trigger] grown[j],
                    ) && !old(self).spec_monsters().contains_key(grown[j]) by {
                        if j < placed.len() {
                            assert(grown[j] == placed[j]);
                        } else {
                            lemma_placed_on(old(self).spec_monsters(), placed, first, pos);
                        }
                    }
                    assert forall|j: int, k: int|
                        0 <= j < grown.len() && 0 <= k < free@.len() implies #[trigger] grown[j]
                        != #[trigger] free@[k] by {
                        if j < placed.len() {
                            assert(tried.contains(free@[k]));
                            let w = choose|w: int| 0 <= w < tried.len() && tried[w] == free@[k];
                            assert(placed[j] != tried[w]);
                        }
                    }
                    placed = grown;
                }
            }
            proof {
                assert forall|p: GridPos| is_floor(tiles@, p) implies #[trigger] free@.contains(p)
                    || self.spec_monsters().contains_key(p) by {
                    if p != pos {
                        if tried.contains(p) {
                            assert(free@.contains(p));
                        } else {
                            assert(monsters_before.contains_key(p));
                        }
                    }
                }
                assert forall|j: int, k: int|
                    0 <= j < placed.len() && 0 <= k < free@.len() implies #[trigger] placed[j]
                    != #[trigger] free@[k] by {
                    if placed[j] != pos {
                        assert(tried.contains(free@[k]));
                        let w = choose|w: int| 0 <= w < tried.len() && tried[w] == free@[k];
                        assert(j < placed.len());
                    }
                }
            }
        }
        proof {
            if total_monster_weight >= 0 {
                assert forall|p: GridPos| is_floor(tiles@, p) implies #[trigger] self.spec_monsters().contains_key(
                    p,
                ) by {
                    if free@.contains(p) {
                        let k = choose|k: int| 0 <= k < free@.len() && free@[k] == p;
                    }
                }
            }
            assert(spawned(
                first,
                old(self).spec_monsters(),
                self.spec_monster_count() as int,
                self.spec_monsters(),
                tiles@,
                placed,
            ));
        }
    }
}

/// The budget holds the spawner back: what a run spends is at most the
/// budget and one last step over it, so the monsters of a run take at most an
/// eighth of the floor and one tile more, and the rest of the floor stays free.
pub proof fn lemma_budget_holds(
    first: int,
    before: Map<GridPos, MonsterStrength>,
    count: int,
    after: Map<GridPos, MonsterStrength>,
    tiles: Map<GridPos, TileType>,
    placed: Seq<GridPos>,
)
    requires
        spawned(first, before, count, after, tiles, placed),
    ensures
        cost_of(first, placed.len() as int) <= weight_budget(floor_count(tiles)) + 20,
        placed.len() > 0 ==> 4 * (placed.len() - 1) <= weight_budget(floor_count(tiles)),
        placed.len() > 0 ==> 8 * (placed.len() - 1) <= floor_count(tiles),
{
    if placed.len() > 0 {
        lemma_cost_bounds(first, placed.len() - 1);
    }
}

/// What a monster looks like and is called. It has no bearing on its strength.
#[derive(Clone, Copy, Debug, PartialEq, Eq, Structural)]
pub enum MonsterKind {
    Flamey,
    CaveMole,
    CaveSpider,
}

/// The kind that a selector picks, the selector counted in hundredths: the
/// first quarter gives a flamey, the next 35 hundredths a cave mole, the rest
/// a cave spider.
pub open spec fn kind_of_selector(selector: int) -> MonsterKind {
    if selector < 25 {
        MonsterKind::Flamey
    } else if selector < 60 {
        MonsterKind::CaveMole
    } else {
        MonsterKind::CaveSpider
    }
}

impl MonsterKind {
    /// The name of a monster of this kind.
    pub open spec fn label(&self) -> Seq<char> {
        match self {
            MonsterKind::Flamey => "Flamey"@,
            MonsterKind::CaveMole => "Cave MOLE"@,
            MonsterKind::CaveSpider => "Cave Spider"@,
        }
    }

    /// The race of a monster of this kind.
    pub open spec fn spec_race(&self) -> Race {
        match self {
            MonsterKind::Flamey => Race::Elemental,
            MonsterKind::CaveMole => Race::Unknown,
            MonsterKind::CaveSpider => Race::Unknown,
        }
    }

    /// The kind that `selector`, in hundredths, picks.
    pub fn for_selector(selector: u32) -> (kind: MonsterKind)
        ensures
            kind == kind_of_selector(selector as int),
    {
        if selector < 25 {
            MonsterKind::Flamey
        } else if selector < 60 {
            MonsterKind::CaveMole
        } else {
            MonsterKind::CaveSpider
        }
    }

    /// The name of a monster of this kind.
    pub fn name(&self) -> (name: String)
        ensures
            name@ == self.label(),
    {
        match self {
            MonsterKind::Flamey => String::from_str("Flamey"),
            MonsterKind::CaveMole => String::from_str("Cave MOLE"),
            MonsterKind::CaveSpider => String::from_str("Cave Spider"),
        }
    }

    /// The race of a monster of this kind.
    pub fn race(&self) -> (race: Race)
        ensures
            race == self.spec_race(),
    {
        match self {
            MonsterKind::Flamey => Race::Elemental,
            MonsterKind::CaveMole => Race::Unknown,
            MonsterKind::CaveSpider => Race::Unknown,
        }
    }
}

/// The score, in hundredths, that the distance to the player must reach for a
/// spawned monster to go after the player. Below it the monster stays idle.
pub const CHASE_THRESHOLD: i64 = 95;

/// A monster that is to be put on the map.
#[derive(Debug)]
pub struct MonsterSpawn {
    pub pos: GridPos,
    pub kind: MonsterKind,
    pub enemy: MeleeEnemy,
    pub threshold: i64,
}

impl MonsterSpawn {
    /// Whether this spawn is what `spawn_monsters` makes of a monster at
    /// `pos`: a monster of some kind with the name and race of that kind,
    /// five health, level 1 and all stats at 1, which blocks as an enemy, so
    /// that the player can attack it, and whose strength is a rolled tier.
    pub open spec fn is_for(&self, pos: GridPos) -> bool {
        &&& self.pos == pos
        &&& self.threshold == CHASE_THRESHOLD
        &&& self.enemy.name.0@ == self.kind.label()
        &&& self.enemy.race == self.kind.spec_race()
        &&& self.enemy.health.current == 5
        &&& self.enemy.health.max == 5
        &&& self.enemy.health.min == 0
        &&& self.enemy.level.0 == 1
        &&& self.enemy.blocking.blocking_type == BlockingType::Enemy
        &&& is_rolled(self.enemy.monster_strength)
        &&& self.enemy.stats == (Stats {
            strength: crate::components::Strength(1),
            agility: crate::components::Agility(1),
            endurance: crate::components::Endurance(1),
            intelligence: crate::components::Intelligence(1),
        })
    }
}

impl Spawner {
    /// What is to be put on the map for a monster at `pos` when `selector`,
    /// in hundredths, picks its kind.
    pub fn spawn_of(pos: GridPos, selector: u32) -> (spawn: MonsterSpawn)
        ensures
            spawn.is_for(pos),
            spawn.kind == kind_of_selector(selector as int),
    {
        let kind = MonsterKind::for_selector(selector);
        let enemy = MeleeEnemy::new(kind.name(), 5, kind.race(), 1, Stats::new(1, 1, 1, 1));
        MonsterSpawn { pos, kind, enemy, threshold: CHASE_THRESHOLD }
    }

    /// What is to be put on the map: one spawn for each planned monster, of a
    /// kind picked at random.
    pub fn spawn_monsters(&self) -> (spawns: Vec<MonsterSpawn>)
        ensures
            forall|i: int|
                0 <= i < spawns@.len() ==> self.spec_monsters().contains_key(
                    #[trigger] spawns@[i].pos,
                ) && spawns@[i].is_for(spawns@[i].pos),
            forall|i: int, j: int|
                0 <= i < j < spawns@.len() ==> #[trigger] spawns@[i].pos != #[trigger] spawns@[j].pos,
            forall|p: GridPos| #[trigger]
                self.spec_monsters().contains_key(p) ==> exists|i: int|
                    0 <= i < spawns@.len() && #[trigger] spawns@[i].pos == p,
    {
        let monsters = self.monsters();
        let mut spawns: Vec<MonsterSpawn> = Vec::new();
        let mut i: usize = 0;
        while i < monsters.len()
            invariant
                i <= monsters@.len(),
                spawns@.len() == i,
                forall|k: int| 0 <= k < i ==> (#[trigger] spawns@[k]).is_for(monsters@[k].pos),
            decreases monsters@.len() - i,
        {
            let selector = random_u32(0, 99);
            spawns.push(Self::spawn_of(monsters[i].pos, selector));
            i += 1;
        }
        proof {
            assert forall|p: GridPos| #[trigger]
                self.spec_monsters().contains_key(p) implies exists|i: int|
                0 <= i < spawns@.len() && #[trigger] spawns@[i].pos == p by {
                let k = choose|k: int| 0 <= k < monsters@.len() && #[trigger] monsters@[k].pos == p;
                assert(spawns@[k].is_for(monsters@[k].pos));
                assert(spawns@[k].pos == p);
            }
            assert forall|a: int, b: int| 0 <= a < b < spawns@.len() implies #[trigger] spawns@[a].pos
                != #[trigger] spawns@[b].pos by {
                assert(spawns@[a].is_for(monsters@[a].pos));
                assert(spawns@[b].is_for(monsters@[b].pos));
                assert(monsters@[a].pos != monsters@[b].pos);
            }
            assert forall|k: int| 0 <= k < spawns@.len() implies self.spec_monsters().contains_key(
                #[trigger] spawns@[k].pos,
            ) && spawns@[k].is_for(spawns@[k].pos) by {
                assert(spawns@[k].is_for(monsters@[k].pos));
                assert(self.spec_monsters().contains_key(monsters@[k].pos));
            }
        }
        spawns
    }
}

} // verus!
