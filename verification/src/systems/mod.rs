//! The rules of a turn: what the player and the monsters do, and what is
//! changed by it.

pub mod enemy;
pub mod movement;
pub mod player;
pub mod ranged;
pub mod shared;
pub mod ui;

use crate::components::Health;
use crate::position::GridPos;
use vstd::prelude::*;

verus! {

/// An entity that has a place on the grid.
#[derive(Clone, Copy, Debug, PartialEq, Eq, Structural)]
pub struct Positioned {
    pub entity: u64,
    pub pos: GridPos,
}

/// An entity that has health.
#[derive(Clone, Copy, Debug, PartialEq, Eq, Structural)]
pub struct Living {
    pub entity: u64,
    pub health: Health,
}

/// What is found by a key: an entity by its number, a thing on the grid by
/// its tile.
pub trait Keyed {
    type Key;

    /// The key of this item.
    spec fn key(&self) -> Self::Key;

    /// Whether this item has the key `key`.
    fn has_key(&self, key: &Self::Key) -> (has: bool)
        ensures
            has == (self.key() == *key),
    ;
}

/// The keys of `items`, in their order.
pub open spec fn keys_of<T: Keyed>(items: Seq<T>) -> Seq<T::Key> {
    items.map_values(|item: T| item.key())
}

impl Keyed for Positioned {
    type Key = u64;

    open spec fn key(&self) -> u64 {
        self.entity
    }

    fn has_key(&self, key: &u64) -> (has: bool) {
        self.entity == *key
    }
}

impl Keyed for Living {
    type Key = u64;

    open spec fn key(&self) -> u64 {
        self.entity
    }

    fn has_key(&self, key: &u64) -> (has: bool) {
        self.entity == *key
    }
}

/// The entities of `placed`, in their order.
pub open spec fn positioned_ids(placed: Seq<Positioned>) -> Seq<u64> {
    keys_of(placed)
}

/// The entities of `living`, in their order.
pub open spec fn living_ids(living: Seq<Living>) -> Seq<u64> {
    keys_of(living)
}

/// The first place at which a value stands in a sequence is the place before
/// which it does not stand.
pub proof fn lemma_first_index<A>(keys: Seq<A>, key: A, index: int)
    requires
        0 <= index < keys.len(),
        keys[index] == key,
        forall|k: int| 0 <= k < index ==> keys[k] != key,
    ensures
        keys.index_of_first(key) == Some(index),
{
    keys.index_of_first_ensures(key);
    assert(keys.contains(key));
    let found = keys.index_of_first(key).unwrap();
    assert(keys[found] == key);
    assert(found == index);
}

/// A value that stands nowhere in a sequence has no first place in it.
pub proof fn lemma_no_index<A>(keys: Seq<A>, key: A)
    requires
        forall|k: int| 0 <= k < keys.len() ==> keys[k] != key,
    ensures
        keys.index_of_first(key) is None,
{
    keys.index_of_first_ensures(key);
    if keys.contains(key) {
        let w = choose|w: int| 0 <= w < keys.len() && keys[w] == key;
        assert(keys[w] != key);
    }
}

/// The place of the first of `items` that has the key `key`, if there is one.
pub fn find_first<T: Keyed>(items: &Vec<T>, key: &T::Key) -> (found: Option<usize>)
    ensures
        match found {
            Some(index) => keys_of(items@).index_of_first(*key) == Some(index as int) && index
                < items@.len() && items@[index as int].key() == *key,
            None => keys_of(items@).index_of_first(*key) is None,
        },
{
    let ghost keys = keys_of(items@);
    let mut i: usize = 0;
    while i < items.len()
        invariant
            i <= items@.len(),
            keys == keys_of(items@),
            forall|k: int| 0 <= k < i ==> keys[k] != *key,
        decreases items@.len() - i,
    {
        if items[i].has_key(key) {
            proof {
                lemma_first_index(keys, *key, i as int);
            }
            return Some(i);
        }
        i += 1;
    }
    proof {
        lemma_no_index(keys, *key);
    }
    None
}

/// Where the entity stands in `placed`, if it is there.
pub fn find_positioned(placed: &Vec<Positioned>, entity: u64) -> (found: Option<usize>)
    ensures
        match found {
            Some(index) => positioned_ids(placed@).index_of_first(entity) == Some(index as int)
                && index < placed@.len() && placed@[index as int].entity == entity,
            None => positioned_ids(placed@).index_of_first(entity) is None,
        },
{
    find_first(placed, &entity)
}

/// Where the entity stands in `living`, if it is there.
pub fn find_living(living: &Vec<Living>, entity: u64) -> (found: Option<usize>)
    ensures
        match found {
            Some(index) => living_ids(living@).index_of_first(entity) == Some(index as int) && index
                < living@.len() && living@[index as int].entity == entity,
            None => living_ids(living@).index_of_first(entity) is None,
        },
{
    find_first(living, &entity)
}

/// `living` with `damage` taken from the health of `entity`. An entity that
/// is not there is not hurt.
pub open spec fn hurt(living: Seq<Living>, entity: u64, damage: int) -> Seq<Living> {
    match living_ids(living).index_of_first(entity) {
        Some(index) => living.update(
            index,
            Living {
                entity: living[index].entity,
                health: Health {
                    current: (living[index].health.current - damage) as i32,
                    max: living[index].health.max,
                    min: living[index].health.min,
                },
            },
        ),
        None => living,
    }
}

/// `placed` with `entity` put on `pos`. An entity that is not there is not moved.
pub open spec fn put(placed: Seq<Positioned>, entity: u64, pos: GridPos) -> Seq<Positioned> {
    match positioned_ids(placed).index_of_first(entity) {
        Some(index) => placed.update(index, Positioned { entity: placed[index].entity, pos }),
        None => placed,
    }
}

/// Hurting an entity changes no entity into another.
pub proof fn lemma_hurt_keeps_ids(living: Seq<Living>, entity: u64, damage: int)
    ensures
        living_ids(hurt(living, entity, damage)) == living_ids(living),
{
    living_ids(living).index_of_first_ensures(entity);
    assert(living_ids(hurt(living, entity, damage)) =~= living_ids(living));
}

/// Moving an entity changes no entity into another.
pub proof fn lemma_put_keeps_ids(placed: Seq<Positioned>, entity: u64, pos: GridPos)
    ensures
        positioned_ids(put(placed, entity, pos)) == positioned_ids(placed),
{
    positioned_ids(placed).index_of_first_ensures(entity);
    assert(positioned_ids(put(placed, entity, pos)) =~= positioned_ids(placed));
}

/// The entities whose health has run out, in the order of `living`.
pub open spec fn spent_ones(living: Seq<Living>) -> Seq<u64> {
    living_ids(living.filter(|l: Living| l.health.spent()))
}

/// Finds the dead: every entity whose health is at its threshold or below,
/// in the order in which they stand in `living`.
pub fn mark_dead(living: &Vec<Living>) -> (dead: Vec<u64>)
    ensures
        dead@ == spent_ones(living@),
{
    let mut dead: Vec<u64> = Vec::new();
    let mut i: usize = 0;
    assert(living@.take(0) =~= Seq::empty());
    while i < living.len()
        invariant
            i <= living@.len(),
            dead@ == spent_ones(living@.take(i as int)),
        decreases living@.len() - i,
    {
        proof {
            let pred = |l: Living| l.health.spent();
            let done = living@.take(i as int);
            assert(living@.take(i + 1) =~= done.push(living@[i as int]));
            done.lemma_filter_push(living@[i as int], pred);
            if living@[i as int].health.spent() {
                assert(living_ids(done.filter(pred).push(living@[i as int])) =~= living_ids(
                    done.filter(pred),
                ).push(living@[i as int].entity));
            }
        }
        if living[i].health.is_spent() {
            dead.push(living[i].entity);
        }
        i += 1;
    }
    assert(living@.take(living@.len() as int) =~= living@);
    dead
}

/// Takes the dead off: what is left of `living` are the entities that are
/// not among `dead`, in their order.
pub fn clear_dead(living: &mut Vec<Living>, dead: &Vec<u64>)
    ensures
        final(living)@ == old(living)@.filter(|l: Living| !dead@.contains(l.entity)),
{
    let mut kept: Vec<Living> = Vec::new();
    let mut i: usize = 0;
    assert(living@.take(0) =~= Seq::empty());
    while i < living.len()
        invariant
            i <= living@.len(),
            living@ == old(living)@,
            kept@ == living@.take(i as int).filter(|l: Living| !dead@.contains(l.entity)),
        decreases living@.len() - i,
    {
        let one = living[i];
        let mut gone = false;
        let mut j: usize = 0;
        while j < dead.len()
            invariant
                j <= dead@.len(),
                gone <==> exists|k: int| 0 <= k < j && dead@[k] == one.entity,
            decreases dead@.len() - j,
        {
            if dead[j] == one.entity {
                gone = true;
            }
            j += 1;
        }
        proof {
            let pred = |l: Living| !dead@.contains(l.entity);
            let done = living@.take(i as int);
            assert(living@.take(i + 1) =~= done.push(living@[i as int]));
            done.lemma_filter_push(living@[i as int], pred);
            assert(gone == dead@.contains(one.entity));
        }
        if !gone {
            kept.push(one);
        }
        i += 1;
    }
    assert(living@.take(living@.len() as int) =~= living@);
    *living = kept;
}

/// The frames of an animated sprite: the first and the last index of its
/// sheet that it shows.
#[derive(Clone, Copy, Debug, PartialEq, Eq, Structural)]
pub struct AnimationContext {
    pub first_index: usize,
    pub last_index: usize,
}

/// The frame that follows `index`: the next one, and after the last the
/// first again. At the greatest index that there is the frame stays.
pub open spec fn frame_after(index: usize, context: AnimationContext) -> usize {
    if index == context.last_index {
        context.first_index
    } else if index < usize::MAX {
        (index + 1) as usize
    } else {
        index
    }
}

/// The frame to show when the timer of an animation has run out.
pub fn animation(index: usize, context: &AnimationContext) -> (next: usize)
    ensures
        next == frame_after(index, *context),
{
    if index == context.last_index {
        context.first_index
    } else if index < usize::MAX {
        index + 1
    } else {
        index
    }
}

} // verus!
