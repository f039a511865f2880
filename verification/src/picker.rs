//! Picking one tile out of a list: the list is shuffled, and what then
//! comes first is the pick.

use vstd::prelude::*;

use crate::catalog::aggressive_airship_tiles;
use crate::catalog::offered_aggressive_airship_tiles;
use crate::catalog::offered_passive_airship_tiles;
use crate::catalog::offered_resolution_tiles;
use crate::catalog::offered_structure_bonuses;
use crate::catalog::passive_airship_tiles;
use crate::catalog::resolution_tiles;
use crate::catalog::structure_bonuses;
use crate::randomizer::is_permutation;
use crate::randomizer::permutation_keeps_items;
use crate::randomizer::Ask;
use crate::randomizer::Randomizer;

verus! {

/// What comes first in a list, if anything.
pub open spec fn first_item<T>(items: Seq<T>) -> Option<T> {
    if items.len() == 0 {
        None
    } else {
        Some(items[0])
    }
}

/// Whether `picked` is what comes first in some order of `list`: the pick
/// that a shuffle of the list leads to.
pub open spec fn picked_from<T>(picked: Option<T>, list: Seq<T>) -> bool {
    exists|shuffled: Seq<T>| #[trigger]
        is_permutation(shuffled, list) && picked == first_item(shuffled)
}

/// The pick out of a list that was shuffled: what comes first, and nothing
/// of an empty list.
pub fn first_of<T>(shuffled: Vec<T>) -> (picked: Option<T>)
    ensures
        picked is None <==> shuffled@.len() == 0,
        picked matches Some(item) ==> item == shuffled@[0],
        picked == first_item(shuffled@),
{
    let mut items = shuffled;
    if items.len() == 0 {
        None
    } else {
        Some(items.remove(0))
    }
}

/// A pick is an item of the list, and there is one exactly if the list has
/// an item.
pub proof fn pick_is_of_the_list<T>(picked: Option<T>, list: Seq<T>)
    requires
        picked_from(picked, list),
    ensures
        picked is None <==> list.len() == 0,
        picked matches Some(item) ==> list.contains(item),
{
    let shuffled = choose|shuffled: Seq<T>| #[trigger]
        is_permutation(shuffled, list) && picked == first_item(shuffled);
    shuffled.to_multiset_ensures();
    list.to_multiset_ensures();
    if let Some(item) = picked {
        assert(shuffled[0] == item);
        permutation_keeps_items(shuffled, list, item);
    }
}

/// One item of the list, picked at random: the list is shuffled, which is
/// all that is asked of chance, and what comes first is taken. Of an empty
/// list there is no pick, and chance is not asked.
pub fn pick_one<T>(list: Vec<T>, rng: &mut Randomizer) -> (picked: Option<T>)
    ensures
        picked_from(picked, list@),
        picked is None <==> list@.len() == 0,
        picked matches Some(item) ==> list@.contains(item),
        picked is None ==> *final(rng) == *old(rng),
        picked is Some ==> final(rng).asked() == old(rng).asked().push(
            Ask::Shuffle { len: list@.len() },
        ),
{
    let mut shuffled = list;
    if shuffled.len() > 0 {
        rng.shuffle(&mut shuffled);
    }
    let ghost order = shuffled@;
    let picked = first_of(shuffled);
    proof {
        assert(is_permutation(order, list@));
        pick_is_of_the_list(picked, list@);
    }
    picked
}

/// One of the structure bonus tiles on offer: the first of them once they
/// are shuffled. That one shuffle is all that is asked of chance.
pub fn choose_structure_bonus(rng: &mut Randomizer, modular_board: bool) -> (tile: &'static str)
    ensures
        picked_from(Some(tile), offered_structure_bonuses(modular_board)),
        offered_structure_bonuses(modular_board).contains(tile),
        final(rng).asked() == old(rng).asked().push(
            Ask::Shuffle { len: offered_structure_bonuses(modular_board).len() },
        ),
{
    let mut tiles = structure_bonuses(modular_board);
    rng.shuffle(&mut tiles);
    let ghost order = tiles@;
    let picked = first_of(tiles);
    proof {
        assert(is_permutation(order, offered_structure_bonuses(modular_board)));
        pick_is_of_the_list(picked, offered_structure_bonuses(modular_board));
    }
    picked.unwrap()
}

/// One of the resolution tiles: the first of them once they are shuffled.
/// That one shuffle is all that is asked of chance.
pub fn choose_resolution_tile(rng: &mut Randomizer) -> (tile: &'static str)
    ensures
        picked_from(Some(tile), offered_resolution_tiles()),
        offered_resolution_tiles().contains(tile),
        final(rng).asked() == old(rng).asked().push(
            Ask::Shuffle { len: offered_resolution_tiles().len() },
        ),
{
    let mut tiles = resolution_tiles();
    rng.shuffle(&mut tiles);
    let ghost order = tiles@;
    let picked = first_of(tiles);
    proof {
        assert(is_permutation(order, offered_resolution_tiles()));
        pick_is_of_the_list(picked, offered_resolution_tiles());
    }
    picked.unwrap()
}

/// One aggressive and one passive airship tile: the aggressive tiles are
/// shuffled and their first is taken, then the passive ones likewise. Those
/// two shuffles, in that order, are all that is asked of chance.
pub fn choose_airship_tiles(rng: &mut Randomizer) -> (tiles: (&'static str, &'static str))
    ensures
        picked_from(Some(tiles.0), offered_aggressive_airship_tiles()),
        picked_from(Some(tiles.1), offered_passive_airship_tiles()),
        offered_aggressive_airship_tiles().contains(tiles.0),
        offered_passive_airship_tiles().contains(tiles.1),
        final(rng).asked() == old(rng).asked().push(
            Ask::Shuffle { len: offered_aggressive_airship_tiles().len() },
        ).push(Ask::Shuffle { len: offered_passive_airship_tiles().len() }),
{
    let mut aggressive = aggressive_airship_tiles();
    rng.shuffle(&mut aggressive);
    let ghost aggressive_order = aggressive@;
    let first_aggressive = first_of(aggressive);
    let mut passive = passive_airship_tiles();
    rng.shuffle(&mut passive);
    let ghost passive_order = passive@;
    let first_passive = first_of(passive);
    proof {
        assert(is_permutation(aggressive_order, offered_aggressive_airship_tiles()));
        assert(is_permutation(passive_order, offered_passive_airship_tiles()));
        pick_is_of_the_list(first_aggressive, offered_aggressive_airship_tiles());
        pick_is_of_the_list(first_passive, offered_passive_airship_tiles());
    }
    (first_aggressive.unwrap(), first_passive.unwrap())
}

} // verus!
