//! The one source of chance. Every random decision of the crate is taken
//! through a [`Randomizer`] that the caller hands in.

use rand::rngs::StdRng;
use rand::seq::SliceRandom;
use rand::Rng;
use rand::SeedableRng;
use vstd::prelude::*;

use crate::error::SetupError;

verus! {

/// `rand::rngs::StdRng`, the generator of `rand`, carried as it is: nothing
/// of its state is visible to a proof.
#[verifier::external_type_specification]
#[verifier::external_body]
pub struct ExStdRng(StdRng);

/// `SeedableRng::seed_from_u64` of `rand`, for `StdRng`. Nothing is claimed
/// of the generator that comes back.
#[verifier::external_body]
fn seeded_generator(seed: u64) -> StdRng {
    StdRng::seed_from_u64(seed)
}

/// `Rng::gen_range` of `rand` on the half-open range from zero to `bound`.
/// The call panics on an empty range, so `bound` must be positive; the
/// value that comes back lies in the range. Which value it is depends on
/// the generator's state, of which nothing is claimed.
#[verifier::external_body]
fn gen_below(rng: &mut StdRng, bound: usize) -> (index: usize)
    requires
        bound > 0,
    ensures
        index < bound,
{
    rng.gen_range(0..bound)
}

/// `SliceRandom::shuffle` of `rand`, which only swaps entries of the slice:
/// afterwards the vector holds the same items, each as often as before, in
/// an order of which nothing is claimed.
#[verifier::external_body]
fn shuffle_in_place<T>(rng: &mut StdRng, items: &mut Vec<T>)
    ensures
        final(items)@.to_multiset() == old(items)@.to_multiset(),
{
    items.shuffle(rng)
}

/// One thing asked of a generator.
pub enum Ask {
    /// To put a list of `len` items into a random order.
    Shuffle { len: nat },
    /// To draw an index below `bound`.
    Index { bound: nat },
}

/// A seeded pseudo-random generator, with the record of what was asked of
/// it since it was made.
pub struct Randomizer {
    rng: StdRng,
    asked: Ghost<Seq<Ask>>,
}

/// `after` holds exactly the items of `before`, each as often, in any order.
pub open spec fn is_permutation<T>(after: Seq<T>, before: Seq<T>) -> bool {
    after.to_multiset() == before.to_multiset()
}

/// What stands in a sequence stands in every other order of it.
pub proof fn permutation_keeps_items<T>(after: Seq<T>, before: Seq<T>, item: T)
    requires
        is_permutation(after, before),
    ensures
        after.contains(item) <==> before.contains(item),
{
    after.to_multiset_ensures();
    before.to_multiset_ensures();
    assert(after.to_multiset().count(item) == before.to_multiset().count(item));
}

/// A sequence in which nothing occurs twice keeps that in any other order.
pub proof fn permutation_keeps_distinct<T>(after: Seq<T>, before: Seq<T>)
    requires
        is_permutation(after, before),
        before.no_duplicates(),
    ensures
        after.no_duplicates(),
        after.len() == before.len(),
{
    before.lemma_multiset_has_no_duplicates();
    after.lemma_multiset_has_no_duplicates_conv();
    after.to_multiset_ensures();
    before.to_multiset_ensures();
}

impl Randomizer {
    /// What was asked of the generator since it was made, oldest first.
    pub closed spec fn asked(&self) -> Seq<Ask> {
        self.asked@
    }

    /// A generator whose every draw is determined by `seed`, and of which
    /// nothing was asked yet.
    pub fn from_seed(seed: u64) -> (randomizer: Randomizer)
        ensures
            randomizer.asked() == Seq::<Ask>::empty(),
    {
        Randomizer { rng: seeded_generator(seed), asked: Ghost(Seq::empty()) }
    }

    /// Draws an index below `bound`. There is none below zero: then the
    /// call fails and asks nothing of the generator.
    pub fn pick_index(&mut self, bound: usize) -> (picked: Result<usize, SetupError>)
        ensures
            bound == 0 <==> picked is Err,
            picked matches Ok(index) ==> index < bound && final(self).asked() == old(
                self,
            ).asked().push(Ask::Index { bound: bound as nat }),
            picked matches Err(e) ==> e == SetupError::PreconditionViolation && *final(self) == *old(
                self,
            ),
    {
        if bound == 0 {
            return Err(SetupError::PreconditionViolation);
        }
        let index = gen_below(&mut self.rng, bound);
        self.asked = Ghost(self.asked@.push(Ask::Index { bound: bound as nat }));
        Ok(index)
    }

    /// Puts `items` into a random order: one shuffle is asked of the
    /// generator, of a list as long as `items`.
    pub fn shuffle<T>(&mut self, items: &mut Vec<T>)
        ensures
            is_permutation(final(items)@, old(items)@),
            final(items)@.len() == old(items)@.len(),
            final(self).asked() == old(self).asked().push(Ask::Shuffle { len: old(items)@.len() }),
    {
        let ghost before = items@;
        shuffle_in_place(&mut self.rng, items);
        self.asked = Ghost(self.asked@.push(Ask::Shuffle { len: before.len() }));
        proof {
            before.to_multiset_ensures();
            items@.to_multiset_ensures();
        }
    }
}

} // verus!
