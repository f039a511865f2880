//! Home bases for the factions that have none: once everybody is seated,
//! each such player draws the base of a faction that nobody plays.

use vstd::prelude::*;

use crate::catalog::add_invaders;
use crate::catalog::invader_factions;
use crate::catalog::Faction;
use crate::engine::Seating;
use crate::error::SetupError;
use crate::randomizer::is_permutation;
use crate::randomizer::Ask;
use crate::randomizer::Randomizer;
use crate::seating::factions_of;
use crate::seating::Player;
use crate::seating::Table;

verus! {

/// How many of the players play a faction that needs a base.
pub open spec fn bases_needed(players: Seq<Player>) -> nat
    decreases players.len(),
{
    if players.len() == 0 {
        0
    } else {
        bases_needed(players.drop_last()) + if players.last().faction.has_base() {
            1nat
        } else {
            0
        }
    }
}

/// The factions that bases are drawn from: those that nobody took, and the
/// two invaders with them unless they were on offer from the start. Where
/// nobody needs a base the pool is left as it is.
pub open spec fn base_pool(table: Table, invaders_from_afar: bool) -> Seq<Faction> {
    if invaders_from_afar || bases_needed(table.players) == 0 {
        table.factions
    } else {
        table.factions + invader_factions()
    }
}

/// Whether `order` is an order in which the bases can come out of the pool:
/// any order of it where the invaders were put in, for then it is shuffled,
/// and else the order it is in.
pub open spec fn base_order_fits(table: Table, invaders_from_afar: bool, order: Seq<Faction>) -> bool {
    if invaders_from_afar || bases_needed(table.players) == 0 {
        order == table.factions
    } else {
        is_permutation(order, table.factions + invader_factions())
    }
}

/// What is asked of chance while bases are drawn: a shuffle of the pool
/// where the invaders are put in, and else nothing.
pub open spec fn asks_of_bases(table: Table, invaders_from_afar: bool) -> Seq<Ask> {
    if invaders_from_afar || bases_needed(table.players) == 0 {
        Seq::empty()
    } else {
        seq![Ask::Shuffle { len: table.factions.len() + 2 }]
    }
}

/// Player `i` once bases are drawn in `order`: a player who needs one takes
/// the next that no player before took.
pub open spec fn with_base(players: Seq<Player>, order: Seq<Faction>, i: int) -> Player
    recommends
        0 <= i < players.len(),
{
    if players[i].faction.has_base() {
        Player { base: Some(order[bases_needed(players.take(i)) as int]), ..players[i] }
    } else {
        players[i]
    }
}

/// The table once bases are drawn in `order`.
pub open spec fn with_bases(table: Table, order: Seq<Faction>) -> Table {
    Table {
        players: Seq::new(table.players.len(), |i: int| with_base(table.players, order, i)),
        factions: order.skip(bases_needed(table.players) as int),
        player_mats: table.player_mats,
    }
}

/// The count of bases needed grows by one with each player who needs one.
pub proof fn bases_needed_by_prefix(players: Seq<Player>, i: int)
    requires
        0 <= i < players.len(),
    ensures
        bases_needed(players.take(i + 1)) == bases_needed(players.take(i)) + if players[i].faction.has_base() {
            1nat
        } else {
            0
        },
        bases_needed(players.take(i + 1)) <= bases_needed(players),
    decreases players.len() - i,
{
    assert(players.take(i + 1).drop_last() =~= players.take(i));
    if i + 1 < players.len() {
        bases_needed_by_prefix(players, i + 1);
    } else {
        assert(players.take(i + 1) =~= players);
    }
}

/// Where no player's faction needs a base, none is needed.
pub proof fn no_base_needed(players: Seq<Player>)
    requires
        forall|i: int| 0 <= i < players.len() ==> !(#[trigger] players[i]).faction.has_base(),
    ensures
        bases_needed(players) == 0,
    decreases players.len(),
{
    if players.len() > 0 {
        let before = players.drop_last();
        assert forall|i: int| 0 <= i < before.len() implies !(#[trigger] before[i]).faction.has_base() by {
            assert(before[i] == players[i]);
        }
        no_base_needed(before);
    }
}

/// Where no two players play the same faction, at most one needs a base.
pub proof fn at_most_one_base_needed(players: Seq<Player>)
    requires
        factions_of(players).no_duplicates(),
    ensures
        bases_needed(players) <= 1,
    decreases players.len(),
{
    if players.len() > 0 {
        let before = players.drop_last();
        let last = players.len() - 1;
        assert forall|i: int, j: int|
            0 <= i < before.len() && 0 <= j < before.len() && i != j implies factions_of(before)[i]
            != factions_of(before)[j] by {
            assert(factions_of(players)[i] != factions_of(players)[j]);
        }
        if players.last().faction.has_base() {
            assert forall|i: int| 0 <= i < before.len() implies !(#[trigger] before[i]).faction.has_base() by {
                assert(factions_of(players)[i] != factions_of(players)[last]);
            }
            no_base_needed(before);
        } else {
            at_most_one_base_needed(before);
        }
    }
}

/// A player who needs a base takes one that stands in `order`, provided
/// `order` holds as many as are needed.
pub proof fn base_is_from_the_order(players: Seq<Player>, order: Seq<Faction>, i: int)
    requires
        0 <= i < players.len(),
        bases_needed(players) <= order.len(),
        players[i].faction.has_base(),
    ensures
        with_base(players, order, i).base matches Some(base) && order.contains(base),
{
    bases_needed_by_prefix(players, i);
    let at = bases_needed(players.take(i)) as int;
    assert(order[at] == with_base(players, order, i).base->0);
}

fn count_bases_needed(players: &Vec<Player>) -> (count: usize)
    ensures
        count == bases_needed(players@),
{
    let mut count: usize = 0;
    let mut i: usize = 0;
    while i < players.len()
        invariant
            i <= players@.len(),
            count <= i,
            count == bases_needed(players@.take(i as int)),
        decreases players@.len() - i,
    {
        proof {
            bases_needed_by_prefix(players@, i as int);
        }
        if players[i].faction.needs_base() {
            count += 1;
        }
        i += 1;
    }
    proof {
        assert(players@.take(i as int) =~= players@);
    }
    count
}

impl Seating {
    /// Draws a base for every player whose faction needs one, in seating
    /// order, from the front of the factions that are left. Unless the
    /// invaders were on offer from the start, they are put in first and the
    /// pool is shuffled.
    ///
    /// Fails with `PreconditionViolation`, and changes nothing, where the
    /// pool has fewer factions than bases are needed. Chance is asked only
    /// where the invaders are put in, and then for that one shuffle.
    pub fn assign_bases(&mut self, invaders_from_afar: bool, rng: &mut Randomizer) -> (assigned:
        Result<(), SetupError>)
        ensures
            bases_needed(old(self)@.players) > base_pool(old(self)@, invaders_from_afar).len()
                <==> assigned is Err,
            assigned matches Err(e) ==> e == SetupError::PreconditionViolation && final(self)@
                == old(self)@ && *final(rng) == *old(rng),
            assigned is Ok ==> exists|order: Seq<Faction>| #[trigger]
                base_order_fits(old(self)@, invaders_from_afar, order) && final(self)@
                    == with_bases(old(self)@, order),
            invaders_from_afar || bases_needed(old(self)@.players) == 0 ==> *final(rng) == *old(
                rng,
            ),
            assigned is Ok ==> final(rng).asked() == old(rng).asked() + asks_of_bases(
                old(self)@,
                invaders_from_afar,
            ),
    {
        let ghost before = self@;
        let needed = count_bases_needed(&self.players);
        if needed == 0 {
            proof {
                assert forall|i: int| 0 <= i < before.players.len() implies with_base(
                    before.players,
                    before.factions,
                    i,
                ) == before.players[i] by {
                    bases_needed_by_prefix(before.players, i);
                }
                assert(with_bases(before, before.factions).players =~= before.players);
                assert(with_bases(before, before.factions).factions =~= before.factions);
                assert(base_order_fits(before, invaders_from_afar, before.factions));
                assert(rng.asked() =~= old(rng).asked() + asks_of_bases(before, invaders_from_afar));
            }
            return Ok(());
        }
        let left = self.remaining_factions.len();
        if needed > left && (invaders_from_afar || needed - left > 2) {
            return Err(SetupError::PreconditionViolation);
        }
        if !invaders_from_afar {
            add_invaders(&mut self.remaining_factions);
            rng.shuffle(&mut self.remaining_factions);
        }
        proof {
            assert(base_order_fits(before, invaders_from_afar, self.remaining_factions@));
            assert(rng.asked() =~= old(rng).asked() + asks_of_bases(before, invaders_from_afar));
        }
        self.draw_bases()
    }

    /// Hands the factions that are left, front first, to the players whose
    /// faction needs a base, in seating order. The pool is taken in the
    /// order it is in: whoever wants the bases drawn by chance shuffles it
    /// before.
    ///
    /// Fails with `PreconditionViolation`, and changes nothing, where fewer
    /// factions are left than bases are needed.
    pub fn draw_bases(&mut self) -> (assigned: Result<(), SetupError>)
        ensures
            assigned is Ok <==> bases_needed(old(self)@.players) <= old(self)@.factions.len(),
            assigned is Ok ==> final(self)@ == with_bases(old(self)@, old(self)@.factions),
            assigned matches Err(e) ==> e == SetupError::PreconditionViolation && final(self)@
                == old(self)@,
    {
        let ghost before = self@;
        let ghost order = self.remaining_factions@;
        let needed = count_bases_needed(&self.players);
        if needed > self.remaining_factions.len() {
            return Err(SetupError::PreconditionViolation);
        }
        let mut taken: usize = 0;
        let mut i: usize = 0;
        while i < self.players.len()
            invariant
                i <= before.players.len(),
                self.players@.len() == before.players.len(),
                self.remaining_player_mats@ == before.player_mats,
                taken == bases_needed(before.players.take(i as int)),
                taken <= needed,
                needed == bases_needed(before.players),
                needed <= order.len(),
                self.remaining_factions@ == order.skip(taken as int),
                forall|k: int|
                    0 <= k < i ==> #[trigger] self.players@[k] == with_base(
                        before.players,
                        order,
                        k,
                    ),
                forall|k: int|
                    i <= k < before.players.len() ==> #[trigger] self.players@[k]
                        == before.players[k],
            decreases before.players.len() - i,
        {
            proof {
                bases_needed_by_prefix(before.players, i as int);
            }
            let player = self.players[i];
            if player.faction.needs_base() {
                let base = self.remaining_factions.remove(0);
                self.players.set(
                    i,
                    Player {
                        id: player.id,
                        faction: player.faction,
                        player_mat: player.player_mat,
                        base: Some(base),
                    },
                );
                proof {
                    assert(self.remaining_factions@ =~= order.skip(taken as int + 1));
                }
                taken += 1;
            }
            i += 1;
        }
        proof {
            assert(before.players.take(i as int) =~= before.players);
            assert(self@.players =~= with_bases(before, order).players);
            assert(order.skip(0) =~= order);
        }
        Ok(())
    }
}

} // verus!
