//! The table while players are being seated, as a mathematical model: what
//! one seating does to it for each way the draws can fall, and what holds of
//! it however they fall.

use vstd::prelude::*;

use crate::catalog::Faction;
use crate::catalog::PlayerMat;
use crate::randomizer::is_permutation;
use crate::randomizer::permutation_keeps_distinct;
use crate::randomizer::Ask;
use crate::rules::at_most_one_banned_faction;
use crate::rules::at_most_one_banned_mat;
use crate::rules::forbidden;
use crate::rules::one_to_one;

verus! {

/// A seated player. Players are numbered from 1 in the order they are
/// seated.
#[derive(Clone, Copy, Debug, PartialEq, Eq)]
pub struct Player {
    pub id: u8,
    pub faction: Faction,
    pub player_mat: PlayerMat,
    /// The faction whose home base the player starts from, for a faction
    /// that has none of its own.
    pub base: Option<Faction>,
}

/// The players seated so far and what is left of the two pools, front
/// first.
pub struct Table {
    pub players: Seq<Player>,
    pub factions: Seq<Faction>,
    pub player_mats: Seq<PlayerMat>,
}

/// What chance decides while one player is seated: the order in which the
/// mats go back into the pool, and the player to swap mats with. A seating
/// reads of it only what it needs.
pub struct Draw {
    pub order: Seq<PlayerMat>,
    pub partner: int,
}

/// How the next player comes by a mat.
#[derive(Clone, Copy, Debug, PartialEq, Eq, Structural)]
pub enum Repair {
    /// The pair at the front of the pools is allowed and is taken.
    Natural,
    /// The pair is banned and the pool has another mat: the player takes
    /// that one, and the rejected mat goes back into the pool.
    Pool,
    /// The pair is banned and the mat was the last: the player swaps it with
    /// a player seated before.
    Swap,
}

/// The mats of the seated players, in seating order.
pub open spec fn mats_of(players: Seq<Player>) -> Seq<PlayerMat> {
    Seq::new(players.len(), |i: int| players[i].player_mat)
}

/// The factions of the seated players, in seating order.
pub open spec fn factions_of(players: Seq<Player>) -> Seq<Faction> {
    Seq::new(players.len(), |i: int| players[i].faction)
}

/// The table before anybody is seated.
pub open spec fn empty_table(factions: Seq<Faction>, player_mats: Seq<PlayerMat>) -> Table {
    Table { players: Seq::empty(), factions, player_mats }
}

/// Whether a player can still be seated: both pools have an entry, and the
/// player's number fits.
pub open spec fn has_next(table: Table) -> bool {
    table.factions.len() > 0 && table.player_mats.len() > 0 && table.players.len() < 255
}

/// How the next player comes by a mat.
pub open spec fn next_repair(table: Table, rules: Seq<(Faction, PlayerMat)>) -> Repair
    recommends
        has_next(table),
{
    if !forbidden(rules, table.factions[0], table.player_mats[0]) {
        Repair::Natural
    } else if table.player_mats.len() > 1 {
        Repair::Pool
    } else {
        Repair::Swap
    }
}

/// Whether `draw` is one that chance can give while the next player is
/// seated.
pub open spec fn draw_fits(table: Table, rules: Seq<(Faction, PlayerMat)>, draw: Draw) -> bool
    recommends
        has_next(table),
{
    match next_repair(table, rules) {
        Repair::Natural => true,
        Repair::Pool => is_permutation(
            draw.order,
            table.player_mats.skip(2).push(table.player_mats[0]),
        ),
        Repair::Swap => 0 <= draw.partner < table.players.len(),
    }
}

/// The table after the next player is seated under `draw`.
///
/// The player takes the faction at the front of its pool, and the mat at the
/// front of the other unless that pair is banned. A banned mat is rejected
/// for the next mat of the pool and goes back into the pool, which is put
/// into a new order; where it was the last mat, it is swapped for the mat of
/// the partner that the draw names.
pub open spec fn seat(table: Table, rules: Seq<(Faction, PlayerMat)>, draw: Draw) -> Table
    recommends
        has_next(table),
        draw_fits(table, rules, draw),
{
    let id = (table.players.len() + 1) as u8;
    let faction = table.factions[0];
    let player_mat = table.player_mats[0];
    match next_repair(table, rules) {
        Repair::Natural => Table {
            players: table.players.push(Player { id, faction, player_mat, base: None }),
            factions: table.factions.skip(1),
            player_mats: table.player_mats.skip(1),
        },
        Repair::Pool => Table {
            players: table.players.push(
                Player { id, faction, player_mat: table.player_mats[1], base: None },
            ),
            factions: table.factions.skip(1),
            player_mats: draw.order,
        },
        Repair::Swap => {
            let partner = table.players[draw.partner];
            Table {
                players: table.players.update(
                    draw.partner,
                    Player { player_mat, ..partner },
                ).push(Player { id, faction, player_mat: partner.player_mat, base: None }),
                factions: table.factions.skip(1),
                player_mats: table.player_mats.skip(1),
            }
        },
    }
}

/// The table after one player is seated for each of `draws`, in turn.
pub open spec fn seat_all(table: Table, rules: Seq<(Faction, PlayerMat)>, draws: Seq<Draw>) -> Table
    decreases draws.len(),
{
    if draws.len() == 0 {
        table
    } else {
        seat(seat_all(table, rules, draws.drop_last()), rules, draws.last())
    }
}

/// What is asked of chance while the next player is seated: nothing where
/// the pair drawn is allowed, a shuffle of the pool with the rejected mat
/// back in it, or an index among the players seated before.
pub open spec fn asks_of_seat(table: Table, rules: Seq<(Faction, PlayerMat)>) -> Seq<Ask>
    recommends
        has_next(table),
{
    match next_repair(table, rules) {
        Repair::Natural => Seq::empty(),
        Repair::Pool => seq![Ask::Shuffle { len: (table.player_mats.len() - 1) as nat }],
        Repair::Swap => seq![Ask::Index { bound: table.players.len() }],
    }
}

/// What is asked of chance while one player is seated for each of `draws`,
/// in turn.
pub open spec fn asks_of_seat_all(
    table: Table,
    rules: Seq<(Faction, PlayerMat)>,
    draws: Seq<Draw>,
) -> Seq<Ask>
    decreases draws.len(),
{
    if draws.len() == 0 {
        Seq::empty()
    } else {
        asks_of_seat_all(table, rules, draws.drop_last()) + asks_of_seat(
            seat_all(table, rules, draws.drop_last()),
            rules,
        )
    }
}

/// Whether every one of `draws` is one that chance can give when its turn
/// comes, and there is a player to seat for each.
pub open spec fn draws_fit(table: Table, rules: Seq<(Faction, PlayerMat)>, draws: Seq<Draw>) -> bool
    decreases draws.len(),
{
    draws.len() > 0 ==> {
        let before = seat_all(table, rules, draws.drop_last());
        &&& draws_fit(table, rules, draws.drop_last())
        &&& has_next(before)
        &&& next_repair(before, rules) == Repair::Swap ==> before.players.len() > 0
        &&& draw_fits(before, rules, draws.last())
    }
}

/// Whether `table` is what seating from the pools `factions` and
/// `player_mats` can lead to.
///
/// The players are numbered from 1 and hold the pool's factions in the
/// pool's order; what is left of the factions is the rest of the pool; the
/// mats of the players and those left are, together, the mats of the pool.
/// And where neither pool offers an entry twice, no seated player holds a
/// banned pair.
pub open spec fn seated_from(
    table: Table,
    rules: Seq<(Faction, PlayerMat)>,
    factions: Seq<Faction>,
    player_mats: Seq<PlayerMat>,
) -> bool {
    let seated = table.players.len() as int;
    &&& seated <= 255
    &&& seated <= factions.len()
    &&& table.factions == factions.skip(seated)
    &&& forall|i: int|
        0 <= i < seated ==> {
            &&& (#[trigger] table.players[i]).id == i + 1
            &&& table.players[i].faction == factions[i]
            &&& table.players[i].base is None
        }
    &&& is_permutation(mats_of(table.players) + table.player_mats, player_mats)
    &&& factions.no_duplicates() && player_mats.no_duplicates() ==> forall|i: int|
        0 <= i < seated ==> !forbidden(
            rules,
            (#[trigger] table.players[i]).faction,
            table.players[i].player_mat,
        )
}

/// Seating one more player leads from a table that the pools can lead to to
/// another such table.
pub proof fn seat_keeps_seated_from(
    table: Table,
    rules: Seq<(Faction, PlayerMat)>,
    draw: Draw,
    factions: Seq<Faction>,
    player_mats: Seq<PlayerMat>,
)
    requires
        one_to_one(rules),
        seated_from(table, rules, factions, player_mats),
        has_next(table),
        draw_fits(table, rules, draw),
    ensures
        seated_from(seat(table, rules, draw), rules, factions, player_mats),
        seat(table, rules, draw).players.len() == table.players.len() + 1,
{
    broadcast use vstd::seq_lib::group_to_multiset_ensures;

    let next = seat(table, rules, draw);
    let seated = table.players.len() as int;
    let faction = table.factions[0];
    let player_mat = table.player_mats[0];
    let held = mats_of(table.players);
    let all = held + table.player_mats;
    assert(faction == factions[seated]);
    assert(next.factions == factions.skip(seated + 1));
    vstd::seq_lib::lemma_multiset_commutative(held, table.player_mats);
    vstd::seq_lib::lemma_multiset_commutative(mats_of(next.players), next.player_mats);
    let distinct = factions.no_duplicates() && player_mats.no_duplicates();
    if distinct {
        permutation_keeps_distinct(all, player_mats);
        assert(all[seated] == player_mat);
    }
    match next_repair(table, rules) {
        Repair::Natural => {
            assert(mats_of(next.players) =~= held.push(player_mat));
            assert(mats_of(next.players) + next.player_mats =~= all);
        },
        Repair::Pool => {
            let second = table.player_mats[1];
            let rest = table.player_mats.skip(2);
            assert(mats_of(next.players) =~= held.push(second));
            assert(table.player_mats =~= seq![player_mat, second] + rest);
            vstd::seq_lib::lemma_multiset_commutative(seq![player_mat, second], rest);
            assert(seq![player_mat, second] =~= Seq::<PlayerMat>::empty().push(player_mat).push(
                second,
            ));
            assert(mats_of(next.players).to_multiset().add(next.player_mats.to_multiset())
                =~= held.to_multiset().add(table.player_mats.to_multiset()));
            if distinct {
                assert(all[seated + 1] == second);
                at_most_one_banned_mat(rules, faction, player_mat, second);
            }
        },
        Repair::Swap => {
            let j = draw.partner;
            let partner = table.players[j];
            assert(table.player_mats =~= Seq::<PlayerMat>::empty().push(player_mat));
            assert(next.player_mats =~= Seq::<PlayerMat>::empty());
            assert(mats_of(next.players) =~= held.update(j, player_mat).push(partner.player_mat));
            assert(held[j] == partner.player_mat);
            assert(mats_of(next.players).to_multiset().add(next.player_mats.to_multiset())
                =~= held.to_multiset().add(table.player_mats.to_multiset()));
            if distinct {
                assert(all[j] == partner.player_mat);
                at_most_one_banned_mat(rules, faction, player_mat, partner.player_mat);
                assert(partner.faction == factions[j]);
                at_most_one_banned_faction(rules, faction, partner.faction, player_mat);
            }
        },
    }
}

/// Whatever the draws, seating leads from a table that the pools can lead
/// to to another such table, with one more player for each draw: nobody
/// holds a banned pair, no faction or mat is invented or lost.
pub proof fn seat_all_keeps_seated_from(
    table: Table,
    rules: Seq<(Faction, PlayerMat)>,
    draws: Seq<Draw>,
    factions: Seq<Faction>,
    player_mats: Seq<PlayerMat>,
)
    requires
        one_to_one(rules),
        seated_from(table, rules, factions, player_mats),
        draws_fit(table, rules, draws),
    ensures
        seated_from(seat_all(table, rules, draws), rules, factions, player_mats),
        seat_all(table, rules, draws).players.len() == table.players.len() + draws.len(),
    decreases draws.len(),
{
    if draws.len() > 0 {
        seat_all_keeps_seated_from(table, rules, draws.drop_last(), factions, player_mats);
        seat_keeps_seated_from(
            seat_all(table, rules, draws.drop_last()),
            rules,
            draws.last(),
            factions,
            player_mats,
        );
    }
}

/// The players of a table that the pools can lead to hold different
/// factions where the pool offers none twice, and different mats where the
/// pool offers none twice; every mat still in the pool differs from theirs.
pub proof fn seated_players_are_distinct(
    table: Table,
    rules: Seq<(Faction, PlayerMat)>,
    factions: Seq<Faction>,
    player_mats: Seq<PlayerMat>,
)
    requires
        seated_from(table, rules, factions, player_mats),
    ensures
        factions_of(table.players) == factions.take(table.players.len() as int),
        table.players.len() + table.player_mats.len() == player_mats.len(),
        factions.no_duplicates() ==> factions_of(table.players).no_duplicates(),
        player_mats.no_duplicates() ==> (mats_of(table.players) + table.player_mats).no_duplicates(),
        player_mats.no_duplicates() ==> mats_of(table.players).no_duplicates(),
{
    let held = mats_of(table.players);
    let all = held + table.player_mats;
    assert(factions_of(table.players) =~= factions.take(table.players.len() as int));
    all.to_multiset_ensures();
    player_mats.to_multiset_ensures();
    if player_mats.no_duplicates() {
        permutation_keeps_distinct(all, player_mats);
        assert forall|i: int, j: int| 0 <= i < held.len() && 0 <= j < held.len() && i != j implies held[i]
            != held[j] by {
            assert(all[i] == held[i] && all[j] == held[j]);
        }
    }
}

/// Determinism: chance enters a seating through the draws alone. From the
/// same pools, under the same rules and with the same draws, the same
/// players hold the same factions and mats, and the same entries are left.
pub proof fn same_draws_same_table(
    first: Table,
    second: Table,
    rules: Seq<(Faction, PlayerMat)>,
    first_draws: Seq<Draw>,
    second_draws: Seq<Draw>,
)
    requires
        first.players == second.players,
        first.factions == second.factions,
        first.player_mats == second.player_mats,
        first_draws.len() == second_draws.len(),
        forall|i: int|
            0 <= i < first_draws.len() ==> (#[trigger] first_draws[i]).order == second_draws[i].order
                && first_draws[i].partner == second_draws[i].partner,
    ensures
        seat_all(first, rules, first_draws) == seat_all(second, rules, second_draws),
{
    assert(first_draws =~= second_draws);
}

/// A draw decides nothing where the pair at the front of the pools is
/// allowed: the player takes that pair whatever the draw.
pub proof fn natural_seating_ignores_the_draw(
    table: Table,
    rules: Seq<(Faction, PlayerMat)>,
    first: Draw,
    second: Draw,
)
    requires
        next_repair(table, rules) == Repair::Natural,
    ensures
        seat(table, rules, first) == seat(table, rules, second),
{
}

/// Mats are swapped only for the last mat of the pool, by the last player:
/// where `count` players are to be seated and the next one swaps, that
/// player is the last of them, there are exactly as many mats on offer as
/// players, and the pair drawn is banned.
pub proof fn swap_only_for_the_last_mat(
    table: Table,
    rules: Seq<(Faction, PlayerMat)>,
    factions: Seq<Faction>,
    player_mats: Seq<PlayerMat>,
    count: int,
)
    requires
        seated_from(table, rules, factions, player_mats),
        has_next(table),
        table.players.len() < count <= player_mats.len(),
        next_repair(table, rules) == Repair::Swap,
    ensures
        count == player_mats.len(),
        table.players.len() + 1 == count,
        forbidden(rules, table.factions[0], table.player_mats[0]),
{
    seated_players_are_distinct(table, rules, factions, player_mats);
}

/// A banned pair is repaired from the pool while the pool has another mat:
/// the player takes the next mat, and the rejected one is in the pool again,
/// somewhere among the mats that were left.
pub proof fn pool_repair_takes_the_next_mat(
    table: Table,
    rules: Seq<(Faction, PlayerMat)>,
    draw: Draw,
)
    requires
        has_next(table),
        table.player_mats.len() >= 2,
        forbidden(rules, table.factions[0], table.player_mats[0]),
        draw_fits(table, rules, draw),
    ensures
        ({
            let next = seat(table, rules, draw);
            &&& next_repair(table, rules) == Repair::Pool
            &&& next.players == table.players.push(
                Player {
                    id: (table.players.len() + 1) as u8,
                    faction: table.factions[0],
                    player_mat: table.player_mats[1],
                    base: None,
                },
            )
            &&& next.player_mats.len() == table.player_mats.len() - 1
            &&& next.player_mats.contains(table.player_mats[0])
            &&& forall|i: int|
                2 <= i < table.player_mats.len() ==> next.player_mats.contains(
                    #[trigger] table.player_mats[i],
                )
        }),
{
    let next = seat(table, rules, draw);
    let pool = table.player_mats.skip(2).push(table.player_mats[0]);
    next.player_mats.to_multiset_ensures();
    pool.to_multiset_ensures();
    assert(pool[pool.len() - 1] == table.player_mats[0]);
    assert(next.player_mats.to_multiset().count(table.player_mats[0]) == pool.to_multiset().count(
        table.player_mats[0],
    ));
    assert forall|i: int| 2 <= i < table.player_mats.len() implies next.player_mats.contains(
        #[trigger] table.player_mats[i],
    ) by {
        assert(pool[i - 2] == table.player_mats[i]);
        assert(next.player_mats.to_multiset().count(table.player_mats[i])
            == pool.to_multiset().count(table.player_mats[i]));
    }
}

/// The first player never swaps where the pool offers two mats or more: a
/// banned first pair is repaired from the pool.
pub proof fn first_player_never_swaps(
    factions: Seq<Faction>,
    player_mats: Seq<PlayerMat>,
    rules: Seq<(Faction, PlayerMat)>,
)
    requires
        player_mats.len() >= 2,
    ensures
        next_repair(empty_table(factions, player_mats), rules) != Repair::Swap,
{
}

/// A swap changes the mats of the two players it names and of nobody else:
/// the partner takes the rejected mat, the new player the partner's.
pub proof fn swap_touches_two_players(table: Table, rules: Seq<(Faction, PlayerMat)>, draw: Draw)
    requires
        has_next(table),
        next_repair(table, rules) == Repair::Swap,
        draw_fits(table, rules, draw),
    ensures
        ({
            let next = seat(table, rules, draw);
            let seated = table.players.len() as int;
            &&& next.players.len() == seated + 1
            &&& next.players[seated].player_mat == table.players[draw.partner].player_mat
            &&& next.players[seated].faction == table.factions[0]
            &&& next.players[draw.partner].player_mat == table.player_mats[0]
            &&& next.players[draw.partner].faction == table.players[draw.partner].faction
            &&& forall|i: int|
                0 <= i < seated && i != draw.partner ==> #[trigger] next.players[i]
                    == table.players[i]
        }),
{
}

} // verus!
