//! A whole setup: the tiles, then a faction and a player mat for every
//! player.

use vstd::prelude::*;

use crate::bases::at_most_one_base_needed;
use crate::bases::asks_of_bases;
use crate::bases::base_is_from_the_order;
use crate::bases::base_order_fits;
use crate::bases::base_pool;
use crate::bases::bases_needed;
use crate::bases::bases_needed_by_prefix;
use crate::bases::no_base_needed;
use crate::bases::with_bases;
use crate::catalog::factions;
use crate::catalog::invader_factions;
use crate::catalog::max_player_count;
use crate::catalog::offered_aggressive_airship_tiles;
use crate::catalog::offered_factions;
use crate::catalog::offered_factions_are_distinct;
use crate::catalog::offered_passive_airship_tiles;
use crate::catalog::offered_player_mats;
use crate::catalog::offered_player_mats_are_distinct;
use crate::catalog::offered_resolution_tiles;
use crate::catalog::offered_structure_bonuses;
use crate::catalog::player_limit;
use crate::catalog::player_mats;
use crate::catalog::Faction;
use crate::catalog::PlayerMat;
use crate::catalog::MIN_PLAYER_COUNT;
use crate::engine::seat_players;
use crate::error::SetupError;
use crate::picker::choose_airship_tiles;
use crate::picker::choose_resolution_tile;
use crate::picker::choose_structure_bonus;
use crate::randomizer::is_permutation;
use crate::randomizer::permutation_keeps_distinct;
use crate::randomizer::permutation_keeps_items;
use crate::randomizer::Ask;
use crate::randomizer::Randomizer;
use crate::rules::banned;
use crate::rules::standard_banned_pairs;
use crate::rules::standard_pairs_are_one_to_one;
use crate::rules::standard_pairs_are_the_banned;
use crate::rules::BannedPairs;
use crate::seating::asks_of_seat_all;
use crate::seating::draws_fit;
use crate::seating::empty_table;
use crate::seating::factions_of;
use crate::seating::mats_of;
use crate::seating::seat_all;
use crate::seating::seat_all_keeps_seated_from;
use crate::seating::seated_from;
use crate::seating::seated_players_are_distinct;
use crate::seating::Draw;
use crate::seating::Player;
use crate::seating::Table;

verus! {

/// What the players chose to play with.
#[derive(Clone, Copy, Debug, PartialEq, Eq)]
pub struct Options {
    pub player_count: u8,
    /// Invaders from Afar: two more factions and two more player mats.
    pub invaders_from_afar: bool,
    /// The Wind Gambit: a resolution tile and a pair of airship tiles.
    pub wind_gambit: bool,
    /// Rise of Fenris: the faction Tesla.
    pub rise_of_fenris: bool,
    /// The modular board: eight more structure bonus tiles.
    pub modular_board: bool,
}

/// A finished setup.
#[derive(Debug, PartialEq, Eq)]
pub struct Setup {
    pub structure_bonus: &'static str,
    pub resolution: Option<&'static str>,
    /// The aggressive airship tile, then the passive one.
    pub airship: Option<(&'static str, &'static str)>,
    pub players: Vec<Player>,
}

/// Whether the game takes `player_count` players: one to five, and up to
/// seven with Invaders from Afar.
pub open spec fn player_count_is_valid(player_count: u8, invaders_from_afar: bool) -> bool {
    1 <= player_count <= player_limit(invaders_from_afar)
}

/// The players are numbered from 1 in seating order.
pub open spec fn numbered_from_one(players: Seq<Player>) -> bool {
    forall|i: int| 0 <= i < players.len() ==> (#[trigger] players[i]).id == i + 1
}

/// Nobody holds a pair that the rule book bans.
pub open spec fn no_banned_pair(players: Seq<Player>) -> bool {
    forall|i: int|
        0 <= i < players.len() ==> !banned((#[trigger] players[i]).faction, players[i].player_mat)
}

/// Every player holds a faction and a player mat that are on offer.
pub open spec fn drawn_from_offer(
    players: Seq<Player>,
    invaders_from_afar: bool,
    rise_of_fenris: bool,
) -> bool {
    forall|i: int|
        0 <= i < players.len() ==> {
            &&& offered_factions(invaders_from_afar, rise_of_fenris).contains(
                (#[trigger] players[i]).faction,
            )
            &&& offered_player_mats(invaders_from_afar).contains(players[i].player_mat)
        }
}

/// A player has a base exactly if the faction needs one, and it is the base
/// of a faction of the game that nobody at the table plays.
pub open spec fn bases_are_free(players: Seq<Player>, rise_of_fenris: bool) -> bool {
    forall|i: int|
        0 <= i < players.len() ==> {
            &&& (#[trigger] players[i]).base is Some <==> players[i].faction.has_base()
            &&& players[i].base matches Some(base) ==> offered_factions(true, rise_of_fenris).contains(
                base,
            ) && !factions_of(players).contains(base)
        }
}

/// What holds of the players of every setup: they are numbered from 1; no
/// two of them hold the same faction or the same player mat; each holds a
/// faction and a mat that are on offer, and nobody a banned pair; and where
/// there are as many players as mats, or as factions, on offer, the players
/// hold exactly those, none missing and none twice.
pub open spec fn fairly_seated(
    players: Seq<Player>,
    invaders_from_afar: bool,
    rise_of_fenris: bool,
) -> bool {
    let offered_mats = offered_player_mats(invaders_from_afar);
    let offer = offered_factions(invaders_from_afar, rise_of_fenris);
    &&& numbered_from_one(players)
    &&& factions_of(players).no_duplicates()
    &&& mats_of(players).no_duplicates()
    &&& drawn_from_offer(players, invaders_from_afar, rise_of_fenris)
    &&& no_banned_pair(players)
    &&& players.len() == offered_mats.len() ==> is_permutation(mats_of(players), offered_mats)
    &&& players.len() == offer.len() ==> is_permutation(factions_of(players), offer)
}

/// Whether chance can give these draws while a setup is generated: the two
/// pools in a shuffled order, one draw for every player to seat, and the
/// order in which bases come out of their pool.
pub open spec fn draws_suit(
    options: Options,
    shuffled_factions: Seq<Faction>,
    shuffled_mats: Seq<PlayerMat>,
    draws: Seq<Draw>,
    base_order: Seq<Faction>,
) -> bool {
    let start = empty_table(shuffled_factions, shuffled_mats);
    &&& is_permutation(
        shuffled_factions,
        offered_factions(options.invaders_from_afar, options.rise_of_fenris),
    )
    &&& is_permutation(shuffled_mats, offered_player_mats(options.invaders_from_afar))
    &&& draws.len() == options.player_count
    &&& draws_fit(start, standard_banned_pairs(), draws)
    &&& base_order_fits(
        seat_all(start, standard_banned_pairs(), draws),
        options.invaders_from_afar,
        base_order,
    )
}

/// What picking the tiles asks of chance: a shuffle of the structure bonus
/// tiles, and with The Wind Gambit one of the resolution tiles, of the
/// aggressive and of the passive airship tiles.
pub open spec fn asks_of_tiles(options: Options) -> Seq<Ask> {
    seq![Ask::Shuffle { len: offered_structure_bonuses(options.modular_board).len() }] + (
    if options.wind_gambit {
        seq![
            Ask::Shuffle { len: offered_resolution_tiles().len() },
            Ask::Shuffle { len: offered_aggressive_airship_tiles().len() },
            Ask::Shuffle { len: offered_passive_airship_tiles().len() },
        ]
    } else {
        Seq::empty()
    })
}

/// What building the two pools asks of chance: a shuffle of the factions,
/// then one of the player mats.
pub open spec fn asks_of_pools(options: Options) -> Seq<Ask> {
    seq![
        Ask::Shuffle {
            len: offered_factions(options.invaders_from_afar, options.rise_of_fenris).len(),
        },
        Ask::Shuffle { len: offered_player_mats(options.invaders_from_afar).len() },
    ]
}

/// What is asked of chance while a setup is generated, in this order: what
/// the tiles ask, what the pools ask, what seating asks, and what the bases
/// ask.
pub open spec fn asks_of_setup(
    options: Options,
    shuffled_factions: Seq<Faction>,
    shuffled_mats: Seq<PlayerMat>,
    draws: Seq<Draw>,
) -> Seq<Ask> {
    let start = empty_table(shuffled_factions, shuffled_mats);
    asks_of_tiles(options) + asks_of_pools(options) + asks_of_seat_all(
        start,
        standard_banned_pairs(),
        draws,
    ) + asks_of_bases(seat_all(start, standard_banned_pairs(), draws), options.invaders_from_afar)
}

/// The players of the setup that these draws lead to: seated from the
/// shuffled pools under the rule book's table, then given their bases.
pub open spec fn players_for(
    shuffled_factions: Seq<Faction>,
    shuffled_mats: Seq<PlayerMat>,
    draws: Seq<Draw>,
    base_order: Seq<Faction>,
) -> Seq<Player> {
    with_bases(
        seat_all(empty_table(shuffled_factions, shuffled_mats), standard_banned_pairs(), draws),
        base_order,
    ).players
}

/// Accepts a player count that the game takes.
pub fn validate_player_count(player_count: u8, invaders_from_afar: bool) -> (checked: Result<
    (),
    SetupError,
>)
    ensures
        checked is Ok <==> player_count_is_valid(player_count, invaders_from_afar),
        checked matches Err(e) ==> e == SetupError::InvalidPlayerCount,
{
    if player_count < MIN_PLAYER_COUNT || player_count > max_player_count(invaders_from_afar) {
        Err(SetupError::InvalidPlayerCount)
    } else {
        Ok(())
    }
}

/// The factions on offer, shuffled. That one shuffle is all that is asked
/// of chance.
pub fn init_factions(rng: &mut Randomizer, invaders_from_afar: bool, rise_of_fenris: bool) -> (pool:
    Vec<Faction>)
    ensures
        is_permutation(pool@, offered_factions(invaders_from_afar, rise_of_fenris)),
        pool@.len() == offered_factions(invaders_from_afar, rise_of_fenris).len(),
        pool@.no_duplicates(),
        final(rng).asked() == old(rng).asked().push(
            Ask::Shuffle { len: offered_factions(invaders_from_afar, rise_of_fenris).len() },
        ),
{
    let mut pool = factions(invaders_from_afar, rise_of_fenris);
    rng.shuffle(&mut pool);
    proof {
        offered_factions_are_distinct(invaders_from_afar, rise_of_fenris);
        permutation_keeps_distinct(pool@, offered_factions(invaders_from_afar, rise_of_fenris));
    }
    pool
}

/// The player mats on offer, shuffled. That one shuffle is all that is
/// asked of chance.
pub fn init_player_mats(rng: &mut Randomizer, invaders_from_afar: bool) -> (pool: Vec<PlayerMat>)
    ensures
        is_permutation(pool@, offered_player_mats(invaders_from_afar)),
        pool@.len() == offered_player_mats(invaders_from_afar).len(),
        pool@.no_duplicates(),
        final(rng).asked() == old(rng).asked().push(
            Ask::Shuffle { len: offered_player_mats(invaders_from_afar).len() },
        ),
{
    let mut pool = player_mats(invaders_from_afar);
    rng.shuffle(&mut pool);
    proof {
        offered_player_mats_are_distinct(invaders_from_afar);
        permutation_keeps_distinct(pool@, offered_player_mats(invaders_from_afar));
    }
    pool
}

/// The lowest rank among the players' mats, which marks the weakest mat at
/// the table; none where nobody is seated.
pub fn lowest_value(players: &Vec<Player>) -> (lowest: Option<u32>)
    ensures
        lowest is None <==> players@.len() == 0,
        lowest matches Some(value) ==> {
            &&& forall|i: int|
                0 <= i < players@.len() ==> value <= (#[trigger] players@[i]).player_mat.rank()
            &&& exists|i: int|
                0 <= i < players@.len() && value == (#[trigger] players@[i]).player_mat.rank()
        },
{
    if players.len() == 0 {
        return None;
    }
    let mut lowest: u32 = players[0].player_mat.value();
    let mut i: usize = 1;
    while i < players.len()
        invariant
            1 <= i <= players@.len(),
            forall|k: int| 0 <= k < i ==> lowest <= (#[trigger] players@[k]).player_mat.rank(),
            exists|k: int| 0 <= k < i && lowest == (#[trigger] players@[k]).player_mat.rank(),
        decreases players@.len() - i,
    {
        let value = players[i].player_mat.value();
        if value < lowest {
            lowest = value;
        }
        i += 1;
    }
    Some(lowest)
}

/// Players seated from a shuffled offer under the rule book's table are
/// fairly seated, and the factions left are enough for the bases needed.
proof fn seated_from_offer_is_fair(
    table: Table,
    shuffled: Seq<Faction>,
    shuffled_mats: Seq<PlayerMat>,
    invaders_from_afar: bool,
    rise_of_fenris: bool,
)
    requires
        is_permutation(shuffled, offered_factions(invaders_from_afar, rise_of_fenris)),
        is_permutation(shuffled_mats, offered_player_mats(invaders_from_afar)),
        shuffled.no_duplicates(),
        shuffled_mats.no_duplicates(),
        seated_from(table, standard_banned_pairs(), shuffled, shuffled_mats),
        table.players.len() <= player_limit(invaders_from_afar),
    ensures
        fairly_seated(table.players, invaders_from_afar, rise_of_fenris),
        bases_needed(table.players) <= base_pool(table, invaders_from_afar).len(),
        factions_of(table.players) == shuffled.take(table.players.len() as int),
{
    let players = table.players;
    let count = players.len() as int;
    let offer = offered_factions(invaders_from_afar, rise_of_fenris);
    let offered_mats = offered_player_mats(invaders_from_afar);
    let all = mats_of(players) + table.player_mats;
    offered_factions_are_distinct(invaders_from_afar, rise_of_fenris);
    offered_player_mats_are_distinct(invaders_from_afar);
    seated_players_are_distinct(table, standard_banned_pairs(), shuffled, shuffled_mats);
    shuffled.to_multiset_ensures();
    offer.to_multiset_ensures();
    shuffled_mats.to_multiset_ensures();
    offered_mats.to_multiset_ensures();
    assert forall|i: int| 0 <= i < count implies {
        &&& !banned((#[trigger] players[i]).faction, players[i].player_mat)
        &&& offer.contains(players[i].faction)
        &&& offered_mats.contains(players[i].player_mat)
    } by {
        let faction = players[i].faction;
        let player_mat = players[i].player_mat;
        standard_pairs_are_the_banned(faction, player_mat);
        assert(shuffled[i] == faction);
        permutation_keeps_items(shuffled, offer, faction);
        assert(all[i] == player_mat);
        permutation_keeps_items(all, shuffled_mats, player_mat);
        permutation_keeps_items(shuffled_mats, offered_mats, player_mat);
    }
    if count == offered_mats.len() {
        assert(all =~= mats_of(players));
    }
    if count == offer.len() {
        assert(shuffled.take(count) =~= shuffled);
    }
    at_most_one_base_needed(players);
    if !rise_of_fenris {
        assert forall|i: int| 0 <= i < count implies !(#[trigger] players[i]).faction.has_base() by {
            let k = choose|k: int| 0 <= k < offer.len() && offer[k] == players[i].faction;
        }
        no_base_needed(players);
    }
}

/// Bases drawn from what a shuffled offer leaves, with the invaders put in
/// where they were not on offer, are bases of factions that nobody plays;
/// and drawing them changes no player's number, faction or mat.
proof fn drawn_bases_are_free(
    table: Table,
    shuffled: Seq<Faction>,
    order: Seq<Faction>,
    invaders_from_afar: bool,
    rise_of_fenris: bool,
)
    requires
        is_permutation(shuffled, offered_factions(invaders_from_afar, rise_of_fenris)),
        shuffled.no_duplicates(),
        table.players.len() <= shuffled.len(),
        factions_of(table.players) == shuffled.take(table.players.len() as int),
        table.factions == shuffled.skip(table.players.len() as int),
        forall|i: int| 0 <= i < table.players.len() ==> (#[trigger] table.players[i]).base is None,
        base_order_fits(table, invaders_from_afar, order),
        bases_needed(table.players) <= order.len(),
        fairly_seated(table.players, invaders_from_afar, rise_of_fenris),
    ensures
        bases_are_free(with_bases(table, order).players, rise_of_fenris),
        fairly_seated(with_bases(table, order).players, invaders_from_afar, rise_of_fenris),
        with_bases(table, order).players.len() == table.players.len(),
{
    let seated = table.players;
    let count = seated.len() as int;
    let after = with_bases(table, order).players;
    let offer = offered_factions(invaders_from_afar, rise_of_fenris);
    assert(factions_of(after) =~= factions_of(seated));
    assert(mats_of(after) =~= mats_of(seated));
    assert forall|i: int| 0 <= i < after.len() implies {
        &&& (#[trigger] after[i]).id == seated[i].id
        &&& after[i].faction == seated[i].faction
        &&& after[i].player_mat == seated[i].player_mat
    } by {}
    assert forall|i: int| 0 <= i < after.len() implies {
        &&& (#[trigger] after[i]).base is Some <==> after[i].faction.has_base()
        &&& after[i].base matches Some(base) ==> offered_factions(true, rise_of_fenris).contains(
            base,
        ) && !factions_of(after).contains(base)
    } by {
        assert(seated[i].base is None);
        if seated[i].faction.has_base() {
            base_is_from_the_order(seated, order, i);
            let base = after[i].base->0;
            assert(bases_needed(seated) > 0) by {
                bases_needed_by_prefix(seated, i);
            }
            let pool = if invaders_from_afar {
                table.factions
            } else {
                table.factions + invader_factions()
            };
            permutation_keeps_items(order, pool, base);
            assert(pool.contains(base));
            if table.factions.contains(base) {
                let at = choose|at: int| 0 <= at < table.factions.len() && table.factions[at] == base;
                assert(shuffled[count + at] == base);
                permutation_keeps_items(shuffled, offer, base);
                let k = choose|k: int| 0 <= k < offer.len() && offer[k] == base;
                if invaders_from_afar {
                    assert(offered_factions(true, rise_of_fenris)[k] == base);
                } else if k < 5 {
                    assert(offered_factions(true, rise_of_fenris)[k] == base);
                } else {
                    assert(offered_factions(true, rise_of_fenris)[k + 2] == base);
                }
                if factions_of(seated).contains(base) {
                    let j = choose|j: int| 0 <= j < count && factions_of(seated)[j] == base;
                    assert(shuffled[j] == base);
                }
            } else {
                assert(!invaders_from_afar);
                let at = choose|at: int| 0 <= at < pool.len() && pool[at] == base;
                let k = at - table.factions.len();
                assert(invader_factions()[k] == base);
                assert(offered_factions(true, rise_of_fenris)[5 + k] == base);
                if factions_of(seated).contains(base) {
                    let j = choose|j: int| 0 <= j < count && factions_of(seated)[j] == base;
                    assert(shuffled[j] == base);
                    permutation_keeps_items(shuffled, offer, base);
                }
            }
        }
    }
}

/// Whatever the draws, for every choice of expansions and every number of
/// players that the game takes: the players are as many as asked for and
/// fairly seated, and a player has a base exactly if the faction needs one,
/// the base of a faction that nobody plays.
pub proof fn every_setup_is_fair(
    options: Options,
    shuffled_factions: Seq<Faction>,
    shuffled_mats: Seq<PlayerMat>,
    draws: Seq<Draw>,
    base_order: Seq<Faction>,
)
    requires
        player_count_is_valid(options.player_count, options.invaders_from_afar),
        draws_suit(options, shuffled_factions, shuffled_mats, draws, base_order),
    ensures
        ({
            let players = players_for(shuffled_factions, shuffled_mats, draws, base_order);
            &&& players.len() == options.player_count
            &&& fairly_seated(players, options.invaders_from_afar, options.rise_of_fenris)
            &&& bases_are_free(players, options.rise_of_fenris)
        }),
{
    let rules = standard_banned_pairs();
    let start = empty_table(shuffled_factions, shuffled_mats);
    let seated = seat_all(start, rules, draws);
    offered_factions_are_distinct(options.invaders_from_afar, options.rise_of_fenris);
    offered_player_mats_are_distinct(options.invaders_from_afar);
    permutation_keeps_distinct(
        shuffled_factions,
        offered_factions(options.invaders_from_afar, options.rise_of_fenris),
    );
    permutation_keeps_distinct(shuffled_mats, offered_player_mats(options.invaders_from_afar));
    standard_pairs_are_one_to_one();
    assert(mats_of(start.players) + start.player_mats =~= shuffled_mats);
    assert(start.factions =~= shuffled_factions.skip(0));
    seat_all_keeps_seated_from(start, rules, draws, shuffled_factions, shuffled_mats);
    seated_from_offer_is_fair(
        seated,
        shuffled_factions,
        shuffled_mats,
        options.invaders_from_afar,
        options.rise_of_fenris,
    );
    if !(options.invaders_from_afar || bases_needed(seated.players) == 0) {
        base_order.to_multiset_ensures();
        (seated.factions + invader_factions()).to_multiset_ensures();
    }
    drawn_bases_are_free(
        seated,
        shuffled_factions,
        base_order,
        options.invaders_from_afar,
        options.rise_of_fenris,
    );
}

/// Determinism: chance enters the players' part of a setup through the
/// draws alone. With the same shuffled pools, the same draws at the table and
/// the same order of bases, the same players come out.
pub proof fn same_draws_same_players(
    shuffled_factions: Seq<Faction>,
    shuffled_mats: Seq<PlayerMat>,
    draws: Seq<Draw>,
    base_order: Seq<Faction>,
    other_factions: Seq<Faction>,
    other_mats: Seq<PlayerMat>,
    other_draws: Seq<Draw>,
    other_base_order: Seq<Faction>,
)
    requires
        shuffled_factions == other_factions,
        shuffled_mats == other_mats,
        draws == other_draws,
        base_order == other_base_order,
    ensures
        players_for(shuffled_factions, shuffled_mats, draws, base_order) == players_for(
            other_factions,
            other_mats,
            other_draws,
            other_base_order,
        ),
{
}

/// What was asked in four stretches, one after the other, is what was asked
/// in all.
proof fn asks_add_up(
    start: Seq<Ask>,
    first: Seq<Ask>,
    second: Seq<Ask>,
    third: Seq<Ask>,
    fourth: Seq<Ask>,
)
    ensures
        start + first + second + third + fourth == start + (first + second + third + fourth),
{
    assert(start + first + second + third + fourth =~= start + (first + second + third + fourth));
}

/// The tiles of a setup: a structure bonus, and with The Wind Gambit a
/// resolution tile and a pair of airship tiles.
fn choose_tiles(options: &Options, rng: &mut Randomizer) -> (tiles: (
    &'static str,
    Option<&'static str>,
    Option<(&'static str, &'static str)>,
))
    ensures
        offered_structure_bonuses(options.modular_board).contains(tiles.0),
        tiles.1 is Some <==> options.wind_gambit,
        tiles.1 matches Some(tile) ==> offered_resolution_tiles().contains(tile),
        tiles.2 is Some <==> options.wind_gambit,
        tiles.2 matches Some(pair) ==> offered_aggressive_airship_tiles().contains(pair.0)
            && offered_passive_airship_tiles().contains(pair.1),
        final(rng).asked() == old(rng).asked() + asks_of_tiles(*options),
{
    let structure_bonus = choose_structure_bonus(rng, options.modular_board);
    let mut resolution: Option<&'static str> = None;
    let mut airship: Option<(&'static str, &'static str)> = None;
    if options.wind_gambit {
        resolution = Some(choose_resolution_tile(rng));
        airship = Some(choose_airship_tiles(rng));
    }
    proof {
        assert(rng.asked() =~= old(rng).asked() + asks_of_tiles(*options));
    }
    (structure_bonus, resolution, airship)
}

/// Generates a setup: a structure bonus tile; with The Wind Gambit a
/// resolution tile and two airship tiles; then a faction and a player mat
/// for every player, and a base for a faction that needs one.
///
/// Fails with `InvalidPlayerCount`, before chance is asked, exactly where
/// the game does not take that many players. Otherwise, whatever the draws:
/// every tile is one on offer; there are as many players as asked for,
/// fairly seated; and a player has a base exactly if the faction needs one,
/// the base of a faction that nobody plays. The players are those that the
/// model gives for the draws that chance gave, and chance was asked what the
/// model says for them, in that order, and no more.
pub fn generate(options: &Options, rng: &mut Randomizer) -> (outcome: Result<Setup, SetupError>)
    ensures
        outcome is Ok <==> player_count_is_valid(options.player_count, options.invaders_from_afar),
        outcome matches Err(e) ==> e == SetupError::InvalidPlayerCount && *final(rng) == *old(rng),
        outcome matches Ok(setup) ==> {
            &&& offered_structure_bonuses(options.modular_board).contains(setup.structure_bonus)
            &&& setup.resolution is Some <==> options.wind_gambit
            &&& setup.resolution matches Some(tile) ==> offered_resolution_tiles().contains(tile)
            &&& setup.airship is Some <==> options.wind_gambit
            &&& setup.airship matches Some(tiles) ==> offered_aggressive_airship_tiles().contains(
                tiles.0,
            ) && offered_passive_airship_tiles().contains(tiles.1)
            &&& setup.players@.len() == options.player_count
            &&& fairly_seated(setup.players@, options.invaders_from_afar, options.rise_of_fenris)
            &&& bases_are_free(setup.players@, options.rise_of_fenris)
            &&& exists|
                shuffled_factions: Seq<Faction>,
                shuffled_mats: Seq<PlayerMat>,
                draws: Seq<Draw>,
                base_order: Seq<Faction>,
            |
                #[trigger] draws_suit(*options, shuffled_factions, shuffled_mats, draws, base_order)
                    && setup.players@ == players_for(
                    shuffled_factions,
                    shuffled_mats,
                    draws,
                    base_order,
                ) && final(rng).asked() == old(rng).asked() + asks_of_setup(
                    *options,
                    shuffled_factions,
                    shuffled_mats,
                    draws,
                )
        },
{
    match validate_player_count(options.player_count, options.invaders_from_afar) {
        Ok(()) => {},
        Err(e) => {
            return Err(e);
        },
    }
    let ghost asked_at_start = rng.asked();
    let (structure_bonus, resolution, airship) = choose_tiles(options, rng);
    let ghost asked_for_tiles = rng.asked();
    let faction_pool = init_factions(rng, options.invaders_from_afar, options.rise_of_fenris);
    let mat_pool = init_player_mats(rng, options.invaders_from_afar);
    let ghost asked_for_pools = rng.asked();
    proof {
        assert(asked_for_pools =~= asked_for_tiles + asks_of_pools(*options));
    }
    let rules = BannedPairs::standard();
    let ghost shuffled = faction_pool@;
    let ghost shuffled_mats = mat_pool@;
    proof {
        offered_factions_are_distinct(options.invaders_from_afar, options.rise_of_fenris);
        offered_player_mats_are_distinct(options.invaders_from_afar);
    }
    let mut seating = match seat_players(options.player_count, faction_pool, mat_pool, &rules, rng) {
        Ok(seating) => seating,
        Err(e) => {
            return Err(e);
        },
    };
    let ghost seated = seating@;
    let ghost draws = choose|draws: Seq<Draw>|
        draws.len() == options.player_count && #[trigger] draws_fit(
            empty_table(shuffled, shuffled_mats),
            rules@,
            draws,
        ) && seated == seat_all(empty_table(shuffled, shuffled_mats), rules@, draws) && rng.asked()
            == asked_for_pools + asks_of_seat_all(
            empty_table(shuffled, shuffled_mats),
            rules@,
            draws,
        );
    let ghost asked_for_seats = rng.asked();
    proof {
        seated_from_offer_is_fair(
            seated,
            shuffled,
            shuffled_mats,
            options.invaders_from_afar,
            options.rise_of_fenris,
        );
    }
    match seating.assign_bases(options.invaders_from_afar, rng) {
        Ok(()) => {},
        Err(e) => {
            return Err(e);
        },
    }
    proof {
        let order = choose|order: Seq<Faction>| #[trigger]
            base_order_fits(seated, options.invaders_from_afar, order) && seating@ == with_bases(
                seated,
                order,
            );
        assert(draws_suit(*options, shuffled, shuffled_mats, draws, order));
        every_setup_is_fair(*options, shuffled, shuffled_mats, draws, order);
        asks_add_up(
            asked_at_start,
            asks_of_tiles(*options),
            asks_of_pools(*options),
            asks_of_seat_all(empty_table(shuffled, shuffled_mats), rules@, draws),
            asks_of_bases(seated, options.invaders_from_afar),
        );
    }
    Ok(Setup { structure_bonus, resolution, airship, players: seating.players })
}

} // verus!
