//! Seating the players: each takes the next faction and the next player mat
//! of two shuffled pools, and a banned pair is repaired on the spot.

use vstd::prelude::*;

use crate::catalog::factions_are_distinct;
use crate::catalog::player_mats_are_distinct;
use crate::catalog::Faction;
use crate::catalog::PlayerMat;
use crate::error::SetupError;
use crate::randomizer::is_permutation;
use crate::randomizer::Randomizer;
use crate::rules::forbidden;
use crate::rules::one_to_one;
use crate::rules::BannedPairs;
use crate::seating::asks_of_seat;
use crate::seating::asks_of_seat_all;
use crate::seating::draw_fits;
use crate::seating::draws_fit;
use crate::seating::empty_table;
use crate::seating::factions_of;
use crate::seating::has_next;
use crate::seating::mats_of;
use crate::seating::next_repair;
use crate::seating::seat;
use crate::seating::seat_all;
use crate::seating::seat_keeps_seated_from;
use crate::seating::seated_from;
use crate::seating::seated_players_are_distinct;
use crate::seating::Draw;
use crate::seating::Player;
use crate::seating::Repair;
use crate::seating::Table;

verus! {

/// The players seated so far and what is left of the two pools. Both pools
/// are drawn from the front.
#[derive(Debug)]
pub struct Seating {
    pub players: Vec<Player>,
    pub remaining_factions: Vec<Faction>,
    pub remaining_player_mats: Vec<PlayerMat>,
}

impl View for Seating {
    type V = Table;

    open spec fn view(&self) -> Table {
        Table {
            players: self.players@,
            factions: self.remaining_factions@,
            player_mats: self.remaining_player_mats@,
        }
    }
}

/// Whether every pair that the pools offer front to front is allowed, for
/// the first `count` players.
pub open spec fn naturally_allowed(
    rules: Seq<(Faction, PlayerMat)>,
    factions: Seq<Faction>,
    player_mats: Seq<PlayerMat>,
    count: int,
) -> bool {
    forall|i: int| 0 <= i < count ==> !forbidden(rules, #[trigger] factions[i], player_mats[i])
}

impl Seating {
    /// Nobody seated, and the two pools as given.
    pub fn new(factions: Vec<Faction>, player_mats: Vec<PlayerMat>) -> (seating: Seating)
        ensures
            seating@ == empty_table(factions@, player_mats@),
    {
        Seating {
            players: Vec::new(),
            remaining_factions: factions,
            remaining_player_mats: player_mats,
        }
    }

    /// Seats the next player and says how the player came by a mat.
    ///
    /// Fails, and changes nothing, where nobody can be seated: with
    /// `InvalidPlayerCount` where a pool is empty or 255 players are
    /// seated, with `PreconditionViolation` where the first player of all
    /// draws a banned pair and the pool has no other mat. Chance is asked
    /// only where a banned pair is drawn: then for one shuffle of the pool,
    /// or for one index among the players seated.
    pub fn seat_next(&mut self, rules: &BannedPairs, rng: &mut Randomizer) -> (seated: Result<
        Repair,
        SetupError,
    >)
        ensures
            seated is Ok <==> has_next(old(self)@) && (next_repair(old(self)@, rules@)
                == Repair::Swap ==> old(self)@.players.len() > 0),
            !has_next(old(self)@) <==> seated == Err::<Repair, SetupError>(
                SetupError::InvalidPlayerCount,
            ),
            has_next(old(self)@) && next_repair(old(self)@, rules@) == Repair::Swap && old(
                self,
            )@.players.len() == 0 <==> seated == Err::<Repair, SetupError>(
                SetupError::PreconditionViolation,
            ),
            seated is Err ==> final(self)@ == old(self)@ && *final(rng) == *old(rng),
            seated matches Ok(repair) ==> {
                &&& repair == next_repair(old(self)@, rules@)
                &&& exists|draw: Draw| #[trigger]
                    draw_fits(old(self)@, rules@, draw) && final(self)@ == seat(
                        old(self)@,
                        rules@,
                        draw,
                    )
                &&& repair == Repair::Natural ==> *final(rng) == *old(rng)
                &&& final(rng).asked() == old(rng).asked() + asks_of_seat(old(self)@, rules@)
            },
    {
        if self.remaining_factions.len() == 0 || self.remaining_player_mats.len() == 0
            || self.players.len() >= 255 {
            return Err(SetupError::InvalidPlayerCount);
        }
        let ghost before = self@;
        let id: u8 = (self.players.len() + 1) as u8;
        let faction = self.remaining_factions[0];
        let player_mat = self.remaining_player_mats[0];
        if !rules.is_banned(faction, player_mat) {
            self.remaining_factions.remove(0);
            self.remaining_player_mats.remove(0);
            self.players.push(Player { id, faction, player_mat, base: None });
            proof {
                let draw = Draw { order: Seq::empty(), partner: 0 };
                assert(self.remaining_factions@ =~= before.factions.skip(1));
                assert(self.remaining_player_mats@ =~= before.player_mats.skip(1));
                assert(draw_fits(before, rules@, draw));
                assert(self@ == seat(before, rules@, draw));
                assert(rng.asked() =~= old(rng).asked() + asks_of_seat(before, rules@));
            }
            Ok(Repair::Natural)
        } else if self.remaining_player_mats.len() > 1 {
            let seated = self.seat_from_pool(rules);
            rng.shuffle(&mut self.remaining_player_mats);
            proof {
                let draw = Draw { order: self.remaining_player_mats@, partner: 0 };
                assert(draw_fits(before, rules@, draw));
                assert(self@ == seat(before, rules@, draw));
                assert(rng.asked() =~= old(rng).asked() + asks_of_seat(before, rules@));
            }
            seated
        } else {
            match rng.pick_index(self.players.len()) {
                Ok(partner) => {
                    let seated = self.seat_by_swap(rules, partner);
                    proof {
                        let draw = Draw { order: Seq::empty(), partner: partner as int };
                        assert(draw_fits(before, rules@, draw));
                        assert(rng.asked() =~= old(rng).asked() + asks_of_seat(before, rules@));
                    }
                    seated
                },
                Err(e) => Err(e),
            }
        }
    }

    /// Seats the next player from the pool: the player takes the mat behind
    /// the banned one that was drawn, and the banned one goes to the end of
    /// the pool. The pool is left in that order: whoever wants the rejected
    /// mat to come up by chance shuffles the pool after.
    ///
    /// Fails, and changes nothing: with `InvalidPlayerCount` where nobody
    /// can be seated; else with `PreconditionViolation` where the next
    /// player does not have to be seated from the pool.
    pub fn seat_from_pool(&mut self, rules: &BannedPairs) -> (seated: Result<Repair, SetupError>)
        ensures
            seated is Ok <==> has_next(old(self)@) && next_repair(old(self)@, rules@)
                == Repair::Pool,
            seated matches Ok(repair) ==> repair == Repair::Pool && final(self)@ == seat(
                old(self)@,
                rules@,
                (Draw {
                    order: old(self)@.player_mats.skip(2).push(old(self)@.player_mats[0]),
                    partner: 0,
                }),
            ),
            seated matches Err(e) ==> final(self)@ == old(self)@ && e == if has_next(old(self)@) {
                SetupError::PreconditionViolation
            } else {
                SetupError::InvalidPlayerCount
            },
    {
        if self.remaining_factions.len() == 0 || self.remaining_player_mats.len() == 0
            || self.players.len() >= 255 {
            return Err(SetupError::InvalidPlayerCount);
        }
        let faction = self.remaining_factions[0];
        if !rules.is_banned(faction, self.remaining_player_mats[0])
            || self.remaining_player_mats.len() < 2 {
            return Err(SetupError::PreconditionViolation);
        }
        let ghost before = self@;
        let id: u8 = (self.players.len() + 1) as u8;
        self.remaining_factions.remove(0);
        let rejected = self.remaining_player_mats.remove(0);
        let player_mat = self.remaining_player_mats.remove(0);
        self.players.push(Player { id, faction, player_mat, base: None });
        self.remaining_player_mats.push(rejected);
        proof {
            assert(self.remaining_factions@ =~= before.factions.skip(1));
            assert(self.remaining_player_mats@ =~= before.player_mats.skip(2).push(
                before.player_mats[0],
            ));
        }
        Ok(Repair::Pool)
    }

    /// Seats the next player by a swap with the player at index `partner`,
    /// which chance has drawn: the partner takes the banned mat that the
    /// next player drew, and the next player the partner's.
    ///
    /// Fails, and changes nothing: with `InvalidPlayerCount` where nobody
    /// can be seated; else with `PreconditionViolation` where the next
    /// player does not have to swap, or nobody is seated at that index.
    pub fn seat_by_swap(&mut self, rules: &BannedPairs, partner: usize) -> (seated: Result<
        Repair,
        SetupError,
    >)
        ensures
            seated is Ok <==> has_next(old(self)@) && next_repair(old(self)@, rules@)
                == Repair::Swap && partner < old(self)@.players.len(),
            seated matches Ok(repair) ==> repair == Repair::Swap && final(self)@ == seat(
                old(self)@,
                rules@,
                (Draw { order: Seq::empty(), partner: partner as int }),
            ),
            seated matches Err(e) ==> final(self)@ == old(self)@ && e == if has_next(old(self)@) {
                SetupError::PreconditionViolation
            } else {
                SetupError::InvalidPlayerCount
            },
    {
        if self.remaining_factions.len() == 0 || self.remaining_player_mats.len() == 0
            || self.players.len() >= 255 {
            return Err(SetupError::InvalidPlayerCount);
        }
        let faction = self.remaining_factions[0];
        let player_mat = self.remaining_player_mats[0];
        if !rules.is_banned(faction, player_mat) || self.remaining_player_mats.len() > 1 || partner
            >= self.players.len() {
            return Err(SetupError::PreconditionViolation);
        }
        let ghost before = self@;
        let id: u8 = (self.players.len() + 1) as u8;
        self.remaining_factions.remove(0);
        self.remaining_player_mats.remove(0);
        let seated_partner = self.players[partner];
        self.players.set(
            partner,
            Player {
                id: seated_partner.id,
                faction: seated_partner.faction,
                player_mat,
                base: seated_partner.base,
            },
        );
        self.players.push(
            Player { id, faction, player_mat: seated_partner.player_mat, base: None },
        );
        proof {
            assert(self.remaining_factions@ =~= before.factions.skip(1));
            assert(self.remaining_player_mats@ =~= before.player_mats.skip(1));
        }
        Ok(Repair::Swap)
    }
}

/// Whether the pools can seat `count` players: there is a player, and a
/// faction and a mat for each.
pub open spec fn can_seat(count: int, factions: Seq<Faction>, player_mats: Seq<PlayerMat>) -> bool {
    1 <= count <= factions.len() && count <= player_mats.len()
}

/// Whether the pools are fit to draw from: neither offers an entry twice,
/// and a single mat is not banned for the single player who is to take it.
pub open spec fn pools_are_sound(
    count: int,
    factions: Seq<Faction>,
    player_mats: Seq<PlayerMat>,
    rules: Seq<(Faction, PlayerMat)>,
) -> bool {
    &&& factions.no_duplicates()
    &&& player_mats.no_duplicates()
    &&& !(count == 1 && player_mats.len() == 1 && factions.len() >= 1 && forbidden(
        rules,
        factions[0],
        player_mats[0],
    ))
}

/// Seats `player_count` players from the two pools, front first, and
/// repairs every banned pair as it is drawn.
///
/// Fails before anybody is seated and before chance is asked: with
/// `InvalidPlayerCount` where the count is zero or a pool has fewer
/// entries; else with `PreconditionViolation` where a pool offers an entry
/// twice, or a single player is to take the single mat of the pool and that
/// pair is banned.
///
/// Otherwise the seating is the one that the model gives for the draws that
/// chance gave, and chance was asked what the model says for them and no
/// more. Whatever they were: the players are numbered from 1 and hold
/// the factions in the pool's order; their mats and the mats left are those
/// of the pool; no two players hold the same faction or mat, and nobody
/// holds a banned pair. Where every pair that the pools offer front to
/// front is allowed, each player holds that pair and chance was not asked at
/// all.
pub fn seat_players(
    player_count: u8,
    factions: Vec<Faction>,
    player_mats: Vec<PlayerMat>,
    rules: &BannedPairs,
    rng: &mut Randomizer,
) -> (outcome: Result<Seating, SetupError>)
    ensures
        !can_seat(player_count as int, factions@, player_mats@) <==> outcome matches Err(
            SetupError::InvalidPlayerCount,
        ),
        can_seat(player_count as int, factions@, player_mats@) && !pools_are_sound(
            player_count as int,
            factions@,
            player_mats@,
            rules@,
        ) <==> outcome matches Err(SetupError::PreconditionViolation),
        outcome is Err ==> *final(rng) == *old(rng),
        outcome matches Ok(seating) ==> {
            let count = player_count as int;
            &&& seating@.players.len() == count
            &&& exists|draws: Seq<Draw>|
                draws.len() == count && #[trigger] draws_fit(
                    empty_table(factions@, player_mats@),
                    rules@,
                    draws,
                ) && seating@ == seat_all(empty_table(factions@, player_mats@), rules@, draws)
                    && final(rng).asked() == old(rng).asked() + asks_of_seat_all(
                    empty_table(factions@, player_mats@),
                    rules@,
                    draws,
                )
            &&& seated_from(seating@, rules@, factions@, player_mats@)
            &&& forall|i: int|
                0 <= i < count ==> {
                    &&& (#[trigger] seating@.players[i]).id == i + 1
                    &&& seating@.players[i].faction == factions@[i]
                    &&& seating@.players[i].base is None
                    &&& !rules.forbids(seating@.players[i].faction, seating@.players[i].player_mat)
                }
            &&& seating@.factions == factions@.skip(count)
            &&& is_permutation(mats_of(seating@.players) + seating@.player_mats, player_mats@)
            &&& factions_of(seating@.players).no_duplicates()
            &&& mats_of(seating@.players).no_duplicates()
            &&& naturally_allowed(rules@, factions@, player_mats@, count) ==> {
                &&& forall|i: int|
                    0 <= i < count ==> (#[trigger] seating@.players[i]).player_mat
                        == player_mats@[i]
                &&& seating@.player_mats == player_mats@.skip(count)
                &&& *final(rng) == *old(rng)
            }
        },
{
    let count = player_count as usize;
    if count == 0 || count > factions.len() || count > player_mats.len() {
        return Err(SetupError::InvalidPlayerCount);
    }
    if !factions_are_distinct(&factions) || !player_mats_are_distinct(&player_mats) {
        return Err(SetupError::PreconditionViolation);
    }
    if count == 1 && player_mats.len() == 1 && rules.is_banned(factions[0], player_mats[0]) {
        return Err(SetupError::PreconditionViolation);
    }
    let ghost offered_factions = factions@;
    let ghost offered_mats = player_mats@;
    let ghost start = empty_table(offered_factions, offered_mats);
    let ghost mut draws: Seq<Draw> = Seq::empty();
    let mut seating = Seating::new(factions, player_mats);
    proof {
        use_type_invariant(rules);
        assert(rng.asked() =~= old(rng).asked() + asks_of_seat_all(start, rules@, draws));
        assert(mats_of(seating@.players) + seating@.player_mats =~= offered_mats);
        assert(seating@.factions =~= offered_factions.skip(0));
    }
    let mut seated: usize = 0;
    while seated < count
        invariant
            one_to_one(rules@),
            seated <= count <= 255,
            count <= offered_factions.len(),
            count <= offered_mats.len(),
            !(count == 1 && offered_mats.len() == 1 && rules.forbids(
                offered_factions[0],
                offered_mats[0],
            )),
            start == empty_table(offered_factions, offered_mats),
            seating@.players.len() == seated,
            seated == 0 ==> seating@ == start,
            draws.len() == seated,
            draws_fit(start, rules@, draws),
            seating@ == seat_all(start, rules@, draws),
            rng.asked() == old(rng).asked() + asks_of_seat_all(start, rules@, draws),
            seated_from(seating@, rules@, offered_factions, offered_mats),
            naturally_allowed(rules@, offered_factions, offered_mats, seated as int) ==> {
                &&& mats_of(seating@.players) == offered_mats.take(seated as int)
                &&& seating@.player_mats == offered_mats.skip(seated as int)
                &&& *rng == *old(rng)
            },
        decreases count - seated,
    {
        let ghost before = seating@;
        let ghost asked_before = rng.asked();
        proof {
            seated_players_are_distinct(before, rules@, offered_factions, offered_mats);
        }
        match seating.seat_next(rules, rng) {
            Ok(_) => {},
            Err(e) => {
                return Err(e);
            },
        }
        proof {
            let draw = choose|draw: Draw| #[trigger]
                draw_fits(before, rules@, draw) && seating@ == seat(before, rules@, draw);
            let longer = draws.push(draw);
            assert(longer.drop_last() =~= draws);
            assert(rng.asked() =~= old(rng).asked() + asks_of_seat_all(start, rules@, longer));
            seat_keeps_seated_from(before, rules@, draw, offered_factions, offered_mats);
            if naturally_allowed(rules@, offered_factions, offered_mats, seated as int + 1) {
                assert(naturally_allowed(rules@, offered_factions, offered_mats, seated as int));
                assert(before.factions[0] == offered_factions[seated as int]);
                assert(before.player_mats[0] == offered_mats[seated as int]);
                assert(mats_of(seating@.players) =~= offered_mats.take(seated as int + 1));
                assert(seating@.player_mats =~= offered_mats.skip(seated as int + 1));
            }
            draws = longer;
        }
        seated += 1;
    }
    proof {
        seated_players_are_distinct(seating@, rules@, offered_factions, offered_mats);
        if naturally_allowed(rules@, offered_factions, offered_mats, count as int) {
            assert forall|i: int| 0 <= i < count implies (#[trigger] seating@.players[i]).player_mat
                == offered_mats[i] by {
                assert(mats_of(seating@.players)[i] == offered_mats.take(count as int)[i]);
            }
        }
    }
    Ok(seating)
}

} // verus!
