//! Which faction may not play on which player mat.

use vstd::prelude::*;

use crate::catalog::Faction;
use crate::catalog::PlayerMat;

verus! {

/// No faction and no player mat stands in two of the pairs.
pub open spec fn one_to_one(pairs: Seq<(Faction, PlayerMat)>) -> bool {
    forall|i: int, j: int|
        0 <= i < j < pairs.len() ==> (#[trigger] pairs[i]).0 != (#[trigger] pairs[j]).0
            && pairs[i].1 != pairs[j].1
}

/// The pairs that the rule book bans.
pub open spec fn standard_banned_pairs() -> Seq<(Faction, PlayerMat)> {
    seq![(Faction::Rusviet, PlayerMat::Industrial), (Faction::Crimea, PlayerMat::Patriotic)]
}

/// Whether the rule book forbids giving `player_mat` to `faction`.
pub open spec fn banned(faction: Faction, player_mat: PlayerMat) -> bool {
    ||| faction == Faction::Rusviet && player_mat == PlayerMat::Industrial
    ||| faction == Faction::Crimea && player_mat == PlayerMat::Patriotic
}

/// Whether `pairs` bans giving `player_mat` to `faction`.
pub open spec fn forbidden(
    pairs: Seq<(Faction, PlayerMat)>,
    faction: Faction,
    player_mat: PlayerMat,
) -> bool {
    pairs.contains((faction, player_mat))
}

/// A table of banned pairs in which no faction and no player mat occurs
/// twice. Seating relies on that: a faction that drew its banned mat can
/// take any other mat, and its banned mat can go to any other faction.
pub struct BannedPairs {
    pairs: Vec<(Faction, PlayerMat)>,
}

impl View for BannedPairs {
    type V = Seq<(Faction, PlayerMat)>;

    closed spec fn view(&self) -> Seq<(Faction, PlayerMat)> {
        self.pairs@
    }
}

impl BannedPairs {
    #[verifier::type_invariant]
    pub open spec fn well_formed(self) -> bool {
        one_to_one(self@)
    }

    /// Whether the table bans the pair.
    pub open spec fn forbids(self, faction: Faction, player_mat: PlayerMat) -> bool {
        forbidden(self@, faction, player_mat)
    }

    /// The table of `pairs`, if no faction and no player mat occurs in two
    /// of them.
    pub fn new(pairs: Vec<(Faction, PlayerMat)>) -> (table: Option<BannedPairs>)
        ensures
            table is Some <==> one_to_one(pairs@),
            table matches Some(t) ==> t@ == pairs@,
    {
        let n = pairs.len();
        let mut j: usize = 0;
        while j < n
            invariant
                n == pairs@.len(),
                j <= n,
                forall|a: int, b: int|
                    0 <= a < b < j ==> (#[trigger] pairs@[a]).0 != (#[trigger] pairs@[b]).0
                        && pairs@[a].1 != pairs@[b].1,
            decreases n - j,
        {
            let mut i: usize = 0;
            while i < j
                invariant
                    n == pairs@.len(),
                    i <= j < n,
                    forall|a: int|
                        0 <= a < i ==> (#[trigger] pairs@[a]).0 != pairs@[j as int].0
                            && pairs@[a].1 != pairs@[j as int].1,
                decreases j - i,
            {
                if pairs[i].0 == pairs[j].0 || pairs[i].1 == pairs[j].1 {
                    return None;
                }
                i += 1;
            }
            j += 1;
        }
        Some(BannedPairs { pairs })
    }

    /// The table of the rule book: Rusviet never plays the Industrial mat,
    /// nor Crimea the Patriotic one.
    pub fn standard() -> (table: BannedPairs)
        ensures
            table@ == standard_banned_pairs(),
    {
        BannedPairs {
            pairs: vec![
                (Faction::Rusviet, PlayerMat::Industrial),
                (Faction::Crimea, PlayerMat::Patriotic),
            ],
        }
    }

    /// How many pairs the table bans.
    pub fn len(&self) -> (count: usize)
        ensures
            count == self@.len(),
    {
        self.pairs.len()
    }

    /// Whether the table bans the pair.
    pub fn is_banned(&self, faction: Faction, player_mat: PlayerMat) -> (found: bool)
        ensures
            found == self.forbids(faction, player_mat),
    {
        let mut i: usize = 0;
        while i < self.pairs.len()
            invariant
                i <= self.pairs@.len(),
                forall|a: int| 0 <= a < i ==> self.pairs@[a] != (faction, player_mat),
            decreases self.pairs@.len() - i,
        {
            if self.pairs[i].0 == faction && self.pairs[i].1 == player_mat {
                return true;
            }
            i += 1;
        }
        false
    }
}

/// Whether the rule book forbids giving `player_mat` to `faction`.
pub fn is_banned(faction: Faction, player_mat: PlayerMat) -> (found: bool)
    ensures
        found == banned(faction, player_mat),
{
    (faction == Faction::Rusviet && player_mat == PlayerMat::Industrial) || (faction
        == Faction::Crimea && player_mat == PlayerMat::Patriotic)
}

/// The rule book's table bans what the rule book bans.
pub proof fn standard_pairs_are_the_banned(faction: Faction, player_mat: PlayerMat)
    ensures
        forbidden(standard_banned_pairs(), faction, player_mat) <==> banned(faction, player_mat),
{
    let pairs = standard_banned_pairs();
    if banned(faction, player_mat) {
        if faction == Faction::Rusviet {
            assert(pairs[0] == (faction, player_mat));
        } else {
            assert(pairs[1] == (faction, player_mat));
        }
    }
}

/// The rule book bans no faction and no player mat twice.
pub proof fn standard_pairs_are_one_to_one()
    ensures
        one_to_one(standard_banned_pairs()),
{
}

/// Under a one-to-one table a faction has at most one banned mat: of two
/// different mats it may take one.
pub proof fn at_most_one_banned_mat(
    pairs: Seq<(Faction, PlayerMat)>,
    faction: Faction,
    first: PlayerMat,
    second: PlayerMat,
)
    requires
        one_to_one(pairs),
        first != second,
    ensures
        !(forbidden(pairs, faction, first) && forbidden(pairs, faction, second)),
{
    if pairs.contains((faction, first)) && pairs.contains((faction, second)) {
        let a = choose|a: int| 0 <= a < pairs.len() && pairs[a] == (faction, first);
        let b = choose|b: int| 0 <= b < pairs.len() && pairs[b] == (faction, second);
        if a < b {
            assert(pairs[a].0 != pairs[b].0);
        } else {
            assert(pairs[b].0 != pairs[a].0);
        }
    }
}

/// Under a one-to-one table a mat is banned for at most one faction: of two
/// different factions one may take it.
pub proof fn at_most_one_banned_faction(
    pairs: Seq<(Faction, PlayerMat)>,
    first: Faction,
    second: Faction,
    player_mat: PlayerMat,
)
    requires
        one_to_one(pairs),
        first != second,
    ensures
        !(forbidden(pairs, first, player_mat) && forbidden(pairs, second, player_mat)),
{
    if pairs.contains((first, player_mat)) && pairs.contains((second, player_mat)) {
        let a = choose|a: int| 0 <= a < pairs.len() && pairs[a] == (first, player_mat);
        let b = choose|b: int| 0 <= b < pairs.len() && pairs[b] == (second, player_mat);
        if a < b {
            assert(pairs[a].1 != pairs[b].1);
        } else {
            assert(pairs[b].1 != pairs[a].1);
        }
    }
}

/// No faction is banned from every mat: among two or more different mats
/// there is one it may take, whatever it drew first.
pub proof fn some_mat_is_allowed(
    pairs: Seq<(Faction, PlayerMat)>,
    faction: Faction,
    player_mats: Seq<PlayerMat>,
)
    requires
        one_to_one(pairs),
        player_mats.no_duplicates(),
        player_mats.len() >= 2,
    ensures
        exists|i: int|
            0 <= i < player_mats.len() && !forbidden(pairs, faction, #[trigger] player_mats[i]),
{
    at_most_one_banned_mat(pairs, faction, player_mats[0], player_mats[1]);
    if pairs.contains((faction, player_mats[0])) {
        assert(!pairs.contains((faction, player_mats[1])));
    }
}

} // verus!
