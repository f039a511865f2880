//! The game's components: factions, player mats, the pairs of them that are
//! banned, and the tiles that a setup picks from.

use vstd::prelude::*;

verus! {

/// The colour a faction is shown in.
#[derive(Clone, Copy, Debug, PartialEq, Eq, Structural)]
pub enum Color {
    BrightBlack,
    BrightRed,
    BrightGreen,
    BrightYellow,
    BrightBlue,
    BrightMagenta,
    BrightCyan,
    BrightWhite,
}

/// A playable faction.
#[derive(Clone, Copy, Debug, PartialEq, Eq, Structural)]
pub enum Faction {
    Nordic,
    Rusviet,
    Crimea,
    Saxony,
    Polania,
    Albion,
    Togawa,
    Tesla,
}

/// A player mat.
#[derive(Clone, Copy, Debug, PartialEq, Eq, Structural)]
pub enum PlayerMat {
    Industrial,
    Engineering,
    Patriotic,
    Mechanical,
    Agricultural,
    Militant,
    Innovative,
}

impl Faction {
    pub open spec fn label(self) -> &'static str {
        match self {
            Faction::Nordic => "Nordic",
            Faction::Rusviet => "Rusviet",
            Faction::Crimea => "Crimea",
            Faction::Saxony => "Saxony",
            Faction::Polania => "Polania",
            Faction::Albion => "Albion",
            Faction::Togawa => "Togawa",
            Faction::Tesla => "Tesla",
        }
    }

    pub open spec fn display_color(self) -> Color {
        match self {
            Faction::Nordic => Color::BrightBlue,
            Faction::Rusviet => Color::BrightRed,
            Faction::Crimea => Color::BrightYellow,
            Faction::Saxony => Color::BrightBlack,
            Faction::Polania => Color::BrightWhite,
            Faction::Albion => Color::BrightGreen,
            Faction::Togawa => Color::BrightMagenta,
            Faction::Tesla => Color::BrightCyan,
        }
    }

    /// A faction with a base plays from the home base of another faction,
    /// which is drawn for it once everybody is seated.
    pub open spec fn has_base(self) -> bool {
        self == Faction::Tesla
    }

    /// The faction's name.
    pub fn name(self) -> (name: &'static str)
        ensures
            name == self.label(),
    {
        match self {
            Faction::Nordic => "Nordic",
            Faction::Rusviet => "Rusviet",
            Faction::Crimea => "Crimea",
            Faction::Saxony => "Saxony",
            Faction::Polania => "Polania",
            Faction::Albion => "Albion",
            Faction::Togawa => "Togawa",
            Faction::Tesla => "Tesla",
        }
    }

    /// The colour the faction is shown in.
    pub fn color(self) -> (color: Color)
        ensures
            color == self.display_color(),
    {
        match self {
            Faction::Nordic => Color::BrightBlue,
            Faction::Rusviet => Color::BrightRed,
            Faction::Crimea => Color::BrightYellow,
            Faction::Saxony => Color::BrightBlack,
            Faction::Polania => Color::BrightWhite,
            Faction::Albion => Color::BrightGreen,
            Faction::Togawa => Color::BrightMagenta,
            Faction::Tesla => Color::BrightCyan,
        }
    }

    /// Whether a base is drawn for the faction.
    pub fn needs_base(self) -> (needed: bool)
        ensures
            needed == self.has_base(),
    {
        self == Faction::Tesla
    }
}

impl PlayerMat {
    pub open spec fn label(self) -> &'static str {
        match self {
            PlayerMat::Industrial => "Industrial",
            PlayerMat::Engineering => "Engineering",
            PlayerMat::Patriotic => "Patriotic",
            PlayerMat::Mechanical => "Mechanical",
            PlayerMat::Agricultural => "Agricultural",
            PlayerMat::Militant => "Militant",
            PlayerMat::Innovative => "Innovative",
        }
    }

    pub open spec fn code(self) -> &'static str {
        match self {
            PlayerMat::Industrial => "1",
            PlayerMat::Engineering => "2",
            PlayerMat::Patriotic => "3",
            PlayerMat::Mechanical => "4",
            PlayerMat::Agricultural => "5",
            PlayerMat::Militant => "2A",
            PlayerMat::Innovative => "3A",
        }
    }

    /// The mat's rank in tenths: the mat printed 2A ranks 2.5, so 25.
    pub open spec fn rank(self) -> nat {
        match self {
            PlayerMat::Industrial => 10,
            PlayerMat::Engineering => 20,
            PlayerMat::Patriotic => 30,
            PlayerMat::Mechanical => 40,
            PlayerMat::Agricultural => 50,
            PlayerMat::Militant => 25,
            PlayerMat::Innovative => 35,
        }
    }

    /// The mat's name.
    pub fn name(self) -> (name: &'static str)
        ensures
            name == self.label(),
    {
        match self {
            PlayerMat::Industrial => "Industrial",
            PlayerMat::Engineering => "Engineering",
            PlayerMat::Patriotic => "Patriotic",
            PlayerMat::Mechanical => "Mechanical",
            PlayerMat::Agricultural => "Agricultural",
            PlayerMat::Militant => "Militant",
            PlayerMat::Innovative => "Innovative",
        }
    }

    /// The number printed on the mat.
    pub fn number(self) -> (number: &'static str)
        ensures
            number == self.code(),
    {
        match self {
            PlayerMat::Industrial => "1",
            PlayerMat::Engineering => "2",
            PlayerMat::Patriotic => "3",
            PlayerMat::Mechanical => "4",
            PlayerMat::Agricultural => "5",
            PlayerMat::Militant => "2A",
            PlayerMat::Innovative => "3A",
        }
    }

    /// The mat's rank in tenths; the lowest at the table is the weakest mat.
    pub fn value(self) -> (value: u32)
        ensures
            value == self.rank(),
    {
        match self {
            PlayerMat::Industrial => 10,
            PlayerMat::Engineering => 20,
            PlayerMat::Patriotic => 30,
            PlayerMat::Mechanical => 40,
            PlayerMat::Agricultural => 50,
            PlayerMat::Militant => 25,
            PlayerMat::Innovative => 35,
        }
    }
}

/// The five factions of the base game.
pub open spec fn base_factions() -> Seq<Faction> {
    seq![Faction::Nordic, Faction::Rusviet, Faction::Crimea, Faction::Saxony, Faction::Polania]
}

/// The two factions that Invaders from Afar adds.
pub open spec fn invader_factions() -> Seq<Faction> {
    seq![Faction::Albion, Faction::Togawa]
}

/// The factions on offer: the base game's, then the invaders and then
/// Tesla where the expansion that brings them is in play.
pub open spec fn offered_factions(invaders_from_afar: bool, rise_of_fenris: bool) -> Seq<Faction> {
    base_factions() + (if invaders_from_afar {
        invader_factions()
    } else {
        Seq::empty()
    }) + (if rise_of_fenris {
        seq![Faction::Tesla]
    } else {
        Seq::empty()
    })
}

/// The player mats on offer: the base game's five, then the two that
/// Invaders from Afar adds.
pub open spec fn offered_player_mats(invaders_from_afar: bool) -> Seq<PlayerMat> {
    seq![
        PlayerMat::Industrial,
        PlayerMat::Engineering,
        PlayerMat::Patriotic,
        PlayerMat::Mechanical,
        PlayerMat::Agricultural,
    ] + (if invaders_from_afar {
        seq![PlayerMat::Militant, PlayerMat::Innovative]
    } else {
        Seq::empty()
    })
}

/// The fewest players a game takes.
pub const MIN_PLAYER_COUNT: u8 = 1;

/// The most players a game takes: five, and seven with Invaders from Afar.
pub open spec fn player_limit(invaders_from_afar: bool) -> nat {
    if invaders_from_afar {
        7
    } else {
        5
    }
}

pub fn max_player_count(invaders_from_afar: bool) -> (limit: u8)
    ensures
        limit == player_limit(invaders_from_afar),
{
    if invaders_from_afar {
        7
    } else {
        5
    }
}

/// Appends the two invader factions.
pub fn add_invaders(factions: &mut Vec<Faction>)
    ensures
        final(factions)@ == old(factions)@ + invader_factions(),
{
    factions.push(Faction::Albion);
    factions.push(Faction::Togawa);
}

/// The factions on offer, in the order of the rule book.
pub fn factions(invaders_from_afar: bool, rise_of_fenris: bool) -> (pool: Vec<Faction>)
    ensures
        pool@ == offered_factions(invaders_from_afar, rise_of_fenris),
{
    let mut pool = vec![
        Faction::Nordic,
        Faction::Rusviet,
        Faction::Crimea,
        Faction::Saxony,
        Faction::Polania,
    ];
    if invaders_from_afar {
        add_invaders(&mut pool);
    }
    if rise_of_fenris {
        pool.push(Faction::Tesla);
    }
    pool
}

/// The player mats on offer, in the order of the rule book.
pub fn player_mats(invaders_from_afar: bool) -> (pool: Vec<PlayerMat>)
    ensures
        pool@ == offered_player_mats(invaders_from_afar),
{
    let mut pool = vec![
        PlayerMat::Industrial,
        PlayerMat::Engineering,
        PlayerMat::Patriotic,
        PlayerMat::Mechanical,
        PlayerMat::Agricultural,
    ];
    if invaders_from_afar {
        pool.push(PlayerMat::Militant);
        pool.push(PlayerMat::Innovative);
    }
    pool
}

/// Whether no faction stands twice in the pool.
pub fn factions_are_distinct(pool: &Vec<Faction>) -> (distinct: bool)
    ensures
        distinct == pool@.no_duplicates(),
{
    let mut j: usize = 0;
    while j < pool.len()
        invariant
            j <= pool@.len(),
            forall|a: int, b: int| 0 <= a < b < j ==> pool@[a] != pool@[b],
        decreases pool@.len() - j,
    {
        let mut i: usize = 0;
        while i < j
            invariant
                i <= j < pool@.len(),
                forall|a: int| 0 <= a < i ==> pool@[a] != pool@[j as int],
            decreases j - i,
        {
            if pool[i] == pool[j] {
                return false;
            }
            i += 1;
        }
        j += 1;
    }
    proof {
        assert forall|a: int, b: int|
            0 <= a < pool@.len() && 0 <= b < pool@.len() && a != b implies pool@[a] != pool@[b] by {
            if a < b {
                assert(pool@[a] != pool@[b]);
            } else {
                assert(pool@[b] != pool@[a]);
            }
        }
    }
    true
}

/// Whether no player mat stands twice in the pool.
pub fn player_mats_are_distinct(pool: &Vec<PlayerMat>) -> (distinct: bool)
    ensures
        distinct == pool@.no_duplicates(),
{
    let mut j: usize = 0;
    while j < pool.len()
        invariant
            j <= pool@.len(),
            forall|a: int, b: int| 0 <= a < b < j ==> pool@[a] != pool@[b],
        decreases pool@.len() - j,
    {
        let mut i: usize = 0;
        while i < j
            invariant
                i <= j < pool@.len(),
                forall|a: int| 0 <= a < i ==> pool@[a] != pool@[j as int],
            decreases j - i,
        {
            if pool[i] == pool[j] {
                return false;
            }
            i += 1;
        }
        j += 1;
    }
    proof {
        assert forall|a: int, b: int|
            0 <= a < pool@.len() && 0 <= b < pool@.len() && a != b implies pool@[a] != pool@[b] by {
            if a < b {
                assert(pool@[a] != pool@[b]);
            } else {
                assert(pool@[b] != pool@[a]);
            }
        }
    }
    true
}

/// No faction is offered twice, and there are five of them, two more with
/// Invaders from Afar and one more with Rise of Fenris.
pub proof fn offered_factions_are_distinct(invaders_from_afar: bool, rise_of_fenris: bool)
    ensures
        offered_factions(invaders_from_afar, rise_of_fenris).no_duplicates(),
        offered_factions(invaders_from_afar, rise_of_fenris).len() == 5 + (if invaders_from_afar {
            2nat
        } else {
            0
        }) + (if rise_of_fenris {
            1nat
        } else {
            0
        }),
{
}

/// No player mat is offered twice, and there are as many as the game takes
/// players at most.
pub proof fn offered_player_mats_are_distinct(invaders_from_afar: bool)
    ensures
        offered_player_mats(invaders_from_afar).no_duplicates(),
        offered_player_mats(invaders_from_afar).len() == player_limit(invaders_from_afar),
{
}

/// The structure bonus tiles of the base game.
pub open spec fn base_structure_bonuses() -> Seq<&'static str> {
    seq![
        "Tunnels adjacent to structures",
        "Lakes adjacent to structures",
        "Encounters adjacent to structures",
        "Structures on tunnels",
        "Structures in a row",
        "Structures on farms or tundras",
    ]
}

/// The structure bonus tiles that the modular board adds.
pub open spec fn modular_structure_bonuses() -> Seq<&'static str> {
    seq![
        "Structures adjacent to bases or the Factory",
        "Structures adjacent to the same lake",
        "Structures on villages",
        "Structures on mountains or forests",
        "Structures on encounters",
        "Structures not adjacent to other structures",
        "Structures in a diamond",
        "Structures adjacent to the same encounter",
    ]
}

/// The structure bonus tiles on offer.
pub open spec fn offered_structure_bonuses(modular_board: bool) -> Seq<&'static str> {
    if modular_board {
        base_structure_bonuses() + modular_structure_bonuses()
    } else {
        base_structure_bonuses()
    }
}

/// The resolution tiles of The Wind Gambit.
pub open spec fn offered_resolution_tiles() -> Seq<&'static str> {
    seq![
        "Standard",
        "Land Rush [1]",
        "Factory Explosion [2]",
        "Spoils of War [3]",
        "King of the Hill [4]",
        "Déjà Vu [5]",
        "Mission Possible [6]",
        "Doomsday Clock [7]",
        "Backup Plan [8]",
    ]
}

/// The aggressive airship tiles of The Wind Gambit.
pub open spec fn offered_aggressive_airship_tiles() -> Seq<&'static str> {
    seq![
        "Blitzkrieg [1]",
        "Bombard [2]",
        "Bounty [3]",
        "Distract [4]",
        "Espionage [5]",
        "Siege Engine [6]",
        "Toll [7]",
        "War Correspondent [8]",
    ]
}

/// The passive airship tiles of The Wind Gambit.
pub open spec fn offered_passive_airship_tiles() -> Seq<&'static str> {
    seq![
        "Boost [9]",
        "Craft [10]",
        "Drill [11]",
        "Ferry [12]",
        "Hero [13]",
        "Negotiate [14]",
        "Reap [15]",
        "Safe Haven [16]",
    ]
}

/// The structure bonus tiles on offer: six, and fourteen with the modular
/// board.
pub fn structure_bonuses(modular_board: bool) -> (tiles: Vec<&'static str>)
    ensures
        tiles@ == offered_structure_bonuses(modular_board),
        tiles@.len() == if modular_board { 14nat } else { 6 },
{
    let mut tiles = vec![
        "Tunnels adjacent to structures",
        "Lakes adjacent to structures",
        "Encounters adjacent to structures",
        "Structures on tunnels",
        "Structures in a row",
        "Structures on farms or tundras",
    ];
    if modular_board {
        tiles.push("Structures adjacent to bases or the Factory");
        tiles.push("Structures adjacent to the same lake");
        tiles.push("Structures on villages");
        tiles.push("Structures on mountains or forests");
        tiles.push("Structures on encounters");
        tiles.push("Structures not adjacent to other structures");
        tiles.push("Structures in a diamond");
        tiles.push("Structures adjacent to the same encounter");
    }
    tiles
}

/// The nine resolution tiles.
pub fn resolution_tiles() -> (tiles: Vec<&'static str>)
    ensures
        tiles@ == offered_resolution_tiles(),
        tiles@.len() == 9,
{
    vec![
        "Standard",
        "Land Rush [1]",
        "Factory Explosion [2]",
        "Spoils of War [3]",
        "King of the Hill [4]",
        "Déjà Vu [5]",
        "Mission Possible [6]",
        "Doomsday Clock [7]",
        "Backup Plan [8]",
    ]
}

/// The eight aggressive airship tiles.
pub fn aggressive_airship_tiles() -> (tiles: Vec<&'static str>)
    ensures
        tiles@ == offered_aggressive_airship_tiles(),
        tiles@.len() == 8,
{
    vec![
        "Blitzkrieg [1]",
        "Bombard [2]",
        "Bounty [3]",
        "Distract [4]",
        "Espionage [5]",
        "Siege Engine [6]",
        "Toll [7]",
        "War Correspondent [8]",
    ]
}

/// The eight passive airship tiles.
pub fn passive_airship_tiles() -> (tiles: Vec<&'static str>)
    ensures
        tiles@ == offered_passive_airship_tiles(),
        tiles@.len() == 8,
{
    vec![
        "Boost [9]",
        "Craft [10]",
        "Drill [11]",
        "Ferry [12]",
        "Hero [13]",
        "Negotiate [14]",
        "Reap [15]",
        "Safe Haven [16]",
    ]
}

} // verus!
