use scythe_setup::catalog::Faction;
use scythe_setup::catalog::PlayerMat;
use scythe_setup::engine::seat_players;
use scythe_setup::engine::Seating;
use scythe_setup::error::SetupError;
use scythe_setup::randomizer::Randomizer;
use scythe_setup::rules::BannedPairs;
use scythe_setup::seating::Player;
use scythe_setup::seating::Repair;

fn base_factions_rusviet_first() -> Vec<Faction> {
    vec![
        Faction::Rusviet,
        Faction::Nordic,
        Faction::Crimea,
        Faction::Saxony,
        Faction::Polania,
    ]
}

fn base_mats_in_book_order() -> Vec<PlayerMat> {
    vec![
        PlayerMat::Industrial,
        PlayerMat::Engineering,
        PlayerMat::Patriotic,
        PlayerMat::Mechanical,
        PlayerMat::Agricultural,
    ]
}

fn seated(id: u8, faction: Faction, player_mat: PlayerMat) -> Player {
    Player {
        id,
        faction,
        player_mat,
        base: None,
    }
}

fn holds_banned_pair(rules: &BannedPairs, players: &[Player]) -> bool {
    players
        .iter()
        .any(|player| rules.is_banned(player.faction, player.player_mat))
}

#[test]
fn allowed_pairs_are_taken_as_they_come() {
    let rules = BannedPairs::standard();
    let mut rng = Randomizer::from_seed(11);
    let seating = seat_players(
        3,
        vec![
            Faction::Nordic,
            Faction::Rusviet,
            Faction::Crimea,
            Faction::Saxony,
        ],
        vec![
            PlayerMat::Industrial,
            PlayerMat::Engineering,
            PlayerMat::Mechanical,
            PlayerMat::Patriotic,
            PlayerMat::Agricultural,
        ],
        &rules,
        &mut rng,
    )
    .unwrap();
    assert_eq!(
        seating.players,
        vec![
            seated(1, Faction::Nordic, PlayerMat::Industrial),
            seated(2, Faction::Rusviet, PlayerMat::Engineering),
            seated(3, Faction::Crimea, PlayerMat::Mechanical),
        ]
    );
    assert_eq!(seating.remaining_factions, vec![Faction::Saxony]);
    assert_eq!(
        seating.remaining_player_mats,
        vec![PlayerMat::Patriotic, PlayerMat::Agricultural]
    );
}

#[test]
fn allowed_pairs_ask_nothing_of_chance() {
    let rules = BannedPairs::standard();
    let mut used = Randomizer::from_seed(12);
    let mut fresh = Randomizer::from_seed(12);
    seat_players(
        2,
        vec![Faction::Saxony, Faction::Polania],
        vec![PlayerMat::Patriotic, PlayerMat::Industrial],
        &rules,
        &mut used,
    )
    .unwrap();
    for bound in 1..20usize {
        assert_eq!(used.pick_index(bound), fresh.pick_index(bound));
    }
}

#[test]
fn banned_first_draw_is_repaired_from_the_pool() {
    let rules = BannedPairs::standard();
    for seed in 0..300u64 {
        let mut rng = Randomizer::from_seed(seed);
        let seating = seat_players(
            5,
            base_factions_rusviet_first(),
            base_mats_in_book_order(),
            &rules,
            &mut rng,
        )
        .unwrap();
        assert_eq!(
            seating.players[0],
            seated(1, Faction::Rusviet, PlayerMat::Engineering)
        );
        assert!(!holds_banned_pair(&rules, &seating.players));
        let mut mats: Vec<PlayerMat> = seating.players.iter().map(|p| p.player_mat).collect();
        mats.sort_by_key(|player_mat| player_mat.value());
        assert_eq!(mats, base_mats_in_book_order());
        let factions: Vec<Faction> = seating.players.iter().map(|p| p.faction).collect();
        assert_eq!(factions, base_factions_rusviet_first());
        assert!(seating.remaining_factions.is_empty());
        assert!(seating.remaining_player_mats.is_empty());
    }
}

#[test]
fn rejected_mat_goes_back_into_the_pool() {
    let rules = BannedPairs::standard();
    let mut industrial_taken_later = false;
    let mut industrial_left = false;
    for seed in 0..300u64 {
        let mut rng = Randomizer::from_seed(seed);
        let mut seating = Seating::new(base_factions_rusviet_first(), base_mats_in_book_order());
        assert_eq!(seating.seat_next(&rules, &mut rng), Ok(Repair::Pool));
        assert_eq!(
            seating.players,
            vec![seated(1, Faction::Rusviet, PlayerMat::Engineering)]
        );
        assert_eq!(seating.remaining_factions.len(), 4);
        assert_eq!(seating.remaining_factions[0], Faction::Nordic);
        let mut pool = seating.remaining_player_mats.clone();
        pool.sort_by_key(|player_mat| player_mat.value());
        assert_eq!(
            pool,
            vec![
                PlayerMat::Industrial,
                PlayerMat::Patriotic,
                PlayerMat::Mechanical,
                PlayerMat::Agricultural
            ]
        );
        assert_eq!(seating.seat_next(&rules, &mut rng), Ok(Repair::Natural));
        if seating.players[1].player_mat == PlayerMat::Industrial {
            industrial_taken_later = true;
        } else {
            industrial_left = true;
        }
    }
    assert!(industrial_taken_later);
    assert!(industrial_left);
}

#[test]
fn banned_last_draw_is_repaired_by_a_swap() {
    let rules = BannedPairs::standard();
    let factions = vec![
        Faction::Nordic,
        Faction::Saxony,
        Faction::Polania,
        Faction::Crimea,
        Faction::Rusviet,
    ];
    let mats = vec![
        PlayerMat::Engineering,
        PlayerMat::Patriotic,
        PlayerMat::Mechanical,
        PlayerMat::Agricultural,
        PlayerMat::Industrial,
    ];
    let mut partners = [false; 4];
    for seed in 0..300u64 {
        let mut rng = Randomizer::from_seed(seed);
        let seating = seat_players(5, factions.clone(), mats.clone(), &rules, &mut rng).unwrap();
        let players = &seating.players;
        assert_eq!(players.len(), 5);
        let partner: usize = players
            .iter()
            .position(|player| player.player_mat == PlayerMat::Industrial)
            .unwrap();
        assert!(partner < 4);
        partners[partner] = true;
        assert_eq!(
            players[partner],
            seated(partner as u8 + 1, factions[partner], PlayerMat::Industrial)
        );
        assert_eq!(players[4], seated(5, Faction::Rusviet, mats[partner]));
        for other in 0..4usize {
            if other != partner {
                assert_eq!(
                    players[other],
                    seated(other as u8 + 1, factions[other], mats[other])
                );
            }
        }
        assert!(!holds_banned_pair(&rules, players));
    }
    assert_eq!(partners, [true; 4]);
}

#[test]
fn swap_is_reported_by_the_step() {
    let rules = BannedPairs::standard();
    let mut rng = Randomizer::from_seed(13);
    let mut seating = Seating::new(
        vec![Faction::Polania, Faction::Crimea, Faction::Nordic],
        vec![PlayerMat::Industrial, PlayerMat::Patriotic],
    );
    assert_eq!(seating.seat_next(&rules, &mut rng), Ok(Repair::Natural));
    assert_eq!(seating.seat_next(&rules, &mut rng), Ok(Repair::Swap));
    assert_eq!(
        seating.players,
        vec![
            seated(1, Faction::Polania, PlayerMat::Patriotic),
            seated(2, Faction::Crimea, PlayerMat::Industrial),
        ]
    );
    assert_eq!(seating.remaining_factions, vec![Faction::Nordic]);
    assert!(seating.remaining_player_mats.is_empty());
}

#[test]
fn step_fails_when_a_pool_is_empty() {
    let rules = BannedPairs::standard();
    let mut rng = Randomizer::from_seed(14);
    let mut seating = Seating::new(vec![Faction::Polania], Vec::new());
    assert_eq!(
        seating.seat_next(&rules, &mut rng),
        Err(SetupError::InvalidPlayerCount)
    );
    assert!(seating.players.is_empty());
    assert_eq!(seating.remaining_factions, vec![Faction::Polania]);
    let mut seating = Seating::new(Vec::new(), vec![PlayerMat::Militant]);
    assert_eq!(
        seating.seat_next(&rules, &mut rng),
        Err(SetupError::InvalidPlayerCount)
    );
    assert_eq!(seating.remaining_player_mats, vec![PlayerMat::Militant]);
    let mut seating = Seating::new(vec![Faction::Polania], vec![PlayerMat::Militant]);
    assert_eq!(seating.seat_next(&rules, &mut rng), Ok(Repair::Natural));
    assert_eq!(
        seating.seat_next(&rules, &mut rng),
        Err(SetupError::InvalidPlayerCount)
    );
    assert_eq!(seating.players.len(), 1);
}

#[test]
fn step_fails_when_the_first_player_would_have_to_swap() {
    let rules = BannedPairs::standard();
    let mut rng = Randomizer::from_seed(15);
    let mut seating = Seating::new(
        vec![Faction::Crimea, Faction::Nordic],
        vec![PlayerMat::Patriotic],
    );
    assert_eq!(
        seating.seat_next(&rules, &mut rng),
        Err(SetupError::PreconditionViolation)
    );
    assert!(seating.players.is_empty());
    assert_eq!(
        seating.remaining_factions,
        vec![Faction::Crimea, Faction::Nordic]
    );
    assert_eq!(seating.remaining_player_mats, vec![PlayerMat::Patriotic]);
}

#[test]
fn single_player_never_swaps() {
    let rules = BannedPairs::standard();
    for seed in 0..100u64 {
        let mut rng = Randomizer::from_seed(seed);
        let mut seating = Seating::new(base_factions_rusviet_first(), base_mats_in_book_order());
        assert_eq!(seating.seat_next(&rules, &mut rng), Ok(Repair::Pool));
        let mut rng = Randomizer::from_seed(seed);
        let seating = seat_players(
            1,
            base_factions_rusviet_first(),
            base_mats_in_book_order(),
            &rules,
            &mut rng,
        )
        .unwrap();
        assert_eq!(
            seating.players,
            vec![seated(1, Faction::Rusviet, PlayerMat::Engineering)]
        );
        assert_eq!(seating.remaining_player_mats.len(), 4);
    }
}

#[test]
fn single_player_with_two_mats_takes_the_other() {
    let rules = BannedPairs::standard();
    let mut rng = Randomizer::from_seed(16);
    let seating = seat_players(
        1,
        vec![Faction::Crimea],
        vec![PlayerMat::Patriotic, PlayerMat::Militant],
        &rules,
        &mut rng,
    )
    .unwrap();
    assert_eq!(
        seating.players,
        vec![seated(1, Faction::Crimea, PlayerMat::Militant)]
    );
    assert_eq!(seating.remaining_player_mats, vec![PlayerMat::Patriotic]);
    assert!(seating.remaining_factions.is_empty());
}

#[test]
fn single_player_with_the_single_banned_mat_is_refused() {
    let rules = BannedPairs::standard();
    let mut rng = Randomizer::from_seed(17);
    let outcome = seat_players(
        1,
        vec![Faction::Rusviet, Faction::Nordic],
        vec![PlayerMat::Industrial],
        &rules,
        &mut rng,
    );
    assert_eq!(outcome.err(), Some(SetupError::PreconditionViolation));
}

#[test]
fn single_player_with_a_single_allowed_mat_is_seated() {
    let rules = BannedPairs::standard();
    let mut rng = Randomizer::from_seed(18);
    let seating = seat_players(
        1,
        vec![Faction::Rusviet],
        vec![PlayerMat::Patriotic],
        &rules,
        &mut rng,
    )
    .unwrap();
    assert_eq!(
        seating.players,
        vec![seated(1, Faction::Rusviet, PlayerMat::Patriotic)]
    );
}

#[test]
fn no_players_is_an_invalid_count() {
    let rules = BannedPairs::standard();
    let mut rng = Randomizer::from_seed(19);
    let outcome = seat_players(
        0,
        base_factions_rusviet_first(),
        base_mats_in_book_order(),
        &rules,
        &mut rng,
    );
    assert_eq!(outcome.err(), Some(SetupError::InvalidPlayerCount));
}

#[test]
fn more_players_than_factions_or_mats_is_an_invalid_count() {
    let rules = BannedPairs::standard();
    let mut rng = Randomizer::from_seed(20);
    let outcome = seat_players(
        6,
        base_factions_rusviet_first(),
        base_mats_in_book_order(),
        &rules,
        &mut rng,
    );
    assert_eq!(outcome.err(), Some(SetupError::InvalidPlayerCount));
    let outcome = seat_players(
        3,
        base_factions_rusviet_first(),
        vec![PlayerMat::Militant, PlayerMat::Innovative],
        &rules,
        &mut rng,
    );
    assert_eq!(outcome.err(), Some(SetupError::InvalidPlayerCount));
    let outcome = seat_players(
        3,
        vec![Faction::Albion, Faction::Togawa],
        base_mats_in_book_order(),
        &rules,
        &mut rng,
    );
    assert_eq!(outcome.err(), Some(SetupError::InvalidPlayerCount));
}

#[test]
fn pool_with_an_entry_twice_is_refused() {
    let rules = BannedPairs::standard();
    let mut rng = Randomizer::from_seed(21);
    let outcome = seat_players(
        2,
        vec![Faction::Albion, Faction::Togawa, Faction::Albion],
        base_mats_in_book_order(),
        &rules,
        &mut rng,
    );
    assert_eq!(outcome.err(), Some(SetupError::PreconditionViolation));
    let outcome = seat_players(
        1,
        base_factions_rusviet_first(),
        vec![PlayerMat::Industrial, PlayerMat::Industrial],
        &rules,
        &mut rng,
    );
    assert_eq!(outcome.err(), Some(SetupError::PreconditionViolation));
}

#[test]
fn refusal_asks_nothing_of_chance() {
    let rules = BannedPairs::standard();
    let mut used = Randomizer::from_seed(22);
    let mut fresh = Randomizer::from_seed(22);
    assert!(seat_players(
        9,
        base_factions_rusviet_first(),
        base_mats_in_book_order(),
        &rules,
        &mut used
    )
    .is_err());
    assert!(seat_players(
        1,
        vec![Faction::Crimea],
        vec![PlayerMat::Patriotic],
        &rules,
        &mut used
    )
    .is_err());
    for bound in 1..20usize {
        assert_eq!(used.pick_index(bound), fresh.pick_index(bound));
    }
}

#[test]
fn other_tables_are_honoured() {
    let rules = BannedPairs::new(vec![
        (Faction::Nordic, PlayerMat::Engineering),
        (Faction::Saxony, PlayerMat::Mechanical),
        (Faction::Polania, PlayerMat::Agricultural),
    ])
    .unwrap();
    let factions = vec![Faction::Nordic, Faction::Saxony, Faction::Polania];
    let mats = vec![
        PlayerMat::Engineering,
        PlayerMat::Mechanical,
        PlayerMat::Agricultural,
    ];
    for seed in 0..500u64 {
        let mut rng = Randomizer::from_seed(seed);
        let seating = seat_players(3, factions.clone(), mats.clone(), &rules, &mut rng).unwrap();
        assert!(!holds_banned_pair(&rules, &seating.players));
        let held: Vec<Faction> = seating.players.iter().map(|p| p.faction).collect();
        assert_eq!(held, factions);
        let mut held_mats: Vec<PlayerMat> = seating.players.iter().map(|p| p.player_mat).collect();
        held_mats.sort_by_key(|player_mat| player_mat.value());
        assert_eq!(held_mats, mats);
    }
}

#[test]
fn same_seed_same_seating() {
    let rules = BannedPairs::standard();
    for seed in 0..100u64 {
        let mut first = Randomizer::from_seed(seed);
        let mut second = Randomizer::from_seed(seed);
        let one = seat_players(
            4,
            base_factions_rusviet_first(),
            base_mats_in_book_order(),
            &rules,
            &mut first,
        )
        .unwrap();
        let other = seat_players(
            4,
            base_factions_rusviet_first(),
            base_mats_in_book_order(),
            &rules,
            &mut second,
        )
        .unwrap();
        assert_eq!(one.players, other.players);
        assert_eq!(one.remaining_factions, other.remaining_factions);
        assert_eq!(one.remaining_player_mats, other.remaining_player_mats);
    }
}

#[test]
fn tesla_draws_the_next_faction_left_when_invaders_are_on_offer() {
    let rules = BannedPairs::standard();
    let mut rng = Randomizer::from_seed(23);
    let mut seating = seat_players(
        2,
        vec![
            Faction::Saxony,
            Faction::Tesla,
            Faction::Togawa,
            Faction::Nordic,
        ],
        base_mats_in_book_order(),
        &rules,
        &mut rng,
    )
    .unwrap();
    assert_eq!(seating.assign_bases(true, &mut rng), Ok(()));
    assert_eq!(seating.players[0].base, None);
    assert_eq!(seating.players[1].base, Some(Faction::Togawa));
    assert_eq!(seating.players[1].faction, Faction::Tesla);
    assert_eq!(seating.players[1].id, 2);
    assert_eq!(seating.remaining_factions, vec![Faction::Nordic]);
}

#[test]
fn tesla_draws_among_the_invaders_and_what_is_left_otherwise() {
    let rules = BannedPairs::standard();
    let mut bases: Vec<Faction> = Vec::new();
    for seed in 0..300u64 {
        let mut rng = Randomizer::from_seed(seed);
        let mut seating = seat_players(
            2,
            vec![Faction::Tesla, Faction::Saxony, Faction::Nordic],
            base_mats_in_book_order(),
            &rules,
            &mut rng,
        )
        .unwrap();
        assert_eq!(seating.assign_bases(false, &mut rng), Ok(()));
        let base: Faction = seating.players[0].base.unwrap();
        assert_eq!(seating.players[1].base, None);
        assert!(!seating.remaining_factions.contains(&base));
        let mut pool = seating.remaining_factions.clone();
        pool.push(base);
        pool.sort_by_key(|faction| faction.name());
        assert_eq!(pool, vec![Faction::Albion, Faction::Nordic, Faction::Togawa]);
        if !bases.contains(&base) {
            bases.push(base);
        }
    }
    assert_eq!(bases.len(), 3);
}

#[test]
fn no_base_is_drawn_where_none_is_needed() {
    let rules = BannedPairs::standard();
    let mut rng = Randomizer::from_seed(24);
    let mut seating = seat_players(
        2,
        vec![Faction::Polania, Faction::Saxony, Faction::Tesla],
        base_mats_in_book_order(),
        &rules,
        &mut rng,
    )
    .unwrap();
    assert_eq!(seating.assign_bases(false, &mut rng), Ok(()));
    assert_eq!(seating.players[0].base, None);
    assert_eq!(seating.players[1].base, None);
    assert_eq!(seating.remaining_factions, vec![Faction::Tesla]);
}

#[test]
fn base_from_an_empty_pool_is_refused() {
    let rules = BannedPairs::standard();
    let mut rng = Randomizer::from_seed(25);
    let mut seating = seat_players(
        1,
        vec![Faction::Tesla],
        base_mats_in_book_order(),
        &rules,
        &mut rng,
    )
    .unwrap();
    assert_eq!(
        seating.assign_bases(true, &mut rng),
        Err(SetupError::PreconditionViolation)
    );
    assert_eq!(seating.players[0].base, None);
    assert!(seating.remaining_factions.is_empty());
    assert_eq!(seating.assign_bases(false, &mut rng), Ok(()));
    let base: Faction = seating.players[0].base.unwrap();
    assert!(base == Faction::Albion || base == Faction::Togawa);
    assert_eq!(seating.remaining_factions.len(), 1);
}

#[test]
fn swap_with_a_given_partner_is_exact() {
    let rules = BannedPairs::standard();
    let factions = vec![
        Faction::Nordic,
        Faction::Saxony,
        Faction::Polania,
        Faction::Crimea,
        Faction::Rusviet,
    ];
    let mats = vec![
        PlayerMat::Engineering,
        PlayerMat::Patriotic,
        PlayerMat::Mechanical,
        PlayerMat::Agricultural,
        PlayerMat::Industrial,
    ];
    for partner in 0..4usize {
        let mut rng = Randomizer::from_seed(40);
        let mut seating = Seating::new(factions.clone(), mats.clone());
        for _ in 0..4 {
            assert_eq!(seating.seat_next(&rules, &mut rng), Ok(Repair::Natural));
        }
        assert_eq!(seating.seat_by_swap(&rules, partner), Ok(Repair::Swap));
        let mut expected: Vec<Player> = (0..4usize)
            .map(|index| seated(index as u8 + 1, factions[index], mats[index]))
            .collect();
        expected[partner].player_mat = PlayerMat::Industrial;
        expected.push(seated(5, Faction::Rusviet, mats[partner]));
        assert_eq!(seating.players, expected);
        assert!(seating.remaining_factions.is_empty());
        assert!(seating.remaining_player_mats.is_empty());
    }
}

#[test]
fn swap_is_refused_where_it_is_not_due() {
    let rules = BannedPairs::standard();
    let mut rng = Randomizer::from_seed(41);
    let mut seating = Seating::new(
        vec![Faction::Nordic, Faction::Rusviet, Faction::Saxony],
        vec![
            PlayerMat::Mechanical,
            PlayerMat::Industrial,
            PlayerMat::Militant,
        ],
    );
    assert_eq!(
        seating.seat_by_swap(&rules, 0),
        Err(SetupError::PreconditionViolation)
    );
    assert_eq!(seating.seat_next(&rules, &mut rng), Ok(Repair::Natural));
    assert_eq!(
        seating.seat_by_swap(&rules, 0),
        Err(SetupError::PreconditionViolation)
    );
    assert_eq!(
        seating.players,
        vec![seated(1, Faction::Nordic, PlayerMat::Mechanical)]
    );
    assert_eq!(
        seating.remaining_player_mats,
        vec![PlayerMat::Industrial, PlayerMat::Militant]
    );
}

#[test]
fn swap_is_refused_without_such_a_partner() {
    let rules = BannedPairs::standard();
    let mut rng = Randomizer::from_seed(42);
    let mut seating = Seating::new(
        vec![Faction::Nordic, Faction::Rusviet],
        vec![PlayerMat::Mechanical, PlayerMat::Industrial],
    );
    assert_eq!(seating.seat_next(&rules, &mut rng), Ok(Repair::Natural));
    assert_eq!(
        seating.seat_by_swap(&rules, 1),
        Err(SetupError::PreconditionViolation)
    );
    assert_eq!(seating.players.len(), 1);
    assert_eq!(seating.remaining_factions, vec![Faction::Rusviet]);
    assert_eq!(seating.seat_by_swap(&rules, 0), Ok(Repair::Swap));
    assert_eq!(
        seating.players,
        vec![
            seated(1, Faction::Nordic, PlayerMat::Industrial),
            seated(2, Faction::Rusviet, PlayerMat::Mechanical),
        ]
    );
    assert_eq!(
        seating.seat_by_swap(&rules, 0),
        Err(SetupError::InvalidPlayerCount)
    );
}

#[test]
fn pool_repair_before_the_shuffle_is_exact() {
    let rules = BannedPairs::standard();
    let mut seating = Seating::new(base_factions_rusviet_first(), base_mats_in_book_order());
    assert_eq!(seating.seat_from_pool(&rules), Ok(Repair::Pool));
    assert_eq!(
        seating.players,
        vec![seated(1, Faction::Rusviet, PlayerMat::Engineering)]
    );
    assert_eq!(
        seating.remaining_player_mats,
        vec![
            PlayerMat::Patriotic,
            PlayerMat::Mechanical,
            PlayerMat::Agricultural,
            PlayerMat::Industrial,
        ]
    );
    assert_eq!(
        seating.remaining_factions,
        vec![
            Faction::Nordic,
            Faction::Crimea,
            Faction::Saxony,
            Faction::Polania
        ]
    );
}

#[test]
fn pool_repair_is_refused_where_it_is_not_due() {
    let rules = BannedPairs::standard();
    let mut seating = Seating::new(
        vec![Faction::Nordic, Faction::Crimea],
        vec![PlayerMat::Industrial, PlayerMat::Patriotic],
    );
    assert_eq!(
        seating.seat_from_pool(&rules),
        Err(SetupError::PreconditionViolation)
    );
    assert!(seating.players.is_empty());
    let mut rng = Randomizer::from_seed(43);
    assert_eq!(seating.seat_next(&rules, &mut rng), Ok(Repair::Natural));
    assert_eq!(
        seating.seat_from_pool(&rules),
        Err(SetupError::PreconditionViolation)
    );
    assert_eq!(seating.remaining_player_mats, vec![PlayerMat::Patriotic]);
    let mut seating = Seating::new(Vec::new(), base_mats_in_book_order());
    assert_eq!(
        seating.seat_from_pool(&rules),
        Err(SetupError::InvalidPlayerCount)
    );
}

#[test]
fn bases_come_from_the_front_of_the_pool() {
    let mut seating = Seating::new(
        vec![Faction::Togawa, Faction::Nordic, Faction::Albion],
        Vec::new(),
    );
    seating.players = vec![
        seated(1, Faction::Saxony, PlayerMat::Militant),
        seated(2, Faction::Tesla, PlayerMat::Industrial),
        seated(3, Faction::Polania, PlayerMat::Patriotic),
    ];
    assert_eq!(seating.draw_bases(), Ok(()));
    let mut expected = vec![
        seated(1, Faction::Saxony, PlayerMat::Militant),
        seated(2, Faction::Tesla, PlayerMat::Industrial),
        seated(3, Faction::Polania, PlayerMat::Patriotic),
    ];
    expected[1].base = Some(Faction::Togawa);
    assert_eq!(seating.players, expected);
    assert_eq!(
        seating.remaining_factions,
        vec![Faction::Nordic, Faction::Albion]
    );
}

#[test]
fn bases_are_refused_where_the_pool_is_too_small() {
    let mut seating = Seating::new(Vec::new(), vec![PlayerMat::Mechanical]);
    seating.players = vec![seated(1, Faction::Tesla, PlayerMat::Industrial)];
    assert_eq!(
        seating.draw_bases(),
        Err(SetupError::PreconditionViolation)
    );
    assert_eq!(
        seating.players,
        vec![seated(1, Faction::Tesla, PlayerMat::Industrial)]
    );
    assert_eq!(seating.remaining_player_mats, vec![PlayerMat::Mechanical]);
    seating.players = vec![seated(1, Faction::Saxony, PlayerMat::Industrial)];
    assert_eq!(seating.draw_bases(), Ok(()));
    assert_eq!(seating.players[0].base, None);
}
