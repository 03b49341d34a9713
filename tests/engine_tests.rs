use engine::action::{Action, Error};
use engine::arena::{Arena, TileType};
use engine::combat;
use engine::elixir;
use engine::entities::{Entity, EntityKind, TargetType, TowerData, TroopData};
use engine::geometry::{isqrt, PlayerId, Position};
use engine::movement;
use engine::player::ELIXIR_UNIT;
use engine::rng::Rng;
use engine::state::{EntityId, GameState};
use engine::step;

fn troop(owner: PlayerId, x: i32, y: i32, range: u32, interval: u32, damage: u32, speed: u32, ranged: bool) -> Entity {
    Entity::new(
        owner,
        Position::new(x, y),
        EntityKind::Troop(TroopData {
            base_hp: 1000,
            damage,
            range,
            attack_speed: interval,
            movement_speed: speed,
            target_type: TargetType::Ground,
            is_ranged: ranged,
        }),
    )
}

fn tower(owner: PlayerId, x: i32, y: i32, hp: u32, damage: u32, range: u32) -> Entity {
    Entity::new(
        owner,
        Position::new(x, y),
        EntityKind::Tower(TowerData { base_hp: hp, damage, range, attack_speed: 48 }),
    )
}

fn deck() -> Vec<String> {
    ["Knight", "Archers", "Giant", "Fireball", "Arrows", "Knight", "Archers", "Giant"]
        .iter()
        .map(|s| s.to_string())
        .collect()
}

fn entity(state: &GameState, id: EntityId) -> Entity {
    *state.get_entity(id).unwrap()
}

#[test]
fn test_deterministic_simulation() {
    let mut state1 = GameState::new(12345);
    let mut state2 = GameState::new(12345);
    for _ in 0..100 {
        step(&mut state1, &[]).unwrap();
        step(&mut state2, &[]).unwrap();
    }
    assert_eq!(state1.tick, state2.tick);
    assert_eq!(state1.tick, 100);
}

#[test]
fn test_determinism() {
    let mut rng1 = Rng::new(42);
    let mut rng2 = Rng::new(42);
    for _ in 0..100 {
        assert_eq!(rng1.rand_u32(), rng2.rand_u32());
    }
}

#[test]
fn test_int_range() {
    let mut rng = Rng::new(456);
    for _ in 0..1000 {
        let value = rng.rand_int_range(1, 7);
        assert!(value >= 1 && value < 7);
    }
}

#[test]
fn test_elixir_regeneration() {
    let mut state = GameState::new(42);
    let initial_elixir = state.player1.elixir;
    for _ in 0..60 {
        elixir::update(&mut state);
    }
    let final_elixir = state.player1.elixir;
    let gained = (final_elixir - initial_elixir) as f64 / ELIXIR_UNIT as f64;
    assert!((gained - 1.0).abs() < 0.01);
}

#[test]
fn test_elixir_cap() {
    let mut state = GameState::new(42);
    state.player1.elixir = 570; // 9.5 elixir
    for _ in 0..600 {
        elixir::update(&mut state);
    }
    let final_elixir = state.player1.elixir as f64 / ELIXIR_UNIT as f64;
    assert_eq!(final_elixir, 10.0);
}

#[test]
fn rng_draws_differ_between_seeds_and_draws() {
    let mut a = Rng::new(1);
    let mut b = Rng::new(2);
    let a1 = a.rand_u32();
    let a2 = a.rand_u32();
    assert_ne!(a1, a2);
    assert_ne!(a1, b.rand_u32());
    assert_eq!(a.seed(), 1);
    assert_eq!(a.state(), (a1 as u64).wrapping_add(a2 as u64));
}

#[test]
fn rng_restored_from_parts_resumes_the_stream() {
    let mut a = Rng::new(99);
    for _ in 0..5 {
        a.rand_u32();
    }
    let mut b = Rng::from_parts(a.seed, a.pcg_state, a.pcg_inc, a.tally);
    for _ in 0..50 {
        assert_eq!(a.rand_u32(), b.rand_u32());
    }
}

#[test]
fn rng_empty_int_range_returns_min_without_drawing() {
    let mut a = Rng::new(5);
    let before = a;
    assert_eq!(a.rand_int_range(4, 4), 4);
    assert_eq!(a, before);
}

#[test]
fn resource_grows_one_elixir_per_second_of_steps() {
    let mut state = GameState::new(42);
    let start = state.player1.elixir;
    for _ in 0..60 {
        step(&mut state, &[]).unwrap();
    }
    let gained = (state.player1.elixir - start) as f64 / ELIXIR_UNIT as f64;
    assert!((gained - 1.0).abs() <= 0.02);
}

#[test]
fn resource_is_capped_at_maximum() {
    let mut state = GameState::new(3);
    for _ in 0..10_000 {
        step(&mut state, &[]).unwrap();
    }
    assert_eq!(state.player1.elixir, state.player1.max_elixir);
    assert_eq!(state.player2.elixir, 600);
}

#[test]
fn identical_runs_produce_identical_states() {
    let run = || {
        let mut s = GameState::new(77);
        s.set_player_deck(PlayerId::Player1, deck()).unwrap();
        s.set_player_deck(PlayerId::Player2, deck()).unwrap();
        for t in 0..400u32 {
            let actions = if t == 10 {
                vec![Action::PlayCardFromHand {
                    player: PlayerId::Player1,
                    hand_index: 0,
                    level: 11,
                    position: Position::new(12000, 12000),
                }]
            } else if t == 20 {
                vec![Action::PlayCard {
                    player: PlayerId::Player2,
                    card_name: "Archers".to_string(),
                    level: 11,
                    position: Position::new(12000, 18000),
                }]
            } else {
                vec![]
            };
            let _ = step(&mut s, &actions);
        }
        s
    };
    let a = run();
    let b = run();
    assert_eq!(a.entities, b.entities);
    assert_eq!(a.player1.elixir, b.player1.elixir);
    assert_eq!(a.player2.elixir, b.player2.elixir);
    assert_eq!(a.rng, b.rng);
    assert_eq!(a.player1.deck, b.player1.deck);
}

#[test]
fn resumed_copy_follows_the_same_trajectory() {
    let mut s = GameState::new(8);
    s.add_entity(troop(PlayerId::Player1, 0, 0, 1440, 72, 50, 20, false));
    s.add_entity(troop(PlayerId::Player2, 6000, 0, 7200, 60, 30, 20, true));
    for _ in 0..30 {
        step(&mut s, &[]).unwrap();
    }
    let mut copy = GameState::with_cards(s.rng.seed, Vec::new());
    copy.rng = Rng::from_parts(s.rng.seed, s.rng.pcg_state, s.rng.pcg_inc, s.rng.tally);
    copy.entities = s.entities.clone();
    copy.next_entity_id = s.next_entity_id;
    copy.tick = s.tick;
    copy.match_time = s.match_time;
    copy.player1.elixir = s.player1.elixir;
    copy.player2.elixir = s.player2.elixir;
    for _ in 0..200 {
        step(&mut s, &[]).unwrap();
        step(&mut copy, &[]).unwrap();
        assert_eq!(s.entities, copy.entities);
    }
    assert_eq!(s.rng, copy.rng);
}

#[test]
fn melee_engagement_deals_damage_once_per_interval_and_holds_position() {
    let damage = 167;
    let mut s = GameState::with_cards(1, Vec::new());
    // melee: range 1.2 tiles, 1.2 s interval; the enemy stands 1.0 tile away
    let knight = s.add_entity(troop(PlayerId::Player1, 0, 0, 1440, 72, damage, 20, false)).unwrap();
    let mut enemy = troop(PlayerId::Player2, 1200, 0, 6000, 72, 1, 0, true);
    enemy.hp = 100_000;
    enemy.max_hp = 100_000;
    let archer = s.add_entity(enemy).unwrap();
    let start = entity(&s, knight).position;
    let mut hits = Vec::new();
    let mut last_hp = entity(&s, archer).hp;
    for t in 0..400u32 {
        step(&mut s, &[]).unwrap();
        let hp = entity(&s, archer).hp;
        if hp < last_hp {
            assert_eq!(last_hp - hp, damage);
            hits.push(t);
        }
        last_hp = hp;
        assert_eq!(entity(&s, knight).position, start);
    }
    assert!(hits.len() >= 5);
    for w in hits.windows(2) {
        assert_eq!(w[1] - w[0], 72);
    }
}

#[test]
fn troops_pathing_side_by_side_never_overlap() {
    let mut s = GameState::with_cards(1, Vec::new());
    // radius 0.4 tiles, 0.9 tiles apart, both heading for a far target
    let a = s.add_entity(troop(PlayerId::Player1, 12000, 12000, 1440, 72, 10, 20, false)).unwrap();
    let b = s.add_entity(troop(PlayerId::Player1, 12000, 13080, 1440, 72, 10, 20, false)).unwrap();
    s.add_entity(tower(PlayerId::Player2, 36000, 12540, 100_000, 0, 0));
    let mut min_d2 = u128::MAX;
    for _ in 0..600 {
        step(&mut s, &[]).unwrap();
        let pa = entity(&s, a).position;
        let pb = entity(&s, b).position;
        min_d2 = min_d2.min(pa.distance_sq_to(&pb));
    }
    assert!(entity(&s, a).position.x > 12000);
    assert!(min_d2 >= 960 * 960);
}

#[test]
fn a_committed_move_never_ends_inside_a_standing_troop() {
    let mut s = GameState::with_cards(1, Vec::new());
    let mover = s.add_entity(troop(PlayerId::Player1, 0, 0, 100, 72, 10, 200, false)).unwrap();
    let wall = s.add_entity(troop(PlayerId::Player1, 1000, 0, 100, 72, 10, 0, false)).unwrap();
    s.add_entity(tower(PlayerId::Player2, 40000, 0, 100_000, 0, 0));
    for _ in 0..50 {
        movement::update(&mut s);
        let d2 = entity(&s, mover).position.distance_sq_to(&entity(&s, wall).position);
        assert!(d2 >= 960 * 960);
    }
    assert_eq!(entity(&s, mover).position, Position::new(0, 0));
}

#[test]
fn attacks_only_land_within_range() {
    let mut s = GameState::with_cards(1, Vec::new());
    let attacker = s.add_entity(troop(PlayerId::Player1, 0, 0, 1200, 10, 5, 0, false)).unwrap();
    let far = s.add_entity(troop(PlayerId::Player2, 1201, 0, 0, 10, 0, 0, false)).unwrap();
    for _ in 0..30 {
        combat::update(&mut s);
    }
    assert_eq!(entity(&s, far).hp, 1000);
    assert_eq!(entity(&s, attacker).target, Some(far.as_u32()));
    let mut s = GameState::with_cards(1, Vec::new());
    s.add_entity(troop(PlayerId::Player1, 0, 0, 1200, 10, 5, 0, false));
    let near = s.add_entity(troop(PlayerId::Player2, 1200, 0, 0, 10, 0, 0, false)).unwrap();
    combat::update(&mut s);
    assert_eq!(entity(&s, near).hp, 995);
}

#[test]
fn ranged_attack_launches_a_projectile_that_lands() {
    let mut s = GameState::with_cards(1, Vec::new());
    s.add_entity(tower(PlayerId::Player1, 0, 0, 5000, 90, 8400));
    let victim = s.add_entity(troop(PlayerId::Player2, 6000, 0, 0, 72, 0, 0, false)).unwrap();
    step(&mut s, &[]).unwrap();
    assert_eq!(s.entities.len(), 3);
    assert!(matches!(s.entities[2].1.kind, EntityKind::Projectile(_)));
    assert_eq!(entity(&s, victim).hp, 1000);
    for _ in 0..30 {
        step(&mut s, &[]).unwrap();
    }
    assert_eq!(entity(&s, victim).hp, 910);
}

#[test]
fn projectile_fizzles_when_its_target_is_gone() {
    let mut s = GameState::with_cards(1, Vec::new());
    s.add_entity(tower(PlayerId::Player1, 0, 0, 5000, 90, 8400));
    let victim = s.add_entity(troop(PlayerId::Player2, 6000, 0, 0, 72, 0, 0, false)).unwrap();
    step(&mut s, &[]).unwrap();
    s.remove_entity(victim);
    step(&mut s, &[]).unwrap();
    assert_eq!(s.entities.len(), 1);
}

#[test]
fn nearest_target_ties_go_to_the_lower_identifier() {
    let mut s = GameState::with_cards(1, Vec::new());
    s.add_entity(troop(PlayerId::Player1, 0, 0, 100, 72, 1, 0, false));
    let first = s.add_entity(troop(PlayerId::Player2, 5000, 0, 0, 72, 0, 0, false)).unwrap();
    s.add_entity(troop(PlayerId::Player2, -5000, 0, 0, 72, 0, 0, false));
    s.add_entity(troop(PlayerId::Player2, 0, 5001, 0, 72, 0, 0, false));
    assert_eq!(combat::find_target(&s, 0), Some(1));
    combat::acquire_targets(&mut s);
    assert_eq!(s.entities[0].1.target, Some(first.as_u32()));
}

#[test]
fn buildings_filter_picks_towers_only() {
    let mut s = GameState::with_cards(1, Vec::new());
    let mut giant = troop(PlayerId::Player1, 0, 0, 1440, 90, 211, 15, false);
    if let EntityKind::Troop(d) = &mut giant.kind {
        d.target_type = TargetType::Buildings;
    }
    s.add_entity(giant);
    s.add_entity(troop(PlayerId::Player2, 100, 0, 0, 72, 0, 0, false));
    let t = s.add_entity(tower(PlayerId::Player2, 20000, 0, 1400, 0, 0)).unwrap();
    assert_eq!(combat::find_target(&s, 0), Some(2));
    assert!(!combat::is_valid_target_type(&s.entities[1].1, TargetType::Buildings));
    assert!(combat::is_valid_target_type(&s.entities[2].1, TargetType::Buildings));
    assert!(!combat::is_valid_target_type(&s.entities[2].1, TargetType::Air));
    assert!(combat::is_valid_target(&s, EntityId::from_u32(1), t));
}

#[test]
fn failed_deploy_from_hand_leaves_the_hand_untouched() {
    let mut s = GameState::new(42);
    s.set_player_deck(PlayerId::Player1, deck()).unwrap();
    s.player1.elixir = 0;
    let hand_before = s.player1.hand.clone();
    let next_before = s.player1.next_card_index;
    let r = s.apply_action(&Action::PlayCardFromHand {
        player: PlayerId::Player1,
        hand_index: 0,
        level: 11,
        position: Position::new(12000, 12000),
    });
    assert_eq!(r, Err(Error::InsufficientResource));
    assert_eq!(s.player1.hand, hand_before);
    assert_eq!(s.player1.next_card_index, next_before);
    assert_eq!(s.player1.elixir, 0);
    assert!(s.entities.is_empty());
}

#[test]
fn deploy_from_hand_cycles_the_slot_and_pays() {
    let mut s = GameState::new(42);
    s.set_player_deck(PlayerId::Player1, deck()).unwrap();
    let name = s.player1.get_hand_card(2).unwrap().clone();
    let cost = s.get_card_by_name(&name).unwrap().elixir_cost;
    let r = step(
        &mut s,
        &[Action::PlayCardFromHand { player: PlayerId::Player1, hand_index: 2, level: 11, position: Position::new(12000, 12000) }],
    );
    assert_eq!(r, Ok(()));
    assert_eq!(s.player1.hand, vec![0, 1, 4, 3]);
    assert_eq!(s.player1.next_card_index, 5);
    assert_eq!(s.player1.elixir, 300 - cost + 1);
}

#[test]
fn every_action_error_is_reported() {
    let mut s = GameState::new(42);
    let play = |name: &str, level: u32| Action::PlayCard {
        player: PlayerId::Player2,
        card_name: name.to_string(),
        level,
        position: Position::new(0, 0),
    };
    assert_eq!(s.apply_action(&play("Dragon", 11)), Err(Error::UnknownCard));
    assert_eq!(s.apply_action(&play("Knight", 9)), Err(Error::UnknownLevel));
    let hand = Action::PlayCardFromHand { player: PlayerId::Player2, hand_index: 0, level: 11, position: Position::new(0, 0) };
    assert_eq!(s.apply_action(&hand), Err(Error::InvalidHandIndex));
    s.player2.elixir = 100;
    assert_eq!(s.apply_action(&play("Knight", 11)), Err(Error::InsufficientResource));
    assert_eq!(s.player2.elixir, 100);
    assert!(s.entities.is_empty());
    assert_eq!(s.apply_action(&Action::Emote { player: PlayerId::Player1, emote_id: 3 }), Ok(()));
    assert_eq!(Error::UnknownCard.message(), "unknown card");
    let mut bad = deck();
    bad[3] = "Dragon".to_string();
    assert_eq!(s.set_player_deck(PlayerId::Player1, bad), Err(Error::UnknownCard));
}

#[test]
fn step_keeps_going_after_a_rejected_action() {
    let mut s = GameState::new(42);
    let r = step(
        &mut s,
        &[
            Action::PlayCard { player: PlayerId::Player1, card_name: "Dragon".to_string(), level: 11, position: Position::new(0, 0) },
            Action::PlayCard { player: PlayerId::Player1, card_name: "Archers".to_string(), level: 11, position: Position::new(0, 0) },
        ],
    );
    assert_eq!(r, Err(Error::UnknownCard));
    assert_eq!(s.tick, 1);
    assert_eq!(s.entities.len(), 2);
    assert_eq!(s.player1.elixir, 300 - 180 + 1);
    assert_eq!(s.entities[0].1.hp, 252);
}

#[test]
fn shuffled_deck_is_a_permutation() {
    let mut s = GameState::new(7);
    s.set_player_deck(PlayerId::Player1, deck()).unwrap();
    let mut got = s.player1.deck.clone();
    let mut want = deck();
    got.sort();
    want.sort();
    assert_eq!(got, want);
    assert_eq!(s.player1.hand, vec![0, 1, 2, 3]);
    assert_eq!(s.player1.next_card_index, 4);
}

#[test]
fn dead_entities_leave_at_the_end_of_the_tick() {
    let mut s = GameState::with_cards(1, Vec::new());
    let mut weak = troop(PlayerId::Player2, 1000, 0, 0, 72, 0, 0, false);
    weak.hp = 5;
    s.add_entity(troop(PlayerId::Player1, 0, 0, 1200, 72, 5, 0, false));
    s.add_entity(weak);
    step(&mut s, &[]).unwrap();
    assert_eq!(s.entities.len(), 1);
    assert_eq!(s.entities[0].0, EntityId::from_u32(1));
}

#[test]
fn entity_ids_are_never_reused() {
    let mut s = GameState::with_cards(1, Vec::new());
    let a = s.add_entity(troop(PlayerId::Player1, 0, 0, 0, 72, 0, 0, false)).unwrap();
    s.remove_entity(a);
    let b = s.add_entity(troop(PlayerId::Player1, 0, 0, 0, 72, 0, 0, false)).unwrap();
    assert_eq!(a.as_u32(), 1);
    assert_eq!(b.as_u32(), 2);
    s.next_entity_id = u32::MAX;
    assert_eq!(s.add_entity(troop(PlayerId::Player1, 0, 0, 0, 72, 0, 0, false)), None);
}

#[test]
fn geometry_formulas() {
    assert_eq!(isqrt(0), 0);
    assert_eq!(isqrt(24), 4);
    assert_eq!(isqrt(25), 5);
    assert_eq!(isqrt((1u128 << 64) - 1), 0xffff_ffff);
    let p = Position::new(0, 0);
    assert_eq!(p.distance_to(&Position::new(3, 4)), 5);
    assert_eq!(p.distance_sq_to(&Position::new(-3, 4)), 25);
    let v = p.direction_to(&Position::new(3000, 4000), 20);
    assert_eq!((v.x, v.y), (12, 16));
    let v = p.direction_to(&Position::new(-1, 0), 7);
    assert_eq!((v.x, v.y), (-7, 0));
    assert!(p.direction_to(&p, 9).is_zero());
    assert!(p.within_range(&Position::new(1200, 0), 1200));
    assert!(!p.within_range(&Position::new(1201, 0), 1200));
    let c = Position::new(0, 0);
    assert!(Position::new(2880, 0).circle_collides_rect(480, &c, 2400, 2400));
    assert!(!Position::new(2881, 0).circle_collides_rect(480, &c, 2400, 2400));
    assert!(!Position::new(2800, 2800).circle_collides_rect(480, &c, 2400, 2400));
    assert_eq!(PlayerId::Player1.opponent(), PlayerId::Player2);
}

#[test]
fn arena_tiles() {
    let a = Arena::new();
    assert_eq!(a.get_tile(31, 17), Some(TileType::Grass));
    assert_eq!(a.get_tile(32, 0), None);
    assert_eq!(a.world_to_tile(&Position::new(2500, -5)), (2, 0));
    assert_eq!(a.world_to_tile(&Position::new(1_000_000, 1_000_000)), (31, 17));
    assert_eq!(a.tile_to_world(1, 2), Position::new(1800, 3000));
    assert!(a.is_in_bounds(&Position::new(0, 0)));
    assert!(!a.is_in_bounds(&Position::new(38400, 0)));
    assert!(TileType::Bridge.is_walkable());
    assert!(!TileType::River.is_walkable());
}

#[test]
fn match_ends_on_time_or_a_fallen_king() {
    let mut s = GameState::new(1);
    assert!(!s.is_match_over());
    s.player2.tower_hp.king = 0;
    assert!(s.is_match_over());
    let mut s = GameState::new(1);
    s.advance_time(10_800);
    assert!(s.is_match_over());
}

#[test]
fn placement_request_plays_the_hand_card_on_the_grid() {
    let mut s = GameState::new(42);
    s.set_player_deck(PlayerId::Player1, deck()).unwrap();
    let name = s.player1.get_hand_card(1).unwrap().clone();
    let card = s.get_card_by_name(&name).unwrap().clone();
    let before = s.entities.len();
    let r = engine::action::step_with_action(&mut s, PlayerId::Player1, 1, 16 * 2 + 3);
    assert_eq!(r, Ok(()));
    assert_eq!(s.match_time, 60);
    assert_eq!(s.player1.elixir, 300 - card.elixir_cost);
    if card.card_type == engine::card::CardType::Troop {
        assert!(s.entities.len() > before);
        assert_eq!(s.entities[before].1.position, Position::new(3 * 1200, 2 * 1200));
    }
    // the hand is left alone: the placement bypasses the cycle
    assert_eq!(s.player1.hand, vec![0, 1, 2, 3]);
    let entities = s.entities.clone();
    assert_eq!(engine::action::step_with_action(&mut s, PlayerId::Player1, 9, 0), Err(Error::InvalidHandIndex));
    assert_eq!(engine::action::step_with_action(&mut s, PlayerId::Player1, 0, 144), Err(Error::InvalidTile));
    assert_eq!(s.match_time, 60);
    assert_eq!(s.entities, entities);
    s.player1.elixir = 0;
    assert_eq!(engine::action::step_with_action(&mut s, PlayerId::Player1, 0, 0), Err(Error::InsufficientResource));
    assert_eq!(s.match_time, 120);
    assert_eq!(s.entities, entities);
}

#[test]
fn built_in_cards_and_spawning() {
    let cards = engine::card::get_test_cards();
    let names: Vec<&str> = cards.iter().map(|c| c.name.as_str()).collect();
    assert_eq!(names, vec!["Knight", "Archers", "Giant", "Fireball", "Arrows"]);
    assert_eq!(cards[1].unit_count(), 2);
    assert_eq!(cards[1].get_target_type(), TargetType::Both);
    assert_eq!(cards[2].get_target_type(), TargetType::Buildings);
    assert_eq!(cards[0].get_target_type(), TargetType::Ground);
    let knight = cards[0].troop_data(cards[0].get_level_stats(11).unwrap());
    assert_eq!((knight.base_hp, knight.damage, knight.range, knight.attack_speed, knight.movement_speed), (1452, 167, 1440, 72, 20));
    assert!(!knight.is_ranged);
    assert!(cards[1].troop_data(cards[1].get_level_stats(11).unwrap()).is_ranged);
    assert_eq!(cards[0].get_level_stats(12), None);

    let mut s = GameState::with_cards(1, Vec::new());
    assert_eq!(cards[1].spawn(&mut s, PlayerId::Player2, Position::new(5, 6), 11), Ok(()));
    assert_eq!(s.entities.len(), 2);
    assert_eq!(s.entities[1].0, EntityId::from_u32(2));
    assert_eq!(s.entities[1].1.owner, PlayerId::Player2);
    assert_eq!(cards[3].spawn(&mut s, PlayerId::Player2, Position::new(5, 6), 11), Ok(()));
    assert_eq!(s.entities.len(), 2);
    assert_eq!(cards[0].spawn(&mut s, PlayerId::Player2, Position::new(5, 6), 3), Err(Error::UnknownLevel));
    assert_eq!(s.entities.len(), 2);
}

#[test]
fn card_pool_can_be_replaced() {
    let mut s = GameState::new(1);
    assert!(s.get_card_by_name(&"Giant".to_string()).is_some());
    let mut only = engine::card::get_test_cards();
    only.truncate(1);
    s.load_cards(only);
    assert!(s.get_card_by_name(&"Giant".to_string()).is_none());
    assert_eq!(s.find_card(&"Knight".to_string()), Some(0));
}

#[test]
fn entity_queries() {
    let mut s = GameState::with_cards(1, Vec::new());
    let a = s.add_entity(troop(PlayerId::Player1, 0, 0, 0, 72, 0, 0, false)).unwrap();
    let b = s.add_entity(troop(PlayerId::Player1, 10, 0, 0, 72, 0, 0, false)).unwrap();
    assert!(!combat::is_valid_target(&s, a, b));
    assert_eq!(s.find_index(b.as_u32()), Some(1));
    assert_eq!(s.remove_entity(a).map(|e| e.position), Some(Position::new(0, 0)));
    assert_eq!(s.find_index(b.as_u32()), Some(0));
    assert!(s.get_entity(a).is_none());
    let e = s.entities[0].1;
    assert!(e.can_move() && e.can_attack() && !e.is_ranged());
    assert_eq!(e.radius(), 480);
    assert_eq!(e.target_type(), Some(TargetType::Ground));
}

#[test]
fn well_formedness_check_rejects_broken_states() {
    let mut s = GameState::new(4);
    s.set_player_deck(PlayerId::Player2, deck()).unwrap();
    s.add_entity(troop(PlayerId::Player1, 0, 0, 0, 72, 0, 0, false));
    s.add_entity(troop(PlayerId::Player1, 5, 0, 0, 72, 0, 0, false));
    assert!(s.is_well_formed());
    let mut t = s.clone();
    t.entities.swap(0, 1);
    assert!(!t.is_well_formed());
    let mut t = s.clone();
    t.entities[0].1.hp = 2000;
    assert!(!t.is_well_formed());
    let mut t = s.clone();
    t.player2.hand[3] = 8;
    assert!(!t.is_well_formed());
    let mut t = s.clone();
    t.player1.elixir = 601;
    assert!(!t.is_well_formed());
}

#[test]
fn troops_walking_into_each_other_stop_apart() {
    let mut s = GameState::with_cards(1, Vec::new());
    let a = s.add_entity(troop(PlayerId::Player1, 0, 0, 100, 72, 1, 20, false)).unwrap();
    let b = s.add_entity(troop(PlayerId::Player2, 980, 0, 100, 72, 1, 20, false)).unwrap();
    for _ in 0..20 {
        movement::update(&mut s);
        combat::update(&mut s);
        let d2 = entity(&s, a).position.distance_sq_to(&entity(&s, b).position);
        assert!(d2 >= 960 * 960);
    }
    assert_eq!(entity(&s, a).position, Position::new(20, 0));
}

#[test]
fn troops_may_target_enemy_projectiles() {
    let mut s = GameState::with_cards(1, Vec::new());
    s.add_entity(troop(PlayerId::Player1, 0, 0, 100, 72, 1, 0, false));
    s.add_entity(Entity::new(
        PlayerId::Player2,
        Position::new(3000, 0),
        EntityKind::Projectile(engine::entities::ProjectileData { damage: 1, speed: 300, target_id: None }),
    ));
    assert_eq!(combat::find_target(&s, 0), Some(1));
}

#[test]
fn spent_projectiles_leave_in_the_projectile_phase() {
    let mut s = GameState::with_cards(1, Vec::new());
    s.add_entity(tower(PlayerId::Player1, 0, 0, 5000, 90, 8400));
    let victim = s.add_entity(troop(PlayerId::Player2, 600, 0, 0, 72, 0, 0, false)).unwrap();
    combat::update(&mut s);
    assert_eq!(s.entities.len(), 3);
    engine::projectile::update(&mut s);
    assert_eq!(s.entities.len(), 2);
    assert_eq!(entity(&s, victim).hp, 910);
}
