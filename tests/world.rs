use space_shooter::controller::{Controller, InputEvent, Key, update_controller};
use space_shooter::geometry::Pos;
use space_shooter::player::{Player, PlayerState};
use space_shooter::world::{
    Game, WaveTable, advance_enemy, advance_enemies, advance_projectiles, shoot_enemies,
    RECYCLE_Y, WAVE_LEN,
};

fn wave() -> WaveTable {
    let offsets: Vec<i32> = (0..WAVE_LEN as i32)
        .map(|i| (((RECYCLE_Y + i) as f32 / 24.0).sin() * 8.0).round() as i32)
        .collect();
    WaveTable::new(offsets).unwrap()
}

fn quiet() -> Controller {
    Controller::new()
}

#[test]
fn wave_table_checks_its_offsets() {
    assert!(WaveTable::new(vec![0; WAVE_LEN - 1]).is_none());
    assert!(WaveTable::new(vec![0; WAVE_LEN + 1]).is_none());
    let mut v = vec![0; WAVE_LEN];
    v[17] = 9;
    assert!(WaveTable::new(v.clone()).is_none());
    v[17] = -8;
    let t = WaveTable::new(v).unwrap();
    assert_eq!(t.offset_at(RECYCLE_Y + 17), -8);
    assert_eq!(t.offset_at(RECYCLE_Y), 0);
}

#[test]
fn enemy_descends_and_drifts_with_the_wave() {
    let w = wave();
    assert_eq!(advance_enemy(Pos::new(100, 0), &w), Pos::new(101, 4));
    assert_eq!(advance_enemy(Pos::new(100, 36), &w), Pos::new(108, 40));
    assert_eq!(advance_enemy(Pos::new(100, 96), &w), Pos::new(93, 100));
    assert_eq!(advance_enemy(Pos::new(0, 508), &w), Pos::new(5, 512));
}

#[test]
fn enemy_at_the_bottom_recycles() {
    let w = wave();
    assert_eq!(advance_enemy(Pos::new(50, 512), &w), Pos::new(108, -8));
    assert_eq!(advance_enemy(Pos::new(-300, 515), &w), Pos::new(108, -8));
    assert_eq!(advance_enemy(Pos::new(108, -8), &w), Pos::new(107, -4));
}

#[test]
fn advance_enemies_moves_each_enemy() {
    let w = wave();
    let es = vec![Pos::new(100, 0), Pos::new(7, 600 - 88)];
    assert_eq!(advance_enemies(&es, &w), vec![Pos::new(101, 4), Pos::new(108, -8)]);
}

#[test]
fn projectiles_rise_and_leave_at_the_top() {
    let ps = vec![Pos::new(1, 100), Pos::new(2, 12), Pos::new(3, 11), Pos::new(4, -5)];
    assert_eq!(advance_projectiles(&ps), vec![Pos::new(1, 88), Pos::new(2, 0)]);
    assert_eq!(advance_projectiles(&vec![]), vec![]);
}

#[test]
fn a_projectile_takes_out_every_enemy_it_touches() {
    let es = vec![Pos::new(0, 0), Pos::new(10, 10), Pos::new(100, 100), Pos::new(16, 0)];
    let ps = vec![Pos::new(0, 0)];
    assert_eq!(shoot_enemies(&es, &ps), vec![Pos::new(100, 100), Pos::new(16, 0)]);
    assert_eq!(shoot_enemies(&es, &vec![]), es);
}

#[test]
fn new_game_starts_empty() {
    let g = Game::new();
    assert_eq!(g.player.pos, Pos::new(128, 256));
    assert_eq!(g.player.state, PlayerState::Idle);
    assert!(g.projectiles.is_empty() && g.enemies.is_empty());
    assert_eq!(g.spawn_cooldown, 10);
}

#[test]
fn spawner_waits_for_the_cooldown() {
    let w = wave();
    let mut g = Game::new();
    for _ in 0..10 {
        g.tick_with(&quiet(), Some(40), &w);
        assert!(g.enemies.is_empty());
    }
    assert_eq!(g.spawn_cooldown, 0);
    g.tick_with(&quiet(), Some(40), &w);
    assert_eq!(g.enemies, vec![Pos::new(41, 4)]);
    assert_eq!(g.spawn_cooldown, 9);
}

#[test]
fn a_lost_coin_still_resets_the_cooldown() {
    let w = wave();
    let mut g = Game::new();
    g.spawn_cooldown = 0;
    g.tick_with(&quiet(), None, &w);
    assert!(g.enemies.is_empty());
    assert_eq!(g.spawn_cooldown, 9);
}

#[test]
fn enemy_count_never_exceeds_twelve() {
    let w = wave();
    let mut g = Game::new();
    g.player.pos = Pos::new(-5000, 0);
    let mut most = 0;
    for t in 0..400 {
        g.tick_with(&quiet(), Some(-20 + (t % 290)), &w);
        assert!(g.enemies.len() <= 12);
        most = most.max(g.enemies.len());
    }
    assert_eq!(most, 12);
    assert_eq!(g.spawn_cooldown, 0);
}

#[test]
fn full_game_keeps_twelve_and_cooldown_stays_at_zero() {
    let w = wave();
    let mut g = Game::new();
    g.player.pos = Pos::new(-5000, 0);
    g.spawn_cooldown = 0;
    g.enemies = vec![Pos::new(40, 100); 12];
    g.tick_with(&quiet(), Some(0), &w);
    assert_eq!(g.enemies.len(), 12);
    assert_eq!(g.spawn_cooldown, 0);
}

#[test]
fn enemy_tick_matches_the_wave() {
    let w = wave();
    let mut g = Game::new();
    g.enemies = vec![Pos::new(30, 0)];
    g.tick_with(&quiet(), None, &w);
    let expected = 30 + ((4.0f32 / 24.0).sin() * 8.0).round() as i32;
    assert_eq!(g.enemies, vec![Pos::new(expected, 4)]);
    assert_eq!(expected, 31);
}

#[test]
fn enemy_below_the_bottom_recycles_in_a_tick() {
    let w = wave();
    let mut g = Game::new();
    g.enemies = vec![Pos::new(30, 512)];
    g.tick_with(&quiet(), None, &w);
    assert_eq!(g.enemies, vec![Pos::new(108, -8)]);
}

#[test]
fn projectile_y_only_decreases_until_removed() {
    let w = wave();
    let mut g = Game::new();
    let mut c = Controller::new();
    update_controller(&vec![InputEvent::KeyDown { key: Key::Fire, repeat: false }], &mut c);
    g.tick_with(&c, None, &w);
    assert_eq!(g.projectiles, vec![Pos::new(128, 244)]);
    let mut last = g.projectiles[0].y;
    update_controller(&vec![], &mut c);
    let mut ticks = 1;
    while !g.projectiles.is_empty() {
        g.tick_with(&c, None, &w);
        ticks += 1;
        if let Some(p) = g.projectiles.first() {
            assert_eq!(p.y, last - 12);
            last = p.y;
        }
    }
    assert_eq!(last, 4);
    assert_eq!(ticks, 22);
    for _ in 0..30 {
        g.tick_with(&c, None, &w);
        assert!(g.projectiles.is_empty());
    }
}

#[test]
fn holding_fire_for_ten_ticks_fires_once() {
    let w = wave();
    let mut g = Game::new();
    let mut c = Controller::new();
    for t in 0..10 {
        let events = if t == 0 {
            vec![InputEvent::KeyDown { key: Key::Fire, repeat: false }]
        } else {
            vec![InputEvent::KeyDown { key: Key::Fire, repeat: true }]
        };
        update_controller(&events, &mut c);
        assert!(c.fire_pressed);
        g.tick_with(&c, None, &w);
    }
    assert_eq!(g.projectiles.len(), 1);
    assert_eq!(g.projectiles[0], Pos::new(128, 256 - 120));
}

#[test]
fn fired_projectile_starts_at_the_moved_player() {
    let w = wave();
    let mut g = Game::new();
    let mut c = Controller::new();
    c.fire_just_pressed = true;
    c.fire_pressed = true;
    c.left_pressed = true;
    g.tick_with(&c, None, &w);
    assert_eq!(g.player.pos, Pos::new(123, 256));
    assert_eq!(g.projectiles, vec![Pos::new(123, 244)]);
}

#[test]
fn dying_player_cannot_fire() {
    let w = wave();
    let mut g = Game::new();
    g.player.set_state(PlayerState::Dying { frame: 1, nticks: 0 });
    let mut c = Controller::new();
    c.fire_just_pressed = true;
    c.fire_pressed = true;
    g.tick_with(&c, None, &w);
    assert!(g.projectiles.is_empty());
}

#[test]
fn dying_sequence_takes_twenty_ticks_then_respawns() {
    let w = wave();
    let mut g = Game::new();
    g.player.pos = Pos::new(10, 20);
    g.player.set_state(PlayerState::Dying { frame: 0, nticks: 0 });
    for _ in 0..19 {
        g.tick_with(&quiet(), None, &w);
        assert!(matches!(g.player.state, PlayerState::Dying { .. }));
    }
    g.tick_with(&quiet(), None, &w);
    assert_eq!(g.player.state, PlayerState::Removed);
    assert_eq!(g.player.pos, Pos::new(10, 20));
    g.tick_with(&quiet(), None, &w);
    assert_eq!(g.player.state, PlayerState::Idle);
    assert_eq!(g.player.pos, Pos::new(128, 256));
}

#[test]
fn enemy_hit_starts_the_death_in_the_same_tick() {
    let w = wave();
    let mut g = Game::new();
    g.enemies = vec![Pos::new(128, 252), Pos::new(126, 250)];
    g.tick_with(&quiet(), None, &w);
    assert_eq!(g.player.state, PlayerState::Dying { frame: 0, nticks: 1 });
}

#[test]
fn already_dying_player_is_not_hit_again() {
    let w = wave();
    let mut g = Game::new();
    g.player.set_state(PlayerState::Dying { frame: 0, nticks: 0 });
    g.enemies = vec![Pos::new(128, 252), Pos::new(126, 250)];
    g.tick_with(&quiet(), None, &w);
    assert_eq!(g.player.state, PlayerState::Dying { frame: 0, nticks: 1 });
}

#[test]
fn shot_enemy_cannot_hit_the_player() {
    let w = wave();
    let mut g = Game::new();
    g.enemies = vec![Pos::new(128, 236)];
    let mut c = Controller::new();
    c.fire_just_pressed = true;
    c.fire_pressed = true;
    g.tick_with(&c, None, &w);
    assert!(g.enemies.is_empty());
    assert_eq!(g.player.state, PlayerState::Idle);
    assert_eq!(g.projectiles, vec![Pos::new(128, 244)]);
}

#[test]
fn random_ticks_spawn_in_range() {
    let w = wave();
    let mut g = Game::new();
    g.player = Player::new();
    g.player.pos = Pos::new(-5000, 0);
    let mut xs = vec![];
    for _ in 0..400 {
        let before = g.enemies.len();
        let due = g.spawn_cooldown == 0 && before < 12;
        g.tick(&quiet(), &w);
        assert!(g.enemies.len() <= 12);
        if due && g.enemies.len() == before + 1 {
            let e = g.enemies[before];
            assert_eq!(e.y, 4);
            assert!(-20 + 1 <= e.x && e.x < 276 + 1);
            xs.push(e.x);
        } else {
            assert_eq!(g.enemies.len(), before);
        }
    }
    assert!(!xs.is_empty());
    assert!(xs.iter().any(|x| *x != xs[0]));
}
