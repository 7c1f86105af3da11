use invaders_core::formation::{Formation, FormationLayout, FormationMaker};
use invaders_core::geom::{Vec2, WinSize};
use invaders_core::player::PlayerState;
use invaders_core::world::{Enemy, GameWorld, Laser, PlayerShip};
use invaders_core::{DEFAULT_SPEED, MAX_ENEMIES};

fn layout() -> FormationLayout {
    FormationLayout {
        start: Vec2 { x: 500_000, y: 120_000 },
        offset: Vec2 { x: 30_000, y: 40_000 },
        radius: Vec2 { x: 100_000, y: 100_000 },
    }
}

fn enemy_at(x: i64, y: i64) -> Enemy {
    Enemy {
        pos: Vec2 { x, y },
        speed: DEFAULT_SPEED,
        size: Vec2 { x: 100_000, y: 100_000 },
        formation: Formation {
            group_id: 1,
            offset: Vec2 { x: 0, y: 0 },
            radius: Vec2 { x: 100_000, y: 100_000 },
            start: Vec2 { x: 500_000, y: 0 },
            angle: 0,
        },
    }
}

fn laser_at(x: i64, y: i64, w: i64, h: i64) -> Laser {
    Laser { pos: Vec2 { x, y }, speed: DEFAULT_SPEED, size: Vec2 { x: w, y: h } }
}

fn world_with(enemies: Vec<Enemy>) -> GameWorld {
    let n = enemies.len() as u32;
    GameWorld {
        enemies,
        active_enemies: n,
        player_lasers: Vec::new(),
        enemy_lasers: Vec::new(),
        player: None,
    }
}

#[test]
fn five_spawns_fill_the_cap_and_split_groups() {
    // MaxEnemies = 4, MaxFormationMembers = 2: five fixed-cadence spawn
    // calls produce four enemies plus one silently suppressed call; the
    // first two share a group id, the next two share a different one.
    let mut w = GameWorld::new();
    let mut maker = FormationMaker::default();
    let size = Vec2 { x: 90_000, y: 90_000 };
    for _ in 0..5 {
        w.enemy_spawn(&mut maker, &layout(), 42, size);
        // the counter matches the store after every call
        assert_eq!(w.active_enemies as usize, w.enemies.len());
        assert!(w.active_enemies <= MAX_ENEMIES);
    }
    assert_eq!(w.enemies.len(), 4);
    assert_eq!(w.active_enemies, 4);
    let ids: Vec<u32> = w.enemies.iter().map(|e| e.formation.group_id).collect();
    assert_eq!(ids[0], ids[1]);
    assert_eq!(ids[2], ids[3]);
    assert_ne!(ids[0], ids[2]);
    assert!(ids[2] > ids[0]);
    // the suppressed fifth call left the allocator untouched
    assert_eq!(maker.group_seq, 2);
    assert_eq!(maker.current_formation_members, 2);
    // every enemy entered at its formation's start point
    assert_eq!(w.enemies[0].pos, Vec2 { x: 500_000, y: 120_000 });
    assert_eq!(w.enemies[0].speed, DEFAULT_SPEED);
}

#[test]
fn fire_with_player_alive_spawns_one_laser_per_enemy() {
    let mut w = world_with(vec![enemy_at(10_000, 20_000)]);
    let state = PlayerState { on: true, last_shot: 0 };
    let lsize = Vec2 { x: 9_000, y: 54_000 };
    w.enemy_fire(&state, lsize);
    assert_eq!(w.enemy_lasers.len(), 1);
    // the projectile appears exactly 15 pixels below the enemy
    assert_eq!(w.enemy_lasers[0].pos, Vec2 { x: 10_000, y: 5_000 });
    assert_eq!(w.enemy_lasers[0].speed, DEFAULT_SPEED);
    assert_eq!(w.enemy_lasers[0].size, lsize);
}

#[test]
fn fire_with_player_down_spawns_nothing() {
    let mut w = world_with(vec![enemy_at(10_000, 20_000), enemy_at(-40_000, 0)]);
    let state = PlayerState { on: false, last_shot: 9 };
    w.enemy_fire(&state, Vec2 { x: 9_000, y: 54_000 });
    assert_eq!(w.enemy_lasers.len(), 0);
}

#[test]
fn one_laser_overlapping_two_enemies_blasts_both_once() {
    // one projectile box fully overlapping two enemy boxes in the same
    // tick: both enemies are destroyed exactly once, the counter drops
    // by exactly 2, and the projectile is destroyed exactly once.
    let mut w = world_with(vec![enemy_at(50_000, 0), enemy_at(-50_000, 0)]);
    w.player_lasers = vec![laser_at(0, 0, 400_000, 400_000)];
    let events = w.player_laser_hit_enemy();
    assert_eq!(w.enemies.len(), 0);
    assert_eq!(w.active_enemies, 0);
    assert_eq!(w.player_lasers.len(), 0);
    assert_eq!(events.len(), 2);
    assert_eq!(events[0], Vec2 { x: 50_000, y: 0 });
    assert_eq!(events[1], Vec2 { x: -50_000, y: 0 });
}

#[test]
fn two_lasers_on_one_enemy_decrement_once() {
    // both projectiles overlap the same enemy: it is destroyed exactly
    // once, the counter drops by exactly 1, and both projectiles go
    let mut w = world_with(vec![enemy_at(0, 0)]);
    w.player_lasers = vec![
        laser_at(10_000, 0, 100_000, 100_000),
        laser_at(-10_000, 0, 100_000, 100_000),
    ];
    let events = w.player_laser_hit_enemy();
    assert_eq!(w.enemies.len(), 0);
    assert_eq!(w.active_enemies, 0);
    assert_eq!(w.player_lasers.len(), 0);
    assert_eq!(events.len(), 1);
    assert_eq!(events[0], Vec2 { x: 0, y: 0 });
}

#[test]
fn collision_pass_spares_the_unhit() {
    let far = enemy_at(2_000_000, 2_000_000);
    let mut w = world_with(vec![enemy_at(0, 0), far]);
    w.player_lasers = vec![
        laser_at(10_000, 10_000, 100_000, 100_000),
        laser_at(-900_000, 0, 9_000, 54_000),
    ];
    let events = w.player_laser_hit_enemy();
    assert_eq!(w.enemies.len(), 1);
    assert_eq!(w.enemies[0].pos, Vec2 { x: 2_000_000, y: 2_000_000 });
    assert_eq!(w.active_enemies, 1);
    // only the missing projectile survives
    assert_eq!(w.player_lasers.len(), 1);
    assert_eq!(w.player_lasers[0].pos, Vec2 { x: -900_000, y: 0 });
    assert_eq!(events.len(), 1);
    assert_eq!(events[0], Vec2 { x: 0, y: 0 });
}

#[test]
fn enemy_laser_shoots_down_the_player() {
    let mut w = world_with(Vec::new());
    w.player = Some(PlayerShip { pos: Vec2 { x: 0, y: -200_000 }, size: Vec2 { x: 90_000, y: 90_000 } });
    w.enemy_lasers = vec![
        laser_at(10_000, -190_000, 9_000, 54_000),
        laser_at(800_000, 0, 9_000, 54_000),
    ];
    let mut state = PlayerState { on: true, last_shot: 0 };
    let events = w.enemy_laser_hit_player(&mut state, 1_234);
    assert!(w.player.is_none());
    assert!(!state.on);
    assert_eq!(state.last_shot, 1_234);
    // the overlapping projectile is destroyed, the miss flies on
    assert_eq!(w.enemy_lasers.len(), 1);
    assert_eq!(w.enemy_lasers[0].pos, Vec2 { x: 800_000, y: 0 });
    assert_eq!(events.len(), 1);
    assert_eq!(events[0], Vec2 { x: 0, y: -200_000 });
}

#[test]
fn enemy_laser_pass_without_player_skips() {
    let mut w = world_with(Vec::new());
    w.enemy_lasers = vec![laser_at(0, 0, 9_000, 54_000)];
    let mut state = PlayerState { on: false, last_shot: 77 };
    let events = w.enemy_laser_hit_player(&mut state, 9_999);
    assert!(w.player.is_none());
    assert_eq!(w.enemy_lasers.len(), 1);
    assert_eq!(events.len(), 0);
    assert_eq!(state, PlayerState { on: false, last_shot: 77 });
}

#[test]
fn enemy_lasers_fall_and_are_culled_below_the_window() {
    let win = WinSize { w: 598_000, h: 676_000 };
    let mut w = world_with(Vec::new());
    w.enemy_lasers = vec![
        laser_at(5_000, 0, 9_000, 54_000),
        // 724 px down: one more step crosses the cull line at -726 px
        laser_at(0, -724_000, 9_000, 54_000),
    ];
    w.elaser_movement(&win);
    assert_eq!(w.enemy_lasers.len(), 1);
    // 500 px/s over one 1/180 s tick is 2.777 px
    assert_eq!(w.enemy_lasers[0].pos, Vec2 { x: 5_000, y: -2_777 });
}

#[test]
fn movement_system_updates_only_the_chosen_enemy() {
    let mut w = world_with(vec![enemy_at(0, 0), enemy_at(9_000, 9_000)]);
    // target for enemy 0 is its formation centre (0,0): already there
    w.enemy_movement(0, 0, 0);
    assert_eq!(w.enemies[0].pos, Vec2 { x: 0, y: 0 });
    assert_eq!(w.enemies[1].pos, Vec2 { x: 9_000, y: 9_000 });
    assert_eq!(w.active_enemies, 2);
}

#[test]
fn player_state_transitions() {
    let mut s = PlayerState::default();
    assert!(!s.on);
    assert_eq!(s.last_shot, 0);
    s.spawned();
    assert!(s.on);
    s.shot(5_500);
    assert!(!s.on);
    assert_eq!(s.last_shot, 5_500);
    s.spawned();
    assert!(s.on);
    assert_eq!(s.last_shot, 0);
}
