//! The entity field and the per-tick systems: spawning under the enemy
//! cap, per-enemy motion, enemy fire, projectile movement, and the two
//! collision passes. The host owns rendering and scheduling; it drives
//! one `GameWorld` value through these calls and mirrors the results.

use vstd::prelude::*;

verus! {

use crate::formation::{Formation, FormationLayout, FormationMaker};
use crate::geom::{boxes_overlap, collide, Vec2, WinSize};
use crate::motion::{
    approach_spec, commits_angle, enemy_movement_step, next_angle_spec, step_len, target_spec,
};
use crate::player::{PlayerState, Speed};
use crate::{
    DEFAULT_SPEED, ENTITY_LIMIT, LASER_DROP, LASER_LIMIT, MAX_ENEMIES, SPEED_LIMIT, TRIG_SCALE,
};

/// A live enemy: its position, scalar speed, bounding-box extent, and
/// its own copy of the formation it was assigned at spawn time.
#[derive(Clone, Copy, Debug)]
pub struct Enemy {
    pub pos: Vec2,
    pub speed: i64,
    pub size: Vec2,
    pub formation: Formation,
}

impl Enemy {
    pub open spec fn wf(self) -> bool {
        &&& self.pos.within(ENTITY_LIMIT)
        &&& 0 < self.speed <= SPEED_LIMIT
        &&& self.size.size_wf()
        &&& self.formation.wf()
    }
}

/// A projectile: its position, scalar speed and bounding-box extent.
#[derive(Clone, Copy, Debug)]
pub struct Laser {
    pub pos: Vec2,
    pub speed: i64,
    pub size: Vec2,
}

impl Laser {
    pub open spec fn wf(self) -> bool {
        &&& self.pos.within(LASER_LIMIT)
        &&& 0 < self.speed <= SPEED_LIMIT
        &&& self.size.size_wf()
    }
}

/// The player ship's collision data.
#[derive(Clone, Copy, Debug)]
pub struct PlayerShip {
    pub pos: Vec2,
    pub size: Vec2,
}

impl PlayerShip {
    pub open spec fn wf(self) -> bool {
        &&& self.pos.within(ENTITY_LIMIT)
        &&& self.size.size_wf()
    }
}

/// The simulation's entity store: the live enemies with their counter,
/// the two projectile populations, and the player ship if one is on the
/// field. Well-formedness ties the counter to the store: it always
/// equals the number of live enemies and never exceeds the cap.
pub struct GameWorld {
    pub enemies: Vec<Enemy>,
    pub active_enemies: u32,
    pub player_lasers: Vec<Laser>,
    pub enemy_lasers: Vec<Laser>,
    pub player: Option<PlayerShip>,
}

impl GameWorld {
    pub open spec fn wf(self) -> bool {
        &&& self.active_enemies as int == self.enemies@.len()
        &&& self.active_enemies <= MAX_ENEMIES
        &&& forall|i: int|
            0 <= i < self.enemies@.len() ==> (#[trigger] self.enemies@[i]).wf()
        &&& forall|i: int|
            0 <= i < self.player_lasers@.len() ==> (#[trigger] self.player_lasers@[i]).wf()
        &&& forall|i: int|
            0 <= i < self.enemy_lasers@.len() ==> (#[trigger] self.enemy_lasers@[i]).wf()
        &&& match self.player {
            Some(p) => p.wf(),
            None => true,
        }
    }

    /// An empty field: no entities, counter at zero, no player ship.
    pub fn new() -> (w: GameWorld)
        ensures
            w.wf(),
            w.enemies@ =~= Seq::<Enemy>::empty(),
            w.active_enemies == 0,
            w.player_lasers@ =~= Seq::<Laser>::empty(),
            w.enemy_lasers@ =~= Seq::<Laser>::empty(),
            w.player is None,
    {
        GameWorld {
            enemies: Vec::new(),
            active_enemies: 0,
            player_lasers: Vec::new(),
            enemy_lasers: Vec::new(),
            player: None,
        }
    }

    /// The spawn coordinator, run once per fixed-cadence interval.
    /// While the cap has room, one enemy is created at the start point
    /// of the formation the allocator assigns and the counter grows by
    /// one; at the cap the call is silent backpressure and changes
    /// nothing, and in particular the allocator is left untouched.
    pub fn enemy_spawn(
        &mut self,
        maker: &mut FormationMaker,
        layout: &FormationLayout,
        bearing: i64,
        size: Vec2,
    )
        requires
            old(self).wf(),
            old(maker).wf(),
            layout.wf(),
            old(maker).group_seq < u32::MAX,
            size.size_wf(),
        ensures
            final(self).wf(),
            final(maker).wf(),
            old(self).active_enemies < MAX_ENEMIES ==> ({
                let f = old(maker).make_result(*layout, bearing);
                &&& *final(maker) == old(maker).make_next(*layout, bearing)
                &&& final(self).enemies@ == old(self).enemies@.push(
                    Enemy { pos: f.start, speed: DEFAULT_SPEED, size, formation: f },
                )
                &&& final(self).active_enemies == old(self).active_enemies + 1
            }),
            old(self).active_enemies >= MAX_ENEMIES ==> {
                &&& final(self).enemies@ == old(self).enemies@
                &&& final(self).active_enemies == old(self).active_enemies
                &&& *final(maker) == *old(maker)
            },
            final(self).player_lasers@ == old(self).player_lasers@,
            final(self).enemy_lasers@ == old(self).enemy_lasers@,
            final(self).player == old(self).player,
    {
        if self.active_enemies < MAX_ENEMIES {
            let formation = maker.make(layout, bearing);
            let speed = Speed::default();
            let enemy = Enemy { pos: formation.start, speed: speed.0, size, formation };
            self.enemies.push(enemy);
            self.active_enemies = self.active_enemies + 1;
        }
    }

    /// The motion controller for the enemy at index `i`: one tick of
    /// clamped motion toward its formation target, committing the
    /// advanced orbit parameter when close enough. `cos_a` and `sin_a`
    /// are the host's cosine and sine of the enemy's `next_angle_spec`
    /// value, scaled by `TRIG_SCALE`.
    pub fn enemy_movement(&mut self, i: usize, cos_a: i64, sin_a: i64)
        requires
            old(self).wf(),
            i < old(self).enemies@.len(),
            -TRIG_SCALE <= cos_a <= TRIG_SCALE,
            -TRIG_SCALE <= sin_a <= TRIG_SCALE,
        ensures
            final(self).wf(),
            ({
                let e = old(self).enemies@[i as int];
                let dst = target_spec(e.formation, cos_a, sin_a);
                let np = approach_spec(e.pos, dst, step_len(e.speed));
                let nf = if commits_angle(e.pos, dst, e.speed) {
                    Formation { angle: next_angle_spec(e.formation, e.speed) as i64, ..e.formation }
                } else {
                    e.formation
                };
                final(self).enemies@ == old(self).enemies@.update(
                    i as int,
                    Enemy { pos: np, formation: nf, ..e },
                )
            }),
            final(self).active_enemies == old(self).active_enemies,
            final(self).player_lasers@ == old(self).player_lasers@,
            final(self).enemy_lasers@ == old(self).enemy_lasers@,
            final(self).player == old(self).player,
    {
        let mut e = self.enemies[i];
        enemy_movement_step(&mut e.pos, e.speed, &mut e.formation, cos_a, sin_a);
        self.enemies.set(i, e);
    }
}

/// The projectile an enemy fires: it appears 15 pixels below the enemy,
/// moving at the default speed, with the given bounding-box extent.
pub open spec fn fired_laser(e: Enemy, size: Vec2) -> Laser {
    Laser {
        pos: Vec2 { x: e.pos.x, y: (e.pos.y - LASER_DROP) as i64 },
        speed: DEFAULT_SPEED,
        size,
    }
}

/// The volley one fire-cadence call produces: one projectile per enemy,
/// in enemy order.
pub open spec fn fired_lasers(enemies: Seq<Enemy>, size: Vec2) -> Seq<Laser> {
    enemies.map_values(|e: Enemy| fired_laser(e, size))
}

/// An enemy projectile after one tick of downward motion.
pub open spec fn dropped_laser(l: Laser) -> Laser {
    Laser { pos: Vec2 { x: l.pos.x, y: (l.pos.y - step_len(l.speed)) as i64 }, ..l }
}

/// Whether a moved enemy projectile stays on the field: it is culled 50
/// pixels below the bottom window edge.
pub open spec fn elaser_keep(l: Laser, win: WinSize) -> bool {
    l.pos.y >= -win.h - 50_000
}

/// The enemy projectiles after one tick: each moves down by its step
/// length, and those past the cull line disappear, order kept.
pub open spec fn moved_elasers(s: Seq<Laser>, win: WinSize) -> Seq<Laser>
    decreases s.len(),
{
    if s.len() == 0 {
        Seq::empty()
    } else {
        let rest = moved_elasers(s.drop_last(), win);
        let moved = dropped_laser(s.last());
        if elaser_keep(moved, win) {
            rest.push(moved)
        } else {
            rest
        }
    }
}

impl GameWorld {
    /// The weapon fire coordinator, run once per fixed-cadence interval:
    /// while the player is alive, every enemy fires one projectile from
    /// just below its position; with the player down, nothing fires.
    pub fn enemy_fire(&mut self, player_state: &PlayerState, laser_size: Vec2)
        requires
            old(self).wf(),
            laser_size.size_wf(),
        ensures
            final(self).wf(),
            player_state.on ==> final(self).enemy_lasers@ == old(self).enemy_lasers@
                + fired_lasers(old(self).enemies@, laser_size),
            !player_state.on ==> final(self).enemy_lasers@ == old(self).enemy_lasers@,
            final(self).enemies@ == old(self).enemies@,
            final(self).active_enemies == old(self).active_enemies,
            final(self).player_lasers@ == old(self).player_lasers@,
            final(self).player == old(self).player,
    {
        if player_state.on {
            let ghost all = fired_lasers(self.enemies@, laser_size);
            let n: usize = self.enemies.len();
            let mut k: usize = 0;
            while k < n
                invariant
                    0 <= k <= n,
                    n == self.enemies@.len(),
                    self.wf(),
                    laser_size.size_wf(),
                    all == fired_lasers(self.enemies@, laser_size),
                    self.enemies@ == old(self).enemies@,
                    self.active_enemies == old(self).active_enemies,
                    self.player_lasers@ == old(self).player_lasers@,
                    self.player == old(self).player,
                    self.enemy_lasers@ == old(self).enemy_lasers@ + all.take(k as int),
                decreases n - k,
            {
                let e = self.enemies[k];
                let laser = Laser {
                    pos: Vec2 { x: e.pos.x, y: e.pos.y - LASER_DROP },
                    speed: DEFAULT_SPEED,
                    size: laser_size,
                };
                self.enemy_lasers.push(laser);
                proof {
                    assert(all[k as int] == laser);
                    assert(all.take(k + 1) =~= all.take(k as int).push(laser));
                }
                k = k + 1;
            }
            proof {
                assert(all.take(n as int) =~= all);
            }
        }
    }

    /// Per-tick motion of enemy projectiles: each moves down by its step
    /// length, and any that has fallen 50 pixels below the window is
    /// removed.
    pub fn elaser_movement(&mut self, win: &WinSize)
        requires
            old(self).wf(),
            win.wf(),
        ensures
            final(self).wf(),
            final(self).enemy_lasers@ == moved_elasers(old(self).enemy_lasers@, *win),
            final(self).enemies@ == old(self).enemies@,
            final(self).active_enemies == old(self).active_enemies,
            final(self).player_lasers@ == old(self).player_lasers@,
            final(self).player == old(self).player,
    {
        let mut kept: Vec<Laser> = Vec::new();
        let n: usize = self.enemy_lasers.len();
        let mut k: usize = 0;
        while k < n
            invariant
                0 <= k <= n,
                n == self.enemy_lasers@.len(),
                self.wf(),
                win.wf(),
                kept@ == moved_elasers(self.enemy_lasers@.take(k as int), *win),
                forall|i: int| 0 <= i < kept@.len() ==> (#[trigger] kept@[i]).wf(),
            decreases n - k,
        {
            let l = self.enemy_lasers[k];
            let step: i64 = ((l.speed as u64) / (crate::TICK_RATE as u64)) as i64;
            let moved = Laser { pos: Vec2 { x: l.pos.x, y: l.pos.y - step }, speed: l.speed, size: l.size };
            proof {
                assert(moved == dropped_laser(self.enemy_lasers@[k as int]));
                assert(self.enemy_lasers@.take(k + 1).drop_last()
                    =~= self.enemy_lasers@.take(k as int));
                assert(self.enemy_lasers@.take(k + 1).last() == self.enemy_lasers@[k as int]);
            }
            if moved.pos.y >= -win.h - 50_000 {
                kept.push(moved);
            }
            k = k + 1;
        }
        proof {
            assert(self.enemy_lasers@.take(n as int) =~= self.enemy_lasers@);
        }
        self.enemy_lasers = kept;
    }
}

/// A projectile's box overlaps the box at `pos` with extent `size`.
pub open spec fn laser_hits(l: Laser, pos: Vec2, size: Vec2) -> bool {
    boxes_overlap(l.pos, l.size, pos, size)
}

/// Some projectile of `lasers` overlaps this enemy this tick.
pub open spec fn enemy_blasted(e: Enemy, lasers: Seq<Laser>) -> bool {
    exists|j: int| 0 <= j < lasers.len() && laser_hits(lasers[j], e.pos, e.size)
}

/// This projectile overlaps some enemy of `enemies` this tick.
pub open spec fn laser_spent(l: Laser, enemies: Seq<Enemy>) -> bool {
    exists|i: int| 0 <= i < enemies.len() && laser_hits(l, enemies[i].pos, enemies[i].size)
}

/// The enemies that survive the player-projectile pass: exactly those
/// that no player projectile overlaps, in their original order.
pub open spec fn surviving_enemies(enemies: Seq<Enemy>, lasers: Seq<Laser>) -> Seq<Enemy>
    decreases enemies.len(),
{
    if enemies.len() == 0 {
        Seq::empty()
    } else {
        let rest = surviving_enemies(enemies.drop_last(), lasers);
        if enemy_blasted(enemies.last(), lasers) {
            rest
        } else {
            rest.push(enemies.last())
        }
    }
}

/// The destruction events of the player-projectile pass: one event per
/// blasted enemy — never two for the same enemy, however many
/// projectiles overlap it — carrying the enemy's last position.
pub open spec fn blast_events(enemies: Seq<Enemy>, lasers: Seq<Laser>) -> Seq<Vec2>
    decreases enemies.len(),
{
    if enemies.len() == 0 {
        Seq::empty()
    } else {
        let rest = blast_events(enemies.drop_last(), lasers);
        if enemy_blasted(enemies.last(), lasers) {
            rest.push(enemies.last().pos)
        } else {
            rest
        }
    }
}

/// The player projectiles that survive the pass: exactly those that
/// overlap no enemy — a projectile is spent even when its enemy was
/// already blasted by another projectile this tick.
pub open spec fn surviving_plasers(lasers: Seq<Laser>, enemies: Seq<Enemy>) -> Seq<Laser>
    decreases lasers.len(),
{
    if lasers.len() == 0 {
        Seq::empty()
    } else {
        let rest = surviving_plasers(lasers.drop_last(), enemies);
        if laser_spent(lasers.last(), enemies) {
            rest
        } else {
            rest.push(lasers.last())
        }
    }
}

/// Every enemy either survives the pass or produces exactly one
/// destruction event: the two outcomes partition the enemies.
pub proof fn lemma_blast_partition(enemies: Seq<Enemy>, lasers: Seq<Laser>)
    ensures
        surviving_enemies(enemies, lasers).len() + blast_events(enemies, lasers).len()
            == enemies.len(),
    decreases enemies.len(),
{
    if enemies.len() > 0 {
        lemma_blast_partition(enemies.drop_last(), lasers);
    }
}

/// Some projectile of `lasers` overlaps the box at `pos` of extent
/// `size`.
fn any_laser_hits(lasers: &Vec<Laser>, pos: Vec2, size: Vec2) -> (b: bool)
    requires
        forall|i: int| 0 <= i < lasers@.len() ==> (#[trigger] lasers@[i]).wf(),
        pos.within(LASER_LIMIT),
        size.size_wf(),
    ensures
        b == exists|j: int| 0 <= j < lasers@.len() && laser_hits(lasers@[j], pos, size),
{
    let n: usize = lasers.len();
    let mut j: usize = 0;
    while j < n
        invariant
            0 <= j <= n,
            n == lasers@.len(),
            forall|i: int| 0 <= i < lasers@.len() ==> (#[trigger] lasers@[i]).wf(),
            pos.within(LASER_LIMIT),
            size.size_wf(),
            forall|i: int| 0 <= i < j ==> !laser_hits(lasers@[i], pos, size),
        decreases n - j,
    {
        let l = lasers[j];
        if collide(l.pos, l.size, pos, size) {
            return true;
        }
        j = j + 1;
    }
    false
}

/// This projectile overlaps some enemy of `enemies`.
fn hits_some_enemy(l: Laser, enemies: &Vec<Enemy>) -> (b: bool)
    requires
        forall|i: int| 0 <= i < enemies@.len() ==> (#[trigger] enemies@[i]).wf(),
        l.wf(),
    ensures
        b == laser_spent(l, enemies@),
{
    let n: usize = enemies.len();
    let mut j: usize = 0;
    while j < n
        invariant
            0 <= j <= n,
            n == enemies@.len(),
            forall|i: int| 0 <= i < enemies@.len() ==> (#[trigger] enemies@[i]).wf(),
            l.wf(),
            forall|i: int| 0 <= i < j ==> !laser_hits(l, enemies@[i].pos, enemies@[i].size),
        decreases n - j,
    {
        let e = enemies[j];
        if collide(l.pos, l.size, e.pos, e.size) {
            return true;
        }
        j = j + 1;
    }
    false
}

impl GameWorld {
    /// The player-projectile collision pass, run every tick over the
    /// start-of-tick snapshot: every enemy that any player projectile
    /// overlaps is destroyed exactly once — the counter drops by exactly
    /// the number of blasted enemies — and every projectile that
    /// overlaps any enemy is destroyed, even when its enemy was already
    /// blasted by another projectile this tick. One destruction event
    /// per blasted enemy carries its last position.
    pub fn player_laser_hit_enemy(&mut self) -> (events: Vec<Vec2>)
        requires
            old(self).wf(),
        ensures
            final(self).wf(),
            final(self).enemies@ == surviving_enemies(old(self).enemies@, old(self).player_lasers@),
            final(self).player_lasers@ == surviving_plasers(
                old(self).player_lasers@,
                old(self).enemies@,
            ),
            events@ == blast_events(old(self).enemies@, old(self).player_lasers@),
            final(self).active_enemies as int == old(self).active_enemies
                - blast_events(old(self).enemies@, old(self).player_lasers@).len(),
            final(self).enemy_lasers@ == old(self).enemy_lasers@,
            final(self).player == old(self).player,
    {
        let mut kept_enemies: Vec<Enemy> = Vec::new();
        let mut events: Vec<Vec2> = Vec::new();
        let n: usize = self.enemies.len();
        let mut k: usize = 0;
        while k < n
            invariant
                0 <= k <= n,
                n == self.enemies@.len(),
                self.wf(),
                kept_enemies@ == surviving_enemies(
                    self.enemies@.take(k as int),
                    self.player_lasers@,
                ),
                events@ == blast_events(self.enemies@.take(k as int), self.player_lasers@),
                forall|i: int|
                    0 <= i < kept_enemies@.len() ==> (#[trigger] kept_enemies@[i]).wf(),
            decreases n - k,
        {
            let e = self.enemies[k];
            proof {
                assert(self.enemies@.take(k + 1).drop_last() =~= self.enemies@.take(k as int));
                assert(self.enemies@.take(k + 1).last() == self.enemies@[k as int]);
            }
            if any_laser_hits(&self.player_lasers, e.pos, e.size) {
                events.push(e.pos);
            } else {
                kept_enemies.push(e);
            }
            k = k + 1;
        }
        proof {
            assert(self.enemies@.take(n as int) =~= self.enemies@);
        }

        let mut kept_lasers: Vec<Laser> = Vec::new();
        let m: usize = self.player_lasers.len();
        let mut j: usize = 0;
        while j < m
            invariant
                0 <= j <= m,
                m == self.player_lasers@.len(),
                self.wf(),
                kept_lasers@ == surviving_plasers(
                    self.player_lasers@.take(j as int),
                    self.enemies@,
                ),
                forall|i: int| 0 <= i < kept_lasers@.len() ==> (#[trigger] kept_lasers@[i]).wf(),
            decreases m - j,
        {
            let l = self.player_lasers[j];
            proof {
                assert(self.player_lasers@.take(j + 1).drop_last()
                    =~= self.player_lasers@.take(j as int));
                assert(self.player_lasers@.take(j + 1).last() == self.player_lasers@[j as int]);
            }
            if !hits_some_enemy(l, &self.enemies) {
                kept_lasers.push(l);
            }
            j = j + 1;
        }
        proof {
            assert(self.player_lasers@.take(m as int) =~= self.player_lasers@);
            lemma_blast_partition(self.enemies@, self.player_lasers@);
        }

        let destroyed: usize = events.len();
        self.active_enemies = self.active_enemies - (destroyed as u32);
        self.enemies = kept_enemies;
        self.player_lasers = kept_lasers;
        events
    }
}

/// Some projectile of `lasers` overlaps the player ship.
pub open spec fn player_struck(lasers: Seq<Laser>, p: PlayerShip) -> bool {
    exists|j: int| 0 <= j < lasers.len() && laser_hits(lasers[j], p.pos, p.size)
}

/// The enemy projectiles that survive the player pass: exactly those
/// that do not overlap the player ship, in order.
pub open spec fn unspent_elasers(lasers: Seq<Laser>, p: PlayerShip) -> Seq<Laser>
    decreases lasers.len(),
{
    if lasers.len() == 0 {
        Seq::empty()
    } else {
        let rest = unspent_elasers(lasers.drop_last(), p);
        if laser_hits(lasers.last(), p.pos, p.size) {
            rest
        } else {
            rest.push(lasers.last())
        }
    }
}

/// The destruction events of the enemy-projectile pass: one per
/// overlapping projectile, each at the player's position.
pub open spec fn player_hit_events(lasers: Seq<Laser>, p: PlayerShip) -> Seq<Vec2>
    decreases lasers.len(),
{
    if lasers.len() == 0 {
        Seq::empty()
    } else {
        let rest = player_hit_events(lasers.drop_last(), p);
        if laser_hits(lasers.last(), p.pos, p.size) {
            rest.push(p.pos)
        } else {
            rest
        }
    }
}

impl GameWorld {
    /// The enemy-projectile collision pass, run every tick: with a
    /// player ship on the field, every enemy projectile overlapping it
    /// is destroyed with a destruction event at the player's position,
    /// and on any such overlap the player is destroyed and the player
    /// state records the shot at `time`. With no player ship the tick
    /// skips this pass entirely.
    pub fn enemy_laser_hit_player(&mut self, player_state: &mut PlayerState, time: i64) -> (events:
        Vec<Vec2>)
        requires
            old(self).wf(),
        ensures
            final(self).wf(),
            old(self).player matches Some(p) ==> {
                &&& final(self).enemy_lasers@ == unspent_elasers(old(self).enemy_lasers@, p)
                &&& events@ == player_hit_events(old(self).enemy_lasers@, p)
                &&& (player_struck(old(self).enemy_lasers@, p) ==> final(self).player is None
                    && *final(player_state) == (PlayerState { on: false, last_shot: time }))
                &&& (!player_struck(old(self).enemy_lasers@, p) ==> final(self).player == old(
                    self,
                ).player && *final(player_state) == *old(player_state))
            },
            old(self).player is None ==> {
                &&& final(self).enemy_lasers@ == old(self).enemy_lasers@
                &&& events@.len() == 0
                &&& final(self).player is None
                &&& *final(player_state) == *old(player_state)
            },
            final(self).enemies@ == old(self).enemies@,
            final(self).active_enemies == old(self).active_enemies,
            final(self).player_lasers@ == old(self).player_lasers@,
    {
        let mut events: Vec<Vec2> = Vec::new();
        match self.player {
            None => events,
            Some(p) => {
                let mut kept: Vec<Laser> = Vec::new();
                let mut hit: bool = false;
                let n: usize = self.enemy_lasers.len();
                let mut j: usize = 0;
                while j < n
                    invariant
                        0 <= j <= n,
                        n == self.enemy_lasers@.len(),
                        self.wf(),
                        self.player == Some(p),
                        kept@ == unspent_elasers(self.enemy_lasers@.take(j as int), p),
                        events@ == player_hit_events(self.enemy_lasers@.take(j as int), p),
                        hit == player_struck(self.enemy_lasers@.take(j as int), p),
                        forall|i: int| 0 <= i < kept@.len() ==> (#[trigger] kept@[i]).wf(),
                    decreases n - j,
                {
                    let l = self.enemy_lasers[j];
                    proof {
                        assert(self.enemy_lasers@.take(j + 1).drop_last()
                            =~= self.enemy_lasers@.take(j as int));
                        assert(self.enemy_lasers@.take(j + 1).last()
                            == self.enemy_lasers@[j as int]);
                        assert(forall|i: int|
                            0 <= i < j + 1 ==> self.enemy_lasers@.take(j + 1)[i]
                                == self.enemy_lasers@[i]);
                    }
                    if collide(l.pos, l.size, p.pos, p.size) {
                        hit = true;
                        events.push(p.pos);
                    } else {
                        kept.push(l);
                    }
                    j = j + 1;
                }
                proof {
                    assert(self.enemy_lasers@.take(n as int) =~= self.enemy_lasers@);
                }
                self.enemy_lasers = kept;
                if hit {
                    self.player = None;
                    player_state.shot(time);
                }
                events
            }
        }
    }
}

/// Law: the enemy counter always equals the number of live enemies; the
/// per-tick systems keep the field well-formed, so this holds before
/// and after every tick.
pub proof fn lemma_enemy_count_matches(w: GameWorld)
    requires
        w.wf(),
    ensures
        w.active_enemies as int == w.enemies@.len(),
{
}

/// Law: the enemy counter never exceeds the cap, and as an unsigned
/// value it can never go negative.
pub proof fn lemma_enemy_count_bounded(w: GameWorld)
    requires
        w.wf(),
    ensures
        0 <= w.active_enemies <= MAX_ENEMIES,
{
}

} // verus!
