use vstd::prelude::*;

use crate::bullets::{
    Basic, Bullet, Kind, Owner, PlayerBullet, PLAYER_BULLET_DAMAGE, PLAYER_BULLET_SPEED,
};
use crate::enemies::Enemy;
use crate::health::{Health, HealthPoints};
use crate::motion::{Dimensions, Object, Position, Rect};
use crate::player::{Action, Player};
use crate::ui::UI;
use crate::units::{Pixels, SUBPIXELS};

verus! {

/// Where the first enemy stands, and its size: at (300, 20), 32 by 44 pixels.
pub const FIRST_ENEMY_X: i64 = 300 * SUBPIXELS;

pub const FIRST_ENEMY_Y: i64 = 20 * SUBPIXELS;

pub const FIRST_ENEMY_WIDTH: i64 = 32 * SUBPIXELS;

pub const FIRST_ENEMY_HEIGHT: i64 = 44 * SUBPIXELS;

pub const FIRST_ENEMY_HEALTH: u32 = 100;

/// Where the first enemy's bullets leave it, relative to its top-left corner:
/// 16 pixels right and 44 down.
pub const FIRST_ENEMY_MUZZLE_X: i64 = 16 * SUBPIXELS;

pub const FIRST_ENEMY_MUZZLE_Y: i64 = 44 * SUBPIXELS;

/// The main game state container.
pub struct State {
    pub(crate) player: Player,
    pub(crate) enemies: Vec<Enemy>,
    pub(crate) bullets: Vec<Bullet>,
    pub(crate) input_queue: Vec<Action>,
    pub(crate) last_tick_time: u64,
    pub(crate) ui: UI,
}

/// The game state as values: the entities, the actions not yet handled, when
/// the last tick ran, and the playfield.
pub struct StateView {
    pub player: Player,
    pub enemies: Seq<Enemy>,
    pub bullets: Seq<Bullet>,
    pub queue: Seq<Action>,
    pub last_tick: int,
    pub ui: UI,
}

impl View for State {
    type V = StateView;

    open(crate) spec fn view(&self) -> StateView {
        StateView {
            player: self.player,
            enemies: self.enemies@,
            bullets: self.bullets@,
            queue: self.input_queue@,
            last_tick: self.last_tick_time as int,
            ui: self.ui,
        }
    }
}

/// The player and the bullets after `actions` are handled in order: a shot
/// adds a player's bullet where the player stands; any other action steers
/// and moves the player for `elapsed` milliseconds.
pub open(crate) spec fn drained(
    p: Player,
    bs: Seq<Bullet>,
    actions: Seq<Action>,
    elapsed: int,
) -> (Player, Seq<Bullet>)
    decreases actions.len(),
{
    if actions.len() == 0 {
        (p, bs)
    } else {
        let (p1, b1) = drained(p, bs, actions.drop_last(), elapsed);
        match actions.last() {
            Action::Shoot => (p1, b1.push(Bullet::Player(PlayerBullet { position: p1.position }))),
            a => (p1.repositioned(a, elapsed), b1),
        }
    }
}

/// `v` pulled into `[0, max]`; where `max` is negative, values above it become `max`.
pub open spec fn clamp_coord(v: int, max: int) -> int {
    if v < 0 {
        0
    } else if v > max {
        max
    } else {
        v
    }
}

/// Whether bullet `b`, fired by `owner`, hits the rectangle `target`.
pub open spec fn strikes(b: Bullet, owner: Owner, target: Rect) -> bool {
    b.spec_owner() == owner && b.spec_hitbox().spec_overlaps(target)
}

/// The indices, in increasing order, of the bullets of `bs` fired by `owner`
/// that hit `target`.
pub open spec fn struck(bs: Seq<Bullet>, owner: Owner, target: Rect) -> Seq<usize>
    decreases bs.len(),
{
    if bs.len() == 0 {
        Seq::empty()
    } else {
        let prior = struck(bs.drop_last(), owner, target);
        if strikes(bs.last(), owner, target) {
            prior.push((bs.len() - 1) as usize)
        } else {
            prior
        }
    }
}

/// The damage that the bullets of `bs` fired by `owner` deal to `target`, all together.
pub open spec fn damage_sum(bs: Seq<Bullet>, owner: Owner, target: Rect) -> nat
    decreases bs.len(),
{
    if bs.len() == 0 {
        0
    } else {
        damage_sum(bs.drop_last(), owner, target) + if strikes(bs.last(), owner, target) {
            bs.last().spec_damage()
        } else {
            0
        }
    }
}

/// Whether bullet `b`, if the player fired it, hits any of the enemies `es`.
pub open spec fn hits_any(b: Bullet, es: Seq<Enemy>) -> bool
    decreases es.len(),
{
    es.len() > 0 && (hits_any(b, es.drop_last()) || strikes(
        b,
        Owner::Player,
        es.last().spec_hitbox(),
    ))
}

/// `e` after every player's bullet of `bs` that hits it has dealt its damage.
pub open(crate) spec fn battered(e: Enemy, bs: Seq<Bullet>) -> Enemy {
    e.with_health(e.spec_hp().drained_by(damage_sum(bs, Owner::Player, e.spec_hitbox())))
}

/// Whether `spent` lists, once each, exactly the indices of the player's
/// bullets of `bs` that hit one or more of the enemies `es`.
pub open spec fn spent_by_enemies(spent: Seq<usize>, bs: Seq<Bullet>, es: Seq<Enemy>) -> bool {
    &&& spent.no_duplicates()
    &&& forall|j: int|
        0 <= j < bs.len() ==> (spent.contains(j as usize) <==> hits_any(#[trigger] bs[j], es))
    &&& forall|p: int| 0 <= p < spent.len() ==> #[trigger] spent[p] < bs.len()
}

/// The enemies of `es` that still have hit points, in order.
pub open(crate) spec fn survivors(es: Seq<Enemy>) -> Seq<Enemy>
    decreases es.len(),
{
    if es.len() == 0 {
        Seq::empty()
    } else {
        let prior = survivors(es.drop_last());
        if es.last().spec_hp().spec_current() == 0 {
            prior
        } else {
            prior.push(es.last())
        }
    }
}

/// The bullets of `bs` whose indices `spent` does not list, in order.
pub open spec fn unspent(bs: Seq<Bullet>, spent: Seq<usize>) -> Seq<Bullet>
    decreases bs.len(),
{
    if bs.len() == 0 {
        Seq::empty()
    } else {
        let prior = unspent(bs.drop_last(), spent);
        if spent.contains((bs.len() - 1) as usize) {
            prior
        } else {
            prior.push(bs.last())
        }
    }
}

/// The bullets of `bs` that hit none of the enemies `es`, in order.
pub open spec fn untouched(bs: Seq<Bullet>, es: Seq<Enemy>) -> Seq<Bullet>
    decreases bs.len(),
{
    if bs.len() == 0 {
        Seq::empty()
    } else {
        let prior = untouched(bs.drop_last(), es);
        if hits_any(bs.last(), es) {
            prior
        } else {
            prior.push(bs.last())
        }
    }
}

/// The bullets of `bs` that overlap the playfield `field`, in order.
pub open spec fn in_bounds(bs: Seq<Bullet>, field: Rect) -> Seq<Bullet>
    decreases bs.len(),
{
    if bs.len() == 0 {
        Seq::empty()
    } else {
        let prior = in_bounds(bs.drop_last(), field);
        if bs.last().spec_hitbox().spec_overlaps(field) {
            prior.push(bs.last())
        } else {
            prior
        }
    }
}

/// The bullets that the enemies `es`, asked in order, fire at time `now`.
pub open(crate) spec fn volley(es: Seq<Enemy>, now: int) -> Seq<Bullet>
    decreases es.len(),
{
    if es.len() == 0 {
        Seq::empty()
    } else {
        let prior = volley(es.drop_last(), now);
        match es.last().fire_outcome(now).1 {
            Some(b) => prior.push(b),
            None => prior,
        }
    }
}

/// The milliseconds that a tick at `now` covers after one at `last`: none if
/// the clock went back, and at most `u32::MAX`.
pub open spec fn tick_length(last: int, now: int) -> int {
    if now <= last {
        0
    } else if now - last > u32::MAX {
        u32::MAX as int
    } else {
        now - last
    }
}

impl StateView {
    /// After the enemies' bullets that hit the player have dealt their damage.
    pub open(crate) spec fn after_player_hits(self) -> StateView {
        StateView {
            player: self.player.with_health(
                self.player.spec_hp().drained_by(
                    damage_sum(self.bullets, Owner::Enemy, self.player.spec_hitbox()),
                ),
            ),
            ..self
        }
    }

    /// After the player's bullets have dealt their damage to the enemies they hit.
    pub open(crate) spec fn after_enemy_hits(self) -> StateView {
        StateView {
            enemies: Seq::new(self.enemies.len(), |k: int| battered(self.enemies[k], self.bullets)),
            ..self
        }
    }

    /// After the enemies without hit points are removed.
    pub open(crate) spec fn after_defeats(self) -> StateView {
        StateView { enemies: survivors(self.enemies), ..self }
    }

    /// After every enemy is asked to fire at time `now`, in order, and what
    /// they fired joins the bullets.
    pub open(crate) spec fn after_firing(self, now: int) -> StateView {
        StateView {
            enemies: Seq::new(self.enemies.len(), |k: int| self.enemies[k].fire_outcome(now).0),
            bullets: self.bullets + volley(self.enemies, now),
            ..self
        }
    }

    /// After every bullet has flown for `elapsed` milliseconds.
    pub open(crate) spec fn after_flight(self, elapsed: int) -> StateView {
        StateView {
            bullets: Seq::new(self.bullets.len(), |i: int| self.bullets[i].moved(elapsed)),
            ..self
        }
    }

    /// After the bullets that left the playfield are removed.
    pub open(crate) spec fn after_culling(self) -> StateView {
        StateView { bullets: in_bounds(self.bullets, self.ui.spec_hitbox()), ..self }
    }

    /// The state after one tick at time `now`: the queued actions are handled,
    /// the player is pulled back inside the playfield, the enemies' bullets
    /// that hit the player deal their damage and go, the player's bullets deal
    /// their damage to the enemies they hit, defeated enemies go, the others
    /// fire, the player's bullets that hit go, every bullet flies on, those
    /// that left the playfield go, and `now` is recorded.
    pub open(crate) spec fn ticked(self, now: int) -> StateView {
        let elapsed = tick_length(self.last_tick, now);
        let cleared = self.at_collision(now);
        let fired = cleared.after_enemy_hits().after_defeats().after_firing(now);
        let kept = StateView {
            bullets: untouched(cleared.bullets, cleared.enemies) + volley(
                cleared.after_enemy_hits().after_defeats().enemies,
                now,
            ),
            ..fired
        };
        StateView { last_tick: now, ..kept.after_flight(elapsed).after_culling() }
    }

    /// The state that a tick at `now` scans for the player's hits on enemies:
    /// the queued actions are handled, the player is pulled back inside the
    /// playfield, and the enemies' bullets that hit the player have dealt
    /// their damage and gone.
    pub open(crate) spec fn at_collision(self, now: int) -> StateView {
        let elapsed = tick_length(self.last_tick, now);
        let shot = self.after_input(elapsed).after_clamp().after_player_hits();
        StateView {
            bullets: unspent(
                shot.bullets,
                struck(shot.bullets, Owner::Enemy, shot.player.spec_hitbox()),
            ),
            ..shot
        }
    }

    /// After the queued actions are handled.
    pub open(crate) spec fn after_input(self, elapsed: int) -> StateView {
        let (p, bs) = drained(self.player, self.bullets, self.queue, elapsed);
        StateView { player: p, bullets: bs, queue: Seq::empty(), ..self }
    }

    /// The farthest the player's left edge may stand from the playfield's.
    pub open(crate) spec fn max_x(self) -> int {
        self.ui.width * SUBPIXELS - self.player.dimensions.width.0
    }

    /// The farthest the player's top edge may stand from the playfield's.
    pub open(crate) spec fn max_y(self) -> int {
        self.ui.height * SUBPIXELS - self.player.dimensions.height.0
    }

    /// After the player is pulled back inside the playfield.
    pub open(crate) spec fn after_clamp(self) -> StateView {
        StateView {
            player: self.player.placed(
                Position {
                    x: Pixels(clamp_coord(self.player.position.x.0 as int, self.max_x()) as i64),
                    y: Pixels(clamp_coord(self.player.position.y.0 as int, self.max_y()) as i64),
                },
            ),
            ..self
        }
    }

    /// Whether the player stands wholly inside the playfield.
    pub open(crate) spec fn player_inside(self) -> bool {
        &&& 0 <= self.player.position.x.0 <= self.max_x()
        &&& 0 <= self.player.position.y.0 <= self.max_y()
    }

    /// Whether the playfield is at least as large as the player.
    pub open(crate) spec fn player_fits(self) -> bool {
        self.max_x() >= 0 && self.max_y() >= 0
    }
}

impl State {
    /// A new game on the playfield `ui`, started at time `now`: the player,
    /// one enemy, no bullets and no actions.
    pub fn new(ui: UI, now: u64) -> (r: Self)
        ensures
            r@.player == Player::initial(ui),
            r@.enemies.len() == 1,
            r@.enemies[0].spec_hitbox() == (Rect {
                x: FIRST_ENEMY_X,
                y: FIRST_ENEMY_Y,
                w: FIRST_ENEMY_WIDTH,
                h: FIRST_ENEMY_HEIGHT,
            }),
            r@.enemies[0].spec_hp().spec_current() == FIRST_ENEMY_HEALTH,
            r@.enemies[0].spec_hp().spec_maximum() == FIRST_ENEMY_HEALTH,
            r@.enemies[0].spec_rotation() == seq![
                Bullet::EnemyBasic(
                    Basic {
                        position: Position {
                            x: Pixels(FIRST_ENEMY_MUZZLE_X),
                            y: Pixels(FIRST_ENEMY_MUZZLE_Y),
                        },
                    },
                ),
            ],
            r@.enemies[0].spec_cursor() == 0,
            r@.enemies[0].spec_last_fired() == now,
            r@.bullets == Seq::<Bullet>::empty(),
            r@.queue == Seq::<Action>::empty(),
            r@.last_tick == now,
            r@.ui == ui,
    {
        let first_enemy = Enemy::new(
            Position::new(Pixels(FIRST_ENEMY_X), Pixels(FIRST_ENEMY_Y)),
            Dimensions::new(Pixels(FIRST_ENEMY_WIDTH), Pixels(FIRST_ENEMY_HEIGHT)),
            HealthPoints::new(FIRST_ENEMY_HEALTH),
            vec![
                Bullet::new(
                    Owner::Enemy,
                    Kind::Basic,
                    Position::new(Pixels(FIRST_ENEMY_MUZZLE_X), Pixels(FIRST_ENEMY_MUZZLE_Y)),
                ),
            ],
            now,
        );
        let r = State {
            player: Player::new(&ui),
            enemies: vec![first_enemy],
            bullets: Vec::new(),
            input_queue: Vec::new(),
            last_tick_time: now,
            ui: ui,
        };
        proof {
            assert(r@.bullets =~= Seq::<Bullet>::empty());
            assert(r@.queue =~= Seq::<Action>::empty());
        }
        r
    }

    pub fn add_enemy(&mut self, enemy: Enemy)
        ensures
            final(self)@ == (StateView { enemies: old(self)@.enemies.push(enemy), ..old(self)@ }),
    {
        self.enemies.push(enemy);
    }

    /// Puts a bullet in flight.
    pub fn add_bullet(&mut self, bullet: Bullet)
        ensures
            final(self)@ == (StateView { bullets: old(self)@.bullets.push(bullet), ..old(self)@ }),
    {
        self.bullets.push(bullet);
    }

    /// Queues an action for the next tick.
    pub fn push_action(&mut self, action: Action)
        ensures
            final(self)@ == (StateView { queue: old(self)@.queue.push(action), ..old(self)@ }),
    {
        self.input_queue.push(action);
    }

    /// Handles the queued actions in order of arrival, then empties the queue.
    pub fn process_input_queue(&mut self, time_since_last_tick: u32)
        ensures
            final(self)@ == old(self)@.after_input(time_since_last_tick as int),
    {
        let ghost start = self@;
        let n = self.input_queue.len();
        let mut i: usize = 0;
        while i < n
            invariant
                n == self.input_queue@.len(),
                0 <= i <= n,
                self.input_queue@ == start.queue,
                self.enemies@ == start.enemies,
                self.last_tick_time == start.last_tick,
                self.ui == start.ui,
                (self.player, self.bullets@) == drained(
                    start.player,
                    start.bullets,
                    start.queue.subrange(0, i as int),
                    time_since_last_tick as int,
                ),
            decreases n - i,
        {
            let input = self.input_queue[i];
            proof {
                assert(start.queue.subrange(0, i + 1).drop_last() =~= start.queue.subrange(
                    0,
                    i as int,
                ));
            }
            match input {
                Action::Shoot => {
                    let bullet = Bullet::new(Owner::Player, Kind::Basic, self.player.position);
                    self.bullets.push(bullet);
                },
                _ => self.player.reposition(input, time_since_last_tick),
            }
            i = i + 1;
        }
        proof {
            assert(start.queue.subrange(0, n as int) =~= start.queue);
        }
        self.input_queue = Vec::new();
        proof {
            assert(self.input_queue@ =~= Seq::<Action>::empty());
        }
    }

    /// Pulls the player back inside the playfield: each coordinate is clamped
    /// between zero and the playfield's size less the player's.
    pub fn position_player_in_game_space(&mut self)
        ensures
            final(self)@ == old(self)@.after_clamp(),
            old(self)@.player_fits() ==> final(self)@.player_inside(),
    {
        let max_x: i128 = self.ui.width as i128 * SUBPIXELS as i128
            - self.player.dimensions.width.value() as i128;
        let max_y: i128 = self.ui.height as i128 * SUBPIXELS as i128
            - self.player.dimensions.height.value() as i128;
        let x = self.player.position.x.value();
        let y = self.player.position.y.value();
        let new_x: i64 = if x < 0 {
            0
        } else if x as i128 > max_x {
            max_x as i64
        } else {
            x
        };
        let new_y: i64 = if y < 0 {
            0
        } else if y as i128 > max_y {
            max_y as i64
        } else {
            y
        };
        self.player.position = Position::new(Pixels(new_x), Pixels(new_y));
    }

    /// Deals the damage of every enemy's bullet that hits the player, and
    /// returns the indices of those bullets in increasing order.
    pub fn connect_bullets_with_player(&mut self) -> (r: Vec<usize>)
        ensures
            final(self)@ == old(self)@.after_player_hits(),
            r@ == struck(old(self)@.bullets, Owner::Enemy, old(self)@.player.spec_hitbox()),
    {
        let ghost start = self@;
        let hitbox = self.player.hitbox_rect();
        let mut spent_bullet_indices: Vec<usize> = Vec::new();
        let n = self.bullets.len();
        let mut bullet_index: usize = 0;
        while bullet_index < n
            invariant
                n == self.bullets@.len(),
                0 <= bullet_index <= n,
                hitbox == start.player.spec_hitbox(),
                self@ == (StateView {
                    player: start.player.with_health(
                        start.player.spec_hp().drained_by(
                            damage_sum(
                                start.bullets.subrange(0, bullet_index as int),
                                Owner::Enemy,
                                hitbox,
                            ),
                        ),
                    ),
                    ..start
                }),
                spent_bullet_indices@ == struck(
                    start.bullets.subrange(0, bullet_index as int),
                    Owner::Enemy,
                    hitbox,
                ),
            decreases n - bullet_index,
        {
            proof {
                assert(start.bullets.subrange(0, bullet_index + 1).drop_last() =~= start.bullets.subrange(
                    0,
                    bullet_index as int,
                ));
            }
            let bullet = self.bullets[bullet_index];
            if bullet.owner() == Owner::Enemy && bullet.hitbox_rect().overlaps(&hitbox) {
                self.player.take_damage(bullet.damage());
                spent_bullet_indices.push(bullet_index);
            }
            bullet_index = bullet_index + 1;
        }
        proof {
            assert(start.bullets.subrange(0, n as int) =~= start.bullets);
        }
        spent_bullet_indices
    }
    /// Deals the damage of every player's bullet to each enemy it hits, and
    /// returns the indices of the bullets that hit one or more enemies, each
    /// index once.
    pub fn connect_bullets_with_enemies(&mut self) -> (r: Vec<usize>)
        ensures
            final(self)@ == old(self)@.after_enemy_hits(),
            spent_by_enemies(r@, old(self)@.bullets, old(self)@.enemies),
    {
        let ghost start = self@;
        let mut spent_bullet_indices: Vec<usize> = Vec::new();
        let n = self.bullets.len();
        let m = self.enemies.len();
        let mut enemy_index: usize = 0;
        while enemy_index < m
            invariant
                n == start.bullets.len(),
                m == start.enemies.len(),
                0 <= enemy_index <= m,
                self@ == (StateView { enemies: self@.enemies, ..start }),
                self.enemies@.len() == m,
                forall|q: int|
                    0 <= q < enemy_index ==> #[trigger] self.enemies@[q] == battered(
                        start.enemies[q],
                        start.bullets,
                    ),
                forall|q: int| enemy_index <= q < m ==> #[trigger] self.enemies@[q] == start.enemies[q],
                spent_bullet_indices@.no_duplicates(),
                forall|j: int|
                    0 <= j < n ==> (spent_bullet_indices@.contains(j as usize) <==> hits_any(
                        #[trigger] start.bullets[j],
                        start.enemies.subrange(0, enemy_index as int),
                    )),
                forall|p: int|
                    0 <= p < spent_bullet_indices@.len() ==> #[trigger] spent_bullet_indices@[p] < n,
            decreases m - enemy_index,
        {
            let hitbox = self.enemies[enemy_index].hitbox_rect();
            let ghost target = start.enemies[enemy_index as int];
            let mut bullet_index: usize = 0;
            while bullet_index < n
                invariant
                    n == start.bullets.len(),
                    m == start.enemies.len(),
                    0 <= enemy_index < m,
                    0 <= bullet_index <= n,
                    target == start.enemies[enemy_index as int],
                    hitbox == target.spec_hitbox(),
                    self@ == (StateView { enemies: self@.enemies, ..start }),
                    self.enemies@.len() == m,
                    forall|q: int|
                        0 <= q < enemy_index ==> #[trigger] self.enemies@[q] == battered(
                            start.enemies[q],
                            start.bullets,
                        ),
                    forall|q: int|
                        enemy_index < q < m ==> #[trigger] self.enemies@[q] == start.enemies[q],
                    self.enemies@[enemy_index as int] == target.with_health(
                        target.spec_hp().drained_by(
                            damage_sum(
                                start.bullets.subrange(0, bullet_index as int),
                                Owner::Player,
                                hitbox,
                            ),
                        ),
                    ),
                    spent_bullet_indices@.no_duplicates(),
                    forall|j: int|
                        0 <= j < n ==> (spent_bullet_indices@.contains(j as usize) <==> (hits_any(
                            #[trigger] start.bullets[j],
                            start.enemies.subrange(0, enemy_index as int),
                        ) || (j < bullet_index && strikes(start.bullets[j], Owner::Player, hitbox)))),
                    forall|p: int|
                        0 <= p < spent_bullet_indices@.len() ==> #[trigger] spent_bullet_indices@[p]
                            < n,
                decreases n - bullet_index,
            {
                proof {
                    assert(start.bullets.subrange(0, bullet_index + 1).drop_last()
                        =~= start.bullets.subrange(0, bullet_index as int));
                }
                let bullet = self.bullets[bullet_index];
                if bullet.owner() == Owner::Player && bullet.hitbox_rect().overlaps(&hitbox) {
                    self.enemies[enemy_index].take_damage(bullet.damage());
                    if !contains_index(&spent_bullet_indices, bullet_index) {
                        let ghost before = spent_bullet_indices@;
                        spent_bullet_indices.push(bullet_index);
                        proof {
                            assert forall|j: int| 0 <= j < n implies (#[trigger] spent_bullet_indices@.contains(
                                j as usize,
                            ) <==> before.contains(j as usize) || j == bullet_index) by {
                                if j == bullet_index {
                                    assert(spent_bullet_indices@[before.len() as int] == j as usize);
                                }
                                if before.contains(j as usize) {
                                    let p = choose|p: int|
                                        0 <= p < before.len() && before[p] == j as usize;
                                    assert(spent_bullet_indices@[p] == j as usize);
                                }
                                if spent_bullet_indices@.contains(j as usize) && j != bullet_index {
                                    let p = choose|p: int|
                                        0 <= p < spent_bullet_indices@.len()
                                            && spent_bullet_indices@[p] == j as usize;
                                    assert(p < before.len());
                                    assert(before[p] == j as usize);
                                }
                            }
                        }
                    }
                }
                bullet_index = bullet_index + 1;
            }
            proof {
                assert(start.bullets.subrange(0, n as int) =~= start.bullets);
                assert(start.enemies.subrange(0, enemy_index + 1).drop_last()
                    =~= start.enemies.subrange(0, enemy_index as int));
                assert(start.enemies.subrange(0, enemy_index + 1).last() == target);
            }
            enemy_index = enemy_index + 1;
        }
        proof {
            assert(start.enemies.subrange(0, m as int) =~= start.enemies);
            assert(self.enemies@ =~= start.after_enemy_hits().enemies);
        }
        spent_bullet_indices
    }
    /// Removes the enemies whose hit points are spent, keeping the order of the rest.
    pub fn cleanup_defeated_enemies(&mut self)
        ensures
            final(self)@ == old(self)@.after_defeats(),
    {
        let ghost start = self@;
        let ghost all = start.enemies;
        let total = self.enemies.len();
        let mut checked: usize = 0;
        let mut kept: usize = 0;
        while checked < total
            invariant
                total == all.len(),
                0 <= checked <= total,
                self@ == (StateView { enemies: self@.enemies, ..start }),
                kept == survivors(all.subrange(0, checked as int)).len(),
                kept <= checked,
                self.enemies@ == survivors(all.subrange(0, checked as int)) + all.subrange(
                    checked as int,
                    total as int,
                ),
            decreases total - checked,
        {
            proof {
                assert(all.subrange(0, checked + 1).drop_last() =~= all.subrange(0, checked as int));
                assert(self.enemies@[kept as int] == all[checked as int]);
                lemma_survivors_len(all.subrange(0, checked + 1));
            }
            let ghost prior = survivors(all.subrange(0, checked as int));
            if self.enemies[kept].health().empty() {
                self.enemies.remove(kept);
                proof {
                    assert(self.enemies@ =~= prior + all.subrange(checked + 1, total as int));
                }
            } else {
                proof {
                    assert(self.enemies@ =~= prior.push(all[checked as int]) + all.subrange(
                        checked + 1,
                        total as int,
                    ));
                }
                kept = kept + 1;
            }
            checked = checked + 1;
        }
        proof {
            assert(all.subrange(0, total as int) =~= all);
            assert(self.enemies@ =~= survivors(all));
        }
    }

    /// Asks every enemy, in order, to fire at time `now`, and puts what they
    /// fire in flight.
    pub fn trigger_enemy_behaviours(&mut self, now: u64)
        ensures
            final(self)@ == old(self)@.after_firing(now as int),
    {
        let ghost start = self@;
        let m = self.enemies.len();
        let mut k: usize = 0;
        while k < m
            invariant
                m == start.enemies.len(),
                0 <= k <= m,
                self@ == (StateView { enemies: self@.enemies, bullets: self@.bullets, ..start }),
                self.enemies@.len() == m,
                forall|q: int|
                    0 <= q < k ==> #[trigger] self.enemies@[q] == start.enemies[q].fire_outcome(
                        now as int,
                    ).0,
                forall|q: int| k <= q < m ==> #[trigger] self.enemies@[q] == start.enemies[q],
                self.bullets@ == start.bullets + volley(start.enemies.subrange(0, k as int), now as int),
            decreases m - k,
        {
            proof {
                assert(start.enemies.subrange(0, k + 1).drop_last() =~= start.enemies.subrange(
                    0,
                    k as int,
                ));
            }
            let fired = self.enemies[k].fire_bullet(now);
            if let Some(bullet) = fired {
                self.bullets.push(bullet);
                proof {
                    assert(self.bullets@ =~= start.bullets + volley(
                        start.enemies.subrange(0, k + 1),
                        now as int,
                    ));
                }
            } else {
                proof {
                    assert(self.bullets@ =~= start.bullets + volley(
                        start.enemies.subrange(0, k + 1),
                        now as int,
                    ));
                }
            }
            k = k + 1;
        }
        proof {
            assert(start.enemies.subrange(0, m as int) =~= start.enemies);
            assert(self.enemies@ =~= start.after_firing(now as int).enemies);
        }
    }

    /// Moves every bullet for `elapsed` milliseconds at its own speed.
    pub fn update_bullets(&mut self, time_since_last_tick: u32)
        ensures
            final(self)@ == old(self)@.after_flight(time_since_last_tick as int),
    {
        let ghost start = self@;
        let n = self.bullets.len();
        let mut i: usize = 0;
        while i < n
            invariant
                n == start.bullets.len(),
                0 <= i <= n,
                self@ == (StateView { bullets: self@.bullets, ..start }),
                self.bullets@.len() == n,
                forall|q: int|
                    0 <= q < i ==> #[trigger] self.bullets@[q] == start.bullets[q].moved(
                        time_since_last_tick as int,
                    ),
                forall|q: int| i <= q < n ==> #[trigger] self.bullets@[q] == start.bullets[q],
            decreases n - i,
        {
            self.bullets[i].reposition(time_since_last_tick);
            i = i + 1;
        }
        proof {
            assert(self.bullets@ =~= start.after_flight(time_since_last_tick as int).bullets);
        }
    }

    /// Removes the bullets at the listed indices, keeping the order of the rest.
    pub fn cleanup_spent_bullets(&mut self, indices: Vec<usize>)
        ensures
            final(self)@ == (StateView {
                bullets: unspent(old(self)@.bullets, indices@),
                ..old(self)@
            }),
    {
        let mut remaining_bullets: Vec<Bullet> = Vec::new();
        let n = self.bullets.len();
        let mut index: usize = 0;
        while index < n
            invariant
                n == self.bullets@.len(),
                0 <= index <= n,
                remaining_bullets@ == unspent(self.bullets@.subrange(0, index as int), indices@),
            decreases n - index,
        {
            proof {
                assert(self.bullets@.subrange(0, index + 1).drop_last() =~= self.bullets@.subrange(
                    0,
                    index as int,
                ));
            }
            if !contains_index(&indices, index) {
                remaining_bullets.push(self.bullets[index]);
            }
            index = index + 1;
        }
        proof {
            assert(self.bullets@.subrange(0, n as int) =~= self.bullets@);
        }
        self.bullets = remaining_bullets;
    }

    /// Removes the bullets that no longer overlap the playfield, keeping the
    /// order of the rest.
    pub fn cleanup_out_of_bounds_bullets(&mut self)
        ensures
            final(self)@ == old(self)@.after_culling(),
            forall|i: int|
                0 <= i < final(self)@.bullets.len() ==> (#[trigger] final(self)@.bullets[i]).spec_hitbox().spec_overlaps(
                    old(self)@.ui.spec_hitbox(),
                ),
    {
        let ui_rect = self.ui.hitbox_rect();
        let mut remaining_bullets: Vec<Bullet> = Vec::new();
        let n = self.bullets.len();
        let mut index: usize = 0;
        while index < n
            invariant
                n == self.bullets@.len(),
                0 <= index <= n,
                ui_rect == self.ui.spec_hitbox(),
                remaining_bullets@ == in_bounds(self.bullets@.subrange(0, index as int), ui_rect),
            decreases n - index,
        {
            proof {
                assert(self.bullets@.subrange(0, index + 1).drop_last() =~= self.bullets@.subrange(
                    0,
                    index as int,
                ));
            }
            let bullet = self.bullets[index];
            if bullet.hitbox_rect().overlaps(&ui_rect) {
                remaining_bullets.push(bullet);
            }
            index = index + 1;
        }
        proof {
            assert(self.bullets@.subrange(0, n as int) =~= self.bullets@);
            lemma_in_bounds_overlap(self.bullets@, ui_rect);
        }
        self.bullets = remaining_bullets;
    }
    /// Runs one tick at time `now`, each stage in its fixed order: collisions
    /// are judged at the positions of the end of the previous tick, and the
    /// bullets move only after them.
    pub fn update(&mut self, now: u64)
        ensures
            final(self)@ == old(self)@.ticked(now as int),
            final(self)@.player_fits() ==> final(self)@.player_inside(),
            forall|i: int|
                0 <= i < final(self)@.bullets.len() ==> (#[trigger] final(self)@.bullets[i]).spec_hitbox().spec_overlaps(
                    final(self)@.ui.spec_hitbox(),
                ),
            forall|k: int|
                0 <= k < final(self)@.enemies.len() ==> (#[trigger] final(self)@.enemies[k]).spec_hp().spec_current()
                    > 0,
    {
        let time_since_last_tick: u32 = if now <= self.last_tick_time {
            0
        } else if now - self.last_tick_time > u32::MAX as u64 {
            u32::MAX
        } else {
            (now - self.last_tick_time) as u32
        };
        self.process_input_queue(time_since_last_tick);
        self.position_player_in_game_space();
        let spent_bullet_indices = self.connect_bullets_with_player();
        self.cleanup_spent_bullets(spent_bullet_indices);
        let ghost cleared = self@;
        let spent_bullet_indices = self.connect_bullets_with_enemies();
        self.cleanup_defeated_enemies();
        let ghost standing = self@.enemies;
        proof {
            lemma_survivors_alive(cleared.after_enemy_hits().enemies);
        }
        self.trigger_enemy_behaviours(now);
        proof {
            assert forall|k: int| 0 <= k < self@.enemies.len() implies (
            #[trigger] self@.enemies[k]).spec_hp().spec_current() > 0 by {
                assert(self@.enemies[k] == standing[k].fire_outcome(now as int).0);
                assert(standing[k].spec_hp().spec_current() > 0);
            }
            assert(self.bullets.len() == self.bullets@.len());
        }
        self.cleanup_spent_bullets(spent_bullet_indices);
        proof {
            lemma_unspent_after_volley(
                cleared.bullets,
                volley(standing, now as int),
                spent_bullet_indices@,
                cleared.enemies,
            );
        }
        self.update_bullets(time_since_last_tick);
        self.cleanup_out_of_bounds_bullets();
        self.last_tick_time = now;
    }
    pub fn player(&self) -> (r: &Player)
        ensures
            *r == self@.player,
    {
        &self.player
    }

    pub fn enemies(&self) -> (r: &Vec<Enemy>)
        ensures
            r@ == self@.enemies,
    {
        &self.enemies
    }

    pub fn bullets(&self) -> (r: &Vec<Bullet>)
        ensures
            r@ == self@.bullets,
    {
        &self.bullets
    }

    pub fn ui(&self) -> (r: UI)
        ensures
            r == self@.ui,
    {
        self.ui
    }

    /// When the last tick ran, in milliseconds.
    pub fn last_tick_time(&self) -> (r: u64)
        ensures
            r == self@.last_tick,
    {
        self.last_tick_time
    }
}

/// A bullet counts in the damage dealt to a target once: the sum over `bs` is
/// the sum without the bullet at `j`, plus its damage if it hits.
pub proof fn lemma_damage_counts_once(bs: Seq<Bullet>, owner: Owner, target: Rect, j: int)
    requires
        0 <= j < bs.len(),
    ensures
        damage_sum(bs, owner, target) == damage_sum(bs.remove(j), owner, target) + if strikes(
            bs[j],
            owner,
            target,
        ) {
            bs[j].spec_damage()
        } else {
            0
        },
    decreases bs.len(),
{
    if j == bs.len() - 1 {
        assert(bs.remove(j) =~= bs.drop_last());
    } else {
        lemma_damage_counts_once(bs.drop_last(), owner, target, j);
        assert(bs.remove(j).drop_last() =~= bs.drop_last().remove(j));
        assert(bs.remove(j).last() == bs.last());
    }
}

/// A player's bullet that hits the enemy at `k` hits one of the enemies `es`.
proof fn lemma_hits_any(b: Bullet, es: Seq<Enemy>, k: int)
    requires
        0 <= k < es.len(),
        strikes(b, Owner::Player, es[k].spec_hitbox()),
    ensures
        hits_any(b, es),
    decreases es.len(),
{
    if k < es.len() - 1 {
        lemma_hits_any(b, es.drop_last(), k);
    }
}

/// A player's bullet that overlaps two enemies in one scan damages each of
/// them once, is listed among the spent bullets exactly once, and removing the
/// spent bullets removes exactly the bullets that hit, each once.
pub proof fn lemma_shared_hit(
    bs: Seq<Bullet>,
    es: Seq<Enemy>,
    spent: Seq<usize>,
    j: int,
    first: int,
    second: int,
)
    requires
        bs.len() <= usize::MAX,
        0 <= j < bs.len(),
        0 <= first < es.len(),
        0 <= second < es.len(),
        first != second,
        strikes(bs[j], Owner::Player, es[first].spec_hitbox()),
        strikes(bs[j], Owner::Player, es[second].spec_hitbox()),
        spent_by_enemies(spent, bs, es),
    ensures
        damage_sum(bs, Owner::Player, es[first].spec_hitbox()) == damage_sum(
            bs.remove(j),
            Owner::Player,
            es[first].spec_hitbox(),
        ) + bs[j].spec_damage(),
        damage_sum(bs, Owner::Player, es[second].spec_hitbox()) == damage_sum(
            bs.remove(j),
            Owner::Player,
            es[second].spec_hitbox(),
        ) + bs[j].spec_damage(),
        exists|p: int|
            0 <= p < spent.len() && spent[p] == j && forall|q: int|
                0 <= q < spent.len() && #[trigger] spent[q] == j ==> q == p,
        unspent(bs, spent) == untouched(bs, es),
{
    lemma_damage_counts_once(bs, Owner::Player, es[first].spec_hitbox(), j);
    lemma_damage_counts_once(bs, Owner::Player, es[second].spec_hitbox(), j);
    lemma_hits_any(bs[j], es, first);
    assert(spent.contains(j as usize));
    let p = choose|p: int| 0 <= p < spent.len() && spent[p] == j as usize;
    assert(spent[p] == j);
    lemma_unspent_prefix(bs, spent, es, bs.len() as int);
    assert(bs.subrange(0, bs.len() as int) =~= bs);
}

/// Bullets that hit no enemy all stay.
proof fn lemma_untouched_all(bs: Seq<Bullet>, es: Seq<Enemy>)
    requires
        forall|i: int| 0 <= i < bs.len() ==> !hits_any(#[trigger] bs[i], es),
    ensures
        untouched(bs, es) == bs,
    decreases bs.len(),
{
    if bs.len() == 0 {
        assert(bs =~= Seq::<Bullet>::empty());
    } else {
        let prior = bs.drop_last();
        assert forall|i: int| 0 <= i < prior.len() implies !hits_any(#[trigger] prior[i], es) by {
            assert(prior[i] == bs[i]);
        }
        lemma_untouched_all(prior, es);
        assert(!hits_any(bs[bs.len() - 1], es));
        assert(prior.push(bs.last()) =~= bs);
    }
}

/// Where only the bullet at `j` hits an enemy, removing the bullets that hit
/// removes that one and keeps every other, in order.
proof fn lemma_untouched_but_one(bs: Seq<Bullet>, es: Seq<Enemy>, j: int)
    requires
        0 <= j < bs.len(),
        hits_any(bs[j], es),
        forall|i: int| 0 <= i < bs.len() && i != j ==> !hits_any(#[trigger] bs[i], es),
    ensures
        untouched(bs, es) == bs.remove(j),
    decreases bs.len(),
{
    let prior = bs.drop_last();
    if j == bs.len() - 1 {
        assert forall|i: int| 0 <= i < prior.len() implies !hits_any(#[trigger] prior[i], es) by {
            assert(prior[i] == bs[i]);
        }
        lemma_untouched_all(prior, es);
        assert(bs.remove(j) =~= prior);
    } else {
        assert forall|i: int| 0 <= i < prior.len() && i != j implies !hits_any(
            #[trigger] prior[i],
            es,
        ) by {
            assert(prior[i] == bs[i]);
        }
        assert(prior[j] == bs[j]);
        lemma_untouched_but_one(prior, es, j);
        assert(!hits_any(bs[bs.len() - 1], es));
        assert(prior.remove(j).push(bs.last()) =~= bs.remove(j));
    }
}

/// No bullet of `bs` strikes `target`: they deal it no damage.
proof fn lemma_no_damage(bs: Seq<Bullet>, owner: Owner, target: Rect)
    requires
        forall|i: int| 0 <= i < bs.len() ==> !strikes(#[trigger] bs[i], owner, target),
    ensures
        damage_sum(bs, owner, target) == 0,
    decreases bs.len(),
{
    if bs.len() > 0 {
        let prior = bs.drop_last();
        assert forall|i: int| 0 <= i < prior.len() implies !strikes(#[trigger] prior[i], owner, target) by {
            assert(prior[i] == bs[i]);
        }
        lemma_no_damage(prior, owner, target);
        assert(!strikes(bs[bs.len() - 1], owner, target));
    }
}

/// In a tick, a player's bullet that alone overlaps two enemies at collision
/// time, in the state `c` that the enemy scan sees, takes its damage from
/// each of the two once, and the tick's removal of spent bullets removes it
/// and no other bullet.
pub proof fn lemma_shared_hit_in_tick(c: StateView, j: int, first: int, second: int)
    requires
        0 <= j < c.bullets.len(),
        0 <= first < c.enemies.len(),
        0 <= second < c.enemies.len(),
        first != second,
        strikes(c.bullets[j], Owner::Player, c.enemies[first].spec_hitbox()),
        strikes(c.bullets[j], Owner::Player, c.enemies[second].spec_hitbox()),
        forall|i: int| 0 <= i < c.bullets.len() && i != j ==> !hits_any(#[trigger] c.bullets[i], c.enemies),
    ensures
        c.after_enemy_hits().enemies[first].spec_hp() == c.enemies[first].spec_hp().drained_by(
            PLAYER_BULLET_DAMAGE as nat,
        ),
        c.after_enemy_hits().enemies[second].spec_hp() == c.enemies[second].spec_hp().drained_by(
            PLAYER_BULLET_DAMAGE as nat,
        ),
        untouched(c.bullets, c.enemies) == c.bullets.remove(j),
{
    let bs = c.bullets;
    lemma_hits_any(bs[j], c.enemies, first);
    lemma_untouched_but_one(bs, c.enemies, j);
    let rest = bs.remove(j);
    assert forall|i: int| 0 <= i < rest.len() implies !hits_any(#[trigger] rest[i], c.enemies) by {
        if i < j {
            assert(rest[i] == bs[i]);
        } else {
            assert(rest[i] == bs[i + 1]);
        }
    }
    assert forall|i: int| 0 <= i < rest.len() implies !strikes(
        #[trigger] rest[i],
        Owner::Player,
        c.enemies[first].spec_hitbox(),
    ) by {
        if strikes(rest[i], Owner::Player, c.enemies[first].spec_hitbox()) {
            lemma_hits_any(rest[i], c.enemies, first);
        }
    }
    assert forall|i: int| 0 <= i < rest.len() implies !strikes(
        #[trigger] rest[i],
        Owner::Player,
        c.enemies[second].spec_hitbox(),
    ) by {
        if strikes(rest[i], Owner::Player, c.enemies[second].spec_hitbox()) {
            lemma_hits_any(rest[i], c.enemies, second);
        }
    }
    lemma_no_damage(rest, Owner::Player, c.enemies[first].spec_hitbox());
    lemma_no_damage(rest, Owner::Player, c.enemies[second].spec_hitbox());
    lemma_damage_counts_once(bs, Owner::Player, c.enemies[first].spec_hitbox(), j);
    lemma_damage_counts_once(bs, Owner::Player, c.enemies[second].spec_hitbox(), j);
}

/// Where `spent` lists exactly the bullets of `bs` that hit an enemy of `es`,
/// removing the listed indices keeps the prefix of `bs` of length `k` apart
/// from the bullets that hit.
proof fn lemma_unspent_prefix(bs: Seq<Bullet>, spent: Seq<usize>, es: Seq<Enemy>, k: int)
    requires
        spent_by_enemies(spent, bs, es),
        0 <= k <= bs.len(),
    ensures
        unspent(bs.subrange(0, k), spent) == untouched(bs.subrange(0, k), es),
    decreases k,
{
    if k > 0 {
        lemma_unspent_prefix(bs, spent, es, k - 1);
        assert(bs.subrange(0, k).drop_last() =~= bs.subrange(0, k - 1));
        assert(bs.subrange(0, k).last() == bs[k - 1]);
    }
}

/// Bullets appended after the scan that listed `spent` are never removed by it.
proof fn lemma_unspent_after_volley(
    bs: Seq<Bullet>,
    extra: Seq<Bullet>,
    spent: Seq<usize>,
    es: Seq<Enemy>,
)
    requires
        spent_by_enemies(spent, bs, es),
        bs.len() + extra.len() <= usize::MAX,
    ensures
        unspent(bs + extra, spent) == untouched(bs, es) + extra,
    decreases extra.len(),
{
    if extra.len() == 0 {
        lemma_unspent_prefix(bs, spent, es, bs.len() as int);
        assert(bs.subrange(0, bs.len() as int) =~= bs);
        assert(bs + extra =~= bs);
        assert(untouched(bs, es) + extra =~= untouched(bs, es));
    } else {
        lemma_unspent_after_volley(bs, extra.drop_last(), spent, es);
        let all = bs + extra;
        assert(all.drop_last() =~= bs + extra.drop_last());
        let last = (all.len() - 1) as usize;
        if spent.contains(last) {
            let p = choose|p: int| 0 <= p < spent.len() && spent[p] == last;
            assert(spent[p] < bs.len());
        }
        assert(all.last() == extra.last());
        assert(untouched(bs, es) + extra =~= (untouched(bs, es) + extra.drop_last()).push(
            extra.last(),
        ));
    }
}

/// Every bullet that culling keeps overlaps the playfield.
pub proof fn lemma_in_bounds_overlap(bs: Seq<Bullet>, field: Rect)
    ensures
        forall|i: int|
            0 <= i < in_bounds(bs, field).len() ==> (#[trigger] in_bounds(bs, field)[i]).spec_hitbox().spec_overlaps(field),
    decreases bs.len(),
{
    if bs.len() > 0 {
        lemma_in_bounds_overlap(bs.drop_last(), field);
        let prior = in_bounds(bs.drop_last(), field);
        assert forall|i: int| 0 <= i < in_bounds(bs, field).len() implies (#[trigger] in_bounds(
            bs,
            field,
        )[i]).spec_hitbox().spec_overlaps(field) by {
            if i < prior.len() {
                assert(in_bounds(bs, field)[i] == prior[i]);
            }
        }
    }
}

/// Culling keeps a first bullet that overlaps the playfield first.
proof fn lemma_in_bounds_first(bs: Seq<Bullet>, field: Rect)
    requires
        bs.len() > 0,
        bs[0].spec_hitbox().spec_overlaps(field),
    ensures
        in_bounds(bs, field).len() > 0,
        in_bounds(bs, field)[0] == bs[0],
    decreases bs.len(),
{
    if bs.len() == 1 {
        assert(bs.drop_last() =~= Seq::<Bullet>::empty());
        assert(in_bounds(Seq::<Bullet>::empty(), field) =~= Seq::<Bullet>::empty());
        assert(bs.last() == bs[0]);
    } else {
        lemma_in_bounds_first(bs.drop_last(), field);
        assert(bs.drop_last()[0] == bs[0]);
        let prior = in_bounds(bs.drop_last(), field);
        if bs.last().spec_hitbox().spec_overlaps(field) {
            assert(in_bounds(bs, field) == prior.push(bs.last()));
            assert(prior.push(bs.last())[0] == prior[0]);
        }
    }
}

/// A shot flies in the tick it is fired: with a single shot queued and no
/// bullet in flight, the tick ends with the new player's bullet first among
/// the bullets, from where the player stood, moved up by its speed times the
/// tick's length, as long as it hits no enemy, is still on the playfield and
/// its coordinates stay within the range of `i64`. Where every enemy fires
/// only enemies' bullets, it is the only player's bullet in flight.
pub proof fn lemma_shot_flies(s: StateView, now: int)
    requires
        s.queue == seq![Action::Shoot],
        s.bullets.len() == 0,
        !hits_any(Bullet::Player(PlayerBullet { position: s.player.spec_position() }), s.enemies),
        Bullet::Player(PlayerBullet { position: s.player.spec_position() }).moved(
            tick_length(s.last_tick, now),
        ).spec_hitbox().spec_overlaps(s.ui.spec_hitbox()),
        i64::MIN <= s.player.spec_position().y.0 + PLAYER_BULLET_SPEED * tick_length(s.last_tick, now),
    ensures
        s.ticked(now).bullets.len() > 0,
        s.ticked(now).bullets[0] == Bullet::Player(
            PlayerBullet {
                position: Position {
                    x: s.player.spec_position().x,
                    y: Pixels(
                        (s.player.spec_position().y.0 + PLAYER_BULLET_SPEED * tick_length(
                            s.last_tick,
                            now,
                        )) as i64,
                    ),
                },
            },
        ),
        (forall|k: int| 0 <= k < s.enemies.len() ==> fires_enemy_bullets(#[trigger] s.enemies[k]))
            ==> forall|i: int|
            1 <= i < s.ticked(now).bullets.len() ==> (#[trigger] s.ticked(now).bullets[i]).spec_owner()
                == Owner::Enemy,
{
    let elapsed = tick_length(s.last_tick, now);
    let b0 = Bullet::Player(PlayerBullet { position: s.player.spec_position() });
    assert(s.queue.drop_last() =~= Seq::<Action>::empty());
    assert(drained(s.player, s.bullets, Seq::<Action>::empty(), elapsed) == (s.player, s.bullets));
    assert(s.queue.last() == Action::Shoot);
    assert(s.after_input(elapsed).bullets =~= seq![b0]);
    let placed = s.after_input(elapsed).after_clamp();
    let shot = placed.after_player_hits();
    assert(shot.bullets == seq![b0]);
    assert(seq![b0].drop_last() =~= Seq::<Bullet>::empty());
    assert(struck(Seq::<Bullet>::empty(), Owner::Enemy, shot.player.spec_hitbox()) =~= Seq::<usize>::empty());
    assert(unspent(Seq::<Bullet>::empty(), Seq::<usize>::empty()) =~= Seq::<Bullet>::empty());
    assert(untouched(Seq::<Bullet>::empty(), s.enemies) =~= Seq::<Bullet>::empty());
    assert(!strikes(b0, Owner::Enemy, shot.player.spec_hitbox()));
    assert(struck(shot.bullets, Owner::Enemy, shot.player.spec_hitbox()) =~= Seq::<usize>::empty());
    assert(unspent(shot.bullets, Seq::<usize>::empty()) =~= seq![b0]);
    assert(untouched(seq![b0], s.enemies) =~= seq![b0]);
    let cleared = StateView {
        bullets: unspent(shot.bullets, struck(shot.bullets, Owner::Enemy, shot.player.spec_hitbox())),
        ..shot
    };
    assert(cleared.enemies == s.enemies);
    let later = cleared.after_enemy_hits().after_defeats().enemies;
    let kept = seq![b0] + volley(later, now);
    assert(kept[0] == b0);
    let flown = Seq::new(kept.len(), |i: int| kept[i].moved(elapsed));
    lemma_in_bounds_first(flown, s.ui.spec_hitbox());
    if forall|k: int| 0 <= k < s.enemies.len() ==> fires_enemy_bullets(#[trigger] s.enemies[k]) {
        let hit = cleared.after_enemy_hits().enemies;
        assert forall|k: int| 0 <= k < hit.len() implies fires_enemy_bullets(#[trigger] hit[k]) by {
            assert(fires_enemy_bullets(s.enemies[k]));
        }
        lemma_survivors_keep_fire(hit);
        lemma_volley_enemy_owned(later, now);
        let volleyed = volley(later, now);
        let rest = Seq::new(volleyed.len(), |i: int| volleyed[i].moved(elapsed));
        assert forall|i: int| 0 <= i < rest.len() implies (#[trigger] rest[i]).spec_owner()
            == Owner::Enemy by {
            assert(volleyed[i].spec_owner() == Owner::Enemy);
        }
        assert(flown =~= seq![flown[0]] + rest);
        lemma_in_bounds_front(flown[0], rest, s.ui.spec_hitbox());
        lemma_in_bounds_enemy_owned(rest, s.ui.spec_hitbox());
        let result = in_bounds(flown, s.ui.spec_hitbox());
        assert forall|i: int| 1 <= i < result.len() implies (#[trigger] result[i]).spec_owner()
            == Owner::Enemy by {
            assert(result[i] == in_bounds(rest, s.ui.spec_hitbox())[i - 1]);
        }
    }
}

/// Whether every bullet that `e` can fire is an enemy's.
pub open(crate) spec fn fires_enemy_bullets(e: Enemy) -> bool {
    &&& e.spec_cursor() < e.spec_rotation().len()
    &&& forall|t: int|
        0 <= t < e.spec_rotation().len() ==> (#[trigger] e.spec_rotation()[t]).spec_owner()
            == Owner::Enemy
}

/// Removing defeated enemies keeps only enemies of `es`, so a property of
/// all of them holds of those that stay.
proof fn lemma_survivors_keep_fire(es: Seq<Enemy>)
    requires
        forall|k: int| 0 <= k < es.len() ==> fires_enemy_bullets(#[trigger] es[k]),
    ensures
        forall|k: int| 0 <= k < survivors(es).len() ==> fires_enemy_bullets(#[trigger] survivors(es)[k]),
    decreases es.len(),
{
    if es.len() > 0 {
        let prior = es.drop_last();
        assert forall|k: int| 0 <= k < prior.len() implies fires_enemy_bullets(#[trigger] prior[k]) by {
            assert(prior[k] == es[k]);
        }
        lemma_survivors_keep_fire(prior);
        assert(fires_enemy_bullets(es[es.len() - 1]));
        let done = survivors(prior);
        assert forall|k: int| 0 <= k < survivors(es).len() implies fires_enemy_bullets(
            #[trigger] survivors(es)[k],
        ) by {
            if k < done.len() {
                assert(survivors(es)[k] == done[k]);
            }
        }
    }
}

/// Enemies that fire only enemies' bullets put only enemies' bullets in flight.
proof fn lemma_volley_enemy_owned(es: Seq<Enemy>, now: int)
    requires
        forall|k: int| 0 <= k < es.len() ==> fires_enemy_bullets(#[trigger] es[k]),
    ensures
        forall|i: int| 0 <= i < volley(es, now).len() ==> (#[trigger] volley(es, now)[i]).spec_owner()
            == Owner::Enemy,
    decreases es.len(),
{
    if es.len() > 0 {
        let prior = es.drop_last();
        assert forall|k: int| 0 <= k < prior.len() implies fires_enemy_bullets(#[trigger] prior[k]) by {
            assert(prior[k] == es[k]);
        }
        lemma_volley_enemy_owned(prior, now);
        let e = es.last();
        assert(fires_enemy_bullets(es[es.len() - 1]));
        assert(e.spec_rotation()[e.spec_cursor() as int].spec_owner() == Owner::Enemy);
        let done = volley(prior, now);
        assert forall|i: int| 0 <= i < volley(es, now).len() implies (#[trigger] volley(es, now)[i]).spec_owner()
            == Owner::Enemy by {
            if i < done.len() {
                assert(volley(es, now)[i] == done[i]);
            }
        }
    }
}

/// Culling keeps a first bullet that overlaps the playfield, in front of what
/// it keeps of the rest.
proof fn lemma_in_bounds_front(b: Bullet, rest: Seq<Bullet>, field: Rect)
    requires
        b.spec_hitbox().spec_overlaps(field),
    ensures
        in_bounds(seq![b] + rest, field) == seq![b] + in_bounds(rest, field),
    decreases rest.len(),
{
    if rest.len() == 0 {
        assert(seq![b] + rest =~= seq![b]);
        assert(seq![b].drop_last() =~= Seq::<Bullet>::empty());
        assert(in_bounds(Seq::<Bullet>::empty(), field) =~= Seq::<Bullet>::empty());
        assert(seq![b] + in_bounds(rest, field) =~= seq![b]);
    } else {
        lemma_in_bounds_front(b, rest.drop_last(), field);
        assert((seq![b] + rest).drop_last() =~= seq![b] + rest.drop_last());
        assert((seq![b] + rest).last() == rest.last());
        let prior = in_bounds(rest.drop_last(), field);
        assert((seq![b] + prior).push(rest.last()) =~= seq![b] + prior.push(rest.last()));
    }
}

/// Culling keeps only bullets it was given: if all are enemies', so are those kept.
proof fn lemma_in_bounds_enemy_owned(bs: Seq<Bullet>, field: Rect)
    requires
        forall|i: int| 0 <= i < bs.len() ==> (#[trigger] bs[i]).spec_owner() == Owner::Enemy,
    ensures
        forall|i: int|
            0 <= i < in_bounds(bs, field).len() ==> (#[trigger] in_bounds(bs, field)[i]).spec_owner()
                == Owner::Enemy,
    decreases bs.len(),
{
    if bs.len() > 0 {
        let prior = bs.drop_last();
        assert forall|i: int| 0 <= i < prior.len() implies (#[trigger] prior[i]).spec_owner()
            == Owner::Enemy by {
            assert(prior[i] == bs[i]);
        }
        lemma_in_bounds_enemy_owned(prior, field);
        assert(bs[bs.len() - 1].spec_owner() == Owner::Enemy);
        let done = in_bounds(prior, field);
        assert forall|i: int| 0 <= i < in_bounds(bs, field).len() implies (#[trigger] in_bounds(
            bs,
            field,
        )[i]).spec_owner() == Owner::Enemy by {
            if i < done.len() {
                assert(in_bounds(bs, field)[i] == done[i]);
            }
        }
    }
}

/// Every enemy left after defeated enemies are removed has hit points.
pub proof fn lemma_survivors_alive(es: Seq<Enemy>)
    ensures
        forall|k: int|
            0 <= k < survivors(es).len() ==> (#[trigger] survivors(es)[k]).spec_hp().spec_current()
                > 0,
    decreases es.len(),
{
    if es.len() > 0 {
        lemma_survivors_alive(es.drop_last());
        let prior = survivors(es.drop_last());
        assert forall|k: int| 0 <= k < survivors(es).len() implies (#[trigger] survivors(
            es,
        )[k]).spec_hp().spec_current() > 0 by {
            if k < prior.len() {
                assert(survivors(es)[k] == prior[k]);
            }
        }
    }
}

/// Over a whole tick at `now`: a player's bullet that alone overlaps two
/// enemies at collision time damages each of them once, and the tick ends
/// with every other bullet of that time, and those the enemies fire, flown
/// on and culled; that one bullet alone is gone.
pub proof fn lemma_shared_hit_over_tick(s: StateView, now: int, j: int, first: int, second: int)
    requires
        ({
            let c = s.at_collision(now);
            &&& 0 <= j < c.bullets.len()
            &&& 0 <= first < c.enemies.len()
            &&& 0 <= second < c.enemies.len()
            &&& first != second
            &&& strikes(c.bullets[j], Owner::Player, c.enemies[first].spec_hitbox())
            &&& strikes(c.bullets[j], Owner::Player, c.enemies[second].spec_hitbox())
            &&& forall|i: int|
                0 <= i < c.bullets.len() && i != j ==> !hits_any(#[trigger] c.bullets[i], c.enemies)
        }),
    ensures
        ({
            let c = s.at_collision(now);
            let hit = c.after_enemy_hits();
            let kept = c.bullets.remove(j) + volley(hit.after_defeats().enemies, now);
            let elapsed = tick_length(s.last_tick, now);
            &&& hit.enemies[first].spec_hp() == c.enemies[first].spec_hp().drained_by(
                PLAYER_BULLET_DAMAGE as nat,
            )
            &&& hit.enemies[second].spec_hp() == c.enemies[second].spec_hp().drained_by(
                PLAYER_BULLET_DAMAGE as nat,
            )
            &&& s.ticked(now).bullets == in_bounds(
                Seq::new(kept.len(), |i: int| kept[i].moved(elapsed)),
                s.ui.spec_hitbox(),
            )
        }),
{
    lemma_shared_hit_in_tick(s.at_collision(now), j, first, second);
}

/// Removing defeated enemies keeps exactly those with hit points left, in order.
pub proof fn lemma_survivors_filter(es: Seq<Enemy>)
    ensures
        survivors(es) == es.filter(|e: Enemy| e.spec_hp().spec_current() > 0),
    decreases es.len(),
{
    reveal(Seq::filter);
    if es.len() > 0 {
        lemma_survivors_filter(es.drop_last());
    }
}

/// The enemies after a tick at `now` are exactly those that still have hit
/// points once the player's bullets have dealt their damage at collision
/// time, in their order, each after its turn to fire; an enemy whose hit
/// points ran out is gone and fires nothing, and the enemies fire only after
/// the defeated are removed.
pub proof fn lemma_enemies_after_tick(s: StateView, now: int)
    ensures
        ({
            let hit = s.at_collision(now).after_enemy_hits().enemies;
            let standing = hit.filter(|e: Enemy| e.spec_hp().spec_current() > 0);
            &&& s.ticked(now).enemies == Seq::new(
                standing.len(),
                |k: int| standing[k].fire_outcome(now).0,
            )
            &&& forall|k: int|
                0 <= k < standing.len() ==> (#[trigger] s.ticked(now).enemies[k]).spec_hp()
                    == standing[k].spec_hp() && standing[k].spec_hp().spec_current() > 0
        }),
{
    let hit = s.at_collision(now).after_enemy_hits().enemies;
    lemma_survivors_filter(hit);
    lemma_survivors_alive(hit);
}

/// Removing defeated enemies never lengthens the list.
proof fn lemma_survivors_len(es: Seq<Enemy>)
    ensures
        survivors(es).len() <= es.len(),
    decreases es.len(),
{
    if es.len() > 0 {
        lemma_survivors_len(es.drop_last());
    }
}

/// Whether `v` holds `x`.
fn contains_index(v: &Vec<usize>, x: usize) -> (r: bool)
    ensures
        r == v@.contains(x),
{
    let mut i: usize = 0;
    while i < v.len()
        invariant
            0 <= i <= v@.len(),
            forall|p: int| 0 <= p < i ==> v@[p] != x,
        decreases v@.len() - i,
    {
        if v[i] == x {
            return true;
        }
        i = i + 1;
    }
    false
}

} // verus!
