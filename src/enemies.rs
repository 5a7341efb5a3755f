use vstd::prelude::*;

use crate::bullets::Bullet;
use crate::health::{Health, HealthPoints};
use crate::motion::{advance, hitbox, saturate, Dimensions, Object, Position, Rect};
use crate::units::Pixels;

verus! {

/// The least time between two shots of one enemy, in milliseconds.
pub const FIRE_COOLDOWN_MS: u64 = 500;

/// An enemy: where it is, its hit points, and the bullets it fires in turn.
pub struct Enemy {
    pub position: Position<Pixels>,
    pub dimensions: Dimensions<Pixels>,
    pub(crate) health: HealthPoints,
    pub(crate) bullet_rotation: Vec<Bullet>,
    pub(crate) current_bullet_index: usize,
    pub(crate) last_fired: u64,
}

/// The bullet fired from `template`, whose position is an offset from the
/// enemy's position `origin`.
pub open spec fn launch(template: Bullet, origin: Position<Pixels>) -> Bullet {
    template.at(
        Position {
            x: Pixels(saturate(template.spec_position().x.0 + origin.x.0) as i64),
            y: Pixels(saturate(template.spec_position().y.0 + origin.y.0) as i64),
        },
    )
}

impl Enemy {
    #[verifier::type_invariant]
    spec fn rotation_in_bounds(self) -> bool {
        self.bullet_rotation@.len() > 0 && self.current_bullet_index < self.bullet_rotation@.len()
    }

    pub open(crate) spec fn spec_rotation(self) -> Seq<Bullet> {
        self.bullet_rotation@
    }

    /// The index in the rotation of the next bullet to fire.
    pub open(crate) spec fn spec_cursor(self) -> nat {
        self.current_bullet_index as nat
    }

    /// When the enemy last fired, in milliseconds.
    pub open(crate) spec fn spec_last_fired(self) -> int {
        self.last_fired as int
    }

    pub open(crate) spec fn spec_hp(self) -> HealthPoints {
        self.health
    }

    pub open(crate) spec fn spec_pos(self) -> Position<Pixels> {
        self.position
    }

    pub open(crate) spec fn spec_hitbox(self) -> Rect {
        hitbox(self.position, self.dimensions)
    }

    /// Whether the cooldown has run out at time `now`.
    pub open(crate) spec fn ready(self, now: int) -> bool {
        now >= self.last_fired + FIRE_COOLDOWN_MS
    }

    /// The bullet that the next shot fires.
    pub open(crate) spec fn next_bullet(self) -> Bullet {
        launch(self.bullet_rotation@[self.current_bullet_index as int], self.position)
    }

    /// The enemy and what it fired, after it is asked to fire at time `now`:
    /// while the cooldown lasts nothing happens; otherwise it fires the bullet
    /// at the cursor, moves the cursor on by one round the rotation, and
    /// records `now`.
    pub open(crate) spec fn fire_outcome(self, now: int) -> (Enemy, Option<Bullet>) {
        if self.ready(now) {
            (
                Enemy {
                    current_bullet_index: ((self.current_bullet_index + 1) as int % self.bullet_rotation@.len() as int) as usize,
                    last_fired: now as u64,
                    ..self
                },
                Some(self.next_bullet()),
            )
        } else {
            (self, None)
        }
    }

    /// An enemy that has just fired, so it fires first `FIRE_COOLDOWN_MS`
    /// after `now`; its rotation starts at the first template.
    pub fn new(
        pos: Position<Pixels>,
        dim: Dimensions<Pixels>,
        health: HealthPoints,
        bullets: Vec<Bullet>,
        now: u64,
    ) -> (r: Self)
        requires
            bullets@.len() > 0,
        ensures
            r.spec_pos() == pos,
            r.spec_hitbox() == hitbox(pos, dim),
            r.spec_hp() == health,
            r.spec_rotation() == bullets@,
            r.spec_cursor() == 0,
            r.spec_last_fired() == now,
    {
        Enemy {
            position: pos,
            dimensions: dim,
            health: health,
            bullet_rotation: bullets,
            current_bullet_index: 0usize,
            last_fired: now,
        }
    }

    pub fn hitbox_rect(&self) -> (r: Rect)
        ensures
            r == self.spec_hitbox(),
    {
        Rect::of(self.position, self.dimensions)
    }

    /// Fires the next bullet of the rotation if the cooldown has run out at
    /// time `now`.
    pub fn fire_bullet(&mut self, now: u64) -> (r: Option<Bullet>)
        ensures
            (*final(self), r) == old(self).fire_outcome(now as int),
    {
        proof {
            use_type_invariant(&*self);
        }
        if now >= self.last_fired && now - self.last_fired >= FIRE_COOLDOWN_MS {
            let template = self.bullet_rotation[self.current_bullet_index];
            let origin = template.position();
            let bullet = template.placed_at(
                Position::new(
                    Pixels(advance(origin.x.value(), self.position.x.value())),
                    Pixels(advance(origin.y.value(), self.position.y.value())),
                ),
            );
            let len: usize = self.bullet_rotation.len();
            let next: usize = (self.current_bullet_index + 1) % len;
            self.last_fired = now;
            self.current_bullet_index = next;
            Some(bullet)
        } else {
            None
        }
    }

    /// The index in the rotation of the next bullet to fire.
    pub fn current_bullet_index(&self) -> (r: usize)
        ensures
            r == self.spec_cursor(),
    {
        self.current_bullet_index
    }

    /// When the enemy last fired, in milliseconds.
    pub fn last_fired(&self) -> (r: u64)
        ensures
            r == self.spec_last_fired(),
    {
        self.last_fired
    }
}

impl Health for Enemy {
    open(crate) spec fn spec_health(&self) -> HealthPoints {
        self.health
    }

    /// Enemies cannot heal.
    open(crate) spec fn can_heal(&self) -> bool {
        false
    }

    open(crate) spec fn with_health(&self, h: HealthPoints) -> Enemy {
        Enemy { health: h, ..*self }
    }

    fn health(&self) -> (r: HealthPoints) {
        self.health
    }

    fn restore_health(&mut self, _amt: HealthPoints) -> (r: HealthPoints) {
        self.health
    }

    fn take_damage(&mut self, amount: HealthPoints) -> (r: HealthPoints) {
        proof {
            use_type_invariant(&*self);
        }
        self.health = self.health - amount;
        self.health
    }
}

impl Object<Pixels> for Enemy {
    open(crate) spec fn spec_position(&self) -> Position<Pixels> {
        self.position
    }

    open(crate) spec fn spec_dimensions(&self) -> Dimensions<Pixels> {
        self.dimensions
    }

    fn position(&self) -> (r: Position<Pixels>) {
        self.position
    }

    fn dimensions(&self) -> (r: Dimensions<Pixels>) {
        self.dimensions
    }
}

/// Firing is gated by the cooldown and goes round the rotation: of two
/// requests to fire less than `FIRE_COOLDOWN_MS` apart at most one fires a
/// bullet; after a shot, a request `FIRE_COOLDOWN_MS` or more later fires
/// again, with the next template of the rotation, counted modulo its length.
pub proof fn lemma_fire_cooldown(e: Enemy, first: int, second: int)
    requires
        e.spec_rotation().len() > 0,
        e.spec_cursor() < e.spec_rotation().len(),
        0 <= first <= second <= u64::MAX,
    ensures
        ({
            let (e1, b1) = e.fire_outcome(first);
            let (e2, b2) = e1.fire_outcome(second);
            &&& second < first + FIRE_COOLDOWN_MS ==> !(b1.is_some() && b2.is_some())
            &&& b1.is_some() ==> b1 == Some(
                launch(e.spec_rotation()[e.spec_cursor() as int], e.spec_pos()),
            )
            &&& b1.is_some() && second >= first + FIRE_COOLDOWN_MS ==> {
                &&& e1.spec_cursor() == (e.spec_cursor() + 1) % e.spec_rotation().len()
                &&& b2 == Some(launch(e.spec_rotation()[e1.spec_cursor() as int], e.spec_pos()))
                &&& e2.spec_cursor() == (e1.spec_cursor() + 1) % e.spec_rotation().len()
            }
        }),
{
    let len = e.spec_rotation().len();
    assert(len == e.bullet_rotation.len());
    assert((e.spec_cursor() + 1) % len < len);
    let e1 = e.fire_outcome(first).0;
    assert((e1.spec_cursor() + 1) % len < len);
}

/// The enemy, and what it fired each time, after it is asked to fire at each
/// of `times` in order.
pub open(crate) spec fn fire_each(e: Enemy, times: Seq<int>) -> (Enemy, Seq<Option<Bullet>>)
    decreases times.len(),
{
    if times.len() == 0 {
        (e, Seq::empty())
    } else {
        let (before, out) = fire_each(e, times.drop_last());
        let (after, shot) = before.fire_outcome(times.last());
        (after, out.push(shot))
    }
}

/// Requests to fire spaced `FIRE_COOLDOWN_MS` or more apart, the first that
/// long after the last shot, each fire one bullet, round the rotation and
/// without end: the `j`-th fires the template `j` places after the cursor,
/// counted modulo the rotation's length; afterwards the cursor has moved on
/// by the number of requests, and the last request's time is recorded.
pub proof fn lemma_fire_round_robin(e: Enemy, times: Seq<int>)
    requires
        e.spec_rotation().len() > 0,
        e.spec_cursor() < e.spec_rotation().len(),
        times.len() > 0 ==> times[0] >= e.spec_last_fired() + FIRE_COOLDOWN_MS,
        forall|i: int|
            0 <= i < times.len() - 1 ==> times[i] + FIRE_COOLDOWN_MS <= #[trigger] times[i + 1],
        forall|i: int| 0 <= i < times.len() ==> 0 <= #[trigger] times[i] <= u64::MAX,
    ensures
        ({
            let (last, out) = fire_each(e, times);
            let n = e.spec_rotation().len() as int;
            &&& out.len() == times.len()
            &&& forall|j: int|
                0 <= j < times.len() ==> #[trigger] out[j] == Some(
                    launch(e.spec_rotation()[(e.spec_cursor() + j) % n], e.spec_pos()),
                )
            &&& last.spec_cursor() == (e.spec_cursor() + times.len()) as int % n
            &&& last.spec_rotation() == e.spec_rotation()
            &&& last.spec_pos() == e.spec_pos()
            &&& last.spec_hitbox() == e.spec_hitbox()
            &&& last.spec_hp() == e.spec_hp()
            &&& times.len() > 0 ==> last.spec_last_fired() == times.last()
        }),
    decreases times.len(),
{
    let n = e.spec_rotation().len() as int;
    assert(n == e.bullet_rotation.len());
    if times.len() > 0 {
        let k = times.len() - 1;
        let prefix = times.drop_last();
        assert forall|i: int| 0 <= i < prefix.len() - 1 implies prefix[i] + FIRE_COOLDOWN_MS
            <= #[trigger] prefix[i + 1] by {
            assert(times[i + 1] == prefix[i + 1]);
        }
        assert forall|i: int| 0 <= i < prefix.len() implies 0 <= #[trigger] prefix[i]
            <= u64::MAX by {
            assert(times[i] == prefix[i]);
        }
        lemma_fire_round_robin(e, prefix);
        let (before, out) = fire_each(e, prefix);
        if k > 0 {
            assert(times[k - 1] + FIRE_COOLDOWN_MS <= times[k]);
        }
        assert(before.ready(times.last()));
        vstd::arithmetic::div_mod::lemma_add_mod_noop_right(1, e.spec_cursor() + k, n as int);
        assert((before.spec_cursor() + 1) as int % n < n);
        let (last, all) = fire_each(e, times);
        let (after, shot) = before.fire_outcome(times.last());
        assert(last == after && all == out.push(shot));
        assert(after.spec_cursor() == (e.spec_cursor() + times.len()) as int % n);
        assert(shot == Some(launch(e.spec_rotation()[(e.spec_cursor() + k) % n], e.spec_pos())));
        assert forall|j: int| 0 <= j < times.len() implies #[trigger] all[j] == Some(
            launch(e.spec_rotation()[(e.spec_cursor() + j) % n], e.spec_pos()),
        ) by {
            if j < k {
                assert(all[j] == out[j]);
            }
        }
    } else {
        vstd::arithmetic::div_mod::lemma_small_mod(e.spec_cursor(), n as nat);
    }
}

} // verus!
