use vstd::prelude::*;

use crate::health::HealthPoints;
use crate::motion::{
    advance, hitbox, saturate, Acceleration, Dimensions, Object, Position, Rect, Velocity,
};
use crate::units::{Pixels, PixelsPerMs, SUBPIXELS};

verus! {

/// Width and height of every bullet: twenty pixels.
pub const BULLET_SIZE: i64 = 20 * SUBPIXELS;

/// Damage dealt by a bullet that the player fired.
pub const PLAYER_BULLET_DAMAGE: u32 = 10;

/// Damage dealt by a basic bullet that an enemy fired.
pub const ENEMY_BULLET_DAMAGE: u32 = 5;

/// A player's bullet climbs half a pixel each millisecond (the vertical axis
/// points down).
pub const PLAYER_BULLET_SPEED: i32 = -4;

/// An enemy's basic bullet falls an eighth of a pixel each millisecond, a
/// quarter of the speed of the player's.
pub const ENEMY_BULLET_SPEED: i32 = 1;

/// Who fired a bullet.
#[derive(Copy, Clone, PartialEq, Eq, Structural, Debug)]
pub enum Owner {
    Player,
    Enemy,
}

/// The sort of a bullet.
#[derive(Copy, Clone, PartialEq, Eq, Structural, Debug)]
pub enum Kind {
    Basic,
}

/// A bullet fired by the player.
#[derive(Copy, Clone, PartialEq, Eq, Debug)]
pub struct PlayerBullet {
    pub position: Position<Pixels>,
}

/// A basic bullet fired by an enemy.
#[derive(Copy, Clone, PartialEq, Eq, Debug)]
pub struct Basic {
    pub position: Position<Pixels>,
}

#[derive(Copy, Clone, PartialEq, Eq, Debug)]
pub enum Bullet {
    Player(PlayerBullet),
    EnemyBasic(Basic),
}

/// `pos` after `elapsed` milliseconds at the vertical rate `rate`; the
/// horizontal coordinate stays.
pub open spec fn fall(pos: Position<Pixels>, rate: int, elapsed: int) -> Position<Pixels> {
    Position { x: pos.x, y: Pixels(saturate(pos.y.0 + rate * elapsed) as i64) }
}

/// A bullet that stands still along one axis.
fn no_motion() -> (r: Velocity<PixelsPerMs>)
    ensures
        r.spec_rate() == 0,
{
    Velocity::new(0)
}

/// `pos` moved by `velocity` over `elapsed` milliseconds along the vertical axis.
fn drop_along(pos: Position<Pixels>, velocity: &Velocity<PixelsPerMs>, elapsed: u32) -> (r: Position<
    Pixels,
>)
    ensures
        r == fall(pos, velocity.spec_rate(), elapsed as int),
{
    let dy = velocity.distance(elapsed).0;
    Position::new(pos.x, Pixels(advance(pos.y.0, dy)))
}

impl PlayerBullet {
    pub fn new(position: Position<Pixels>) -> (r: Self)
        ensures
            r.position == position,
    {
        PlayerBullet { position: position }
    }

    pub fn damage(&self) -> (r: HealthPoints)
        ensures
            r.spec_current() == PLAYER_BULLET_DAMAGE,
            r.spec_maximum() == PLAYER_BULLET_DAMAGE,
    {
        HealthPoints::new(PLAYER_BULLET_DAMAGE)
    }

    /// Moves the bullet upward for `elapsed` milliseconds.
    pub fn reposition(&mut self, elapsed: u32)
        ensures
            final(self).position == fall(
                old(self).position,
                PLAYER_BULLET_SPEED as int,
                elapsed as int,
            ),
    {
        let v = Velocity::<PixelsPerMs>::new(PLAYER_BULLET_SPEED);
        self.position = drop_along(self.position, &v, elapsed);
    }
}

impl Basic {
    pub fn new(position: Position<Pixels>) -> (r: Self)
        ensures
            r.position == position,
    {
        Basic { position: position }
    }

    pub fn damage(&self) -> (r: HealthPoints)
        ensures
            r.spec_current() == ENEMY_BULLET_DAMAGE,
            r.spec_maximum() == ENEMY_BULLET_DAMAGE,
    {
        HealthPoints::new(ENEMY_BULLET_DAMAGE)
    }

    /// Moves the bullet downward for `elapsed` milliseconds.
    pub fn reposition(&mut self, elapsed: u32)
        ensures
            final(self).position == fall(
                old(self).position,
                ENEMY_BULLET_SPEED as int,
                elapsed as int,
            ),
    {
        let v = Velocity::<PixelsPerMs>::new(ENEMY_BULLET_SPEED);
        self.position = drop_along(self.position, &v, elapsed);
    }
}

impl Bullet {
    pub open spec fn spec_owner(self) -> Owner {
        match self {
            Bullet::Player(_) => Owner::Player,
            Bullet::EnemyBasic(_) => Owner::Enemy,
        }
    }

    pub open spec fn spec_position(self) -> Position<Pixels> {
        match self {
            Bullet::Player(b) => b.position,
            Bullet::EnemyBasic(b) => b.position,
        }
    }

    /// The hit points that the bullet takes from what it hits.
    pub open spec fn spec_damage(self) -> nat {
        match self {
            Bullet::Player(_) => PLAYER_BULLET_DAMAGE as nat,
            Bullet::EnemyBasic(_) => ENEMY_BULLET_DAMAGE as nat,
        }
    }

    pub open spec fn spec_dimensions(self) -> Dimensions<Pixels> {
        Dimensions { width: Pixels(BULLET_SIZE), height: Pixels(BULLET_SIZE) }
    }

    pub open spec fn spec_hitbox(self) -> Rect {
        hitbox(self.spec_position(), self.spec_dimensions())
    }

    /// Vertical motion, in units each millisecond.
    pub open spec fn spec_vertical_rate(self) -> int {
        match self {
            Bullet::Player(_) => PLAYER_BULLET_SPEED as int,
            Bullet::EnemyBasic(_) => ENEMY_BULLET_SPEED as int,
        }
    }

    /// The bullet moved to `pos`; owner and kind stay.
    pub open spec fn at(self, pos: Position<Pixels>) -> Bullet {
        match self {
            Bullet::Player(_) => Bullet::Player(PlayerBullet { position: pos }),
            Bullet::EnemyBasic(_) => Bullet::EnemyBasic(Basic { position: pos }),
        }
    }

    /// The bullet after `elapsed` milliseconds of flight.
    pub open spec fn moved(self, elapsed: int) -> Bullet {
        self.at(fall(self.spec_position(), self.spec_vertical_rate(), elapsed))
    }

    /// A bullet of the given owner and kind at `position`.
    pub open spec fn fresh(owner: Owner, kind: Kind, position: Position<Pixels>) -> Bullet {
        match owner {
            Owner::Player => Bullet::Player(PlayerBullet { position }),
            Owner::Enemy => Bullet::EnemyBasic(Basic { position }),
        }
    }

    /// A bullet of the given owner and kind at `position`.
    pub fn new(owner: Owner, kind: Kind, position: Position<Pixels>) -> (r: Self)
        ensures
            r == Bullet::fresh(owner, kind, position),
            r.spec_owner() == owner,
            r.spec_position() == position,
    {
        match (owner, kind) {
            (Owner::Player, Kind::Basic) => Bullet::Player(PlayerBullet::new(position)),
            (Owner::Enemy, Kind::Basic) => Bullet::EnemyBasic(Basic::new(position)),
        }
    }

    pub fn owner(&self) -> (r: Owner)
        ensures
            r == self.spec_owner(),
    {
        match self {
            Bullet::Player(_) => Owner::Player,
            Bullet::EnemyBasic(_) => Owner::Enemy,
        }
    }

    /// The same bullet moved to `pos`.
    pub fn placed_at(&self, pos: Position<Pixels>) -> (r: Bullet)
        ensures
            r == self.at(pos),
    {
        match self {
            Bullet::Player(_) => Bullet::Player(PlayerBullet::new(pos)),
            Bullet::EnemyBasic(_) => Bullet::EnemyBasic(Basic::new(pos)),
        }
    }

    pub fn kind(&self) -> (r: Kind)
        ensures
            r == Kind::Basic,
    {
        match self {
            Bullet::Player(_) => Kind::Basic,
            Bullet::EnemyBasic(_) => Kind::Basic,
        }
    }

    pub fn damage(&self) -> (r: HealthPoints)
        ensures
            r.spec_current() == self.spec_damage(),
            r.spec_maximum() == self.spec_damage(),
    {
        match self {
            Bullet::Player(bullet) => bullet.damage(),
            Bullet::EnemyBasic(bullet) => bullet.damage(),
        }
    }

    /// Moves the bullet for `elapsed` milliseconds at its own speed.
    pub fn reposition(&mut self, elapsed: u32)
        ensures
            *final(self) == old(self).moved(elapsed as int),
    {
        match self {
            Bullet::Player(bullet) => bullet.reposition(elapsed),
            Bullet::EnemyBasic(bullet) => bullet.reposition(elapsed),
        }
    }

    pub fn position(&self) -> (r: Position<Pixels>)
        ensures
            r == self.spec_position(),
    {
        match self {
            Bullet::Player(PlayerBullet { position }) => *position,
            Bullet::EnemyBasic(Basic { position }) => *position,
        }
    }

    pub fn hitbox_rect(&self) -> (r: Rect)
        ensures
            r == self.spec_hitbox(),
    {
        let pos = self.position();
        Rect::new(pos.x.value(), pos.y.value(), BULLET_SIZE, BULLET_SIZE)
    }
}

impl Object<Pixels> for Bullet {
    open spec fn spec_position(&self) -> Position<Pixels> {
        Bullet::spec_position(*self)
    }

    open spec fn spec_dimensions(&self) -> Dimensions<Pixels> {
        Bullet::spec_dimensions(*self)
    }

    fn position(&self) -> (r: Position<Pixels>) {
        Bullet::position(self)
    }

    fn dimensions(&self) -> (r: Dimensions<Pixels>) {
        Dimensions::new(Pixels(BULLET_SIZE), Pixels(BULLET_SIZE))
    }
}

impl Acceleration<PixelsPerMs> for Bullet {
    open spec fn spec_horizontal_rate(&self) -> int {
        0
    }

    open spec fn spec_vertical_rate(&self) -> int {
        Bullet::spec_vertical_rate(*self)
    }

    fn horizontal_velocity(&self, elapsed: u32) -> (r: Velocity<PixelsPerMs>) {
        no_motion()
    }

    fn vertical_velocity(&self, elapsed: u32) -> (r: Velocity<PixelsPerMs>) {
        match self {
            Bullet::Player(_) => Velocity::new(PLAYER_BULLET_SPEED),
            Bullet::EnemyBasic(_) => Velocity::new(ENEMY_BULLET_SPEED),
        }
    }
}

/// Flight adds up: a bullet flown for `first` and then `second` milliseconds
/// stands where one flown for `first + second` milliseconds does, and moves
/// by its speed times the time, as long as its coordinates stay within the
/// range of `i64`.
pub proof fn lemma_flight_adds_up(b: Bullet, first: nat, second: nat)
    requires
        i64::MIN <= b.spec_position().y.0 + b.spec_vertical_rate() * first <= i64::MAX,
        i64::MIN <= b.spec_position().y.0 + b.spec_vertical_rate() * (first + second) <= i64::MAX,
    ensures
        b.moved(first as int).moved(second as int) == b.moved((first + second) as int),
        b.moved((first + second) as int).spec_position().y.0 == b.spec_position().y.0 + b.spec_vertical_rate()
            * (first + second),
        b.moved((first + second) as int).spec_position().x == b.spec_position().x,
{
    let rate = b.spec_vertical_rate();
    assert(rate * first + rate * second == rate * (first + second)) by (nonlinear_arith);
}

} // verus!
