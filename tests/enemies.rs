use shooter::bullets::{Bullet, Kind, Owner};
use shooter::enemies::Enemy;
use shooter::health::HealthPoints;
use shooter::motion::{Dimensions, Object, Position, Rect};
use shooter::units::{Pixels, SUBPIXELS};

fn at(x: i64, y: i64) -> Position<Pixels> {
    Position::new(Pixels(x * SUBPIXELS), Pixels(y * SUBPIXELS))
}

fn two_gun_enemy(created: u64) -> Enemy {
    Enemy::new(
        at(100, 50),
        Dimensions::new(Pixels(32 * SUBPIXELS), Pixels(44 * SUBPIXELS)),
        HealthPoints::new(100),
        vec![
            Bullet::new(Owner::Enemy, Kind::Basic, at(0, 44)),
            Bullet::new(Owner::Enemy, Kind::Basic, at(32, 44)),
        ],
        created,
    )
}

#[test]
fn enemy_hitbox() {
    let e = two_gun_enemy(0);
    assert_eq!(e.hitbox_rect(), Rect::new(100 * SUBPIXELS, 50 * SUBPIXELS, 32 * SUBPIXELS, 44 * SUBPIXELS));
    assert_eq!(e.position(), at(100, 50));
}

#[test]
fn no_shot_before_cooldown() {
    let mut e = two_gun_enemy(1000);
    assert!(e.fire_bullet(1000).is_none());
    assert!(e.fire_bullet(1499).is_none());
    assert_eq!(e.current_bullet_index(), 0);
    assert_eq!(e.last_fired(), 1000);
}

#[test]
fn shot_at_cooldown_uses_offset_from_enemy() {
    let mut e = two_gun_enemy(1000);
    let b = e.fire_bullet(1500).expect("cooldown has run out");
    assert_eq!(b.owner(), Owner::Enemy);
    assert_eq!(b.position(), at(100, 94));
    assert_eq!(e.current_bullet_index(), 1);
    assert_eq!(e.last_fired(), 1500);
}

#[test]
fn two_calls_within_cooldown_fire_once() {
    let mut e = two_gun_enemy(0);
    let first = e.fire_bullet(600);
    let second = e.fire_bullet(1099);
    assert!(first.is_some());
    assert!(second.is_none());
}

#[test]
fn rotation_cycles_round_robin() {
    let mut e = two_gun_enemy(0);
    let a = e.fire_bullet(500).unwrap();
    let b = e.fire_bullet(1000).unwrap();
    let c = e.fire_bullet(1500).unwrap();
    assert_eq!(a.position(), at(100, 94));
    assert_eq!(b.position(), at(132, 94));
    assert_eq!(c.position(), at(100, 94));
    assert_eq!(e.current_bullet_index(), 1);
}

#[test]
fn clock_going_back_fires_nothing() {
    let mut e = two_gun_enemy(5000);
    assert!(e.fire_bullet(100).is_none());
    assert_eq!(e.last_fired(), 5000);
}
