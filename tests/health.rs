use shooter::enemies::Enemy;
use shooter::health::{Health, HealthPoints};
use shooter::motion::{Dimensions, Position};
use shooter::player::Player;
use shooter::ui::UI;
use shooter::units::{Pixels, SUBPIXELS};
use shooter::bullets::{Bullet, Kind, Owner};

fn sample_enemy(hp: u32) -> Enemy {
    Enemy::new(
        Position::new(Pixels(10 * SUBPIXELS), Pixels(10 * SUBPIXELS)),
        Dimensions::new(Pixels(32 * SUBPIXELS), Pixels(44 * SUBPIXELS)),
        HealthPoints::new(hp),
        vec![Bullet::new(Owner::Enemy, Kind::Basic, Position::new(Pixels(16 * SUBPIXELS), Pixels(44 * SUBPIXELS)))],
        0,
    )
}

#[test]
fn new_health_is_full() {
    let hp = HealthPoints::new(100);
    assert_eq!(hp.current(), 100);
    assert_eq!(hp.maximum(), 100);
    assert!(hp.full());
    assert!(!hp.empty());
}

#[test]
fn damage_lowers_current_and_keeps_maximum() {
    let hp = HealthPoints::new(20) - HealthPoints::new(5);
    assert_eq!(hp.current(), 15);
    assert_eq!(hp.maximum(), 20);
    assert!(!hp.full());
}

#[test]
fn damage_floors_at_zero() {
    let hp = HealthPoints::new(20) - HealthPoints::new(30);
    assert_eq!(hp.current(), 0);
    assert_eq!(hp.maximum(), 20);
    assert!(hp.empty());
}

#[test]
fn damage_equal_to_current_empties() {
    let hp = HealthPoints::new(7) - HealthPoints::new(7);
    assert!(hp.empty());
}

#[test]
fn restore_adds_up_to_maximum() {
    let hp = HealthPoints::new(100) - HealthPoints::new(40);
    let healed = hp + HealthPoints::new(25);
    assert_eq!(healed.current(), 85);
    assert_eq!(healed.maximum(), 100);
    let capped = healed + HealthPoints::new(100);
    assert_eq!(capped.current(), 100);
    assert!(capped.full());
}

#[test]
fn restore_with_huge_amount_does_not_overflow() {
    let hp = HealthPoints::new(u32::MAX) - HealthPoints::new(1);
    let healed = hp + HealthPoints::new(u32::MAX);
    assert_eq!(healed.current(), u32::MAX);
}

#[test]
fn player_heals_by_adding() {
    let mut player = Player::new(&UI::default());
    assert_eq!(player.health().current(), 250);
    let after_hit = player.take_damage(HealthPoints::new(50));
    assert_eq!(after_hit.current(), 200);
    let after_heal = player.restore_health(HealthPoints::new(30));
    assert_eq!(after_heal.current(), 230);
    assert_eq!(player.health().current(), 230);
    player.restore_health(HealthPoints::new(1000));
    assert_eq!(player.health().current(), 250);
}

#[test]
fn enemy_cannot_heal() {
    let mut enemy = sample_enemy(100);
    enemy.take_damage(HealthPoints::new(30));
    let after = enemy.restore_health(HealthPoints::new(30));
    assert_eq!(after.current(), 70);
    assert_eq!(enemy.health().current(), 70);
}

#[test]
fn enemy_damage_floors_at_zero() {
    let mut enemy = sample_enemy(8);
    let after = enemy.take_damage(HealthPoints::new(10));
    assert_eq!(after.current(), 0);
    assert!(enemy.health().empty());
}
