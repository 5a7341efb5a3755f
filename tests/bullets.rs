use shooter::bullets::{Basic, Bullet, Kind, Owner, PlayerBullet};
use shooter::motion::{Acceleration, Object, Position, Rect};
use shooter::units::{Pixels, SUBPIXELS};

fn at(x: i64, y: i64) -> Position<Pixels> {
    Position::new(Pixels(x * SUBPIXELS), Pixels(y * SUBPIXELS))
}

#[test]
fn bullet_owner_and_damage() {
    let mine = Bullet::new(Owner::Player, Kind::Basic, at(1, 2));
    assert_eq!(mine.owner(), Owner::Player);
    assert_eq!(mine.kind(), Kind::Basic);
    assert_eq!(mine.damage().current(), 10);
    assert_eq!(mine.position(), at(1, 2));
    let theirs = Bullet::new(Owner::Enemy, Kind::Basic, at(3, 4));
    assert_eq!(theirs.owner(), Owner::Enemy);
    assert_eq!(theirs.damage().current(), 5);
    assert_eq!(PlayerBullet::new(at(0, 0)).damage().current(), 10);
    assert_eq!(Basic::new(at(0, 0)).damage().current(), 5);
}

#[test]
fn player_bullet_climbs_half_a_pixel_per_ms() {
    let mut b = Bullet::new(Owner::Player, Kind::Basic, at(288, 736));
    b.reposition(1000);
    assert_eq!(b.position(), at(288, 236));
    let mut raw = PlayerBullet::new(at(5, 100));
    raw.reposition(20);
    assert_eq!(raw.position, at(5, 90));
}

#[test]
fn enemy_bullet_falls_an_eighth_of_a_pixel_per_ms() {
    let mut b = Bullet::new(Owner::Enemy, Kind::Basic, at(316, 64));
    b.reposition(80);
    assert_eq!(b.position(), at(316, 74));
    let mut raw = Basic::new(at(0, 0));
    raw.reposition(800);
    assert_eq!(raw.position, at(0, 100));
}

#[test]
fn player_bullets_are_four_times_faster() {
    let mut mine = Bullet::new(Owner::Player, Kind::Basic, at(0, 1000));
    let mut theirs = Bullet::new(Owner::Enemy, Kind::Basic, at(0, 1000));
    mine.reposition(800);
    theirs.reposition(800);
    let start = 1000 * SUBPIXELS;
    assert_eq!(start - mine.position().y.value(), 4 * (theirs.position().y.value() - start));
}

#[test]
fn bullet_hitbox_is_twenty_square() {
    let b = Bullet::new(Owner::Player, Kind::Basic, at(7, 9));
    assert_eq!(b.hitbox_rect(), Rect::new(7 * SUBPIXELS, 9 * SUBPIXELS, 20 * SUBPIXELS, 20 * SUBPIXELS));
    assert_eq!(b.dimensions().width, Pixels::whole(20));
}

#[test]
fn bullets_never_move_sideways() {
    let b = Bullet::new(Owner::Enemy, Kind::Basic, at(7, 9));
    assert_eq!(b.horizontal_velocity(100).distance(100), Pixels(0));
    assert_eq!(b.vertical_velocity(16).distance(16), Pixels::whole(2));
}

#[test]
fn placing_a_bullet_keeps_its_owner() {
    let b = Bullet::new(Owner::Enemy, Kind::Basic, at(1, 1));
    let moved = b.placed_at(at(50, 60));
    assert_eq!(moved.owner(), Owner::Enemy);
    assert_eq!(moved.position(), at(50, 60));
}

#[test]
fn one_millisecond_moves_a_player_bullet() {
    let mut b = PlayerBullet::new(at(288, 736));
    b.reposition(1);
    assert_eq!(b.position.y, Pixels(736 * SUBPIXELS - 4));
    assert_eq!(b.position.x, Pixels(288 * SUBPIXELS));
}

#[test]
fn one_millisecond_moves_an_enemy_bullet() {
    let mut b = Basic::new(at(10, 10));
    b.reposition(1);
    assert_eq!(b.position.y, Pixels(10 * SUBPIXELS + 1));
}

#[test]
fn flight_adds_up_over_short_calls() {
    let mut split = Bullet::new(Owner::Player, Kind::Basic, at(100, 700));
    let mut whole = split;
    for _ in 0..7 {
        split.reposition(1);
    }
    whole.reposition(7);
    assert_eq!(split.position(), whole.position());
    assert_eq!(whole.position().y, Pixels(700 * SUBPIXELS - 28));
}
