use shooter::health::Health;
use shooter::motion::{Direction, Position, Rect};
use shooter::player::{Action, KeyCode, KeyPress, Player};
use shooter::ui::UI;
use shooter::units::{Pixels, SUBPIXELS};

fn at(x: i64, y: i64) -> Position<Pixels> {
    Position::new(Pixels(x * SUBPIXELS), Pixels(y * SUBPIXELS))
}

#[test]
fn player_starts_centred_near_bottom() {
    let p = Player::new(&UI::new(600, 800));
    assert_eq!(p.position, at(288, 736));
    assert_eq!(p.dimensions.width, Pixels::whole(24));
    assert_eq!(p.dimensions.height, Pixels::whole(32));
    assert_eq!(p.health().current(), 250);
    assert_eq!(p.horizontal_direction(), Direction::Stationary);
    assert_eq!(p.vertical_direction(), Direction::Stationary);
    assert_eq!(p.hitbox_rect(), Rect::new(288 * SUBPIXELS, 736 * SUBPIXELS, 24 * SUBPIXELS, 32 * SUBPIXELS));
}

#[test]
fn move_right_goes_half_a_pixel_per_ms() {
    let mut p = Player::new(&UI::default());
    p.reposition(Action::Move(Direction::Right), 100);
    assert_eq!(p.position, at(338, 736));
    assert_eq!(p.horizontal_direction(), Direction::Right);
}

#[test]
fn diagonal_motion_moves_both_axes() {
    let mut p = Player::new(&UI::default());
    p.reposition(Action::Move(Direction::Left), 0);
    p.reposition(Action::Move(Direction::Up), 100);
    assert_eq!(p.position, at(238, 686));
}

#[test]
fn releasing_one_axis_keeps_the_other() {
    let mut p = Player::new(&UI::default());
    p.reposition(Action::Move(Direction::Right), 0);
    p.reposition(Action::Move(Direction::Down), 0);
    p.reposition(Action::StopMoving(Direction::Right), 20);
    assert_eq!(p.horizontal_direction(), Direction::Stationary);
    assert_eq!(p.vertical_direction(), Direction::Down);
    assert_eq!(p.position, at(288, 746));
}

#[test]
fn shoot_and_stationary_change_no_heading() {
    let mut p = Player::new(&UI::default());
    p.reposition(Action::Move(Direction::Stationary), 50);
    p.reposition(Action::Shoot, 50);
    assert_eq!(p.position, at(288, 736));
}

#[test]
fn keys_map_to_actions() {
    assert_eq!(
        Action::from_key_code(KeyCode::Up, KeyPress::Pressed),
        Some(Action::Move(Direction::Up))
    );
    assert_eq!(
        Action::from_key_code(KeyCode::Left, KeyPress::Released),
        Some(Action::StopMoving(Direction::Left))
    );
    assert_eq!(
        Action::from_key_code(KeyCode::Down, KeyPress::Pressed),
        Some(Action::Move(Direction::Down))
    );
    assert_eq!(
        Action::from_key_code(KeyCode::Right, KeyPress::Released),
        Some(Action::StopMoving(Direction::Right))
    );
    assert_eq!(Action::from_key_code(KeyCode::Space, KeyPress::Pressed), Some(Action::Shoot));
    assert_eq!(Action::from_key_code(KeyCode::Other, KeyPress::Pressed), None);
}

#[test]
fn one_millisecond_of_motion_is_not_lost() {
    let mut p = Player::new(&UI::new(600, 800));
    p.reposition(Action::Move(Direction::Right), 1);
    assert_eq!(p.position.x, Pixels(288 * SUBPIXELS + 4));
    p.reposition(Action::Move(Direction::Up), 1);
    assert_eq!(p.position.x, Pixels(288 * SUBPIXELS + 8));
    assert_eq!(p.position.y, Pixels(736 * SUBPIXELS - 4));
}
