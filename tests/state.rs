use shooter::bullets::{Bullet, Kind, Owner};
use shooter::enemies::Enemy;
use shooter::health::{Health, HealthPoints};
use shooter::motion::{Dimensions, Direction, Position};
use shooter::player::Action;
use shooter::state::State;
use shooter::ui::UI;
use shooter::units::{Pixels, SUBPIXELS};

fn at(x: i64, y: i64) -> Position<Pixels> {
    Position::new(Pixels(x * SUBPIXELS), Pixels(y * SUBPIXELS))
}

fn player_bullets(state: &State) -> Vec<Bullet> {
    state.bullets().iter().filter(|b| b.owner() == Owner::Player).cloned().collect()
}

fn enemy_at(x: i64, y: i64, hp: u32) -> Enemy {
    Enemy::new(
        at(x, y),
        Dimensions::new(Pixels(32 * SUBPIXELS), Pixels(44 * SUBPIXELS)),
        HealthPoints::new(hp),
        vec![Bullet::new(Owner::Enemy, Kind::Basic, at(16, 44))],
        0,
    )
}

#[test]
fn new_game_has_player_and_one_enemy() {
    let state = State::new(UI::new(600, 800), 0);
    assert_eq!(state.player().position, at(288, 736));
    assert_eq!(state.enemies().len(), 1);
    assert_eq!(state.enemies()[0].position, at(300, 20));
    assert_eq!(state.enemies()[0].health().current(), 100);
    assert!(state.bullets().is_empty());
    assert_eq!(state.last_tick_time(), 0);
    assert_eq!(state.ui(), UI::new(600, 800));
}

#[test]
fn shot_travels_up_and_leaves() {
    let mut state = State::new(UI::new(600, 800), 0);
    state.push_action(Action::Shoot);
    state.update(0);
    let mine = player_bullets(&state);
    assert_eq!(mine.len(), 1);
    assert_eq!(mine[0].kind(), Kind::Basic);
    assert_eq!(mine[0].position(), at(288, 736));

    state.update(1000);
    let mine = player_bullets(&state);
    assert_eq!(mine.len(), 1);
    assert_eq!(mine[0].position(), at(288, 736 - 500));
    assert_eq!(state.last_tick_time(), 1000);

    state.update(2600);
    assert!(player_bullets(&state).is_empty());
}

#[test]
fn shot_in_one_millisecond_ticks_moves() {
    let mut state = State::new(UI::new(600, 800), 0);
    state.push_action(Action::Shoot);
    state.update(1);
    let mine = player_bullets(&state);
    assert_eq!(mine.len(), 1);
    assert_eq!(mine[0].position().y, Pixels(736 * SUBPIXELS - 4));
    for t in 2..=10u64 {
        state.update(t);
    }
    let mine = player_bullets(&state);
    assert_eq!(mine[0].position().y, Pixels(736 * SUBPIXELS - 40));
    assert_eq!(mine[0].position().y.value(), (736 - 5) * SUBPIXELS);
}

#[test]
fn enemy_bullets_move_at_a_high_frame_rate() {
    let mut state = State::new(UI::new(600, 800), 0);
    state.update(500);
    assert_eq!(state.bullets().len(), 1);
    let start = state.bullets()[0].position().y.value();
    for t in 501..=507u64 {
        state.update(t);
    }
    assert_eq!(state.bullets()[0].position().y.value(), start + 7);
}

#[test]
fn shot_in_several_ticks_moves_the_same() {
    let mut state = State::new(UI::new(600, 800), 0);
    state.push_action(Action::Shoot);
    state.update(0);
    for t in 1..=10u64 {
        state.update(t * 100);
    }
    let mine = player_bullets(&state);
    assert_eq!(mine.len(), 1);
    assert_eq!(mine[0].position(), at(288, 236));
}

#[test]
fn enemy_hit_ten_times_is_removed() {
    let mut state = State::new(UI::new(600, 800), 0);
    for _ in 0..3 {
        state.add_bullet(Bullet::new(Owner::Player, Kind::Basic, at(305, 30)));
        state.update(0);
    }
    assert_eq!(state.enemies().len(), 1);
    assert_eq!(state.enemies()[0].health().current(), 70);
    assert!(player_bullets(&state).is_empty());

    state.add_bullet(Bullet::new(Owner::Player, Kind::Basic, at(305, 30)));
    state.update(0);
    assert_eq!(state.enemies()[0].health().current(), 60);

    for _ in 0..5 {
        state.add_bullet(Bullet::new(Owner::Player, Kind::Basic, at(305, 30)));
        state.update(0);
    }
    assert_eq!(state.enemies().len(), 1);
    assert_eq!(state.enemies()[0].health().current(), 10);

    state.add_bullet(Bullet::new(Owner::Player, Kind::Basic, at(305, 30)));
    state.update(0);
    assert!(state.enemies().is_empty());
}

#[test]
fn one_bullet_over_two_enemies_hits_both_and_goes_once() {
    let mut state = State::new(UI::new(600, 800), 0);
    state.add_enemy(enemy_at(310, 20, 100));
    state.add_bullet(Bullet::new(Owner::Player, Kind::Basic, at(315, 30)));
    state.add_bullet(Bullet::new(Owner::Player, Kind::Basic, at(500, 500)));
    let spent = state.connect_bullets_with_enemies();
    assert_eq!(spent, vec![0]);
    assert_eq!(state.enemies()[0].health().current(), 90);
    assert_eq!(state.enemies()[1].health().current(), 90);
    state.cleanup_spent_bullets(spent);
    assert_eq!(state.bullets().len(), 1);
    assert_eq!(state.bullets()[0].position(), at(500, 500));
}

#[test]
fn shared_hit_through_a_whole_tick() {
    let mut state = State::new(UI::new(600, 800), 0);
    state.add_enemy(enemy_at(310, 20, 100));
    state.add_bullet(Bullet::new(Owner::Player, Kind::Basic, at(315, 30)));
    state.add_bullet(Bullet::new(Owner::Player, Kind::Basic, at(100, 500)));
    state.update(0);
    assert_eq!(state.enemies()[0].health().current(), 90);
    assert_eq!(state.enemies()[1].health().current(), 90);
    assert_eq!(state.bullets().len(), 1);
    assert_eq!(state.bullets()[0].position(), at(100, 500));
}

#[test]
fn enemy_bullet_hurts_player() {
    let mut state = State::new(UI::new(600, 800), 0);
    state.add_bullet(Bullet::new(Owner::Enemy, Kind::Basic, at(290, 740)));
    state.add_bullet(Bullet::new(Owner::Enemy, Kind::Basic, at(10, 400)));
    let spent = state.connect_bullets_with_player();
    assert_eq!(spent, vec![0]);
    assert_eq!(state.player().health().current(), 245);
    state.cleanup_spent_bullets(spent);
    assert_eq!(state.bullets().len(), 1);
    assert_eq!(state.bullets()[0].position(), at(10, 400));
}

#[test]
fn players_own_bullets_do_not_hurt_player() {
    let mut state = State::new(UI::new(600, 800), 0);
    state.add_bullet(Bullet::new(Owner::Player, Kind::Basic, at(290, 740)));
    let spent = state.connect_bullets_with_player();
    assert!(spent.is_empty());
    assert_eq!(state.player().health().current(), 250);
}

#[test]
fn bullets_outside_playfield_are_culled() {
    let mut state = State::new(UI::new(600, 800), 0);
    state.add_bullet(Bullet::new(Owner::Enemy, Kind::Basic, at(-100, -100)));
    state.add_bullet(Bullet::new(Owner::Enemy, Kind::Basic, at(-20, 100)));
    state.add_bullet(Bullet::new(Owner::Enemy, Kind::Basic, at(600, 100)));
    state.add_bullet(Bullet::new(Owner::Enemy, Kind::Basic, at(-19, 100)));
    state.cleanup_out_of_bounds_bullets();
    assert_eq!(state.bullets().len(), 1);
    assert_eq!(state.bullets()[0].position(), at(-19, 100));
}

#[test]
fn falling_bullet_leaves_through_the_bottom() {
    let mut state = State::new(UI::new(600, 800), 0);
    state.add_bullet(Bullet::new(Owner::Enemy, Kind::Basic, at(10, 780)));
    state.update(0);
    assert_eq!(state.bullets().len(), 1);
    state.update(160);
    assert!(state.bullets().is_empty());
}

#[test]
fn player_is_clamped_into_playfield() {
    let mut state = State::new(UI::new(600, 800), 0);
    state.push_action(Action::Move(Direction::Left));
    state.push_action(Action::Move(Direction::Down));
    state.update(10_000);
    assert_eq!(state.player().position, at(0, 768));

    state.push_action(Action::Move(Direction::Right));
    state.push_action(Action::Move(Direction::Up));
    state.push_action(Action::Move(Direction::Up));
    state.update(20_000);
    assert_eq!(state.player().position, at(576, 0));
}

#[test]
fn clamp_keeps_player_already_inside() {
    let mut state = State::new(UI::new(600, 800), 0);
    state.position_player_in_game_space();
    assert_eq!(state.player().position, at(288, 736));
}

#[test]
fn input_queue_moves_player_then_empties() {
    let mut state = State::new(UI::new(600, 800), 0);
    state.push_action(Action::Move(Direction::Left));
    state.push_action(Action::Shoot);
    state.process_input_queue(20);
    assert_eq!(state.player().position, at(278, 736));
    assert_eq!(state.bullets().len(), 1);
    assert_eq!(state.bullets()[0].position(), at(278, 736));
    state.process_input_queue(20);
    assert_eq!(state.player().position, at(278, 736));
}

#[test]
fn enemies_fire_after_cooldown() {
    let mut state = State::new(UI::new(600, 800), 0);
    state.trigger_enemy_behaviours(499);
    assert!(state.bullets().is_empty());
    state.trigger_enemy_behaviours(500);
    assert_eq!(state.bullets().len(), 1);
    assert_eq!(state.bullets()[0].owner(), Owner::Enemy);
    assert_eq!(state.bullets()[0].position(), at(316, 64));
    state.trigger_enemy_behaviours(900);
    assert_eq!(state.bullets().len(), 1);
}

#[test]
fn tick_fires_and_moves_enemy_bullet() {
    let mut state = State::new(UI::new(600, 800), 0);
    state.update(800);
    assert_eq!(state.bullets().len(), 1);
    assert_eq!(state.bullets()[0].position(), at(316, 164));
}

#[test]
fn defeated_enemies_are_removed_in_order() {
    let mut state = State::new(UI::new(600, 800), 0);
    let mut dead = enemy_at(10, 10, 5);
    dead.take_damage(HealthPoints::new(5));
    state.add_enemy(dead);
    state.add_enemy(enemy_at(400, 10, 50));
    state.cleanup_defeated_enemies();
    assert_eq!(state.enemies().len(), 2);
    assert_eq!(state.enemies()[0].position, at(300, 20));
    assert_eq!(state.enemies()[1].position, at(400, 10));
}

#[test]
fn spent_indices_listed_twice_remove_one_bullet() {
    let mut state = State::new(UI::new(600, 800), 0);
    state.add_bullet(Bullet::new(Owner::Enemy, Kind::Basic, at(1, 1)));
    state.add_bullet(Bullet::new(Owner::Enemy, Kind::Basic, at(2, 2)));
    state.add_bullet(Bullet::new(Owner::Enemy, Kind::Basic, at(3, 3)));
    state.cleanup_spent_bullets(vec![1, 1, 7]);
    assert_eq!(state.bullets().len(), 2);
    assert_eq!(state.bullets()[0].position(), at(1, 1));
    assert_eq!(state.bullets()[1].position(), at(3, 3));
}

#[test]
fn update_bullets_moves_each_at_its_speed() {
    let mut state = State::new(UI::new(600, 800), 0);
    state.add_bullet(Bullet::new(Owner::Enemy, Kind::Basic, at(1, 100)));
    state.add_bullet(Bullet::new(Owner::Player, Kind::Basic, at(2, 100)));
    state.update_bullets(40);
    assert_eq!(state.bullets()[0].position(), at(1, 105));
    assert_eq!(state.bullets()[1].position(), at(2, 80));
}

#[test]
fn drained_enemy_goes_before_firing_and_others_keep_order() {
    let mut state = State::new(UI::new(600, 800), 0);
    let mut weak = enemy_at(100, 100, 10);
    weak.take_damage(HealthPoints::new(0));
    state.add_enemy(weak);
    state.add_enemy(enemy_at(400, 100, 40));
    state.add_bullet(Bullet::new(Owner::Player, Kind::Basic, at(105, 110)));
    state.add_bullet(Bullet::new(Owner::Player, Kind::Basic, at(405, 110)));
    state.update(600);
    assert_eq!(state.enemies().len(), 2);
    assert_eq!(state.enemies()[0].position, at(300, 20));
    assert_eq!(state.enemies()[1].position, at(400, 100));
    assert_eq!(state.enemies()[1].health().current(), 30);
    assert!(state.bullets().iter().all(|b| b.owner() == Owner::Enemy));
    assert_eq!(state.bullets().len(), 2);
}
