use vstd::prelude::*;

use crate::health::{Health, HealthPoints};
use crate::motion::{
    advance, hitbox, saturate, Acceleration, Dimensions, Direction, Object, Position, Rect,
    Velocity,
};
use crate::ui::UI;
use crate::units::{Pixels, PixelsPerMs, SUBPIXELS};

verus! {

/// Width of the player's ship: 24 pixels.
pub const PLAYER_WIDTH: i64 = 24 * SUBPIXELS;

/// Height of the player's ship: 32 pixels.
pub const PLAYER_HEIGHT: i64 = 32 * SUBPIXELS;

/// Hit points the player starts with.
pub const PLAYER_HEALTH: u32 = 250;

/// The player covers half a pixel each millisecond on each axis it moves along.
pub const PLAYER_SPEED: i32 = 4;

/// Distance between the player's starting top edge and the bottom of the
/// playfield: 64 pixels.
pub const PLAYER_START_LIFT: i64 = 64 * SUBPIXELS;

/// The player's state.
pub struct Player {
    pub position: Position<Pixels>,
    pub dimensions: Dimensions<Pixels>,
    pub(crate) horizontal_direction: Direction,
    pub(crate) vertical_direction: Direction,
    pub(crate) health: HealthPoints,
}

/// Whether a key went down or came up.
#[derive(Copy, Clone, PartialEq, Eq, Structural, Debug)]
pub enum KeyPress {
    Pressed,
    Released,
}

/// The keys that the game responds to; every other key is `Other`.
#[derive(Copy, Clone, PartialEq, Eq, Structural, Debug)]
pub enum KeyCode {
    Up,
    Down,
    Left,
    Right,
    Space,
    Other,
}

/// The various actions the player can take.
#[derive(Copy, Clone, PartialEq, Eq, Structural, Debug)]
pub enum Action {
    Move(Direction),
    StopMoving(Direction),
    Shoot,
}

/// The horizontal and vertical directions after `action`, starting from
/// `horizontal` and `vertical`.
pub open spec fn steer(horizontal: Direction, vertical: Direction, action: Action) -> (
    Direction,
    Direction,
) {
    match action {
        Action::Move(dir) => if dir.spec_is_horizontal() {
            (dir, vertical)
        } else if dir.spec_is_vertical() {
            (horizontal, dir)
        } else {
            (horizontal, vertical)
        },
        Action::StopMoving(dir) => if dir.spec_is_horizontal() {
            (Direction::Stationary, vertical)
        } else if dir.spec_is_vertical() {
            (horizontal, Direction::Stationary)
        } else {
            (horizontal, vertical)
        },
        Action::Shoot => (horizontal, vertical),
    }
}

/// The rate along the horizontal axis when heading `dir`, in units each
/// millisecond.
pub open spec fn horizontal_rate(dir: Direction) -> int {
    match dir {
        Direction::Right => PLAYER_SPEED as int,
        Direction::Left => -PLAYER_SPEED as int,
        _ => 0,
    }
}

/// The rate along the vertical axis when heading `dir`.
pub open spec fn vertical_rate(dir: Direction) -> int {
    match dir {
        Direction::Down => PLAYER_SPEED as int,
        Direction::Up => -PLAYER_SPEED as int,
        _ => 0,
    }
}

/// `coord` after `elapsed` milliseconds at `rate`.
pub open spec fn travel(coord: Pixels, rate: int, elapsed: int) -> Pixels {
    Pixels(saturate(coord.0 + rate * elapsed) as i64)
}

impl Player {
    pub open(crate) spec fn spec_horizontal(self) -> Direction {
        self.horizontal_direction
    }

    pub open(crate) spec fn spec_vertical(self) -> Direction {
        self.vertical_direction
    }

    pub open(crate) spec fn spec_hp(self) -> HealthPoints {
        self.health
    }

    pub open(crate) spec fn spec_hitbox(self) -> Rect {
        hitbox(self.position, self.dimensions)
    }

    /// The player after `action` and `elapsed` milliseconds of motion.
    pub open(crate) spec fn repositioned(self, action: Action, elapsed: int) -> Player {
        let (h, v) = steer(self.horizontal_direction, self.vertical_direction, action);
        Player {
            position: Position {
                x: travel(self.position.x, horizontal_rate(h), elapsed),
                y: travel(self.position.y, vertical_rate(v), elapsed),
            },
            horizontal_direction: h,
            vertical_direction: v,
            ..self
        }
    }

    /// The player at `pos`, all else the same.
    pub open(crate) spec fn placed(self, pos: Position<Pixels>) -> Player {
        Player { position: pos, ..self }
    }

    /// The player at rest, centred near the bottom of the playfield, at full health.
    pub open(crate) spec fn initial(ui: UI) -> Player {
        Player {
            position: Position {
                x: Pixels((ui.width * SUBPIXELS / 2 - PLAYER_WIDTH / 2) as i64),
                y: Pixels((ui.height * SUBPIXELS - PLAYER_START_LIFT) as i64),
            },
            dimensions: Dimensions { width: Pixels(PLAYER_WIDTH), height: Pixels(PLAYER_HEIGHT) },
            horizontal_direction: Direction::Stationary,
            vertical_direction: Direction::Stationary,
            health: HealthPoints { current: PLAYER_HEALTH, maximum: PLAYER_HEALTH },
        }
    }

    /// The player at rest, centred near the bottom of the playfield, at full health.
    pub fn new(ui: &UI) -> (r: Self)
        ensures
            r == Player::initial(*ui),
            r.spec_position().x.0 == ui.width * SUBPIXELS / 2 - PLAYER_WIDTH / 2,
            r.spec_position().y.0 == ui.height * SUBPIXELS - PLAYER_START_LIFT,
            r.spec_dimensions().width.0 == PLAYER_WIDTH,
            r.spec_dimensions().height.0 == PLAYER_HEIGHT,
            r.spec_horizontal() == Direction::Stationary,
            r.spec_vertical() == Direction::Stationary,
            r.spec_hp().spec_current() == PLAYER_HEALTH,
            r.spec_hp().spec_maximum() == PLAYER_HEALTH,
    {
        Player {
            position: Position::new(
                Pixels(ui.width as i64 * SUBPIXELS / 2 - PLAYER_WIDTH / 2),
                Pixels(ui.height as i64 * SUBPIXELS - PLAYER_START_LIFT),
            ),
            dimensions: Dimensions::new(Pixels(PLAYER_WIDTH), Pixels(PLAYER_HEIGHT)),
            horizontal_direction: Direction::Stationary,
            vertical_direction: Direction::Stationary,
            health: HealthPoints::new(PLAYER_HEALTH),
        }
    }

    /// Applies `action` to the player's heading, then moves the player along
    /// each axis for `elapsed` milliseconds.
    pub fn reposition(&mut self, action: Action, elapsed: u32)
        ensures
            *final(self) == old(self).repositioned(action, elapsed as int),
    {
        match action {
            Action::Move(dir) => {
                if dir.is_horizontal() {
                    self.horizontal_direction = dir;
                } else if dir.is_vertical() {
                    self.vertical_direction = dir;
                }
            },
            Action::StopMoving(dir) => {
                if dir.is_horizontal() {
                    self.horizontal_direction = Direction::Stationary;
                } else if dir.is_vertical() {
                    self.vertical_direction = Direction::Stationary;
                }
            },
            Action::Shoot => {},
        }
        let dx = self.horizontal_velocity(elapsed).distance(elapsed).0;
        let dy = self.vertical_velocity(elapsed).distance(elapsed).0;
        self.position = Position::new(
            Pixels(advance(self.position.x.value(), dx)),
            Pixels(advance(self.position.y.value(), dy)),
        );
    }

    pub fn hitbox_rect(&self) -> (r: Rect)
        ensures
            r == self.spec_hitbox(),
    {
        Rect::of(self.position, self.dimensions)
    }

    pub fn horizontal_direction(&self) -> (r: Direction)
        ensures
            r == self.spec_horizontal(),
    {
        self.horizontal_direction
    }

    pub fn vertical_direction(&self) -> (r: Direction)
        ensures
            r == self.spec_vertical(),
    {
        self.vertical_direction
    }
}

impl Health for Player {
    open(crate) spec fn spec_health(&self) -> HealthPoints {
        self.health
    }

    open(crate) spec fn can_heal(&self) -> bool {
        true
    }

    open(crate) spec fn with_health(&self, h: HealthPoints) -> Player {
        Player { health: h, ..*self }
    }

    fn health(&self) -> (r: HealthPoints) {
        self.health
    }

    fn restore_health(&mut self, amount: HealthPoints) -> (r: HealthPoints) {
        self.health = self.health + amount;
        self.health
    }

    fn take_damage(&mut self, amount: HealthPoints) -> (r: HealthPoints) {
        self.health = self.health - amount;
        self.health
    }
}

impl Object<Pixels> for Player {
    open(crate) spec fn spec_position(&self) -> Position<Pixels> {
        self.position
    }

    open(crate) spec fn spec_dimensions(&self) -> Dimensions<Pixels> {
        self.dimensions
    }

    fn position(&self) -> (r: Position<Pixels>) {
        self.position
    }

    fn dimensions(&self) -> (r: Dimensions<Pixels>) {
        self.dimensions
    }
}

impl Acceleration<PixelsPerMs> for Player {
    open(crate) spec fn spec_horizontal_rate(&self) -> int {
        horizontal_rate(self.horizontal_direction)
    }

    open(crate) spec fn spec_vertical_rate(&self) -> int {
        vertical_rate(self.vertical_direction)
    }

    fn horizontal_velocity(&self, elapsed: u32) -> (r: Velocity<PixelsPerMs>) {
        match self.horizontal_direction {
            Direction::Right => Velocity::new(PLAYER_SPEED),
            Direction::Left => Velocity::new(-PLAYER_SPEED),
            _ => Velocity::new(0),
        }
    }

    fn vertical_velocity(&self, elapsed: u32) -> (r: Velocity<PixelsPerMs>) {
        match self.vertical_direction {
            Direction::Down => Velocity::new(PLAYER_SPEED),
            Direction::Up => Velocity::new(-PLAYER_SPEED),
            _ => Velocity::new(0),
        }
    }
}

impl Action {
    /// The action that a key event stands for, if any: an arrow key starts or
    /// stops motion that way, and the space bar shoots.
    pub fn from_key_code(key_code: KeyCode, key: KeyPress) -> (r: Option<Self>)
        ensures
            r == match key_code {
                KeyCode::Up => Some(arrow_action(Direction::Up, key)),
                KeyCode::Down => Some(arrow_action(Direction::Down, key)),
                KeyCode::Left => Some(arrow_action(Direction::Left, key)),
                KeyCode::Right => Some(arrow_action(Direction::Right, key)),
                KeyCode::Space => Some(Action::Shoot),
                KeyCode::Other => None,
            },
    {
        let released = key == KeyPress::Released;
        let dir = match key_code {
            KeyCode::Up => Direction::Up,
            KeyCode::Down => Direction::Down,
            KeyCode::Left => Direction::Left,
            KeyCode::Right => Direction::Right,
            KeyCode::Space => {
                return Some(Action::Shoot);
            },
            KeyCode::Other => {
                return None;
            },
        };
        if released {
            Some(Action::StopMoving(dir))
        } else {
            Some(Action::Move(dir))
        }
    }
}

/// A press of the arrow key for `dir` starts motion that way; a release stops it.
pub open spec fn arrow_action(dir: Direction, key: KeyPress) -> Action {
    match key {
        KeyPress::Released => Action::StopMoving(dir),
        KeyPress::Pressed => Action::Move(dir),
    }
}

} // verus!
