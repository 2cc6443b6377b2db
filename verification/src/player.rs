//! A player: where it stands, how it moves, what it carries, and the rules
//! of one frame of movement.
//!
//! Movement is settled one axis at a time. A step along x that would touch a
//! blocking cell stops the player on that axis only, and likewise along y,
//! so that a player pushed against a wall slides along it.

use vstd::prelude::*;
use crate::fan::cast_fan;
use crate::fan::count_rays;
use crate::fan::fan_angle;
use crate::fan::ray_count;
use crate::fixed::clamp_i32;
use crate::fixed::clamped;
use crate::fixed::div_toward_zero;
use crate::fixed::div_trunc;
use crate::fixed::floor_sqrt;
use crate::fixed::isqrt;
use crate::fixed::lemma_div_toward_zero_is_small;
use crate::fixed::over_frame;
use crate::fixed::scale_by_frame;
use crate::fixed::QUARTER_TURN;
use crate::fixed::TILE_SIZE;
use crate::geometry::Point;
use crate::geometry::Rect;
use crate::items::Backpack;
use crate::items::Clothes;
use crate::items::Gun;
use crate::tile_map::Grid;
use crate::tile_map::TileMap;

verus! {

/// The top speed of a sprinting player, in milli-units for each frame.
pub const SPRINTING_VELOCITY: i32 = 420;

/// The top speed of a walking player, in milli-units for each frame.
pub const WALKING_VELOCITY: i32 = 260;

/// What a held key adds to the speed in a frame.
pub const PLAYER_ACC: i32 = 100;

/// What a released key takes from the speed in a frame.
pub const PLAYER_DEACC: i32 = 50;

/// A full bar of stamina, in thousandths.
pub const MAX_STAMINA: i32 = 100_000;

/// The stamina at which a worn-out player can sprint again.
pub const MIN_STAMINA_FOR_SPRINTING: i32 = 10_000;

/// The stamina that comes back in a frame.
pub const STAMINA_REGEN: i32 = 70;

/// The stamina that sprinting costs in a frame.
pub const STAMINA_COST: i32 = 180;

/// The stamina that aiming costs in a frame.
pub const STAMINA_AIMING_COST: i32 = 100;

/// Half the side of a player's hitbox, in milli-units.
pub const HITBOX_HALF: u16 = 2350;

/// How far from the corner of its cell a new player stands, in milli-units.
pub const SPAWN_INSET: i32 = 500;

/// Who steers a player.
#[derive(Clone, Copy, Debug, PartialEq, Eq, Structural)]
pub enum PlayerController {
    User,
    Nobody,
}

/// How a player moves.
#[derive(Clone, Copy, Debug, PartialEq, Eq, Structural)]
pub enum PlayerMovementState {
    Idle,
    Walking,
    Sprinting,
}

/// Whether a player has the stamina to sprint.
#[derive(Clone, Copy, Debug, PartialEq, Eq, Structural)]
pub enum PlayerStaminaState {
    Normal,
    Recovering,
}

/// What a player carries.
#[derive(Clone, Copy, Debug)]
pub struct Inventory {
    pub clothes: Clothes,
    pub backpack: Backpack,
    pub gun: Gun,
}

/// What the keys and buttons say in one frame.
#[derive(Clone, Copy, Debug, PartialEq, Eq, Structural)]
pub struct InputSnapshot {
    pub up: bool,
    pub down: bool,
    pub left: bool,
    pub right: bool,
    pub sprint: bool,
    pub aim: bool,
    pub fire: bool,
    pub pick_shotgun: bool,
    pub pick_sniper: bool,
    pub wear_blue: bool,
    pub wear_dark: bool,
    pub wear_red: bool,
    pub carry_black: bool,
    pub carry_brown: bool,
}

/// A player. Position in milli-units, velocity in milli-units for each
/// frame, health and stamina in thousandths, angle in micro-radians.
#[derive(Clone, Copy, Debug)]
pub struct Player {
    pub pos: Point,
    pub vel: Point,
    pub health: i32,
    pub stamina: i32,
    pub angle: i32,
    pub movement_state: PlayerMovementState,
    pub stamina_state: PlayerStaminaState,
    pub inventory: Inventory,
    pub controller: PlayerController,
}

/// A speed after the two keys of its axis have had their say: the key
/// towards less takes `PLAYER_ACC`, the key towards more adds it.
pub open spec fn pushed(v: int, less: bool, more: bool) -> int {
    v - (if less {
        PLAYER_ACC as int
    } else {
        0
    }) + (if more {
        PLAYER_ACC as int
    } else {
        0
    })
}

/// A velocity held to a top speed: where it is faster, it is scaled down
/// to the top speed, each component rounded towards zero; the length it is
/// divided by is rounded down.
pub open spec fn capped(vx: int, vy: int, top: int) -> (int, int) {
    if vx * vx + vy * vy > top * top {
        let length = floor_sqrt(vx * vx + vy * vy);
        (div_toward_zero(vx * top, length), div_toward_zero(vy * top, length))
    } else {
        (vx, vy)
    }
}

/// A speed after a frame without its key: it loses `PLAYER_DEACC` towards
/// zero and stops at zero. `less` and `more` say which keys are held.
pub open spec fn slowed(v: int, less: bool, more: bool) -> int {
    if v > 0 && !more {
        if v - PLAYER_DEACC > 0 {
            v - PLAYER_DEACC
        } else {
            0
        }
    } else if v < 0 && !less {
        if v + PLAYER_DEACC < 0 {
            v + PLAYER_DEACC
        } else {
            0
        }
    } else {
        v
    }
}

/// Stamina after a cost: never below nothing.
pub open spec fn drained(stamina: int, cost: int) -> int {
    if stamina - cost > 0 {
        stamina - cost
    } else {
        0
    }
}

impl InputSnapshot {
    /// Whether a key that moves the player is held.
    pub open spec fn moving(self) -> bool {
        self.up || self.down || self.left || self.right
    }

    /// A frame in which nothing is pressed.
    pub fn idle() -> (input: InputSnapshot)
        ensures
            input == (InputSnapshot {
                up: false,
                down: false,
                left: false,
                right: false,
                sprint: false,
                aim: false,
                fire: false,
                pick_shotgun: false,
                pick_sniper: false,
                wear_blue: false,
                wear_dark: false,
                wear_red: false,
                carry_black: false,
                carry_brown: false,
            }),
    {
        InputSnapshot {
            up: false,
            down: false,
            left: false,
            right: false,
            sprint: false,
            aim: false,
            fire: false,
            pick_shotgun: false,
            pick_sniper: false,
            wear_blue: false,
            wear_dark: false,
            wear_red: false,
            carry_black: false,
            carry_brown: false,
        }
    }
}

impl Player {
    /// The player as it is put into cell `(grid_x, grid_y)`.
    pub open spec fn spawned(grid_x: u16, grid_y: u16) -> Player {
        Player {
            pos: Point {
                x: (grid_x * TILE_SIZE + SPAWN_INSET) as i32,
                y: (grid_y * TILE_SIZE + SPAWN_INSET) as i32,
            },
            vel: Point { x: 0, y: 0 },
            health: 100_000,
            stamina: MAX_STAMINA,
            angle: 0,
            movement_state: PlayerMovementState::Idle,
            stamina_state: PlayerStaminaState::Normal,
            inventory: Inventory {
                clothes: Clothes::red(),
                backpack: Backpack::brown(),
                gun: Gun::shotgun(),
            },
            controller: PlayerController::Nobody,
        }
    }

    /// Whether the player aims: only a player that the user steers can.
    pub open spec fn aiming(self, input: InputSnapshot) -> bool {
        self.controller == PlayerController::User && input.aim
    }

    /// The way the player faces, in micro-radians: a quarter turn on from
    /// the angle by which its picture is turned.
    pub open spec fn facing(self) -> int {
        clamped(self.angle + QUARTER_TURN, i32::MIN as int, i32::MAX as int)
    }

    /// The square around the player that can be hit.
    pub open spec fn hitbox(self) -> Rect {
        Rect::around(self.pos, HITBOX_HALF as int)
    }

    /// The speed that the player may not exceed.
    pub open spec fn top_speed(self) -> int {
        if self.movement_state == PlayerMovementState::Sprinting && self.stamina_state
            == PlayerStaminaState::Normal {
            SPRINTING_VELOCITY as int
        } else {
            WALKING_VELOCITY as int
        }
    }

    /// The player after the keys have set how it moves.
    pub open spec fn with_movement_state(self, input: InputSnapshot) -> Player {
        Player {
            movement_state: if input.moving() && input.sprint {
                PlayerMovementState::Sprinting
            } else if input.moving() {
                PlayerMovementState::Walking
            } else {
                PlayerMovementState::Idle
            },
            ..self
        }
    }

    /// The player after the keys have pushed it, its top speed has held it,
    /// and the axes without a key have slowed down.
    pub open spec fn with_velocity(self, input: InputSnapshot) -> Player {
        let held = capped(
            pushed(self.vel.x as int, input.left, input.right),
            pushed(self.vel.y as int, input.up, input.down),
            self.top_speed(),
        );
        Player {
            vel: Point {
                x: slowed(held.0, input.left, input.right) as i32,
                y: slowed(held.1, input.up, input.down) as i32,
            },
            ..self
        }
    }

    /// The player after the grid has had its say: on each axis on which the
    /// step of this frame would bring the hitbox to touch a blocking cell,
    /// the speed is nothing.
    pub open spec fn with_collisions(self, grid: Grid, frame: u32) -> Player {
        Player {
            vel: Point {
                x: if grid.rect_hits(
                    self.hitbox().moved(over_frame(self.vel.x as int, frame as int), 0),
                ) {
                    0
                } else {
                    self.vel.x
                },
                y: if grid.rect_hits(
                    self.hitbox().moved(0, over_frame(self.vel.y as int, frame as int)),
                ) {
                    0
                } else {
                    self.vel.y
                },
            },
            ..self
        }
    }

    /// The stamina after a frame: sprinting and aiming cost, rest gives
    /// back.
    pub open spec fn stamina_after(self, input: InputSnapshot, frame: u32) -> int {
        let sprinting = self.movement_state == PlayerMovementState::Sprinting
            && self.stamina_state == PlayerStaminaState::Normal;
        let after_sprint = if sprinting {
            drained(self.stamina as int, over_frame(STAMINA_COST as int, frame as int))
        } else {
            self.stamina as int
        };
        let after_aim = if self.aiming(input) {
            drained(after_sprint, over_frame(STAMINA_AIMING_COST as int, frame as int))
        } else {
            after_sprint
        };
        let rested = after_aim + over_frame(STAMINA_REGEN as int, frame as int);
        if rested > MAX_STAMINA {
            MAX_STAMINA as int
        } else {
            rested
        }
    }

    /// Whether the costs of a frame leave the player without stamina.
    pub open spec fn worn_out(self, input: InputSnapshot, frame: u32) -> bool {
        let sprinting = self.movement_state == PlayerMovementState::Sprinting
            && self.stamina_state == PlayerStaminaState::Normal;
        let after_sprint = if sprinting {
            drained(self.stamina as int, over_frame(STAMINA_COST as int, frame as int))
        } else {
            self.stamina as int
        };
        let after_aim = if self.aiming(input) {
            drained(after_sprint, over_frame(STAMINA_AIMING_COST as int, frame as int))
        } else {
            after_sprint
        };
        after_aim <= 0
    }

    /// The player after a frame of stamina: worn out, it recovers until it
    /// has the stamina to sprint again.
    pub open spec fn with_stamina(self, input: InputSnapshot, frame: u32) -> Player {
        let stamina = self.stamina_after(input, frame);
        Player {
            stamina: stamina as i32,
            stamina_state: if stamina >= MIN_STAMINA_FOR_SPRINTING {
                PlayerStaminaState::Normal
            } else if self.worn_out(input, frame) {
                PlayerStaminaState::Recovering
            } else {
                self.stamina_state
            },
            ..self
        }
    }

    /// The player after the keys that pick a gun.
    pub open spec fn with_gun(self, input: InputSnapshot) -> Player {
        Player {
            inventory: Inventory {
                gun: if input.pick_sniper {
                    Gun::rifle()
                } else if input.pick_shotgun {
                    Gun::shotgun()
                } else {
                    self.inventory.gun
                },
                ..self.inventory
            },
            ..self
        }
    }

    /// The player after the keys that pick clothes and a backpack.
    pub open spec fn with_clothes(self, input: InputSnapshot) -> Player {
        Player {
            inventory: Inventory {
                clothes: if input.wear_red {
                    Clothes::red()
                } else if input.wear_dark {
                    Clothes::dark()
                } else if input.wear_blue {
                    Clothes::blue()
                } else {
                    self.inventory.clothes
                },
                backpack: if input.carry_brown {
                    Backpack::brown()
                } else if input.carry_black {
                    Backpack::black()
                } else {
                    self.inventory.backpack
                },
                ..self.inventory
            },
            ..self
        }
    }

    /// The player after its velocity has moved it for a frame.
    pub open spec fn with_step(self, frame: u32) -> Player {
        Player {
            pos: self.pos.moved(
                over_frame(self.vel.x as int, frame as int),
                over_frame(self.vel.y as int, frame as int),
            ),
            ..self
        }
    }

    /// The player after one frame. A player that nobody steers stays as it
    /// is.
    pub open spec fn updated(self, input: InputSnapshot, grid: Grid, frame: u32, aim: i32) -> Player {
        if self.controller == PlayerController::User {
            Player {
                angle: aim,
                ..self.with_movement_state(input).with_velocity(input).with_collisions(
                    grid,
                    frame,
                ).with_stamina(input, frame).with_gun(input).with_clothes(input).with_step(frame)
            }
        } else {
            self
        }
    }

    /// A player in cell `(grid_x, grid_y)`: at rest, in full health, in red
    /// clothes with a brown backpack and a shotgun, steered by nobody.
    pub fn new(grid_x: u16, grid_y: u16) -> (player: Player)
        ensures
            player == Player::spawned(grid_x, grid_y),
    {
        Player {
            pos: Point {
                x: (grid_x as i32) * TILE_SIZE + SPAWN_INSET,
                y: (grid_y as i32) * TILE_SIZE + SPAWN_INSET,
            },
            vel: Point { x: 0, y: 0 },
            health: 100_000,
            stamina: MAX_STAMINA,
            angle: 0,
            movement_state: PlayerMovementState::Idle,
            stamina_state: PlayerStaminaState::Normal,
            inventory: Inventory {
                clothes: Clothes::red_clothes(),
                backpack: Backpack::brown_backpack(),
                gun: Gun::sawed_shotgun(),
            },
            controller: PlayerController::Nobody,
        }
    }

    /// One frame of a player: the keys set how it moves and how fast, the
    /// grid stops it where it would walk into a wall, stamina is spent and
    /// won, the inventory follows the keys, the player moves, and it turns
    /// to `aim`, the angle towards the pointer. `frame` is the length of the
    /// frame in thousandths of a sixtieth of a second.
    pub fn update(&mut self, input: &InputSnapshot, tile_map: &TileMap, frame: u32, aim: i32)
        ensures
            *final(self) == old(self).updated(*input, tile_map@, frame, aim),
    {
        match self.controller {
            PlayerController::User => {
                self.handle_movement_state(input);
                self.handle_velocity(input);
                self.handle_collisions(tile_map, frame);
                self.handle_stamina(input, frame);
                self.handle_gun_controls(input);
                self.handle_clothes_controls(input);
                self.apply_velocity(frame);
                self.angle = aim;
            },
            PlayerController::Nobody => {},
        }
    }

    /// Picks the gun that the keys ask for.
    pub fn handle_gun_controls(&mut self, input: &InputSnapshot)
        ensures
            *final(self) == old(self).with_gun(*input),
    {
        if input.pick_shotgun {
            self.inventory.gun = Gun::sawed_shotgun();
        }
        if input.pick_sniper {
            self.inventory.gun = Gun::sniper();
        }
    }

    /// Picks the clothes and the backpack that the keys ask for.
    pub fn handle_clothes_controls(&mut self, input: &InputSnapshot)
        ensures
            *final(self) == old(self).with_clothes(*input),
    {
        if input.wear_blue {
            self.inventory.clothes = Clothes::blue_clothes();
        }
        if input.wear_dark {
            self.inventory.clothes = Clothes::dark_clothes();
        }
        if input.wear_red {
            self.inventory.clothes = Clothes::red_clothes();
        }
        if input.carry_black {
            self.inventory.backpack = Backpack::black_backpack();
        }
        if input.carry_brown {
            self.inventory.backpack = Backpack::brown_backpack();
        }
    }

    /// Sets the velocity from the keys: each held key pushes, the top speed
    /// holds, and an axis without its key slows down.
    pub fn handle_velocity(&mut self, input: &InputSnapshot)
        ensures
            *final(self) == old(self).with_velocity(*input),
    {
        let top: i64 = if self.movement_state == PlayerMovementState::Sprinting
            && self.stamina_state == PlayerStaminaState::Normal {
            SPRINTING_VELOCITY as i64
        } else {
            WALKING_VELOCITY as i64
        };
        let mut vx: i64 = self.vel.x as i64;
        let mut vy: i64 = self.vel.y as i64;
        if input.up {
            vy = vy - PLAYER_ACC as i64;
        }
        if input.down {
            vy = vy + PLAYER_ACC as i64;
        }
        if input.left {
            vx = vx - PLAYER_ACC as i64;
        }
        if input.right {
            vx = vx + PLAYER_ACC as i64;
        }
        assert(vx == pushed(old(self).vel.x as int, input.left, input.right));
        assert(vy == pushed(old(self).vel.y as int, input.up, input.down));
        assert(0 <= vx * vx <= 0x8000_0064 * 0x8000_0064) by (nonlinear_arith)
            requires
                -0x8000_0064 <= vx <= 0x8000_0064,
        ;
        assert(0 <= vy * vy <= 0x8000_0064 * 0x8000_0064) by (nonlinear_arith)
            requires
                -0x8000_0064 <= vy <= 0x8000_0064,
        ;
        assert(0 < top * top <= 420 * 420) by (nonlinear_arith)
            requires
                0 < top <= 420,
        ;
        let square: u64 = (vx * vx) as u64 + (vy * vy) as u64;
        if square > (top * top) as u64 {
            let length: u32 = isqrt(square);
            proof {
                let l = length as int;
                assert(l >= 1) by (nonlinear_arith)
                    requires
                        square < (l + 1) * (l + 1),
                        square >= 1,
                        l >= 0,
                ;
                assert(-l <= vx <= l && -l <= vy <= l) by (nonlinear_arith)
                    requires
                        square == vx * vx + vy * vy,
                        square < (l + 1) * (l + 1),
                        l >= 0,
                ;
                assert(-top * l <= vx * top <= top * l && -top * l <= vy * top <= top * l)
                    by (nonlinear_arith)
                    requires
                        -l <= vx <= l,
                        -l <= vy <= l,
                        top > 0,
                ;
                lemma_div_toward_zero_is_small(vx * top, l, top as int);
                lemma_div_toward_zero_is_small(vy * top, l, top as int);
                assert(-0x8000_0064 * 420 <= vx * top <= 0x8000_0064 * 420) by (nonlinear_arith)
                    requires
                        -0x8000_0064 <= vx <= 0x8000_0064,
                        0 < top <= 420,
                ;
                assert(-0x8000_0064 * 420 <= vy * top <= 0x8000_0064 * 420) by (nonlinear_arith)
                    requires
                        -0x8000_0064 <= vy <= 0x8000_0064,
                        0 < top <= 420,
                ;
            }
            let held_x: i128 = div_trunc((vx * top) as i128, length as i128);
            let held_y: i128 = div_trunc((vy * top) as i128, length as i128);
            vx = held_x as i64;
            vy = held_y as i64;
        }
        if vx > 0 && !input.right {
            vx = if vx - PLAYER_DEACC as i64 > 0 {
                vx - PLAYER_DEACC as i64
            } else {
                0
            };
        }
        if vy > 0 && !input.down {
            vy = if vy - PLAYER_DEACC as i64 > 0 {
                vy - PLAYER_DEACC as i64
            } else {
                0
            };
        }
        if vx < 0 && !input.left {
            vx = if vx + (PLAYER_DEACC as i64) < 0 {
                vx + PLAYER_DEACC as i64
            } else {
                0
            };
        }
        if vy < 0 && !input.up {
            vy = if vy + (PLAYER_DEACC as i64) < 0 {
                vy + PLAYER_DEACC as i64
            } else {
                0
            };
        }
        self.vel = Point { x: vx as i32, y: vy as i32 };
    }

    /// Spends and wins the stamina of a frame.
    pub fn handle_stamina(&mut self, input: &InputSnapshot, frame: u32)
        ensures
            *final(self) == old(self).with_stamina(*input, frame),
    {
        let mut stamina: i64 = self.stamina as i64;
        if self.movement_state == PlayerMovementState::Sprinting && self.stamina_state
            == PlayerStaminaState::Normal {
            let cost: i64 = scale_by_frame(STAMINA_COST, frame);
            stamina = if stamina - cost > 0 {
                stamina - cost
            } else {
                0
            };
        }
        if self.is_aiming(input) {
            let cost: i64 = scale_by_frame(STAMINA_AIMING_COST, frame);
            stamina = if stamina - cost > 0 {
                stamina - cost
            } else {
                0
            };
        }
        if stamina <= 0 {
            self.stamina_state = PlayerStaminaState::Recovering;
        }
        proof {
            lemma_div_toward_zero_is_small(STAMINA_REGEN * frame, 1000, STAMINA_REGEN * frame);
            lemma_div_toward_zero_is_small(STAMINA_COST * frame, 1000, STAMINA_COST * frame);
            lemma_div_toward_zero_is_small(
                STAMINA_AIMING_COST * frame,
                1000,
                STAMINA_AIMING_COST * frame,
            );
        }
        let rested: i64 = stamina + scale_by_frame(STAMINA_REGEN, frame);
        stamina = if rested > MAX_STAMINA as i64 {
            MAX_STAMINA as i64
        } else {
            rested
        };
        if stamina >= MIN_STAMINA_FOR_SPRINTING as i64 {
            self.stamina_state = PlayerStaminaState::Normal;
        }
        self.stamina = stamina as i32;
    }

    /// Sets how the player moves from the keys: sprinting with a movement
    /// key and the sprint key, walking with a movement key alone, else idle.
    pub fn handle_movement_state(&mut self, input: &InputSnapshot)
        ensures
            *final(self) == old(self).with_movement_state(*input),
    {
        let moving: bool = Player::is_moving(input);
        self.movement_state = if moving && input.sprint {
            PlayerMovementState::Sprinting
        } else if moving {
            PlayerMovementState::Walking
        } else {
            PlayerMovementState::Idle
        };
    }

    /// Moves the player by its velocity for a frame.
    pub fn apply_velocity(&mut self, frame: u32)
        ensures
            *final(self) == old(self).with_step(frame),
    {
        let dx: i64 = scale_by_frame(self.vel.x, frame);
        let dy: i64 = scale_by_frame(self.vel.y, frame);
        self.pos = self.pos.offset(dx as i128, dy as i128);
    }

    /// Turns the player to `bearing`, the angle towards what it is to face.
    pub fn turn_to_face(&mut self, bearing: i32)
        ensures
            *final(self) == (Player { angle: bearing, ..*old(self) }),
    {
        self.angle = bearing;
    }

    /// Whether a key that moves the player is held.
    pub fn is_moving(input: &InputSnapshot) -> (moving: bool)
        ensures
            moving == input.moving(),
    {
        input.up || input.down || input.left || input.right
    }

    /// Whether the player aims.
    pub fn is_aiming(&self, input: &InputSnapshot) -> (aiming: bool)
        ensures
            aiming == self.aiming(*input),
    {
        match self.controller {
            PlayerController::User => input.aim,
            PlayerController::Nobody => false,
        }
    }

    /// The angles of the rays by which the player sees: a fan over a field
    /// of view of `fov` micro-radians around the way it faces, with as many
    /// rays as the field, the reach `line_length` in milli-units and the
    /// `density` in thousandths of a ray ask for.
    pub fn get_player_rays(&self, fov: u32, line_length: u32, density: u32) -> (angles: Vec<i64>)
        ensures
            angles@.len() == ray_count(fov, line_length, density),
            forall|i: int|
                0 <= i < angles@.len() ==> #[trigger] angles@[i] == fan_angle(
                    self.facing(),
                    fov as int,
                    ray_count(fov, line_length, density),
                    i,
                ),
    {
        let count: u64 = count_rays(fov, line_length, density);
        let facing: i32 = clamp_i32(self.angle as i128 + QUARTER_TURN as i128);
        cast_fan(facing, fov, count)
    }

    /// The square around the player that can be hit: `HITBOX_HALF` to each
    /// side of where it stands.
    pub fn get_hitbox(&self) -> (hitbox: Rect)
        ensures
            hitbox == self.hitbox(),
    {
        Rect::centered(self.pos, HITBOX_HALF)
    }

    /// Stops the player on each axis on which its step of this frame would
    /// bring its hitbox to touch a blocking cell. The two axes are tried
    /// apart, each from where the player stands.
    pub fn handle_collisions(&mut self, tile_map: &TileMap, frame: u32)
        ensures
            *final(self) == old(self).with_collisions(tile_map@, frame),
    {
        let hitbox: Rect = self.get_hitbox();
        let dx: i64 = scale_by_frame(self.vel.x, frame);
        let dy: i64 = scale_by_frame(self.vel.y, frame);
        let blocked_x: bool = tile_map.rect_collides_with_tile(hitbox.offset(dx, 0));
        let blocked_y: bool = tile_map.rect_collides_with_tile(hitbox.offset(0, dy));
        if blocked_x {
            self.vel.x = 0;
        }
        if blocked_y {
            self.vel.y = 0;
        }
    }

    /// Puts the player into cell `(grid_x, grid_y)`.
    pub fn _tp_grid(&mut self, grid_x: u16, grid_y: u16)
        ensures
            *final(self) == (Player { pos: Player::spawned(grid_x, grid_y).pos, ..*old(self) }),
    {
        self.pos = Point {
            x: (grid_x as i32) * TILE_SIZE + SPAWN_INSET,
            y: (grid_y as i32) * TILE_SIZE + SPAWN_INSET,
        };
    }

    /// Puts the player at `pos`.
    pub fn _tp(&mut self, pos: Point)
        ensures
            *final(self) == (Player { pos, ..*old(self) }),
    {
        self.pos = pos;
    }
}

} // verus!
