//! What flies and lies about in the world: bullets, grenades, and the other
//! players, with the rules of one frame of each.
//!
//! A bullet flies until it has lost its speed, crosses the border of a
//! blocking cell, or crosses the hitbox of another player. It then holds the
//! point where that happened, stays for one more frame to be drawn, and is
//! taken away at the start of the next.

use vstd::prelude::*;
use crate::fixed::cell_index;
use crate::fixed::cell_of;
use crate::fixed::clamp_i32;
use crate::fixed::clamped;
use crate::fixed::div_toward_zero;
use crate::fixed::div_trunc;
use crate::fixed::over_frame;
use crate::fixed::scale_by_frame;
use crate::geometry::LineSegment;
use crate::geometry::Point;
use crate::items::HEADING_UNIT;
use crate::player::Player;
use crate::sight::Direction;
use crate::tile_map::Grid;
use crate::tile_map::TileMap;

verus! {

/// The speed that a bullet loses in a frame, in milli-units for each frame.
pub const BULLET_DRAG: i32 = 150;

/// The time for which a grenade burns, in milliseconds.
pub const MAX_FUSE_TIME: i32 = 5000;

/// The turn of a fresh grenade in a frame, in micro-radians.
pub const MAX_ROTATION_SPEED: i32 = 150_000;

/// How near the viewer something is seen whatever the rays say, in
/// milli-units.
pub const NEAR_SIGHT: i32 = 18_000;

/// A bullet. `vel` is its speed along `heading` in milli-units for each
/// frame; `heading` holds the sine and the cosine of `angle`, each times
/// `HEADING_UNIT`; `hit_something` is where it came to rest, once it has.
#[derive(Clone, Copy, Debug, PartialEq, Eq, Structural)]
pub struct Bullet {
    pub pos: Point,
    pub vel: i32,
    pub angle: i32,
    pub heading: Direction,
    pub hit_something: Option<Point>,
    pub last_pos: Point,
}

/// A grenade. `rotation` in micro-radians, `rotation_speed` in
/// micro-radians for each frame, `fuse_time` in milliseconds.
#[derive(Clone, Copy, Debug, PartialEq, Eq, Structural)]
pub struct Grenade {
    pub pos: Point,
    pub rotation: i32,
    pub rotation_speed: i32,
    pub fuse_time: i32,
}

/// The players that the user does not steer, the bullets and the grenades.
pub struct EntityManager {
    pub other_players: Vec<Option<Player>>,
    pub other_player_index: u32,
    pub bullets: Vec<Bullet>,
    pub grenades: Vec<Grenade>,
}

/// A speed after drag: nearer to rest by `drag`, and at rest where it would
/// pass it.
pub open spec fn dragged(vel: int, drag: int) -> int {
    if vel >= 0 {
        if vel - drag > 0 {
            vel - drag
        } else {
            0
        }
    } else {
        if vel + drag < 0 {
            vel + drag
        } else {
            0
        }
    }
}

/// How far a bullet of speed `vel` moves along one axis in `frame`
/// thousandths of a frame, where `part` is its heading on that axis.
pub open spec fn travel(part: int, vel: int, frame: int) -> int {
    div_toward_zero(part * vel * frame, HEADING_UNIT * 1000)
}

/// Where `line` crosses the hitbox of one of `others`, the players taken in
/// their order from index `i` on: the crossing with the first that it
/// crosses.
pub open spec fn body_hit_from(others: Seq<Option<Player>>, line: LineSegment, i: int) -> Option<
    Point,
>
    decreases others.len() - i,
{
    if i < 0 || i >= others.len() {
        None
    } else if body_hit(others[i], line).is_some() {
        body_hit(others[i], line)
    } else {
        body_hit_from(others, line, i + 1)
    }
}

/// Where `line` crosses the hitbox of the player in a slot, if there is one.
pub open spec fn body_hit(slot: Option<Player>, line: LineSegment) -> Option<Point> {
    match slot {
        Some(player) => line.crossing_with_rect(player.hitbox()),
        None => None,
    }
}

/// Whether a bullet is still flying.
pub open spec fn flying(bullet: Bullet) -> bool {
    bullet.hit_something.is_none()
}

/// Whether a grenade still burns.
pub open spec fn burning(grenade: Grenade) -> bool {
    grenade.fuse_time > 0
}

impl Bullet {
    /// The bullet after a frame of flight: drag has slowed it, and it has
    /// moved along its heading from where it was.
    pub open spec fn flown(self, frame: u32) -> Bullet {
        let vel = dragged(self.vel as int, over_frame(BULLET_DRAG as int, frame as int));
        Bullet {
            last_pos: self.pos,
            vel: vel as i32,
            pos: self.pos.moved(
                travel(self.heading.dx as int, vel, frame as int),
                travel(self.heading.dy as int, vel, frame as int),
            ),
            ..self
        }
    }

    /// The way that the bullet went in its last frame.
    pub open spec fn path(self) -> LineSegment {
        LineSegment {
            x1: self.last_pos.x,
            y1: self.last_pos.y,
            x2: self.pos.x,
            y2: self.pos.y,
        }
    }

    /// The bullet after its last frame has been looked at: at rest it lies
    /// where it is; else it lies where its way first met a wall; else where
    /// its way crossed another player; else it flies on.
    pub open spec fn settled(self, grid: Grid, others: Seq<Option<Player>>) -> Bullet {
        Bullet {
            hit_something: if self.vel == 0 {
                Some(self.pos)
            } else if grid.nearest_line_hit(self.path()).is_some() {
                grid.nearest_line_hit(self.path())
            } else if body_hit_from(others, self.path(), 0).is_some() {
                body_hit_from(others, self.path(), 0)
            } else {
                self.hit_something
            },
            ..self
        }
    }

    /// A bullet that leaves the barrel at `pos` with speed `vel`, along
    /// `heading`, the sine and the cosine of `angle` times `HEADING_UNIT`.
    pub fn fired(pos: Point, vel: i32, angle: i32, heading: Direction) -> (bullet: Bullet)
        ensures
            bullet == (Bullet { pos, vel, angle, heading, hit_something: None, last_pos: pos }),
    {
        Bullet { pos, vel, angle, heading, hit_something: None, last_pos: pos }
    }

    /// One frame of flight: drag, then the move along the heading.
    pub fn advance(&mut self, frame: u32)
        ensures
            *final(self) == old(self).flown(frame),
    {
        let drag: i64 = scale_by_frame(BULLET_DRAG, frame);
        let vel: i64 = if self.vel >= 0 {
            if self.vel as i64 - drag > 0 {
                self.vel as i64 - drag
            } else {
                0
            }
        } else {
            if self.vel as i64 + drag < 0 {
                self.vel as i64 + drag
            } else {
                0
            }
        };
        let dx: i128 = Bullet::step(self.heading.dx, vel as i32, frame);
        let dy: i128 = Bullet::step(self.heading.dy, vel as i32, frame);
        self.last_pos = self.pos;
        self.vel = vel as i32;
        self.pos = self.pos.offset(dx, dy);
    }

    /// How far a bullet of speed `vel` moves along one axis in a frame.
    fn step(part: i32, vel: i32, frame: u32) -> (moved: i128)
        ensures
            moved == travel(part as int, vel as int, frame as int),
            -0x4000_0000_0000_0000_0000_0000 <= moved <= 0x4000_0000_0000_0000_0000_0000,
    {
        assert(-0x8000_0000 * 0x8000_0000 <= part * vel <= 0x8000_0000 * 0x8000_0000)
            by (nonlinear_arith)
            requires
                -0x8000_0000 <= part <= 0x8000_0000,
                -0x8000_0000 <= vel <= 0x8000_0000,
        ;
        let area: i128 = (part as i128) * (vel as i128);
        assert(-0x4000_0000_0000_0000 * 0x1_0000_0000 <= area * frame <= 0x4000_0000_0000_0000
            * 0x1_0000_0000) by (nonlinear_arith)
            requires
                -0x4000_0000_0000_0000 <= area <= 0x4000_0000_0000_0000,
                0 <= frame <= 0x1_0000_0000,
        ;
        let volume: i128 = area * (frame as i128);
        proof {
            crate::fixed::lemma_div_toward_zero_is_small(
                volume as int,
                HEADING_UNIT * 1000,
                0x4000_0000_0000_0000int * 0x1_0000_0000int,
            );
        }
        div_trunc(volume, (HEADING_UNIT as i128) * 1000)
    }

    /// Looks at the last frame of the bullet and lets it lie where it came
    /// to rest, hit a blocking cell of `tile_map`, or hit one of `others`.
    pub fn settle(&mut self, tile_map: &TileMap, others: &Vec<Option<Player>>)
        ensures
            *final(self) == old(self).settled(tile_map@, others@),
    {
        let line: LineSegment = LineSegment::between(self.last_pos, self.pos);
        if self.vel == 0 {
            self.hit_something = Some(self.pos);
        } else {
            let wall: Option<Point> = tile_map.line_collides_with_tile(&line);
            if wall.is_some() {
                self.hit_something = wall;
            } else {
                let body: Option<Point> = line_collides_with_players(others, &line);
                if body.is_some() {
                    self.hit_something = body;
                }
            }
        }
    }
}

impl Grenade {
    /// The grenade after a frame of `elapsed` milliseconds: it turns the
    /// slower the less fuse is left, and its fuse burns down.
    pub open spec fn ticked(self, elapsed: u32) -> Grenade {
        let speed = clamped(
            div_toward_zero(MAX_ROTATION_SPEED * self.fuse_time, MAX_FUSE_TIME as int),
            i32::MIN as int,
            i32::MAX as int,
        );
        Grenade {
            rotation_speed: speed as i32,
            rotation: clamped(self.rotation + speed, i32::MIN as int, i32::MAX as int) as i32,
            fuse_time: clamped(self.fuse_time - elapsed, i32::MIN as int, i32::MAX as int) as i32,
            ..self
        }
    }

    /// A grenade thrown to `pos`, with its whole fuse to burn.
    pub fn thrown(pos: Point) -> (grenade: Grenade)
        ensures
            grenade == (Grenade {
                pos,
                rotation: 0,
                rotation_speed: 100_000,
                fuse_time: MAX_FUSE_TIME,
            }),
    {
        Grenade { pos, rotation: 0, rotation_speed: 100_000, fuse_time: MAX_FUSE_TIME }
    }

    /// One frame of a grenade.
    pub fn tick(&mut self, elapsed: u32)
        ensures
            *final(self) == old(self).ticked(elapsed),
    {
        assert(-150_000 * 0x8000_0000 <= MAX_ROTATION_SPEED * self.fuse_time <= 150_000
            * 0x8000_0000) by (nonlinear_arith)
            requires
                -0x8000_0000 <= self.fuse_time <= 0x8000_0000,
                MAX_ROTATION_SPEED == 150_000,
        ;
        let speed: i32 = clamp_i32(
            div_trunc((MAX_ROTATION_SPEED as i128) * (self.fuse_time as i128), MAX_FUSE_TIME as i128),
        );
        self.rotation_speed = speed;
        self.rotation = clamp_i32(self.rotation as i128 + speed as i128);
        self.fuse_time = clamp_i32(self.fuse_time as i128 - elapsed as i128);
    }
}

/// Where `line` crosses the hitbox of one of `others`: the players are taken
/// in their order, and the first that `line` crosses gives the point.
pub fn line_collides_with_players(others: &Vec<Option<Player>>, line: &LineSegment) -> (hit:
    Option<Point>)
    ensures
        hit == body_hit_from(others@, *line, 0),
{
    let mut i: usize = 0;
    while i < others.len()
        invariant
            i <= others.len(),
            body_hit_from(others@, *line, 0) == body_hit_from(others@, *line, i as int),
        decreases others.len() - i,
    {
        match &others[i] {
            Some(player) => {
                let found: Option<Point> = line.line_intersects_rect(player.get_hitbox());
                if found.is_some() {
                    return found;
                }
            },
            None => {},
        }
        i += 1;
    }
    None
}

/// Whether something at `pos` is seen by a viewer at `viewer` who sees
/// `visible_tiles`: it stands in a cell that is seen, or nearer to the
/// viewer than `NEAR_SIGHT`.
pub open spec fn seen_from(pos: Point, viewer: Point, visible_tiles: Seq<(u16, u16)>) -> bool {
    ||| exists|i: int|
        0 <= i < visible_tiles.len() && (#[trigger] visible_tiles[i]).0 == cell_index(pos.x as int)
            && visible_tiles[i].1 == cell_index(pos.y as int)
    ||| (pos.x - viewer.x) * (pos.x - viewer.x) + (pos.y - viewer.y) * (pos.y - viewer.y)
        < NEAR_SIGHT * NEAR_SIGHT
}

/// Whether something at `pos` is seen by a viewer at `viewer` who sees
/// `visible_tiles`.
pub fn is_visible(pos: Point, viewer: Point, visible_tiles: &Vec<(u16, u16)>) -> (seen: bool)
    ensures
        seen == seen_from(pos, viewer, visible_tiles@),
{
    let dx: i64 = pos.x as i64 - viewer.x as i64;
    let dy: i64 = pos.y as i64 - viewer.y as i64;
    assert(0 <= dx * dx <= 0x1_0000_0000 * 0x1_0000_0000) by (nonlinear_arith)
        requires
            -0x1_0000_0000 <= dx <= 0x1_0000_0000,
    ;
    assert(0 <= dy * dy <= 0x1_0000_0000 * 0x1_0000_0000) by (nonlinear_arith)
        requires
            -0x1_0000_0000 <= dy <= 0x1_0000_0000,
    ;
    let distance: i128 = (dx as i128) * (dx as i128) + (dy as i128) * (dy as i128);
    assert(NEAR_SIGHT * NEAR_SIGHT == 324_000_000) by (nonlinear_arith)
        requires
            NEAR_SIGHT == 18_000,
    ;
    let near: i128 = 324_000_000;
    if distance < near {
        return true;
    }
    let cx: i32 = cell_of(pos.x);
    let cy: i32 = cell_of(pos.y);
    let mut i: usize = 0;
    while i < visible_tiles.len()
        invariant
            i <= visible_tiles.len(),
            cx == cell_index(pos.x as int),
            cy == cell_index(pos.y as int),
            forall|j: int|
                0 <= j < i ==> !((#[trigger] visible_tiles[j]).0 == cx && visible_tiles[j].1 == cy),
        decreases visible_tiles.len() - i,
    {
        let cell: (u16, u16) = visible_tiles[i];
        if cell.0 as i32 == cx && cell.1 as i32 == cy {
            return true;
        }
        i += 1;
    }
    false
}

impl EntityManager {
    /// The world with nobody and nothing in it.
    pub fn new() -> (entities: EntityManager)
        ensures
            entities.other_players@.len() == 0,
            entities.other_player_index == 0,
            entities.bullets@.len() == 0,
            entities.grenades@.len() == 0,
    {
        EntityManager {
            other_players: Vec::new(),
            other_player_index: 0,
            bullets: Vec::new(),
            grenades: Vec::new(),
        }
    }

    /// Where `add_player` puts the next player: the slot that
    /// `other_player_index` names, or the end where there is no such slot.
    pub open spec fn next_slot(self) -> int {
        if self.other_player_index <= self.other_players@.len() {
            self.other_player_index as int
        } else {
            self.other_players@.len() as int
        }
    }

    /// Turns each of the other players to its bearing: the player in slot
    /// `i` to `bearings[i]`. Slots without a bearing stay as they are.
    pub fn update(&mut self, bearings: &Vec<i32>)
        ensures
            final(self).other_player_index == old(self).other_player_index,
            final(self).bullets == old(self).bullets,
            final(self).grenades == old(self).grenades,
            final(self).other_players@.len() == old(self).other_players@.len(),
            forall|i: int|
                0 <= i < old(self).other_players@.len() ==> #[trigger] final(self).other_players@[i]
                    == (match old(self).other_players@[i] {
                    Some(player) => if i < bearings@.len() {
                        Some(Player { angle: bearings@[i], ..player })
                    } else {
                        Some(player)
                    },
                    None => None,
                }),
    {
        let mut i: usize = 0;
        while i < self.other_players.len() && i < bearings.len()
            invariant
                self.other_player_index == old(self).other_player_index,
                self.bullets == old(self).bullets,
                self.grenades == old(self).grenades,
                self.other_players@.len() == old(self).other_players@.len(),
                forall|j: int|
                    0 <= j < i && j < old(self).other_players@.len()
                        ==> #[trigger] self.other_players@[j] == (match old(
                        self,
                    ).other_players@[j] {
                        Some(player) => if j < bearings@.len() {
                            Some(Player { angle: bearings@[j], ..player })
                        } else {
                            Some(player)
                        },
                        None => None,
                    }),
                forall|j: int|
                    i <= j < old(self).other_players@.len() ==> #[trigger] self.other_players@[j]
                        == old(self).other_players@[j],
            decreases self.other_players.len() - i,
        {
            let slot: Option<Player> = self.other_players[i];
            match slot {
                Some(player) => {
                    let mut turned: Player = player;
                    turned.turn_to_face(bearings[i]);
                    self.other_players.set(i, Some(turned));
                },
                None => {},
            }
            i += 1;
        }
    }

    /// Where `line` crosses the hitbox of one of the other players.
    pub fn line_collides_with_entity(&self, line: &LineSegment) -> (hit: Option<Point>)
        ensures
            hit == body_hit_from(self.other_players@, *line, 0),
    {
        line_collides_with_players(&self.other_players, line)
    }

    /// Puts `player` among the other players, into the slot that
    /// `other_player_index` names; the players from there on move one slot
    /// up.
    pub fn add_player(&mut self, player: Player)
        ensures
            final(self).other_players@ == old(self).other_players@.insert(
                old(self).next_slot(),
                Some(player),
            ),
            final(self).other_player_index == old(self).other_player_index,
            final(self).bullets == old(self).bullets,
            final(self).grenades == old(self).grenades,
    {
        let slot: usize = if (self.other_player_index as usize) <= self.other_players.len() {
            self.other_player_index as usize
        } else {
            self.other_players.len()
        };
        self.other_players.insert(slot, Some(player));
    }

    /// Takes away the bullets that have come to rest.
    pub fn remove_spent_bullets(&mut self)
        ensures
            final(self).bullets@ == old(self).bullets@.filter(|b: Bullet| flying(b)),
            final(self).other_players == old(self).other_players,
            final(self).other_player_index == old(self).other_player_index,
            final(self).grenades == old(self).grenades,
    {
        let mut kept: Vec<Bullet> = Vec::new();
        let mut i: usize = 0;
        assert(self.bullets@.take(0) =~= Seq::<Bullet>::empty());
        while i < self.bullets.len()
            invariant
                i <= self.bullets.len(),
                self.bullets == old(self).bullets,
                self.other_players == old(self).other_players,
                self.other_player_index == old(self).other_player_index,
                self.grenades == old(self).grenades,
                kept@ == self.bullets@.take(i as int).filter(|b: Bullet| flying(b)),
            decreases self.bullets.len() - i,
        {
            let bullet: Bullet = self.bullets[i];
            proof {
                let head = self.bullets@.take(i as int);
                let more = self.bullets@.take(i + 1);
                assert(more.drop_last() =~= head);
                assert(more.last() == bullet);
                reveal(Seq::filter);
            }
            if bullet.hit_something.is_none() {
                kept.push(bullet);
            }
            i += 1;
        }
        assert(self.bullets@.take(self.bullets.len() as int) =~= self.bullets@);
        self.bullets = kept;
    }

    /// One frame of every grenade; those whose fuse has burnt down are
    /// taken away. `elapsed` is the length of the frame in milliseconds.
    pub fn update_grenades(&mut self, elapsed: u32)
        ensures
            final(self).grenades@ == old(self).grenades@.map_values(
                |g: Grenade| g.ticked(elapsed),
            ).filter(|g: Grenade| burning(g)),
            final(self).other_players == old(self).other_players,
            final(self).other_player_index == old(self).other_player_index,
            final(self).bullets == old(self).bullets,
    {
        let mut kept: Vec<Grenade> = Vec::new();
        let mut i: usize = 0;
        let ghost ticked = self.grenades@.map_values(|g: Grenade| g.ticked(elapsed));
        assert(ticked.take(0) =~= Seq::<Grenade>::empty());
        while i < self.grenades.len()
            invariant
                i <= self.grenades.len(),
                self.grenades == old(self).grenades,
                self.other_players == old(self).other_players,
                self.other_player_index == old(self).other_player_index,
                self.bullets == old(self).bullets,
                ticked == self.grenades@.map_values(|g: Grenade| g.ticked(elapsed)),
                kept@ == ticked.take(i as int).filter(|g: Grenade| burning(g)),
            decreases self.grenades.len() - i,
        {
            let mut grenade: Grenade = self.grenades[i];
            grenade.tick(elapsed);
            proof {
                let head = ticked.take(i as int);
                let more = ticked.take(i + 1);
                assert(more.drop_last() =~= head);
                assert(more.last() == grenade);
                reveal(Seq::filter);
            }
            if grenade.fuse_time > 0 {
                kept.push(grenade);
            }
            i += 1;
        }
        assert(ticked.take(self.grenades.len() as int) =~= ticked);
        self.grenades = kept;
    }

    /// One frame of every bullet: each flies, and is then looked at for
    /// having come to rest or hit something. `frame` is the length of the
    /// frame in thousandths of a sixtieth of a second.
    pub fn update_bullets(&mut self, tile_map: &TileMap, frame: u32)
        ensures
            final(self).bullets@ == old(self).bullets@.map_values(
                |b: Bullet| b.flown(frame).settled(tile_map@, old(self).other_players@),
            ),
            final(self).other_players == old(self).other_players,
            final(self).other_player_index == old(self).other_player_index,
            final(self).grenades == old(self).grenades,
    {
        let mut i: usize = 0;
        let ghost before = self.bullets@;
        let ghost grid = tile_map@;
        let ghost others = self.other_players@;
        while i < self.bullets.len()
            invariant
                i <= self.bullets.len(),
                grid == tile_map@,
                others == self.other_players@,
                self.other_players == old(self).other_players,
                self.other_player_index == old(self).other_player_index,
                self.grenades == old(self).grenades,
                before == old(self).bullets@,
                self.bullets@.len() == before.len(),
                forall|j: int|
                    0 <= j < i ==> #[trigger] self.bullets@[j] == before[j].flown(frame).settled(
                        grid,
                        others,
                    ),
                forall|j: int| i <= j < before.len() ==> #[trigger] self.bullets@[j] == before[j],
            decreases self.bullets.len() - i,
        {
            let mut bullet: Bullet = self.bullets[i];
            bullet.advance(frame);
            bullet.settle(tile_map, &self.other_players);
            self.bullets.set(i, bullet);
            i += 1;
        }
        assert(self.bullets@ =~= before.map_values(
            |b: Bullet| b.flown(frame).settled(grid, others),
        ));
    }

    /// One frame of shooting. The bullets that came to rest in the frame
    /// before are taken away; the bullets of `volley`, fired in this frame,
    /// join the others; the grenades turn and burn; every bullet flies and
    /// is looked at. `frame` is the length of the frame in thousandths of a
    /// sixtieth of a second, `elapsed` in milliseconds.
    pub fn handle_shooting(
        &mut self,
        tile_map: &TileMap,
        volley: Vec<Bullet>,
        frame: u32,
        elapsed: u32,
    )
        ensures
            final(self).bullets@ == (old(self).bullets@.filter(|b: Bullet| flying(b))
                + volley@).map_values(
                |b: Bullet| b.flown(frame).settled(tile_map@, old(self).other_players@),
            ),
            final(self).grenades@ == old(self).grenades@.map_values(
                |g: Grenade| g.ticked(elapsed),
            ).filter(|g: Grenade| burning(g)),
            final(self).other_players == old(self).other_players,
            final(self).other_player_index == old(self).other_player_index,
    {
        self.remove_spent_bullets();
        let mut volley = volley;
        self.bullets.append(&mut volley);
        self.update_grenades(elapsed);
        self.update_bullets(tile_map, frame);
    }
}

/// A speed after `frames` frames of the same drag.
pub open spec fn dragged_for(vel: int, drag: int, frames: nat) -> int
    decreases frames,
{
    if frames == 0 {
        vel
    } else {
        dragged_for(dragged(vel, drag), drag, (frames - 1) as nat)
    }
}

/// Drag never speeds a bullet up nor turns it round, and brings it to rest
/// for good within as many frames as the drag needs to eat its speed.
pub proof fn lemma_drag_brings_rest(vel: int, drag: int, frames: nat)
    requires
        drag >= 0,
    ensures
        vel >= 0 ==> 0 <= dragged_for(vel, drag, frames) <= vel,
        vel <= 0 ==> vel <= dragged_for(vel, drag, frames) <= 0,
        vel >= 0 ==> dragged_for(vel, drag, frames) >= vel - frames * drag,
        vel <= 0 ==> dragged_for(vel, drag, frames) <= vel + frames * drag,
        frames * drag >= vel && frames * drag >= -vel ==> dragged_for(vel, drag, frames) == 0,
    decreases frames,
{
    if frames > 0 {
        let next = dragged(vel, drag);
        let rest = (frames - 1) as nat;
        lemma_drag_brings_rest(next, drag, rest);
        assert(frames * drag == rest * drag + drag) by (nonlinear_arith)
            requires
                rest == frames - 1,
        ;
        assert(rest * drag >= 0) by (nonlinear_arith)
            requires
                drag >= 0,
        ;
    } else {
        assert(frames * drag == 0) by (nonlinear_arith)
            requires
                frames == 0,
        ;
    }
}

/// A bullet at rest after its flight lies where it is: it has come to rest
/// and is no longer flying.
pub proof fn lemma_resting_bullet_has_hit(bullet: Bullet, grid: Grid, others: Seq<Option<Player>>)
    requires
        bullet.vel == 0,
    ensures
        bullet.settled(grid, others).hit_something == Some(bullet.pos),
        !flying(bullet.settled(grid, others)),
{
}

} // verus!
