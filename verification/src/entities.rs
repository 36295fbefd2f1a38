//! The three entities of the game: the player's paddle, a block of the board,
//! and a ball.
//!
//! Positions are in micropixels, elapsed time in milliseconds, and velocity
//! components in per-mille of an entity's speed constant, so the speed
//! constants below convert directly: a paddle moving for `dt` milliseconds
//! covers `PLAYER_SPEED_PER_MS * dt` micropixels.

use crate::geom::{Rect, Vel};
use vstd::prelude::*;

verus! {

/// Paddle width, micropixels (150 px).
pub const PLAYER_W: i64 = 150_000_000;

/// Paddle height, micropixels (40 px).
pub const PLAYER_H: i64 = 40_000_000;

/// Paddle speed, micropixels per millisecond (700 px/s).
pub const PLAYER_SPEED_PER_MS: i64 = 700_000;

/// Gap between the paddle's top and the bottom of the screen (50 px).
pub const PLAYER_BOTTOM_GAP: i64 = 50_000_000;

/// Block width and height, micropixels (100 x 40 px).
pub const BLOCK_W: i64 = 100_000_000;

pub const BLOCK_H: i64 = 40_000_000;

/// Lives a freshly built block starts with.
pub const BLOCK_START_LIVES: i64 = 2;

/// Ball side length, micropixels (50 px); balls are square.
pub const BALL_SIZE: i64 = 50_000_000;

/// A velocity component of `VEL_UNIT` is full speed on that axis.
pub const VEL_UNIT: i64 = 1000;

/// Ball speed in micropixels per millisecond per velocity unit: a component
/// of `VEL_UNIT` covers 400 px/s.
pub const BALL_SPEED_FACTOR: i64 = 400;

/// Longest frame the updates accept, milliseconds.
pub const DT_MAX: i64 = 1000;

/// Screen dimension limits the simulation accepts, micropixels
/// (900 x 400 px up to a million pixels each way).
pub const SCREEN_W_MIN: i64 = 900_000_000;

pub const SCREEN_H_MIN: i64 = 400_000_000;

pub const SCREEN_MAX: i64 = 1_000_000_000_000;

/// The screen dimensions are in the supported range.
pub open spec fn screen_ok(sw: i64, sh: i64) -> bool {
    &&& SCREEN_W_MIN <= sw <= SCREEN_MAX
    &&& SCREEN_H_MIN <= sh <= SCREEN_MAX
}

/// A velocity whose components a ball may carry.
pub open spec fn vel_ok(v: Vel) -> bool {
    &&& -VEL_UNIT <= v.x <= VEL_UNIT
    &&& -VEL_UNIT <= v.y <= VEL_UNIT
}

/// The player's paddle: a rectangle near the bottom of the screen, moved
/// horizontally by input.
#[derive(Clone, Copy, PartialEq, Eq, Structural, Debug)]
pub struct Player {
    pub rect: Rect,
}

/// Where a fresh paddle stands: horizontally centered, a fixed gap above the
/// bottom edge.
pub open spec fn player_new_spec(sw: i64, sh: i64) -> Player {
    Player {
        rect: Rect {
            x: ((sw / 2) - PLAYER_W / 2) as i64,
            y: (sh - PLAYER_BOTTOM_GAP) as i64,
            w: PLAYER_W,
            h: PLAYER_H,
        },
    }
}

/// One paddle frame: exclusive-or of the two direction keys gives the
/// direction (both pressed means no movement), a constant speed scaled by the
/// elapsed time gives the distance, and the result is clamped to the screen's
/// horizontal bounds.
pub open spec fn player_step(p: Player, left: bool, right: bool, dt: i64, sw: i64) -> Player {
    let dx: int = if left && !right {
        -PLAYER_SPEED_PER_MS * dt
    } else if right && !left {
        PLAYER_SPEED_PER_MS * dt
    } else {
        0
    };
    let moved = p.rect.x + dx;
    let low = if moved < 0 {
        0
    } else {
        moved
    };
    let clamped = if low > sw - p.rect.w {
        sw - p.rect.w
    } else {
        low
    };
    Player { rect: Rect { x: clamped as i64, ..p.rect } }
}

impl Player {
    /// Build the paddle at its starting position for the given screen.
    pub fn new(sw: i64, sh: i64) -> (p: Player)
        requires
            screen_ok(sw, sh),
        ensures
            p == player_new_spec(sw, sh),
    {
        Player {
            rect: Rect {
                x: sw / 2 - PLAYER_W / 2,
                y: sh - PLAYER_BOTTOM_GAP,
                w: PLAYER_W,
                h: PLAYER_H,
            },
        }
    }

    /// Move the paddle for one frame of input. Afterwards the paddle lies
    /// within the screen's horizontal bounds whenever it fits at all.
    pub fn update(&mut self, left: bool, right: bool, dt: i64, sw: i64)
        requires
            0 <= dt <= DT_MAX,
            -SCREEN_MAX <= sw <= SCREEN_MAX,
            -SCREEN_MAX <= old(self).rect.x <= SCREEN_MAX,
            0 <= old(self).rect.w <= SCREEN_MAX,
        ensures
            *final(self) == player_step(*old(self), left, right, dt, sw),
            final(self).rect.w == old(self).rect.w,
            sw >= old(self).rect.w ==> 0 <= final(self).rect.x
                && final(self).rect.x + final(self).rect.w <= sw,
    {
        proof {
            assert(0 <= PLAYER_SPEED_PER_MS * dt <= 700_000_000) by (nonlinear_arith)
                requires
                    0 <= dt <= 1000,
            ;
        }
        let dx: i64 = if left && !right {
            -(PLAYER_SPEED_PER_MS * dt)
        } else if right && !left {
            PLAYER_SPEED_PER_MS * dt
        } else {
            0
        };
        self.rect.x = self.rect.x + dx;
        if self.rect.x < 0 {
            self.rect.x = 0;
        }
        if self.rect.x > sw - self.rect.w {
            self.rect.x = sw - self.rect.w;
        }
    }
}

/// A block of the board: a static rectangle with a hit-point counter.
#[derive(Clone, Copy, PartialEq, Eq, Structural, Debug)]
pub struct Block {
    pub rect: Rect,
    pub lives: i64,
}

pub open spec fn block_new_spec(x: i64, y: i64) -> Block {
    Block { rect: Rect { x, y, w: BLOCK_W, h: BLOCK_H }, lives: BLOCK_START_LIVES }
}

/// The rendering tier a block's remaining lives select.
#[derive(Clone, Copy, PartialEq, Eq, Structural, Debug)]
pub enum BlockColor {
    Green,
    Red,
    Orange,
}

pub open spec fn block_color_spec(lives: i64) -> BlockColor {
    if lives == 3 {
        BlockColor::Green
    } else if lives == 2 {
        BlockColor::Red
    } else {
        BlockColor::Orange
    }
}

impl Block {
    /// Build a block at the given position with the starting hit points.
    pub fn new(x: i64, y: i64) -> (b: Block)
        ensures
            b == block_new_spec(x, y),
    {
        Block { rect: Rect { x, y, w: BLOCK_W, h: BLOCK_H }, lives: BLOCK_START_LIVES }
    }

    /// The color tier for the block's current lives. The three-lives tier is
    /// unreachable through `new`, which always starts at two; it is kept as
    /// the rendering rule's extension point.
    pub fn color(&self) -> (c: BlockColor)
        ensures
            c == block_color_spec(self.lives),
    {
        if self.lives == 3 {
            BlockColor::Green
        } else if self.lives == 2 {
            BlockColor::Red
        } else {
            BlockColor::Orange
        }
    }
}

/// A ball: a square rectangle and a velocity.
#[derive(Clone, Copy, PartialEq, Eq, Structural, Debug)]
pub struct Ball {
    pub rect: Rect,
    pub vel: Vel,
}

pub open spec fn ball_new_spec(x: i64, y: i64, dir: Vel) -> Ball {
    Ball { rect: Rect { x, y, w: BALL_SIZE, h: BALL_SIZE }, vel: dir }
}

/// One ball frame: integrate the position on both axes, then handle the
/// screen edges. Crossing the left edge forces the horizontal velocity to
/// full speed rightward; the right edge, leftward; the top edge forces the
/// vertical velocity downward. There is deliberately no bottom edge bounce:
/// balls that fall out are removed by the frame loop, not here.
pub open spec fn ball_step(b: Ball, dt: i64, sw: i64) -> Ball {
    let nx = b.rect.x + b.vel.x * BALL_SPEED_FACTOR * dt;
    let ny = b.rect.y + b.vel.y * BALL_SPEED_FACTOR * dt;
    let nvx: int = if nx > sw - b.rect.w {
        -VEL_UNIT
    } else if nx < 0 {
        VEL_UNIT as int
    } else {
        b.vel.x as int
    };
    let nvy: int = if ny < 0 {
        VEL_UNIT as int
    } else {
        b.vel.y as int
    };
    Ball { rect: Rect { x: nx as i64, y: ny as i64, ..b.rect }, vel: Vel { x: nvx as i64, y: nvy as i64 } }
}

impl Ball {
    /// Build a ball at the given position, moving in the given direction.
    pub fn new(x: i64, y: i64, dir: Vel) -> (b: Ball)
        ensures
            b == ball_new_spec(x, y, dir),
    {
        Ball { rect: Rect { x, y, w: BALL_SIZE, h: BALL_SIZE }, vel: dir }
    }

    /// Advance the ball one frame.
    pub fn update(&mut self, dt: i64, sw: i64)
        requires
            0 <= dt <= DT_MAX,
            vel_ok(old(self).vel),
            -2 * SCREEN_MAX <= old(self).rect.x <= 2 * SCREEN_MAX,
            -2 * SCREEN_MAX <= old(self).rect.y <= 2 * SCREEN_MAX,
            0 <= old(self).rect.w <= SCREEN_MAX,
            -SCREEN_MAX <= sw <= SCREEN_MAX,
        ensures
            *final(self) == ball_step(*old(self), dt, sw),
    {
        proof {
            let vx = old(self).vel.x;
            let vy = old(self).vel.y;
            assert(-400_000_000 <= vx * BALL_SPEED_FACTOR * dt <= 400_000_000) by (nonlinear_arith)
                requires
                    -VEL_UNIT <= vx <= VEL_UNIT,
                    0 <= dt <= DT_MAX,
            ;
            assert(-400_000_000 <= vy * BALL_SPEED_FACTOR * dt <= 400_000_000) by (nonlinear_arith)
                requires
                    -VEL_UNIT <= vy <= VEL_UNIT,
                    0 <= dt <= DT_MAX,
            ;
        }
        self.rect.x = self.rect.x + self.vel.x * BALL_SPEED_FACTOR * dt;
        self.rect.y = self.rect.y + self.vel.y * BALL_SPEED_FACTOR * dt;
        if self.rect.x < 0 {
            self.vel.x = VEL_UNIT;
        }
        if self.rect.x > sw - self.rect.w {
            self.vel.x = -VEL_UNIT;
        }
        if self.rect.y < 0 {
            self.vel.y = VEL_UNIT;
        }
    }
}

/// A ball exactly at the left boundary that is moving leftward comes out of
/// one update (over any positive frame time) moving rightward at full speed.
pub proof fn lemma_left_wall_bounce(b: Ball, dt: i64, sw: i64)
    requires
        b.rect.x == 0,
        b.rect.w == BALL_SIZE,
        -VEL_UNIT <= b.vel.x < 0,
        1 <= dt <= DT_MAX,
        SCREEN_W_MIN <= sw <= SCREEN_MAX,
    ensures
        ball_step(b, dt, sw).vel.x == VEL_UNIT,
{
    assert(-400_000_000 <= b.vel.x * BALL_SPEED_FACTOR * dt < 0) by (nonlinear_arith)
        requires
            -VEL_UNIT <= b.vel.x < 0,
            1 <= dt <= DT_MAX,
    ;
}

} // verus!
