//! The game world and its per-frame transition: an explicit state machine
//! over Menu, Game, LevelCompleted and Dead, driving the entity updates, the
//! collision sweep, ball spawning and removal, and life and level
//! transitions.
//!
//! The whole frame is specified as a mathematical function over a model of
//! the world (`WorldModel`), and the executable `World::update` is proved to
//! compute exactly that function.

use crate::entities::{
    ball_new_spec, ball_step, player_new_spec, player_step, screen_ok, vel_ok, Ball, Block, Player,
    BALL_SIZE, BALL_SPEED_FACTOR, BLOCK_H, BLOCK_W, DT_MAX, PLAYER_H, PLAYER_W, SCREEN_MAX,
    SCREEN_W_MIN, VEL_UNIT,
};
use crate::geom::{resolve_collision, resolve_spec, Rect, Vel};
use vstd::prelude::*;

verus! {

/// Points awarded for each block destroyed.
pub const SCORE_AWARD: i64 = 10;

/// Lives the player starts a game with.
pub const START_LIVES: i64 = 3;

/// Block grid shape: columns times rows blocks per level.
pub const GRID_COLS: usize = 10;

pub const GRID_ROWS: usize = 6;

/// Gap between neighbouring blocks, micropixels (5 px).
pub const BLOCK_PAD: i64 = 5_000_000;

/// The board's top edge, micropixels below the screen top (50 px).
pub const BOARD_TOP: i64 = 50_000_000;

/// Fresh balls appear this far below the screen's vertical center (80 px).
pub const SPAWN_DROP: i64 = 80_000_000;

/// The four mutually exclusive states the game can be in.
#[derive(Clone, Copy, PartialEq, Eq, Structural, Debug)]
pub enum GameState {
    Menu,
    Game,
    LevelCompleted,
    Dead,
}

/// The whole game: state tag, counters, entities, and the screen dimensions
/// the simulation runs against (micropixels).
pub struct World {
    pub state: GameState,
    pub score: i64,
    pub lives: i64,
    pub player: Player,
    pub blocks: Vec<Block>,
    pub balls: Vec<Ball>,
    pub screen_w: i64,
    pub screen_h: i64,
}

/// The mathematical model of a `World`: the same data with the entity
/// collections as sequences.
pub ghost struct WorldModel {
    pub state: GameState,
    pub score: i64,
    pub lives: i64,
    pub player: Player,
    pub blocks: Seq<Block>,
    pub balls: Seq<Ball>,
    pub screen_w: i64,
    pub screen_h: i64,
}

impl View for World {
    type V = WorldModel;

    open spec fn view(&self) -> WorldModel {
        WorldModel {
            state: self.state,
            score: self.score,
            lives: self.lives,
            player: self.player,
            blocks: self.blocks@,
            balls: self.balls@,
            screen_w: self.screen_w,
            screen_h: self.screen_h,
        }
    }
}

/// Decrement guarded at the type's floor. A counter in a well-formed world
/// never reaches the floor; the guard only keeps the frame function total.
pub open spec fn dec_sat(v: i64) -> i64 {
    if v == i64::MIN {
        v
    } else {
        (v - 1) as i64
    }
}

/// Add the fixed score award, guarded at the type's ceiling in the same way.
pub open spec fn award_sat(s: i64) -> i64 {
    if s > i64::MAX - SCORE_AWARD {
        s
    } else {
        (s + SCORE_AWARD) as i64
    }
}

/// Where the board's left edge stands: the grid of `GRID_COLS` cells is
/// horizontally centered. With ten 105 px cells this can stand slightly left
/// of the screen on narrow screens; the supported screen range keeps every
/// block within the collider bounds the ball invariant relies on.
pub open spec fn board_x(sw: i64) -> int {
    sw / 2 - (GRID_COLS * (BLOCK_W + BLOCK_PAD) / 2) as int
}

/// The block of the fresh grid at index `i`, counting row-major.
pub open spec fn grid_block(sw: i64, i: int) -> Block {
    crate::entities::block_new_spec(
        (board_x(sw) + (i % (GRID_COLS as int)) * (BLOCK_W + BLOCK_PAD)) as i64,
        (BOARD_TOP + (i / (GRID_COLS as int)) * (BLOCK_H + BLOCK_PAD)) as i64,
    )
}

/// The fresh block grid for a level.
pub open spec fn grid_spec(sw: i64) -> Seq<Block> {
    Seq::new((GRID_COLS * GRID_ROWS) as nat, |i: int| grid_block(sw, i))
}

/// Where fresh balls appear: horizontally centered, a fixed drop below the
/// vertical center.
pub open spec fn ball_spawn_spec(sw: i64, sh: i64, dir: Vel) -> Ball {
    ball_new_spec((sw / 2) as i64, (sh / 2 + SPAWN_DROP) as i64, dir)
}

/// The ball invariant the frame update maintains: full-size square, a legal
/// velocity, and a position that cannot drift: a ball far past the left or
/// right boundary is already heading back, so one bounded frame step keeps
/// it inside the stated box.
pub open spec fn wf_ball(b: Ball, sw: i64, sh: i64) -> bool {
    &&& b.rect.w == BALL_SIZE
    &&& b.rect.h == BALL_SIZE
    &&& vel_ok(b.vel)
    &&& -1_000_000_000 <= b.rect.x <= sw + 1_000_000_000
    &&& -1_000_000_000 <= b.rect.y <= sh + 1_000_000_000
    &&& b.rect.x < -500_000_000 ==> b.vel.x > 0
    &&& b.rect.x > sw - BALL_SIZE + 500_000_000 ==> b.vel.x < 0
    &&& b.rect.y < -500_000_000 ==> b.vel.y > 0
}

/// The block invariant: full-size rectangle standing in the board area.
pub open spec fn wf_block(k: Block, sw: i64, sh: i64) -> bool {
    &&& k.rect.w == BLOCK_W
    &&& k.rect.h == BLOCK_H
    &&& -300_000_000 <= k.rect.x
    &&& k.rect.x + k.rect.w <= sw / 2 + 520_000_000
    &&& 0 <= k.rect.y
    &&& k.rect.y + k.rect.h <= 320_000_000
}

/// The paddle invariant: full-size, inside the screen horizontally, at the
/// fixed height above the bottom edge.
pub open spec fn wf_player(p: Player, sw: i64, sh: i64) -> bool {
    &&& p.rect.w == PLAYER_W
    &&& p.rect.h == PLAYER_H
    &&& 0 <= p.rect.x
    &&& p.rect.x + p.rect.w <= sw
    &&& p.rect.y == sh - crate::entities::PLAYER_BOTTOM_GAP
}

impl WorldModel {
    /// Well-formedness of the whole world, preserved by every public
    /// operation: a supported screen, well-formed entities, balls above the
    /// bottom edge, block lives between one and the starting count, and
    /// counters in range.
    pub open spec fn wf(self) -> bool {
        &&& screen_ok(self.screen_w, self.screen_h)
        &&& wf_player(self.player, self.screen_w, self.screen_h)
        &&& forall|i: int|
            0 <= i < self.balls.len() ==> wf_ball(
                #[trigger] self.balls[i],
                self.screen_w,
                self.screen_h,
            ) && self.balls[i].rect.y < self.screen_h
        &&& forall|i: int|
            0 <= i < self.blocks.len() ==> wf_block(
                #[trigger] self.blocks[i],
                self.screen_w,
                self.screen_h,
            ) && 1 <= self.blocks[i].lives <= crate::entities::BLOCK_START_LIVES
        &&& 0 <= self.score
        &&& 0 <= self.lives <= START_LIVES
        &&& self.state == GameState::Game || self.state == GameState::Menu ==> self.lives >= 1
    }
}

/// Advance every ball from index `i` on by one frame.
pub open spec fn move_balls_from(balls: Seq<Ball>, i: int, dt: i64, sw: i64) -> Seq<Ball>
    decreases balls.len() - i,
{
    if i < 0 || i >= balls.len() {
        balls
    } else {
        move_balls_from(balls.update(i, ball_step(balls[i], dt, sw)), i + 1, dt, sw)
    }
}

/// Sweep one ball over the blocks from index `j` on: each resolved collision
/// costs the block one life, and a block falling to zero or below awards the
/// score and queues one ball spawn. Returns the ball, the blocks, the score,
/// and the spawn count.
pub open spec fn sweep_blocks(
    b: Ball,
    blocks: Seq<Block>,
    score: i64,
    spawns: int,
    j: int,
) -> (Ball, Seq<Block>, i64, int)
    decreases blocks.len() - j,
{
    if j < 0 || j >= blocks.len() {
        (b, blocks, score, spawns)
    } else {
        let r = resolve_spec(b.rect, b.vel, blocks[j].rect);
        let b2 = Ball { rect: r.0, vel: r.1 };
        if r.2 {
            let k2 = Block { lives: dec_sat(blocks[j].lives), ..blocks[j] };
            if k2.lives <= 0 {
                sweep_blocks(b2, blocks.update(j, k2), award_sat(score), spawns + 1, j + 1)
            } else {
                sweep_blocks(b2, blocks.update(j, k2), score, spawns, j + 1)
            }
        } else {
            sweep_blocks(b2, blocks, score, spawns, j + 1)
        }
    }
}

/// Sweep every ball from index `i` on: first against the paddle (bounce
/// only), then over all blocks.
pub open spec fn sweep_balls(
    balls: Seq<Ball>,
    i: int,
    prect: Rect,
    blocks: Seq<Block>,
    score: i64,
    spawns: int,
) -> (Seq<Ball>, Seq<Block>, i64, int)
    decreases balls.len() - i,
{
    if i < 0 || i >= balls.len() {
        (balls, blocks, score, spawns)
    } else {
        let r = resolve_spec(balls[i].rect, balls[i].vel, prect);
        let b1 = Ball { rect: r.0, vel: r.1 };
        let sb = sweep_blocks(b1, blocks, score, spawns, 0);
        sweep_balls(balls.update(i, sb.0), i + 1, prect, sb.1, sb.2, sb.3)
    }
}

/// The `n` balls spawned this frame, one per queued spawn, taking their
/// directions from the supplied sequence in order.
pub open spec fn spawned_balls(n: int, dirs: Seq<Vel>, sw: i64, sh: i64) -> Seq<Ball> {
    Seq::new(n as nat, |k: int| ball_spawn_spec(sw, sh, dirs[k]))
}

/// The balls still on the playfield: those whose top edge is above the
/// bottom of the screen, in order.
pub open spec fn keep_live_balls(balls: Seq<Ball>, i: int, sh: i64) -> Seq<Ball>
    decreases balls.len() - i,
{
    if i < 0 || i >= balls.len() {
        Seq::empty()
    } else if balls[i].rect.y < sh {
        seq![balls[i]] + keep_live_balls(balls, i + 1, sh)
    } else {
        keep_live_balls(balls, i + 1, sh)
    }
}

/// The blocks still alive: those with at least one life left, in order.
pub open spec fn keep_live_blocks(blocks: Seq<Block>, i: int) -> Seq<Block>
    decreases blocks.len() - i,
{
    if i < 0 || i >= blocks.len() {
        Seq::empty()
    } else if blocks[i].lives > 0 {
        seq![blocks[i]] + keep_live_blocks(blocks, i + 1)
    } else {
        keep_live_blocks(blocks, i + 1)
    }
}

/// A full reset of everything but the state tag: starting score and lives, a
/// fresh paddle, no balls, a fresh block grid.
pub open spec fn reset_fields_spec(m: WorldModel) -> WorldModel {
    WorldModel {
        score: 0,
        lives: START_LIVES,
        player: player_new_spec(m.screen_w, m.screen_h),
        balls: Seq::empty(),
        blocks: grid_spec(m.screen_w),
        ..m
    }
}

/// One frame of active play, in order: move the paddle by input; move every
/// ball; sweep every ball against the paddle and the blocks; admit the
/// queued spawns; drop the balls that fell past the bottom edge, and if that
/// emptied the collection, take a life and either return to Menu with a
/// fresh paddle and a single fresh ball (lives remain) or go to Dead; drop
/// the destroyed blocks, and if none remain, go to LevelCompleted (this
/// check runs last and overrides the other transitions, deliberately).
pub open spec fn game_step(
    m: WorldModel,
    left: bool,
    right: bool,
    dt: i64,
    dirs: Seq<Vel>,
) -> WorldModel {
    let p1 = player_step(m.player, left, right, dt, m.screen_w);
    let moved = move_balls_from(m.balls, 0, dt, m.screen_w);
    let swept = sweep_balls(moved, 0, p1.rect, m.blocks, m.score, 0);
    let admitted = swept.0 + spawned_balls(swept.3, dirs, m.screen_w, m.screen_h);
    let kept = keep_live_balls(admitted, 0, m.screen_h);
    let removed_some = kept.len() < admitted.len();
    let after_life = if removed_some && kept.len() == 0 {
        let l2 = dec_sat(m.lives);
        if l2 > 0 {
            WorldModel {
                state: GameState::Menu,
                lives: l2,
                score: swept.2,
                player: player_new_spec(m.screen_w, m.screen_h),
                balls: seq![ball_spawn_spec(m.screen_w, m.screen_h, dirs[0])],
                blocks: swept.1,
                ..m
            }
        } else {
            WorldModel {
                state: GameState::Dead,
                lives: l2,
                score: swept.2,
                player: p1,
                balls: kept,
                blocks: swept.1,
                ..m
            }
        }
    } else {
        WorldModel { score: swept.2, player: p1, balls: kept, blocks: swept.1, ..m }
    };
    let live_blocks = keep_live_blocks(after_life.blocks, 0);
    if live_blocks.len() == 0 {
        WorldModel { state: GameState::LevelCompleted, blocks: live_blocks, ..after_life }
    } else {
        WorldModel { blocks: live_blocks, ..after_life }
    }
}

/// The whole per-frame transition, dispatching on the state: Menu waits for
/// the start key and enters Game with one more ball; Game runs `game_step`;
/// LevelCompleted waits for the start key and fully resets back to Menu;
/// Dead does the same but also spawns the first ball immediately (an
/// deliberate asymmetry with LevelCompleted, which leaves spawning to Menu).
pub open spec fn world_step(
    m: WorldModel,
    left: bool,
    right: bool,
    start: bool,
    dt: i64,
    dirs: Seq<Vel>,
) -> WorldModel {
    match m.state {
        GameState::Menu => if start {
            WorldModel {
                state: GameState::Game,
                balls: m.balls.push(ball_spawn_spec(m.screen_w, m.screen_h, dirs[0])),
                ..m
            }
        } else {
            m
        },
        GameState::Game => game_step(m, left, right, dt, dirs),
        GameState::LevelCompleted => if start {
            WorldModel { state: GameState::Menu, ..reset_fields_spec(m) }
        } else {
            m
        },
        GameState::Dead => if start {
            WorldModel {
                state: GameState::Menu,
                balls: seq![ball_spawn_spec(m.screen_w, m.screen_h, dirs[0])],
                ..reset_fields_spec(m)
            }
        } else {
            m
        },
    }
}

/// One collision event of the sweep, pinned exactly: when the ball hits
/// block `j`, that block loses exactly one life; if that was its last life,
/// the score grows by exactly `SCORE_AWARD` and exactly one ball spawn is
/// queued, and otherwise score and spawn queue are untouched. The sweep then
/// moves on to the next block with the bounced ball.
pub proof fn lemma_collision_event(b: Ball, blocks: Seq<Block>, score: i64, spawns: int, j: int)
    requires
        0 <= j < blocks.len(),
        1 <= blocks[j].lives,
        0 <= score <= i64::MAX - SCORE_AWARD,
        resolve_spec(b.rect, b.vel, blocks[j].rect).2,
    ensures
        ({
            let r = resolve_spec(b.rect, b.vel, blocks[j].rect);
            let hit_block = Block { lives: (blocks[j].lives - 1) as i64, ..blocks[j] };
            let destroyed = blocks[j].lives == 1;
            sweep_blocks(b, blocks, score, spawns, j) == sweep_blocks(
                Ball { rect: r.0, vel: r.1 },
                blocks.update(j, hit_block),
                if destroyed {
                    (score + SCORE_AWARD) as i64
                } else {
                    score
                },
                if destroyed {
                    spawns + 1
                } else {
                    spawns
                },
                j + 1,
            )
        }),
{
}

/// The block cleanup keeps exactly the blocks with at least one life: every
/// survivor has lives above zero, and no destroyed block (lives at or below
/// zero) is in the active set afterwards. Together with
/// `lemma_collision_event` this removes a block that stood at one life
/// before a collision.
pub proof fn lemma_cleanup_keeps_only_live(blocks: Seq<Block>, i: int)
    ensures
        forall|t: int|
            0 <= t < keep_live_blocks(blocks, i).len() ==> (#[trigger] keep_live_blocks(
                blocks,
                i,
            )[t]).lives > 0,
        forall|k: Block| k.lives <= 0 ==> !keep_live_blocks(blocks, i).contains(k),
    decreases blocks.len() - i,
{
    if i < 0 || i >= blocks.len() {
    } else {
        lemma_cleanup_keeps_only_live(blocks, i + 1);
        let rest = keep_live_blocks(blocks, i + 1);
        if blocks[i].lives > 0 {
            let cur = seq![blocks[i]] + rest;
            assert(keep_live_blocks(blocks, i) == cur);
            assert forall|t: int| 0 <= t < cur.len() implies (#[trigger] cur[t]).lives > 0 by {
                if t == 0 {
                    assert(cur[t] == blocks[i]);
                } else {
                    assert(cur[t] == rest[t - 1]);
                }
            }
        }
    }
    let kept = keep_live_blocks(blocks, i);
    assert forall|k: Block| k.lives <= 0 implies !kept.contains(k) by {
        if kept.contains(k) {
            let t = choose|t: int| 0 <= t < kept.len() && kept[t] == k;
            assert(kept[t].lives > 0);
        }
    }
}

/// Each destruction event awards exactly the fixed number of points; the
/// guard at the counter's ceiling never fires below it.
pub proof fn lemma_award_exact(s: i64)
    requires
        s <= i64::MAX - SCORE_AWARD,
    ensures
        award_sat(s) == s + SCORE_AWARD,
{
}

/// The world a fresh game starts in: Menu, starting counters, a fresh
/// paddle, the full grid, and one ball already in play.
pub open spec fn world_new_spec(sw: i64, sh: i64, dir: Vel) -> WorldModel {
    WorldModel {
        state: GameState::Menu,
        score: 0,
        lives: START_LIVES,
        player: player_new_spec(sw, sh),
        blocks: grid_spec(sw),
        balls: seq![ball_spawn_spec(sw, sh, dir)],
        screen_w: sw,
        screen_h: sh,
    }
}

/// Append the fresh block grid for a level to the collection.
pub fn init_blocks(blocks: &mut Vec<Block>, sw: i64)
    requires
        SCREEN_W_MIN <= sw <= SCREEN_MAX,
    ensures
        final(blocks)@ == old(blocks)@ + grid_spec(sw),
{
    let bx = sw / 2 - 525_000_000;
    let n = GRID_COLS * GRID_ROWS;
    proof {
        assert(bx == board_x(sw));
    }
    for i in 0..n
        invariant
            n == GRID_COLS * GRID_ROWS,
            bx == board_x(sw),
            SCREEN_W_MIN <= sw <= SCREEN_MAX,
            blocks@ == old(blocks)@ + grid_spec(sw).take(i as int),
    {
        let col = (i % GRID_COLS) as i64;
        let row = (i / GRID_COLS) as i64;
        let x = bx + col * 105_000_000;
        let y = BOARD_TOP + row * 45_000_000;
        blocks.push(Block::new(x, y));
        proof {
            assert(Block { rect: Rect { x, y, w: BLOCK_W, h: BLOCK_H }, lives: 2 } == grid_block(
                sw,
                i as int,
            ));
            assert(grid_spec(sw).take(i + 1) =~= grid_spec(sw).take(i as int).push(
                grid_block(sw, i as int),
            ));
        }
    }
    proof {
        assert(grid_spec(sw).take(n as int) =~= grid_spec(sw));
    }
}

/// Every block of the fresh grid is well formed and starts with the full
/// hit-point count.
pub proof fn lemma_grid_wf(sw: i64, sh: i64)
    requires
        screen_ok(sw, sh),
    ensures
        grid_spec(sw).len() == GRID_COLS * GRID_ROWS,
        forall|i: int|
            0 <= i < grid_spec(sw).len() ==> wf_block(#[trigger] grid_spec(sw)[i], sw, sh) && 1
                <= grid_spec(sw)[i].lives <= crate::entities::BLOCK_START_LIVES,
{
    assert forall|i: int| 0 <= i < grid_spec(sw).len() implies wf_block(
        #[trigger] grid_spec(sw)[i],
        sw,
        sh,
    ) && 1 <= grid_spec(sw)[i].lives <= crate::entities::BLOCK_START_LIVES by {
        let col = i % (GRID_COLS as int);
        let row = i / (GRID_COLS as int);
        assert(0 <= col <= 9);
        assert(0 <= row <= 5);
        assert(grid_spec(sw)[i] == grid_block(sw, i));
    }
}

/// The freshly spawned ball is well formed and stands above the bottom edge.
pub proof fn lemma_spawn_wf(sw: i64, sh: i64, dir: Vel)
    requires
        screen_ok(sw, sh),
        vel_ok(dir),
    ensures
        wf_ball(ball_spawn_spec(sw, sh, dir), sw, sh),
        ball_spawn_spec(sw, sh, dir).rect.y < sh,
{
}

/// Anything a ball can be bounced off: the paddle or a block, whose
/// rectangle stands in the band of the screen the well-formedness invariants
/// put them in.
pub open spec fn collider_ok(k: Rect, sw: i64, sh: i64) -> bool {
    &&& 0 <= k.w <= 200_000_000
    &&& 0 <= k.h <= 50_000_000
    &&& -300_000_000 <= k.x
    &&& k.x + k.w <= sw + 100_000_000
    &&& 0 <= k.y
    &&& k.y + k.h <= sh
}

/// Resolving a well-formed ball against a well-formed collider keeps the
/// ball well formed: a miss changes nothing, and a hit leaves the ball
/// flush with the collider, inside a narrow band around the screen where the
/// drift guards of `wf_ball` hold vacuously.
pub proof fn lemma_resolve_keeps_ball_wf(a: Rect, v: Vel, k: Rect, sw: i64, sh: i64)
    requires
        screen_ok(sw, sh),
        wf_ball(Ball { rect: a, vel: v }, sw, sh),
        collider_ok(k, sw, sh),
    ensures
        ({
            let r = resolve_spec(a, v, k);
            &&& r.0.w == BALL_SIZE
            &&& r.0.h == BALL_SIZE
            &&& vel_ok(r.1)
            &&& !r.2 ==> r.0 == a && r.1 == v
            &&& (r.2 && crate::geom::resolved_on_y(a, k)) ==> r.0.x == a.x && r.1.x == v.x
                && -150_000_000 <= r.0.y <= sh + 50_000_000
            &&& (r.2 && !crate::geom::resolved_on_y(a, k)) ==> r.0.y == a.y && r.1.y == v.y
                && -400_000_000 <= r.0.x <= sw + 150_000_000
            &&& wf_ball(Ball { rect: r.0, vel: r.1 }, sw, sh)
        }),
{
    if crate::geom::rects_touch(a, k) {
        if crate::geom::resolved_on_y(a, k) {
            let ih = crate::geom::overlap_h(a, k);
            assert(0 <= ih <= a.h);
            assert(a.y <= k.y + k.h);
            assert(a.y + a.h >= k.y);
        } else {
            let iw = crate::geom::overlap_w(a, k);
            assert(0 <= iw <= a.w);
            assert(a.x <= k.x + k.w);
            assert(a.x + a.w >= k.x);
        }
    }
}

/// One frame of free movement keeps a ball that starts above the bottom
/// edge well formed, and moves it at most one maximal step down.
pub proof fn lemma_move_keeps_ball_wf(b: Ball, dt: i64, sw: i64, sh: i64)
    requires
        screen_ok(sw, sh),
        wf_ball(b, sw, sh),
        b.rect.y < sh,
        0 <= dt <= DT_MAX,
    ensures
        wf_ball(ball_step(b, dt, sw), sw, sh),
        ball_step(b, dt, sw).rect.y <= sh + 400_000_000,
{
    let vx = b.vel.x;
    let vy = b.vel.y;
    assert(-400_000_000 <= vx * BALL_SPEED_FACTOR * dt <= 400_000_000) by (nonlinear_arith)
        requires
            -VEL_UNIT <= vx <= VEL_UNIT,
            0 <= dt <= DT_MAX,
    ;
    assert(-400_000_000 <= vy * BALL_SPEED_FACTOR * dt <= 400_000_000) by (nonlinear_arith)
        requires
            -VEL_UNIT <= vy <= VEL_UNIT,
            0 <= dt <= DT_MAX,
    ;
    if vx > 0 {
        assert(vx * BALL_SPEED_FACTOR * dt >= 0) by (nonlinear_arith)
            requires
                vx > 0,
                dt >= 0,
        ;
    }
    if vx < 0 {
        assert(vx * BALL_SPEED_FACTOR * dt <= 0) by (nonlinear_arith)
            requires
                vx < 0,
                dt >= 0,
        ;
    }
    if vy > 0 {
        assert(vy * BALL_SPEED_FACTOR * dt >= 0) by (nonlinear_arith)
            requires
                vy > 0,
                dt >= 0,
        ;
    }
}

impl World {
    /// Build a fresh game for the given screen: Menu state, starting
    /// counters, the full grid, and one ball already in play, moving in the
    /// given direction.
    pub fn new(sw: i64, sh: i64, dir: Vel) -> (w: World)
        requires
            screen_ok(sw, sh),
            vel_ok(dir),
        ensures
            w@ == world_new_spec(sw, sh, dir),
            w@.wf(),
    {
        let player = Player::new(sw, sh);
        let mut blocks: Vec<Block> = Vec::new();
        init_blocks(&mut blocks, sw);
        let mut balls: Vec<Ball> = Vec::new();
        balls.push(Ball::new(sw / 2, sh / 2 + SPAWN_DROP, dir));
        let w = World {
            state: GameState::Menu,
            score: 0,
            lives: START_LIVES,
            player,
            blocks,
            balls,
            screen_w: sw,
            screen_h: sh,
        };
        proof {
            assert(w@.blocks =~= grid_spec(sw));
            assert(w@.balls =~= seq![ball_spawn_spec(sw, sh, dir)]);
            lemma_grid_wf(sw, sh);
            lemma_spawn_wf(sw, sh, dir);
        }
        w
    }

    /// Fully reset the game for a new level: starting score and lives, a
    /// fresh paddle, no balls, and the grid rebuilt from scratch. The state
    /// tag is left to the caller.
    pub fn reset_game(&mut self)
        requires
            screen_ok(old(self).screen_w, old(self).screen_h),
        ensures
            final(self)@ == reset_fields_spec(old(self)@),
    {
        self.player = Player::new(self.screen_w, self.screen_h);
        self.score = 0;
        self.lives = START_LIVES;
        self.balls.clear();
        self.blocks.clear();
        init_blocks(&mut self.blocks, self.screen_w);
        proof {
            assert(self@.blocks =~= grid_spec(self.screen_w));
            assert(self@.balls =~= Seq::<Ball>::empty());
        }
    }

    /// One frame of active play; see `game_step` for the exact order of
    /// operations it computes.
    fn game_frame(&mut self, left: bool, right: bool, dt: i64, dirs: &Vec<Vel>)
        requires
            old(self)@.wf(),
            old(self)@.state == GameState::Game,
            0 <= dt <= DT_MAX,
            forall|t: int| 0 <= t < dirs@.len() ==> vel_ok(#[trigger] dirs@[t]),
            dirs@.len() >= old(self)@.balls.len() * old(self)@.blocks.len() + 1,
        ensures
            final(self)@ == game_step(old(self)@, left, right, dt, dirs@),
            final(self)@.wf(),
    {
        let ghost m0 = self@;
        let sw = self.screen_w;
        let sh = self.screen_h;

        // Paddle movement from input.
        self.player.update(left, right, dt, sw);
        let ghost p1 = self.player;
        proof {
            assert(p1 == player_step(m0.player, left, right, dt, sw));
            assert(wf_player(p1, sw, sh));
        }

        // Free movement of every ball.
        let ghost balls0 = self.balls@;
        let n = self.balls.len();
        for i in 0..n
            invariant
                self.balls@.len() == n,
                n == balls0.len(),
                0 <= dt <= DT_MAX,
                screen_ok(sw, sh),
                self.screen_w == sw,
                self.screen_h == sh,
                self.player == p1,
                self.blocks@ == m0.blocks,
                self.score == m0.score,
                self.lives == m0.lives,
                self.state == m0.state,
                move_balls_from(self.balls@, i as int, dt, sw) == move_balls_from(
                    balls0,
                    0,
                    dt,
                    sw,
                ),
                forall|t: int|
                    0 <= t < n ==> wf_ball(#[trigger] self.balls@[t], sw, sh),
                forall|t: int|
                    i <= t < n ==> #[trigger] self.balls@[t] == balls0[t]
                        && self.balls@[t].rect.y < sh,
        {
            let ghost prev = self.balls@;
            let mut b = self.balls[i];
            proof {
                lemma_move_keeps_ball_wf(b, dt, sw, sh);
            }
            b.update(dt, sw);
            self.balls[i] = b;
            proof {
                assert(self.balls@ == prev.update(i as int, ball_step(prev[i as int], dt, sw)));
                assert(move_balls_from(prev, i as int, dt, sw) == move_balls_from(
                    self.balls@,
                    i as int + 1,
                    dt,
                    sw,
                ));
            }
        }
        let ghost balls1 = self.balls@;
        proof {
            assert(balls1 == move_balls_from(balls0, 0, dt, sw));
        }

        // Collision sweep: every ball against the paddle, then every block.
        let ghost blocks0 = self.blocks@;
        let ghost total_sweep = sweep_balls(balls1, 0, p1.rect, blocks0, m0.score, 0);
        let mut spawns: usize = 0;
        let nb = self.blocks.len();
        let dl = dirs.len();
        for i in 0..n
            invariant
                self.balls@.len() == n,
                self.blocks@.len() == nb,
                0 <= dt <= DT_MAX,
                screen_ok(sw, sh),
                self.screen_w == sw,
                self.screen_h == sh,
                self.player == p1,
                self.lives == m0.lives,
                self.state == m0.state,
                wf_player(p1, sw, sh),
                0 <= self.score,
                spawns as int <= i as int * nb as int,
                dl == dirs@.len(),
                dirs@.len() >= n * nb + 1,
                sweep_balls(self.balls@, i as int, p1.rect, self.blocks@, self.score, spawns as int)
                    == total_sweep,
                forall|t: int|
                    0 <= t < n ==> wf_ball(#[trigger] self.balls@[t], sw, sh),
                forall|t: int|
                    0 <= t < nb ==> wf_block(#[trigger] self.blocks@[t], sw, sh)
                        && self.blocks@[t].lives <= crate::entities::BLOCK_START_LIVES,
        {
            let ghost prev_balls = self.balls@;
            let ghost prev_blocks = self.blocks@;
            let ghost prev_score = self.score;
            let ghost prev_spawns = spawns as int;
            let mut b = self.balls[i];
            proof {
                lemma_resolve_keeps_ball_wf(b.rect, b.vel, self.player.rect, sw, sh);
            }
            resolve_collision(&mut b.rect, &mut b.vel, &self.player.rect);
            let ghost b1 = b;
            for j in 0..nb
                invariant
                    self.balls@ == prev_balls,
                    self.balls@.len() == n,
                    self.blocks@.len() == nb,
                    screen_ok(sw, sh),
                    self.screen_w == sw,
                    self.screen_h == sh,
                    self.player == p1,
                    self.lives == m0.lives,
                    self.state == m0.state,
                    wf_player(p1, sw, sh),
                    0 <= self.score,
                    i < n,
                    prev_spawns <= i as int * nb as int,
                    spawns as int <= i as int * nb as int + j as int,
                    dl == dirs@.len(),
                    dirs@.len() >= n * nb + 1,
                    wf_ball(b, sw, sh),
                    sweep_blocks(b, self.blocks@, self.score, spawns as int, j as int)
                        == sweep_blocks(b1, prev_blocks, prev_score, prev_spawns, 0),
                    forall|t: int|
                        0 <= t < nb ==> wf_block(#[trigger] self.blocks@[t], sw, sh)
                            && self.blocks@[t].lives <= crate::entities::BLOCK_START_LIVES,
            {
                let ghost loop_blocks = self.blocks@;
                let mut k = self.blocks[j];
                proof {
                    lemma_resolve_keeps_ball_wf(b.rect, b.vel, k.rect, sw, sh);
                }
                let hit = resolve_collision(&mut b.rect, &mut b.vel, &k.rect);
                if hit {
                    k.lives = if k.lives == i64::MIN {
                        k.lives
                    } else {
                        k.lives - 1
                    };
                    if k.lives <= 0 {
                        self.score = if self.score > i64::MAX - SCORE_AWARD {
                            self.score
                        } else {
                            self.score + SCORE_AWARD
                        };
                        proof {
                            assert(i as int * nb as int + j as int + 1 <= n as int * nb as int)
                                by (nonlinear_arith)
                                requires
                                    0 <= (i as int) && (i as int) < (n as int),
                                    0 <= (j as int) && (j as int) < (nb as int),
                            ;
                        }
                        spawns = spawns + 1;
                    }
                    self.blocks[j] = k;
                }
            }
            self.balls[i] = b;
            proof {
                assert(sweep_balls(prev_balls, i as int, p1.rect, prev_blocks, prev_score, prev_spawns)
                    == sweep_balls(
                    self.balls@,
                    i as int + 1,
                    p1.rect,
                    self.blocks@,
                    self.score,
                    spawns as int,
                ));
                assert((i as int + 1) * nb as int == i as int * nb as int + nb as int)
                    by (nonlinear_arith);
            }
        }
        proof {
            assert(self.balls@ == total_sweep.0);
            assert(self.blocks@ == total_sweep.1);
            assert(self.score == total_sweep.2);
            assert(spawns as int == total_sweep.3);
            assert(n as int * nb as int <= dirs@.len() - 1);
        }

        // Admit the balls queued by destroyed blocks.
        let ghost base = self.balls@;
        for t in 0..spawns
            invariant
                screen_ok(sw, sh),
                self.screen_w == sw,
                self.screen_h == sh,
                self.player == p1,
                self.blocks@ == total_sweep.1,
                self.score == total_sweep.2,
                self.lives == m0.lives,
                self.state == m0.state,
                spawns as int == total_sweep.3,
                spawns < dirs@.len(),
                forall|d: int| 0 <= d < dirs@.len() ==> vel_ok(#[trigger] dirs@[d]),
                self.balls@ == base + spawned_balls(t as int, dirs@, sw, sh),
                forall|u: int|
                    0 <= u < base.len() ==> #[trigger] self.balls@[u] == base[u],
                forall|u: int|
                    0 <= u < self.balls@.len() ==> wf_ball(#[trigger] self.balls@[u], sw, sh),
                forall|u: int|
                    base.len() <= u < self.balls@.len() ==> #[trigger] self.balls@[u].rect.y < sh,
        {
            let d = dirs[t];
            let fresh = Ball::new(self.screen_w / 2, self.screen_h / 2 + SPAWN_DROP, d);
            self.balls.push(fresh);
            proof {
                lemma_spawn_wf(sw, sh, d);
                assert(base + spawned_balls(t as int + 1, dirs@, sw, sh) =~= (base + spawned_balls(
                    t as int,
                    dirs@,
                    sw,
                    sh,
                )).push(ball_spawn_spec(sw, sh, dirs@[t as int])));
            }
        }
        let ghost admitted = self.balls@;
        proof {
            assert(admitted == total_sweep.0 + spawned_balls(total_sweep.3, dirs@, sw, sh));
        }

        // Drop the balls that fell past the bottom edge.
        let mut kept: Vec<Ball> = Vec::new();
        let total = self.balls.len();
        for idx in 0..total
            invariant
                self.balls@ == admitted,
                total == admitted.len(),
                screen_ok(sw, sh),
                self.screen_w == sw,
                self.screen_h == sh,
                self.player == p1,
                self.blocks@ == total_sweep.1,
                self.score == total_sweep.2,
                self.lives == m0.lives,
                self.state == m0.state,
                kept@.len() <= idx,
                kept@ + keep_live_balls(admitted, idx as int, sh) == keep_live_balls(
                    admitted,
                    0,
                    sh,
                ),
                forall|u: int|
                    0 <= u < admitted.len() ==> wf_ball(#[trigger] admitted[u], sw, sh),
                forall|u: int|
                    0 <= u < kept@.len() ==> wf_ball(#[trigger] kept@[u], sw, sh)
                        && kept@[u].rect.y < sh,
        {
            let bb = self.balls[idx];
            if bb.rect.y < self.screen_h {
                kept.push(bb);
                proof {
                    assert(kept@ + keep_live_balls(admitted, idx as int + 1, sh) =~= (kept@.drop_last()
                        + (seq![admitted[idx as int]] + keep_live_balls(admitted, idx as int + 1, sh))));
                }
            }
        }
        let removed_any = kept.len() < total;
        self.balls = kept;
        proof {
            assert(self.balls@ == keep_live_balls(admitted, 0, sh));
        }

        // Life accounting when every ball fell out this frame.
        if removed_any && self.balls.len() == 0 {
            self.lives = self.lives - 1;
            if self.lives > 0 {
                self.still_alive();
                self.balls.clear();
                let d = dirs[0];
                self.balls.push(Ball::new(self.screen_w / 2, self.screen_h / 2 + SPAWN_DROP, d));
                self.state = GameState::Menu;
                proof {
                    lemma_spawn_wf(sw, sh, d);
                    assert(self.balls@ =~= seq![ball_spawn_spec(sw, sh, d)]);
                }
            }
            if self.lives <= 0 {
                self.state = GameState::Dead;
            }
        }
        let ghost after_life = self@;

        // Drop the destroyed blocks; an empty board completes the level.
        let ghost blocks_in = self.blocks@;
        let mut keptb: Vec<Block> = Vec::new();
        let totalb = self.blocks.len();
        for idx in 0..totalb
            invariant
                self.blocks@ == blocks_in,
                totalb == blocks_in.len(),
                screen_ok(sw, sh),
                self.screen_w == sw,
                self.screen_h == sh,
                self.player == after_life.player,
                self.balls@ == after_life.balls,
                self.score == after_life.score,
                self.lives == after_life.lives,
                self.state == after_life.state,
                keptb@ + keep_live_blocks(blocks_in, idx as int) == keep_live_blocks(blocks_in, 0),
                forall|u: int|
                    0 <= u < blocks_in.len() ==> wf_block(#[trigger] blocks_in[u], sw, sh)
                        && blocks_in[u].lives <= crate::entities::BLOCK_START_LIVES,
                forall|u: int|
                    0 <= u < keptb@.len() ==> wf_block(#[trigger] keptb@[u], sw, sh) && 1
                        <= keptb@[u].lives <= crate::entities::BLOCK_START_LIVES,
        {
            let kk = self.blocks[idx];
            if kk.lives > 0 {
                keptb.push(kk);
                proof {
                    assert(keptb@ + keep_live_blocks(blocks_in, idx as int + 1) =~= (keptb@.drop_last()
                        + (seq![blocks_in[idx as int]] + keep_live_blocks(blocks_in, idx as int + 1))));
                }
            }
        }
        self.blocks = keptb;
        proof {
            assert(self.blocks@ == keep_live_blocks(blocks_in, 0));
        }
        if self.blocks.len() == 0 {
            self.state = GameState::LevelCompleted;
        }
    }

    /// One frame of the whole game, dispatching on the current state; see
    /// `world_step` for the transition it computes. `left` and `right` are
    /// the direction keys held this frame, `start` is the start key press,
    /// `dt` the elapsed milliseconds, and `dirs` supplies a direction for
    /// every ball that might be spawned this frame (one per possible
    /// ball-block collision, plus one).
    pub fn update(&mut self, left: bool, right: bool, start: bool, dt: i64, dirs: &Vec<Vel>)
        requires
            old(self)@.wf(),
            0 <= dt <= DT_MAX,
            forall|t: int| 0 <= t < dirs@.len() ==> vel_ok(#[trigger] dirs@[t]),
            dirs@.len() >= old(self)@.balls.len() * old(self)@.blocks.len() + 1,
        ensures
            final(self)@ == world_step(old(self)@, left, right, start, dt, dirs@),
            final(self)@.wf(),
    {
        match self.state {
            GameState::Menu => {
                if start {
                    self.state = GameState::Game;
                    let d = dirs[0];
                    let fresh = Ball::new(
                        self.screen_w / 2,
                        self.screen_h / 2 + SPAWN_DROP,
                        d,
                    );
                    self.balls.push(fresh);
                    proof {
                        lemma_spawn_wf(self.screen_w, self.screen_h, d);
                    }
                }
            },
            GameState::Game => {
                self.game_frame(left, right, dt, dirs);
            },
            GameState::LevelCompleted => {
                if start {
                    self.state = GameState::Menu;
                    self.reset_game();
                    proof {
                        lemma_grid_wf(self.screen_w, self.screen_h);
                    }
                }
            },
            GameState::Dead => {
                if start {
                    self.state = GameState::Menu;
                    self.reset_game();
                    let d = dirs[0];
                    let fresh = Ball::new(
                        self.screen_w / 2,
                        self.screen_h / 2 + SPAWN_DROP,
                        d,
                    );
                    self.balls.push(fresh);
                    proof {
                        lemma_grid_wf(self.screen_w, self.screen_h);
                        lemma_spawn_wf(self.screen_w, self.screen_h, d);
                        assert(self@.balls =~= seq![
                            ball_spawn_spec(self.screen_w, self.screen_h, d),
                        ]);
                    }
                }
            },
        }
    }

    /// The short "continue" reset after a lost ball with lives remaining:
    /// fresh paddle, balls cleared; score, lives and blocks are preserved.
    pub fn still_alive(&mut self)
        requires
            screen_ok(old(self).screen_w, old(self).screen_h),
        ensures
            final(self)@ == (WorldModel {
                player: player_new_spec(old(self).screen_w, old(self).screen_h),
                balls: Seq::empty(),
                ..old(self)@
            }),
    {
        self.player = Player::new(self.screen_w, self.screen_h);
        self.balls.clear();
        proof {
            assert(self@.balls =~= Seq::<Ball>::empty());
        }
    }
}

} // verus!
