use breakout::entities::{Ball, Block, BlockColor, Player};
use breakout::geom::{resolve_collision, Rect, Vel};
use breakout::world::{GameState, World};

// Screen of 1000 x 700 px, in micropixels: the window size the game asks for.
const SW: i64 = 1_000_000_000;
const SH: i64 = 700_000_000;

fn down() -> Vel {
    Vel { x: 0, y: 1000 }
}

fn dirs(n: usize) -> Vec<Vel> {
    let mut v = Vec::new();
    for _ in 0..n {
        v.push(down());
    }
    v
}

#[test]
fn fresh_world_layout() {
    let w = World::new(SW, SH, down());
    assert_eq!(w.state, GameState::Menu);
    assert_eq!(w.score, 0);
    assert_eq!(w.lives, 3);
    assert_eq!(w.blocks.len(), 60);
    assert_eq!(w.balls.len(), 1);
    // Board is 1050 px wide, centered: it starts 25 px left of the screen.
    assert_eq!(w.blocks[0].rect.x, -25_000_000);
    assert_eq!(w.blocks[0].rect.y, 50_000_000);
    // Second row, second column.
    assert_eq!(w.blocks[11].rect.x, 80_000_000);
    assert_eq!(w.blocks[11].rect.y, 95_000_000);
    assert_eq!(w.blocks[0].lives, 2);
    // Paddle centered, 50 px above the bottom.
    assert_eq!(w.player.rect.x, 425_000_000);
    assert_eq!(w.player.rect.y, 650_000_000);
    // The first ball hangs 80 px below the screen center.
    assert_eq!(w.balls[0].rect.x, 500_000_000);
    assert_eq!(w.balls[0].rect.y, 430_000_000);
}

#[test]
fn player_moves_right_exactly() {
    let mut p = Player::new(SW, SH);
    p.update(false, true, 16, SW);
    // 700 px/s for 16 ms = 11.2 px.
    assert_eq!(p.rect.x, 436_200_000);
}

#[test]
fn player_both_keys_no_move() {
    let mut p = Player::new(SW, SH);
    p.update(true, true, 16, SW);
    assert_eq!(p.rect.x, 425_000_000);
}

#[test]
fn player_clamps_at_left_edge() {
    let mut p = Player::new(SW, SH);
    p.update(true, false, 1000, SW);
    assert_eq!(p.rect.x, 0);
}

#[test]
fn player_clamps_at_right_edge() {
    let mut p = Player::new(SW, SH);
    p.update(false, true, 1000, SW);
    assert_eq!(p.rect.x, SW - 150_000_000);
}

#[test]
fn resolve_miss_changes_nothing_twice() {
    let mut a = Rect { x: 0, y: 0, w: 50, h: 50 };
    let mut v = Vel { x: 3, y: 4 };
    let b = Rect { x: 1000, y: 1000, w: 10, h: 10 };
    assert!(!resolve_collision(&mut a, &mut v, &b));
    assert_eq!(a, Rect { x: 0, y: 0, w: 50, h: 50 });
    assert_eq!(v, Vel { x: 3, y: 4 });
    assert!(!resolve_collision(&mut a, &mut v, &b));
    assert_eq!(a, Rect { x: 0, y: 0, w: 50, h: 50 });
    assert_eq!(v, Vel { x: 3, y: 4 });
}

#[test]
fn resolve_horizontal_pushes_out() {
    // Overlap is 5 wide, 10 tall: horizontal bounce, b's center to the right.
    let mut a = Rect { x: 0, y: 0, w: 10, h: 10 };
    let mut v = Vel { x: 7, y: -2 };
    let b = Rect { x: 5, y: 0, w: 10, h: 10 };
    assert!(resolve_collision(&mut a, &mut v, &b));
    assert_eq!(a, Rect { x: -5, y: 0, w: 10, h: 10 });
    assert_eq!(v, Vel { x: -7, y: -2 });
    // No strict overlap on the x axis remains.
    assert!(a.x + a.w <= b.x);
}

#[test]
fn resolve_vertical_pushes_out() {
    // Overlap is 10 wide, 2 tall: vertical bounce, b's center below.
    let mut a = Rect { x: 0, y: 4, w: 10, h: 4 };
    let mut v = Vel { x: 3, y: 9 };
    let b = Rect { x: 0, y: 6, w: 10, h: 10 };
    assert!(resolve_collision(&mut a, &mut v, &b));
    assert_eq!(a, Rect { x: 0, y: 2, w: 10, h: 4 });
    assert_eq!(v, Vel { x: 3, y: -9 });
    assert!(a.y + a.h <= b.y);
}

#[test]
fn ball_left_wall_bounce() {
    // A ball exactly at the left boundary moving leftward comes out moving
    // rightward at full speed.
    let mut b = Ball::new(0, 100_000_000, Vel { x: -500, y: 500 });
    b.update(16, SW);
    assert_eq!(b.vel.x, 1000);
    assert_eq!(b.rect.x, -3_200_000);
    assert_eq!(b.rect.y, 103_200_000);
    assert_eq!(b.vel.y, 500);
}

#[test]
fn ball_right_wall_bounce() {
    let mut b = Ball::new(SW - 50_000_000, 100_000_000, Vel { x: 1000, y: 0 });
    b.update(1000, SW);
    assert_eq!(b.vel.x, -1000);
}

#[test]
fn ball_top_wall_bounce() {
    let mut b = Ball::new(300_000_000, 0, Vel { x: 0, y: -1000 });
    b.update(1, SW);
    assert_eq!(b.vel.y, 1000);
    assert_eq!(b.rect.y, -400_000);
}

#[test]
fn ball_free_flight_is_exact() {
    let mut b = Ball::new(300_000_000, 300_000_000, Vel { x: 250, y: -750 });
    b.update(20, SW);
    // 250/1000 of 400 px/s for 20 ms = 2 px; vertically -6 px.
    assert_eq!(b.rect.x, 302_000_000);
    assert_eq!(b.rect.y, 294_000_000);
    assert_eq!(b.vel, Vel { x: 250, y: -750 });
}

#[test]
fn block_colors_follow_lives() {
    let b = Block::new(0, 0);
    assert_eq!(b.lives, 2);
    assert_eq!(b.color(), BlockColor::Red);
    let worn = Block { lives: 1, ..b };
    assert_eq!(worn.color(), BlockColor::Orange);
    let fresh = Block { lives: 3, ..b };
    assert_eq!(fresh.color(), BlockColor::Green);
}

#[test]
fn menu_start_enters_game_with_a_ball() {
    let mut w = World::new(SW, SH, down());
    w.update(false, false, true, 16, &dirs(61));
    assert_eq!(w.state, GameState::Game);
    assert!(w.balls.len() >= 1);
    assert_eq!(w.balls.len(), 2);
}

#[test]
fn menu_without_start_idles() {
    let mut w = World::new(SW, SH, down());
    w.update(true, false, false, 16, &dirs(61));
    assert_eq!(w.state, GameState::Menu);
    assert_eq!(w.balls.len(), 1);
    assert_eq!(w.score, 0);
}

#[test]
fn losing_last_ball_with_one_life_dies() {
    let mut w = World::new(SW, SH, down());
    w.state = GameState::Game;
    w.lives = 1;
    w.balls.clear();
    let mut b = Ball::new(0, SH - 1, down());
    b.vel = Vel { x: 0, y: 1000 };
    w.balls.push(b);
    w.update(false, false, false, 1000, &dirs(61));
    assert_eq!(w.state, GameState::Dead);
    assert_eq!(w.lives, 0);
}

#[test]
fn losing_last_ball_with_lives_left_continues() {
    let mut w = World::new(SW, SH, down());
    w.state = GameState::Game;
    w.lives = 2;
    w.score = 40;
    w.balls.clear();
    w.balls.push(Ball::new(0, SH - 1, down()));
    w.update(false, false, false, 1000, &dirs(61));
    // Back to Menu with one fresh ball and a fresh paddle; score and blocks
    // are preserved (this is the short continue pause, not a full reset).
    assert_eq!(w.state, GameState::Menu);
    assert_eq!(w.lives, 1);
    assert_eq!(w.score, 40);
    assert_eq!(w.balls.len(), 1);
    assert_eq!(w.balls[0].rect.y, 430_000_000);
    assert_eq!(w.player.rect.x, 425_000_000);
    assert_eq!(w.blocks.len(), 60);
}

#[test]
fn destroying_last_block_completes_level() {
    let mut w = World::new(SW, SH, down());
    w.state = GameState::Game;
    w.blocks.truncate(1);
    w.blocks[0].lives = 1;
    let bx = w.blocks[0].rect.x;
    let by = w.blocks[0].rect.y;
    w.balls.clear();
    // A ball overlapping the block; zero elapsed time, so the sweep sees it
    // exactly there.
    w.balls.push(Ball::new(bx, by, Vel { x: 0, y: -500 }));
    w.update(false, false, false, 0, &dirs(2));
    assert_eq!(w.state, GameState::LevelCompleted);
    assert_eq!(w.blocks.len(), 0);
    // The destruction awarded exactly 10 and spawned a replacement ball.
    assert_eq!(w.score, 10);
    assert_eq!(w.balls.len(), 2);
}

#[test]
fn hit_block_loses_exactly_one_life() {
    let mut w = World::new(SW, SH, down());
    w.state = GameState::Game;
    w.blocks.truncate(1);
    assert_eq!(w.blocks[0].lives, 2);
    let bx = w.blocks[0].rect.x;
    let by = w.blocks[0].rect.y;
    w.balls.clear();
    w.balls.push(Ball::new(bx, by, Vel { x: 0, y: -500 }));
    w.update(false, false, false, 0, &dirs(2));
    // One collision event: one life lost, no score, no spawn, block kept.
    assert_eq!(w.blocks.len(), 1);
    assert_eq!(w.blocks[0].lives, 1);
    assert_eq!(w.score, 0);
    assert_eq!(w.balls.len(), 1);
    assert_eq!(w.state, GameState::Game);
}

#[test]
fn dead_start_fully_resets_and_spawns() {
    let mut w = World::new(SW, SH, down());
    w.state = GameState::Dead;
    w.score = 55;
    w.lives = 0;
    w.balls.clear();
    w.blocks.truncate(7);
    w.update(false, false, true, 16, &dirs(1));
    assert_eq!(w.state, GameState::Menu);
    assert_eq!(w.score, 0);
    assert_eq!(w.lives, 3);
    assert_eq!(w.blocks.len(), 60);
    assert_eq!(w.balls.len(), 1);
}

#[test]
fn level_completed_start_resets_without_spawn() {
    let mut w = World::new(SW, SH, down());
    w.state = GameState::LevelCompleted;
    w.score = 600;
    w.balls.clear();
    w.blocks.clear();
    w.update(false, false, true, 16, &dirs(1));
    // Same full reset as from Dead, but no immediate ball: Menu spawns one
    // on its own start press (a deliberate asymmetry).
    assert_eq!(w.state, GameState::Menu);
    assert_eq!(w.score, 0);
    assert_eq!(w.lives, 3);
    assert_eq!(w.blocks.len(), 60);
    assert_eq!(w.balls.len(), 0);
}

#[test]
fn paddle_deflects_ball_without_score() {
    let mut w = World::new(SW, SH, down());
    w.state = GameState::Game;
    w.balls.clear();
    // A ball overlapping the paddle's top, centers vertically offset so the
    // wide overlap bounces it upward.
    let px = w.player.rect.x;
    let py = w.player.rect.y;
    w.balls.push(Ball::new(px + 50_000_000, py - 40_000_000, Vel { x: 0, y: 800 }));
    w.update(false, false, false, 0, &dirs(61));
    assert_eq!(w.score, 0);
    assert_eq!(w.balls.len(), 1);
    assert_eq!(w.balls[0].vel.y, -800);
    assert_eq!(w.state, GameState::Game);
}
