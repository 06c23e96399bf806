use asteroid::buildings::BuildingsSet;
use asteroid::enemies::SpawnDraw;
use asteroid::game::{Collision, FrameInput, Game, GameState};
use asteroid::score::{parse_high_score, Score};
use asteroid::shape::{Shape, SUBPIXELS};
use asteroid::ship::{Ship, ShipControls, NB_LIFE};

fn px(v: i64) -> i64 {
    v * SUBPIXELS
}

fn playing(life_counter: bool) -> Game {
    let mut g = Game::new(px(800), px(800), 0, life_counter);
    g.play(px(800), px(800));
    g
}

const NO_KEYS: FrameInput = FrameInput {
    controls: ShipControls { right: false, left: false, down: false, up: false },
    shoot: false,
    pause: false,
};

const NO_SPAWN: SpawnDraw = SpawnDraw { chance: 0, size: 16_000_000, speed: 50, x: 0 };

#[test]
fn bullet_hit_scores_enemy_size() {
    let mut g = playing(false);
    g.enemies.push(Shape::new(px(100), px(100), px(32), 100));
    g.bullets.push(Shape::new(px(100), px(100), px(5), 1000));
    assert!(g.bullets.bullets[0].collides_with(&g.enemies.enemies[0]));
    g.resolve_collisions();
    assert!(g.enemies.enemies[0].collided);
    assert!(g.bullets.bullets[0].collided);
    assert_eq!(g.score.score, 32);
    assert_eq!(g.explosions.explosions.len(), 1);
    assert_eq!(g.state, GameState::Playing);
}

#[test]
fn two_bullets_on_one_enemy_score_twice() {
    let mut g = playing(false);
    g.enemies.push(Shape::new(px(100), px(100), px(32), 100));
    g.bullets.push(Shape::new(px(100), px(100), px(5), 1000));
    g.bullets.push(Shape::new(px(102), px(98), px(5), 1000));
    g.resolve_collisions();
    assert_eq!(g.score.score, 64);
    assert_eq!(g.explosions.explosions.len(), 2);
}

#[test]
fn enemy_on_building_sets_it_burning() {
    let mut g = playing(false);
    let b = g.buildings.get_list()[2];
    g.enemies.push(Shape::new(b.x, b.y, px(20), 100));
    g.resolve_collisions();
    assert!(g.buildings.buildings[2].shape.collided);
    assert!(g.enemies.enemies[0].collided);
    assert_eq!(g.buildings.buildings.len(), 9);
    assert!(!g.buildings.all_destroyed());
    assert_eq!(g.state, GameState::Playing);
    assert_eq!(g.explosions.explosions.len(), 1);
    assert_eq!(g.score.score, 0);
}

#[test]
fn whole_town_destroyed_ends_the_game() {
    let mut g = playing(false);
    let town = g.buildings.get_list();
    for b in town.iter() {
        g.enemies.push(Shape::new(b.x, b.y, px(20), 100));
    }
    g.resolve_collisions();
    assert!(g.buildings.all_destroyed());
    assert_eq!(g.state, GameState::GameOver);
}

#[test]
fn fire_makes_enemy_explode() {
    let mut g = playing(false);
    g.fires.push(&Shape::new(px(400), px(300), px(64), 0));
    g.enemies.push(Shape::new(px(400), px(300), px(20), 100));
    g.resolve_collisions();
    assert!(g.enemies.enemies[0].collided);
    assert_eq!(g.explosions.explosions.len(), 1);
    assert_eq!(g.fires.fires.len(), 1);
}

#[test]
fn ship_hit_without_life_counter_ends_game() {
    let mut g = playing(false);
    let s = g.ship.ship;
    g.enemies.push(Shape::new(s.x, s.y, px(20), 100));
    g.resolve_collisions();
    assert!(g.enemies.enemies[0].collided);
    assert_eq!(g.state, GameState::GameOver);
    assert_eq!(g.ship.life, NB_LIFE);
}

#[test]
fn ship_with_lives_ends_game_when_none_left() {
    let mut g = playing(true);
    let s = g.ship.ship;
    for hit in 1..=NB_LIFE {
        g.enemies.clear();
        g.enemies.push(Shape::new(s.x, s.y, px(20), 100));
        g.resolve_collisions();
        assert_eq!(g.ship.life, NB_LIFE - hit);
        if hit < NB_LIFE {
            assert_eq!(g.state, GameState::Playing);
        } else {
            assert_eq!(g.state, GameState::GameOver);
        }
    }
}

#[test]
fn react_to_each_kind() {
    let mut g = playing(false);
    g.enemies.push(Shape::new(px(100), px(100), px(32), 100));
    g.react(Collision::BulletEnemy, 0, 0);
    assert!(g.enemies.enemies[0].collided);
    assert_eq!(g.score.score, 32);
    g.react(Collision::FireEnemy, 0, 0);
    assert_eq!(g.explosions.explosions.len(), 2);
    g.react(Collision::BuildingEnemy, 0, 4);
    assert!(g.buildings.buildings[4].shape.collided);
    assert_eq!(g.state, GameState::Playing);
    g.react(Collision::ShipEnemy, 0, 0);
    assert_eq!(g.state, GameState::GameOver);
}

#[test]
fn state_machine_transitions() {
    let mut g = Game::new(px(800), px(800), 7, false);
    assert_eq!(g.state, GameState::MainMenu);
    g.pause();
    assert_eq!(g.state, GameState::MainMenu);
    g.play(px(800), px(800));
    assert_eq!(g.state, GameState::Playing);
    g.resume();
    assert_eq!(g.state, GameState::Playing);
    g.pause();
    assert_eq!(g.state, GameState::Paused);
    g.back_to_menu();
    assert_eq!(g.state, GameState::Paused);
    g.resume();
    assert_eq!(g.state, GameState::Playing);
    g.ship_hit();
    assert_eq!(g.state, GameState::GameOver);
    g.back_to_menu();
    assert_eq!(g.state, GameState::MainMenu);
}

#[test]
fn play_clears_everything() {
    let mut g = playing(true);
    g.enemies.push(Shape::new(px(1), px(1), px(20), 100));
    g.bullets.push(Shape::new(px(1), px(1), px(20), 100));
    g.fires.push(&Shape::new(px(1), px(1), px(20), 0));
    g.score.increase(40);
    g.ship.lose_life();
    g.ship.ship.x = px(3);
    g.play(px(800), px(600));
    assert!(g.enemies.enemies.is_empty());
    assert!(g.bullets.bullets.is_empty());
    assert!(g.fires.fires.is_empty());
    assert!(g.explosions.explosions.is_empty());
    assert_eq!(g.buildings.buildings.len(), 9);
    assert_eq!(g.score.score, 0);
    assert_eq!(g.score.high_score, 40);
    assert_eq!(g.ship.life, NB_LIFE);
    assert_eq!((g.ship.ship.x, g.ship.ship.y), (px(400), px(300)));
}

#[test]
fn frame_with_spawn_shoot_and_pause() {
    let mut g = playing(false);
    let input = FrameInput { shoot: true, pause: true, ..NO_KEYS };
    let draw = SpawnDraw { chance: 97, size: px(30), speed: 100, x: px(50) };
    g.playing_frame_with(input, draw, 10_000, px(800), px(800));
    assert_eq!(g.enemies.enemies.len(), 1);
    assert_eq!(g.enemies.enemies[0].y, -px(30) + px(1));
    assert_eq!(g.bullets.bullets.len(), 1);
    assert_eq!(g.bullets.bullets[0].y, px(400) - px(24));
    assert_eq!(g.state, GameState::Paused);
}

#[test]
fn frame_without_spawn_keeps_enemies_empty() {
    let mut g = playing(false);
    g.playing_frame_with(NO_KEYS, NO_SPAWN, 16_000, px(800), px(800));
    assert!(g.enemies.enemies.is_empty());
    assert_eq!(g.state, GameState::Playing);
}

#[test]
fn random_frames_run() {
    let mut g = playing(true);
    for _ in 0..100 {
        g.playing_frame(NO_KEYS, 16_000, px(800), px(800));
    }
    assert!(g.enemies.enemies.len() <= 100);
}

#[test]
fn ship_moves_and_stays_on_screen() {
    let mut ship = Ship::new(px(800), px(800));
    let right = ShipControls { right: true, left: false, down: false, up: false };
    ship.update(100_000, right, px(800), px(800));
    assert_eq!(ship.ship.x, px(450));
    ship.update(10_000_000, right, px(800), px(800));
    assert_eq!(ship.ship.x, px(800) - px(16));
    let up = ShipControls { right: false, left: false, down: false, up: true };
    ship.update(10_000_000, up, px(800), px(800));
    assert_eq!(ship.ship.y, px(16));
    let down = ShipControls { right: false, left: false, down: true, up: false };
    ship.update(10_000_000, down, px(800), px(800));
    assert_eq!(ship.ship.y, px(800) - px(16) - px(110));
    let both = ShipControls { right: true, left: true, down: false, up: false };
    let x = ship.ship.x;
    ship.update(100_000, both, px(800), px(800));
    assert_eq!(ship.ship.x, x);
}

#[test]
fn shot_starts_above_ship_twice_as_fast() {
    let ship = Ship::new(px(800), px(600));
    let b = ship.shoot();
    assert_eq!(b, Shape { x: px(400), y: px(300) - px(24), speed: 1000, size: px(32), collided: false });
}

#[test]
fn lives_do_not_go_below_zero() {
    let mut ship = Ship::new(px(800), px(800));
    for _ in 0..NB_LIFE - 1 {
        assert!(!ship.lose_life());
    }
    assert!(ship.lose_life());
    assert!(ship.lose_life());
    assert_eq!(ship.life, 0);
}

#[test]
fn score_only_grows_and_high_score_follows() {
    let mut s = Score::new(50);
    let mut last = 0;
    for v in [10u32, 0, 25, 30, 5] {
        s.increase(v);
        assert!(s.score >= last);
        last = s.score;
        assert_eq!(s.high_score, std::cmp::max(50, s.score));
    }
    assert_eq!(s.score, 70);
    assert_eq!(s.high_score, 70);
    assert!(s.is_high_score());
    s.reset();
    assert_eq!(s.score, 0);
    assert_eq!(s.high_score, 70);
    assert!(!s.is_high_score());
}

#[test]
fn score_saturates() {
    let mut s = Score::new(0);
    s.increase(u32::MAX - 1);
    s.increase(10);
    assert_eq!(s.score, u32::MAX);
    assert_eq!(s.high_score, u32::MAX);
}

#[test]
fn empty_town_counts_as_destroyed() {
    assert!(BuildingsSet::new().all_destroyed());
}

#[test]
fn stored_high_score_is_parsed_as_a_decimal_u32() {
    assert_eq!(parse_high_score("1234"), 1234);
    assert_eq!(parse_high_score("+7"), 7);
    assert_eq!(parse_high_score("007"), 7);
    assert_eq!(parse_high_score("0"), 0);
    assert_eq!(parse_high_score("4294967295"), u32::MAX);
}

#[test]
fn malformed_stored_high_score_counts_as_zero() {
    assert_eq!(parse_high_score(""), 0);
    assert_eq!(parse_high_score("+"), 0);
    assert_eq!(parse_high_score("-3"), 0);
    assert_eq!(parse_high_score("12a"), 0);
    assert_eq!(parse_high_score(" 5"), 0);
    assert_eq!(parse_high_score("++5"), 0);
    assert_eq!(parse_high_score("4294967296"), 0);
    assert_eq!(parse_high_score("99999999999999999999"), 0);
    assert_eq!(parse_high_score("٣"), 0);
}

#[test]
fn ship_reset_moves_it_only() {
    let mut ship = Ship::new(px(800), px(800));
    ship.lose_life();
    ship.lose_life();
    ship.ship.collided = true;
    ship.ship.x = px(10);
    ship.reset(px(600), px(400));
    assert_eq!((ship.ship.x, ship.ship.y), (px(300), px(200)));
    assert_eq!(ship.life, NB_LIFE - 2);
    assert!(ship.ship.collided);
    assert_eq!(ship.ship.size, px(16));
}

#[test]
fn high_score_is_best_score_across_resets() {
    let mut s = Score::new(20);
    let mut best = 0;
    let steps: [Option<u32>; 7] = [Some(15), Some(10), None, Some(5), None, Some(30), Some(1)];
    for step in steps {
        match step {
            Some(v) => s.increase(v),
            None => s.reset(),
        }
        best = std::cmp::max(best, s.score);
        assert_eq!(s.high_score, std::cmp::max(20, best));
        assert!(s.high_score >= s.score);
    }
    assert_eq!(s.score, 31);
    assert_eq!(s.high_score, 31);
}
