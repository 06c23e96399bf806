use asteroid::buildings::BuildingsSet;
use asteroid::bullets::BulletsSet;
use asteroid::enemies::{EnemiesSet, SpawnDraw};
use asteroid::explosions::ExplosionsSet;
use asteroid::fires::FiresSet;
use asteroid::shape::{Shape, SUBPIXELS};

fn px(v: i64) -> i64 {
    v * SUBPIXELS
}

#[test]
fn spawn_appends_one_enemy_at_or_above_threshold() {
    let mut set = EnemiesSet::new();
    let draw = SpawnDraw { chance: 95, size: px(20), speed: 100, x: px(300) };
    set.update_with(draw, 0, px(800));
    assert_eq!(set.enemies.len(), 1);
    assert_eq!(set.enemies[0], Shape { size: px(20), speed: 100, x: px(300), y: -px(20), collided: false });
    let draw = SpawnDraw { chance: 99, size: px(40), speed: 60, x: px(100) };
    set.update_with(draw, 0, px(800));
    assert_eq!(set.enemies.len(), 2);
}

#[test]
fn no_spawn_below_threshold() {
    let mut set = EnemiesSet::new();
    for chance in 0..95 {
        let draw = SpawnDraw { chance, size: px(20), speed: 100, x: px(300) };
        set.update_with(draw, 0, px(800));
    }
    assert!(set.enemies.is_empty());
}

#[test]
fn random_spawning_spawns_sometimes() {
    let mut spawned = 0;
    let mut idle = 0;
    for _ in 0..3000 {
        let d = EnemiesSet::draw_spawn(px(800));
        assert!(0 <= d.chance && d.chance <= 99);
        if d.chance >= 95 {
            spawned += 1;
            assert!(px(16) <= d.size && d.size <= px(64));
            assert!(50 <= d.speed && d.speed <= 150);
            assert!(d.size / 2 <= d.x && d.x <= px(800) - d.size / 2);
        } else {
            idle += 1;
        }
    }
    assert!(spawned > 0);
    assert!(idle > spawned);
}

#[test]
fn random_update_spawns_at_most_one_enemy() {
    let mut set = EnemiesSet::new();
    for _ in 0..200 {
        let before = set.enemies.len();
        set.update(16_000, px(800), px(800));
        assert!(set.enemies.len() <= before + 1);
    }
}

#[test]
fn enemies_fall_and_leave_below_screen() {
    let mut set = EnemiesSet::new();
    set.push(Shape::new(px(100), px(780), px(32), 100));
    set.push(Shape::new(px(200), px(100), px(32), 100));
    set.advance(1_000_000);
    assert_eq!(set.enemies[0].y, px(880));
    assert_eq!(set.enemies[1].y, px(200));
    set.prune(px(800));
    // 880 is not below 800 + 32
    assert_eq!(set.enemies.len(), 1);
    assert_eq!(set.enemies[0].x, px(200));
}

#[test]
fn prune_removes_hit_enemies_and_is_idempotent() {
    let mut set = EnemiesSet::new();
    set.push(Shape::new(px(100), px(100), px(32), 100));
    set.push(Shape { collided: true, ..Shape::new(px(200), px(100), px(32), 100) });
    set.push(Shape::new(px(300), px(900), px(32), 100));
    set.prune(px(800));
    let once = set.enemies.clone();
    assert_eq!(once.len(), 1);
    set.prune(px(800));
    assert_eq!(set.enemies, once);
}

#[test]
fn bullets_rise_and_leave_above_screen() {
    let mut set = BulletsSet::new();
    set.push(Shape::new(px(100), px(20), px(32), 1000));
    set.push(Shape::new(px(100), px(400), px(32), 1000));
    set.update(10_000);
    // the first is at 10 px, above -16 px: it stays
    assert_eq!(set.bullets.len(), 2);
    assert_eq!(set.bullets[0].y, px(10));
    set.update(30_000);
    // the first is at -20 px, past -16 px: it goes
    assert_eq!(set.bullets.len(), 1);
    assert_eq!(set.bullets[0].y, px(360));
}

#[test]
fn bullets_prune_twice_is_prune_once() {
    let mut set = BulletsSet::new();
    set.push(Shape { collided: true, ..Shape::new(px(100), px(300), px(32), 1000) });
    set.push(Shape::new(px(100), px(200), px(32), 1000));
    set.push(Shape::new(px(100), -px(17), px(32), 1000));
    set.prune();
    let once = set.bullets.clone();
    assert_eq!(once.len(), 1);
    set.prune();
    assert_eq!(set.bullets, once);
}

#[test]
fn bullets_advance_is_linear() {
    let mut a = BulletsSet::new();
    a.push(Shape::new(px(100), px(700), px(32), 1000));
    a.push(Shape::new(px(200), px(600), px(32), 777));
    let mut b = BulletsSet::new();
    b.push(Shape::new(px(100), px(700), px(32), 1000));
    b.push(Shape::new(px(200), px(600), px(32), 777));
    a.advance(12_345);
    a.advance(54_321);
    b.advance(66_666);
    assert_eq!(a.bullets, b.bullets);
}

#[test]
fn bullets_collides_with_flags_and_reports_every_hit() {
    let mut set = BulletsSet::new();
    set.push(Shape::new(px(100), px(100), px(5), 1000));
    set.push(Shape::new(px(400), px(100), px(5), 1000));
    set.push(Shape::new(px(105), px(100), px(5), 1000));
    let enemy = Shape::new(px(100), px(100), px(32), 100);
    let found = set.collides_with(&enemy);
    assert_eq!(found, vec![0, 2]);
    assert!(set.bullets[0].collided);
    assert!(!set.bullets[1].collided);
    assert!(set.bullets[2].collided);
}

#[test]
fn clearing_sets_empties_them() {
    let mut bullets = BulletsSet::new();
    bullets.push(Shape::new(0, 0, px(5), 1));
    bullets.clear();
    assert!(bullets.bullets.is_empty());
    let mut enemies = EnemiesSet::new();
    enemies.push(Shape::new(0, 0, px(5), 1));
    enemies.clear();
    assert!(enemies.enemies.is_empty());
    let mut fires = FiresSet::new();
    fires.push(&Shape::new(0, 0, px(5), 1));
    assert_eq!(fires.get_list().len(), 1);
    fires.clear();
    assert!(fires.fires.is_empty());
}

#[test]
fn explosion_has_four_particles_per_pixel() {
    let mut set = ExplosionsSet::new();
    set.push(&Shape::new(px(10), px(20), px(32), 0));
    set.push(&Shape::new(px(30), px(40), 16_600_000, 0));
    let pending = set.take_pending();
    assert_eq!(pending.len(), 2);
    assert_eq!((pending[0].x, pending[0].y, pending[0].amount), (px(10), px(20), 128));
    assert_eq!(pending[1].amount, 68);
    assert!(set.explosions.is_empty());
}

#[test]
fn town_has_nine_buildings_on_the_ground() {
    let mut set = BuildingsSet::new();
    set.reset(px(800));
    let shapes = set.get_list();
    assert_eq!(shapes.len(), 9);
    assert_eq!(shapes[0], Shape { x: px(29), y: px(800) - px(40), speed: 0, size: px(86), collided: false });
    assert_eq!(shapes[8], Shape { x: px(774), y: px(800) - px(52), speed: 0, size: px(104), collided: false });
    assert_eq!(set.buildings[3].name, "labo");
    assert_eq!(shapes[4].y, px(800) - px(26));
    // a second reset gives the same town, not a bigger one
    set.reset(px(800));
    assert_eq!(set.get_list().len(), 9);
}

#[test]
fn all_destroyed_only_once_every_building_is_hit() {
    let mut set = BuildingsSet::new();
    assert!(set.all_destroyed());
    set.reset(px(800));
    assert!(!set.all_destroyed());
    for i in 0..8 {
        set.set_collided(i);
        assert!(!set.all_destroyed());
    }
    set.set_collided(8);
    assert!(set.all_destroyed());
}

#[test]
fn enemy_exactly_at_bottom_edge_stays() {
    let mut set = EnemiesSet::new();
    set.push(Shape::new(px(100), px(800) + px(32), px(32), 100));
    set.push(Shape::new(px(200), px(800) + px(32) + 1, px(32), 100));
    set.prune(px(800));
    assert_eq!(set.enemies.len(), 1);
    assert_eq!(set.enemies[0].x, px(100));
}

#[test]
fn enemy_falling_onto_bottom_edge_stays_for_the_frame() {
    let mut set = EnemiesSet::new();
    set.push(Shape::new(px(100), px(732), px(32), 100));
    let draw = SpawnDraw { chance: 0, size: px(16), speed: 50, x: 0 };
    set.update_with(draw, 1_000_000, px(800));
    assert_eq!(set.enemies.len(), 1);
    assert_eq!(set.enemies[0].y, px(832));
    set.update_with(draw, 1, px(800));
    assert!(set.enemies.is_empty());
}

#[test]
fn bullet_exactly_at_top_edge_stays() {
    let mut set = BulletsSet::new();
    set.push(Shape::new(px(100), px(4), px(32), 1000));
    set.update(20_000);
    // it rose to exactly -16 px, half its size above the top
    assert_eq!(set.bullets.len(), 1);
    assert_eq!(set.bullets[0].y, -px(16));
    set.update(1);
    assert!(set.bullets.is_empty());
}

#[test]
fn two_enemy_frames_equal_one_longer_frame() {
    let fill = |set: &mut EnemiesSet| {
        set.push(Shape::new(px(100), px(700), px(32), 150));
        set.push(Shape::new(px(200), px(100), px(20), 50));
        set.push(Shape::new(px(300), px(820), px(40), 120));
    };
    let draw = SpawnDraw { chance: 10, size: px(16), speed: 50, x: 0 };
    let mut a = EnemiesSet::new();
    fill(&mut a);
    a.update_with(draw, 400_000, px(800));
    a.update_with(draw, 500_000, px(800));
    let mut b = EnemiesSet::new();
    fill(&mut b);
    b.update_with(draw, 900_000, px(800));
    assert_eq!(a.enemies, b.enemies);
    // the first ends at 835 px, past 800 + 32; the third at 928 px, past 800 + 40
    assert_eq!(a.enemies.len(), 1);
    assert_eq!(a.enemies[0].y, px(145));
}

#[test]
fn two_bullet_frames_equal_one_longer_frame() {
    let fill = |set: &mut BulletsSet| {
        set.push(Shape::new(px(100), px(30), px(32), 1000));
        set.push(Shape::new(px(200), px(500), px(32), 1000));
    };
    let mut a = BulletsSet::new();
    fill(&mut a);
    a.update(20_000);
    a.update(30_000);
    let mut b = BulletsSet::new();
    fill(&mut b);
    b.update(50_000);
    assert_eq!(a.bullets, b.bullets);
    assert_eq!(a.bullets.len(), 1);
}
