use platformer::article::{
    Article, Collision, CollisionResult, Element, Mass, COEFF_ONE, ITERATION_CAP,
};
use platformer::geometry::{Axis, Rect, Vec2};
use platformer::scratchpad::SCALAR_ONE;
use platformer::world::{global_forces, insert_article, prune_destroyed, step};

struct NoBehaviour;

impl Element for NoBehaviour {
    fn tick(&mut self, _tag: u32, _article: &mut Article, _articles: &mut Vec<Article>) {}

    fn collide(
        &mut self,
        _tag: u32,
        axis: Axis,
        top: &mut Article,
        bottom: &mut Article,
        intersection: &Rect,
    ) -> CollisionResult {
        Article::default_collide(axis, top, bottom, intersection)
    }
}

/// Asks for another scan every time, so only the cap ends the sweep.
struct Stubborn;

impl Element for Stubborn {
    fn tick(&mut self, _tag: u32, article: &mut Article, _articles: &mut Vec<Article>) {
        article.vel.x += 1000;
    }

    fn collide(
        &mut self,
        _tag: u32,
        _axis: Axis,
        _top: &mut Article,
        _bottom: &mut Article,
        _intersection: &Rect,
    ) -> CollisionResult {
        CollisionResult::DontPropagate(0)
    }
}

fn body(name: &str, x: i64, y: i64, w: i64, h: i64) -> Article {
    let mut a = Article::new(Rect::new(x, y, w, h), Some(vec![Rect::new(0, 0, w, h)]));
    a.name = name.to_string();
    a
}

#[test]
fn new_article_defaults() {
    let a = Article::new(Rect::new(2200, -200, 90, 141), None);
    assert_eq!(a.name, "Article");
    assert_eq!(a.pos, Vec2::new(2200, -200));
    assert_eq!(a.vel, Vec2::new(0, 0));
    assert_eq!(a.cog, Vec2::new(45, 70));
    assert_eq!(a.mass, Mass::Finite(1));
    assert_eq!(a.friction_coefficient, 900_000);
    assert_eq!(a.elasticity, 10_000);
    assert!(a.attached.is_none());
    assert!(a.attached_to.is_empty());
    assert!(a.is_well_formed());
}

#[test]
fn snap_zeroes_small_velocity() {
    let mut a = body("a", 0, 0, 10, 10);
    a.vel = Vec2::new(49, -49);
    a.snap_velocity();
    assert_eq!(a.vel, Vec2::new(0, 0));
    a.vel = Vec2::new(50, -51);
    a.snap_velocity();
    assert_eq!(a.vel, Vec2::new(50, -51));
}

#[test]
fn infinite_mass_keeps_velocity_in_elastic_collision() {
    let mut a = body("a", 0, 0, 10, 10);
    let mut b = body("b", 10, 0, 10, 10);
    a.elasticity = COEFF_ONE;
    b.elasticity = COEFF_ONE / 2;
    a.vel = Vec2::new(3000, 100);
    b.vel = Vec2::new(-700, 0);
    b.mass = Mass::Infinite;
    let r = Article::elastic_collide(Axis::X, &mut a, &mut b, &Rect::new(0, 0, 0, 0));
    assert_eq!(r, CollisionResult::DontPropagate(1));
    assert_eq!(b.vel, Vec2::new(-700, 0));
    assert_eq!(a.vel, Vec2::new(-1500, 100));
}

#[test]
fn zero_masses_stop_instead_of_failing() {
    let mut a = body("a", 0, 0, 10, 10);
    let mut b = body("b", 10, 0, 10, 10);
    a.mass = Mass::Finite(0);
    b.mass = Mass::Finite(0);
    a.vel = Vec2::new(3000, 0);
    b.vel = Vec2::new(-3000, 0);
    Article::elastic_collide(Axis::X, &mut a, &mut b, &Rect::new(0, 0, 0, 0));
    assert_eq!(a.vel, Vec2::new(0, 0));
    assert_eq!(b.vel, Vec2::new(0, 0));
}

#[test]
fn elastic_formula_unequal_masses() {
    let mut a = body("a", 0, 0, 10, 10);
    let mut b = body("b", 10, 0, 10, 10);
    a.mass = Mass::Finite(3);
    b.mass = Mass::Finite(1);
    a.elasticity = COEFF_ONE;
    b.elasticity = COEFF_ONE;
    a.vel = Vec2::new(0, 4000);
    b.vel = Vec2::new(0, 0);
    Article::elastic_collide(Axis::Y, &mut a, &mut b, &Rect::new(0, 0, 0, 0));
    // (3 - 1) / 4 * 4000 and 2 * 3 / 4 * 4000
    assert_eq!(a.vel, Vec2::new(0, 2000));
    assert_eq!(b.vel, Vec2::new(0, 6000));
}

#[test]
fn elastic_bounce_swaps_equal_masses() {
    let mut a = body("a", 0, 0, 10000, 10000);
    let mut b = body("b", 9000, 0, 10000, 10000);
    a.elasticity = COEFF_ONE;
    b.elasticity = COEFF_ONE;
    a.vel = Vec2::new(5000, 0);
    b.vel = Vec2::new(-5000, 0);
    let r = Article::default_collide(Axis::X, &mut a, &mut b, &Rect::new(9000, 0, 1000, 10000));
    assert_eq!(r, CollisionResult::DontPropagate(1));
    assert_eq!(a.vel.x, -5000);
    assert_eq!(b.vel.x, 5000);
    assert!(a.attached.is_none());
    assert!(b.attached.is_none());
}

#[test]
fn flat_stop_on_platform() {
    let mut a = body("mover", 0, 0, 10000, 10000);
    let mut platform = body("Platform", 0, 6000, 40000, 10000);
    platform.mass = Mass::Infinite;
    a.vel = Vec2::new(0, 10000);
    let r = Article::default_collide(Axis::Y, &mut a, &mut platform, &Rect::new(0, 6000, 10000, 4000));
    assert_eq!(r, CollisionResult::DontPropagate(-10));
    assert_eq!(a.vel.y, 6000);
    assert_eq!(a.pos, Vec2::new(0, 0));
    assert_eq!(a.attached, Some("Platform".to_string()));
    assert_eq!(platform.attached_to, vec!["mover".to_string()]);
    assert_eq!(platform.vel, Vec2::new(0, 0));
}

#[test]
fn flat_collide_pushes_against_motion_on_x() {
    let mut a = body("a", 0, 0, 10, 10);
    let mut wall = body("wall", 5, 0, 10, 10);
    wall.mass = Mass::Infinite;
    a.vel = Vec2::new(-300, 0);
    Article::flat_collide(Axis::X, &mut a, &mut wall, &Rect::new(0, 0, 200, 10));
    assert_eq!(a.vel.x, -100);
    a.vel = Vec2::new(300, 0);
    Article::flat_collide(Axis::X, &mut a, &mut wall, &Rect::new(0, 0, 200, 10));
    assert_eq!(a.vel.x, 100);
}

#[test]
fn tie_break_picks_shallowest() {
    let mut mover = body("mover", 0, 0, 10000, 10000);
    mover.vel = Vec2::new(1000, 0);
    let others = vec![body("deep", 6000, 0, 10000, 10000), body("shallow", 8000, 0, 10000, 10000)];
    let c = mover.find_collision(Axis::X, &others).unwrap();
    assert_eq!(c.bottom_index, 1);
    assert_eq!(c.intersection.w, 3000);
    let reversed = vec![body("shallow", 8000, 0, 10000, 10000), body("deep", 6000, 0, 10000, 10000)];
    let c = mover.find_collision(Axis::X, &reversed).unwrap();
    assert_eq!(c.bottom_index, 0);
    assert_eq!(c.intersection.w, 3000);
}

#[test]
fn thin_overlap_is_ignored() {
    let mut mover = body("mover", 0, 0, 10000, 10000);
    mover.vel = Vec2::new(1000, 0);
    let others = vec![body("ledge", 5000, 8500, 10000, 10000)];
    assert!(mover.find_collision(Axis::X, &others).is_none());
    let others = vec![body("ledge", 5000, 7900, 10000, 10000)];
    let c = mover.find_collision(Axis::X, &others).unwrap();
    assert_eq!(c.intersection.h, 2100);
}

#[test]
fn no_scan_without_velocity_or_bounds() {
    let mover = body("mover", 0, 0, 10000, 10000);
    let others = vec![body("over", 0, 0, 10000, 10000)];
    assert!(mover.find_collision(Axis::X, &others).is_none());
    let mut ghost = Article::new(Rect::new(0, 0, 10000, 10000), None);
    ghost.vel = Vec2::new(1000, 1000);
    assert!(ghost.find_collision(Axis::Y, &others).is_none());
}

#[test]
fn min_collision_prefers_shallower_and_new_on_tie() {
    let old = Collision { intersection: Rect::new(0, 0, 3, 9), bottom_index: 0 };
    let new = Collision { intersection: Rect::new(0, 0, 5, 4), bottom_index: 1 };
    assert_eq!(new.min_collision(Axis::X, Some(old)), Some(old));
    assert_eq!(new.min_collision(Axis::Y, Some(old)), Some(new));
    assert_eq!(new.min_collision(Axis::X, None), Some(new));
    let same = Collision { intersection: Rect::new(0, 0, 3, 9), bottom_index: 2 };
    assert_eq!(same.min_collision(Axis::X, Some(old)), Some(same));
}

#[test]
fn attach_and_detach_keep_links_symmetric() {
    let mut a = body("A", 0, 0, 10, 10);
    let mut scene = vec![body("B", 0, 10, 10, 10), body("C", 0, 20, 10, 10)];
    scene[0].attached_to.push("Z".to_string());
    a.attach("B".to_string(), &mut scene);
    assert_eq!(a.attached, Some("B".to_string()));
    assert_eq!(scene[0].attached_to, vec!["Z".to_string(), "A".to_string()]);
    a.attach("B".to_string(), &mut scene);
    assert_eq!(scene[0].attached_to, vec!["Z".to_string(), "A".to_string()]);
    a.remove_attachment(&mut scene);
    assert_eq!(a.attached, None);
    assert_eq!(scene[0].attached_to, vec!["Z".to_string()]);
    assert!(scene[1].attached_to.is_empty());
}

#[test]
fn attach_to_missing_article_only_sets_link() {
    let mut a = body("A", 0, 0, 10, 10);
    let mut scene = vec![body("B", 0, 10, 10, 10)];
    a.attach("nowhere".to_string(), &mut scene);
    assert_eq!(a.attached, Some("nowhere".to_string()));
    assert!(scene[0].attached_to.is_empty());
}

#[test]
fn friction_scales_cross_axis_velocity() {
    let mut a = body("a", 0, 0, 10, 10);
    a.vel = Vec2::new(1000, -2000);
    a.apply_friction(Axis::X);
    assert_eq!(a.vel, Vec2::new(1000, -1800));
    a.apply_friction(Axis::Y);
    assert_eq!(a.vel, Vec2::new(900, -1800));
}

#[test]
fn free_fall_moves_and_detaches() {
    let mut a = body("a", 0, 0, 10000, 10000);
    let mut scene = vec![body("floor", 0, 50000, 10000, 10000)];
    a.attach("floor".to_string(), &mut scene);
    a.vel = Vec2::new(30, 1500);
    a.calculate_collisions(&mut scene, &mut NoBehaviour);
    assert_eq!(a.vel, Vec2::new(0, 1500));
    assert_eq!(a.pos, Vec2::new(0, 1500));
    assert_eq!(a.attached, None);
    assert!(scene[0].attached_to.is_empty());
}

#[test]
fn landing_on_infinite_platform_rests_on_it() {
    let mut a = body("mover", 0, 0, 10000, 10000);
    a.vel = Vec2::new(0, 10000);
    let mut platform = body("Platform", 0, 16000, 40000, 10000);
    platform.mass = Mass::Infinite;
    let mut scene = vec![platform];
    let scans = a.resolve_axis(Axis::Y, &mut scene, &mut NoBehaviour);
    assert_eq!(scans, 1);
    // penetration 4000 taken off, then the article moves by what remains
    assert_eq!(a.vel, Vec2::new(0, 6000));
    assert_eq!(a.pos, Vec2::new(0, 6000));
    assert_eq!(a.attached, Some("Platform".to_string()));
    assert_eq!(scene[0].attached_to, vec!["mover".to_string()]);
}

#[test]
fn sweep_between_two_immovable_bodies_terminates() {
    let mut a = body("mover", 10000, 0, 10000, 10000);
    a.vel = Vec2::new(2000, 0);
    let mut left = body("left", 0, 0, 11000, 10000);
    left.mass = Mass::Infinite;
    let mut right = body("right", 19000, 0, 10000, 10000);
    right.mass = Mass::Infinite;
    let mut scene = vec![left, right];
    let scans = a.resolve_axis(Axis::X, &mut scene, &mut NoBehaviour);
    assert!(scans >= 1 && scans <= ITERATION_CAP);
    assert!(a.is_well_formed());

    a.do_collide = Some(0);
    a.vel = Vec2::new(2000, 0);
    let scans = a.resolve_axis(Axis::X, &mut scene, &mut Stubborn);
    assert_eq!(scans, ITERATION_CAP);
}

#[test]
fn global_forces_apply_gravity_and_drag() {
    let mut a = body("a", 0, 0, 10, 10);
    a.vel = Vec2::new(2000, 0);
    global_forces(&mut a);
    // y: 0 + 400 - 2, x: 2000 - 10
    assert_eq!(a.vel, Vec2::new(1990, 398));
    let mut rock = body("rock", 0, 0, 10, 10);
    rock.mass = Mass::Infinite;
    rock.vel = Vec2::new(2000, 0);
    global_forces(&mut rock);
    assert_eq!(rock.vel, Vec2::new(2000, 0));
}

#[test]
fn insert_rejects_duplicate_names() {
    let mut scene = Vec::new();
    assert!(insert_article(&mut scene, body("a", 0, 0, 10, 10)).is_ok());
    assert!(insert_article(&mut scene, body("b", 0, 0, 10, 10)).is_ok());
    let back = insert_article(&mut scene, body("a", 5, 5, 10, 10));
    assert_eq!(back.err().map(|a| a.pos), Some(Vec2::new(5, 5)));
    assert_eq!(scene.len(), 2);
}

#[test]
fn prune_removes_destroyed_in_order() {
    let mut scene = vec![body("a", 0, 0, 1, 1), body("b", 0, 0, 1, 1), body("c", 0, 0, 1, 1)];
    scene[1].do_destroy = true;
    prune_destroyed(&mut scene);
    let names: Vec<String> = scene.iter().map(|a| a.name.clone()).collect();
    assert_eq!(names, vec!["a".to_string(), "c".to_string()]);
}

#[test]
fn step_runs_behaviours_and_drops_destroyed() {
    let mut a = body("a", 0, 0, 10000, 10000);
    a.tick = Some(0);
    let mut gone = body("gone", 0, 100000, 10000, 10000);
    gone.do_destroy = true;
    let mut ground = body("ground", 0, 1000000, 10000, 10000);
    ground.mass = Mass::Infinite;
    let mut scene = vec![a, gone, ground];
    step(&mut scene, &mut Stubborn);
    assert_eq!(scene.len(), 2);
    assert_eq!(scene[0].name, "a");
    assert_eq!(scene[1].name, "ground");
    // gravity then drag on y; tick adds 1000 to x after drag
    assert_eq!(scene[0].vel, Vec2::new(1000, 398));
    assert_eq!(scene[0].pos, Vec2::new(1000, 398));
    assert_eq!(scene[1].pos, Vec2::new(0, 1000000));
}

#[test]
fn health_changes_with_cooldown() {
    let mut a = body("Player", 0, 0, 10, 10);
    a.scratchpad.insert("health".to_string(), 5 * SCALAR_ONE);
    a.scratchpad.insert("avail_health".to_string(), 5 * SCALAR_ONE);
    a.update_health_at(-SCALAR_ONE, 100);
    assert_eq!(a.scratchpad.get(&"health".to_string()), Some(4 * SCALAR_ONE));
    assert_eq!(a.scratchpad.get(&"most_recent_damage".to_string()), Some(100 * SCALAR_ONE));
    a.update_health_at(-SCALAR_ONE, 102);
    assert_eq!(a.scratchpad.get(&"health".to_string()), Some(4 * SCALAR_ONE));
    a.update_health_at(-SCALAR_ONE, 103);
    assert_eq!(a.scratchpad.get(&"health".to_string()), Some(3 * SCALAR_ONE));
    a.update_health_at(10 * SCALAR_ONE, 110);
    assert_eq!(a.scratchpad.get(&"health".to_string()), Some(5 * SCALAR_ONE));
    assert_eq!(a.scratchpad.get(&"most_recent_damage".to_string()), Some(103 * SCALAR_ONE));
}

#[test]
fn health_without_entry_only_records_damage() {
    let mut a = body("Enemy", 0, 0, 10, 10);
    a.update_health_at(-SCALAR_ONE, 7);
    assert_eq!(a.scratchpad.get(&"health".to_string()), None);
    assert_eq!(a.scratchpad.get(&"most_recent_damage".to_string()), Some(7 * SCALAR_ONE));
    let mut b = body("Player", 0, 0, 10, 10);
    b.scratchpad.insert("health".to_string(), SCALAR_ONE);
    b.update_health_at(-SCALAR_ONE, 86_399);
    assert_eq!(b.scratchpad.get(&"health".to_string()), Some(0));
    assert_eq!(b.scratchpad.get(&"most_recent_damage".to_string()), Some(86_399 * SCALAR_ONE));
}

#[test]
fn overlap_exactly_epsilon_thick_is_ignored() {
    let mut mover = body("mover", 0, 0, 10000, 10000);
    mover.vel = Vec2::new(1000, 0);
    let others = vec![body("ledge", 5000, 8000, 10000, 10000)];
    assert!(mover.find_collision(Axis::X, &others).is_none());
}

#[test]
fn sweep_round_reports_default_response() {
    let mut a = body("mover", 0, 0, 10000, 10000);
    a.vel = Vec2::new(0, 10000);
    let mut platform = body("Platform", 0, 16000, 40000, 10000);
    platform.mass = Mass::Infinite;
    let mut scene = vec![platform];
    assert_eq!(a.sweep_round(Axis::Y, &mut scene, &mut NoBehaviour, true), Some(-10));
    assert_eq!(a.vel, Vec2::new(0, 6000));
    assert_eq!(a.pos, Vec2::new(0, 0));
    let mut b = body("box", 0, 0, 10000, 10000);
    b.vel = Vec2::new(0, 10000);
    let mut crate_below = body("crate", 0, 16000, 10000, 10000);
    crate_below.elasticity = COEFF_ONE;
    b.elasticity = COEFF_ONE;
    let mut scene = vec![crate_below];
    assert_eq!(b.sweep_round(Axis::Y, &mut scene, &mut NoBehaviour, true), Some(1));
    assert_eq!(b.vel, Vec2::new(0, 0));
    assert_eq!(scene[0].vel, Vec2::new(0, 10000));
    assert_eq!(scene[0].attached_to, vec!["box".to_string()]);
}

#[test]
fn sweep_round_without_contact_ends_sweep() {
    let mut a = body("a", 0, 0, 10000, 10000);
    a.vel = Vec2::new(0, 500);
    let mut scene = vec![body("far", 100000, 100000, 10, 10)];
    a.attach("far".to_string(), &mut scene);
    assert_eq!(a.sweep_round(Axis::Y, &mut scene, &mut NoBehaviour, false), None);
    assert_eq!(a.attached, Some("far".to_string()));
    assert_eq!(a.sweep_round(Axis::Y, &mut scene, &mut NoBehaviour, true), None);
    assert_eq!(a.attached, None);
    assert!(scene[0].attached_to.is_empty());
}

/// Defers every contact to the obstacle.
struct Deferring;

impl Element for Deferring {
    fn tick(&mut self, _tag: u32, _article: &mut Article, _articles: &mut Vec<Article>) {}

    fn collide(
        &mut self,
        _tag: u32,
        _axis: Axis,
        _top: &mut Article,
        _bottom: &mut Article,
        _intersection: &Rect,
    ) -> CollisionResult {
        CollisionResult::Continue
    }
}

#[test]
fn deferral_lets_obstacle_respond_and_ends_sweep() {
    let mut a = body("mover", 0, 0, 10000, 10000);
    a.vel = Vec2::new(0, 10000);
    a.do_collide = Some(0);
    let mut platform = body("Platform", 0, 16000, 40000, 10000);
    platform.mass = Mass::Infinite;
    let mut scene = vec![platform];
    let scans = a.resolve_axis(Axis::Y, &mut scene, &mut Deferring);
    assert_eq!(scans, 1);
    // the platform's default response, roles reversed: the mover bounces
    // back scaled by 0.01 * 0.01 and comes to rest on the platform
    assert_eq!(a.vel, Vec2::new(0, -1));
    assert_eq!(a.pos, Vec2::new(0, -1));
    assert_eq!(a.attached, Some("Platform".to_string()));
    assert_eq!(scene[0].attached_to, vec!["mover".to_string()]);
    assert_eq!(scene[0].vel, Vec2::new(0, 0));
}

#[test]
fn settle_handled_contact_only_applies_friction() {
    let mut a = body("a", 0, 0, 10, 10);
    let mut b = body("b", 0, 10, 10, 10);
    a.vel = Vec2::new(1000, 300);
    let r = a.settle(Axis::Y, &mut b, &Rect::new(0, 10, 10, 0), CollisionResult::DontPropagate(3), &mut NoBehaviour);
    assert_eq!(r, Some(3));
    assert_eq!(a.vel, Vec2::new(900, 300));
    assert!(b.attached_to.is_empty());
}

#[test]
fn step_moves_untagged_scene_exactly() {
    let mut a = body("a", 0, 0, 10000, 10000);
    a.vel = Vec2::new(2000, 0);
    let mut ground = body("ground", 0, 1000000, 10000, 10000);
    ground.mass = Mass::Infinite;
    let mut scene = vec![a, ground];
    step(&mut scene, &mut NoBehaviour);
    // x: 2000 - 10 of drag; y: 400 of gravity less 2 of drag
    assert_eq!(scene[0].vel, Vec2::new(1990, 398));
    assert_eq!(scene[0].pos, Vec2::new(1990, 398));
    assert_eq!(scene[1].pos, Vec2::new(0, 1000000));
}
