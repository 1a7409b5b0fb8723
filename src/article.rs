//! Articles: the bodies of the scene, and the collision responses between them.
use vstd::prelude::*;
use crate::geometry::{
    Axis, Rect, Vec2, clamp, saturate, in_range, intersection_of, offset_of, COORD_LIMIT,
};
use crate::scratchpad::{Scratchpad, SCALAR_ONE};

verus! {

/// Velocity components of smaller magnitude than this are snapped to zero
/// before each sweep (0.05 pixel per tick).
pub const SNAP_THRESHOLD: i64 = 50;

/// Intersections no thicker than this across the swept axis are glancing
/// contacts and are ignored (2 pixels).
pub const CONTACT_EPSILON: i64 = 2000;

/// Scale of friction and elasticity coefficients: `1.0` is `COEFF_ONE`.
pub const COEFF_ONE: u32 = 1_000_000;

/// Square of `COEFF_ONE`: the scale of a product of two coefficients.
pub const COEFF_ONE_SQUARED: i128 = 1_000_000_000_000;

/// Upper bound on the number of scans in one axis sweep.
pub const ITERATION_CAP: u32 = 20;

/// Mass of an article: a finite amount, or infinite for immovable terrain.
#[derive(Clone, Copy, Debug, PartialEq, Eq, Structural)]
pub enum Mass {
    Finite(u32),
    Infinite,
}

impl Mass {
    /// The mass is a finite amount.
    pub fn is_finite(&self) -> (r: bool)
        ensures
            r == (*self is Finite),
    {
        match self {
            Mass::Finite(_) => true,
            Mass::Infinite => false,
        }
    }
}

/// What a collision response asks of the sweep that called it.
#[derive(Clone, Copy, Debug, PartialEq, Eq, Structural)]
pub enum CollisionResult {
    /// Handled: the amount is added to the sweep's counter. A large negative
    /// amount ends the sweep; a small positive one asks for another scan.
    DontPropagate(i8),
    /// Not handled here: let the obstacle respond, and end the sweep.
    Continue,
}

/// The contact that a sweep chose: the overlap, and the index of the
/// obstacle among the other articles.
#[derive(Clone, Copy, Debug, PartialEq, Eq, Structural)]
pub struct Collision {
    pub intersection: Rect,
    pub bottom_index: usize,
}

/// A body of the scene.
#[derive(Debug)]
pub struct Article {
    /// Unique within the scene; used to find the article and to link to it.
    pub name: String,
    /// Top-left corner of the local space, in sub-pixel units.
    pub pos: Vec2,
    /// Collision rectangles in local space; `None` or empty: never collides.
    pub bounds: Option<Vec<Rect>>,
    /// Velocity, in sub-pixel units per tick.
    pub vel: Vec2,
    pub mass: Mass,
    /// Center of gravity, in local space.
    pub cog: Vec2,
    /// Share of the velocity across the axis kept after a contact, over `COEFF_ONE`.
    pub friction_coefficient: u32,
    /// Bounciness, over `COEFF_ONE`; two articles' coefficients multiply.
    pub elasticity: u32,
    /// Set to have the article removed at the end of the current step.
    pub do_destroy: bool,
    /// Behaviour run each tick, as a tag for the scene's `Element`.
    pub tick: Option<u32>,
    /// Collision response replacing the default one, as a tag for the scene's `Element`.
    pub do_collide: Option<u32>,
    /// Drawing override, as a tag for whoever draws the scene.
    pub draw: Option<u32>,
    /// Name of the article this one rests on.
    pub attached: Option<String>,
    /// Names of the articles resting on this one.
    pub attached_to: Vec<String>,
    /// Scalars that behaviours keep between ticks.
    pub scratchpad: Scratchpad,
}

/// Every rectangle of `rects` lies inside the world.
pub open spec fn rects_wf(rects: Seq<Rect>) -> bool {
    forall|i: int| 0 <= i < rects.len() ==> (#[trigger] rects[i]).wf()
}

/// Every rectangle of `bounds` lies inside the world.
pub open spec fn bounds_wf(bounds: Option<Vec<Rect>>) -> bool {
    match bounds {
        Some(b) => rects_wf(b@),
        None => true,
    }
}

/// `v` with magnitude under the snap threshold becomes zero.
pub open spec fn snapped(v: i64) -> i64 {
    if -SNAP_THRESHOLD < v < SNAP_THRESHOLD {
        0
    } else {
        v
    }
}

/// Integer quotient rounded toward zero, for a positive divisor.
pub open spec fn div_trunc(n: int, d: int) -> int {
    if n >= 0 {
        n / d
    } else {
        -((-n) / d)
    }
}

/// `v` reversed and scaled by the combined elasticity `e`.
pub open spec fn reflected(v: int, e: int) -> i64 {
    clamp(div_trunc(-v * e, COEFF_ONE_SQUARED as int)) as i64
}

/// Velocities along the axis after an elastic collision of a body of mass `ma`
/// moving at `va` with one of mass `mb` moving at `vb`, scaled by the combined
/// elasticity `e` (over `COEFF_ONE_SQUARED`). An infinite mass keeps its
/// velocity; two zero masses stop.
pub open spec fn elastic_pair(ma: Mass, mb: Mass, va: i64, vb: i64, e: int) -> (i64, i64) {
    match (ma, mb) {
        (Mass::Infinite, Mass::Infinite) => (va, vb),
        (Mass::Finite(_), Mass::Infinite) => (reflected(va as int, e), vb),
        (Mass::Infinite, Mass::Finite(_)) => (va, reflected(vb as int, e)),
        (Mass::Finite(ma), Mass::Finite(mb)) => {
            let total = ma + mb;
            if total == 0 {
                (0, 0)
            } else {
                let den = total * COEFF_ONE_SQUARED;
                (
                    clamp(div_trunc(((ma - mb) * va + 2 * mb * vb) * e, den)) as i64,
                    clamp(div_trunc((2 * ma * va - (ma - mb) * vb) * e, den)) as i64,
                )
            }
        },
    }
}

/// Velocity along `axis` that flat resolution gives `a` against `b`: pushed
/// away from `b` by the penetration depth.
pub open spec fn flat_velocity(axis: Axis, a: Article, b: Article, intersection: Rect) -> i64 {
    match axis {
        Axis::X => if a.vel.x <= 0 {
            clamp(a.vel.x + intersection.w) as i64
        } else {
            clamp(a.vel.x - intersection.w) as i64
        },
        Axis::Y => if a.pos.y > b.pos.y {
            clamp(a.vel.y + intersection.h) as i64
        } else {
            clamp(a.vel.y - intersection.h) as i64
        },
    }
}

/// `riders` with `name` added at the end, unless a rider of that name is there.
pub open spec fn rider_added(riders: Seq<String>, name: String) -> Seq<String> {
    if exists|i: int| 0 <= i < riders.len() && riders[i]@ == name@ {
        riders
    } else {
        riders.push(name)
    }
}

/// `riders` without any rider called `name`.
pub open spec fn rider_removed(riders: Seq<String>, name: Seq<char>) -> Seq<String> {
    riders.filter(|r: String| r@ != name)
}

fn in_world(v: i64) -> (r: bool)
    ensures
        r == in_range(v as int),
{
    -COORD_LIMIT <= v && v <= COORD_LIMIT
}

/// Half of `v`, rounded toward zero.
fn half(v: i64) -> (r: i64)
    requires
        in_range(v as int),
    ensures
        r == div_trunc(v as int, 2),
{
    if v >= 0 {
        v / 2
    } else {
        -((-v) / 2)
    }
}

impl Article {
    /// The article's numbers lie in the ranges its arithmetic works in.
    pub open spec fn wf(&self) -> bool {
        &&& self.pos.wf()
        &&& self.vel.wf()
        &&& self.cog.wf()
        &&& self.friction_coefficient <= COEFF_ONE
        &&& self.elasticity <= COEFF_ONE
        &&& bounds_wf(self.bounds)
        &&& self.scratchpad.wf()
    }

    /// Checks `wf` at run time, for callers that build articles field by field.
    pub fn is_well_formed(&self) -> (r: bool)
        requires
            self.scratchpad.wf(),
        ensures
            r == self.wf(),
    {
        if !(in_world(self.pos.x) && in_world(self.pos.y) && in_world(self.vel.x) && in_world(
            self.vel.y,
        ) && in_world(self.cog.x) && in_world(self.cog.y)) {
            return false;
        }
        if self.friction_coefficient > COEFF_ONE || self.elasticity > COEFF_ONE {
            return false;
        }
        match &self.bounds {
            Some(b) => {
                assert(bounds_wf(self.bounds) == rects_wf(b@));
                let mut i: usize = 0;
                while i < b.len()
                    invariant
                        0 <= i <= b@.len(),
                        bounds_wf(self.bounds) == rects_wf(b@),
                        forall|j: int| 0 <= j < i ==> (#[trigger] b@[j]).wf(),
                    decreases b@.len() - i,
                {
                    let rect = b[i];
                    if !(in_world(rect.x) && in_world(rect.y) && in_world(rect.w) && in_world(
                        rect.h,
                    )) {
                        assert(!rects_wf(b@));
                        return false;
                    }
                    i = i + 1;
                }
                true
            },
            None => true,
        }
    }

    /// A finite-mass article of mass 1 occupying `dest`, at rest, with the
    /// given collision rectangles.
    pub fn new(dest: Rect, bounds: Option<Vec<Rect>>) -> (r: Article)
        requires
            dest.wf(),
            bounds_wf(bounds),
        ensures
            r.wf(),
            r.pos == (Vec2 { x: dest.x, y: dest.y }),
            r.bounds == bounds,
            r.vel == (Vec2 { x: 0, y: 0 }),
            r.mass == Mass::Finite(1),
            r.cog.x == div_trunc(dest.w as int, 2),
            r.cog.y == div_trunc(dest.h as int, 2),
            r.friction_coefficient == 900_000,
            r.elasticity == 10_000,
            !r.do_destroy,
            r.tick is None && r.do_collide is None && r.draw is None,
            r.attached is None,
            r.attached_to@.len() == 0,
            r.scratchpad@ == Map::<Seq<char>, i64>::empty(),
            r.name@ == seq!['A', 'r', 't', 'i', 'c', 'l', 'e'],
    {
        let name = String::from_str("Article");
        proof {
            reveal_strlit("Article");
        }
        Article {
            name,
            pos: Vec2 { x: dest.x, y: dest.y },
            bounds,
            vel: Vec2 { x: 0, y: 0 },
            mass: Mass::Finite(1),
            cog: Vec2 { x: half(dest.w), y: half(dest.h) },
            friction_coefficient: 900_000,
            elasticity: 10_000,
            do_destroy: false,
            tick: None,
            do_collide: None,
            draw: None,
            attached: None,
            attached_to: Vec::new(),
            scratchpad: Scratchpad::new(),
        }
    }
}

/// Bound on the numerators of the elastic formula.
pub const NUMERATOR_BOUND: i128 = 0x0100_0000_0000_0000_0000_0000_0000_0000;

/// `|x * y| <= bx * by` where `|x| <= bx` and `|y| <= by`.
pub proof fn lemma_mul_bound(x: int, y: int, bx: int, by: int)
    requires
        -bx <= x <= bx,
        -by <= y <= by,
    ensures
        -(bx * by) <= x * y <= bx * by,
{
    assert(-(bx * by) <= x * y <= bx * by) by (nonlinear_arith)
        requires
            -bx <= x <= bx,
            -by <= y <= by,
    ;
}

/// The numerators of the elastic formula fit comfortably in an `i128`.
proof fn lemma_elastic_numerators(ma: int, mb: int, va: int, vb: int, e: int)
    requires
        0 <= ma <= u32::MAX,
        0 <= mb <= u32::MAX,
        in_range(va),
        in_range(vb),
        0 <= e <= COEFF_ONE_SQUARED,
    ensures
        -NUMERATOR_BOUND <= ((ma - mb) * va + 2 * mb * vb) * e
            <= NUMERATOR_BOUND,
        -NUMERATOR_BOUND <= (2 * ma * va - (ma - mb) * vb) * e
            <= NUMERATOR_BOUND,
{
    let m: int = 0x1_0000_0000;
    let l: int = COORD_LIMIT as int;
    lemma_mul_bound(ma - mb, va, m, l);
    lemma_mul_bound(ma - mb, vb, m, l);
    lemma_mul_bound(2 * mb, vb, 2 * m, l);
    lemma_mul_bound(2 * ma, va, 2 * m, l);
    assert(2 * mb * vb == (2 * mb) * vb) by (nonlinear_arith);
    assert(2 * ma * va == (2 * ma) * va) by (nonlinear_arith);
    let big: int = 3 * m * l;
    assert(big == 3 * 0x1_0000_0000 * 1_099_511_627_776);
    lemma_mul_bound((ma - mb) * va + 2 * mb * vb, e, big, COEFF_ONE_SQUARED as int);
    lemma_mul_bound(2 * ma * va - (ma - mb) * vb, e, big, COEFF_ONE_SQUARED as int);
}

/// Integer quotient rounded toward zero.
pub fn div_toward_zero(n: i128, d: i128) -> (r: i128)
    requires
        d > 0,
        -NUMERATOR_BOUND <= n <= NUMERATOR_BOUND,
    ensures
        r == div_trunc(n as int, d as int),
{
    if n >= 0 {
        n / d
    } else {
        let m = -n;
        assert(m / d <= m) by (nonlinear_arith)
            requires
                m >= 0,
                d > 0,
        ;
        -(m / d)
    }
}

/// Reverses `v` and scales it by the combined elasticity `e`.
fn reflect(v: i64, e: i128) -> (r: i64)
    requires
        in_range(v as int),
        0 <= e <= COEFF_ONE_SQUARED,
    ensures
        r == reflected(v as int, e as int),
{
    proof {
        lemma_mul_bound(-v, e as int, COORD_LIMIT as int, COEFF_ONE_SQUARED as int);
    }
    saturate(div_toward_zero(-(v as i128) * e, COEFF_ONE_SQUARED))
}

/// Removes every rider called `name` from `riders`.
fn remove_rider(riders: &mut Vec<String>, name: &String)
    ensures
        final(riders)@ == rider_removed(old(riders)@, name@),
{
    let ghost start = riders@;
    let mut kept: Vec<String> = Vec::new();
    let mut i: usize = 0;
    while i < riders.len()
        invariant
            riders@ == start,
            0 <= i <= start.len(),
            kept@ == rider_removed(start.subrange(0, i as int), name@),
        decreases start.len() - i,
    {
        proof {
            assert(start.subrange(0, i + 1) == start.subrange(0, i as int).push(start[i as int]));
            start.subrange(0, i as int).lemma_filter_push(start[i as int], |r: String| r@ != name@);
        }
        if riders[i] != *name {
            kept.push(riders[i].clone());
        }
        i = i + 1;
    }
    assert(start.subrange(0, start.len() as int) == start);
    *riders = kept;
}

/// Adds `name` to `riders` unless a rider of that name is there.
fn add_rider(riders: &mut Vec<String>, name: &String)
    ensures
        final(riders)@ == rider_added(old(riders)@, *name),
{
    let mut i: usize = 0;
    while i < riders.len()
        invariant
            0 <= i <= riders@.len(),
            forall|j: int| 0 <= j < i ==> riders@[j]@ != name@,
        decreases riders@.len() - i,
    {
        if riders[i] == *name {
            return;
        }
        i = i + 1;
    }
    riders.push(name.clone());
}

impl Article {
    /// Velocity components under the snap threshold become exactly zero.
    pub fn snap_velocity(&mut self)
        ensures
            *final(self) == (Article {
                vel: Vec2 { x: snapped(old(self).vel.x), y: snapped(old(self).vel.y) },
                ..*old(self)
            }),
    {
        if -SNAP_THRESHOLD < self.vel.x && self.vel.x < SNAP_THRESHOLD {
            self.vel.x = 0;
        }
        if -SNAP_THRESHOLD < self.vel.y && self.vel.y < SNAP_THRESHOLD {
            self.vel.y = 0;
        }
    }

    /// Elastic collision of `a` and `b` along `axis`, scaled by the product of
    /// their elasticities. Asks for another scan.
    pub fn elastic_collide(axis: Axis, a: &mut Article, b: &mut Article, _intersection: &Rect) -> (r:
        CollisionResult)
        requires
            old(a).wf(),
            old(b).wf(),
        ensures
            r == CollisionResult::DontPropagate(1),
            final(a).wf(),
            final(b).wf(),
            ({
                let v = elastic_pair(
                    old(a).mass,
                    old(b).mass,
                    old(a).vel.along(axis),
                    old(b).vel.along(axis),
                    old(a).elasticity * old(b).elasticity,
                );
                &&& *final(a) == Article { vel: old(a).vel.with_along(axis, v.0), ..*old(a) }
                &&& *final(b) == Article { vel: old(b).vel.with_along(axis, v.1), ..*old(b) }
            }),
    {
        proof {
            lemma_mul_bound(a.elasticity as int, b.elasticity as int, COEFF_ONE as int, COEFF_ONE as int);
        }
        let e = a.elasticity as i128 * b.elasticity as i128;
        let va = a.vel.component(axis);
        let vb = b.vel.component(axis);
        let (av, bv) = match (a.mass, b.mass) {
            (Mass::Infinite, Mass::Infinite) => (va, vb),
            (Mass::Finite(_), Mass::Infinite) => (reflect(va, e), vb),
            (Mass::Infinite, Mass::Finite(_)) => (va, reflect(vb, e)),
            (Mass::Finite(ma), Mass::Finite(mb)) => {
                let total = ma as i128 + mb as i128;
                if total == 0 {
                    (0i64, 0i64)
                } else {
                    proof {
                        lemma_elastic_numerators(ma as int, mb as int, va as int, vb as int, e as int);
                        lemma_mul_bound(total as int, COEFF_ONE_SQUARED as int, 0x2_0000_0000, COEFF_ONE_SQUARED as int);
                        lemma_mul_bound(ma - mb, va as int, 0x1_0000_0000, COORD_LIMIT as int);
                        lemma_mul_bound(ma - mb, vb as int, 0x1_0000_0000, COORD_LIMIT as int);
                        lemma_mul_bound(2 * mb, vb as int, 0x2_0000_0000, COORD_LIMIT as int);
                        lemma_mul_bound(2 * ma, va as int, 0x2_0000_0000, COORD_LIMIT as int);
                    }
                    let (ma, mb, va, vb) = (ma as i128, mb as i128, va as i128, vb as i128);
                    let den = total * COEFF_ONE_SQUARED;
                    let na = ((ma - mb) * va + 2 * mb * vb) * e;
                    let nb = (2 * ma * va - (ma - mb) * vb) * e;
                    (saturate(div_toward_zero(na, den)), saturate(div_toward_zero(nb, den)))
                }
            },
        };
        a.vel.set_component(axis, av);
        b.vel.set_component(axis, bv);
        CollisionResult::DontPropagate(1)
    }

    /// Inelastic collision of `a` against an immovable `b`: `a`'s velocity
    /// along `axis` is pushed away from `b` by the penetration depth. Ends the
    /// sweep.
    pub fn flat_collide(axis: Axis, a: &mut Article, b: &mut Article, intersection: &Rect) -> (r:
        CollisionResult)
        requires
            old(a).wf(),
        ensures
            r == CollisionResult::DontPropagate(-10i8),
            final(a).wf(),
            *final(b) == *old(b),
            *final(a) == (if old(a).mass is Finite {
                Article {
                    vel: old(a).vel.with_along(axis, flat_velocity(axis, *old(a), *old(b), *intersection)),
                    ..*old(a)
                }
            } else {
                *old(a)
            }),
    {
        if a.mass.is_finite() {
            match axis {
                Axis::X => {
                    if a.vel.x <= 0 {
                        a.vel.x = saturate(a.vel.x as i128 + intersection.w as i128);
                    } else {
                        a.vel.x = saturate(a.vel.x as i128 - intersection.w as i128);
                    }
                },
                Axis::Y => {
                    if a.pos.y > b.pos.y {
                        a.vel.y = saturate(a.vel.y as i128 + intersection.h as i128);
                    } else {
                        a.vel.y = saturate(a.vel.y as i128 - intersection.h as i128);
                    }
                },
            }
        }
        CollisionResult::DontPropagate(-10)
    }
}

/// `i` is the first index in `s` of an article called `k`.
pub open spec fn is_first_named(s: Seq<Article>, k: Seq<char>, i: int) -> bool {
    &&& 0 <= i < s.len()
    &&& s[i].name@ == k
    &&& forall|j: int| 0 <= j < i ==> (#[trigger] s[j]).name@ != k
}

/// Index of the first article called `k` in `s`, if any.
pub open spec fn first_named(s: Seq<Article>, k: Seq<char>) -> Option<int> {
    if exists|i: int| is_first_named(s, k, i) {
        Some(choose|i: int| is_first_named(s, k, i))
    } else {
        None
    }
}

proof fn lemma_first_named_unique(s: Seq<Article>, k: Seq<char>, i: int)
    requires
        is_first_named(s, k, i),
    ensures
        first_named(s, k) == Some(i),
{
    let j = choose|j: int| is_first_named(s, k, j);
    assert(is_first_named(s, k, j));
    if j < i {
        assert(s[j].name@ != k);
    } else if i < j {
        assert(s[i].name@ != k);
    }
}

/// Finds the first article called `name`.
pub fn find_named(articles: &Vec<Article>, name: &String) -> (r: Option<usize>)
    ensures
        match r {
            Some(i) => first_named(articles@, name@) == Some(i as int),
            None => first_named(articles@, name@) is None,
        },
        r is None <==> forall|i: int| 0 <= i < articles@.len() ==> (#[trigger] articles@[i]).name@ != name@,
{
    let mut i: usize = 0;
    while i < articles.len()
        invariant
            0 <= i <= articles@.len(),
            forall|j: int| 0 <= j < i ==> (#[trigger] articles@[j]).name@ != name@,
        decreases articles@.len() - i,
    {
        if articles[i].name == *name {
            proof {
                lemma_first_named_unique(articles@, name@, i as int);
            }
            return Some(i);
        }
        i = i + 1;
    }
    assert(!exists|j: int| is_first_named(articles@, name@, j));
    None
}

/// Velocities of `a` and `b` after the default response's resolution step:
/// elastic against a finite mass, flat against an infinite one.
pub open spec fn collide_velocities(axis: Axis, a: Article, b: Article, intersection: Rect) -> (Vec2, Vec2) {
    if b.mass is Finite {
        let v = elastic_pair(a.mass, b.mass, a.vel.along(axis), b.vel.along(axis), a.elasticity * b.elasticity);
        (a.vel.with_along(axis, v.0), b.vel.with_along(axis, v.1))
    } else if a.mass is Finite {
        (a.vel.with_along(axis, flat_velocity(axis, a, b, intersection)), b.vel)
    } else {
        (a.vel, b.vel)
    }
}

/// `after` is the scene `before` once `a` stops resting on what it rested on:
/// the first article of that name loses every rider called like `a`.
pub open spec fn detached(a: Article, before: Seq<Article>, after: Seq<Article>) -> bool {
    match a.attached {
        Some(k) => match first_named(before, k@) {
            Some(i) => {
                &&& after.len() == before.len()
                &&& after[i].attached_to@ == rider_removed(before[i].attached_to@, a.name@)
                &&& after[i] == Article { attached_to: after[i].attached_to, ..before[i] }
                &&& forall|j: int| 0 <= j < before.len() && j != i ==> after[j] == before[j]
            },
            None => after == before,
        },
        None => after == before,
    }
}

/// `a2` and `b2` are what the default response makes of `a` meeting `b`
/// along `axis`: the velocities of `collide_velocities`, and on the Y axis the
/// upper one resting on the lower one.
pub open spec fn default_response(axis: Axis, a: Article, b: Article, intersection: Rect, a2: Article, b2: Article) -> bool {
    let v = collide_velocities(axis, a, b, intersection);
    let a1 = Article { vel: v.0, ..a };
    let b1 = Article { vel: v.1, ..b };
    if axis == Axis::X {
        a2 == a1 && b2 == b1
    } else if a.pos.y < b.pos.y {
        rests_on(a1, a2, b) && gains_rider(b1, b2, a)
    } else {
        gains_rider(a1, a2, b) && rests_on(b1, b2, a)
    }
}

/// What the default response returns against `b`.
pub open spec fn default_result(b: Article) -> CollisionResult {
    if b.mass is Finite {
        CollisionResult::DontPropagate(1i8)
    } else {
        CollisionResult::DontPropagate(-10i8)
    }
}

/// `after` is `before` with `upper` now resting on it.
pub open spec fn gains_rider(before: Article, after: Article, upper: Article) -> bool {
    &&& after.attached_to@ == rider_added(before.attached_to@, upper.name)
    &&& after == Article { attached_to: after.attached_to, ..before }
}

/// `after` is `before` now resting on `lower`.
pub open spec fn rests_on(before: Article, after: Article, lower: Article) -> bool {
    after == Article { attached: Some(lower.name), ..before }
}

impl Article {
    /// Rests this article on the one called `attachment`, which gains this
    /// article among its riders unless it already has it.
    pub fn attach(&mut self, attachment: String, articles: &mut Vec<Article>)
        ensures
            *final(self) == (Article { attached: Some(attachment), ..*old(self) }),
            match first_named(old(articles)@, attachment@) {
                Some(i) => {
                    &&& final(articles)@.len() == old(articles)@.len()
                    &&& gains_rider(old(articles)@[i], final(articles)@[i], *old(self))
                    &&& forall|j: int| 0 <= j < old(articles)@.len() && j != i
                        ==> final(articles)@[j] == old(articles)@[j]
                },
                None => final(articles)@ == old(articles)@,
            },
    {
        match find_named(articles, &attachment) {
            Some(i) => {
                add_rider(&mut articles[i].attached_to, &self.name);
            },
            None => {},
        }
        self.attached = Some(attachment);
    }

    /// Clears what this article rests on, and removes it from that article's
    /// riders.
    pub fn remove_attachment(&mut self, articles: &mut Vec<Article>)
        ensures
            *final(self) == (Article { attached: None, ..*old(self) }),
            detached(*old(self), old(articles)@, final(articles)@),
    {
        match &self.attached {
            Some(key) => match find_named(articles, key) {
                Some(i) => {
                    remove_rider(&mut articles[i].attached_to, &self.name);
                },
                None => {},
            },
            None => {},
        }
        self.attached = None;
    }

    /// The engine's own response: on the Y axis the upper article comes to
    /// rest on the lower one; then elastic resolution against a finite mass,
    /// flat resolution against an infinite one.
    pub fn default_collide(axis: Axis, a: &mut Article, b: &mut Article, intersection: &Rect) -> (r:
        CollisionResult)
        requires
            old(a).wf(),
            old(b).wf(),
        ensures
            r == default_result(*old(b)),
            final(a).wf(),
            final(b).wf(),
            default_response(axis, *old(a), *old(b), *intersection, *final(a), *final(b)),
    {
        if axis == Axis::Y {
            if a.pos.y < b.pos.y {
                a.attached = Some(b.name.clone());
                add_rider(&mut b.attached_to, &a.name);
            } else {
                b.attached = Some(a.name.clone());
                add_rider(&mut a.attached_to, &b.name);
            }
        }
        if b.mass.is_finite() {
            Self::elastic_collide(axis, a, b, intersection)
        } else {
            Self::flat_collide(axis, a, b, intersection)
        }
    }
}

impl Collision {
    /// The shallower of this contact and `a` along `axis`; this one on a tie.
    pub fn min_collision(&self, axis: Axis, a: Option<Collision>) -> (r: Option<Collision>)
        ensures
            r == Some(
                match a {
                    Some(c) => if c.intersection.extent(axis) < self.intersection.extent(axis) {
                        c
                    } else {
                        *self
                    },
                    None => *self,
                },
            ),
    {
        match a {
            Some(c) => {
                let depth = match axis {
                    Axis::X => (c.intersection.w, self.intersection.w),
                    Axis::Y => (c.intersection.h, self.intersection.h),
                };
                if depth.0 < depth.1 {
                    Some(c)
                } else {
                    Some(*self)
                }
            },
            None => Some(*self),
        }
    }
}

/// Every article of `s` is well formed.
pub open spec fn all_wf(s: Seq<Article>) -> bool {
    forall|i: int| 0 <= i < s.len() ==> (#[trigger] s[i]).wf()
}

/// The collision rectangles of `a`; none where its bounds are `None`.
pub open spec fn rects_of(a: Article) -> Seq<Rect> {
    match a.bounds {
        Some(b) => b@,
        None => Seq::empty(),
    }
}

/// The part of `v` along `axis`, as a vector.
pub open spec fn axis_delta(v: Vec2, axis: Axis) -> Vec2 {
    match axis {
        Axis::X => Vec2 { x: v.x, y: 0 },
        Axis::Y => Vec2 { x: 0, y: v.y },
    }
}

/// The contact that the sweep of `a` along `axis` finds between its local
/// rectangle `t`, advanced by its velocity along `axis`, and the local
/// rectangle `b` of `others[j]`: their overlap, unless it is a glancing one no
/// thicker than `CONTACT_EPSILON` across the axis.
pub open spec fn contact(a: Article, others: Seq<Article>, axis: Axis, t: int, j: int, b: int) -> Option<
    Rect,
> {
    if a.vel.along(axis) != 0 && 0 <= t < rects_of(a).len() && 0 <= j < others.len() && 0 <= b
        < rects_of(others[j]).len() {
        let top = offset_of(offset_of(rects_of(a)[t], axis_delta(a.vel, axis)), a.pos);
        let bottom = offset_of(rects_of(others[j])[b], others[j].pos);
        match intersection_of(bottom, top) {
            Some(r) => if r.across(axis) > CONTACT_EPSILON {
                Some(r)
            } else {
                None
            },
            None => None,
        }
    } else {
        None
    }
}

/// `(t1, j1, b1)` comes before `(t2, j2, b2)` in the sweep's scan order.
pub open spec fn scanned_before(t1: int, j1: int, b1: int, t2: int, j2: int, b2: int) -> bool {
    t1 < t2 || (t1 == t2 && (j1 < j2 || (j1 == j2 && b1 < b2)))
}

/// The contact `(t, j, b)` is the one the sweep keeps: no contact is shallower
/// along `axis`, and none later in scan order is as shallow.
pub open spec fn is_chosen(a: Article, others: Seq<Article>, axis: Axis, t: int, j: int, b: int) -> bool {
    &&& contact(a, others, axis, t, j, b) is Some
    &&& forall|t2: int, j2: int, b2: int| #[trigger]
        contact(a, others, axis, t2, j2, b2) is Some ==> {
            let d = contact(a, others, axis, t, j, b)->Some_0.extent(axis);
            let d2 = contact(a, others, axis, t2, j2, b2)->Some_0.extent(axis);
            &&& d <= d2
            &&& scanned_before(t, j, b, t2, j2, b2) ==> d < d2
        }
}

/// The sweep finds no contact at all.
pub open spec fn no_contact(a: Article, others: Seq<Article>, axis: Axis) -> bool {
    forall|t: int, j: int, b: int| #[trigger] contact(a, others, axis, t, j, b) is None
}

/// `acc` is what the scan holds once every triple before `(tt, jj, bb)` is seen,
/// the kept one being `(ct, c.bottom_index, cb)`.
spec fn kept_before(
    a: Article,
    others: Seq<Article>,
    axis: Axis,
    acc: Option<Collision>,
    ct: int,
    cb: int,
    tt: int,
    jj: int,
    bb: int,
) -> bool {
    match acc {
        None => forall|t: int, j: int, b: int|
            scanned_before(t, j, b, tt, jj, bb) ==> #[trigger] contact(a, others, axis, t, j, b) is None,
        Some(c) => {
            let cj = c.bottom_index as int;
            &&& contact(a, others, axis, ct, cj, cb) == Some(c.intersection)
            &&& scanned_before(ct, cj, cb, tt, jj, bb)
            &&& forall|t: int, j: int, b: int|
                scanned_before(t, j, b, tt, jj, bb) && #[trigger] contact(a, others, axis, t, j, b) is Some
                    ==> {
                    let d2 = contact(a, others, axis, t, j, b)->Some_0.extent(axis);
                    &&& c.intersection.extent(axis) <= d2
                    &&& scanned_before(ct, cj, cb, t, j, b) ==> c.intersection.extent(axis) < d2
                }
        },
    }
}

impl Article {
    /// The sweep's scan along `axis`: the shallowest contact between this
    /// article, advanced by its velocity along `axis`, and the other articles;
    /// the last such in scan order on a tie. `None` when nothing is touched.
    pub fn find_collision(&self, axis: Axis, articles: &Vec<Article>) -> (r: Option<Collision>)
        requires
            self.wf(),
            all_wf(articles@),
        ensures
            match r {
                None => no_contact(*self, articles@, axis),
                Some(c) => chosen_contact(*self, articles@, axis, c),
            },
    {
        let ghost me = *self;
        let ghost others = articles@;
        let tops = match &self.bounds {
            Some(tb) => tb,
            None => {
                return None;
            },
        };
        let v = self.vel.component(axis);
        if v == 0 {
            return None;
        }
        let delta = match axis {
            Axis::X => Vec2 { x: v, y: 0 },
            Axis::Y => Vec2 { x: 0, y: v },
        };
        let mut acc: Option<Collision> = None;
        let ghost mut ct: int = 0;
        let ghost mut cb: int = 0;
        let mut t: usize = 0;
        while t < tops.len()
            invariant
                me == *self,
                others == articles@,
                all_wf(others),
                me.wf(),
                rects_of(me) == tops@,
                delta == axis_delta(me.vel, axis),
                me.vel.along(axis) != 0,
                0 <= t <= tops@.len(),
                kept_before(me, others, axis, acc, ct, cb, t as int, 0, 0),
            decreases tops@.len() - t,
        {
            assert(tops@[t as int].wf());
            let top = tops[t].offset(delta).offset(self.pos);
            let mut j: usize = 0;
            while j < articles.len()
                invariant
                    me == *self,
                    others == articles@,
                    all_wf(others),
                    me.wf(),
                    rects_of(me) == tops@,
                    delta == axis_delta(me.vel, axis),
                    me.vel.along(axis) != 0,
                    0 <= t < tops@.len(),
                    top == offset_of(offset_of(tops@[t as int], delta), me.pos),
                    top.wide(),
                    0 <= j <= others.len(),
                    kept_before(me, others, axis, acc, ct, cb, t as int, j as int, 0),
                decreases others.len() - j,
            {
                let bottom = &articles[j];
                assert(bottom.wf());
                let bottoms = match &bottom.bounds {
                    Some(bb) => bb,
                    None => {
                        assert(forall|b: int| contact(me, others, axis, t as int, j as int, b) is None);
                        j = j + 1;
                        continue;
                    },
                };
                let mut b: usize = 0;
                while b < bottoms.len()
                    invariant
                        me == *self,
                        others == articles@,
                        all_wf(others),
                        me.wf(),
                        rects_of(me) == tops@,
                        delta == axis_delta(me.vel, axis),
                        me.vel.along(axis) != 0,
                        0 <= t < tops@.len(),
                        top == offset_of(offset_of(tops@[t as int], delta), me.pos),
                        top.wide(),
                        0 <= j < others.len(),
                        *bottom == others[j as int],
                        rects_of(*bottom) == bottoms@,
                        0 <= b <= bottoms@.len(),
                        kept_before(me, others, axis, acc, ct, cb, t as int, j as int, b as int),
                    decreases bottoms@.len() - b,
                {
                    assert(bottoms@[b as int].wf());
                    let placed = bottoms[b].offset(bottom.pos);
                    let found = placed.intersect(&top);
                    let ghost before = acc;
                    match found {
                        Some(intersection) => {
                            let across = match axis {
                                Axis::X => intersection.h,
                                Axis::Y => intersection.w,
                            };
                            if across > CONTACT_EPSILON {
                                let here = Collision { intersection, bottom_index: j };
                                acc = here.min_collision(axis, acc);
                                proof {
                                    if acc == Some(here) {
                                        ct = t as int;
                                        cb = b as int;
                                    }
                                }
                            }
                        },
                        None => {},
                    }
                    assert(kept_before(me, others, axis, acc, ct, cb, t as int, j as int, b + 1));
                    b = b + 1;
                }
                assert(forall|b2: int| b2 >= bottoms@.len() ==> #[trigger] contact(me, others, axis, t as int, j as int, b2) is None);
                j = j + 1;
            }
            assert(forall|j2: int, b2: int| j2 >= others.len() ==> #[trigger] contact(me, others, axis, t as int, j2, b2) is None);
            t = t + 1;
        }
        assert(forall|t2: int, j2: int, b2: int| t2 >= tops@.len() ==> #[trigger] contact(me, others, axis, t2, j2, b2) is None);
        match acc {
            Some(c) => {
                assert(contact(me, others, axis, ct, c.bottom_index as int, cb) == Some(c.intersection));
                assert(is_chosen(me, others, axis, ct, c.bottom_index as int, cb));
            },
            None => {},
        }
        acc
    }
}

/// The behaviours of a scene: what the tags that articles carry stand for.
/// Implementations keep the articles they are handed well formed.
pub trait Element {
    /// Runs the tick behaviour `tag` of `article`, which sees the rest of the scene.
    fn tick(&mut self, tag: u32, article: &mut Article, articles: &mut Vec<Article>)
        requires
            old(article).wf(),
            all_wf(old(articles)@),
        ensures
            final(article).wf(),
            all_wf(final(articles)@),
    ;

    /// Runs the collision response `tag` for `top` meeting `bottom` along
    /// `axis` with overlap `intersection`.
    fn collide(
        &mut self,
        tag: u32,
        axis: Axis,
        top: &mut Article,
        bottom: &mut Article,
        intersection: &Rect,
    ) -> (r: CollisionResult)
        requires
            old(top).wf(),
            old(bottom).wf(),
        ensures
            final(top).wf(),
            final(bottom).wf(),
    ;
}

/// `v` scaled by the coefficient `f` over `COEFF_ONE`, rounded toward zero.
pub open spec fn scaled(v: i64, f: u32) -> i64 {
    clamp(div_trunc(v * f, COEFF_ONE as int)) as i64
}

/// `a` after friction for a contact along `axis`: its velocity across the
/// axis scaled by its friction coefficient.
pub open spec fn rubbed(a: Article, axis: Axis) -> Article {
    match axis {
        Axis::X => Article { vel: Vec2 { y: scaled(a.vel.y, a.friction_coefficient), ..a.vel }, ..a },
        Axis::Y => Article { vel: Vec2 { x: scaled(a.vel.x, a.friction_coefficient), ..a.vel }, ..a },
    }
}

/// `c` is the contact that the sweep of `a` along `axis` keeps.
pub open spec fn chosen_contact(a: Article, others: Seq<Article>, axis: Axis, c: Collision) -> bool {
    exists|t: int, b: int|
        #[trigger] contact(a, others, axis, t, c.bottom_index as int, b) == Some(c.intersection)
            && is_chosen(a, others, axis, t, c.bottom_index as int, b)
}

/// One round of a sweep in which the default response decides: `a` and the
/// obstacle of the chosen contact `c` respond as `default_response` says,
/// then `a` feels friction; nothing else changes.
pub open spec fn default_round(
    axis: Axis,
    a: Article,
    before: Seq<Article>,
    c: Collision,
    a_after: Article,
    after: Seq<Article>,
) -> bool {
    let j = c.bottom_index as int;
    &&& 0 <= j < before.len()
    &&& after.len() == before.len()
    &&& forall|k: int| 0 <= k < before.len() && k != j ==> after[k] == before[k]
    &&& exists|mid: Article|
        default_response(axis, a, before[j], c.intersection, mid, after[j]) && a_after == rubbed(
            mid,
            axis,
        )
}

/// The amount a handled contact adds to the sweep's counter; `None` for a
/// deferral, which ends the sweep.
pub open spec fn settled_count(answer: CollisionResult) -> Option<i8> {
    match answer {
        CollisionResult::DontPropagate(n) => Some(n),
        CollisionResult::Continue => None,
    }
}

/// `a2` and `b2` are what the sweep makes of mover `a` and obstacle `b` once
/// the mover answered `answer`: a handled contact leaves the obstacle as it
/// is; a deferral lets the obstacle respond with the roles reversed, by the
/// default response where it has none of its own. The mover then feels
/// friction.
pub open spec fn settled(
    axis: Axis,
    a: Article,
    b: Article,
    intersection: Rect,
    answer: CollisionResult,
    a2: Article,
    b2: Article,
) -> bool {
    match answer {
        CollisionResult::DontPropagate(_) => a2 == rubbed(a, axis) && b2 == b,
        CollisionResult::Continue => b.do_collide is None ==> exists|mid: Article|
            #![trigger rubbed(mid, axis)]
            default_response(axis, b, a, intersection, b2, mid) && a2 == rubbed(mid, axis),
    }
}

/// One round of a sweep that met the contact `c`: the mover's response turned
/// `a` and the obstacle into `t1` and `b1` and answered `answer` (the default
/// response where the mover has none of its own); then the sweep settled as
/// `settled` says. The other articles stay as they are.
pub open spec fn responded(
    axis: Axis,
    a: Article,
    before: Seq<Article>,
    c: Collision,
    t1: Article,
    b1: Article,
    answer: CollisionResult,
    a_after: Article,
    after: Seq<Article>,
) -> bool {
    let j = c.bottom_index as int;
    &&& 0 <= j < before.len()
    &&& after.len() == before.len()
    &&& forall|k: int| 0 <= k < before.len() && k != j ==> after[k] == before[k]
    &&& t1.wf()
    &&& b1.wf()
    &&& a.do_collide is None ==> default_response(axis, a, before[j], c.intersection, t1, b1)
        && answer == default_result(before[j])
    &&& settled(axis, t1, b1, c.intersection, answer, a_after, after[j])
}

/// The amount the default response against `b` adds to the sweep's counter.
pub open spec fn default_count(b: Article) -> int {
    if b.mass is Finite {
        1
    } else {
        -10
    }
}

/// The rest of a sweep along `axis` for an article without a response of its
/// own, from `a` in the scene `s` with the counter at `counter` after `scans`
/// scans, ends with `a_end` in the scene `s_end`, before the final move. While
/// the counter lies strictly between zero and `ITERATION_CAP` and fewer than
/// `ITERATION_CAP` scans were made, each scan either touches nothing, which
/// ends the sweep (and on the first scan of a Y sweep with Y motion clears what
/// the article rests on), or takes a default round and adds its amount.
pub open spec fn sweep_rest(
    axis: Axis,
    a: Article,
    s: Seq<Article>,
    counter: int,
    scans: int,
    a_end: Article,
    s_end: Seq<Article>,
) -> bool
    decreases ITERATION_CAP - scans,
{
    if 0 < counter < ITERATION_CAP && 0 <= scans < ITERATION_CAP {
        if no_contact(a, s, axis) {
            if axis == Axis::Y && a.vel.y != 0 && scans == 0 {
                a_end == Article { attached: None, ..a } && detached(a, s, s_end)
            } else {
                a_end == a && s_end == s
            }
        } else {
            exists|c: Collision, a1: Article, s1: Seq<Article>|
                #![trigger default_round(axis, a, s, c, a1, s1)]
                chosen_contact(a, s, axis, c) && default_round(axis, a, s, c, a1, s1) && sweep_rest(
                    axis,
                    a1,
                    s1,
                    counter + default_count(s[c.bottom_index as int]),
                    scans + 1,
                    a_end,
                    s_end,
                )
        }
    } else {
        a_end == a && s_end == s
    }
}

/// `a2` carries the same behaviour tags as `a`.
pub open spec fn tags_kept(a: Article, a2: Article) -> bool {
    a2.tick == a.tick && a2.do_collide == a.do_collide && a2.draw == a.draw
}

/// Every article of `s2` carries the tags of the article at its place in `s`.
pub open spec fn all_tags_kept(s: Seq<Article>, s2: Seq<Article>) -> bool {
    s2.len() == s.len() && forall|k: int| 0 <= k < s.len() ==> tags_kept(#[trigger] s[k], s2[k])
}

/// `a` moved by its velocity along `axis`.
pub open spec fn drifted(a: Article, axis: Axis) -> Article {
    Article { pos: a.pos.with_along(axis, clamp(a.pos.along(axis) + a.vel.along(axis)) as i64), ..a }
}

/// What one sweep along `axis` does when it touches nothing: the article
/// stops resting on anything if it moves along Y, and drifts by its velocity.
pub open spec fn free_sweep(
    axis: Axis,
    a: Article,
    before: Seq<Article>,
    a_after: Article,
    after: Seq<Article>,
) -> bool {
    if axis == Axis::Y && a.vel.y != 0 {
        &&& a_after == Article { attached: None, ..drifted(a, axis) }
        &&& detached(a, before, after)
    } else {
        &&& a_after == drifted(a, axis)
        &&& after == before
    }
}

/// What one sweep of `a` along `axis` guarantees, taking the scene from
/// `before` to `after` and `a` to `a_after`: everything stays well formed and
/// in place; touching nothing, `a` sweeps freely; with no response of its own,
/// `a` goes through the rounds `sweep_rest` describes and then drifts, and
/// every article keeps its tags.
pub open spec fn swept_along(axis: Axis, a: Article, before: Seq<Article>, a_after: Article, after: Seq<Article>) -> bool {
    &&& a_after.wf()
    &&& all_wf(after)
    &&& after.len() == before.len()
    &&& no_contact(a, before, axis) ==> free_sweep(axis, a, before, a_after, after)
    &&& a.do_collide is None ==> exists|a1: Article|
        #![trigger sweep_rest(axis, a, before, 1, 0, a1, after)]
        sweep_rest(axis, a, before, 1, 0, a1, after) && a_after == drifted(a1, axis)
    &&& a.do_collide is None ==> tags_kept(a, a_after) && all_tags_kept(before, after)
}

/// What resolving `a` against the scene `s` for one step gives, `a2` in the
/// scene `s2`: the velocity is snapped, then one sweep along X and one along Y
/// as `swept_along` says.
pub open spec fn collided(a: Article, s: Seq<Article>, a2: Article, s2: Seq<Article>) -> bool {
    &&& a2.wf()
    &&& all_wf(s2)
    &&& s2.len() == s.len()
    &&& exists|ax: Article, sx: Seq<Article>|
        #![trigger swept_along(Axis::X, snapped_article(a), s, ax, sx)]
        swept_along(Axis::X, snapped_article(a), s, ax, sx) && swept_along(Axis::Y, ax, sx, a2, s2)
}

/// `a` with both velocity components snapped.
pub open spec fn snapped_article(a: Article) -> Article {
    Article { vel: Vec2 { x: snapped(a.vel.x), y: snapped(a.vel.y) }, ..a }
}

impl Article {
    /// Friction after a contact along `axis`: the velocity across the axis is
    /// scaled by the friction coefficient.
    pub fn apply_friction(&mut self, axis: Axis)
        requires
            old(self).wf(),
        ensures
            final(self).wf(),
            *final(self) == rubbed(*old(self), axis),
    {
        let f = self.friction_coefficient as i128;
        let v = match axis {
            Axis::X => self.vel.y,
            Axis::Y => self.vel.x,
        };
        proof {
            lemma_mul_bound(v as int, f as int, COORD_LIMIT as int, COEFF_ONE as int);
        }
        let w = saturate(div_toward_zero(v as i128 * f, COEFF_ONE as i128));
        match axis {
            Axis::X => self.vel.y = w,
            Axis::Y => self.vel.x = w,
        }
    }

    /// Moves the article by its velocity along `axis`.
    pub fn integrate(&mut self, axis: Axis)
        requires
            old(self).wf(),
        ensures
            final(self).wf(),
            *final(self) == drifted(*old(self), axis),
    {
        let p = self.pos.component(axis) as i128 + self.vel.component(axis) as i128;
        self.pos.set_component(axis, saturate(p));
    }

    /// What the sweep does with the mover's answer `answer` to its contact
    /// `intersection` with `bottom`: a deferral lets the obstacle respond with
    /// the roles reversed (the obstacle first) and ends the sweep; a handled
    /// contact adds its amount to the sweep's counter. The mover then feels
    /// friction. Returns the amount, or `None` for a deferral.
    pub fn settle<E: Element>(
        &mut self,
        axis: Axis,
        bottom: &mut Article,
        intersection: &Rect,
        answer: CollisionResult,
        elements: &mut E,
    ) -> (r: Option<i8>)
        requires
            old(self).wf(),
            old(bottom).wf(),
        ensures
            final(self).wf(),
            final(bottom).wf(),
            r == settled_count(answer),
            settled(axis, *old(self), *old(bottom), *intersection, answer, *final(self), *final(bottom)),
    {
        let next = match answer {
            CollisionResult::Continue => {
                match bottom.do_collide {
                    Some(tag) => {
                        elements.collide(tag, axis, bottom, self, intersection);
                    },
                    None => {
                        Self::default_collide(axis, bottom, self, intersection);
                    },
                }
                None
            },
            CollisionResult::DontPropagate(n) => Some(n),
        };
        let ghost mid = *self;
        self.apply_friction(axis);
        proof {
            if answer is Continue && old(bottom).do_collide is None {
                assert(*self == rubbed(mid, axis));
            }
        }
        next
    }

    /// One round of a sweep along `axis`: scan for the contact to resolve,
    /// let the mover's response (its own, or the default one) answer, and
    /// settle as `settle` does. Returns the amount to add to the sweep's
    /// counter, or `None` where the sweep ends: no contact was found, or the
    /// response deferred to the obstacle's. When nothing is touched on the
    /// first round of a Y sweep, the article stops resting on anything.
    pub fn sweep_round<E: Element>(&mut self, axis: Axis, articles: &mut Vec<Article>, elements: &mut E, first: bool) -> (r: Option<i8>)
        requires
            old(self).wf(),
            all_wf(old(articles)@),
        ensures
            final(self).wf(),
            all_wf(final(articles)@),
            final(articles)@.len() == old(articles)@.len(),
            no_contact(*old(self), old(articles)@, axis) ==> r is None && if axis == Axis::Y
                && old(self).vel.y != 0 && first {
                *final(self) == Article { attached: None, ..*old(self) } && detached(
                    *old(self),
                    old(articles)@,
                    final(articles)@,
                )
            } else {
                *final(self) == *old(self) && final(articles)@ == old(articles)@
            },
            !no_contact(*old(self), old(articles)@, axis) ==> exists|
                c: Collision,
                t1: Article,
                b1: Article,
                answer: CollisionResult,
            |
                #![trigger responded(axis, *old(self), old(articles)@, c, t1, b1, answer, *final(self), final(articles)@)]
                chosen_contact(*old(self), old(articles)@, axis, c) && responded(
                    axis,
                    *old(self),
                    old(articles)@,
                    c,
                    t1,
                    b1,
                    answer,
                    *final(self),
                    final(articles)@,
                ) && r == settled_count(answer),
            !no_contact(*old(self), old(articles)@, axis) && old(self).do_collide is None ==> exists|
                c: Collision,
            |
                #![trigger chosen_contact(*old(self), old(articles)@, axis, c)]
                chosen_contact(*old(self), old(articles)@, axis, c) && default_round(
                    axis,
                    *old(self),
                    old(articles)@,
                    c,
                    *final(self),
                    final(articles)@,
                ) && r == Some(
                    match default_result(old(articles)@[c.bottom_index as int]) {
                        CollisionResult::DontPropagate(n) => n,
                        CollisionResult::Continue => 0i8,
                    },
                ),
            old(self).do_collide is None ==> tags_kept(*old(self), *final(self)) && all_tags_kept(
                old(articles)@,
                final(articles)@,
            ),
    {
        let ghost a0 = *self;
        let ghost s0 = articles@;
        match self.find_collision(axis, articles) {
            None => {
                if axis == Axis::Y && self.vel.y != 0 && first {
                    self.remove_attachment(articles);
                }
                None
            },
            Some(c) => {
                let ghost j = c.bottom_index as int;
                let bottom = &mut articles[c.bottom_index];
                let answer = match self.do_collide {
                    Some(tag) => elements.collide(tag, axis, self, bottom, &c.intersection),
                    None => Self::default_collide(axis, self, bottom, &c.intersection),
                };
                let ghost t1 = *self;
                let ghost b1 = *bottom;
                let next = self.settle(axis, bottom, &c.intersection, answer, elements);
                proof {
                    assert(responded(axis, a0, s0, c, t1, b1, answer, *self, articles@));
                    if a0.do_collide is None {
                        assert(default_round(axis, a0, s0, c, *self, articles@));
                    }
                }
                next
            },
        }
    }

    /// One sweep along `axis`: scan for the shallowest contact, let the
    /// responses resolve it, apply friction, and scan again while the
    /// responses ask for it, at most `ITERATION_CAP` times; then move along
    /// `axis`. Returns the number of scans made.
    pub fn resolve_axis<E: Element>(&mut self, axis: Axis, articles: &mut Vec<Article>, elements: &mut E) -> (scans: u32)
        requires
            old(self).wf(),
            all_wf(old(articles)@),
        ensures
            final(self).wf(),
            all_wf(final(articles)@),
            final(articles)@.len() == old(articles)@.len(),
            1 <= scans <= ITERATION_CAP,
            no_contact(*old(self), old(articles)@, axis) ==> scans == 1,
            swept_along(axis, *old(self), old(articles)@, *final(self), final(articles)@),
            !no_contact(*old(self), old(articles)@, axis) ==> exists|
                c: Collision,
                t1: Article,
                b1: Article,
                answer: CollisionResult,
                a1: Article,
                s1: Seq<Article>,
            |
                #![trigger responded(axis, *old(self), old(articles)@, c, t1, b1, answer, a1, s1)]
                chosen_contact(*old(self), old(articles)@, axis, c) && responded(
                    axis,
                    *old(self),
                    old(articles)@,
                    c,
                    t1,
                    b1,
                    answer,
                    a1,
                    s1,
                ) && (answer is Continue ==> scans == 1 && *final(self) == drifted(a1, axis)
                    && final(articles)@ == s1),
    {
        let ghost a0 = *self;
        let ghost s0 = articles@;
        let ghost mut gc = Collision { intersection: Rect { x: 0, y: 0, w: 0, h: 0 }, bottom_index: 0 };
        let ghost mut gt = a0;
        let ghost mut gb = a0;
        let ghost mut gans = CollisionResult::Continue;
        let ghost mut fa = a0;
        let ghost mut fs = s0;
        let mut counter: i64 = 1;
        let mut scans: u32 = 0;
        while 0 < counter && counter < ITERATION_CAP as i64 && scans < ITERATION_CAP
            invariant
                self.wf(),
                all_wf(articles@),
                articles@.len() == s0.len(),
                scans <= ITERATION_CAP,
                -200 <= counter <= 200,
                scans == 0 ==> *self == a0 && articles@ == s0 && counter == 1,
                no_contact(a0, s0, axis) && scans > 0 ==> counter == 0 && scans == 1 && (
                if axis == Axis::Y && a0.vel.y != 0 {
                    *self == Article { attached: None, ..a0 } && detached(a0, s0, articles@)
                } else {
                    *self == a0 && articles@ == s0
                }),
                a0.do_collide is None ==> tags_kept(a0, *self) && all_tags_kept(s0, articles@),
                a0.do_collide is None ==> forall|ae: Article, se: Seq<Article>|
                    #[trigger] sweep_rest(axis, *self, articles@, counter as int, scans as int, ae, se)
                        ==> sweep_rest(axis, a0, s0, 1, 0, ae, se),
                !no_contact(a0, s0, axis) && scans > 0 ==> chosen_contact(a0, s0, axis, gc) && responded(
                    axis,
                    a0,
                    s0,
                    gc,
                    gt,
                    gb,
                    gans,
                    fa,
                    fs,
                ) && (gans is Continue ==> scans == 1 && counter == 0 && *self == fa && articles@ == fs),
            decreases ITERATION_CAP - scans,
        {
            let ghost a = *self;
            let ghost sa = articles@;
            let ghost k = counter as int;
            let ghost m = scans as int;
            scans = scans + 1;
            let round = self.sweep_round(axis, articles, elements, scans == 1);
            proof {
                if scans == 1 && !no_contact(a0, s0, axis) {
                    let (c, t1, b1, answer) = choose|
                        c: Collision,
                        t1: Article,
                        b1: Article,
                        answer: CollisionResult,
                    |
                        #![trigger responded(axis, a0, s0, c, t1, b1, answer, *self, articles@)]
                        chosen_contact(a0, s0, axis, c) && responded(
                            axis,
                            a0,
                            s0,
                            c,
                            t1,
                            b1,
                            answer,
                            *self,
                            articles@,
                        ) && round == settled_count(answer);
                    gc = c;
                    gt = t1;
                    gb = b1;
                    gans = answer;
                    fa = *self;
                    fs = articles@;
                }
            }
            match round {
                None => {
                    counter = 0;
                },
                Some(n) => {
                    counter = counter + n as i64;
                },
            }
            proof {
                if a0.do_collide is None {
                    if no_contact(a, sa, axis) {
                        assert(sweep_rest(axis, a, sa, k, m, *self, articles@));
                    } else {
                        let c = choose|c: Collision|
                            #![trigger chosen_contact(a, sa, axis, c)]
                            chosen_contact(a, sa, axis, c) && default_round(
                                axis,
                                a,
                                sa,
                                c,
                                *self,
                                articles@,
                            ) && round == Some(
                                match default_result(sa[c.bottom_index as int]) {
                                    CollisionResult::DontPropagate(n) => n,
                                    CollisionResult::Continue => 0i8,
                                },
                            );
                        assert(counter == k + default_count(sa[c.bottom_index as int]));
                        assert forall|ae: Article, se: Seq<Article>|
                            #[trigger] sweep_rest(axis, *self, articles@, counter as int, scans as int, ae, se)
                                implies sweep_rest(axis, a, sa, k, m, ae, se) by {
                            assert(default_round(axis, a, sa, c, *self, articles@));
                        }
                    }
                }
            }
        }
        let ghost a1 = *self;
        proof {
            if a0.do_collide is None {
                assert(sweep_rest(axis, a1, articles@, counter as int, scans as int, a1, articles@));
            }
            if !no_contact(a0, s0, axis) {
                assert(responded(axis, a0, s0, gc, gt, gb, gans, fa, fs));
            }
        }
        self.integrate(axis);
        scans
    }

    /// Runs the article's tick behaviour, if it has one.
    pub fn tick<E: Element>(&mut self, articles: &mut Vec<Article>, elements: &mut E)
        requires
            old(self).wf(),
            all_wf(old(articles)@),
        ensures
            final(self).wf(),
            all_wf(final(articles)@),
            old(self).tick is None ==> *final(self) == *old(self) && final(articles)@ == old(
                articles,
            )@,
    {
        match self.tick {
            Some(tag) => elements.tick(tag, self, articles),
            None => {},
        }
    }

    /// Resolves this article against the others for one step: velocity
    /// components under the snap threshold become zero, then one sweep along
    /// X and one along Y, each moving the article by its velocity along its axis.
    pub fn calculate_collisions<E: Element>(&mut self, articles: &mut Vec<Article>, elements: &mut E)
        requires
            old(self).wf(),
            all_wf(old(articles)@),
        ensures
            final(self).wf(),
            all_wf(final(articles)@),
            final(articles)@.len() == old(articles)@.len(),
            collided(*old(self), old(articles)@, *final(self), final(articles)@),
            old(self).do_collide is None ==> tags_kept(*old(self), *final(self)) && all_tags_kept(
                old(articles)@,
                final(articles)@,
            ),
            ({
                let a = snapped_article(*old(self));
                let ax = drifted(a, Axis::X);
                no_contact(a, old(articles)@, Axis::X) && no_contact(ax, old(articles)@, Axis::Y)
                    ==> free_sweep(Axis::Y, ax, old(articles)@, *final(self), final(articles)@)
            }),
    {
        self.snap_velocity();
        self.resolve_axis(Axis::X, articles, elements);
        let ghost ax = *self;
        let ghost sx = articles@;
        self.resolve_axis(Axis::Y, articles, elements);
    }
}

/// Seconds after a hit during which an article cannot be hurt again.
pub const DAMAGE_COOLDOWN_SECONDS: i64 = 2;

/// Health an article may reach when its scratchpad sets no `avail_health`.
pub const DEFAULT_AVAIL_HEALTH: i64 = 5 * SCALAR_ONE;

/// `health + delta`, no more than `avail` and no less than `i64::MIN`.
pub open spec fn capped_health(health: int, delta: int, avail: int) -> i64 {
    if health + delta > avail {
        avail as i64
    } else if health + delta < i64::MIN {
        i64::MIN
    } else {
        (health + delta) as i64
    }
}

/// The scratchpad `m` after a change of `delta` in health at `now` seconds
/// past midnight. Within the cooldown after the last hit nothing changes.
/// Otherwise `health`, where present, moves by `delta` up to `avail_health`
/// (5 by default), and a loss records `now` as `most_recent_damage`.
pub open spec fn health_changed(m: Map<Seq<char>, i64>, delta: i64, now: u32) -> Map<Seq<char>, i64> {
    let stamp = now * SCALAR_ONE;
    if m.contains_key("most_recent_damage"@) && stamp - m["most_recent_damage"@]
        <= DAMAGE_COOLDOWN_SECONDS * SCALAR_ONE {
        m
    } else {
        let avail = if m.contains_key("avail_health"@) {
            m["avail_health"@]
        } else {
            DEFAULT_AVAIL_HEALTH
        };
        let m1 = if m.contains_key("health"@) {
            m.insert("health"@, capped_health(m["health"@] as int, delta as int, avail as int))
        } else {
            m
        };
        if delta < 0 {
            m1.insert("most_recent_damage"@, stamp as i64)
        } else {
            m1
        }
    }
}

impl Article {
    /// Changes the article's health by `delta_health` (over `SCALAR_ONE`) at
    /// `now` seconds past midnight; see `health_changed`.
    pub fn update_health_at(&mut self, delta_health: i64, now: u32)
        requires
            old(self).wf(),
            now < 86_400,
        ensures
            final(self).wf(),
            *final(self) == (Article { scratchpad: final(self).scratchpad, ..*old(self) }),
            final(self).scratchpad@ == health_changed(old(self).scratchpad@, delta_health, now),
    {
        let stamp = now as i64 * SCALAR_ONE;
        let damage_key = String::from_str("most_recent_damage");
        let avail_key = String::from_str("avail_health");
        let health_key = String::from_str("health");
        proof {
            reveal_strlit("most_recent_damage");
            reveal_strlit("avail_health");
            reveal_strlit("health");
        }
        match self.scratchpad.get(&damage_key) {
            Some(last) => {
                if stamp as i128 - last as i128 <= (DAMAGE_COOLDOWN_SECONDS * SCALAR_ONE) as i128 {
                    return;
                }
            },
            None => {},
        }
        let avail = self.scratchpad.get_or(&avail_key, DEFAULT_AVAIL_HEALTH);
        match self.scratchpad.get(&health_key) {
            Some(health) => {
                let sum = health as i128 + delta_health as i128;
                let next = if sum > avail as i128 {
                    avail
                } else if sum < i64::MIN as i128 {
                    i64::MIN
                } else {
                    sum as i64
                };
                self.scratchpad.insert(health_key, next);
            },
            None => {},
        }
        if delta_health < 0 {
            self.scratchpad.insert(damage_key, stamp);
        }
    }
}

} // verus!
