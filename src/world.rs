//! The scene and its per-frame step: global forces, behaviours, collision
//! resolution, and removal of destroyed articles.
use vstd::prelude::*;
use crate::article::{
    Article, Element, all_wf, collided, tags_kept, all_tags_kept, div_trunc, div_toward_zero, first_named, COEFF_ONE,
    lemma_mul_bound,
};
use crate::geometry::{Vec2, clamp, saturate, COORD_LIMIT};

verus! {

/// Gravity added to the Y velocity of every finite-mass article each step
/// (0.4 pixel per tick).
pub const GRAVITY: i64 = 400;

/// Share of its velocity an article loses to drag each step, over `COEFF_ONE`
/// (0.005).
pub const DRAG: u32 = 5_000;

/// `v` after one step of drag.
pub open spec fn dragged(v: int) -> i64 {
    clamp(v - div_trunc(v * DRAG, COEFF_ONE as int)) as i64
}

/// `a` after gravity and drag, where its mass is finite.
pub open spec fn forced(a: Article) -> Article {
    if a.mass is Finite {
        Article { vel: Vec2 { x: dragged(a.vel.x as int), y: dragged(clamp(a.vel.y + GRAVITY)) }, ..a }
    } else {
        a
    }
}

fn drag(v: i64) -> (r: i64)
    requires
        -COORD_LIMIT <= v <= COORD_LIMIT,
    ensures
        r == dragged(v as int),
{
    proof {
        lemma_mul_bound(v as int, DRAG as int, COORD_LIMIT as int, DRAG as int);
    }
    let loss = div_toward_zero(v as i128 * DRAG as i128, COEFF_ONE as i128);
    proof {
        assert(-COORD_LIMIT <= loss <= COORD_LIMIT) by (nonlinear_arith)
            requires
                loss == div_trunc(v * DRAG, COEFF_ONE as int),
                -COORD_LIMIT <= v <= COORD_LIMIT,
        ;
    }
    saturate(v as i128 - loss)
}

/// Applies gravity and drag to a finite-mass article; an infinite mass is
/// left alone.
pub fn global_forces(article: &mut Article)
    requires
        old(article).wf(),
    ensures
        final(article).wf(),
        *final(article) == forced(*old(article)),
{
    if article.mass.is_finite() {
        article.vel.y = saturate(article.vel.y as i128 + GRAVITY as i128);
        article.vel.x = drag(article.vel.x);
        article.vel.y = drag(article.vel.y);
    }
}

/// Adds `article` to the scene unless an article of its name is there, in
/// which case it is handed back.
pub fn insert_article(articles: &mut Vec<Article>, article: Article) -> (r: Result<(), Article>)
    ensures
        match r {
            Ok(()) => {
                &&& first_named(old(articles)@, article.name@) is None
                &&& final(articles)@ == old(articles)@.push(article)
            },
            Err(back) => {
                &&& first_named(old(articles)@, article.name@) is Some
                &&& back == article
                &&& final(articles)@ == old(articles)@
            },
        },
{
    match crate::article::find_named(articles, &article.name) {
        Some(_) => Err(article),
        None => {
            articles.push(article);
            Ok(())
        },
    }
}

/// Removes every article whose destroy flag is set, keeping the others in order.
pub fn prune_destroyed(articles: &mut Vec<Article>)
    ensures
        final(articles)@ == old(articles)@.filter(|a: Article| !a.do_destroy),
        forall|i: int| 0 <= i < final(articles)@.len() ==> !(#[trigger] final(articles)@[i]).do_destroy,
        all_wf(old(articles)@) ==> all_wf(final(articles)@),
{
    let ghost start = articles@;
    let ghost live = |a: Article| !a.do_destroy;
    let mut kept: Vec<Article> = Vec::new();
    while articles.len() > 0
        invariant
            live == (|a: Article| !a.do_destroy),
            articles@.len() <= start.len(),
            articles@ == start.subrange(start.len() - articles@.len(), start.len() as int),
            kept@ == start.subrange(0, start.len() - articles@.len()).filter(live),
            forall|i: int| 0 <= i < kept@.len() ==> !(#[trigger] kept@[i]).do_destroy,
            all_wf(start) ==> all_wf(kept@),
        decreases articles@.len(),
    {
        let ghost k = start.len() - articles@.len();
        proof {
            assert(start.subrange(0, k + 1) == start.subrange(0, k).push(start[k]));
            start.subrange(0, k).lemma_filter_push(start[k], live);
        }
        let article = articles.remove(0);
        assert(article == start[k]);
        if !article.do_destroy {
            kept.push(article);
        }
        assert(articles@ == start.subrange(k + 1, start.len() as int));
    }
    assert(start.subrange(0, start.len() as int) == start);
    *articles = kept;
}

/// No article of `s` carries a tick behaviour or a collision response of
/// its own.
pub open spec fn all_untagged(s: Seq<Article>) -> bool {
    forall|k: int| 0 <= k < s.len() ==> (#[trigger] s[k]).tick is None && s[k].do_collide is None
}

/// The pass of a frame from index `i` on, over the first `n` places, takes the
/// scene `s` to `s_end` when no behaviour runs. A live finite-mass article at
/// `i` is taken out, receives `forced`, is resolved against the others as they
/// are at that moment (`collided`), and goes back to place `i`; a destroyed or
/// infinite-mass article stays as it is.
pub open spec fn frame_pass(s: Seq<Article>, i: int, n: int, s_end: Seq<Article>) -> bool
    decreases n - i,
{
    if 0 <= i < n && i < s.len() {
        let a = s[i];
        if !a.do_destroy && a.mass is Finite {
            exists|a2: Article, r2: Seq<Article>|
                #![trigger collided(forced(a), s.remove(i), a2, r2)]
                collided(forced(a), s.remove(i), a2, r2) && frame_pass(r2.insert(i, a2), i + 1, n, s_end)
        } else {
            frame_pass(s, i + 1, n, s_end)
        }
    } else {
        s_end == s
    }
}

/// One frame of the scene. Each live article in turn is taken out of the
/// scene, receives global forces if its mass is finite, runs its tick
/// behaviour, and is resolved against the others if its mass is finite; it
/// then goes back to its place. Destroyed articles are removed at the end.
pub fn step<E: Element>(articles: &mut Vec<Article>, elements: &mut E)
    requires
        all_wf(old(articles)@),
    ensures
        all_wf(final(articles)@),
        forall|i: int| 0 <= i < final(articles)@.len() ==> !(#[trigger] final(articles)@[i]).do_destroy,
        all_untagged(old(articles)@) ==> exists|s_end: Seq<Article>|
            #![trigger frame_pass(old(articles)@, 0, old(articles)@.len() as int, s_end)]
            frame_pass(old(articles)@, 0, old(articles)@.len() as int, s_end) && final(articles)@
                == s_end.filter(|a: Article| !a.do_destroy),
{
    let ghost s0 = articles@;
    let n = articles.len();
    let mut i: usize = 0;
    while i < n && i < articles.len()
        invariant
            all_wf(articles@),
            0 <= i <= n,
            n == s0.len(),
            all_untagged(s0) ==> all_untagged(articles@),
            all_untagged(s0) ==> forall|se: Seq<Article>|
                #[trigger] frame_pass(articles@, i as int, n as int, se) ==> frame_pass(s0, 0, n as int, se),
        decreases n - i,
    {
        let ghost s = articles@;
        let mut article = articles.remove(i);
        let ghost rest = articles@;
        if !article.do_destroy {
            if article.mass.is_finite() {
                global_forces(&mut article);
            }
            article.tick(articles, elements);
            if article.mass.is_finite() {
                article.calculate_collisions(articles, elements);
            }
        }
        let ghost r2 = articles@;
        let ghost a2 = article;
        if i <= articles.len() {
            articles.insert(i, article);
        } else {
            articles.push(article);
        }
        proof {
            if all_untagged(s0) {
                assert(s[i as int].tick is None && s[i as int].do_collide is None);
                if !s[i as int].do_destroy && s[i as int].mass is Finite {
                    assert forall|k: int| 0 <= k < articles@.len() implies (#[trigger] articles@[k]).tick is None
                        && articles@[k].do_collide is None by {
                        if k < i {
                            assert(articles@[k].tick == rest[k].tick);
                        } else if k > i {
                            assert(articles@[k].tick == rest[k - 1].tick);
                        }
                    }
                    assert forall|se: Seq<Article>|
                        #[trigger] frame_pass(articles@, i + 1, n as int, se) implies frame_pass(s, i as int, n as int, se) by {
                        assert(rest == s.remove(i as int));
                        assert(articles@ == r2.insert(i as int, a2));
                        assert(collided(forced(s[i as int]), s.remove(i as int), a2, r2));
                        assert(frame_pass(s, i as int, n as int, se));
                    }
                } else {
                    assert(articles@ =~= s);
                    assert forall|se: Seq<Article>|
                        #[trigger] frame_pass(articles@, i + 1, n as int, se) implies frame_pass(s, i as int, n as int, se) by {
                    }
                }
                assert forall|se: Seq<Article>|
                    #[trigger] frame_pass(articles@, i + 1, n as int, se) implies frame_pass(s0, 0, n as int, se) by {
                    assert(frame_pass(s, i as int, n as int, se));
                }
            }
        }
        i = i + 1;
    }
    let ghost pre = articles@;
    proof {
        if all_untagged(s0) {
            assert(frame_pass(pre, i as int, n as int, pre));
        }
    }
    prune_destroyed(articles);
}

} // verus!
