use vstd::prelude::*;

use crate::fixed::{SCALE, div_toward_zero, lemma_floor_sqrt_unique};
use crate::step::{
    advance,
    apply_pair,
    collide,
    integrate,
    step_upto,
    dist_sq,
    force_between,
    impulse,
    interact,
    interacts,
    reflect,
    repulsion,
    step_model,
};
use crate::particle::{ParticleState, SimConfig};

verus! {

/// Within any set, the interaction of a pair changes the velocity of the
/// second particle by exactly the negation of the change to the first, and
/// moves no one.
pub proof fn lemma_pair_exchange_symmetric(
    ps: Seq<ParticleState>,
    i: int,
    j: int,
    cfg: SimConfig,
)
    requires
        0 <= i < j < ps.len(),
    ensures
        ({
            let r = apply_pair(ps, i, j, cfg);
            &&& r.len() == ps.len()
            &&& r[j].vel_x - ps[j].vel_x == -(r[i].vel_x - ps[i].vel_x)
            &&& r[j].vel_y - ps[j].vel_y == -(r[i].vel_y - ps[i].vel_y)
            &&& r[i].pos_x == ps[i].pos_x && r[i].pos_y == ps[i].pos_y
            &&& r[j].pos_x == ps[j].pos_x && r[j].pos_y == ps[j].pos_y
        }),
{
}

/// For an isolated pair, the interaction phase of a tick changes the velocity
/// of one particle by exactly the negation of the change to the other.
pub proof fn lemma_isolated_pair_momentum(a: ParticleState, b: ParticleState, cfg: SimConfig)
    ensures
        ({
            let r = interact(seq![a, b], 0, 2, cfg);
            &&& r.len() == 2
            &&& r[1].vel_x - b.vel_x == -(r[0].vel_x - a.vel_x)
            &&& r[1].vel_y - b.vel_y == -(r[0].vel_y - a.vel_y)
            &&& r[0].pos_x == a.pos_x && r[0].pos_y == a.pos_y
            &&& r[1].pos_x == b.pos_x && r[1].pos_y == b.pos_y
        }),
{
    let ps = seq![a, b];
    assert(interact(ps, 0, 1, cfg) == ps);
    lemma_pair_exchange_symmetric(ps, 0, 1, cfg);
}

/// A lone particle at rest, whose fall by one gravity step keeps it within
/// the bounds, ends the tick with velocity `(0, G)`, moved by `(0, G)`.
pub proof fn lemma_lone_particle_falls(p: ParticleState, cfg: SimConfig, width: int, height: int)
    requires
        p.vel_x == 0,
        p.vel_y == 0,
        0 <= p.pos_x <= width,
        0 <= p.pos_y + cfg.gravity <= height,
    ensures
        step_model(seq![p], cfg, width, height) == seq![
            ParticleState {
                pos_x: p.pos_x,
                pos_y: p.pos_y + cfg.gravity,
                vel_x: 0,
                vel_y: cfg.gravity as int,
            },
        ],
{
    let ps = seq![p];
    let g = ps.update(0, crate::step::kick(ps[0], 0, cfg.gravity as int));
    assert(interact(g, 0, 1, cfg) == g);
    assert(step_upto(ps, 0, cfg, width, height) == ps);
    assert(step_model(ps, cfg, width, height) == advance(ps, 0, cfg, width, height));
    let c = collide(integrate(g[0]), width, height, cfg.damping as int);
    assert(advance(ps, 0, cfg, width, height) == g.update(0, c));
    assert(step_model(ps, cfg, width, height) =~= seq![
        ParticleState {
            pos_x: p.pos_x,
            pos_y: p.pos_y + cfg.gravity,
            vel_x: 0,
            vel_y: cfg.gravity as int,
        },
    ]);
}

/// A lone particle below the bottom wall, moving down, is put back on the wall
/// and its vertical velocity (gravity included) is reflected and damped.
pub proof fn lemma_bottom_wall_reflects(
    x: int,
    eps: int,
    v: int,
    cfg: SimConfig,
    width: int,
    height: int,
)
    requires
        eps > 0,
        v >= 0,
        cfg.gravity >= 0,
        0 <= x <= width,
        height >= 0,
    ensures
        step_model(
            seq![ParticleState { pos_x: x, pos_y: height + eps, vel_x: 0, vel_y: v }],
            cfg,
            width,
            height,
        ) == seq![
            ParticleState {
                pos_x: x,
                pos_y: height,
                vel_x: 0,
                vel_y: -div_toward_zero((v + cfg.gravity) * cfg.damping, SCALE as int),
            },
        ],
{
    let ps = seq![ParticleState { pos_x: x, pos_y: height + eps, vel_x: 0, vel_y: v }];
    let g = ps.update(0, crate::step::kick(ps[0], 0, cfg.gravity as int));
    assert(interact(g, 0, 1, cfg) == g);
    assert(step_upto(ps, 0, cfg, width, height) == ps);
    assert(step_model(ps, cfg, width, height) == advance(ps, 0, cfg, width, height));
    let c = collide(integrate(g[0]), width, height, cfg.damping as int);
    assert(advance(ps, 0, cfg, width, height) == g.update(0, c));
    assert(reflect(v + cfg.gravity, cfg.damping as int) == -div_toward_zero(
        (v + cfg.gravity) * cfg.damping,
        SCALE as int,
    ));
    assert(step_model(ps, cfg, width, height) =~= seq![
        ParticleState {
            pos_x: x,
            pos_y: height,
            vel_x: 0,
            vel_y: -div_toward_zero((v + cfg.gravity) * cfg.damping, SCALE as int),
        },
    ]);
}

/// Two particles exactly the interaction radius apart do not interact.
pub proof fn lemma_no_force_at_radius(a: ParticleState, b: ParticleState, cfg: SimConfig)
    requires
        dist_sq(a, b) == cfg.interaction_radius * cfg.interaction_radius,
    ensures
        force_between(a, b, cfg) == 0,
        impulse(a, b, cfg) == (0int, 0int),
{
}

/// At half the interaction radius the repulsion is the force coefficient times
/// half the radius; along the x axis it is handed out whole as the x component.
pub proof fn lemma_force_at_half_radius(a: ParticleState, b: ParticleState, cfg: SimConfig, d: int)
    requires
        d > 0,
        2 * d == cfg.interaction_radius,
        0 <= cfg.interaction_force,
        dist_sq(a, b) == d * d,
    ensures
        force_between(a, b, cfg) == d * cfg.interaction_force / (SCALE as int),
        force_between(a, b, cfg) == repulsion(d, cfg),
        (b.pos_y == a.pos_y && b.pos_x - a.pos_x == d) ==> impulse(a, b, cfg) == (
            force_between(a, b, cfg),
            0int,
        ),
{
    assert(d * d < (d + 1) * (d + 1)) by (nonlinear_arith)
        requires
            d > 0,
    ;
    lemma_floor_sqrt_unique((d * d) as nat, d as nat);
    assert(0 < d * d < (2 * d) * (2 * d)) by (nonlinear_arith)
        requires
            d > 0,
    ;
    assert(interacts(a, b, cfg));
    let f = force_between(a, b, cfg);
    assert(f == repulsion(d, cfg));
    assert(cfg.interaction_radius - d == d);
    assert(f >= 0) by (nonlinear_arith)
        requires
            f == d * cfg.interaction_force / (SCALE as int),
            d > 0,
            cfg.interaction_force >= 0,
    ;
    if b.pos_y == a.pos_y && b.pos_x - a.pos_x == d {
        assert((f * d) / d == f) by (nonlinear_arith)
            requires
                d > 0,
        ;
        assert(f * 0 == 0);
    }
}

/// Sum of the horizontal (`horizontal`) or vertical velocity components of a set.
pub open spec fn total_velocity(ps: Seq<ParticleState>, horizontal: bool) -> int
    decreases ps.len(),
{
    if ps.len() == 0 {
        0
    } else {
        total_velocity(ps.drop_last(), horizontal) + if horizontal {
            ps.last().vel_x
        } else {
            ps.last().vel_y
        }
    }
}

proof fn lemma_total_velocity_update(
    ps: Seq<ParticleState>,
    i: int,
    s: ParticleState,
    horizontal: bool,
)
    requires
        0 <= i < ps.len(),
    ensures
        total_velocity(ps.update(i, s), horizontal) == total_velocity(ps, horizontal) - (
        if horizontal {
            ps[i].vel_x
        } else {
            ps[i].vel_y
        }) + (if horizontal {
            s.vel_x
        } else {
            s.vel_y
        }),
    decreases ps.len(),
{
    let u = ps.update(i, s);
    if i == ps.len() - 1 {
        assert(u.drop_last() =~= ps.drop_last());
    } else {
        assert(u.drop_last() =~= ps.drop_last().update(i, s));
        lemma_total_velocity_update(ps.drop_last(), i, s, horizontal);
    }
}

/// The interaction phase of any particle leaves the number of particles, all
/// positions and the total velocity of the set unchanged: every pair exchange
/// is equal and opposite.
pub proof fn lemma_interaction_conserves_momentum(
    ps: Seq<ParticleState>,
    i: int,
    k: int,
    cfg: SimConfig,
)
    requires
        0 <= i < ps.len(),
        k <= ps.len(),
    ensures
        interact(ps, i, k, cfg).len() == ps.len(),
        total_velocity(interact(ps, i, k, cfg), true) == total_velocity(ps, true),
        total_velocity(interact(ps, i, k, cfg), false) == total_velocity(ps, false),
        forall|j: int|
            0 <= j < ps.len() ==> (#[trigger] interact(ps, i, k, cfg)[j]).pos_x == ps[j].pos_x
                && interact(ps, i, k, cfg)[j].pos_y == ps[j].pos_y,
    decreases k - i,
{
    if k > i + 1 {
        lemma_interaction_conserves_momentum(ps, i, k - 1, cfg);
        let q = interact(ps, i, k - 1, cfg);
        let f = impulse(q[i], q[k - 1], cfg);
        let q1 = q.update(i, crate::step::kick(q[i], -f.0, -f.1));
        lemma_total_velocity_update(q, i, crate::step::kick(q[i], -f.0, -f.1), true);
        lemma_total_velocity_update(q, i, crate::step::kick(q[i], -f.0, -f.1), false);
        lemma_total_velocity_update(q1, k - 1, crate::step::kick(q[k - 1], f.0, f.1), true);
        lemma_total_velocity_update(q1, k - 1, crate::step::kick(q[k - 1], f.0, f.1), false);
        assert(interact(ps, i, k, cfg) == apply_pair(q, i, k - 1, cfg));
    }
}

} // verus!
