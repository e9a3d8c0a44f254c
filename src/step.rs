use vstd::prelude::*;
use vstd::arithmetic::div_mod::lemma_div_is_ordered;
use vstd::arithmetic::mul::lemma_mul_inequality;

use crate::fixed::{
    SCALE,
    div_toward_zero,
    floor_sqrt,
    isqrt,
    lemma_floor_sqrt_bounds,
    lemma_scaled_down,
};
use crate::particle::{
    MAX_FORCE_COEFFICIENT,
    MAX_MAGNITUDE,
    MAX_PARTICLES,
    Particle,
    ParticleState,
    SimConfig,
    Vector,
    within_magnitude,
};

verus! {

/// The mathematical values of a particle set.
pub open spec fn states(ps: Seq<Particle>) -> Seq<ParticleState> {
    ps.map_values(|p: Particle| p@)
}

/// Bound on one velocity component handed out by one pair interaction.
pub open spec fn impulse_cap() -> int {
    35_184_372_088_832
}

/// Bound on a velocity component at any point of a tick.
pub open spec fn velocity_cap() -> int {
    2 * MAX_MAGNITUDE + 2 * MAX_PARTICLES * impulse_cap()
}

/// Squared distance between the centres of two particles.
pub open spec fn dist_sq(a: ParticleState, b: ParticleState) -> int {
    (b.pos_x - a.pos_x) * (b.pos_x - a.pos_x) + (b.pos_y - a.pos_y) * (b.pos_y - a.pos_y)
}

/// Two particles interact when they are apart and closer than the radius.
pub open spec fn interacts(a: ParticleState, b: ParticleState, cfg: SimConfig) -> bool {
    0 < dist_sq(a, b) < cfg.interaction_radius * cfg.interaction_radius
}

/// Repulsion at centre distance `dist`: the overlap times the force coefficient.
pub open spec fn repulsion(dist: int, cfg: SimConfig) -> int {
    (cfg.interaction_radius - dist) * cfg.interaction_force / (SCALE as int)
}

/// Magnitude of the repulsion between two particles, zero when they do not interact.
pub open spec fn force_between(a: ParticleState, b: ParticleState, cfg: SimConfig) -> int {
    if interacts(a, b, cfg) {
        repulsion(floor_sqrt(dist_sq(a, b) as nat) as int, cfg)
    } else {
        0
    }
}

/// Velocity change given to `b` (and taken from `a`): the repulsion along the
/// unit vector from `a` to `b`, each component rounded toward zero.
pub open spec fn impulse(a: ParticleState, b: ParticleState, cfg: SimConfig) -> (int, int) {
    if interacts(a, b, cfg) {
        let d = floor_sqrt(dist_sq(a, b) as nat) as int;
        let f = force_between(a, b, cfg);
        (
            div_toward_zero(f * (b.pos_x - a.pos_x), d),
            div_toward_zero(f * (b.pos_y - a.pos_y), d),
        )
    } else {
        (0, 0)
    }
}

/// `s` with `(dvx, dvy)` added to its velocity.
pub open spec fn kick(s: ParticleState, dvx: int, dvy: int) -> ParticleState {
    ParticleState { pos_x: s.pos_x, pos_y: s.pos_y, vel_x: s.vel_x + dvx, vel_y: s.vel_y + dvy }
}

/// The interaction of the pair `(i, j)`: `i` loses the impulse and `j` gains it.
pub open spec fn apply_pair(ps: Seq<ParticleState>, i: int, j: int, cfg: SimConfig) -> Seq<
    ParticleState,
> {
    let f = impulse(ps[i], ps[j], cfg);
    ps.update(i, kick(ps[i], -f.0, -f.1)).update(j, kick(ps[j], f.0, f.1))
}

/// The pairs `(i, j)` for `j` in `i + 1 .. k`, applied in index order.
pub open spec fn interact(ps: Seq<ParticleState>, i: int, k: int, cfg: SimConfig) -> Seq<
    ParticleState,
>
    decreases k - i,
{
    if k <= i + 1 {
        ps
    } else {
        apply_pair(interact(ps, i, k - 1, cfg), i, k - 1, cfg)
    }
}

/// Reflected and damped velocity component, rounded toward zero.
pub open spec fn reflect(v: int, damping: int) -> int {
    -div_toward_zero(v * damping, SCALE as int)
}

/// The four wall checks, in order: bottom, top, left, right.
pub open spec fn collide(s: ParticleState, width: int, height: int, damping: int) -> ParticleState {
    let s1 = if s.pos_y > height {
        ParticleState { pos_y: height, vel_y: reflect(s.vel_y, damping), ..s }
    } else {
        s
    };
    let s2 = if s1.pos_y < 0 {
        ParticleState { pos_y: 0, vel_y: reflect(s1.vel_y, damping), ..s1 }
    } else {
        s1
    };
    let s3 = if s2.pos_x < 0 {
        ParticleState { pos_x: 0, vel_x: reflect(s2.vel_x, damping), ..s2 }
    } else {
        s2
    };
    if s3.pos_x > width {
        ParticleState { pos_x: width, vel_x: reflect(s3.vel_x, damping), ..s3 }
    } else {
        s3
    }
}

/// Semi-implicit Euler: the position moves by the already updated velocity.
pub open spec fn integrate(s: ParticleState) -> ParticleState {
    ParticleState { pos_x: s.pos_x + s.vel_x, pos_y: s.pos_y + s.vel_y, ..s }
}

/// Processing of particle `i`: gravity, its pairs with every later particle,
/// integration and the wall checks.
pub open spec fn advance(
    ps: Seq<ParticleState>,
    i: int,
    cfg: SimConfig,
    width: int,
    height: int,
) -> Seq<ParticleState> {
    let g = ps.update(i, kick(ps[i], 0, cfg.gravity as int));
    let r = interact(g, i, ps.len() as int, cfg);
    r.update(i, collide(integrate(r[i]), width, height, cfg.damping as int))
}

/// The first `k` particles processed, in index order.
pub open spec fn step_upto(
    ps: Seq<ParticleState>,
    k: nat,
    cfg: SimConfig,
    width: int,
    height: int,
) -> Seq<ParticleState>
    decreases k,
{
    if k == 0 {
        ps
    } else {
        advance(step_upto(ps, (k - 1) as nat, cfg, width, height), k - 1, cfg, width, height)
    }
}

/// One tick of the simulation.
pub open spec fn step_model(ps: Seq<ParticleState>, cfg: SimConfig, width: int, height: int) -> Seq<
    ParticleState,
> {
    step_upto(ps, ps.len(), cfg, width, height)
}

/// What one tick needs: a set of at most `MAX_PARTICLES` valid particles,
/// valid constants and bounds in `[0, MAX_MAGNITUDE]`.
pub open spec fn valid_input(ps: Seq<Particle>, cfg: SimConfig, width: i64, height: i64) -> bool {
    &&& ps.len() <= MAX_PARTICLES
    &&& cfg.is_valid()
    &&& 0 <= width <= MAX_MAGNITUDE
    &&& 0 <= height <= MAX_MAGNITUDE
    &&& forall|j: int| 0 <= j < ps.len() ==> #[trigger] ps[j].is_valid()
}

/// The position of `s` lies in `[0, width] x [0, height]`.
pub open spec fn contained(s: ParticleState, width: int, height: int) -> bool {
    0 <= s.pos_x <= width && 0 <= s.pos_y <= height
}

/// The force between two particles with positions within `MAX_MAGNITUDE` is at
/// most `impulse_cap()`, and each impulse component at most that force.
pub proof fn lemma_impulse_bounded(a: ParticleState, b: ParticleState, cfg: SimConfig)
    requires
        cfg.is_valid(),
        within_magnitude(a.pos_x, MAX_MAGNITUDE as int),
        within_magnitude(a.pos_y, MAX_MAGNITUDE as int),
        within_magnitude(b.pos_x, MAX_MAGNITUDE as int),
        within_magnitude(b.pos_y, MAX_MAGNITUDE as int),
    ensures
        0 <= force_between(a, b, cfg) <= impulse_cap(),
        within_magnitude(impulse(a, b, cfg).0, force_between(a, b, cfg)),
        within_magnitude(impulse(a, b, cfg).1, force_between(a, b, cfg)),
{
    if interacts(a, b, cfg) {
        let dx = b.pos_x - a.pos_x;
        let dy = b.pos_y - a.pos_y;
        let n = dist_sq(a, b) as nat;
        let r = cfg.interaction_radius as int;
        let k = cfg.interaction_force as int;
        let ax = if dx >= 0 { dx } else { -dx };
        let ay = if dy >= 0 { dy } else { -dy };
        assert(ax * ax == dx * dx && ay * ay == dy * dy) by (nonlinear_arith)
            requires
                ax == dx || ax == -dx,
                ay == dy || ay == -dy,
        ;
        assert(0 <= dx * dx && 0 <= dy * dy) by (nonlinear_arith);
        lemma_floor_sqrt_bounds(n, ax as nat, r as nat);
        lemma_floor_sqrt_bounds(n, ay as nat, r as nat);
        let d = floor_sqrt(n) as int;
        assert(d > 0) by {
            lemma_floor_sqrt_bounds(n, 1, r as nat);
        }
        let o = r - d;
        assert(0 < o <= r);
        assert(o * k <= 18_446_744_073_709_551_616) by (nonlinear_arith)
            requires
                0 < o <= r <= MAX_MAGNITUDE,
                0 <= k <= MAX_FORCE_COEFFICIENT,
        ;
        assert(0 <= o * k) by (nonlinear_arith)
            requires
                0 < o,
                0 <= k,
        ;
        lemma_div_is_ordered(o * k, 18_446_744_073_709_551_616, SCALE as int);
        lemma_div_is_ordered(0, o * k, SCALE as int);
        let f = force_between(a, b, cfg);
        assert(f == (o * k) / (SCALE as int));
        lemma_scaled_down(f, ax, d);
        lemma_scaled_down(f, ay, d);
        if dx < 0 {
            assert(f * (-dx) == -(f * dx)) by (nonlinear_arith);
        }
        if dy < 0 {
            assert(f * (-dy) == -(f * dy)) by (nonlinear_arith);
        }
        if dx >= 0 {
            assert(f * dx >= 0) by (nonlinear_arith)
                requires
                    f >= 0,
                    dx >= 0,
            ;
        }
        if dy >= 0 {
            assert(f * dy >= 0) by (nonlinear_arith)
                requires
                    f >= 0,
                    dy >= 0,
            ;
        }
    }
}

/// `f * a / d` rounded toward zero.
fn scale_toward_zero(f: i128, a: i128, d: i128) -> (r: i128)
    requires
        0 <= f <= impulse_cap(),
        within_magnitude(a as int, 2 * MAX_MAGNITUDE),
        d > 0,
    ensures
        r == div_toward_zero(f * a, d as int),
{
    assert(within_magnitude(f * a, impulse_cap() * 2 * MAX_MAGNITUDE)) by (nonlinear_arith)
        requires
            0 <= f <= impulse_cap(),
            within_magnitude(a as int, 2 * MAX_MAGNITUDE),
    ;
    let p = f * a;
    if p >= 0 {
        p / d
    } else {
        -((-p) / d)
    }
}

/// Velocity change that the interaction of `a` and `b` gives to `b` (and takes
/// from `a`).
pub fn pair_impulse(a: &Particle, b: &Particle, cfg: &SimConfig) -> (r: Vector)
    requires
        cfg.is_valid(),
        within_magnitude(a.position.x as int, MAX_MAGNITUDE as int),
        within_magnitude(a.position.y as int, MAX_MAGNITUDE as int),
        within_magnitude(b.position.x as int, MAX_MAGNITUDE as int),
        within_magnitude(b.position.y as int, MAX_MAGNITUDE as int),
    ensures
        (r.x as int, r.y as int) == impulse(a@, b@, *cfg),
{
    proof {
        lemma_impulse_bounded(a@, b@, *cfg);
    }
    let dx = (b.position.x as i128) - (a.position.x as i128);
    let dy = (b.position.y as i128) - (a.position.y as i128);
    assert(0 <= dx * dx <= 4 * MAX_MAGNITUDE * MAX_MAGNITUDE) by (nonlinear_arith)
        requires
            within_magnitude(dx as int, 2 * MAX_MAGNITUDE),
    ;
    assert(0 <= dy * dy <= 4 * MAX_MAGNITUDE * MAX_MAGNITUDE) by (nonlinear_arith)
        requires
            within_magnitude(dy as int, 2 * MAX_MAGNITUDE),
    ;
    let dsq = dx * dx + dy * dy;
    let radius = cfg.interaction_radius as i128;
    assert(0 <= radius * radius <= MAX_MAGNITUDE * MAX_MAGNITUDE) by (nonlinear_arith)
        requires
            0 <= radius <= MAX_MAGNITUDE,
    ;
    if dsq == 0 || dsq >= radius * radius {
        return Vector { x: 0, y: 0 };
    }
    let d = isqrt(dsq as u128) as i128;
    proof {
        lemma_floor_sqrt_bounds(dsq as nat, 1, radius as nat);
    }
    let overlap = radius - d;
    assert(0 <= overlap * (cfg.interaction_force as i128) <= MAX_MAGNITUDE
        * MAX_FORCE_COEFFICIENT) by (nonlinear_arith)
        requires
            0 < overlap <= MAX_MAGNITUDE,
            0 <= cfg.interaction_force <= MAX_FORCE_COEFFICIENT,
    ;
    let f = overlap * (cfg.interaction_force as i128) / (SCALE as i128);
    let fx = scale_toward_zero(f, dx, d);
    let fy = scale_toward_zero(f, dy, d);
    Vector { x: fx as i64, y: fy as i64 }
}

/// `v` reflected and scaled by `damping / SCALE`, rounded toward zero.
fn reflect_velocity(v: i64, damping: i64) -> (r: i64)
    requires
        within_magnitude(v as int, velocity_cap()),
        0 <= damping <= SCALE,
    ensures
        r == reflect(v as int, damping as int),
        within_magnitude(r as int, velocity_cap()),
{
    let av: i128 = if v >= 0 {
        v as i128
    } else {
        -(v as i128)
    };
    proof {
        lemma_scaled_down(av as int, damping as int, SCALE as int);
    }
    assert(av * (damping as i128) <= velocity_cap() * SCALE) by (nonlinear_arith)
        requires
            0 <= av <= velocity_cap(),
            0 <= damping <= SCALE,
    ;
    let m = av * (damping as i128) / (SCALE as i128);
    if v >= 0 {
        -(m as i64)
    } else {
        assert((v as int) * damping == -(av * damping)) by (nonlinear_arith)
            requires
                av == -v,
        ;
        m as i64
    }
}

/// Moves `p` by its velocity and applies the four wall checks.
fn move_and_collide(p: Particle, width: i64, height: i64, damping: i64) -> (r: Particle)
    requires
        within_magnitude(p.position.x as int, MAX_MAGNITUDE as int),
        within_magnitude(p.position.y as int, MAX_MAGNITUDE as int),
        within_magnitude(p.velocity.x as int, velocity_cap()),
        within_magnitude(p.velocity.y as int, velocity_cap()),
        0 <= width,
        0 <= height,
        0 <= damping <= SCALE,
    ensures
        r@ == collide(integrate(p@), width as int, height as int, damping as int),
        contained(r@, width as int, height as int),
        within_magnitude(r.velocity.x as int, velocity_cap()),
        within_magnitude(r.velocity.y as int, velocity_cap()),
{
    let mut q = p;
    q.position.x = p.position.x + p.velocity.x;
    q.position.y = p.position.y + p.velocity.y;
    if q.position.y > height {
        q.position.y = height;
        q.velocity.y = reflect_velocity(q.velocity.y, damping);
    }
    if q.position.y < 0 {
        q.position.y = 0;
        q.velocity.y = reflect_velocity(q.velocity.y, damping);
    }
    if q.position.x < 0 {
        q.position.x = 0;
        q.velocity.x = reflect_velocity(q.velocity.x, damping);
    }
    if q.position.x > width {
        q.position.x = width;
        q.velocity.x = reflect_velocity(q.velocity.x, damping);
    }
    q
}

/// Advances the particle set by one tick: for each particle in index order,
/// gravity, its pairs with every later particle, integration and the wall
/// checks against `width` and `height`.
pub fn step(particles: &mut Vec<Particle>, cfg: &SimConfig, width: i64, height: i64)
    requires
        valid_input(old(particles)@, *cfg, width, height),
    ensures
        states(final(particles)@) == step_model(
            states(old(particles)@),
            *cfg,
            width as int,
            height as int,
        ),
        final(particles)@.len() == old(particles)@.len(),
        forall|j: int|
            0 <= j < final(particles)@.len() ==> contained(
                #[trigger] final(particles)@[j]@,
                width as int,
                height as int,
            ),
{
    let ghost ps0 = particles@;
    let n = particles.len();
    let mut i: usize = 0;
    assert forall|j: int| 0 <= j < n implies (#[trigger] particles@[j]).position == ps0[j].position
        && within_magnitude(particles@[j].velocity.x as int, MAX_MAGNITUDE + 0 * impulse_cap())
        && within_magnitude(particles@[j].velocity.y as int, MAX_MAGNITUDE + 0 * impulse_cap()) by {
        assert(ps0[j].is_valid());
    }
    while i < n
        invariant
            n == particles@.len(),
            n == ps0.len(),
            i <= n,
            valid_input(ps0, *cfg, width, height),
            states(particles@) == step_upto(
                states(ps0),
                i as nat,
                *cfg,
                width as int,
                height as int,
            ),
            forall|j: int|
                0 <= j < i ==> contained(#[trigger] particles@[j]@, width as int, height as int)
                    && within_magnitude(particles@[j].velocity.x as int, velocity_cap())
                    && within_magnitude(particles@[j].velocity.y as int, velocity_cap()),
            forall|j: int|
                i <= j < n ==> (#[trigger] particles@[j]).position == ps0[j].position
                    && within_magnitude(
                    particles@[j].velocity.x as int,
                    MAX_MAGNITUDE + i * impulse_cap(),
                ) && within_magnitude(
                    particles@[j].velocity.y as int,
                    MAX_MAGNITUDE + i * impulse_cap(),
                ),
        decreases n - i,
    {
        let ghost before = states(particles@);
        assert(ps0[i as int].is_valid());
        let mut p = particles[i];
        p.velocity.y = p.velocity.y + cfg.gravity;
        particles.set(i, p);
        let ghost g = states(particles@);
        assert(g =~= before.update(i as int, kick(before[i as int], 0, cfg.gravity as int)));
        let mut k: usize = i + 1;
        while k < n
            invariant
                n == particles@.len(),
                n == ps0.len(),
                i < k <= n,
                valid_input(ps0, *cfg, width, height),
                states(particles@) == interact(g, i as int, k as int, *cfg),
                forall|j: int|
                    0 <= j < i ==> contained(#[trigger] particles@[j]@, width as int, height as int)
                        && within_magnitude(particles@[j].velocity.x as int, velocity_cap())
                        && within_magnitude(particles@[j].velocity.y as int, velocity_cap()),
                particles@[i as int].position == ps0[i as int].position,
                within_magnitude(
                    particles@[i as int].velocity.x as int,
                    MAX_MAGNITUDE + i * impulse_cap() + (k - i - 1) * impulse_cap(),
                ),
                within_magnitude(
                    particles@[i as int].velocity.y as int,
                    2 * MAX_MAGNITUDE + i * impulse_cap() + (k - i - 1) * impulse_cap(),
                ),
                forall|j: int|
                    i < j < n ==> (#[trigger] particles@[j]).position == ps0[j].position
                        && within_magnitude(
                        particles@[j].velocity.x as int,
                        MAX_MAGNITUDE + i * impulse_cap() + if j < k {
                            impulse_cap()
                        } else {
                            0
                        },
                    ) && within_magnitude(
                        particles@[j].velocity.y as int,
                        MAX_MAGNITUDE + i * impulse_cap() + if j < k {
                            impulse_cap()
                        } else {
                            0
                        },
                    ),
            decreases n - k,
        {
            let ghost cur = states(particles@);
            let ghost vs = particles@;
            assert(ps0[k as int].is_valid());
            assert(ps0[i as int].is_valid());
            let a = particles[i];
            let b = particles[k];
            proof {
                lemma_impulse_bounded(a@, b@, *cfg);
            }
            let f = pair_impulse(&a, &b, cfg);
            let mut a2 = a;
            a2.velocity.x = a.velocity.x - f.x;
            a2.velocity.y = a.velocity.y - f.y;
            let mut b2 = b;
            b2.velocity.x = b.velocity.x + f.x;
            b2.velocity.y = b.velocity.y + f.y;
            particles.set(i, a2);
            particles.set(k, b2);
            assert(states(particles@) =~= apply_pair(cur, i as int, k as int, *cfg));
            assert forall|j: int| 0 <= j < i implies #[trigger] particles@[j] == vs[j] by {}
            k = k + 1;
        }
        let p = particles[i];
        let ghost r = states(particles@);
        let ghost vs = particles@;
        let q = move_and_collide(p, width, height, cfg.damping);
        particles.set(i, q);
        assert(states(particles@) =~= r.update(
            i as int,
            collide(integrate(r[i as int]), width as int, height as int, cfg.damping as int),
        ));
        assert forall|j: int| 0 <= j < n && j != i implies #[trigger] particles@[j] == vs[j] by {}
        i = i + 1;
    }
}

/// Whether `particles`, `cfg`, `width` and `height` are an input that `step` accepts.
pub fn check_input(particles: &Vec<Particle>, cfg: &SimConfig, width: i64, height: i64) -> (r:
    bool)
    ensures
        r == valid_input(particles@, *cfg, width, height),
{
    if particles.len() > MAX_PARTICLES || !cfg.check_valid() || width < 0 || width
        > MAX_MAGNITUDE || height < 0 || height > MAX_MAGNITUDE {
        return false;
    }
    let mut j: usize = 0;
    while j < particles.len()
        invariant
            j <= particles@.len(),
            forall|m: int| 0 <= m < j ==> #[trigger] particles@[m].is_valid(),
        decreases particles@.len() - j,
    {
        if !particles[j].check_valid() {
            return false;
        }
        j = j + 1;
    }
    true
}

/// Advances the set by one tick when the input is one that `step` accepts, and
/// otherwise leaves it as it is; returns whether it advanced.
pub fn try_step(particles: &mut Vec<Particle>, cfg: &SimConfig, width: i64, height: i64) -> (r:
    bool)
    ensures
        r == valid_input(old(particles)@, *cfg, width, height),
        r ==> states(final(particles)@) == step_model(
            states(old(particles)@),
            *cfg,
            width as int,
            height as int,
        ),
        !r ==> final(particles)@ == old(particles)@,
{
    if check_input(particles, cfg, width, height) {
        step(particles, cfg, width, height);
        true
    } else {
        false
    }
}

} // verus!
