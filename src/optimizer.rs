use vstd::prelude::*;

use crate::geometry::{
    in_coord_range, thruster_in_range, ResolvedThruster, Vec2i, MAX_THRUST, MAX_THRUSTERS,
};

verus! {

/// Objective weight of one unit of activation, against a weight of one for
/// each unit of torque or force error.
pub const FUEL_COST: i128 = 100_000;

/// Weight of the torque rows against the force rows, per unit of total thrust.
pub const TORQUE_WEIGHT_PER_THRUST: i128 = 10;

/// Activations are integers in hundredths: 0 is off, this is full thrust.
pub const FULL_ACTIVATION: u8 = 100;

/// Largest inverse square root of a moment of inertia that the estimator
/// takes, in millionths.
pub const MAX_INVERSE_INERTIA_SQRT: u32 = 0x8_0000;

/// `f(0) + f(1) + ... + f(n - 1)`.
pub open spec fn sum_of(n: nat, f: spec_fn(int) -> int) -> int
    decreases n,
{
    if n == 0 {
        0
    } else {
        sum_of((n - 1) as nat, f) + f(n - 1)
    }
}

/// The total rated thrust of the thrusters.
pub open spec fn total_thrust(ts: Seq<ResolvedThruster>) -> int {
    sum_of(ts.len(), |i: int| ts[i].max_thrust as int)
}

/// Full thrust of one thruster along x, in millionths of a force unit.
pub open spec fn thrust_x(t: ResolvedThruster) -> int {
    t.direction.x * t.max_thrust
}

pub open spec fn thrust_y(t: ResolvedThruster) -> int {
    t.direction.y * t.max_thrust
}

/// Torque of one thruster at full thrust about the center of mass: the cross
/// product of its moment arm with its thrust.
pub open spec fn torque_about(t: ResolvedThruster, com: Vec2i) -> int {
    (t.position.x - com.x) * thrust_y(t) - (t.position.y - com.y) * thrust_x(t)
}

/// The sum of the positive torques.
pub open spec fn positive_torque(ts: Seq<ResolvedThruster>, com: Vec2i) -> int {
    sum_of(ts.len(), |i: int| if torque_about(ts[i], com) > 0 { torque_about(ts[i], com) } else { 0 })
}

/// The sum of the magnitudes of the torques that are not positive.
pub open spec fn negative_torque(ts: Seq<ResolvedThruster>, com: Vec2i) -> int {
    sum_of(ts.len(), |i: int| if torque_about(ts[i], com) > 0 { 0 } else { -torque_about(ts[i], com) })
}

/// A requested force, in thousandths of the total thrust per axis.
#[derive(Clone, Copy, Debug, PartialEq, Eq, Structural)]
pub struct DesiredForce {
    pub x: i32,
    pub y: i32,
}

/// The allocation linear program, with integer coefficients. With one
/// activation `a_i` in `[0, 1]` per thruster and three error variables, it
/// minimizes `FUEL_COST * sum(a_i) + e_t + e_x + e_y` subject to
/// `|sum(torque[i] * a_i) - torque_target| <= e_t`,
/// `|sum(force_x[i] * a_i) - force_x_target| <= e_x` and
/// `|sum(force_y[i] * a_i) - force_y_target| <= e_y`.
pub struct LpProblem {
    pub torque: Vec<i128>,
    pub force_x: Vec<i128>,
    pub force_y: Vec<i128>,
    pub torque_target: i128,
    pub force_x_target: i128,
    pub force_y_target: i128,
}

/// The torque target: the requested fraction of the torque that the thrusters
/// can give in the requested sense.
pub open spec fn torque_target(ts: Seq<ResolvedThruster>, com: Vec2i, desired_torque: int) -> int {
    TORQUE_WEIGHT_PER_THRUST * total_thrust(ts) * desired_torque * (if desired_torque > 0 {
        positive_torque(ts, com)
    } else {
        negative_torque(ts, com)
    })
}

/// `p` is the allocation program of thrusters `ts` about `com` for a request
/// given in thousandths: of the total thrust for the force, of the torque
/// available in the requested sense for the torque. The rows are the
/// request's residuals scaled by a billion; the torque rows carry the weight
/// `TORQUE_WEIGHT_PER_THRUST * total_thrust(ts)`.
pub open spec fn is_allocation_program(
    p: LpProblem,
    ts: Seq<ResolvedThruster>,
    com: Vec2i,
    desired_force: DesiredForce,
    desired_torque: int,
) -> bool {
    &&& p.torque@.len() == ts.len()
    &&& p.force_x@.len() == ts.len()
    &&& p.force_y@.len() == ts.len()
    &&& forall|i: int|
        0 <= i < ts.len() ==> #[trigger] p.torque@[i] == 1000 * TORQUE_WEIGHT_PER_THRUST * total_thrust(ts)
            * torque_about(ts[i], com)
    &&& forall|i: int| 0 <= i < ts.len() ==> #[trigger] p.force_x@[i] == 1000 * thrust_x(ts[i])
    &&& forall|i: int| 0 <= i < ts.len() ==> #[trigger] p.force_y@[i] == 1000 * thrust_y(ts[i])
    &&& p.torque_target == torque_target(ts, com, desired_torque)
    &&& p.force_x_target == 1_000_000 * desired_force.x * total_thrust(ts)
    &&& p.force_y_target == 1_000_000 * desired_force.y * total_thrust(ts)
}

pub open spec fn abs_int(x: int) -> int {
    if x >= 0 {
        x
    } else {
        -x
    }
}

/// `sum(c[i] * a[i])`.
pub open spec fn row_value(c: Seq<i128>, a: Seq<int>) -> int {
    sum_of(c.len(), |i: int| c[i] * a[i])
}

/// A hundred times the program's objective at activations `a` given in
/// hundredths, with each error variable at the least value its rows allow.
pub open spec fn objective(p: LpProblem, a: Seq<int>) -> int {
    FUEL_COST * sum_of(p.torque@.len(), |i: int| a[i]) + abs_int(row_value(p.torque@, a) - 100 * p.torque_target)
        + abs_int(row_value(p.force_x@, a) - 100 * p.force_x_target) + abs_int(
        row_value(p.force_y@, a) - 100 * p.force_y_target,
    )
}

proof fn lemma_sum_zero(n: nat, f: spec_fn(int) -> int)
    requires
        forall|i: int| 0 <= i < n ==> #[trigger] f(i) == 0,
    ensures
        sum_of(n, f) == 0,
    decreases n,
{
    if n > 0 {
        lemma_sum_zero((n - 1) as nat, f);
    }
}

proof fn lemma_sum_at_least_term(n: nat, f: spec_fn(int) -> int, j: int)
    requires
        forall|i: int| 0 <= i < n ==> #[trigger] f(i) >= 0,
        0 <= j < n,
    ensures
        sum_of(n, f) >= f(j),
        sum_of(n, f) >= 0,
    decreases n,
{
    assert(sum_of(0, f) == 0);
    assert(f(n - 1) >= 0);
    if n > 1 {
        if j < n - 1 {
            lemma_sum_at_least_term((n - 1) as nat, f, j);
        } else {
            lemma_sum_at_least_term((n - 1) as nat, f, 0);
        }
    }
}

/// For a zero request, switching every thruster off is the only optimum of
/// the allocation program: it costs nothing, and any activation above zero
/// costs fuel.
pub proof fn lemma_zero_request_all_off(p: LpProblem, ts: Seq<ResolvedThruster>, com: Vec2i)
    requires
        is_allocation_program(p, ts, com, DesiredForce { x: 0, y: 0 }, 0),
    ensures
        objective(p, Seq::new(ts.len(), |i: int| 0int)) == 0,
        forall|a: Seq<int>|
            a.len() == ts.len() && (forall|i: int| 0 <= i < a.len() ==> 0 <= #[trigger] a[i] <= 100) && (exists|
                i: int,
            | 0 <= i < a.len() && #[trigger] a[i] > 0) ==> objective(p, a) > 0,
{
    let n = ts.len();
    let total = total_thrust(ts);
    assert(TORQUE_WEIGHT_PER_THRUST * total * 0 * negative_torque(ts, com) == 0) by (nonlinear_arith);
    assert(p.torque_target == 0);
    assert(1_000_000 * 0 * total == 0) by (nonlinear_arith);
    assert(p.force_x_target == 0);
    assert(p.force_y_target == 0);
    let z = Seq::new(n, |i: int| 0int);
    assert forall|i: int| 0 <= i < n implies #[trigger] z[i] == 0 && p.torque@[i] * z[i] == 0
        && p.force_x@[i] * z[i] == 0 && p.force_y@[i] * z[i] == 0 by {
        assert(z[i] == 0);
        assert(p.torque@[i] * 0 == 0 && p.force_x@[i] * 0 == 0 && p.force_y@[i] * 0 == 0) by (nonlinear_arith);
    }
    lemma_sum_zero(n, |i: int| z[i]);
    lemma_sum_zero(n, |i: int| p.torque@[i] * z[i]);
    lemma_sum_zero(n, |i: int| p.force_x@[i] * z[i]);
    lemma_sum_zero(n, |i: int| p.force_y@[i] * z[i]);
    assert forall|a: Seq<int>|
        a.len() == ts.len() && (forall|i: int| 0 <= i < a.len() ==> 0 <= #[trigger] a[i] <= 100) && (exists|
            i: int,
        | 0 <= i < a.len() && #[trigger] a[i] > 0) implies objective(p, a) > 0 by {
        let j = choose|i: int| 0 <= i < a.len() && #[trigger] a[i] > 0;
        lemma_sum_at_least_term(n, |i: int| a[i], j);
    }
}

/// Four thrusters of thrust one: two pushing along +y at `(-30, 0)` and
/// `(30, 0)`, two at `(0, 60)` pushing along +x and -x. Asked for the full
/// thrust along +y without torque about the origin, the only optimum of the
/// program fires the two +y thrusters fully and the others not at all, with
/// no net torque.
pub proof fn lemma_symmetric_layout_optimum(p: LpProblem, ts: Seq<ResolvedThruster>)
    requires
        ts.len() == 4,
        ts[0].position == (Vec2i { x: -30i64, y: 0 }) && ts[0].direction == (Vec2i { x: 0, y: 1_000_000 }),
        ts[1].position == (Vec2i { x: 30, y: 0 }) && ts[1].direction == (Vec2i { x: 0, y: 1_000_000 }),
        ts[2].position == (Vec2i { x: 0, y: 60 }) && ts[2].direction == (Vec2i { x: 1_000_000, y: 0 }),
        ts[3].position == (Vec2i { x: 0, y: 60 }) && ts[3].direction == (Vec2i { x: -1_000_000i64, y: 0 }),
        forall|i: int| 0 <= i < 4 ==> (#[trigger] ts[i]).max_thrust == 1,
        is_allocation_program(p, ts, Vec2i { x: 0, y: 0 }, DesiredForce { x: 0, y: 1000 }, 0),
    ensures
        row_value(p.torque@, seq![100int, 100, 0, 0]) == 0,
        forall|a: Seq<int>|
            a.len() == 4 && (forall|i: int| 0 <= i < 4 ==> 0 <= #[trigger] a[i] <= 100) && !(a[0] == 100 && a[1]
                == 100 && a[2] == 0 && a[3] == 0) ==> objective(p, a) > objective(p, seq![100int, 100, 0, 0]),
{
    reveal_with_fuel(sum_of, 5);
    let com = Vec2i { x: 0, y: 0 };
    assert(ts[0].max_thrust == 1 && ts[1].max_thrust == 1 && ts[2].max_thrust == 1 && ts[3].max_thrust == 1);
    assert(total_thrust(ts) == 4);
    assert(thrust_x(ts[0]) == 0 && thrust_y(ts[0]) == 1_000_000);
    assert(thrust_x(ts[1]) == 0 && thrust_y(ts[1]) == 1_000_000);
    assert(thrust_x(ts[2]) == 1_000_000 && thrust_y(ts[2]) == 0);
    assert(thrust_x(ts[3]) == -1_000_000 && thrust_y(ts[3]) == 0);
    assert(torque_about(ts[0], com) == -30_000_000);
    assert(torque_about(ts[1], com) == 30_000_000);
    assert(torque_about(ts[2], com) == -60_000_000) by (nonlinear_arith)
        requires
            ts[2].position.x == 0 && ts[2].position.y == 60,
            thrust_x(ts[2]) == 1_000_000 && thrust_y(ts[2]) == 0,
            com.x == 0 && com.y == 0,
    ;
    assert(torque_about(ts[3], com) == 60_000_000) by (nonlinear_arith)
        requires
            ts[3].position.x == 0 && ts[3].position.y == 60,
            thrust_x(ts[3]) == -1_000_000 && thrust_y(ts[3]) == 0,
            com.x == 0 && com.y == 0,
    ;
    assert(p.torque@[0] == -1_200_000_000_000 && p.torque@[1] == 1_200_000_000_000);
    assert(p.torque@[2] == -2_400_000_000_000 && p.torque@[3] == 2_400_000_000_000);
    assert(p.force_x@[0] == 0 && p.force_x@[1] == 0 && p.force_x@[2] == 1_000_000_000 && p.force_x@[3] == -1_000_000_000);
    assert(p.force_y@[0] == 1_000_000_000 && p.force_y@[1] == 1_000_000_000 && p.force_y@[2] == 0 && p.force_y@[3] == 0);
    assert(TORQUE_WEIGHT_PER_THRUST * 4 * 0 * negative_torque(ts, com) == 0) by (nonlinear_arith);
    assert(p.torque_target == 0);
    assert(p.force_x_target == 0);
    assert(1_000_000 * 1000 * total_thrust(ts) == 4_000_000_000) by (nonlinear_arith)
        requires
            total_thrust(ts) == 4,
    ;
    assert(p.force_y_target == 4_000_000_000);
    let best = seq![100int, 100, 0, 0];
    assert(objective(p, best) == 20_000_000 + 200_000_000_000);
    assert forall|a: Seq<int>|
        a.len() == 4 && (forall|i: int| 0 <= i < 4 ==> 0 <= #[trigger] a[i] <= 100) && !(a[0] == 100 && a[1]
            == 100 && a[2] == 0 && a[3] == 0) implies objective(p, a) > objective(p, best) by {
        assert(0 <= a[0] <= 100 && 0 <= a[1] <= 100 && 0 <= a[2] <= 100 && 0 <= a[3] <= 100);
        assert(row_value(p.force_y@, a) == 1_000_000_000 * a[0] + 1_000_000_000 * a[1]);
    }
}

proof fn lemma_sum_congruent(n: nat, f: spec_fn(int) -> int, g: spec_fn(int) -> int)
    requires
        forall|i: int| 0 <= i < n ==> #[trigger] f(i) == g(i),
    ensures
        sum_of(n, f) == sum_of(n, g),
    decreases n,
{
    if n > 0 {
        lemma_sum_congruent((n - 1) as nat, f, g);
    }
}

/// The program sees a thruster's position only through its moment arm about
/// the center of mass: moving every thruster and the center of mass by the
/// same offset leaves it unchanged.
pub proof fn lemma_translation_invariant(
    p: LpProblem,
    ts: Seq<ResolvedThruster>,
    com: Vec2i,
    moved: Seq<ResolvedThruster>,
    moved_com: Vec2i,
    desired_force: DesiredForce,
    desired_torque: int,
)
    requires
        moved.len() == ts.len(),
        forall|i: int|
            0 <= i < ts.len() ==> {
                &&& (#[trigger] moved[i]).direction == ts[i].direction
                &&& moved[i].max_thrust == ts[i].max_thrust
                &&& moved[i].position.x - moved_com.x == ts[i].position.x - com.x
                &&& moved[i].position.y - moved_com.y == ts[i].position.y - com.y
            },
    ensures
        is_allocation_program(p, ts, com, desired_force, desired_torque) == is_allocation_program(
            p,
            moved,
            moved_com,
            desired_force,
            desired_torque,
        ),
{
    let n = ts.len();
    assert forall|i: int| 0 <= i < n implies #[trigger] torque_about(moved[i], moved_com) == torque_about(ts[i], com)
        && thrust_x(moved[i]) == thrust_x(ts[i]) && thrust_y(moved[i]) == thrust_y(ts[i]) by {
        assert(moved[i].direction == ts[i].direction && moved[i].max_thrust == ts[i].max_thrust);
    }
    lemma_sum_congruent(n, |i: int| ts[i].max_thrust as int, |i: int| moved[i].max_thrust as int);
    lemma_sum_congruent(
        n,
        |i: int| if torque_about(ts[i], com) > 0 { torque_about(ts[i], com) } else { 0 },
        |i: int| if torque_about(moved[i], moved_com) > 0 { torque_about(moved[i], moved_com) } else { 0 },
    );
    lemma_sum_congruent(
        n,
        |i: int| if torque_about(ts[i], com) > 0 { 0 } else { -torque_about(ts[i], com) },
        |i: int| if torque_about(moved[i], moved_com) > 0 { 0 } else { -torque_about(moved[i], moved_com) },
    );
    assert(total_thrust(ts) == total_thrust(moved));
    assert(positive_torque(ts, com) == positive_torque(moved, moved_com));
    assert(negative_torque(ts, com) == negative_torque(moved, moved_com));
}

/// Largest magnitude of one thruster's torque about a center of mass in range.
pub const MAX_TORQUE: i128 = 34_359_738_368_000_000;

/// Builds the allocation program of `engines` about `center_of_mass` for the
/// requested force and torque (thousandths).
pub fn calculate_firing(
    engines: &Vec<ResolvedThruster>,
    center_of_mass: Vec2i,
    desired_force: DesiredForce,
    desired_torque: i32,
) -> (r: LpProblem)
    requires
        engines@.len() <= MAX_THRUSTERS,
        forall|k: int| 0 <= k < engines@.len() ==> thruster_in_range(#[trigger] engines@[k]),
        in_coord_range(center_of_mass),
    ensures
        is_allocation_program(r, engines@, center_of_mass, desired_force, desired_torque as int),
{
    let ts = Ghost(engines@);
    let n = engines.len();
    let mut total: i128 = 0;
    let mut i: usize = 0;
    while i < n
        invariant
            n == engines@.len(),
            n <= MAX_THRUSTERS,
            i <= n,
            forall|k: int| 0 <= k < n ==> thruster_in_range(#[trigger] engines@[k]),
            total == sum_of(i as nat, |k: int| engines@[k].max_thrust as int),
            0 <= total <= i * MAX_THRUST,
        decreases n - i,
    {
        assert(thruster_in_range(engines@[i as int]));
        total = total + engines[i].max_thrust as i128;
        i = i + 1;
    }
    assert(total == total_thrust(engines@));
    assert(total <= MAX_THRUSTERS * MAX_THRUST) by (nonlinear_arith)
        requires
            total <= n * MAX_THRUST,
            n <= MAX_THRUSTERS,
    ;
    let weight: i128 = 1000 * TORQUE_WEIGHT_PER_THRUST * total;
    let mut torque: Vec<i128> = Vec::new();
    let mut force_x: Vec<i128> = Vec::new();
    let mut force_y: Vec<i128> = Vec::new();
    let mut positive: i128 = 0;
    let mut negative: i128 = 0;
    let com = center_of_mass;
    i = 0;
    while i < n
        invariant
            n == engines@.len(),
            n <= MAX_THRUSTERS,
            i <= n,
            forall|k: int| 0 <= k < n ==> thruster_in_range(#[trigger] engines@[k]),
            in_coord_range(com),
            total == total_thrust(engines@),
            0 <= total <= MAX_THRUSTERS * MAX_THRUST,
            weight == 1000 * TORQUE_WEIGHT_PER_THRUST * total,
            torque@.len() == i,
            force_x@.len() == i,
            force_y@.len() == i,
            forall|k: int| 0 <= k < i ==> #[trigger] torque@[k] == weight * torque_about(engines@[k], com),
            forall|k: int| 0 <= k < i ==> #[trigger] force_x@[k] == 1000 * thrust_x(engines@[k]),
            forall|k: int| 0 <= k < i ==> #[trigger] force_y@[k] == 1000 * thrust_y(engines@[k]),
            positive == sum_of(
                i as nat,
                |k: int| if torque_about(engines@[k], com) > 0 { torque_about(engines@[k], com) } else { 0 },
            ),
            negative == sum_of(
                i as nat,
                |k: int| if torque_about(engines@[k], com) > 0 { 0 } else { -torque_about(engines@[k], com) },
            ),
            0 <= positive <= i * MAX_TORQUE,
            0 <= negative <= i * MAX_TORQUE,
        decreases n - i,
    {
        let e = engines[i];
        assert(thruster_in_range(e));
        let m = e.max_thrust as i128;
        assert(-65_536_000_000 <= e.direction.x * m <= 65_536_000_000) by (nonlinear_arith)
            requires
                -1_000_000 <= e.direction.x <= 1_000_000,
                0 <= m <= 65536,
        ;
        assert(-65_536_000_000 <= e.direction.y * m <= 65_536_000_000) by (nonlinear_arith)
            requires
                -1_000_000 <= e.direction.y <= 1_000_000,
                0 <= m <= 65536,
        ;
        let fx: i128 = e.direction.x as i128 * m;
        let fy: i128 = e.direction.y as i128 * m;
        let ax: i128 = e.position.x as i128 - com.x as i128;
        let ay: i128 = e.position.y as i128 - com.y as i128;
        assert(-17_179_869_184_000_000 <= ax * fy <= 17_179_869_184_000_000) by (nonlinear_arith)
            requires
                -262144 <= ax <= 262144,
                -65_536_000_000 <= fy <= 65_536_000_000,
        ;
        assert(-17_179_869_184_000_000 <= ay * fx <= 17_179_869_184_000_000) by (nonlinear_arith)
            requires
                -262144 <= ay <= 262144,
                -65_536_000_000 <= fx <= 65_536_000_000,
        ;
        let t: i128 = ax * fy - ay * fx;
        assert(t == torque_about(e, com));
        assert(-weight * MAX_TORQUE <= weight * t <= weight * MAX_TORQUE) by (nonlinear_arith)
            requires
                -MAX_TORQUE <= t <= MAX_TORQUE,
                0 <= weight,
        ;
        assert(weight * MAX_TORQUE <= 10000 * (MAX_THRUSTERS * MAX_THRUST) * MAX_TORQUE) by (nonlinear_arith)
            requires
                weight == 10000 * total,
                total <= MAX_THRUSTERS * MAX_THRUST,
        ;
        torque.push(weight * t);
        force_x.push(1000 * fx);
        force_y.push(1000 * fy);
        if t > 0 {
            positive = positive + t;
        } else {
            negative = negative - t;
        }
        i = i + 1;
        assert((i - 1) * MAX_TORQUE + MAX_TORQUE == i * MAX_TORQUE) by (nonlinear_arith);
    }
    assert(positive <= MAX_THRUSTERS * MAX_TORQUE && negative <= MAX_THRUSTERS * MAX_TORQUE)
        by (nonlinear_arith)
        requires
            positive <= n * MAX_TORQUE,
            negative <= n * MAX_TORQUE,
            n <= MAX_THRUSTERS,
    ;
    let available: i128 = if desired_torque > 0 { positive } else { negative };
    let d: i128 = desired_torque as i128;
    assert(-0x8000_0000 * (TORQUE_WEIGHT_PER_THRUST * (MAX_THRUSTERS * MAX_THRUST)) <= TORQUE_WEIGHT_PER_THRUST * total * d
        <= 0x8000_0000 * (TORQUE_WEIGHT_PER_THRUST * (MAX_THRUSTERS * MAX_THRUST))) by (nonlinear_arith)
        requires
            0 <= total <= MAX_THRUSTERS * MAX_THRUST,
            -0x8000_0000 <= d <= 0x8000_0000,
    ;
    let scaled: i128 = TORQUE_WEIGHT_PER_THRUST * total * d;
    assert(-0x8000_0000 * (TORQUE_WEIGHT_PER_THRUST * (MAX_THRUSTERS * MAX_THRUST)) * (MAX_THRUSTERS * MAX_TORQUE)
        <= scaled * available <= 0x8000_0000 * (TORQUE_WEIGHT_PER_THRUST * (MAX_THRUSTERS * MAX_THRUST)) * (
    MAX_THRUSTERS * MAX_TORQUE)) by (nonlinear_arith)
        requires
            -0x8000_0000 * (TORQUE_WEIGHT_PER_THRUST * (MAX_THRUSTERS * MAX_THRUST)) <= scaled
                <= 0x8000_0000 * (TORQUE_WEIGHT_PER_THRUST * (MAX_THRUSTERS * MAX_THRUST)),
            0 <= available <= MAX_THRUSTERS * MAX_TORQUE,
    ;
    let target = scaled * available;
    assert(-0x8000_0000 * (MAX_THRUSTERS * MAX_THRUST) <= desired_force.x as i128 * total
        <= 0x8000_0000 * (MAX_THRUSTERS * MAX_THRUST)) by (nonlinear_arith)
        requires
            0 <= total <= MAX_THRUSTERS * MAX_THRUST,
            -0x8000_0000 <= desired_force.x <= 0x8000_0000,
    ;
    assert(-0x8000_0000 * (MAX_THRUSTERS * MAX_THRUST) <= desired_force.y as i128 * total
        <= 0x8000_0000 * (MAX_THRUSTERS * MAX_THRUST)) by (nonlinear_arith)
        requires
            0 <= total <= MAX_THRUSTERS * MAX_THRUST,
            -0x8000_0000 <= desired_force.y <= 0x8000_0000,
    ;
    let force_x_target = 1_000_000 * (desired_force.x as i128 * total);
    let force_y_target = 1_000_000 * (desired_force.y as i128 * total);
    assert(positive == positive_torque(engines@, com));
    assert(negative == negative_torque(engines@, com));
    let r = LpProblem { torque, force_x, force_y, torque_target: target, force_x_target, force_y_target };
    assert forall|k: int| 0 <= k < n implies #[trigger] r.torque@[k] == 1000 * TORQUE_WEIGHT_PER_THRUST
        * total_thrust(engines@) * torque_about(engines@[k], com) by {
        let tk = torque_about(engines@[k], com);
        assert(weight * tk == 1000 * TORQUE_WEIGHT_PER_THRUST * total * tk) by (nonlinear_arith)
            requires
                weight == 1000 * TORQUE_WEIGHT_PER_THRUST * total,
        ;
    }
    assert(r.torque_target == torque_target(engines@, com, desired_torque as int)) by (nonlinear_arith)
        requires
            r.torque_target == scaled * available,
            scaled == TORQUE_WEIGHT_PER_THRUST * total * d,
            d == desired_torque,
            total == total_thrust(engines@),
            available == (if desired_torque > 0 {
                positive_torque(engines@, com)
            } else {
                negative_torque(engines@, com)
            }),
    ;
    assert(r.force_x_target == 1_000_000 * desired_force.x * total_thrust(engines@)) by (nonlinear_arith)
        requires
            r.force_x_target == 1_000_000 * (desired_force.x * total),
            total == total_thrust(engines@),
    ;
    assert(r.force_y_target == 1_000_000 * desired_force.y * total_thrust(engines@)) by (nonlinear_arith)
        requires
            r.force_y_target == 1_000_000 * (desired_force.y * total),
            total == total_thrust(engines@),
    ;
    r
}

/// A solver value in hundredths, held to the activation range `[0, 100]`.
pub open spec fn clamp_activation(v: int) -> u8 {
    if v <= 0 {
        0
    } else if v >= FULL_ACTIVATION {
        FULL_ACTIVATION
    } else {
        v as u8
    }
}

/// Turns the solver's values, rounded to hundredths, into activations.
pub fn activations_from_solution(solution: &Vec<i64>) -> (r: Vec<u8>)
    ensures
        r@.len() == solution@.len(),
        forall|i: int| 0 <= i < r@.len() ==> #[trigger] r@[i] == clamp_activation(solution@[i] as int),
        forall|i: int| 0 <= i < r@.len() ==> #[trigger] r@[i] <= FULL_ACTIVATION,
{
    let mut r: Vec<u8> = Vec::new();
    let mut i: usize = 0;
    while i < solution.len()
        invariant
            i <= solution@.len(),
            r@.len() == i,
            forall|k: int| 0 <= k < i ==> #[trigger] r@[k] == clamp_activation(solution@[k] as int),
            forall|k: int| 0 <= k < i ==> #[trigger] r@[k] <= FULL_ACTIVATION,
        decreases solution@.len() - i,
    {
        let v = solution[i];
        let a: u8 = if v <= 0 {
            0
        } else if v >= FULL_ACTIVATION as i64 {
            FULL_ACTIVATION
        } else {
            v as u8
        };
        r.push(a);
        i = i + 1;
    }
    r
}

/// Predicted accelerations: the linear ones in units of `1e-17`, the angular
/// one in units of `1e-23`, of the inputs' units.
#[derive(Clone, Copy, Debug, PartialEq, Eq, Structural)]
pub struct AccelerationEstimate {
    pub linear_x: i128,
    pub linear_y: i128,
    pub angular: i128,
}

/// Thrust of one thruster along x at activation `a` (hundredths) and engine
/// scale `scale` (thousandths), in units of `1e-11`.
pub open spec fn applied_x(t: ResolvedThruster, a: u8, scale: u16) -> int {
    t.direction.x * t.max_thrust * a * scale
}

pub open spec fn applied_y(t: ResolvedThruster, a: u8, scale: u16) -> int {
    t.direction.y * t.max_thrust * a * scale
}

/// The torque term of one thruster in the estimate: the cross product of its
/// moment arm with its applied thrust.
pub open spec fn applied_torque(t: ResolvedThruster, com: Vec2i, a: u8, scale: u16) -> int {
    (t.position.x - com.x) * applied_y(t, a, scale) - (t.position.y - com.y) * applied_x(t, a, scale)
}

/// Largest magnitude of one applied thrust component in the estimate.
pub const MAX_APPLIED: i128 = 429_490_176_000_000_000;

/// Largest magnitude of one torque term in the estimate.
pub const MAX_APPLIED_TORQUE: i128 = 225_176_545_394_688_000_000_000;

proof fn lemma_applied_bound(d: int, m: int, a: int, s: int)
    requires
        -1_000_000 <= d <= 1_000_000,
        0 <= m <= 65536,
        0 <= a <= 100,
        0 <= s <= 65535,
    ensures
        -65_536_000_000 <= d * m <= 65_536_000_000,
        -6_553_600_000_000 <= d * m * a <= 6_553_600_000_000,
        -MAX_APPLIED <= d * m * a * s <= MAX_APPLIED,
{
    assert(-65_536_000_000 <= d * m <= 65_536_000_000) by (nonlinear_arith)
        requires
            -1_000_000 <= d <= 1_000_000,
            0 <= m <= 65536,
    ;
    assert(-6_553_600_000_000 <= d * m * a <= 6_553_600_000_000) by (nonlinear_arith)
        requires
            -65_536_000_000 <= d * m <= 65_536_000_000,
            0 <= a <= 100,
    ;
    assert(-MAX_APPLIED <= d * m * a * s <= MAX_APPLIED) by (nonlinear_arith)
        requires
            -6_553_600_000_000 <= d * m * a <= 6_553_600_000_000,
            0 <= s <= 65535,
    ;
}

/// The estimate that `estimate_acceleration` returns.
pub open spec fn acceleration_of(
    inverse_moment_of_inertia_sqrt: u32,
    inverse_mass: u32,
    engine_scale: u16,
    com: Vec2i,
    ts: Seq<ResolvedThruster>,
    f: Seq<u8>,
) -> AccelerationEstimate {
    AccelerationEstimate {
        linear_x: sum_of(ts.len(), |i: int| inverse_mass * applied_x(ts[i], f[i], engine_scale)) as i128,
        linear_y: sum_of(ts.len(), |i: int| inverse_mass * applied_y(ts[i], f[i], engine_scale)) as i128,
        angular: sum_of(
            ts.len(),
            |i: int|
                inverse_moment_of_inertia_sqrt * (inverse_moment_of_inertia_sqrt * applied_torque(
                    ts[i],
                    com,
                    f[i],
                    engine_scale,
                )),
        ) as i128,
    }
}

/// Predicts the accelerations that activations `firing` of `engines` would give
/// a body: the linear one is `inverse_mass` (millionths) times the sum of the
/// applied thrusts, the angular one is the sum of the torque terms each
/// multiplied twice by `inverse_moment_of_inertia_sqrt` (millionths).
pub fn estimate_acceleration(
    inverse_moment_of_inertia_sqrt: u32,
    inverse_mass: u32,
    engine_scale: u16,
    center_of_mass: Vec2i,
    engines: &Vec<ResolvedThruster>,
    firing: &Vec<u8>,
) -> (r: AccelerationEstimate)
    requires
        engines@.len() <= MAX_THRUSTERS,
        firing@.len() == engines@.len(),
        forall|k: int| 0 <= k < engines@.len() ==> thruster_in_range(#[trigger] engines@[k]),
        forall|k: int| 0 <= k < firing@.len() ==> #[trigger] firing@[k] <= FULL_ACTIVATION,
        in_coord_range(center_of_mass),
        inverse_moment_of_inertia_sqrt <= MAX_INVERSE_INERTIA_SQRT,
    ensures
        r == acceleration_of(
            inverse_moment_of_inertia_sqrt,
            inverse_mass,
            engine_scale,
            center_of_mass,
            engines@,
            firing@,
        ),
        r.linear_x == sum_of(
            engines@.len(),
            |i: int| inverse_mass * applied_x(engines@[i], firing@[i], engine_scale),
        ),
        r.linear_y == sum_of(
            engines@.len(),
            |i: int| inverse_mass * applied_y(engines@[i], firing@[i], engine_scale),
        ),
        r.angular == sum_of(
            engines@.len(),
            |i: int|
                inverse_moment_of_inertia_sqrt * (inverse_moment_of_inertia_sqrt * applied_torque(
                    engines@[i],
                    center_of_mass,
                    firing@[i],
                    engine_scale,
                )),
        ),
{
    let n = engines.len();
    let com = center_of_mass;
    let inv = inverse_moment_of_inertia_sqrt as i128;
    let im = inverse_mass as i128;
    let scale = engine_scale as i128;
    let mut lx: i128 = 0;
    let mut ly: i128 = 0;
    let mut ang: i128 = 0;
    let mut i: usize = 0;
    while i < n
        invariant
            n == engines@.len(),
            n == firing@.len(),
            n <= MAX_THRUSTERS,
            i <= n,
            forall|k: int| 0 <= k < n ==> thruster_in_range(#[trigger] engines@[k]),
            forall|k: int| 0 <= k < n ==> #[trigger] firing@[k] <= FULL_ACTIVATION,
            in_coord_range(com),
            com == center_of_mass,
            0 <= inv <= MAX_INVERSE_INERTIA_SQRT,
            inv == inverse_moment_of_inertia_sqrt,
            im == inverse_mass,
            scale == engine_scale,
            lx == sum_of(i as nat, |k: int| inverse_mass * applied_x(engines@[k], firing@[k], engine_scale)),
            ly == sum_of(i as nat, |k: int| inverse_mass * applied_y(engines@[k], firing@[k], engine_scale)),
            ang == sum_of(
                i as nat,
                |k: int|
                    inverse_moment_of_inertia_sqrt * (inverse_moment_of_inertia_sqrt * applied_torque(
                        engines@[k],
                        center_of_mass,
                        firing@[k],
                        engine_scale,
                    )),
            ),
            -(i * (0x1_0000_0000 * MAX_APPLIED)) <= lx <= i * (0x1_0000_0000 * MAX_APPLIED),
            -(i * (0x1_0000_0000 * MAX_APPLIED)) <= ly <= i * (0x1_0000_0000 * MAX_APPLIED),
            -(i * (0x40_0000_0000 * MAX_APPLIED_TORQUE)) <= ang <= i * (0x40_0000_0000
                * MAX_APPLIED_TORQUE),
        decreases n - i,
    {
        let e = engines[i];
        let a = firing[i];
        assert(thruster_in_range(e));
        let m = e.max_thrust as i128;
        proof {
            lemma_applied_bound(e.direction.x as int, m as int, a as int, scale as int);
            lemma_applied_bound(e.direction.y as int, m as int, a as int, scale as int);
        }
        let fx: i128 = e.direction.x as i128 * m * a as i128 * scale;
        let fy: i128 = e.direction.y as i128 * m * a as i128 * scale;
        assert(fx == applied_x(e, a, engine_scale));
        assert(fy == applied_y(e, a, engine_scale));
        let ax: i128 = e.position.x as i128 - com.x as i128;
        let ay: i128 = e.position.y as i128 - com.y as i128;
        assert(-(MAX_APPLIED_TORQUE / 2) <= ax * fy <= MAX_APPLIED_TORQUE / 2) by (nonlinear_arith)
            requires
                -262144 <= ax <= 262144,
                -MAX_APPLIED <= fy <= MAX_APPLIED,
        ;
        assert(-(MAX_APPLIED_TORQUE / 2) <= ay * fx <= MAX_APPLIED_TORQUE / 2) by (nonlinear_arith)
            requires
                -262144 <= ay <= 262144,
                -MAX_APPLIED <= fx <= MAX_APPLIED,
        ;
        let torque: i128 = ax * fy - ay * fx;
        assert(-(0x8_0000 * MAX_APPLIED_TORQUE) <= inv * torque <= 0x8_0000 * MAX_APPLIED_TORQUE)
            by (nonlinear_arith)
            requires
                -MAX_APPLIED_TORQUE <= torque <= MAX_APPLIED_TORQUE,
                0 <= inv <= 0x8_0000,
        ;
        let half: i128 = inv * torque;
        assert(-(0x40_0000_0000 * MAX_APPLIED_TORQUE) <= inv * half <= 0x40_0000_0000
            * MAX_APPLIED_TORQUE) by (nonlinear_arith)
            requires
                -(0x8_0000 * MAX_APPLIED_TORQUE) <= half <= 0x8_0000 * MAX_APPLIED_TORQUE,
                0 <= inv <= 0x8_0000,
        ;
        assert(-(0x1_0000_0000 * MAX_APPLIED) <= im * fx <= 0x1_0000_0000 * MAX_APPLIED) by (nonlinear_arith)
            requires
                -MAX_APPLIED <= fx <= MAX_APPLIED,
                0 <= im < 0x1_0000_0000,
        ;
        assert(-(0x1_0000_0000 * MAX_APPLIED) <= im * fy <= 0x1_0000_0000 * MAX_APPLIED) by (nonlinear_arith)
            requires
                -MAX_APPLIED <= fy <= MAX_APPLIED,
                0 <= im < 0x1_0000_0000,
        ;
        assert(i * (0x1_0000_0000 * MAX_APPLIED) + 0x1_0000_0000 * MAX_APPLIED == (i + 1) * (0x1_0000_0000
            * MAX_APPLIED)) by (nonlinear_arith);
        assert(i * (0x40_0000_0000 * MAX_APPLIED_TORQUE) + 0x40_0000_0000 * MAX_APPLIED_TORQUE == (i
            + 1) * (0x40_0000_0000 * MAX_APPLIED_TORQUE)) by (nonlinear_arith);
        assert((i + 1) * (0x40_0000_0000 * MAX_APPLIED_TORQUE) <= 1024 * (0x40_0000_0000
            * MAX_APPLIED_TORQUE)) by (nonlinear_arith)
            requires
                i + 1 <= 1024,
        ;
        assert((i + 1) * (0x1_0000_0000 * MAX_APPLIED) <= 1024 * (0x1_0000_0000 * MAX_APPLIED))
            by (nonlinear_arith)
            requires
                i + 1 <= 1024,
        ;
        lx = lx + im * fx;
        ly = ly + im * fy;
        ang = ang + inv * half;
        i = i + 1;
    }
    AccelerationEstimate { linear_x: lx, linear_y: ly, angular: ang }
}

} // verus!
