use vstd::prelude::*;
use vstd::arithmetic::div_mod::{lemma_div_by_multiple, lemma_div_is_ordered};

verus! {

/// Largest magnitude of a mount offset, a mount direction component, a part
/// translation or a center of mass, in the body's length units.
pub const MAX_COORD: i64 = 65536;

/// Largest rated thrust of one mount, in the body's force units.
pub const MAX_THRUST: u64 = 65536;

/// Length of a resolved unit direction: its components are in millionths.
pub const DIRECTION_UNIT: i64 = 1_000_000;

/// Length of a part rotation `(cos, sin)`: its components are in thousandths.
pub const ROTATION_UNIT: i64 = 1000;

/// A two-dimensional integer vector.
#[derive(Clone, Copy, Debug, PartialEq, Eq, Structural)]
pub struct Vec2i {
    pub x: i64,
    pub y: i64,
}

/// Both components lie within `MAX_COORD`.
pub open spec fn in_coord_range(v: Vec2i) -> bool {
    -MAX_COORD <= v.x <= MAX_COORD && -MAX_COORD <= v.y <= MAX_COORD
}

/// `r` is the floor of the square root of `n`.
pub open spec fn is_sqrt_floor(n: nat, r: nat) -> bool {
    r * r <= n && n < (r + 1) * (r + 1)
}

/// The floor of the square root of `n`.
pub open spec fn sqrt_floor(n: nat) -> nat {
    choose|r: nat| #[trigger] is_sqrt_floor(n, r)
}

proof fn lemma_square_monotone(a: nat, b: nat)
    requires
        a <= b,
    ensures
        a * a <= b * b,
{
    assert(a * a <= b * b) by (nonlinear_arith)
        requires
            a <= b,
    ;
}

/// The floor square root is the only root with the bracketing property.
proof fn lemma_sqrt_floor_unique(n: nat, r: nat)
    requires
        r * r <= n,
        n < (r + 1) * (r + 1),
    ensures
        sqrt_floor(n) == r,
{
    assert(is_sqrt_floor(n, r));
    let s = sqrt_floor(n);
    assert(s * s <= n && n < (s + 1) * (s + 1));
    if s < r {
        lemma_square_monotone(s + 1, r);
    } else if r < s {
        lemma_square_monotone(r + 1, s);
    }
}

/// Integer square root by bisection.
fn isqrt(n: u128) -> (r: u128)
    requires
        n < 0x4000_0000_0000_0000_0000_0000_0000_0000,
    ensures
        r == sqrt_floor(n as nat),
        is_sqrt_floor(n as nat, r as nat),
        r < 0x8000_0000_0000_0000,
{
    let mut lo: u128 = 0;
    let mut hi: u128 = 0x8000_0000_0000_0000;
    assert(hi * hi == 0x4000_0000_0000_0000_0000_0000_0000_0000);
    while hi - lo > 1
        invariant
            lo < hi,
            hi <= 0x8000_0000_0000_0000,
            lo * lo <= n,
            n < hi * hi,
        decreases hi - lo,
    {
        let mid: u128 = lo + (hi - lo) / 2;
        assert(mid * mid <= 0x4000_0000_0000_0000_0000_0000_0000_0000) by {
            lemma_square_monotone(mid as nat, 0x8000_0000_0000_0000nat);
        }
        if mid * mid <= n {
            lo = mid;
        } else {
            hi = mid;
        }
    }
    assert(hi == lo + 1);
    proof {
        lemma_sqrt_floor_unique(n as nat, lo as nat);
    }
    lo
}

/// `c * 1e12 / len`, truncated toward zero.
pub open spec fn unit_component(c: int, len: int) -> int {
    if c >= 0 {
        c * 1_000_000_000_000 / len
    } else {
        -((-c) * 1_000_000_000_000 / len)
    }
}

/// A million times the length of `(x, y)`, rounded down.
pub open spec fn scaled_norm(x: int, y: int) -> nat {
    sqrt_floor((1_000_000_000_000 * (x * x + y * y)) as nat)
}

/// The direction of `(x, y)` as a vector of length `DIRECTION_UNIT`, each
/// component truncated toward zero.
pub open spec fn unit_direction(x: int, y: int) -> Vec2i {
    Vec2i {
        x: unit_component(x, scaled_norm(x, y) as int) as i64,
        y: unit_component(y, scaled_norm(x, y) as int) as i64,
    }
}

pub open spec fn abs_of(c: int) -> int {
    if c >= 0 {
        c
    } else {
        -c
    }
}

proof fn lemma_norm_dominates(c: int, o: int, n: nat)
    requires
        is_sqrt_floor((1_000_000_000_000 * (c * c + o * o)) as nat, n),
    ensures
        1_000_000 * abs_of(c) <= n,
{
    let a: int = abs_of(c);
    assert(a * a == c * c) by (nonlinear_arith)
        requires
            a == (if c >= 0 { c } else { -c }),
    ;
    assert(o * o >= 0) by (nonlinear_arith);
    assert((1_000_000 * a) * (1_000_000 * a) == 1_000_000_000_000 * (a * a)) by (nonlinear_arith);
    if n < 1_000_000 * a {
        lemma_square_monotone(n + 1, (1_000_000 * a) as nat);
    }
}

/// The norm is at most `1e12` times the larger component magnitude.
proof fn lemma_norm_bounded(c: int, o: int, n: nat)
    requires
        is_sqrt_floor((1_000_000_000_000 * (c * c + o * o)) as nat, n),
        abs_of(c) >= abs_of(o),
        c != 0,
    ensures
        n <= 1_000_000_000_000 * abs_of(c),
{
    let a: int = abs_of(c);
    let b: int = abs_of(o);
    assert(a * a == c * c && b * b == o * o) by (nonlinear_arith)
        requires
            a == (if c >= 0 { c } else { -c }),
            b == (if o >= 0 { o } else { -o }),
    ;
    assert(b * b <= a * a) by (nonlinear_arith)
        requires
            0 <= b <= a,
    ;
    let m = 1_000_000_000_000 * a;
    if n > m {
        lemma_square_monotone((m + 1) as nat, n);
        assert((m + 1) * (m + 1) > 1_000_000_000_000 * (a * a + a * a)) by (nonlinear_arith)
            requires
                m == 1_000_000_000_000 * a,
                a >= 1,
        ;
        assert(1_000_000_000_000 * (c * c + o * o) <= 1_000_000_000_000 * (a * a + a * a)) by (nonlinear_arith)
            requires
                c * c + o * o <= a * a + a * a,
        ;
    }
}

proof fn lemma_unit_component_bound(c: int, n: nat)
    requires
        1_000_000 * abs_of(c) <= n,
        n > 0,
    ensures
        -1_000_000 <= unit_component(c, n as int) <= 1_000_000,
{
    let a: int = abs_of(c);
    assert(a * 1_000_000_000_000 <= 1_000_000 * n) by (nonlinear_arith)
        requires
            1_000_000 * a <= n,
    ;
    lemma_div_is_ordered(a * 1_000_000_000_000, 1_000_000 * (n as int), n as int);
    lemma_div_by_multiple(1_000_000, n as int);
    assert(a * 1_000_000_000_000 >= 0) by (nonlinear_arith)
        requires
            a >= 0,
    ;
    lemma_div_is_ordered(0, a * 1_000_000_000_000, n as int);
}

proof fn lemma_unit_component_nonzero(c: int, n: nat)
    requires
        n <= 1_000_000_000_000 * abs_of(c),
        n > 0,
    ensures
        unit_component(c, n as int) != 0,
{
    let a: int = abs_of(c);
    lemma_div_is_ordered(n as int, a * 1_000_000_000_000, n as int);
    lemma_div_by_multiple(1, n as int);
}

/// Rescales a non-zero vector to length `DIRECTION_UNIT`.
fn normalize(x: i64, y: i64) -> (r: Vec2i)
    requires
        -0x1000_0000 <= x <= 0x1000_0000,
        -0x1000_0000 <= y <= 0x1000_0000,
        x != 0 || y != 0,
    ensures
        r == unit_direction(x as int, y as int),
        -DIRECTION_UNIT <= r.x <= DIRECTION_UNIT,
        -DIRECTION_UNIT <= r.y <= DIRECTION_UNIT,
        r.x != 0 || r.y != 0,
{
    let ax: u128 = if x >= 0 { x as u128 } else { (-x) as u128 };
    let ay: u128 = if y >= 0 { y as u128 } else { (-y) as u128 };
    assert(ax * ax <= 0x100_0000_0000_0000) by (nonlinear_arith)
        requires
            ax <= 0x1000_0000,
    ;
    assert(ay * ay <= 0x100_0000_0000_0000) by (nonlinear_arith)
        requires
            ay <= 0x1000_0000,
    ;
    let sq: u128 = 1_000_000_000_000 * (ax * ax + ay * ay);
    assert(ax * ax == x * x && ay * ay == y * y) by (nonlinear_arith)
        requires
            ax == (if x >= 0 { x as int } else { -x }),
            ay == (if y >= 0 { y as int } else { -y }),
    ;
    let n = isqrt(sq);
    proof {
        assert(is_sqrt_floor(sq as nat, n as nat));
        lemma_norm_dominates(x as int, y as int, n as nat);
        assert(y * y + x * x == x * x + y * y);
        lemma_norm_dominates(y as int, x as int, n as nat);
        lemma_unit_component_bound(x as int, n as nat);
        lemma_unit_component_bound(y as int, n as nat);
        if abs_of(x as int) >= abs_of(y as int) {
            lemma_norm_bounded(x as int, y as int, n as nat);
            lemma_unit_component_nonzero(x as int, n as nat);
        } else {
            lemma_norm_bounded(y as int, x as int, n as nat);
            lemma_unit_component_nonzero(y as int, n as nat);
        }
    }
    assert(ax * 1_000_000_000_000 <= 0x1000_0000 * 1_000_000_000_000) by (nonlinear_arith)
        requires
            ax <= 0x1000_0000,
    ;
    assert(ay * 1_000_000_000_000 <= 0x1000_0000 * 1_000_000_000_000) by (nonlinear_arith)
        requires
            ay <= 0x1000_0000,
    ;
    let qx = ((ax * 1_000_000_000_000) / n) as i64;
    let qy = ((ay * 1_000_000_000_000) / n) as i64;
    let ux: i64 = if x >= 0 { qx } else { -qx };
    let uy: i64 = if y >= 0 { qy } else { -qy };
    Vec2i { x: ux, y: uy }
}

/// Identity of one thruster mount: the part that carries it and its index in
/// that part's mount list. It stays the same while the mount stays in place.
#[derive(Clone, Copy, Debug, PartialEq, Eq, Hash, Structural)]
pub struct ThrusterId {
    pub part: u64,
    pub index: u64,
}

/// A thruster mount: where it sits on its part, the direction it pushes along
/// (any non-zero length) and its rated thrust.
#[derive(Clone, Copy, Debug, PartialEq, Eq, Structural)]
pub struct Engine {
    pub offset: Vec2i,
    pub thrust_vector: Vec2i,
    pub max_thrust: u64,
}

impl Default for Engine {
    fn default() -> (r: Engine)
        ensures
            r == (Engine { offset: Vec2i { x: 0, y: 0 }, thrust_vector: Vec2i { x: 0, y: 1 }, max_thrust: 1 }),
    {
        Engine { offset: Vec2i { x: 0, y: 0 }, thrust_vector: Vec2i { x: 0, y: 1 }, max_thrust: 1 }
    }
}

/// The mounts carried by one part, in their stable order.
#[derive(Clone, Debug)]
pub struct EngineSet(pub Vec<Engine>);

/// A mount can be resolved: its values are in range and its direction is not
/// the zero vector.
pub open spec fn mount_valid(e: Engine) -> bool {
    &&& in_coord_range(e.offset)
    &&& in_coord_range(e.thrust_vector)
    &&& e.max_thrust <= MAX_THRUST
    &&& (e.thrust_vector.x != 0 || e.thrust_vector.y != 0)
}

/// Placement of a rigidly attached part in the controlled body's frame: a
/// rotation given as `(cos, sin)` in thousandths, then a translation. A mount
/// sits at the translation plus its rotated offset, rounded, and pushes along
/// its rotated direction.
#[derive(Clone, Copy, Debug, PartialEq, Eq, Structural)]
pub struct PartTransform {
    pub translation: Vec2i,
    pub cos: i64,
    pub sin: i64,
}

impl PartTransform {
    /// In range, with a rotation that is not zero.
    pub open spec fn valid(self) -> bool {
        &&& in_coord_range(self.translation)
        &&& -ROTATION_UNIT <= self.cos <= ROTATION_UNIT
        &&& -ROTATION_UNIT <= self.sin <= ROTATION_UNIT
        &&& (self.cos != 0 || self.sin != 0)
    }

    pub open spec fn identity_spec() -> PartTransform {
        PartTransform { translation: Vec2i { x: 0, y: 0 }, cos: ROTATION_UNIT, sin: 0 }
    }

    /// The transform of the controlled body's own mounts.
    pub fn identity() -> (r: PartTransform)
        ensures
            r == PartTransform::identity_spec(),
            r.valid(),
    {
        PartTransform { translation: Vec2i { x: 0, y: 0 }, cos: ROTATION_UNIT, sin: 0 }
    }
}

/// A mount resolved into the controlled body's frame.
#[derive(Clone, Copy, Debug, PartialEq, Eq, Structural)]
pub struct ResolvedThruster {
    pub position: Vec2i,
    /// Unit direction, components in millionths; never the zero vector.
    pub direction: Vec2i,
    pub max_thrust: u64,
    pub id: ThrusterId,
}

/// The ranges that every resolved thruster keeps.
pub open spec fn thruster_in_range(t: ResolvedThruster) -> bool {
    &&& -3 * MAX_COORD <= t.position.x <= 3 * MAX_COORD
    &&& -3 * MAX_COORD <= t.position.y <= 3 * MAX_COORD
    &&& -DIRECTION_UNIT <= t.direction.x <= DIRECTION_UNIT
    &&& -DIRECTION_UNIT <= t.direction.y <= DIRECTION_UNIT
    &&& (t.direction.x != 0 || t.direction.y != 0)
    &&& t.max_thrust <= MAX_THRUST
}

/// The mount's direction turned by the part's rotation (scaled by its length).
pub open spec fn rotated_x(t: PartTransform, v: Vec2i) -> int {
    t.cos * v.x - t.sin * v.y
}

pub open spec fn rotated_y(t: PartTransform, v: Vec2i) -> int {
    t.sin * v.x + t.cos * v.y
}

/// `v / 1000`, rounded to the nearest integer, halves away from zero.
pub open spec fn round_thousandths(v: int) -> int {
    if v >= 0 {
        (v + 500) / 1000
    } else {
        -((-v + 500) / 1000)
    }
}

fn round_thousandths_exec(v: i64) -> (r: i64)
    requires
        -0x1_0000_0000 <= v <= 0x1_0000_0000,
    ensures
        r == round_thousandths(v as int),
        v >= 0 ==> 0 <= r <= v / 1000 + 1,
        v < 0 ==> -((-v) / 1000 + 1) <= r <= 0,
{
    if v >= 0 {
        (v + 500) / 1000
    } else {
        -((-v + 500) / 1000)
    }
}

/// The resolved form of mount `e` of a part placed by `t`, or `None` where the
/// mount is dropped.
pub open spec fn resolved_mount(t: PartTransform, e: Engine, id: ThrusterId) -> Option<ResolvedThruster> {
    let rx = rotated_x(t, e.thrust_vector);
    let ry = rotated_y(t, e.thrust_vector);
    if !mount_valid(e) || (rx == 0 && ry == 0) {
        None
    } else {
        Some(ResolvedThruster {
            position: Vec2i {
                x: (t.translation.x + round_thousandths(rotated_x(t, e.offset))) as i64,
                y: (t.translation.y + round_thousandths(rotated_y(t, e.offset))) as i64,
            },
            direction: unit_direction(rx, ry),
            max_thrust: e.max_thrust,
            id: id,
        })
    }
}

fn resolve_mount(t: &PartTransform, e: &Engine, id: ThrusterId) -> (r: Option<ResolvedThruster>)
    requires
        t.valid(),
    ensures
        r == resolved_mount(*t, *e, id),
        r matches Some(rt) ==> thruster_in_range(rt),
{
    let v = e.thrust_vector;
    let valid = -MAX_COORD <= e.offset.x && e.offset.x <= MAX_COORD && -MAX_COORD <= e.offset.y
        && e.offset.y <= MAX_COORD && -MAX_COORD <= v.x && v.x <= MAX_COORD && -MAX_COORD <= v.y
        && v.y <= MAX_COORD && e.max_thrust <= MAX_THRUST && (v.x != 0 || v.y != 0);
    if !valid {
        return None;
    }
    assert(-65536000 <= t.cos * v.x <= 65536000) by (nonlinear_arith)
        requires
            -1000 <= t.cos <= 1000,
            -65536 <= v.x <= 65536,
    ;
    assert(-65536000 <= t.sin * v.y <= 65536000) by (nonlinear_arith)
        requires
            -1000 <= t.sin <= 1000,
            -65536 <= v.y <= 65536,
    ;
    assert(-65536000 <= t.sin * v.x <= 65536000) by (nonlinear_arith)
        requires
            -1000 <= t.sin <= 1000,
            -65536 <= v.x <= 65536,
    ;
    assert(-65536000 <= t.cos * v.y <= 65536000) by (nonlinear_arith)
        requires
            -1000 <= t.cos <= 1000,
            -65536 <= v.y <= 65536,
    ;
    let o = e.offset;
    assert(-65536000 <= t.cos * o.x <= 65536000) by (nonlinear_arith)
        requires
            -1000 <= t.cos <= 1000,
            -65536 <= o.x <= 65536,
    ;
    assert(-65536000 <= t.sin * o.y <= 65536000) by (nonlinear_arith)
        requires
            -1000 <= t.sin <= 1000,
            -65536 <= o.y <= 65536,
    ;
    assert(-65536000 <= t.sin * o.x <= 65536000) by (nonlinear_arith)
        requires
            -1000 <= t.sin <= 1000,
            -65536 <= o.x <= 65536,
    ;
    assert(-65536000 <= t.cos * o.y <= 65536000) by (nonlinear_arith)
        requires
            -1000 <= t.cos <= 1000,
            -65536 <= o.y <= 65536,
    ;
    let px = round_thousandths_exec(t.cos * o.x - t.sin * o.y);
    let py = round_thousandths_exec(t.sin * o.x + t.cos * o.y);
    let rx: i64 = t.cos * v.x - t.sin * v.y;
    let ry: i64 = t.sin * v.x + t.cos * v.y;
    if rx == 0 && ry == 0 {
        return None;
    }
    let direction = normalize(rx, ry);
    Some(ResolvedThruster {
        position: Vec2i { x: t.translation.x + px, y: t.translation.y + py },
        direction,
        max_thrust: e.max_thrust,
        id,
    })
}

/// Thruster ids in strictly increasing order: by part, then by index.
pub open spec fn id_less(a: ThrusterId, b: ThrusterId) -> bool {
    a.part < b.part || (a.part == b.part && a.index < b.index)
}

/// The thrusters' ids are strictly increasing, so no two are equal.
pub open spec fn thrusters_sorted(ts: Seq<ResolvedThruster>) -> bool {
    forall|i: int, j: int| 0 <= i < j < ts.len() ==> id_less(#[trigger] ts[i].id, #[trigger] ts[j].id)
}

/// Most mounts that one layout carries, over all its parts.
pub const MAX_THRUSTERS: usize = 1024;

/// A mount's values lie in the ranges that the library computes with.
pub open spec fn mount_in_range(e: Engine) -> bool {
    &&& in_coord_range(e.offset)
    &&& in_coord_range(e.thrust_vector)
    &&& e.max_thrust <= MAX_THRUST
}

pub open spec fn engines_in_range(es: Seq<Engine>) -> bool {
    forall|i: int| 0 <= i < es.len() ==> mount_in_range(#[trigger] es[i])
}

fn check_engines(es: &Vec<Engine>) -> (r: bool)
    ensures
        r == engines_in_range(es@),
{
    let mut i: usize = 0;
    while i < es.len()
        invariant
            i <= es@.len(),
            forall|k: int| 0 <= k < i ==> mount_in_range(#[trigger] es@[k]),
        decreases es@.len() - i,
    {
        let e = es[i];
        if !(-MAX_COORD <= e.offset.x && e.offset.x <= MAX_COORD && -MAX_COORD <= e.offset.y
            && e.offset.y <= MAX_COORD && -MAX_COORD <= e.thrust_vector.x && e.thrust_vector.x <= MAX_COORD
            && -MAX_COORD <= e.thrust_vector.y && e.thrust_vector.y <= MAX_COORD && e.max_thrust <= MAX_THRUST) {
            assert(!mount_in_range(es@[i as int]));
            return false;
        }
        i = i + 1;
    }
    true
}

/// A part that carries thruster mounts: the controlled body itself (id 0) or a
/// part rigidly attached to it.
#[derive(Clone, Debug)]
pub struct ThrusterPart {
    pub id: u64,
    pub transform: PartTransform,
    pub engines: EngineSet,
}

/// The first `k` mounts of `p`, resolved, with the dropped ones left out.
pub open spec fn resolve_engines(p: ThrusterPart, k: nat) -> Seq<ResolvedThruster>
    decreases k,
{
    if k == 0 {
        Seq::empty()
    } else {
        let prev = resolve_engines(p, (k - 1) as nat);
        let id = ThrusterId { part: p.id, index: (k - 1) as u64 };
        match resolved_mount(p.transform, p.engines.0@[k - 1], id) {
            Some(r) => prev.push(r),
            None => prev,
        }
    }
}

/// The mounts of the first `k` parts, resolved and flattened in part order.
pub open spec fn resolve_parts(ps: Seq<ThrusterPart>, k: nat) -> Seq<ResolvedThruster>
    decreases k,
{
    if k == 0 {
        Seq::empty()
    } else {
        resolve_parts(ps, (k - 1) as nat) + resolve_engines(ps[k - 1], ps[k - 1].engines.0@.len())
    }
}

/// A part's resolved thrusters come in increasing index order, each from a
/// valid mount of that part.
pub proof fn lemma_resolve_engines_sorted(p: ThrusterPart, k: nat)
    requires
        k <= p.engines.0@.len(),
        p.engines.0@.len() <= MAX_THRUSTERS,
    ensures
        thrusters_sorted(resolve_engines(p, k)),
        forall|i: int|
            0 <= i < resolve_engines(p, k).len() ==> (#[trigger] resolve_engines(p, k)[i]).id.part == p.id
                && resolve_engines(p, k)[i].id.index < k
                && mount_valid(p.engines.0@[resolve_engines(p, k)[i].id.index as int]),
        resolve_engines(p, k).len() <= k,
    decreases k,
{
    if k > 0 {
        lemma_resolve_engines_sorted(p, (k - 1) as nat);
    }
}

/// With part ids increasing, the resolved thrusters come in increasing id
/// order, each from a valid mount of a part with its id.
pub proof fn lemma_resolve_parts_sorted(ps: Seq<ThrusterPart>, k: nat)
    requires
        k <= ps.len(),
        forall|i: int, j: int| 0 <= i < j < ps.len() ==> (#[trigger] ps[i]).id < (#[trigger] ps[j]).id,
        forall|i: int| 0 <= i < ps.len() ==> (#[trigger] ps[i]).engines.0@.len() <= MAX_THRUSTERS,
    ensures
        thrusters_sorted(resolve_parts(ps, k)),
        k > 0 ==> forall|i: int|
            0 <= i < resolve_parts(ps, k).len() ==> (#[trigger] resolve_parts(ps, k)[i]).id.part <= ps[k - 1].id,
        forall|i: int|
            0 <= i < resolve_parts(ps, k).len() ==> exists|m: int|
                0 <= m < k && (#[trigger] ps[m]).id == (#[trigger] resolve_parts(ps, k)[i]).id.part
                    && resolve_parts(ps, k)[i].id.index < ps[m].engines.0@.len()
                    && mount_valid(ps[m].engines.0@[resolve_parts(ps, k)[i].id.index as int]),
    decreases k,
{
    if k > 0 {
        let prev = resolve_parts(ps, (k - 1) as nat);
        let p = ps[k - 1];
        let tail = resolve_engines(p, p.engines.0@.len());
        lemma_resolve_parts_sorted(ps, (k - 1) as nat);
        lemma_resolve_engines_sorted(p, p.engines.0@.len());
        let all = resolve_parts(ps, k);
        assert(all == prev + tail);
        if k > 1 {
            assert(ps[k - 2].id < ps[k - 1].id);
        }
        assert forall|i: int, j: int| 0 <= i < j < all.len() implies id_less(#[trigger] all[i].id, #[trigger] all[j].id) by {
            if j < prev.len() {
                assert(all[i] == prev[i] && all[j] == prev[j]);
            } else if i >= prev.len() {
                assert(all[i] == tail[i - prev.len()] && all[j] == tail[j - prev.len()]);
            } else {
                assert(all[i] == prev[i] && all[j] == tail[j - prev.len()]);
            }
        }
        assert forall|i: int| 0 <= i < all.len() implies (#[trigger] all[i]).id.part <= ps[k - 1].id by {
            if i < prev.len() {
                assert(all[i] == prev[i]);
            } else {
                assert(all[i] == tail[i - prev.len()]);
            }
        }
        assert forall|i: int| 0 <= i < all.len() implies exists|m: int|
            0 <= m < k && (#[trigger] ps[m]).id == (#[trigger] all[i]).id.part
                && all[i].id.index < ps[m].engines.0@.len()
                && mount_valid(ps[m].engines.0@[all[i].id.index as int]) by {
            if i < prev.len() {
                assert(all[i] == prev[i]);
                let m = choose|m: int|
                    0 <= m < k - 1 && (#[trigger] ps[m]).id == (#[trigger] prev[i]).id.part
                        && prev[i].id.index < ps[m].engines.0@.len()
                        && mount_valid(ps[m].engines.0@[prev[i].id.index as int]);
                assert(0 <= m < k);
            } else {
                assert(all[i] == tail[i - prev.len()]);
                assert(ps[k - 1].id == all[i].id.part);
            }
        }
    }
}

/// The number of mounts that the parts carry.
pub open spec fn mounts_total(ps: Seq<ThrusterPart>) -> int
    decreases ps.len(),
{
    if ps.len() == 0 {
        0
    } else {
        mounts_total(ps.drop_last()) + ps.last().engines.0@.len()
    }
}

proof fn lemma_mounts_total_concat(a: Seq<ThrusterPart>, b: Seq<ThrusterPart>)
    ensures
        mounts_total(a + b) == mounts_total(a) + mounts_total(b),
        mounts_total(a) >= 0,
    decreases a.len() + b.len(),
{
    if b.len() > 0 {
        assert((a + b).drop_last() =~= a + b.drop_last());
        lemma_mounts_total_concat(a, b.drop_last());
    } else {
        assert(a + b =~= a);
        if a.len() > 0 {
            lemma_mounts_total_concat(a.drop_last(), b);
        }
    }
}

proof fn lemma_mounts_total_split(ps: Seq<ThrusterPart>, i: int, p: ThrusterPart)
    requires
        0 <= i < ps.len(),
    ensures
        mounts_total(ps) == mounts_total(ps.take(i)) + ps[i].engines.0@.len() + mounts_total(ps.skip(i + 1)),
        mounts_total(ps.remove(i)) == mounts_total(ps.take(i)) + mounts_total(ps.skip(i + 1)),
        mounts_total(ps.update(i, p)) == mounts_total(ps.take(i)) + p.engines.0@.len() + mounts_total(
            ps.skip(i + 1),
        ),
        mounts_total(ps.take(i)) >= 0,
        mounts_total(ps.skip(i + 1)) >= 0,
{
    let l = ps.take(i);
    let r = ps.skip(i + 1);
    assert(seq![ps[i]].drop_last() =~= Seq::<ThrusterPart>::empty());
    assert(seq![p].drop_last() =~= Seq::<ThrusterPart>::empty());
    assert(ps =~= l + seq![ps[i]] + r);
    assert(ps.remove(i) =~= l + r);
    assert(ps.update(i, p) =~= l + seq![p] + r);
    lemma_mounts_total_concat(l + seq![ps[i]], r);
    lemma_mounts_total_concat(l, seq![ps[i]]);
    lemma_mounts_total_concat(l, r);
    lemma_mounts_total_concat(l + seq![p], r);
    lemma_mounts_total_concat(l, seq![p]);
    lemma_mounts_total_concat(r, Seq::empty());
}

/// The number of the first `k` mounts of `p` whose direction is not zero.
pub open spec fn live_engines(p: ThrusterPart, k: nat) -> nat
    decreases k,
{
    if k == 0 {
        0
    } else {
        live_engines(p, (k - 1) as nat) + (if p.engines.0@[k - 1].thrust_vector != (Vec2i { x: 0, y: 0 }) {
            1nat
        } else {
            0nat
        })
    }
}

/// The number of mounts with a non-zero direction over the first `k` parts.
pub open spec fn live_mounts(ps: Seq<ThrusterPart>, k: nat) -> nat
    decreases k,
{
    if k == 0 {
        0
    } else {
        live_mounts(ps, (k - 1) as nat) + live_engines(ps[k - 1], ps[k - 1].engines.0@.len())
    }
}

/// A valid rotation turns no non-zero vector into the zero vector.
proof fn lemma_rotation_keeps_nonzero(t: PartTransform, v: Vec2i)
    requires
        t.valid(),
        v.x != 0 || v.y != 0,
    ensures
        rotated_x(t, v) != 0 || rotated_y(t, v) != 0,
{
    let c = t.cos as int;
    let s = t.sin as int;
    let x = v.x as int;
    let y = v.y as int;
    assert(c * (c * x - s * y) + s * (s * x + c * y) == (c * c + s * s) * x) by (nonlinear_arith);
    assert(c * (s * x + c * y) - s * (c * x - s * y) == (c * c + s * s) * y) by (nonlinear_arith);
    assert(c * c + s * s > 0) by (nonlinear_arith)
        requires
            c != 0 || s != 0,
    ;
    if rotated_x(t, v) == 0 && rotated_y(t, v) == 0 {
        assert((c * c + s * s) * x == 0) by (nonlinear_arith)
            requires
                c * x - s * y == 0,
                s * x + c * y == 0,
                c * (c * x - s * y) + s * (s * x + c * y) == (c * c + s * s) * x,
        ;
        assert((c * c + s * s) * y == 0) by (nonlinear_arith)
            requires
                c * x - s * y == 0,
                s * x + c * y == 0,
                c * (s * x + c * y) - s * (c * x - s * y) == (c * c + s * s) * y,
        ;
        assert(x == 0) by (nonlinear_arith)
            requires
                (c * c + s * s) * x == 0,
                c * c + s * s > 0,
        ;
        assert(y == 0) by (nonlinear_arith)
            requires
                (c * c + s * s) * y == 0,
                c * c + s * s > 0,
        ;
    }
}

proof fn lemma_resolve_engines_count(p: ThrusterPart, k: nat)
    requires
        k <= p.engines.0@.len(),
        p.transform.valid(),
        engines_in_range(p.engines.0@),
    ensures
        resolve_engines(p, k).len() == live_engines(p, k),
    decreases k,
{
    if k > 0 {
        lemma_resolve_engines_count(p, (k - 1) as nat);
        let e = p.engines.0@[k - 1];
        assert(mount_in_range(e));
        if e.thrust_vector != (Vec2i { x: 0, y: 0 }) {
            lemma_rotation_keeps_nonzero(p.transform, e.thrust_vector);
        }
    }
}

proof fn lemma_resolve_parts_count(ps: Seq<ThrusterPart>, k: nat)
    requires
        k <= ps.len(),
        forall|i: int|
            0 <= i < ps.len() ==> (#[trigger] ps[i]).transform.valid() && engines_in_range(ps[i].engines.0@),
    ensures
        resolve_parts(ps, k).len() == live_mounts(ps, k),
    decreases k,
{
    if k > 0 {
        lemma_resolve_parts_count(ps, (k - 1) as nat);
        assert(ps[k - 1].transform.valid());
        lemma_resolve_engines_count(ps[k - 1], ps[k - 1].engines.0@.len());
    }
}

/// The resolved thrusters of a list of parts.
pub open spec fn resolve_all(ps: Seq<ThrusterPart>) -> Seq<ResolvedThruster> {
    resolve_parts(ps, ps.len())
}

/// The thruster mounts of one controlled body, grouped by the part that
/// carries them. Parts are kept in creation order, which is also the order of
/// their ids; the version changes with every change of the layout.
pub struct ThrusterLayout {
    parts: Vec<ThrusterPart>,
    mount_count: usize,
    next_id: u64,
    version: u64,
}

impl ThrusterLayout {
    pub closed spec fn parts_view(&self) -> Seq<ThrusterPart> {
        self.parts@
    }

    pub closed spec fn version_view(&self) -> u64 {
        self.version
    }

    pub closed spec fn wf(&self) -> bool {
        &&& 1 <= self.parts@.len()
        &&& self.mount_count == mounts_total(self.parts@)
        &&& self.mount_count <= MAX_THRUSTERS
        &&& self.parts@[0].id == 0
        &&& self.parts@[0].transform == PartTransform::identity_spec()
        &&& forall|i: int|
            0 <= i < self.parts@.len() ==> {
                &&& (#[trigger] self.parts@[i]).transform.valid()
                &&& engines_in_range(self.parts@[i].engines.0@)
                &&& self.parts@[i].engines.0@.len() <= MAX_THRUSTERS
                &&& self.parts@[i].id < self.next_id
            }
        &&& forall|i: int, j: int|
            0 <= i < j < self.parts@.len() ==> (#[trigger] self.parts@[i]).id < (#[trigger] self.parts@[j]).id
    }

    /// The layout's thrusters, resolved in part order and then mount order.
    pub open spec fn resolved(&self) -> Seq<ResolvedThruster> {
        resolve_all(self.parts_view())
    }

    /// A layout of the controlled body alone, without mounts.
    pub fn new() -> (r: ThrusterLayout)
        ensures
            r.wf(),
            r.parts_view().len() == 1,
            r.parts_view()[0].id == 0,
            r.parts_view()[0].engines.0@.len() == 0,
            r.parts_view()[0].transform == PartTransform::identity_spec(),
            r.next_id_view() == 1,
    {
        let body = ThrusterPart { id: 0, transform: PartTransform::identity(), engines: EngineSet(Vec::new()) };
        let mut parts = Vec::new();
        parts.push(body);
        assert(parts@.drop_last() =~= Seq::<ThrusterPart>::empty());
        assert(parts@[0].engines.0@.len() == 0);
        assert(mounts_total(Seq::<ThrusterPart>::empty()) == 0);
        assert(mounts_total(parts@) == 0);
        ThrusterLayout { parts, mount_count: 0, next_id: 1, version: 0 }
    }

    pub fn version(&self) -> (r: u64)
        ensures
            r == self.version_view(),
    {
        self.version
    }

    pub fn parts(&self) -> (r: &Vec<ThrusterPart>)
        ensures
            r@ == self.parts_view(),
    {
        &self.parts
    }

    pub closed spec fn next_id_view(&self) -> u64 {
        self.next_id
    }

    fn find(&self, id: u64) -> (r: Option<usize>)
        ensures
            r matches Some(i) ==> i < self.parts@.len() && self.parts@[i as int].id == id,
            r is None ==> forall|k: int| 0 <= k < self.parts@.len() ==> (#[trigger] self.parts@[k]).id != id,
    {
        let mut i: usize = 0;
        while i < self.parts.len()
            invariant
                i <= self.parts@.len(),
                forall|k: int| 0 <= k < i ==> (#[trigger] self.parts@[k]).id != id,
            decreases self.parts@.len() - i,
        {
            if self.parts[i].id == id {
                return Some(i);
            }
            i = i + 1;
        }
        None
    }

    /// Attaches a new part carrying `engines`, and returns its id. Refused when
    /// the transform is not valid, a mount is out of range, the layout would
    /// carry more than `MAX_THRUSTERS` mounts, or its ids are used up.
    pub fn add_part(&mut self, transform: PartTransform, engines: EngineSet) -> (r: Option<u64>)
        requires
            old(self).wf(),
        ensures
            final(self).wf(),
            r is Some <==> {
                &&& transform.valid()
                &&& engines_in_range(engines.0@)
                &&& mounts_total(old(self).parts_view()) + engines.0@.len() <= MAX_THRUSTERS
                &&& old(self).next_id_view() < u64::MAX
            },
            r matches Some(id) ==> {
                &&& final(self).parts_view() == old(self).parts_view().push(
                    ThrusterPart { id, transform, engines },
                )
                &&& final(self).version_view() != old(self).version_view()
            },
            r is None ==> *final(self) == *old(self),
    {
        if !(-MAX_COORD <= transform.translation.x && transform.translation.x <= MAX_COORD
            && -MAX_COORD <= transform.translation.y && transform.translation.y <= MAX_COORD
            && -ROTATION_UNIT <= transform.cos && transform.cos <= ROTATION_UNIT
            && -ROTATION_UNIT <= transform.sin && transform.sin <= ROTATION_UNIT
            && (transform.cos != 0 || transform.sin != 0)) {
            return None;
        }
        if !check_engines(&engines.0) || engines.0.len() > MAX_THRUSTERS - self.mount_count
            || self.next_id == u64::MAX {
            return None;
        }
        let id = self.next_id;
        let ghost before = self.parts@;
        self.mount_count = self.mount_count + engines.0.len();
        self.parts.push(ThrusterPart { id, transform, engines });
        assert(self.parts@.drop_last() =~= before);
        self.next_id = id + 1;
        self.version = self.version.wrapping_add(1);
        Some(id)
    }

    /// Detaches the part with the given id and its mounts. The controlled
    /// body itself (id 0) cannot be removed.
    pub fn remove_part(&mut self, id: u64) -> (r: bool)
        requires
            old(self).wf(),
        ensures
            final(self).wf(),
            r <==> id != 0 && exists|i: int|
                0 <= i < old(self).parts_view().len() && (#[trigger] old(self).parts_view()[i]).id == id,
            r ==> {
                &&& exists|i: int|
                    0 < i < old(self).parts_view().len() && (#[trigger] old(self).parts_view()[i]).id == id
                        && final(self).parts_view() == old(self).parts_view().remove(i)
                &&& final(self).version_view() != old(self).version_view()
            },
            !r ==> *final(self) == *old(self),
    {
        if id == 0 {
            return false;
        }
        match self.find(id) {
            None => false,
            Some(i) => {
                let ghost before = self.parts@;
                proof {
                    lemma_mounts_total_split(before, i as int, before[i as int]);
                }
                self.mount_count = self.mount_count - self.parts[i].engines.0.len();
                self.parts.remove(i);
                assert(self.parts@ == before.remove(i as int));
                assert forall|a: int, b: int| 0 <= a < b < self.parts@.len() implies
                    (#[trigger] self.parts@[a]).id < (#[trigger] self.parts@[b]).id by {
                    let a0 = if a < i { a } else { a + 1 };
                    let b0 = if b < i { b } else { b + 1 };
                    assert(self.parts@[a] == before[a0]);
                    assert(self.parts@[b] == before[b0]);
                }
                assert(self.parts@[0] == before[0]);
                assert(old(self).parts_view()[i as int].id == id);
                assert(i > 0);
                self.version = self.version.wrapping_add(1);
                true
            },
        }
    }

    /// Replaces the mounts carried by the part with the given id. Refused
    /// when no part has that id, a mount is out of range, or the layout would
    /// carry more than `MAX_THRUSTERS` mounts.
    pub fn set_engines(&mut self, id: u64, engines: EngineSet) -> (r: bool)
        requires
            old(self).wf(),
        ensures
            final(self).wf(),
            r <==> engines_in_range(engines.0@) && exists|i: int|
                0 <= i < old(self).parts_view().len() && (#[trigger] old(self).parts_view()[i]).id == id
                    && mounts_total(old(self).parts_view()) - old(self).parts_view()[i].engines.0@.len()
                    + engines.0@.len() <= MAX_THRUSTERS,
            r ==> {
                &&& exists|i: int|
                    0 <= i < old(self).parts_view().len() && (#[trigger] old(self).parts_view()[i]).id == id
                        && final(self).parts_view() == old(self).parts_view().update(
                        i,
                        ThrusterPart { id, transform: old(self).parts_view()[i].transform, engines },
                    )
                &&& final(self).version_view() != old(self).version_view()
            },
            !r ==> *final(self) == *old(self),
    {
        if !check_engines(&engines.0) {
            return false;
        }
        match self.find(id) {
            None => false,
            Some(i) => {
                let ghost before = self.parts@;
                proof {
                    lemma_mounts_total_split(before, i as int, ThrusterPart { id, transform: before[i as int].transform, engines });
                    assert forall|j: int| 0 <= j < before.len() && (#[trigger] before[j]).id == id implies j == i by {
                        if j < i {
                            assert(before[j].id < before[i as int].id);
                        } else if i < j {
                            assert(before[i as int].id < before[j].id);
                        }
                    }
                }
                let rest = self.mount_count - self.parts[i].engines.0.len();
                if engines.0.len() > MAX_THRUSTERS - rest {
                    return false;
                }
                self.mount_count = rest + engines.0.len();
                let transform = self.parts[i].transform;
                self.parts.set(i, ThrusterPart { id, transform, engines });
                assert(old(self).parts_view()[i as int].id == id);
                assert(self.parts@ == old(self).parts_view().update(
                    i as int,
                    ThrusterPart { id, transform: old(self).parts_view()[i as int].transform, engines },
                ));
                self.version = self.version.wrapping_add(1);
                true
            },
        }
    }

    /// Moves the part with the given id to a new placement; its mounts keep
    /// their ids. Refused when the transform is not valid, the id is the
    /// controlled body's own (0), or no part has it.
    pub fn set_transform(&mut self, id: u64, transform: PartTransform) -> (r: bool)
        requires
            old(self).wf(),
        ensures
            final(self).wf(),
            r <==> transform.valid() && id != 0 && exists|i: int|
                0 <= i < old(self).parts_view().len() && (#[trigger] old(self).parts_view()[i]).id == id,
            r ==> {
                &&& exists|i: int|
                    0 <= i < old(self).parts_view().len() && (#[trigger] old(self).parts_view()[i]).id == id
                        && final(self).parts_view() == old(self).parts_view().update(
                        i,
                        ThrusterPart { id, transform, engines: old(self).parts_view()[i].engines },
                    )
                &&& final(self).version_view() != old(self).version_view()
            },
            !r ==> *final(self) == *old(self),
    {
        if !(-MAX_COORD <= transform.translation.x && transform.translation.x <= MAX_COORD
            && -MAX_COORD <= transform.translation.y && transform.translation.y <= MAX_COORD
            && -ROTATION_UNIT <= transform.cos && transform.cos <= ROTATION_UNIT
            && -ROTATION_UNIT <= transform.sin && transform.sin <= ROTATION_UNIT
            && (transform.cos != 0 || transform.sin != 0)) || id == 0 {
            return false;
        }
        match self.find(id) {
            None => false,
            Some(i) => {
                let ghost before = self.parts@;
                let mut part = self.parts.remove(i);
                let ghost moved = ThrusterPart { id, transform, engines: part.engines };
                part.transform = transform;
                self.parts.insert(i, part);
                assert(self.parts@ =~= before.update(i as int, moved));
                proof {
                    lemma_mounts_total_split(before, i as int, moved);
                    assert(i > 0);
                }
                assert(self.parts@[0] == before[0]);
                assert(old(self).parts_view()[i as int].id == id);
                self.version = self.version.wrapping_add(1);
                true
            },
        }
    }

    /// A mount whose direction is the zero vector never becomes a resolved
    /// thruster, so it holds no activation slot.
    pub proof fn lemma_degenerate_mount_dropped(&self, i: int, j: int)
        requires
            self.wf(),
            0 <= i < self.parts_view().len(),
            0 <= j < self.parts_view()[i].engines.0@.len(),
            self.parts_view()[i].engines.0@[j].thrust_vector == (Vec2i { x: 0, y: 0 }),
        ensures
            forall|k: int|
                0 <= k < self.resolved().len() ==> (#[trigger] self.resolved()[k]).id != (ThrusterId {
                    part: self.parts_view()[i].id,
                    index: j as u64,
                }),
    {
        let ps = self.parts@;
        lemma_resolve_parts_sorted(ps, ps.len());
        assert forall|k: int| 0 <= k < self.resolved().len() implies (#[trigger] self.resolved()[k]).id != (
        ThrusterId { part: ps[i].id, index: j as u64 }) by {
            let e = self.resolved()[k];
            if e.id == (ThrusterId { part: ps[i].id, index: j as u64 }) {
                let m = choose|m: int|
                    0 <= m < ps.len() && (#[trigger] ps[m]).id == (#[trigger] resolve_parts(ps, ps.len())[k]).id.part
                        && resolve_parts(ps, ps.len())[k].id.index < ps[m].engines.0@.len()
                        && mount_valid(ps[m].engines.0@[resolve_parts(ps, ps.len())[k].id.index as int]);
                if m < i {
                    assert(ps[m].id < ps[i].id);
                } else if i < m {
                    assert(ps[i].id < ps[m].id);
                }
                assert(m == i);
                assert(e.id.index as int == j);
            }
        }
    }

    /// Every mount with a non-zero direction holds one activation slot, and
    /// no other does: the layout resolves to as many thrusters as it carries
    /// such mounts.
    pub proof fn lemma_resolved_count(&self)
        requires
            self.wf(),
        ensures
            self.resolved().len() == live_mounts(self.parts_view(), self.parts_view().len()),
    {
        lemma_resolve_parts_count(self.parts@, self.parts@.len());
    }

    /// Resolves every mount into the body's frame; mounts whose direction is
    /// the zero vector, or turns to it, are left out. (The layout refuses
    /// mounts out of range, so none is dropped for that.)
    pub fn resolve(&self) -> (r: Vec<ResolvedThruster>)
        requires
            self.wf(),
        ensures
            r@ == self.resolved(),
            r@.len() <= MAX_THRUSTERS,
            forall|k: int| 0 <= k < r@.len() ==> thruster_in_range(#[trigger] r@[k]),
            thrusters_sorted(r@),
    {
        proof {
            lemma_resolve_parts_sorted(self.parts@, self.parts@.len());
        }
        let mut out: Vec<ResolvedThruster> = Vec::new();
        let mut i: usize = 0;
        while i < self.parts.len()
            invariant
                self.wf(),
                i <= self.parts@.len(),
                out@ == resolve_parts(self.parts@, i as nat),
                out@.len() <= mounts_total(self.parts@.take(i as int)),
                forall|k: int| 0 <= k < out@.len() ==> thruster_in_range(#[trigger] out@[k]),
            decreases self.parts@.len() - i,
        {
            let part = &self.parts[i];
            assert(part.transform.valid());
            let ghost before = out@;
            let mut j: usize = 0;
            while j < part.engines.0.len()
                invariant
                    self.wf(),
                    i < self.parts@.len(),
                    *part == self.parts@[i as int],
                    part.transform.valid(),
                    j <= part.engines.0@.len(),
                    before == resolve_parts(self.parts@, i as nat),
                    before.len() <= mounts_total(self.parts@.take(i as int)),
                    out@ == before + resolve_engines(*part, j as nat),
                    out@.len() <= before.len() + j,
                    forall|k: int| 0 <= k < out@.len() ==> thruster_in_range(#[trigger] out@[k]),
                decreases part.engines.0@.len() - j,
            {
                let id = ThrusterId { part: part.id, index: j as u64 };
                let r = resolve_mount(&part.transform, &part.engines.0[j], id);
                match r {
                    Some(t) => {
                        out.push(t);
                    },
                    None => {},
                }
                j = j + 1;
                assert(out@ =~= before + resolve_engines(*part, j as nat));
            }
            i = i + 1;
            assert(out@ =~= resolve_parts(self.parts@, i as nat));
            assert(self.parts@.take(i as int).drop_last() =~= self.parts@.take(i - 1));
        }
        assert(self.parts@.take(i as int) =~= self.parts@);
        out
    }
}

} // verus!
