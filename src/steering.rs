use std::collections::HashMap;
use vstd::prelude::*;

use crate::geometry::{
    id_less, in_coord_range, thruster_in_range, thrusters_sorted, ResolvedThruster, ThrusterId,
    ThrusterLayout, Vec2i, MAX_THRUSTERS,
};
use crate::optimizer::{
    acceleration_of, activations_from_solution, calculate_firing, clamp_activation,
    estimate_acceleration, is_allocation_program, AccelerationEstimate, DesiredForce, LpProblem,
    FULL_ACTIVATION, MAX_INVERSE_INERTIA_SQRT,
};

verus! {

broadcast use vstd::std_specs::hash::group_hash_axioms;

/// The cache bucket of a request: each component divided by its coarseness
/// and truncated toward zero.
#[derive(Clone, Copy, Debug, PartialEq, Eq, Hash, Structural)]
pub struct QuantKey {
    pub force_x: i32,
    pub force_y: i32,
    pub torque: i32,
}

/// Tuning of one controlled body's allocation cache.
#[derive(Clone, Copy, Debug, PartialEq, Eq, Structural)]
pub struct SteeringConfig {
    /// Bucket width of the requested force, in thousandths of total thrust.
    pub force_coarseness: u32,
    /// Bucket width of the requested torque, in thousandths.
    pub torque_coarseness: u32,
    /// The cache is dropped when the center of mass has moved by more than
    /// this squared distance since it was last seen.
    pub com_drift_threshold: u64,
}

impl SteeringConfig {
    pub open spec fn valid(self) -> bool {
        self.force_coarseness >= 1 && self.torque_coarseness >= 1
    }
}

impl Default for SteeringConfig {
    fn default() -> (r: SteeringConfig)
        ensures
            r == (SteeringConfig { force_coarseness: 3, torque_coarseness: 3, com_drift_threshold: 0 }),
    {
        SteeringConfig { force_coarseness: 3, torque_coarseness: 3, com_drift_threshold: 0 }
    }
}

/// `v / c`, truncated toward zero.
pub open spec fn bucket(v: int, c: int) -> int {
    if v >= 0 {
        v / c
    } else {
        -((-v) / c)
    }
}

/// The cache key of a request under `config`.
pub open spec fn quant_key(config: SteeringConfig, force: DesiredForce, torque: i32) -> QuantKey {
    QuantKey {
        force_x: bucket(force.x as int, config.force_coarseness as int) as i32,
        force_y: bucket(force.y as int, config.force_coarseness as int) as i32,
        torque: bucket(torque as int, config.torque_coarseness as int) as i32,
    }
}

fn bucket_of(v: i32, c: u32) -> (r: i32)
    requires
        c >= 1,
    ensures
        r == bucket(v as int, c as int),
{
    let m: u64 = if v >= 0 { v as u64 } else { (-(v as i64)) as u64 };
    let q: u64 = m / (c as u64);
    assert(q <= m) by (nonlinear_arith)
        requires
            q == m / (c as u64),
            c >= 1,
    ;
    if v >= 0 {
        q as i32
    } else {
        (-(q as i64)) as i32
    }
}

/// Computes the cache key of a request.
pub fn quantize(config: &SteeringConfig, force: DesiredForce, torque: i32) -> (r: QuantKey)
    requires
        config.valid(),
    ensures
        r == quant_key(*config, force, torque),
{
    QuantKey {
        force_x: bucket_of(force.x, config.force_coarseness),
        force_y: bucket_of(force.y, config.force_coarseness),
        torque: bucket_of(torque, config.torque_coarseness),
    }
}

/// The squared distance between two points.
pub open spec fn distance_squared(a: Vec2i, b: Vec2i) -> int {
    (a.x - b.x) * (a.x - b.x) + (a.y - b.y) * (a.y - b.y)
}

/// The center of mass moved from `last` to `now` by more than `threshold`.
pub open spec fn drifted(last: Vec2i, now: Vec2i, threshold: u64) -> bool {
    distance_squared(last, now) > threshold
}

fn has_drifted(last: Vec2i, now: Vec2i, threshold: u64) -> (r: bool)
    requires
        in_coord_range(last),
        in_coord_range(now),
    ensures
        r == drifted(last, now, threshold),
{
    let dx: i64 = last.x - now.x;
    let dy: i64 = last.y - now.y;
    assert(0 <= dx * dx <= 0x4_0000_0000) by (nonlinear_arith)
        requires
            -0x2_0000 <= dx <= 0x2_0000,
    ;
    assert(0 <= dy * dy <= 0x4_0000_0000) by (nonlinear_arith)
        requires
            -0x2_0000 <= dy <= 0x2_0000,
    ;
    let d: u64 = (dx * dx + dy * dy) as u64;
    d > threshold
}

/// The key packed into one integer: its three components' bits side by side.
pub open spec fn pack_key(k: QuantKey) -> u128 {
    ((k.force_x as u32) as u128) << 64u128 | ((k.force_y as u32) as u128) << 32u128 | ((k.torque as u32) as u128)
}

fn pack(k: QuantKey) -> (r: u128)
    ensures
        r == pack_key(k),
{
    ((k.force_x as u32) as u128) << 64u128 | ((k.force_y as u32) as u128) << 32u128 | ((k.torque as u32) as u128)
}

/// Different keys pack into different integers.
pub proof fn lemma_pack_injective(a: QuantKey, b: QuantKey)
    requires
        pack_key(a) == pack_key(b),
    ensures
        a == b,
{
    let (a1, a2, a3) = (a.force_x as u32, a.force_y as u32, a.torque as u32);
    let (b1, b2, b3) = (b.force_x as u32, b.force_y as u32, b.torque as u32);
    assert(a1 == b1 && a2 == b2 && a3 == b3) by (bit_vector)
        requires
            (a1 as u128) << 64u128 | (a2 as u128) << 32u128 | (a3 as u128) == (b1 as u128) << 64u128 | (
            b2 as u128) << 32u128 | (b3 as u128),
    ;
    let (x1, x2, x3, y1, y2, y3) = (a.force_x, a.force_y, a.torque, b.force_x, b.force_y, b.torque);
    assert(x1 == y1) by (bit_vector)
        requires
            x1 as u32 == y1 as u32,
    ;
    assert(x2 == y2) by (bit_vector)
        requires
            x2 as u32 == y2 as u32,
    ;
    assert(x3 == y3) by (bit_vector)
        requires
            x3 as u32 == y3 as u32,
    ;
}

/// Strictly increasing ids.
pub open spec fn ids_sorted(s: Seq<ThrusterId>) -> bool {
    forall|i: int, j: int| 0 <= i < j < s.len() ==> id_less(#[trigger] s[i], #[trigger] s[j])
}

/// What a tick asks for once its request is known.
pub enum Allocation {
    /// Nothing is requested: no thruster fires.
    Idle,
    /// The activations, in hundredths, one per resolved thruster.
    Ready(Vec<u8>),
    /// No allocation is cached for this key: the program is to be solved and
    /// its solution handed to `Steering::record_solution`.
    Solve(QuantKey, LpProblem),
}

/// A change of a thruster's firing state between two ticks.
#[derive(Clone, Copy, Debug, PartialEq, Eq, Structural)]
pub enum EngineEvent {
    /// The thruster fires this tick and did not fire the tick before; the
    /// activation is in hundredths.
    StartedFiring(ThrusterId, u8),
    /// The thruster fired the tick before and does not fire this tick.
    StoppedFiring(ThrusterId),
}

impl EngineEvent {
    pub open spec fn engine_spec(self) -> ThrusterId {
        match self {
            EngineEvent::StartedFiring(id, _) => id,
            EngineEvent::StoppedFiring(id) => id,
        }
    }

    /// The thruster that the event is about.
    pub fn engine(&self) -> (r: ThrusterId)
        ensures
            r == self.engine_spec(),
    {
        match self {
            EngineEvent::StartedFiring(id, _) => *id,
            EngineEvent::StoppedFiring(id) => *id,
        }
    }
}

/// Global multiplier of applied thrust, in thousandths.
#[derive(Clone, Copy, Debug, PartialEq, Eq, Structural)]
pub struct ThrustScale(pub u16);

impl Default for ThrustScale {
    fn default() -> (r: ThrustScale)
        ensures
            r == ThrustScale(1000),
    {
        ThrustScale(1000)
    }
}

/// The control state of one body: the requested force and torque, the
/// resolved thrusters, and the cache of allocations per request bucket. It
/// follows one layout, whose version tells it when to resolve again.
pub struct Steering {
    desired_force: DesiredForce,
    desired_torque: i32,
    config: SteeringConfig,
    last_seen_center_of_mass: Vec2i,
    firings_cache: HashMap<u128, Vec<u8>>,
    engines: Option<Vec<ResolvedThruster>>,
    layout_version: u64,
    currently_firing: Vec<ThrusterId>,
}

impl Default for Steering {
    fn default() -> (r: Steering)
        ensures
            r.wf(),
            r.force_view() == (DesiredForce { x: 0, y: 0 }),
            r.torque_view() == 0,
            r.config_view() == (SteeringConfig { force_coarseness: 3, torque_coarseness: 3, com_drift_threshold: 0 }),
            r.engines_view() is None,
            r.cache_empty(),
            r.firing_view().len() == 0,
    {
        Steering::new(SteeringConfig::default())
    }
}

/// Nothing is requested: the request falls in the bucket of the zero request,
/// and requests of one bucket are treated alike.
pub open spec fn no_request(config: SteeringConfig, force: DesiredForce, torque: i32) -> bool {
    quant_key(config, force, torque) == (QuantKey { force_x: 0, force_y: 0, torque: 0 })
}

/// The layout has changed since the thrusters were resolved, or they never were.
pub open spec fn layout_changed(s: Steering, layout: ThrusterLayout) -> bool {
    s.engines_view() is None || s.layout_version_view() != layout.version_view()
}

/// The resolved thrusters that a tick with `layout` works with.
pub open spec fn engines_after(s: Steering, layout: ThrusterLayout) -> Seq<ResolvedThruster> {
    if layout_changed(s, layout) {
        layout.resolved()
    } else {
        s.engines_view()->Some_0
    }
}

/// A tick with `layout` and center of mass `com` drops every cached allocation.
pub open spec fn cache_dropped(s: Steering, layout: ThrusterLayout, com: Vec2i) -> bool {
    layout_changed(s, layout) || drifted(s.last_com_view(), com, s.config_view().com_drift_threshold)
}

/// The activations that a tick gives for a non-zero request without solving,
/// or `None` where it has to solve.
pub open spec fn planned(
    s: Steering,
    layout: ThrusterLayout,
    com: Vec2i,
    force: DesiredForce,
    torque: i32,
) -> Option<Seq<u8>> {
    if engines_after(s, layout).len() == 0 {
        Some(Seq::empty())
    } else if cache_dropped(s, layout, com) {
        None
    } else {
        s.cached(quant_key(s.config_view(), force, torque))
    }
}

/// The firing thrusters among the first `k`, with their activations.
pub open spec fn active_prefix(ts: Seq<ResolvedThruster>, f: Seq<u8>, k: nat) -> Seq<(ThrusterId, u8)>
    decreases k,
{
    if k == 0 {
        Seq::empty()
    } else {
        let prev = active_prefix(ts, f, (k - 1) as nat);
        if f[k - 1] > 0 {
            prev.push((ts[k - 1].id, f[k - 1]))
        } else {
            prev
        }
    }
}

/// The thrusters whose activation is above zero, with their activations, in
/// thruster order. Activations past the last thruster are ignored, and
/// thrusters past the last activation do not fire.
pub open spec fn firing_pairs(ts: Seq<ResolvedThruster>, f: Seq<u8>) -> Seq<(ThrusterId, u8)> {
    active_prefix(ts, f, if ts.len() <= f.len() { ts.len() } else { f.len() })
}

pub open spec fn pair_ids(a: Seq<(ThrusterId, u8)>) -> Seq<ThrusterId> {
    a.map_values(|p: (ThrusterId, u8)| p.0)
}

/// A `StartedFiring` event for each firing thruster that did not fire before.
pub open spec fn started_events(a: Seq<(ThrusterId, u8)>, before: Seq<ThrusterId>) -> Seq<EngineEvent>
    decreases a.len(),
{
    if a.len() == 0 {
        Seq::empty()
    } else {
        let prev = started_events(a.drop_last(), before);
        if before.contains(a.last().0) {
            prev
        } else {
            prev.push(EngineEvent::StartedFiring(a.last().0, a.last().1))
        }
    }
}

/// A `StoppedFiring` event for each thruster that fired before and does not now.
pub open spec fn stopped_events(before: Seq<ThrusterId>, now: Seq<ThrusterId>) -> Seq<EngineEvent>
    decreases before.len(),
{
    if before.len() == 0 {
        Seq::empty()
    } else {
        let prev = stopped_events(before.drop_last(), now);
        if now.contains(before.last()) {
            prev
        } else {
            prev.push(EngineEvent::StoppedFiring(before.last()))
        }
    }
}

/// The events of a tick on which `a` fire, after a tick on which `before` fired.
pub open spec fn tick_events(a: Seq<(ThrusterId, u8)>, before: Seq<ThrusterId>) -> Seq<EngineEvent> {
    started_events(a, before) + stopped_events(before, pair_ids(a))
}

/// A force for the host to apply: at `position` along `direction` (body
/// frame, as resolved) with `magnitude` in units of `1e-5` of a force unit.
#[derive(Clone, Copy, Debug, PartialEq, Eq, Structural)]
pub struct ThrustCommand {
    pub id: ThrusterId,
    pub position: Vec2i,
    pub direction: Vec2i,
    pub magnitude: u64,
}

/// The commands for the firing thrusters among the first `k`.
pub open spec fn commands_prefix(ts: Seq<ResolvedThruster>, f: Seq<u8>, scale: u16, k: nat) -> Seq<ThrustCommand>
    decreases k,
{
    if k == 0 {
        Seq::empty()
    } else {
        let prev = commands_prefix(ts, f, scale, (k - 1) as nat);
        if f[k - 1] > 0 {
            prev.push(
                ThrustCommand {
                    id: ts[k - 1].id,
                    position: ts[k - 1].position,
                    direction: ts[k - 1].direction,
                    magnitude: (ts[k - 1].max_thrust * f[k - 1] * scale) as u64,
                },
            )
        } else {
            prev
        }
    }
}

/// What an acceleration query gives.
pub enum Estimate {
    /// The thrusters are not resolved.
    Unresolved,
    /// The predicted accelerations.
    Ready(AccelerationEstimate),
    /// No allocation is cached for this key: the program is to be solved and
    /// its solution handed to `Steering::record_solution`.
    Solve(QuantKey, LpProblem),
}

/// Mass properties of a body, as the estimator takes them.
#[derive(Clone, Copy, Debug, PartialEq, Eq, Structural)]
pub struct BodyMass {
    /// Center of mass in the body's frame.
    pub center_of_mass: Vec2i,
    /// Inverse mass, in millionths.
    pub inverse_mass: u32,
    /// Inverse square root of the moment of inertia, in millionths.
    pub inverse_inertia_sqrt: u32,
}

/// The resolved thrusters, or none where they are not resolved.
pub open spec fn engines_or_none(s: Steering) -> Seq<ResolvedThruster> {
    match s.engines_view() {
        Some(v) => v,
        None => Seq::empty(),
    }
}

/// Two requests in one bucket get one allocation: where the cache holds `a`
/// for the bucket of the first and is kept, the second gets `a` as well.
pub proof fn lemma_same_bucket_same_allocation(
    s: Steering,
    layout: ThrusterLayout,
    com: Vec2i,
    force1: DesiredForce,
    torque1: i32,
    force2: DesiredForce,
    torque2: i32,
)
    requires
        quant_key(s.config_view(), force1, torque1) == quant_key(s.config_view(), force2, torque2),
    ensures
        no_request(s.config_view(), force1, torque1) == no_request(s.config_view(), force2, torque2),
        planned(s, layout, com, force1, torque1) == planned(s, layout, com, force2, torque2),
        !cache_dropped(s, layout, com) && engines_after(s, layout).len() > 0 ==> planned(
            s,
            layout,
            com,
            force2,
            torque2,
        ) == s.cached(quant_key(s.config_view(), force1, torque1)),
{
}

/// After the layout changed, no cached allocation is used: the thrusters are
/// resolved again and the request is solved for them (or, without thrusters,
/// gets the empty allocation).
pub proof fn lemma_layout_change_recomputes(
    s: Steering,
    layout: ThrusterLayout,
    com: Vec2i,
    force: DesiredForce,
    torque: i32,
)
    requires
        layout_changed(s, layout),
    ensures
        engines_after(s, layout) == layout.resolved(),
        planned(s, layout, com, force, torque) == (if layout.resolved().len() == 0 {
            Some(Seq::<u8>::empty())
        } else {
            None
        }),
{
}

/// After the center of mass moved beyond the threshold, no cached allocation
/// is used: the request is solved about the new center of mass.
pub proof fn lemma_drift_recomputes(
    s: Steering,
    layout: ThrusterLayout,
    com: Vec2i,
    force: DesiredForce,
    torque: i32,
)
    requires
        drifted(s.last_com_view(), com, s.config_view().com_drift_threshold),
    ensures
        planned(s, layout, com, force, torque) == (if engines_after(s, layout).len() == 0 {
            Some(Seq::<u8>::empty())
        } else {
            None
        }),
{
}

/// The number of `StartedFiring` events about `id`.
pub open spec fn count_started(evs: Seq<EngineEvent>, id: ThrusterId) -> nat
    decreases evs.len(),
{
    if evs.len() == 0 {
        0
    } else {
        count_started(evs.drop_last(), id) + (if evs.last() matches EngineEvent::StartedFiring(i, _) && i == id {
            1nat
        } else {
            0nat
        })
    }
}

/// The number of `StoppedFiring` events about `id`.
pub open spec fn count_stopped(evs: Seq<EngineEvent>, id: ThrusterId) -> nat
    decreases evs.len(),
{
    if evs.len() == 0 {
        0
    } else {
        count_stopped(evs.drop_last(), id) + (if evs.last() == EngineEvent::StoppedFiring(id) {
            1nat
        } else {
            0nat
        })
    }
}

proof fn lemma_counts_concat(a: Seq<EngineEvent>, b: Seq<EngineEvent>, id: ThrusterId)
    ensures
        count_started(a + b, id) == count_started(a, id) + count_started(b, id),
        count_stopped(a + b, id) == count_stopped(a, id) + count_stopped(b, id),
    decreases b.len(),
{
    if b.len() > 0 {
        assert((a + b).drop_last() =~= a + b.drop_last());
        lemma_counts_concat(a, b.drop_last(), id);
    } else {
        assert(a + b =~= a);
    }
}

proof fn lemma_sorted_drop_last(s: Seq<ThrusterId>)
    requires
        ids_sorted(s),
        s.len() > 0,
    ensures
        ids_sorted(s.drop_last()),
        !s.drop_last().contains(s.last()),
{
    assert forall|k: int| 0 <= k < s.drop_last().len() implies s.drop_last()[k] != s.last() by {
        assert(id_less(s[k], s[s.len() - 1]));
    }
}

proof fn lemma_started_count(a: Seq<(ThrusterId, u8)>, before: Seq<ThrusterId>, id: ThrusterId)
    requires
        ids_sorted(pair_ids(a)),
    ensures
        count_started(started_events(a, before), id) == (if pair_ids(a).contains(id) && !before.contains(id) {
            1nat
        } else {
            0nat
        }),
        count_stopped(started_events(a, before), id) == 0,
    decreases a.len(),
{
    if a.len() > 0 {
        let ids = pair_ids(a);
        assert(pair_ids(a.drop_last()) =~= ids.drop_last());
        lemma_sorted_drop_last(ids);
        lemma_started_count(a.drop_last(), before, id);
        let prev = started_events(a.drop_last(), before);
        let e = EngineEvent::StartedFiring(a.last().0, a.last().1);
        assert(prev.push(e).drop_last() =~= prev);
        assert(ids.last() == a.last().0);
        if ids.contains(id) && id != a.last().0 {
            let k = choose|k: int| 0 <= k < ids.len() && ids[k] == id;
            assert(ids.drop_last()[k] == id);
        }
        if ids.drop_last().contains(id) {
            let k = choose|k: int| 0 <= k < ids.drop_last().len() && ids.drop_last()[k] == id;
            assert(ids[k] == id);
        }
        if id == a.last().0 {
            assert(ids[ids.len() - 1] == id);
        }
    }
}

proof fn lemma_stopped_count(before: Seq<ThrusterId>, now: Seq<ThrusterId>, id: ThrusterId)
    requires
        ids_sorted(before),
    ensures
        count_stopped(stopped_events(before, now), id) == (if before.contains(id) && !now.contains(id) {
            1nat
        } else {
            0nat
        }),
        count_started(stopped_events(before, now), id) == 0,
    decreases before.len(),
{
    if before.len() > 0 {
        lemma_sorted_drop_last(before);
        lemma_stopped_count(before.drop_last(), now, id);
        let prev = stopped_events(before.drop_last(), now);
        assert(prev.push(EngineEvent::StoppedFiring(before.last())).drop_last() =~= prev);
        if before.contains(id) && id != before.last() {
            let k = choose|k: int| 0 <= k < before.len() && before[k] == id;
            assert(before.drop_last()[k] == id);
        }
        if before.drop_last().contains(id) {
            let k = choose|k: int| 0 <= k < before.drop_last().len() && before.drop_last()[k] == id;
            assert(before[k] == id);
        }
        if id == before.last() {
            assert(before[before.len() - 1] == id);
        }
    }
}

/// Firing changes are reported on their edges only: in one tick a thruster
/// gets one `StartedFiring` if it fires now and did not before, one
/// `StoppedFiring` if it fired before and does not now, and no event
/// otherwise. A thruster that fires for several ticks in a row is reported
/// once, on the first.
pub proof fn lemma_edge_triggered(a: Seq<(ThrusterId, u8)>, before: Seq<ThrusterId>, id: ThrusterId)
    requires
        ids_sorted(pair_ids(a)),
        ids_sorted(before),
    ensures
        count_started(tick_events(a, before), id) == (if pair_ids(a).contains(id) && !before.contains(id) {
            1nat
        } else {
            0nat
        }),
        count_stopped(tick_events(a, before), id) == (if before.contains(id) && !pair_ids(a).contains(id) {
            1nat
        } else {
            0nat
        }),
{
    lemma_started_count(a, before, id);
    lemma_stopped_count(before, pair_ids(a), id);
    lemma_counts_concat(started_events(a, before), stopped_events(before, pair_ids(a)), id);
}

/// A thruster that fires on three ticks in a row and then stops is reported
/// started once, on the first of them, and stopped once, on the tick it stops.
pub proof fn lemma_three_ticks_then_stop(
    before: Seq<ThrusterId>,
    a1: Seq<(ThrusterId, u8)>,
    a2: Seq<(ThrusterId, u8)>,
    a3: Seq<(ThrusterId, u8)>,
    a4: Seq<(ThrusterId, u8)>,
    id: ThrusterId,
)
    requires
        ids_sorted(before),
        ids_sorted(pair_ids(a1)),
        ids_sorted(pair_ids(a2)),
        ids_sorted(pair_ids(a3)),
        ids_sorted(pair_ids(a4)),
        !before.contains(id),
        pair_ids(a1).contains(id),
        pair_ids(a2).contains(id),
        pair_ids(a3).contains(id),
        !pair_ids(a4).contains(id),
    ensures
        count_started(tick_events(a1, before), id) == 1,
        count_stopped(tick_events(a1, before), id) == 0,
        count_started(tick_events(a2, pair_ids(a1)), id) == 0,
        count_stopped(tick_events(a2, pair_ids(a1)), id) == 0,
        count_started(tick_events(a3, pair_ids(a2)), id) == 0,
        count_stopped(tick_events(a3, pair_ids(a2)), id) == 0,
        count_started(tick_events(a4, pair_ids(a3)), id) == 0,
        count_stopped(tick_events(a4, pair_ids(a3)), id) == 1,
{
    lemma_edge_triggered(a1, before, id);
    lemma_edge_triggered(a2, pair_ids(a1), id);
    lemma_edge_triggered(a3, pair_ids(a2), id);
    lemma_edge_triggered(a4, pair_ids(a3), id);
}

/// The firing thrusters of a prefix come in increasing id order, each below
/// the ids of the thrusters after the prefix.
pub proof fn lemma_active_sorted(ts: Seq<ResolvedThruster>, f: Seq<u8>, k: nat)
    requires
        thrusters_sorted(ts),
        k <= ts.len(),
        k <= f.len(),
    ensures
        ids_sorted(pair_ids(active_prefix(ts, f, k))),
        forall|j: int, m: int|
            0 <= j < active_prefix(ts, f, k).len() && k <= m < ts.len() ==> id_less(
                #[trigger] active_prefix(ts, f, k)[j].0,
                #[trigger] ts[m].id,
            ),
    decreases k,
{
    if k > 0 {
        lemma_active_sorted(ts, f, (k - 1) as nat);
        let prev = active_prefix(ts, f, (k - 1) as nat);
        let cur = active_prefix(ts, f, k);
        if f[k - 1] > 0 {
            assert(cur == prev.push((ts[k - 1].id, f[k - 1])));
            assert forall|j: int, m: int| 0 <= j < cur.len() && k <= m < ts.len() implies id_less(
                #[trigger] cur[j].0,
                #[trigger] ts[m].id,
            ) by {
                assert(id_less(ts[k - 1].id, ts[m].id));
                if j < prev.len() {
                    assert(cur[j] == prev[j]);
                    assert(id_less(prev[j].0, ts[m].id));
                }
            }
            let ids = pair_ids(cur);
            assert forall|a: int, b: int| 0 <= a < b < ids.len() implies id_less(#[trigger] ids[a], #[trigger] ids[b]) by {
                assert(ids[a] == cur[a].0 && ids[b] == cur[b].0);
                assert(cur[a] == prev[a]);
                if b < prev.len() {
                    assert(cur[b] == prev[b]);
                    assert(pair_ids(prev)[a] == prev[a].0 && pair_ids(prev)[b] == prev[b].0);
                } else {
                    assert(id_less(prev[a].0, ts[k - 1].id));
                }
            }
        }
    }
}

/// A tick on which nothing fires, as after a zero request, reports every
/// thruster that fired before as stopped, once, and starts none.
pub proof fn lemma_idle_tick_stops_all(before: Seq<ThrusterId>, id: ThrusterId)
    requires
        ids_sorted(before),
    ensures
        count_started(tick_events(Seq::empty(), before), id) == 0,
        count_stopped(tick_events(Seq::empty(), before), id) == (if before.contains(id) {
            1nat
        } else {
            0nat
        }),
{
    let a = Seq::<(ThrusterId, u8)>::empty();
    assert(pair_ids(a) =~= Seq::<ThrusterId>::empty());
    assert(!pair_ids(a).contains(id));
    lemma_edge_triggered(a, before, id);
}

fn contains_id(v: &Vec<ThrusterId>, id: ThrusterId) -> (r: bool)
    ensures
        r == v@.contains(id),
{
    let mut i: usize = 0;
    while i < v.len()
        invariant
            i <= v@.len(),
            forall|k: int| 0 <= k < i ==> v@[k] != id,
        decreases v@.len() - i,
    {
        if v[i] == id {
            assert(v@[i as int] == id);
            return true;
        }
        i = i + 1;
    }
    false
}

impl Steering {
    /// Requested force, in thousandths of the total thrust per axis.
    pub closed spec fn force_view(&self) -> DesiredForce {
        self.desired_force
    }

    /// Requested torque, in thousandths of the torque available in its sense.
    pub closed spec fn torque_view(&self) -> i32 {
        self.desired_torque
    }

    pub closed spec fn config_view(&self) -> SteeringConfig {
        self.config
    }

    pub closed spec fn last_com_view(&self) -> Vec2i {
        self.last_seen_center_of_mass
    }

    /// The resolved thrusters, or `None` before they are resolved.
    pub closed spec fn engines_view(&self) -> Option<Seq<ResolvedThruster>> {
        match self.engines {
            Some(v) => Some(v@),
            None => None,
        }
    }

    /// The layout version that the resolved thrusters were taken from.
    pub closed spec fn layout_version_view(&self) -> u64 {
        self.layout_version
    }

    /// The activations cached for a key.
    pub closed spec fn cached(&self, key: QuantKey) -> Option<Seq<u8>> {
        if self.firings_cache@.contains_key(pack_key(key)) {
            Some(self.firings_cache@[pack_key(key)]@)
        } else {
            None
        }
    }

    /// The cache holds nothing.
    pub closed spec fn cache_empty(&self) -> bool {
        self.firings_cache@ == Map::<u128, Vec<u8>>::empty()
    }

    /// The thrusters that fired on the last tick, in resolution order.
    pub closed spec fn firing_view(&self) -> Seq<ThrusterId> {
        self.currently_firing@
    }

    pub closed spec fn wf(&self) -> bool {
        &&& self.config.valid()
        &&& in_coord_range(self.last_seen_center_of_mass)
        &&& ids_sorted(self.currently_firing@)
        &&& match self.engines {
            None => self.firings_cache@ == Map::<u128, Vec<u8>>::empty(),
            Some(v) => {
                &&& v@.len() <= MAX_THRUSTERS
                &&& forall|k: int| 0 <= k < v@.len() ==> thruster_in_range(#[trigger] v@[k])
                &&& thrusters_sorted(v@)
                &&& forall|k: u128|
                    #[trigger] self.firings_cache@.contains_key(k) ==> {
                        &&& self.firings_cache@[k]@.len() == v@.len()
                        &&& forall|j: int|
                            0 <= j < v@.len() ==> #[trigger] self.firings_cache@[k]@[j] <= FULL_ACTIVATION
                    }
            },
        }
    }

    /// The thrusters that fired on the last tick, and those that fire on any
    /// activations, come without repeats, in increasing id order: the
    /// edge-triggering laws apply to every tick.
    pub proof fn lemma_firing_sets_sorted(&self, f: Seq<u8>)
        requires
            self.wf(),
        ensures
            ids_sorted(self.firing_view()),
            ids_sorted(pair_ids(firing_pairs(engines_or_none(*self), f))),
    {
        let ts = engines_or_none(*self);
        assert(thrusters_sorted(ts));
        lemma_active_sorted(ts, f, if ts.len() <= f.len() { ts.len() } else { f.len() });
    }

    /// A control state with no request, no resolved thrusters and no cache.
    pub fn new(config: SteeringConfig) -> (r: Steering)
        requires
            config.valid(),
        ensures
            r.wf(),
            r.force_view() == (DesiredForce { x: 0, y: 0 }),
            r.torque_view() == 0,
            r.config_view() == config,
            r.last_com_view() == (Vec2i { x: 0, y: 0 }),
            r.engines_view() is None,
            r.cache_empty(),
            r.firing_view().len() == 0,
    {
        Steering {
            desired_force: DesiredForce { x: 0, y: 0 },
            desired_torque: 0,
            config,
            last_seen_center_of_mass: Vec2i { x: 0, y: 0 },
            firings_cache: HashMap::new(),
            engines: None,
            layout_version: 0,
            currently_firing: Vec::new(),
        }
    }

    /// Sets the requested force and torque.
    pub fn set_desire(&mut self, force: DesiredForce, torque: i32)
        ensures
            final(self).force_view() == force,
            final(self).torque_view() == torque,
            final(self).config_view() == old(self).config_view(),
            final(self).last_com_view() == old(self).last_com_view(),
            final(self).engines_view() == old(self).engines_view(),
            final(self).layout_version_view() == old(self).layout_version_view(),
            forall|k: QuantKey| #[trigger] final(self).cached(k) == old(self).cached(k),
            final(self).cache_empty() == old(self).cache_empty(),
            final(self).firing_view() == old(self).firing_view(),
            old(self).wf() ==> final(self).wf(),
    {
        self.desired_force = force;
        self.desired_torque = torque;
    }

    pub fn desired_force(&self) -> (r: DesiredForce)
        ensures
            r == self.force_view(),
    {
        self.desired_force
    }

    pub fn desired_torque(&self) -> (r: i32)
        ensures
            r == self.torque_view(),
    {
        self.desired_torque
    }

    /// The resolved thrusters, where they are resolved.
    pub fn resolved(&self) -> (r: Option<&Vec<ResolvedThruster>>)
        ensures
            match r {
                Some(v) => self.engines_view() == Some(v@),
                None => self.engines_view() is None,
            },
    {
        match &self.engines {
            Some(v) => Some(v),
            None => None,
        }
    }

    /// Drops the request.
    pub fn clear_desire(&mut self)
        ensures
            final(self).force_view() == (DesiredForce { x: 0, y: 0 }),
            final(self).torque_view() == 0,
            final(self).config_view() == old(self).config_view(),
            final(self).last_com_view() == old(self).last_com_view(),
            final(self).engines_view() == old(self).engines_view(),
            final(self).layout_version_view() == old(self).layout_version_view(),
            forall|k: QuantKey| #[trigger] final(self).cached(k) == old(self).cached(k),
            final(self).cache_empty() == old(self).cache_empty(),
            final(self).firing_view() == old(self).firing_view(),
            old(self).wf() ==> final(self).wf(),
    {
        self.desired_force = DesiredForce { x: 0, y: 0 };
        self.desired_torque = 0;
    }

    /// Resolves the layout's thrusters and drops every cached allocation.
    pub fn update_engine_cache(&mut self, layout: &ThrusterLayout)
        requires
            old(self).wf(),
            layout.wf(),
        ensures
            final(self).wf(),
            final(self).engines_view() == Some(layout.resolved()),
            final(self).layout_version_view() == layout.version_view(),
            forall|k: QuantKey| #[trigger] final(self).cached(k) is None,
            final(self).cache_empty(),
            final(self).force_view() == old(self).force_view(),
            final(self).torque_view() == old(self).torque_view(),
            final(self).config_view() == old(self).config_view(),
            final(self).last_com_view() == old(self).last_com_view(),
            final(self).firing_view() == old(self).firing_view(),
    {
        self.engines = Some(layout.resolve());
        self.layout_version = layout.version();
        self.firings_cache = HashMap::new();
    }

    /// Steps that come before the thrusters fire in a tick: with a request,
    /// resolves the thrusters again where the layout changed, drops the cache
    /// where the layout changed or the center of mass drifted, and looks the
    /// request's bucket up. Without a request (a request in the bucket of the
    /// zero request) nothing changes and no thruster fires.
    pub fn prepare(&mut self, layout: &ThrusterLayout, center_of_mass: Vec2i) -> (r: Allocation)
        requires
            old(self).wf(),
            layout.wf(),
            in_coord_range(center_of_mass),
        ensures
            final(self).wf(),
            no_request(old(self).config_view(), old(self).force_view(), old(self).torque_view()) ==> r is Idle && *final(self)
                == *old(self),
            !no_request(old(self).config_view(), old(self).force_view(), old(self).torque_view()) ==> {
                let s = *old(self);
                let key = quant_key(s.config_view(), s.force_view(), s.torque_view());
                let p = planned(s, *layout, center_of_mass, s.force_view(), s.torque_view());
                &&& final(self).engines_view() == Some(engines_after(s, *layout))
                &&& layout_changed(s, *layout) ==> final(self).layout_version_view() == layout.version_view()
                &&& !layout_changed(s, *layout) ==> final(self).layout_version_view() == s.layout_version_view()
                &&& final(self).last_com_view() == (if drifted(
                    s.last_com_view(),
                    center_of_mass,
                    s.config_view().com_drift_threshold,
                ) {
                    center_of_mass
                } else {
                    s.last_com_view()
                })
                &&& cache_dropped(s, *layout, center_of_mass) ==> forall|k: QuantKey| #[trigger] final(self).cached(k) is None
                &&& !cache_dropped(s, *layout, center_of_mass) ==> forall|k: QuantKey| #[trigger] final(self).cached(k) == s.cached(k)
                &&& final(self).force_view() == s.force_view()
                &&& final(self).torque_view() == s.torque_view()
                &&& final(self).config_view() == s.config_view()
                &&& final(self).firing_view() == s.firing_view()
                &&& match r {
                    Allocation::Idle => false,
                    Allocation::Ready(v) => p == Some(v@),
                    Allocation::Solve(k, prog) => {
                        &&& p is None
                        &&& k == key
                        &&& is_allocation_program(prog, engines_after(s, *layout), center_of_mass, s.force_view(), s.torque_view() as int)
                    },
                }
            },
            r matches Allocation::Ready(v) ==> {
                &&& v@.len() == final(self).engines_view()->Some_0.len()
                &&& forall|j: int| 0 <= j < v@.len() ==> #[trigger] v@[j] <= FULL_ACTIVATION
            },
    {
        let zero = quantize(&self.config, self.desired_force, self.desired_torque);
        if zero.force_x == 0 && zero.force_y == 0 && zero.torque == 0 {
            return Allocation::Idle;
        }
        let changed = match &self.engines {
            None => true,
            Some(_) => self.layout_version != layout.version(),
        };
        if changed {
            self.update_engine_cache(layout);
        }
        if has_drifted(self.last_seen_center_of_mass, center_of_mass, self.config.com_drift_threshold) {
            self.last_seen_center_of_mass = center_of_mass;
            self.firings_cache = HashMap::new();
        }
        let key = quantize(&self.config, self.desired_force, self.desired_torque);
        let engines = match &self.engines {
            Some(v) => v,
            None => {
                assert(false);
                return Allocation::Idle;
            },
        };
        if engines.len() == 0 {
            return Allocation::Ready(Vec::new());
        }
        match self.firings_cache.get(&pack(key)) {
            Some(cached) => {
                let v = cached.clone();
                Allocation::Ready(v)
            },
            None => {
                let prog = calculate_firing(engines, center_of_mass, self.desired_force, self.desired_torque);
                Allocation::Solve(key, prog)
            },
        }
    }

    /// Caches the solver's values (hundredths) for `key` and returns them as
    /// activations. Refused when the thrusters are not resolved or the
    /// solution does not have one value per thruster.
    pub fn record_solution(&mut self, key: QuantKey, solution: &Vec<i64>) -> (r: Option<Vec<u8>>)
        requires
            old(self).wf(),
        ensures
            final(self).wf(),
            r is Some <==> (old(self).engines_view() matches Some(v) && v.len() == solution@.len()),
            r matches Some(a) ==> {
                &&& a@.len() == solution@.len()
                &&& forall|j: int| 0 <= j < a@.len() ==> #[trigger] a@[j] == clamp_activation(solution@[j] as int)
                &&& final(self).cached(key) == Some(a@)
                &&& forall|k: QuantKey| k != key ==> #[trigger] final(self).cached(k) == old(self).cached(k)
                &&& final(self).engines_view() == old(self).engines_view()
                &&& final(self).layout_version_view() == old(self).layout_version_view()
                &&& final(self).force_view() == old(self).force_view()
                &&& final(self).torque_view() == old(self).torque_view()
                &&& final(self).config_view() == old(self).config_view()
                &&& final(self).last_com_view() == old(self).last_com_view()
                &&& final(self).firing_view() == old(self).firing_view()
            },
            r is None ==> *final(self) == *old(self),
    {
        let n = match &self.engines {
            Some(v) => v.len(),
            None => {
                return None;
            },
        };
        if solution.len() != n {
            return None;
        }
        let a = activations_from_solution(solution);
        let stored = a.clone();
        self.firings_cache.insert(pack(key), stored);
        proof {
            assert forall|k: QuantKey| k != key implies #[trigger] self.cached(k) == old(self).cached(k) by {
                if pack_key(k) == pack_key(key) {
                    lemma_pack_injective(k, key);
                }
            }
        }
        Some(a)
    }

    /// Ends a tick on which the thrusters fired with activations `firing`, one
    /// per resolved thruster (empty where nothing was requested or the solve
    /// failed): reports the
    /// thrusters that started and stopped firing, and remembers which fire.
    pub fn finish_tick(&mut self, firing: &Vec<u8>) -> (r: Vec<EngineEvent>)
        requires
            old(self).wf(),
            firing@.len() == 0 || firing@.len() == engines_or_none(*old(self)).len(),
        ensures
            final(self).wf(),
            r@ == tick_events(firing_pairs(engines_or_none(*old(self)), firing@), old(self).firing_view()),
            final(self).firing_view() == pair_ids(firing_pairs(engines_or_none(*old(self)), firing@)),
            ids_sorted(old(self).firing_view()),
            ids_sorted(final(self).firing_view()),
            final(self).engines_view() == old(self).engines_view(),
            final(self).layout_version_view() == old(self).layout_version_view(),
            forall|k: QuantKey| #[trigger] final(self).cached(k) == old(self).cached(k),
            final(self).cache_empty() == old(self).cache_empty(),
            final(self).force_view() == old(self).force_view(),
            final(self).torque_view() == old(self).torque_view(),
            final(self).config_view() == old(self).config_view(),
            final(self).last_com_view() == old(self).last_com_view(),
    {
        let ghost ts = engines_or_none(*self);
        let empty: Vec<ResolvedThruster> = Vec::new();
        let engines: &Vec<ResolvedThruster> = match &self.engines {
            Some(v) => v,
            None => &empty,
        };
        assert(engines@ == ts);
        assert(thrusters_sorted(ts));
        let n: usize = if engines.len() <= firing.len() { engines.len() } else { firing.len() };
        let mut pairs: Vec<(ThrusterId, u8)> = Vec::new();
        let mut now: Vec<ThrusterId> = Vec::new();
        let mut i: usize = 0;
        while i < n
            invariant
                engines@ == ts,
                thrusters_sorted(ts),
                n <= ts.len(),
                n <= firing@.len(),
                i <= n,
                pairs@ == active_prefix(ts, firing@, i as nat),
                now@ == pair_ids(pairs@),
                ids_sorted(now@),
                forall|j: int, k: int| 0 <= j < now@.len() && i <= k < ts.len() ==> id_less(#[trigger] now@[j], #[trigger] ts[k].id),
            decreases n - i,
        {
            if firing[i] > 0 {
                let id = engines[i].id;
                pairs.push((id, firing[i]));
                now.push(id);
                assert(now@ =~= pair_ids(pairs@));
            }
            i = i + 1;
        }
        let mut events: Vec<EngineEvent> = Vec::new();
        let mut j: usize = 0;
        while j < pairs.len()
            invariant
                j <= pairs@.len(),
                events@ == started_events(pairs@.take(j as int), self.currently_firing@),
            decreases pairs@.len() - j,
        {
            let ghost before = pairs@.take(j as int);
            assert(pairs@.take(j + 1).drop_last() =~= before);
            let (id, a) = pairs[j];
            if !contains_id(&self.currently_firing, id) {
                events.push(EngineEvent::StartedFiring(id, a));
            }
            j = j + 1;
        }
        assert(pairs@.take(j as int) =~= pairs@);
        let ghost started = events@;
        let mut k: usize = 0;
        while k < self.currently_firing.len()
            invariant
                k <= self.currently_firing@.len(),
                events@ == started + stopped_events(self.currently_firing@.take(k as int), now@),
            decreases self.currently_firing@.len() - k,
        {
            let ghost before = self.currently_firing@.take(k as int);
            assert(self.currently_firing@.take(k + 1).drop_last() =~= before);
            let id = self.currently_firing[k];
            if !contains_id(&now, id) {
                events.push(EngineEvent::StoppedFiring(id));
                assert(events@ =~= started + stopped_events(self.currently_firing@.take(k + 1), now@));
            }
            k = k + 1;
        }
        assert(self.currently_firing@.take(k as int) =~= self.currently_firing@);
        self.currently_firing = now;
        events
    }

    /// The force commands of the thrusters that fire with activations
    /// `firing`, one per resolved thruster (or none), each scaled by its rated
    /// thrust and by `scale`.
    pub fn thrust_commands(&self, firing: &Vec<u8>, scale: ThrustScale) -> (r: Vec<ThrustCommand>)
        requires
            self.wf(),
            firing@.len() == 0 || firing@.len() == engines_or_none(*self).len(),
            forall|j: int| 0 <= j < firing@.len() ==> #[trigger] firing@[j] <= FULL_ACTIVATION,
        ensures
            r@ == commands_prefix(
                engines_or_none(*self),
                firing@,
                scale.0,
                if engines_or_none(*self).len() <= firing@.len() {
                    engines_or_none(*self).len()
                } else {
                    firing@.len()
                },
            ),
    {
        let ghost ts = engines_or_none(*self);
        let empty: Vec<ResolvedThruster> = Vec::new();
        let engines: &Vec<ResolvedThruster> = match &self.engines {
            Some(v) => v,
            None => &empty,
        };
        assert(engines@ == ts);
        let n: usize = if engines.len() <= firing.len() { engines.len() } else { firing.len() };
        let mut out: Vec<ThrustCommand> = Vec::new();
        let mut i: usize = 0;
        while i < n
            invariant
                engines@ == ts,
                forall|k: int| 0 <= k < ts.len() ==> thruster_in_range(#[trigger] ts[k]),
                forall|j: int| 0 <= j < firing@.len() ==> #[trigger] firing@[j] <= FULL_ACTIVATION,
                n <= ts.len(),
                n <= firing@.len(),
                i <= n,
                out@ == commands_prefix(ts, firing@, scale.0, i as nat),
            decreases n - i,
        {
            let a = firing[i];
            if a > 0 {
                let t = engines[i];
                assert(thruster_in_range(t));
                assert(t.max_thrust * a <= 6_553_600) by (nonlinear_arith)
                    requires
                        t.max_thrust <= 65536,
                        a <= 100,
                ;
                assert(t.max_thrust * a * scale.0 <= 6_553_600 * 65535) by (nonlinear_arith)
                    requires
                        t.max_thrust * a <= 6_553_600,
                        scale.0 <= 65535,
                ;
                let magnitude: u64 = t.max_thrust * (a as u64) * (scale.0 as u64);
                out.push(ThrustCommand { id: t.id, position: t.position, direction: t.direction, magnitude });
            }
            i = i + 1;
        }
        out
    }

    /// Predicts the accelerations that the allocation of the current request
    /// would give `body`, after the same center-of-mass check as a tick.
    /// Without resolved thrusters there is nothing to predict; no request (a
    /// request in the zero request's bucket), or a body without thrusters,
    /// gives no acceleration; a request whose
    /// bucket is not cached hands out the program to solve: once its solution
    /// went to `record_solution`, asking again gives the estimate.
    pub fn estimate_acceleration(&mut self, body: &BodyMass, engine_scale: u16) -> (r: Estimate)
        requires
            old(self).wf(),
            in_coord_range(body.center_of_mass),
            body.inverse_inertia_sqrt <= MAX_INVERSE_INERTIA_SQRT,
        ensures
            final(self).wf(),
            ({
                let s = *old(self);
                let com = body.center_of_mass;
                let moved = drifted(s.last_com_view(), com, s.config_view().com_drift_threshold);
                let key = quant_key(s.config_view(), s.force_view(), s.torque_view());
                &&& final(self).last_com_view() == (if moved { com } else { s.last_com_view() })
                &&& moved ==> forall|k: QuantKey| #[trigger] final(self).cached(k) is None
                &&& !moved ==> forall|k: QuantKey| #[trigger] final(self).cached(k) == s.cached(k)
                &&& final(self).engines_view() == s.engines_view()
                &&& final(self).layout_version_view() == s.layout_version_view()
                &&& final(self).force_view() == s.force_view()
                &&& final(self).torque_view() == s.torque_view()
                &&& final(self).config_view() == s.config_view()
                &&& final(self).firing_view() == s.firing_view()
                &&& (r is Unresolved <==> s.engines_view() is None)
                &&& s.engines_view() matches Some(v) ==> {
                    if no_request(s.config_view(), s.force_view(), s.torque_view()) || v.len() == 0 {
                        r == Estimate::Ready(AccelerationEstimate { linear_x: 0, linear_y: 0, angular: 0 })
                    } else {
                        match final(self).cached(key) {
                            Some(a) => r == Estimate::Ready(
                                acceleration_of(
                                    body.inverse_inertia_sqrt,
                                    body.inverse_mass,
                                    engine_scale,
                                    com,
                                    v,
                                    a,
                                ),
                            ),
                            None => r matches Estimate::Solve(k, p) && k == key && is_allocation_program(
                                p,
                                v,
                                com,
                                s.force_view(),
                                s.torque_view() as int,
                            ),
                        }
                    }
                }
            }),
    {
        if has_drifted(self.last_seen_center_of_mass, body.center_of_mass, self.config.com_drift_threshold) {
            self.last_seen_center_of_mass = body.center_of_mass;
            self.firings_cache = HashMap::new();
        }
        let engines = match &self.engines {
            None => {
                return Estimate::Unresolved;
            },
            Some(engines) => engines,
        };
        let key = quantize(&self.config, self.desired_force, self.desired_torque);
        if (key.force_x == 0 && key.force_y == 0 && key.torque == 0) || engines.len() == 0 {
            return Estimate::Ready(AccelerationEstimate { linear_x: 0, linear_y: 0, angular: 0 });
        }
        match self.firings_cache.get(&pack(key)) {
            None => {
                let prog = calculate_firing(engines, body.center_of_mass, self.desired_force, self.desired_torque);
                Estimate::Solve(key, prog)
            },
            Some(firing) => {
                Estimate::Ready(
                    estimate_acceleration(
                        body.inverse_inertia_sqrt,
                        body.inverse_mass,
                        engine_scale,
                        body.center_of_mass,
                        engines,
                        firing,
                    ),
                )
            },
        }
    }

    /// Forgets the resolved thrusters and every cached allocation, after a
    /// change of the thruster mounts.
    pub fn invalidate_caches(&mut self)
        requires
            old(self).wf(),
        ensures
            final(self).wf(),
            final(self).engines_view() is None,
            final(self).cache_empty(),
            forall|k: QuantKey| #[trigger] final(self).cached(k) is None,
            final(self).force_view() == old(self).force_view(),
            final(self).torque_view() == old(self).torque_view(),
            final(self).config_view() == old(self).config_view(),
            final(self).last_com_view() == old(self).last_com_view(),
            final(self).firing_view() == old(self).firing_view(),
    {
        self.firings_cache = HashMap::new();
        self.engines = None;
    }
}

} // verus!
