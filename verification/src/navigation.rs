//! The navigation decisions of the slow brain: which position source to
//! trust (BeiDou fix or odometry), when to move on to the next waypoint of the
//! route, which waypoint to broadcast as the goal, and how far a visual
//! relocalization attempt may go.
//!
//! Distances and the age of the last fix are computed by the caller (they
//! need floating-point arithmetic and a clock) and handed in as `f32` bit
//! patterns; every comparison on them is the hardware's.
use vstd::prelude::*;

use crate::ieee::F32Bits;
use crate::router::{id_is, SignalData};

verus! {

/// HDOP below which a fix is precise enough to navigate by (2.5).
pub const HDOP_LIMIT: u32 = 0x4020_0000;

/// Age in seconds below which a fix is still current (2.0).
pub const GPS_TIMEOUT_S: u32 = 0x4000_0000;

/// Distance in metres under which a waypoint counts as reached (0.25).
pub const ARRIVAL_RADIUS_M: u32 = 0x3e80_0000;

/// HDOP assumed before the first fix (99.0): no satellites.
pub const NO_FIX_HDOP: u32 = 0x42c6_0000;

/// Fewest history features worth matching against.
pub const MIN_HISTORY_FEATURES: usize = 8;

/// Fewest cross matches worth a geometric check.
pub const MIN_CROSS_MATCHES: usize = 8;

/// Fewest geometrically consistent matches worth a homography.
pub const MIN_CLEAN_MATCHES: usize = 5;

/// Similarity threshold of the relocalization cross match (0.75, `f32`).
pub const RELOCALIZATION_MIN_SIMILARITY: u32 = 0x3f40_0000;

/// RANSAC error threshold of the relocalization estimators (3.0, `f64`).
pub const RELOCALIZATION_RANSAC_THRESHOLD: u64 = 0x4008_0000_0000_0000;

/// Where the position comes from.
#[derive(Clone, Copy, Debug, PartialEq, Eq, Structural)]
pub enum NavigationMode {
    /// A current, precise BeiDou fix.
    BeidouHighPrecisionNav,
    /// No usable fix: odometry, corrected by visual relocalization.
    PuppetReplay,
}

/// What the slow brain remembers between events.
#[derive(Clone, Copy, Debug)]
pub struct NavigationState {
    pub mode: NavigationMode,
    pub gps_x: F32Bits,
    pub gps_y: F32Bits,
    pub gps_hdop: F32Bits,
    pub odom_x: F32Bits,
    pub odom_y: F32Bits,
    /// Position in the route of the waypoint being approached.
    pub target_index: usize,
    /// Number of waypoints on the route.
    pub route_len: usize,
}

/// A position input the node cannot read; the node stops on it.
#[derive(Clone, Copy, Debug, PartialEq, Eq, Structural)]
pub enum NavigationError {
    GpsNotFloat32,
    OdometryNotFloat32,
}

/// Which handler an input goes to.
#[derive(Clone, Copy, Debug, PartialEq, Eq, Structural)]
pub enum NavigationInput {
    Gps,
    Odometry,
    /// A frame of visual features, taken only while replaying.
    XfeatFeatures,
    Ignored,
}

/// How far a relocalization attempt goes: the last stage whose gate the
/// counts pass.
#[derive(Clone, Copy, Debug, PartialEq, Eq, Structural)]
pub enum RelocalizationStep {
    /// Not attempted (not replaying, or too little history).
    Skip,
    /// Cross matching only: too few matches for the geometric check.
    CrossMatch,
    /// Geometric filtering, but too few clean matches for a homography.
    GeometryFilter,
    /// All the way to the homography.
    Homography,
}

/// BeiDou navigation when the fix is precise (`hdop < 2.5`) and current
/// (`age < 2.0 s`), as `f32` compares them (a NaN fails); replay otherwise.
pub open spec fn arbitrate(hdop: F32Bits, gps_age_s: F32Bits) -> NavigationMode {
    if hdop.less_than(F32Bits(HDOP_LIMIT)) && gps_age_s.less_than(F32Bits(GPS_TIMEOUT_S)) {
        NavigationMode::BeidouHighPrecisionNav
    } else {
        NavigationMode::PuppetReplay
    }
}

/// The input an event id stands for in `mode`.
pub open spec fn input_kind(id: Seq<char>, mode: NavigationMode) -> NavigationInput {
    if id == "gps"@ {
        NavigationInput::Gps
    } else if id == "odometry"@ {
        NavigationInput::Odometry
    } else if id == "xfeat_features"@ && mode == NavigationMode::PuppetReplay {
        NavigationInput::XfeatFeatures
    } else {
        NavigationInput::Ignored
    }
}

/// The state and answer after a GPS input: a `Float32` array of at least
/// three values is a fix `(x, y, hdop)` and is stored (`Ok(true)`); a shorter
/// one is ignored (`Ok(false)`); any other array is an error.
pub open spec fn gps_step(state: NavigationState, data: SignalData) -> (
    NavigationState,
    Result<bool, NavigationError>,
) {
    match data {
        SignalData::Float32(a) => if a@.len() >= 3 {
            (NavigationState { gps_x: a@[0], gps_y: a@[1], gps_hdop: a@[2], ..state }, Ok(true))
        } else {
            (state, Ok(false))
        },
        _ => (state, Err(NavigationError::GpsNotFloat32)),
    }
}

/// The position the node navigates by in `state`.
pub open spec fn position_of(state: NavigationState) -> (F32Bits, F32Bits) {
    if state.mode == NavigationMode::BeidouHighPrecisionNav {
        (state.gps_x, state.gps_y)
    } else {
        (state.odom_x, state.odom_y)
    }
}

/// The state and answer after an odometry input whose last fix is
/// `gps_age_s` old: a `Float32` array of at least two values updates the
/// odometry; then the mode is arbitrated and the position reported. Any other
/// array is an error and changes nothing.
pub open spec fn odometry_step(state: NavigationState, data: SignalData, gps_age_s: F32Bits) -> (
    NavigationState,
    Result<(F32Bits, F32Bits), NavigationError>,
) {
    match data {
        SignalData::Float32(a) => {
            let moved = if a@.len() >= 2 {
                NavigationState { odom_x: a@[0], odom_y: a@[1], ..state }
            } else {
                state
            };
            let next = NavigationState { mode: arbitrate(state.gps_hdop, gps_age_s), ..moved };
            (next, Ok(position_of(next)))
        },
        _ => (state, Err(NavigationError::OdometryNotFloat32)),
    }
}

/// The state and broadcast goal after the target waypoint was found
/// `remaining_dist_m` away: the goal is the waypoint approached before the
/// step; the target moves on when it is closer than 0.25 m and a next
/// waypoint exists.
pub open spec fn advance_step(state: NavigationState, remaining_dist_m: F32Bits) -> (
    NavigationState,
    Option<usize>,
) {
    if state.target_index < state.route_len {
        let next_index = if remaining_dist_m.less_than(F32Bits(ARRIVAL_RADIUS_M))
            && state.target_index + 1 < state.route_len {
            (state.target_index + 1) as usize
        } else {
            state.target_index
        };
        (NavigationState { target_index: next_index, ..state }, Some(state.target_index))
    } else {
        (state, None)
    }
}

/// The relocalization stage the counts allow in `mode`.
pub open spec fn relocalization_stage(
    mode: NavigationMode,
    history_len: usize,
    matches_len: usize,
    clean_len: usize,
) -> RelocalizationStep {
    if mode != NavigationMode::PuppetReplay || history_len < MIN_HISTORY_FEATURES {
        RelocalizationStep::Skip
    } else if matches_len < MIN_CROSS_MATCHES {
        RelocalizationStep::CrossMatch
    } else if clean_len < MIN_CLEAN_MATCHES {
        RelocalizationStep::GeometryFilter
    } else {
        RelocalizationStep::Homography
    }
}

/// The rank of a stage: later stages rank higher.
pub open spec fn stage_rank(step: RelocalizationStep) -> int {
    match step {
        RelocalizationStep::Skip => 0,
        RelocalizationStep::CrossMatch => 1,
        RelocalizationStep::GeometryFilter => 2,
        RelocalizationStep::Homography => 3,
    }
}

impl NavigationState {
    /// The target is a waypoint of the route, or the route is empty and the
    /// target is its start.
    pub open spec fn on_route(self) -> bool {
        self.target_index < self.route_len || self.target_index == 0
    }

    /// The state at start-up on a route of `route_len` waypoints: replaying,
    /// at the origin, no fix yet, approaching the first waypoint.
    pub fn new(route_len: usize) -> (s: NavigationState)
        ensures
            s.mode == NavigationMode::PuppetReplay,
            s.gps_x == F32Bits::zero() && s.gps_y == F32Bits::zero(),
            s.gps_hdop == F32Bits(NO_FIX_HDOP),
            s.odom_x == F32Bits::zero() && s.odom_y == F32Bits::zero(),
            s.target_index == 0,
            s.route_len == route_len,
            s.on_route(),
    {
        NavigationState {
            mode: NavigationMode::PuppetReplay,
            gps_x: F32Bits(0),
            gps_y: F32Bits(0),
            gps_hdop: F32Bits(NO_FIX_HDOP),
            odom_x: F32Bits(0),
            odom_y: F32Bits(0),
            target_index: 0,
            route_len,
        }
    }

    /// The route position of the waypoint being approached, if the route has
    /// one there.
    pub fn current_target(&self) -> (r: Option<usize>)
        ensures
            r == (if self.target_index < self.route_len {
                Some(self.target_index)
            } else {
                None::<usize>
            }),
    {
        if self.target_index < self.route_len {
            Some(self.target_index)
        } else {
            None
        }
    }
}

/// The handler for the input `id` while in `mode`.
pub fn navigation_input(id: &String, mode: NavigationMode) -> (r: NavigationInput)
    ensures
        r == input_kind(id@, mode),
{
    if id_is(id, "gps") {
        NavigationInput::Gps
    } else if id_is(id, "odometry") {
        NavigationInput::Odometry
    } else if id_is(id, "xfeat_features") && mode == NavigationMode::PuppetReplay {
        NavigationInput::XfeatFeatures
    } else {
        NavigationInput::Ignored
    }
}

/// Takes a GPS input. `Ok(true)` means the fix was stored, and the caller
/// restarts the age of the last fix.
pub fn on_gps(state: &mut NavigationState, data: &SignalData) -> (r: Result<bool, NavigationError>)
    ensures
        (*final(state), r) == gps_step(*old(state), *data),
{
    match data {
        SignalData::Float32(a) => {
            if a.len() >= 3 {
                state.gps_x = a[0];
                state.gps_y = a[1];
                state.gps_hdop = a[2];
                Ok(true)
            } else {
                Ok(false)
            }
        },
        _ => Err(NavigationError::GpsNotFloat32),
    }
}

/// Takes an odometry input, arbitrates the mode from the stored HDOP and the
/// age `gps_age_s` of the last fix, and returns the position to navigate by.
pub fn on_odometry(state: &mut NavigationState, data: &SignalData, gps_age_s: F32Bits) -> (r:
    Result<(F32Bits, F32Bits), NavigationError>)
    ensures
        (*final(state), r) == odometry_step(*old(state), *data, gps_age_s),
{
    match data {
        SignalData::Float32(a) => {
            if a.len() >= 2 {
                state.odom_x = a[0];
                state.odom_y = a[1];
            }
            let beidou = state.gps_hdop.lt(F32Bits(HDOP_LIMIT)) && gps_age_s.lt(
                F32Bits(GPS_TIMEOUT_S),
            );
            if beidou {
                state.mode = NavigationMode::BeidouHighPrecisionNav;
                Ok((state.gps_x, state.gps_y))
            } else {
                state.mode = NavigationMode::PuppetReplay;
                Ok((state.odom_x, state.odom_y))
            }
        },
        _ => Err(NavigationError::OdometryNotFloat32),
    }
}

/// After the target waypoint was found `remaining_dist_m` away: returns the
/// route position of the goal to broadcast (the waypoint approached before
/// this step) and moves the target on when the waypoint is reached and a next
/// one exists.
pub fn advance_waypoint(state: &mut NavigationState, remaining_dist_m: F32Bits) -> (goal_index:
    Option<usize>)
    ensures
        (*final(state), goal_index) == advance_step(*old(state), remaining_dist_m),
{
    if state.target_index < state.route_len {
        let goal = state.target_index;
        if remaining_dist_m.lt(F32Bits(ARRIVAL_RADIUS_M)) && state.target_index + 1
            < state.route_len {
            state.target_index = state.target_index + 1;
        }
        Some(goal)
    } else {
        None
    }
}

/// How far a relocalization attempt goes with `history_len` history
/// features, `matches_len` cross matches and `clean_len` geometrically clean
/// matches. The caller asks again as each count becomes known; a count not
/// yet known is passed as zero.
pub fn relocalization_step(
    mode: NavigationMode,
    history_len: usize,
    matches_len: usize,
    clean_len: usize,
) -> (r: RelocalizationStep)
    ensures
        r == relocalization_stage(mode, history_len, matches_len, clean_len),
{
    if mode != NavigationMode::PuppetReplay || history_len < MIN_HISTORY_FEATURES {
        RelocalizationStep::Skip
    } else if matches_len < MIN_CROSS_MATCHES {
        RelocalizationStep::CrossMatch
    } else if clean_len < MIN_CLEAN_MATCHES {
        RelocalizationStep::GeometryFilter
    } else {
        RelocalizationStep::Homography
    }
}

/// BeiDou navigation is chosen only on a fix with HDOP below 2.5 that is
/// younger than 2 s; a NaN HDOP or age always falls back to replay.
pub proof fn lemma_beidou_needs_precise_current_fix(hdop: F32Bits, gps_age_s: F32Bits)
    ensures
        arbitrate(hdop, gps_age_s) == NavigationMode::BeidouHighPrecisionNav <==> (
        hdop.less_than(F32Bits(0x4020_0000u32)) && gps_age_s.less_than(F32Bits(0x4000_0000u32))),
        hdop.nan() || gps_age_s.nan() ==> arbitrate(hdop, gps_age_s)
            == NavigationMode::PuppetReplay,
{
}

/// After a fix `(x, y, hdop)` and then an odometry input `(ox, oy, ..)`, the
/// node navigates by the fix exactly when the fix is precise and current,
/// and by the odometry otherwise.
pub proof fn lemma_fix_then_odometry(
    state: NavigationState,
    fix: Vec<F32Bits>,
    odometry: Vec<F32Bits>,
    gps_age_s: F32Bits,
)
    requires
        fix@.len() >= 3,
        odometry@.len() >= 2,
    ensures
        ({
            let after_fix = gps_step(state, SignalData::Float32(fix)).0;
            let (after_odometry, position) = odometry_step(
                after_fix,
                SignalData::Float32(odometry),
                gps_age_s,
            );
            &&& after_odometry.mode == arbitrate(fix@[2], gps_age_s)
            &&& position == Ok::<(F32Bits, F32Bits), NavigationError>(
                if arbitrate(fix@[2], gps_age_s) == NavigationMode::BeidouHighPrecisionNav {
                    (fix@[0], fix@[1])
                } else {
                    (odometry@[0], odometry@[1])
                },
            )
        }),
{
}

/// Position inputs never move the target along the route.
pub proof fn lemma_position_inputs_keep_the_target(
    state: NavigationState,
    data: SignalData,
    gps_age_s: F32Bits,
)
    ensures
        gps_step(state, data).0.target_index == state.target_index,
        gps_step(state, data).0.route_len == state.route_len,
        odometry_step(state, data, gps_age_s).0.target_index == state.target_index,
        odometry_step(state, data, gps_age_s).0.route_len == state.route_len,
{
}

/// The target moves forward by at most one waypoint per step, never back,
/// never off the route, and stays on the last waypoint once there; it moves
/// exactly when the waypoint is closer than 0.25 m and a next one exists; the
/// goal broadcast is the waypoint approached before the step.
pub proof fn lemma_target_walks_the_route(state: NavigationState, remaining_dist_m: F32Bits)
    requires
        state.on_route(),
    ensures
        ({
            let (next, goal) = advance_step(state, remaining_dist_m);
            &&& next.on_route()
            &&& next.route_len == state.route_len
            &&& state.target_index <= next.target_index <= state.target_index + 1
            &&& (state.route_len > 0 ==> goal == Some(state.target_index))
            &&& (state.route_len == 0 ==> goal is None)
            &&& (state.target_index + 1 == state.route_len ==> next.target_index
                == state.target_index)
            &&& (next.target_index != state.target_index ==> remaining_dist_m.less_than(
                F32Bits(0x3e80_0000u32),
            ))
            &&& (state.target_index + 1 < state.route_len && remaining_dist_m.less_than(
                F32Bits(0x3e80_0000u32),
            ) ==> next.target_index == state.target_index + 1)
        }),
{
}

/// Relocalization is skipped unless replaying with at least 8 history
/// features; then fewer than 8 cross matches stop it after matching, at least
/// 8 go on to the geometric filter, and at least 5 clean matches go on to the
/// homography, whatever the number of history features. Larger counts never
/// stop an attempt earlier.
pub proof fn lemma_relocalization_gates(
    mode: NavigationMode,
    history_len: usize,
    matches_len: usize,
    clean_len: usize,
    more_matches: usize,
    more_clean: usize,
)
    requires
        matches_len <= more_matches,
        clean_len <= more_clean,
    ensures
        mode != NavigationMode::PuppetReplay || history_len < 8 ==> relocalization_stage(
            mode,
            history_len,
            matches_len,
            clean_len,
        ) == RelocalizationStep::Skip,
        mode == NavigationMode::PuppetReplay && history_len >= 8 && matches_len < 8
            ==> relocalization_stage(mode, history_len, matches_len, clean_len)
            == RelocalizationStep::CrossMatch,
        mode == NavigationMode::PuppetReplay && history_len >= 8 && matches_len >= 8 && clean_len
            < 5 ==> relocalization_stage(mode, history_len, matches_len, clean_len)
            == RelocalizationStep::GeometryFilter,
        mode == NavigationMode::PuppetReplay && history_len >= 8 && matches_len >= 8 && clean_len
            >= 5 ==> relocalization_stage(mode, history_len, matches_len, clean_len)
            == RelocalizationStep::Homography,
        relocalization_stage(mode, history_len, matches_len, clean_len)
            != RelocalizationStep::Skip ==> mode == NavigationMode::PuppetReplay && history_len
            >= MIN_HISTORY_FEATURES,
        relocalization_stage(mode, history_len, matches_len, clean_len)
            == RelocalizationStep::Homography ==> matches_len >= MIN_CROSS_MATCHES && clean_len
            >= MIN_CLEAN_MATCHES,
        stage_rank(relocalization_stage(mode, history_len, matches_len, clean_len)) <= stage_rank(
            relocalization_stage(mode, history_len, more_matches, more_clean),
        ),
{
}

} // verus!
