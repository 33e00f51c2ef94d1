//! The event router: turns one raw dataflow event into a typed driving
//! signal, or says why it cannot.
//!
//! An event is read as plain values: its input id and its payload array,
//! whose `f32` samples are carried by their bit patterns. A signal carries the
//! samples it was built from; widening them to `f64` (exact) is left to the
//! consumer.
use vstd::prelude::*;

use crate::ieee::F32Bits;

verus! {

/// Number of cells of the bird's-eye-view occupancy grid (192 x 192).
pub const BEV_GRID_LEN: usize = 36864;

/// The payload array of a dataflow input.
#[derive(Clone, Debug, PartialEq, Eq)]
pub enum SignalData {
    /// A `Float32Array`, by the bit patterns of its values.
    Float32(Vec<F32Bits>),
    /// A `UInt8Array`.
    UInt8(Vec<u8>),
    /// Any other array type.
    Other,
}

/// A dataflow event.
#[derive(Clone, Debug, PartialEq, Eq)]
pub enum RouterEvent {
    /// An input on the port `id`.
    Input { id: String, data: SignalData },
    /// The dataflow asks the node to stop.
    Stop,
    /// Any other event.
    Other,
}

/// The inputs the router understands.
#[derive(Clone, Copy, Debug, PartialEq, Eq, Structural)]
pub enum SignalKind {
    Odometry,
    ObstacleForce,
    HumanPrior,
    BevGrid,
    Ttc,
}

/// A typed driving signal.
#[derive(Clone, Debug, PartialEq, Eq)]
pub enum DrivingSignalPayload {
    PhysicalOdometry { x: F32Bits, y: F32Bits, yaw: F32Bits, v: F32Bits },
    ObstacleRepulsionForce { fx: F32Bits, fy: F32Bits },
    SlowBrainAttractionNav { goal_x: F32Bits, goal_y: F32Bits, goal_yaw: F32Bits },
    BevGrid(Vec<u8>),
    NeuralReflexTtc(F32Bits),
    SystemOffline,
    Uncalibrated,
}

/// Why an event could not be routed.
#[derive(Clone, Copy, Debug, PartialEq, Eq)]
pub enum RouteError {
    /// The payload is not an array of the type the input needs.
    WrongArrayType(SignalKind),
    /// The payload has fewer values than the input needs.
    ArrayTooShort(SignalKind),
    /// A value is infinite or NaN.
    NonFinite { signal: SignalKind, index: usize, value: F32Bits },
    /// The grid does not have `BEV_GRID_LEN` cells.
    BevGridSize { expected: usize, got: usize },
    /// The time to collision is NaN or negative.
    InvalidTtc(F32Bits),
}

/// Index of the first infinite or NaN value.
pub open spec fn first_non_finite(values: Seq<F32Bits>) -> Option<int>
    decreases values.len(),
{
    if values.len() == 0 {
        None
    } else if !values[0].finite() {
        Some(0)
    } else {
        match first_non_finite(values.drop_first()) {
            Some(i) => Some(i + 1),
            None => None,
        }
    }
}

proof fn lemma_first_non_finite(values: Seq<F32Bits>, i: int)
    requires
        0 <= i <= values.len(),
        forall|j: int| 0 <= j < i ==> values[j].finite(),
    ensures
        i == values.len() ==> first_non_finite(values) is None,
        i < values.len() && !values[i].finite() ==> first_non_finite(values) == Some(i),
    decreases i,
{
    if i > 0 {
        lemma_first_non_finite(values.drop_first(), i - 1);
    }
}

/// What `validate_finite` answers on `values`.
pub open spec fn finite_check(signal: SignalKind, values: Seq<F32Bits>) -> Result<(), RouteError> {
    match first_non_finite(values) {
        Some(i) => Err(RouteError::NonFinite { signal, index: i as usize, value: values[i] }),
        None => Ok(()),
    }
}

/// Fails on the first infinite or NaN value, naming the signal, the index and
/// the value.
pub fn validate_finite(signal: SignalKind, values: &[F32Bits]) -> (r: Result<(), RouteError>)
    ensures
        r == finite_check(signal, values@),
        r is Ok <==> forall|i: int| 0 <= i < values@.len() ==> values@[i].finite(),
{
    let mut i: usize = 0;
    while i < values.len()
        invariant
            0 <= i <= values@.len(),
            forall|j: int| 0 <= j < i ==> values@[j].finite(),
        decreases values@.len() - i,
    {
        if !values[i].is_finite() {
            proof {
                lemma_first_non_finite(values@, i as int);
            }
            return Err(RouteError::NonFinite { signal, index: i, value: values[i] });
        }
        i = i + 1;
    }
    proof {
        lemma_first_non_finite(values@, i as int);
    }
    Ok(())
}

/// The first `count` samples of a `Float32Array` payload, all finite.
pub open spec fn finite_samples(signal: SignalKind, data: SignalData, count: int) -> Result<
    Seq<F32Bits>,
    RouteError,
> {
    match data {
        SignalData::Float32(values) => if values@.len() < count {
            Err(RouteError::ArrayTooShort(signal))
        } else {
            match finite_check(signal, values@.take(count)) {
                Ok(_) => Ok(values@.take(count)),
                Err(e) => Err(e),
            }
        },
        _ => Err(RouteError::WrongArrayType(signal)),
    }
}

/// What the router makes of an event.
pub open spec fn route(event: RouterEvent) -> Result<DrivingSignalPayload, RouteError> {
    match event {
        RouterEvent::Input { id, data } => if id@ == "odometry"@ {
            match finite_samples(SignalKind::Odometry, data, 4) {
                Ok(s) => Ok(DrivingSignalPayload::PhysicalOdometry { x: s[0], y: s[1], yaw: s[2], v: s[3] }),
                Err(e) => Err(e),
            }
        } else if id@ == "obstacle_force"@ {
            match finite_samples(SignalKind::ObstacleForce, data, 2) {
                Ok(s) => Ok(DrivingSignalPayload::ObstacleRepulsionForce { fx: s[0], fy: s[1] }),
                Err(e) => Err(e),
            }
        } else if id@ == "human_prior"@ {
            match finite_samples(SignalKind::HumanPrior, data, 3) {
                Ok(s) => Ok(
                    DrivingSignalPayload::SlowBrainAttractionNav {
                        goal_x: s[0],
                        goal_y: s[1],
                        goal_yaw: s[2],
                    },
                ),
                Err(e) => Err(e),
            }
        } else if id@ == "bev_grid"@ {
            match data {
                SignalData::UInt8(cells) => if cells@.len() != BEV_GRID_LEN {
                    Err(RouteError::BevGridSize { expected: BEV_GRID_LEN, got: cells@.len() as usize })
                } else {
                    Ok(DrivingSignalPayload::BevGrid(cells))
                },
                _ => Err(RouteError::WrongArrayType(SignalKind::BevGrid)),
            }
        } else if id@ == "ttc"@ {
            match data {
                SignalData::Float32(values) => if values@.len() < 1 {
                    Err(RouteError::ArrayTooShort(SignalKind::Ttc))
                } else if values@[0].nan() || values@[0].less_than(F32Bits::zero()) {
                    Err(RouteError::InvalidTtc(values@[0]))
                } else {
                    Ok(DrivingSignalPayload::NeuralReflexTtc(values@[0]))
                },
                _ => Err(RouteError::WrongArrayType(SignalKind::Ttc)),
            }
        } else {
            Ok(DrivingSignalPayload::Uncalibrated)
        },
        RouterEvent::Stop => Ok(DrivingSignalPayload::SystemOffline),
        RouterEvent::Other => Ok(DrivingSignalPayload::Uncalibrated),
    }
}

pub(crate) fn id_is(id: &String, name: &str) -> (r: bool)
    ensures
        r == (id@ == name@),
{
    let expected = name.to_owned();
    *id == expected
}

fn take_finite_samples(signal: SignalKind, data: &SignalData, count: usize) -> (r: Result<
    Vec<F32Bits>,
    RouteError,
>)
    ensures
        match (r, finite_samples(signal, *data, count as int)) {
            (Ok(v), Ok(s)) => v@ == s,
            (Err(e), Err(f)) => e == f,
            _ => false,
        },
{
    match data {
        SignalData::Float32(values) => {
            if values.len() < count {
                return Err(RouteError::ArrayTooShort(signal));
            }
            let mut prefix: Vec<F32Bits> = Vec::new();
            let mut i: usize = 0;
            while i < count
                invariant
                    i <= count <= values@.len(),
                    prefix@ == values@.take(i as int),
                decreases count - i,
            {
                prefix.push(values[i]);
                i = i + 1;
                assert(prefix@ =~= values@.take(i as int));
            }
            match validate_finite(signal, prefix.as_slice()) {
                Ok(_) => Ok(prefix),
                Err(e) => Err(e),
            }
        },
        _ => Err(RouteError::WrongArrayType(signal)),
    }
}

proof fn lemma_first_non_finite_is_first(values: Seq<F32Bits>)
    ensures
        first_non_finite(values) is None <==> forall|j: int|
            0 <= j < values.len() ==> #[trigger] values[j].finite(),
        first_non_finite(values) matches Some(i) ==> 0 <= i < values.len() && !values[i].finite()
            && forall|j: int| 0 <= j < i ==> #[trigger] values[j].finite(),
    decreases values.len(),
{
    if values.len() > 0 {
        lemma_first_non_finite_is_first(values.drop_first());
        if values[0].finite() {
            assert forall|j: int| 0 < j < values.len() implies #[trigger] values[j].finite()
                <== values.drop_first()[j - 1].finite() by {}
        }
    }
}

/// Every value carried by a routed signal is usable: odometry, obstacle force
/// and goal values are finite, a time to collision is neither NaN nor
/// negative, and a grid has exactly `BEV_GRID_LEN` cells.
pub proof fn lemma_routed_values_are_usable(event: RouterEvent)
    ensures
        route(event) matches Ok(p) ==> match p {
            DrivingSignalPayload::PhysicalOdometry { x, y, yaw, v } => x.finite() && y.finite()
                && yaw.finite() && v.finite(),
            DrivingSignalPayload::ObstacleRepulsionForce { fx, fy } => fx.finite() && fy.finite(),
            DrivingSignalPayload::SlowBrainAttractionNav { goal_x, goal_y, goal_yaw } =>
                goal_x.finite() && goal_y.finite() && goal_yaw.finite(),
            DrivingSignalPayload::NeuralReflexTtc(t) => !t.nan() && !t.less_than(F32Bits::zero()),
            DrivingSignalPayload::BevGrid(cells) => cells@.len() == BEV_GRID_LEN,
            _ => true,
        },
{
    if let RouterEvent::Input { id, data } = event {
        if let SignalData::Float32(values) = data {
            let v = values@;
            lemma_first_non_finite_is_first(v.take(2));
            lemma_first_non_finite_is_first(v.take(3));
            lemma_first_non_finite_is_first(v.take(4));
            if v.len() >= 4 {
                assert(v.take(4)[0] == v[0] && v.take(4)[1] == v[1] && v.take(4)[2] == v[2]
                    && v.take(4)[3] == v[3]);
            }
        }
    }
}

/// A sample array of `width` values (4 for odometry, 2 for an obstacle
/// force, 3 for a goal) is checked in full: too short is `ArrayTooShort`, a
/// non-finite value among the first `width` is `NonFinite` at the first such
/// index, and otherwise the signal carries those values in order.
pub proof fn lemma_sample_inputs_are_checked(id: String, values: Vec<F32Bits>)
    ensures
        ({
            let r = route(RouterEvent::Input { id, data: SignalData::Float32(values) });
            let v = values@;
            let (is_sample_input, kind, width) = if id@ == "odometry"@ {
                (true, SignalKind::Odometry, 4int)
            } else if id@ == "obstacle_force"@ {
                (true, SignalKind::ObstacleForce, 2int)
            } else if id@ == "human_prior"@ {
                (true, SignalKind::HumanPrior, 3int)
            } else {
                (false, SignalKind::Odometry, 0int)
            };
            is_sample_input ==> {
                &&& v.len() < width ==> r == Err::<DrivingSignalPayload, RouteError>(
                    RouteError::ArrayTooShort(kind),
                )
                &&& forall|i: int|
                    0 <= i < width <= v.len() && !#[trigger] v[i].finite() && (forall|j: int|
                        0 <= j < i ==> v[j].finite()) ==> r == Err::<
                        DrivingSignalPayload,
                        RouteError,
                    >(RouteError::NonFinite { signal: kind, index: i as usize, value: v[i] })
                &&& (width <= v.len() && forall|j: int| 0 <= j < width ==> v[j].finite()) ==> r
                    == Ok::<DrivingSignalPayload, RouteError>(
                    if width == 4 {
                        DrivingSignalPayload::PhysicalOdometry { x: v[0], y: v[1], yaw: v[2], v: v[3] }
                    } else if width == 2 {
                        DrivingSignalPayload::ObstacleRepulsionForce { fx: v[0], fy: v[1] }
                    } else {
                        DrivingSignalPayload::SlowBrainAttractionNav {
                            goal_x: v[0],
                            goal_y: v[1],
                            goal_yaw: v[2],
                        }
                    },
                )
            }
        }),
{
    let v = values@;
    let width: int = if id@ == "odometry"@ {
        4
    } else if id@ == "obstacle_force"@ {
        2
    } else if id@ == "human_prior"@ {
        3
    } else {
        0
    };
    if width > 0 && width <= v.len() {
        lemma_first_non_finite_is_first(v.take(width));
        assert forall|i: int|
            0 <= i < width <= v.len() && !#[trigger] v[i].finite() && (forall|j: int|
                0 <= j < i ==> v[j].finite()) implies first_non_finite(v.take(width)) == Some(i) by {
            assert(v.take(width)[i] == v[i]);
            assert forall|j: int| 0 <= j < i implies #[trigger] v.take(width)[j].finite() by {
                assert(v.take(width)[j] == v[j]);
            }
            lemma_first_non_finite(v.take(width), i);
        }
        assert((forall|j: int| 0 <= j < width ==> v[j].finite()) ==> forall|j: int|
            0 <= j < v.take(width).len() ==> #[trigger] v.take(width)[j].finite());
    }
}

/// The router of raw dataflow events.
pub struct EventRouter;

impl EventRouter {
    /// Routes one event: known inputs become typed signals after their shape
    /// and values are checked, a stop event becomes `SystemOffline`, anything
    /// else is `Uncalibrated`.
    pub fn dispatch_event(event: RouterEvent) -> (r: Result<DrivingSignalPayload, RouteError>)
        ensures
            r == route(event),
    {
        match event {
            RouterEvent::Input { id, data } => {
                if id_is(&id, "odometry") {
                    match take_finite_samples(SignalKind::Odometry, &data, 4) {
                        Ok(s) => Ok(
                            DrivingSignalPayload::PhysicalOdometry {
                                x: s[0],
                                y: s[1],
                                yaw: s[2],
                                v: s[3],
                            },
                        ),
                        Err(e) => Err(e),
                    }
                } else if id_is(&id, "obstacle_force") {
                    match take_finite_samples(SignalKind::ObstacleForce, &data, 2) {
                        Ok(s) => Ok(DrivingSignalPayload::ObstacleRepulsionForce { fx: s[0], fy: s[1] }),
                        Err(e) => Err(e),
                    }
                } else if id_is(&id, "human_prior") {
                    match take_finite_samples(SignalKind::HumanPrior, &data, 3) {
                        Ok(s) => Ok(
                            DrivingSignalPayload::SlowBrainAttractionNav {
                                goal_x: s[0],
                                goal_y: s[1],
                                goal_yaw: s[2],
                            },
                        ),
                        Err(e) => Err(e),
                    }
                } else if id_is(&id, "bev_grid") {
                    match data {
                        SignalData::UInt8(cells) => {
                            if cells.len() != BEV_GRID_LEN {
                                Err(RouteError::BevGridSize { expected: BEV_GRID_LEN, got: cells.len() })
                            } else {
                                Ok(DrivingSignalPayload::BevGrid(cells))
                            }
                        },
                        _ => Err(RouteError::WrongArrayType(SignalKind::BevGrid)),
                    }
                } else if id_is(&id, "ttc") {
                    match data {
                        SignalData::Float32(values) => {
                            if values.len() < 1 {
                                Err(RouteError::ArrayTooShort(SignalKind::Ttc))
                            } else {
                                let ttc = values[0];
                                if ttc.is_nan() || ttc.lt(F32Bits(0)) {
                                    Err(RouteError::InvalidTtc(ttc))
                                } else {
                                    Ok(DrivingSignalPayload::NeuralReflexTtc(ttc))
                                }
                            }
                        },
                        _ => Err(RouteError::WrongArrayType(SignalKind::Ttc)),
                    }
                } else {
                    Ok(DrivingSignalPayload::Uncalibrated)
                }
            },
            RouterEvent::Stop => Ok(DrivingSignalPayload::SystemOffline),
            RouterEvent::Other => Ok(DrivingSignalPayload::Uncalibrated),
        }
    }
}

} // verus!
