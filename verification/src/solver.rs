//! Input checks and data layout for the NMPC solver: stage indices, finite
//! vectors of the expected dimensions, the obstacle parameter block, the
//! reference vectors, and the null checks on the solver's handles.
//!
//! The solver itself is a C library reached through raw pointers; the calls
//! into it stay with the caller, which hands the handles over as addresses.
use vstd::prelude::*;

use crate::ieee::F64Bits;

verus! {

/// Dimension of the state `(x, y, yaw, v)`.
pub const STATE_DIM: usize = 4;

/// Dimension of the control `(a, w)`.
pub const CONTROL_DIM: usize = 2;

/// Dimension of a scalar.
pub const SCALAR_DIM: usize = 1;

/// Number of obstacles the compiled solver model accepts.
pub const MAX_OBSTACLES: usize = 3;

/// Size of the obstacle parameter block (`x, y, a, b` per obstacle).
pub const OBSTACLE_PARAM_DIM: usize = 12;

/// Number of shooting intervals; stages run from `0` to this value.
pub const OCP_HORIZON_STAGES: i32 = 20;

/// Bit pattern of `1000.0f64`, the position of an absent obstacle.
pub const ABSENT_OBSTACLE_POSITION: u64 = 0x408f_4000_0000_0000;

/// Bit pattern of `0.1f64`, the half-axes of an absent obstacle.
pub const ABSENT_OBSTACLE_AXIS: u64 = 0x3fb9_9999_9999_999a;

/// The vectors handed to the solver.
#[derive(Clone, Copy, Debug, PartialEq, Eq, Structural)]
pub enum SolverQuantity {
    CurrentState,
    ReferenceTrajectory,
    CurrentVelocity,
    OptimalControl,
    Obstacle,
    ObstacleParameters,
    VelocityIntegration,
}

/// Why the solver refused an input.
#[derive(Clone, Copy, Debug, PartialEq, Eq)]
pub enum SolverError {
    StageOutOfRange { stage: i32 },
    UnexpectedDimension { quantity: SolverQuantity, len: usize },
    NonFinite { quantity: SolverQuantity, index: usize, value: F64Bits },
    TooManyObstacles { max: usize, got: usize },
    NonPositiveAxes { obstacle: usize },
    NullCapsule,
    NullConfig,
    NullDims,
    NullNlpIn,
    NullNlpOut,
}

/// One elliptic obstacle: centre `(x, y)`, half-axes `a` and `b`.
#[derive(Clone, Copy, Debug, PartialEq, Eq)]
pub struct DynamicObstacle {
    pub x: F64Bits,
    pub y: F64Bits,
    pub a: F64Bits,
    pub b: F64Bits,
}

/// `stage` is a stage of the horizon.
pub open spec fn stage_in_horizon(stage: i32) -> bool {
    0 <= stage <= OCP_HORIZON_STAGES
}

/// Accepts the stages `0..=OCP_HORIZON_STAGES`.
pub fn validate_stage(stage: i32) -> (r: Result<(), SolverError>)
    ensures
        r is Ok <==> stage_in_horizon(stage),
        r is Err ==> r == Err::<(), SolverError>(SolverError::StageOutOfRange { stage }),
{
    if 0 <= stage && stage <= OCP_HORIZON_STAGES {
        Ok(())
    } else {
        Err(SolverError::StageOutOfRange { stage })
    }
}

/// Index of the first infinite or NaN value.
pub open spec fn first_non_finite(values: Seq<F64Bits>) -> Option<int>
    decreases values.len(),
{
    if values.len() == 0 {
        None
    } else if !values[0].finite() {
        Some(0)
    } else {
        match first_non_finite(values.drop_first()) {
            Some(i) => Some(i + 1),
            None => None,
        }
    }
}

proof fn lemma_first_non_finite(values: Seq<F64Bits>, i: int)
    requires
        0 <= i <= values.len(),
        forall|j: int| 0 <= j < i ==> values[j].finite(),
    ensures
        i == values.len() ==> first_non_finite(values) is None,
        i < values.len() && !values[i].finite() ==> first_non_finite(values) == Some(i),
    decreases i,
{
    if i > 0 {
        lemma_first_non_finite(values.drop_first(), i - 1);
    }
}

proof fn lemma_all_finite(values: Seq<F64Bits>)
    ensures
        first_non_finite(values) is None <==> forall|j: int|
            0 <= j < values.len() ==> #[trigger] values[j].finite(),
    decreases values.len(),
{
    if values.len() > 0 {
        lemma_all_finite(values.drop_first());
        if first_non_finite(values) is None {
            assert forall|j: int| 0 <= j < values.len() implies #[trigger] values[j].finite() by {
                if j > 0 {
                    assert(values.drop_first()[j - 1] == values[j]);
                }
            }
        }
        if forall|j: int| 0 <= j < values.len() ==> #[trigger] values[j].finite() {
            assert forall|j: int| 0 <= j < values.drop_first().len() implies #[trigger] values.drop_first()[j].finite() by {
                assert(values.drop_first()[j] == values[j + 1]);
            }
        }
    }
}

proof fn lemma_absent_obstacle_finite()
    ensures
        F64Bits(ABSENT_OBSTACLE_POSITION).finite(),
        F64Bits(ABSENT_OBSTACLE_AXIS).finite(),
{
    assert((0x408f_4000_0000_0000u64 >> 52u64) & 0x7ffu64 != 0x7ffu64) by (bit_vector);
    assert((0x3fb9_9999_9999_999au64 >> 52u64) & 0x7ffu64 != 0x7ffu64) by (bit_vector);
}

/// A dimension the solver exchanges.
pub open spec fn known_dimension(len: int) -> bool {
    len == STATE_DIM || len == CONTROL_DIM || len == OBSTACLE_PARAM_DIM || len == SCALAR_DIM
}

/// What `validate_finite_slice` answers.
pub open spec fn finite_slice_check(quantity: SolverQuantity, values: Seq<F64Bits>) -> Result<
    (),
    SolverError,
> {
    if !known_dimension(values.len() as int) {
        Err(SolverError::UnexpectedDimension { quantity, len: values.len() as usize })
    } else {
        match first_non_finite(values) {
            Some(i) => Err(SolverError::NonFinite { quantity, index: i as usize, value: values[i] }),
            None => Ok(()),
        }
    }
}

/// Accepts a vector of one of the exchanged dimensions whose values are all
/// finite; otherwise names the dimension or the first bad value.
pub fn validate_finite_slice(quantity: SolverQuantity, values: &[F64Bits]) -> (r: Result<
    (),
    SolverError,
>)
    ensures
        r == finite_slice_check(quantity, values@),
{
    let len = values.len();
    if !(len == STATE_DIM || len == CONTROL_DIM || len == OBSTACLE_PARAM_DIM || len == SCALAR_DIM) {
        return Err(SolverError::UnexpectedDimension { quantity, len });
    }
    let mut i: usize = 0;
    while i < len
        invariant
            len == values@.len(),
            known_dimension(len as int),
            0 <= i <= len,
            forall|j: int| 0 <= j < i ==> values@[j].finite(),
        decreases len - i,
    {
        if !values[i].is_finite() {
            proof {
                lemma_first_non_finite(values@, i as int);
            }
            return Err(SolverError::NonFinite { quantity, index: i, value: values[i] });
        }
        i = i + 1;
    }
    proof {
        lemma_first_non_finite(values@, i as int);
    }
    Ok(())
}

/// The values of an obstacle, in parameter order.
pub open spec fn obstacle_values(o: DynamicObstacle) -> Seq<F64Bits> {
    seq![o.x, o.y, o.a, o.b]
}

/// Obstacle `i` is finite with positive half-axes.
pub open spec fn obstacle_ok(o: DynamicObstacle) -> bool {
    &&& o.x.finite() && o.y.finite() && o.a.finite() && o.b.finite()
    &&& !o.a.at_most(F64Bits::zero())
    &&& !o.b.at_most(F64Bits::zero())
}

/// Why obstacle `i` is rejected.
pub open spec fn obstacle_error(o: DynamicObstacle, i: int) -> SolverError {
    match finite_slice_check(SolverQuantity::Obstacle, obstacle_values(o)) {
        Err(e) => e,
        Ok(_) => SolverError::NonPositiveAxes { obstacle: i as usize },
    }
}

/// Parameter `k` of the block built from valid obstacles: the obstacles in
/// order, then absent obstacles far away with small half-axes.
pub open spec fn obstacle_parameter(obstacles: Seq<DynamicObstacle>, k: int) -> F64Bits {
    let i = k / 4;
    let field = k % 4;
    if i < obstacles.len() {
        obstacle_values(obstacles[i])[field]
    } else if field < 2 {
        F64Bits(ABSENT_OBSTACLE_POSITION)
    } else {
        F64Bits(ABSENT_OBSTACLE_AXIS)
    }
}

/// What `build_obstacle_params` answers.
pub open spec fn obstacle_params_outcome(
    obstacles: Seq<DynamicObstacle>,
    r: Result<Vec<F64Bits>, SolverError>,
) -> bool {
    if obstacles.len() > MAX_OBSTACLES {
        r == Err::<Vec<F64Bits>, SolverError>(
            SolverError::TooManyObstacles { max: MAX_OBSTACLES, got: obstacles.len() as usize },
        )
    } else {
        ||| ({
            &&& forall|i: int| 0 <= i < obstacles.len() ==> obstacle_ok(obstacles[i])
            &&& r is Ok
            &&& r->Ok_0@ == Seq::new(
                OBSTACLE_PARAM_DIM as nat,
                |k: int| obstacle_parameter(obstacles, k),
            )
        })
        ||| exists|i: int|
            0 <= i < obstacles.len() && (forall|j: int|
                0 <= j < i ==> obstacle_ok(obstacles[j])) && !obstacle_ok(obstacles[i]) && r
                == Err::<Vec<F64Bits>, SolverError>(obstacle_error(obstacles[i], i))
    }
}

/// Builds the parameter block of the obstacle constraints: up to
/// `MAX_OBSTACLES` obstacles, each finite with positive half-axes, padded with
/// absent obstacles.
pub fn build_obstacle_params(obstacles: &[DynamicObstacle]) -> (r: Result<
    Vec<F64Bits>,
    SolverError,
>)
    ensures
        obstacle_params_outcome(obstacles@, r),
{
    let n = obstacles.len();
    if n > MAX_OBSTACLES {
        return Err(SolverError::TooManyObstacles { max: MAX_OBSTACLES, got: n });
    }
    let ghost target = Seq::new(
        OBSTACLE_PARAM_DIM as nat,
        |k: int| obstacle_parameter(obstacles@, k),
    );
    let mut p: Vec<F64Bits> = Vec::new();
    let mut i: usize = 0;
    while i < MAX_OBSTACLES
        invariant
            n == obstacles@.len(),
            n <= MAX_OBSTACLES,
            i <= MAX_OBSTACLES,
            p@.len() == 4 * i,
            forall|j: int| 0 <= j < i && j < n ==> obstacle_ok(obstacles@[j]),
            forall|k: int| 0 <= k < 4 * i ==> p@[k] == #[trigger] obstacle_parameter(obstacles@, k),
        decreases MAX_OBSTACLES - i,
    {
        if i < n {
            let o = obstacles[i];
            let values = [o.x, o.y, o.a, o.b];
            assert(values@ == obstacle_values(o));
            proof {
                lemma_all_finite(values@);
            }
            match validate_finite_slice(SolverQuantity::Obstacle, &values) {
                Ok(_) => {},
                Err(e) => {
                    assert(!obstacle_ok(o)) by {
                        assert(!values@[0].finite() || !values@[1].finite() || !values@[2].finite()
                            || !values@[3].finite());
                    }
                    assert(obstacle_error(o, i as int) == e);
                    assert(0 <= i < obstacles@.len() && (forall|j: int|
                        0 <= j < i ==> obstacle_ok(obstacles@[j])) && !obstacle_ok(obstacles@[i as int]));
                    return Err(e);
                },
            }
            assert(values@[0].finite() && values@[1].finite() && values@[2].finite()
                && values@[3].finite());
            let zero = F64Bits(0);
            if o.a.le(zero) || o.b.le(zero) {
                assert(obstacle_error(o, i as int) == SolverError::NonPositiveAxes { obstacle: i });
                assert(0 <= i < obstacles@.len() && (forall|j: int|
                    0 <= j < i ==> obstacle_ok(obstacles@[j])) && !obstacle_ok(obstacles@[i as int]));
                return Err(SolverError::NonPositiveAxes { obstacle: i });
            }
            p.push(o.x);
            p.push(o.y);
            p.push(o.a);
            p.push(o.b);
        } else {
            p.push(F64Bits(ABSENT_OBSTACLE_POSITION));
            p.push(F64Bits(ABSENT_OBSTACLE_POSITION));
            p.push(F64Bits(ABSENT_OBSTACLE_AXIS));
            p.push(F64Bits(ABSENT_OBSTACLE_AXIS));
        }
        proof {
            assert forall|k: int| 0 <= k < 4 * (i + 1) implies p@[k]
                == #[trigger] obstacle_parameter(obstacles@, k) by {
                if k >= 4 * i {
                    assert(k / 4 == i as int);
                    assert(k % 4 == k - 4 * i);
                }
            }
        }
        i = i + 1;
    }
    assert(p@ =~= target);
    proof {
        lemma_absent_obstacle_finite();
        assert forall|k: int| 0 <= k < p@.len() implies #[trigger] p@[k].finite() by {
            assert(p@[k] == obstacle_parameter(obstacles@, k));
            if k / 4 < n {
                assert(obstacle_ok(obstacles@[k / 4]));
            }
        }
        lemma_all_finite(p@);
    }
    match validate_finite_slice(SolverQuantity::ObstacleParameters, p.as_slice()) {
        Ok(_) => Ok(p),
        Err(e) => Err(e),
    }
}

/// The stages a reference or parameter may be set at are exactly `0..=20`.
pub proof fn lemma_horizon_is_twenty_stages(stage: i32)
    ensures
        stage_in_horizon(stage) <==> 0 <= stage <= 20,
{
}

/// More than three obstacles, or an obstacle with a non-finite value or a
/// half-axis `<= 0`, is refused.
pub proof fn lemma_obstacle_block_refuses_bad_obstacles(
    obstacles: Seq<DynamicObstacle>,
    r: Result<Vec<F64Bits>, SolverError>,
    i: int,
)
    requires
        obstacle_params_outcome(obstacles, r),
    ensures
        obstacles.len() > 3 ==> r is Err,
        0 <= i < obstacles.len() && ({
            let o = obstacles[i];
            !o.x.finite() || !o.y.finite() || !o.a.finite() || !o.b.finite() || o.a.at_most(
                F64Bits::zero(),
            ) || o.b.at_most(F64Bits::zero())
        }) ==> r is Err,
{
    if 0 <= i < obstacles.len() && r is Ok && obstacles.len() <= 3 {
        assert(obstacle_ok(obstacles[i]));
    }
}

proof fn lemma_block_slot(i: int, f: int)
    requires
        0 <= i,
        0 <= f < 4,
    ensures
        (4 * i + f) / 4 == i,
        (4 * i + f) % 4 == f,
{
}

/// A built obstacle block has twelve finite values: each given obstacle's
/// `(x, y, a, b)` in order, with positive half-axes, then absent obstacles at
/// `(1000, 1000)` with half-axes `0.1`.
pub proof fn lemma_obstacle_block_is_safe(
    obstacles: Seq<DynamicObstacle>,
    r: Result<Vec<F64Bits>, SolverError>,
)
    requires
        obstacle_params_outcome(obstacles, r),
        r is Ok,
    ensures
        ({
            let p = r->Ok_0@;
            &&& obstacles.len() <= 3
            &&& p.len() == 12
            &&& forall|k: int| 0 <= k < 12 ==> (#[trigger] p[k]).finite()
            &&& forall|i: int|
                0 <= i < obstacles.len() ==> {
                    &&& p[4 * i] == (#[trigger] obstacles[i]).x
                    &&& p[4 * i + 1] == obstacles[i].y
                    &&& p[4 * i + 2] == obstacles[i].a
                    &&& p[4 * i + 3] == obstacles[i].b
                    &&& F64Bits::zero().less_than(obstacles[i].a)
                    &&& F64Bits::zero().less_than(obstacles[i].b)
                }
            &&& forall|i: int|
                obstacles.len() <= i < 3 ==> {
                    &&& #[trigger] p[4 * i] == F64Bits(0x408f_4000_0000_0000u64)
                    &&& p[4 * i + 1] == F64Bits(0x408f_4000_0000_0000u64)
                    &&& p[4 * i + 2] == F64Bits(0x3fb9_9999_9999_999au64)
                    &&& p[4 * i + 3] == F64Bits(0x3fb9_9999_9999_999au64)
                }
        }),
{
    lemma_ok_block(obstacles, r);
    lemma_block_contents(obstacles, r->Ok_0@);
}

proof fn lemma_ok_block(obstacles: Seq<DynamicObstacle>, r: Result<Vec<F64Bits>, SolverError>)
    requires
        obstacle_params_outcome(obstacles, r),
        r is Ok,
    ensures
        obstacles.len() <= 3,
        forall|i: int| 0 <= i < obstacles.len() ==> obstacle_ok(#[trigger] obstacles[i]),
        r->Ok_0@ == Seq::new(12nat, |k: int| obstacle_parameter(obstacles, k)),
{
}

proof fn lemma_block_slot_value(obstacles: Seq<DynamicObstacle>, i: int, f: int)
    requires
        0 <= i < 3,
        0 <= f < 4,
    ensures
        obstacle_parameter(obstacles, 4 * i + f) == (if i < obstacles.len() {
            obstacle_values(obstacles[i])[f]
        } else if f < 2 {
            F64Bits(ABSENT_OBSTACLE_POSITION)
        } else {
            F64Bits(ABSENT_OBSTACLE_AXIS)
        }),
{
    lemma_block_slot(i, f);
}

proof fn lemma_block_contents(obstacles: Seq<DynamicObstacle>, p: Seq<F64Bits>)
    requires
        obstacles.len() <= 3,
        forall|i: int| 0 <= i < obstacles.len() ==> obstacle_ok(#[trigger] obstacles[i]),
        p == Seq::new(12nat, |k: int| obstacle_parameter(obstacles, k)),
    ensures
        p.len() == 12,
        forall|k: int| 0 <= k < 12 ==> (#[trigger] p[k]).finite(),
        forall|i: int|
            0 <= i < obstacles.len() ==> {
                &&& p[4 * i] == (#[trigger] obstacles[i]).x
                &&& p[4 * i + 1] == obstacles[i].y
                &&& p[4 * i + 2] == obstacles[i].a
                &&& p[4 * i + 3] == obstacles[i].b
                &&& F64Bits::zero().less_than(obstacles[i].a)
                &&& F64Bits::zero().less_than(obstacles[i].b)
            },
        forall|i: int|
            obstacles.len() <= i < 3 ==> {
                &&& #[trigger] p[4 * i] == F64Bits(0x408f_4000_0000_0000u64)
                &&& p[4 * i + 1] == F64Bits(0x408f_4000_0000_0000u64)
                &&& p[4 * i + 2] == F64Bits(0x3fb9_9999_9999_999au64)
                &&& p[4 * i + 3] == F64Bits(0x3fb9_9999_9999_999au64)
            },
{
    lemma_absent_obstacle_finite();
    crate::ieee::lemma_zero_is_origin();
    assert forall|i: int, f: int| 0 <= i < 3 && 0 <= f < 4 implies #[trigger] p[4 * i + f]
        == (if i < obstacles.len() {
        obstacle_values(obstacles[i])[f]
    } else if f < 2 {
        F64Bits(ABSENT_OBSTACLE_POSITION)
    } else {
        F64Bits(ABSENT_OBSTACLE_AXIS)
    }) by {
        lemma_block_slot_value(obstacles, i, f);
    }
    assert forall|k: int| 0 <= k < 12 implies (#[trigger] p[k]).finite() by {
        let i = k / 4;
        let f = k % 4;
        assert(k == 4 * i + f);
        assert(p[4 * i + f] == p[k]);
        if i < obstacles.len() {
            assert(obstacle_ok(obstacles[i]));
        }
    }
    assert forall|i: int| 0 <= i < obstacles.len() implies {
        &&& p[4 * i] == (#[trigger] obstacles[i]).x
        &&& p[4 * i + 1] == obstacles[i].y
        &&& p[4 * i + 2] == obstacles[i].a
        &&& p[4 * i + 3] == obstacles[i].b
        &&& F64Bits::zero().less_than(obstacles[i].a)
        &&& F64Bits::zero().less_than(obstacles[i].b)
    } by {
        assert(obstacle_ok(obstacles[i]));
        assert(p[4 * i + 0] == obstacle_values(obstacles[i])[0]);
        assert(p[4 * i + 1] == obstacle_values(obstacles[i])[1]);
        assert(p[4 * i + 2] == obstacle_values(obstacles[i])[2]);
        assert(p[4 * i + 3] == obstacle_values(obstacles[i])[3]);
    }
    assert forall|i: int| obstacles.len() <= i < 3 implies {
        &&& #[trigger] p[4 * i] == F64Bits(0x408f_4000_0000_0000u64)
        &&& p[4 * i + 1] == F64Bits(0x408f_4000_0000_0000u64)
        &&& p[4 * i + 2] == F64Bits(0x3fb9_9999_9999_999au64)
        &&& p[4 * i + 3] == F64Bits(0x3fb9_9999_9999_999au64)
    } by {
        assert(p[4 * i + 0] == F64Bits(ABSENT_OBSTACLE_POSITION));
        assert(p[4 * i + 1] == F64Bits(ABSENT_OBSTACLE_POSITION));
        assert(p[4 * i + 2] == F64Bits(ABSENT_OBSTACLE_AXIS));
        assert(p[4 * i + 3] == F64Bits(ABSENT_OBSTACLE_AXIS));
    }
}

/// A reference vector is laid out only for a stage in `0..=20` and finite
/// values: `(x, y, yaw, v)` at the last stage, `(x, y, yaw, v, 0, 0)` before.
pub proof fn lemma_reference_vector_layout(
    stage: i32,
    point: Seq<F64Bits>,
)
    requires
        point.len() == 4,
    ensures
        ({
            let r = reference_vector(stage, point);
            &&& stage == 20 ==> r == point
            &&& stage != 20 ==> r.len() == 6 && r.take(4) == point && r[4] == F64Bits(0u64)
                && r[5] == F64Bits(0u64)
        }),
        finite_slice_check(SolverQuantity::ReferenceTrajectory, point) is Ok <==> forall|j: int|
            0 <= j < 4 ==> #[trigger] point[j].finite(),
{
    lemma_all_finite(point);
    assert((point + seq![F64Bits::zero(), F64Bits::zero()]).take(4) =~= point);
}

/// The reference vector of a stage: `(x, y, yaw, v)` at the last stage,
/// `(x, y, yaw, v, 0, 0)` (with zero control reference) before it.
pub open spec fn reference_vector(stage: i32, point: Seq<F64Bits>) -> Seq<F64Bits> {
    if stage == OCP_HORIZON_STAGES {
        point
    } else {
        point + seq![F64Bits::zero(), F64Bits::zero()]
    }
}

/// Checks a reference point for `stage` and lays out its reference vector.
pub fn reference_point(
    stage: i32,
    ref_x: F64Bits,
    ref_y: F64Bits,
    ref_yaw: F64Bits,
    ref_v: F64Bits,
) -> (r: Result<Vec<F64Bits>, SolverError>)
    ensures
        !stage_in_horizon(stage) ==> r == Err::<Vec<F64Bits>, SolverError>(
            SolverError::StageOutOfRange { stage },
        ),
        stage_in_horizon(stage) ==> match finite_slice_check(
            SolverQuantity::ReferenceTrajectory,
            seq![ref_x, ref_y, ref_yaw, ref_v],
        ) {
            Err(e) => r == Err::<Vec<F64Bits>, SolverError>(e),
            Ok(_) => r is Ok && r->Ok_0@ == reference_vector(
                stage,
                seq![ref_x, ref_y, ref_yaw, ref_v],
            ),
        },
{
    match validate_stage(stage) {
        Ok(_) => {},
        Err(e) => {
            return Err(e);
        },
    }
    let point = [ref_x, ref_y, ref_yaw, ref_v];
    assert(point@ == seq![ref_x, ref_y, ref_yaw, ref_v]);
    match validate_finite_slice(SolverQuantity::ReferenceTrajectory, &point) {
        Ok(_) => {},
        Err(e) => {
            return Err(e);
        },
    }
    let mut yref: Vec<F64Bits> = Vec::new();
    yref.push(ref_x);
    yref.push(ref_y);
    yref.push(ref_yaw);
    yref.push(ref_v);
    if stage != OCP_HORIZON_STAGES {
        yref.push(F64Bits(0));
        yref.push(F64Bits(0));
    }
    assert(yref@ =~= reference_vector(stage, seq![ref_x, ref_y, ref_yaw, ref_v]));
    Ok(yref)
}

/// Addresses of the solver's NLP handles, as returned by the solver.
#[derive(Clone, Copy, Debug, PartialEq, Eq)]
pub struct NlpHandleAddresses {
    pub config: usize,
    pub dims: usize,
    pub nlp_in: usize,
    pub nlp_out: usize,
}

/// The solver, by the address of its memory capsule (`0` when null).
#[derive(Clone, Copy, Debug, PartialEq, Eq)]
pub struct MpcSolver {
    pub capsule: usize,
}

impl MpcSolver {
    /// Fails when the capsule is null.
    pub fn ensure_capsule(&self) -> (r: Result<(), SolverError>)
        ensures
            r is Ok <==> self.capsule != 0,
            r is Err ==> r == Err::<(), SolverError>(SolverError::NullCapsule),
    {
        if self.capsule == 0 {
            Err(SolverError::NullCapsule)
        } else {
            Ok(())
        }
    }

    /// Checks the handles fetched from the capsule, in order; the output
    /// handle only when `require_out`.
    pub fn check_nlp_handles(&self, handles: NlpHandleAddresses, require_out: bool) -> (r: Result<
        NlpHandleAddresses,
        SolverError,
    >)
        ensures
            r == (if self.capsule == 0 {
                Err(SolverError::NullCapsule)
            } else if handles.config == 0 {
                Err(SolverError::NullConfig)
            } else if handles.dims == 0 {
                Err(SolverError::NullDims)
            } else if handles.nlp_in == 0 {
                Err(SolverError::NullNlpIn)
            } else if require_out && handles.nlp_out == 0 {
                Err(SolverError::NullNlpOut)
            } else {
                Ok(handles)
            }),
    {
        match self.ensure_capsule() {
            Ok(_) => {},
            Err(e) => {
                return Err(e);
            },
        }
        if handles.config == 0 {
            return Err(SolverError::NullConfig);
        }
        if handles.dims == 0 {
            return Err(SolverError::NullDims);
        }
        if handles.nlp_in == 0 {
            return Err(SolverError::NullNlpIn);
        }
        if require_out && handles.nlp_out == 0 {
            return Err(SolverError::NullNlpOut);
        }
        Ok(handles)
    }
}

} // verus!
