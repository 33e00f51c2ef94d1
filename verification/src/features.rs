//! Sparse visual features: decoding a frame of XFeat features from its
//! columnar form, and restoring the stored fingerprint of a map node.
use vstd::prelude::*;

use crate::ieee::F32Bits;

verus! {

/// Width of an XFeat descriptor.
pub const XFEAT_DESCRIPTOR_DIM: usize = 64;

/// Number of coordinates of a keypoint.
pub const KEYPOINT_COORD_DIM: usize = 2;

/// Bit pattern of `1.0f32`.
pub const F32_ONE: u32 = 0x3f80_0000;

/// One keypoint with its confidence and descriptor.
#[derive(Clone, Debug, PartialEq, Eq)]
pub struct SparseFeature {
    pub x: F32Bits,
    pub y: F32Bits,
    pub confidence: F32Bits,
    pub descriptor: Vec<F32Bits>,
}

/// A feature as values.
pub struct FeatureView {
    pub x: F32Bits,
    pub y: F32Bits,
    pub confidence: F32Bits,
    pub descriptor: Seq<F32Bits>,
}

impl View for SparseFeature {
    type V = FeatureView;

    open spec fn view(&self) -> FeatureView {
        FeatureView {
            x: self.x,
            y: self.y,
            confidence: self.confidence,
            descriptor: self.descriptor@,
        }
    }
}

/// The views of a list of features.
pub open spec fn feature_views(features: Seq<SparseFeature>) -> Seq<FeatureView> {
    features.map_values(|f: SparseFeature| f@)
}

/// The visual fingerprint stored in a map node: flattened descriptors and
/// flattened `(x, y)` keypoints.
#[derive(Clone, Debug, PartialEq, Eq, Default)]
pub struct NodeFingerprint {
    pub descriptors: Vec<F32Bits>,
    pub keypoints: Vec<F32Bits>,
}

/// The stored descriptors split into whole descriptors, with exactly one
/// keypoint for each.
pub open spec fn fingerprint_well_shaped(descriptors: Seq<F32Bits>, keypoints: Seq<F32Bits>) -> bool {
    &&& descriptors.len() != 0
    &&& descriptors.len() % 64 == 0
    &&& keypoints.len() == (descriptors.len() / 64) * 2
}

/// Feature `k` of a well-shaped fingerprint.
pub open spec fn fingerprint_feature(
    descriptors: Seq<F32Bits>,
    keypoints: Seq<F32Bits>,
    k: int,
) -> FeatureView {
    FeatureView {
        x: keypoints[2 * k],
        y: keypoints[2 * k + 1],
        confidence: F32Bits(F32_ONE),
        descriptor: descriptors.subrange(64 * k, 64 * k + 64),
    }
}

/// Restores the features of a stored fingerprint, one per descriptor, with
/// confidence `1.0`; a fingerprint whose descriptors and keypoints do not
/// pair up gives no feature.
pub fn recover_history_visual_fingerprint(node: &NodeFingerprint) -> (r: Vec<SparseFeature>)
    ensures
        fingerprint_well_shaped(node.descriptors@, node.keypoints@) ==> feature_views(r@)
            == Seq::new(
            node.descriptors@.len() / 64,
            |k: int| fingerprint_feature(node.descriptors@, node.keypoints@, k),
        ),
        !fingerprint_well_shaped(node.descriptors@, node.keypoints@) ==> r@.len() == 0,
{
    let dlen = node.descriptors.len();
    if dlen == 0 || dlen % XFEAT_DESCRIPTOR_DIM != 0 || node.keypoints.len() != (dlen
        / XFEAT_DESCRIPTOR_DIM) * KEYPOINT_COORD_DIM {
        return Vec::new();
    }
    let count = dlen / XFEAT_DESCRIPTOR_DIM;
    let ghost target = Seq::new(
        count as nat,
        |k: int| fingerprint_feature(node.descriptors@, node.keypoints@, k),
    );
    let mut features: Vec<SparseFeature> = Vec::new();
    let mut k: usize = 0;
    while k < count
        invariant
            count == node.descriptors@.len() / 64,
            node.descriptors@.len() == dlen,
            dlen % 64 == 0,
            node.keypoints@.len() == count * 2,
            k <= count,
            target.len() == count,
            forall|j: int| 0 <= j < count ==> #[trigger] target[j] == fingerprint_feature(node.descriptors@, node.keypoints@, j),
            feature_views(features@) == target.take(k as int),
        decreases count - k,
    {
        assert(64 * k + 64 <= dlen) by (nonlinear_arith)
            requires
                k < count,
                count == dlen / 64,
                dlen % 64 == 0,
        ;
        let base = k * XFEAT_DESCRIPTOR_DIM;
        let mut descriptor: Vec<F32Bits> = Vec::new();
        let mut o: usize = 0;
        while o < XFEAT_DESCRIPTOR_DIM
            invariant
                base + 64 <= node.descriptors@.len(),
                node.descriptors@.len() == dlen,
                o <= 64,
                descriptor@ == node.descriptors@.subrange(base as int, base + o),
            decreases 64 - o,
        {
            descriptor.push(node.descriptors[base + o]);
            o = o + 1;
            assert(descriptor@ =~= node.descriptors@.subrange(base as int, base + o));
        }
        let feature = SparseFeature {
            x: node.keypoints[2 * k],
            y: node.keypoints[2 * k + 1],
            confidence: F32Bits(F32_ONE),
            descriptor,
        };
        let ghost before = features@;
        features.push(feature);
        proof {
            assert(feature_views(features@) =~= feature_views(before).push(feature@));
            assert(feature@ == target[k as int]);
            assert(target.take(k + 1) =~= target.take(k as int).push(target[k as int]));
        }
        k = k + 1;
    }
    proof {
        assert(target.take(count as int) =~= target);
    }
    features
}

/// A `Float32Array`: the bit patterns of its values and its validity bitmap,
/// `None` when the array carries no null buffer (every slot is valid).
#[derive(Clone, Debug, PartialEq, Eq)]
pub struct Float32Column {
    pub values: Vec<F32Bits>,
    pub validity: Option<Vec<bool>>,
}

/// A column of a struct array.
#[derive(Clone, Debug, PartialEq, Eq)]
pub enum ColumnData {
    /// A `Float32Array`.
    Float32(Float32Column),
    /// A `FixedSizeListArray` of `rows` lists of `value_length` values each,
    /// with the validity bitmap of its lists and its child array `values`.
    FixedSizeList {
        value_length: i32,
        rows: usize,
        validity: Option<Vec<bool>>,
        values: ListValues,
    },
    /// Any other array type.
    Other,
}

/// The child array of a fixed-size list column.
#[derive(Clone, Debug, PartialEq, Eq)]
pub enum ListValues {
    Float32(Float32Column),
    Other,
}

/// A struct array: named columns, in order.
#[derive(Clone, Debug, PartialEq, Eq)]
pub struct StructColumns {
    pub columns: Vec<(String, ColumnData)>,
}

/// The scalar columns of a feature frame.
#[derive(Clone, Copy, Debug, PartialEq, Eq, Structural)]
pub enum XfeatColumn {
    X,
    Y,
    Score,
}

impl XfeatColumn {
    pub open spec fn name_spec(self) -> Seq<char> {
        match self {
            XfeatColumn::X => "x"@,
            XfeatColumn::Y => "y"@,
            XfeatColumn::Score => "score"@,
        }
    }

    /// The column's name in the struct array.
    pub fn name(&self) -> (s: &'static str)
        ensures
            s@ == self.name_spec(),
    {
        match self {
            XfeatColumn::X => "x",
            XfeatColumn::Y => "y",
            XfeatColumn::Score => "score",
        }
    }
}

/// Why a frame of features was rejected.
#[derive(Clone, Copy, Debug, PartialEq, Eq)]
pub enum DecodeError {
    MissingColumn(XfeatColumn),
    ColumnNotFloat32(XfeatColumn),
    ColumnLengthMismatch { x: usize, y: usize, score: usize },
    MissingDescriptorColumn,
    DescriptorNotFixedSizeList,
    DescriptorLengthMismatch { rows: usize, descriptors: usize },
    DescriptorWidth { width: i32 },
    DescriptorChildNotFloat32,
    NullValues(FrameColumn),
    NonFiniteKeypoint { row: usize },
    NonFiniteDescriptor { row: usize },
}

/// The arrays of a feature frame, as named in a null-slot error.
#[derive(Clone, Copy, Debug, PartialEq, Eq, Structural)]
pub enum FrameColumn {
    X,
    Y,
    Score,
    /// The descriptor lists themselves.
    Descriptor,
    /// The values inside the descriptor lists.
    DescriptorValues,
}

/// Index of the first column named `name`.
pub open spec fn column_position(columns: Seq<(String, ColumnData)>, name: Seq<char>) -> Option<int>
    decreases columns.len(),
{
    if columns.len() == 0 {
        None
    } else if columns[0].0@ == name {
        Some(0)
    } else {
        match column_position(columns.drop_first(), name) {
            Some(i) => Some(i + 1),
            None => None,
        }
    }
}

proof fn lemma_column_position(columns: Seq<(String, ColumnData)>, name: Seq<char>, i: int)
    requires
        0 <= i <= columns.len(),
        forall|j: int| 0 <= j < i ==> columns[j].0@ != name,
    ensures
        i == columns.len() ==> column_position(columns, name) is None,
        i < columns.len() && columns[i].0@ == name ==> column_position(columns, name) == Some(i),
    decreases i,
{
    if i > 0 {
        lemma_column_position(columns.drop_first(), name, i - 1);
    }
}

proof fn lemma_column_position_bounds(columns: Seq<(String, ColumnData)>, name: Seq<char>)
    ensures
        column_position(columns, name) matches Some(i) ==> 0 <= i < columns.len()
            && columns[i].0@ == name,
    decreases columns.len(),
{
    if columns.len() > 0 {
        lemma_column_position_bounds(columns.drop_first(), name);
    }
}

/// The column named `name`, if any (the first one).
pub open spec fn column_named(columns: Seq<(String, ColumnData)>, name: Seq<char>) -> Option<ColumnData> {
    match column_position(columns, name) {
        Some(i) => Some(columns[i].1),
        None => None,
    }
}

/// What `struct_column_f32` answers.
pub open spec fn float_column(columns: Seq<(String, ColumnData)>, column: XfeatColumn) -> Result<
    Float32Column,
    DecodeError,
> {
    match column_named(columns, column.name_spec()) {
        Some(ColumnData::Float32(c)) => Ok(c),
        Some(_) => Err(DecodeError::ColumnNotFloat32(column)),
        None => Err(DecodeError::MissingColumn(column)),
    }
}

fn find_column<'a>(array: &'a StructColumns, name: &str) -> (r: Option<&'a ColumnData>)
    ensures
        match (r, column_named(array.columns@, name@)) {
            (Some(c), Some(d)) => *c == d,
            (None, None) => true,
            _ => false,
        },
{
    let mut i: usize = 0;
    while i < array.columns.len()
        invariant
            0 <= i <= array.columns@.len(),
            forall|j: int| 0 <= j < i ==> array.columns@[j].0@ != name@,
        decreases array.columns@.len() - i,
    {
        let wanted = name.to_owned();
        if array.columns[i].0 == wanted {
            proof {
                lemma_column_position(array.columns@, name@, i as int);
            }
            return Some(&array.columns[i].1);
        }
        i = i + 1;
    }
    proof {
        lemma_column_position(array.columns@, name@, i as int);
    }
    None
}

/// The column `column`, which must be a `Float32Array`.
pub fn struct_column_f32<'a>(array: &'a StructColumns, column: XfeatColumn) -> (r: Result<
    &'a Float32Column,
    DecodeError,
>)
    ensures
        match (r, float_column(array.columns@, column)) {
            (Ok(v), Ok(s)) => *v == s,
            (Err(e), Err(f)) => e == f,
            _ => false,
        },
{
    match find_column(array, column.name()) {
        Some(ColumnData::Float32(values)) => Ok(values),
        Some(_) => Err(DecodeError::ColumnNotFloat32(column)),
        None => Err(DecodeError::MissingColumn(column)),
    }
}

/// Arrow's own guarantee on a fixed-size list column: its `Float32` child
/// holds `value_length` values for every row.
pub open spec fn lists_complete(array: StructColumns) -> bool {
    forall|i: int|
        0 <= i < array.columns@.len() ==> match #[trigger] array.columns@[i].1 {
            ColumnData::FixedSizeList { value_length, rows, values: ListValues::Float32(c), .. } => (
            value_length >= 0 ==> c.values@.len() >= rows * value_length),
            _ => true,
        }
}

/// One of the first `n` slots is null. A validity bitmap shorter than `n`
/// counts its missing slots as null.
pub open spec fn has_null(validity: Option<Vec<bool>>, n: int) -> bool {
    match validity {
        Some(v) => exists|i: int| 0 <= i < n && !#[trigger] slot_valid(v@, i),
        None => false,
    }
}

/// Slot `i` is present in the bitmap and marked valid.
pub open spec fn slot_valid(bitmap: Seq<bool>, i: int) -> bool {
    i < bitmap.len() && bitmap[i]
}

/// The first array of the frame, in the order `x`, `y`, `score`, descriptor
/// lists, descriptor values, that has a null slot among the `n` rows.
pub open spec fn null_column(
    x: Float32Column,
    y: Float32Column,
    s: Float32Column,
    lists: Option<Vec<bool>>,
    child: Float32Column,
    n: int,
) -> Option<FrameColumn> {
    if has_null(x.validity, n) {
        Some(FrameColumn::X)
    } else if has_null(y.validity, n) {
        Some(FrameColumn::Y)
    } else if has_null(s.validity, n) {
        Some(FrameColumn::Score)
    } else if has_null(lists, n) {
        Some(FrameColumn::Descriptor)
    } else if has_null(child.validity, 64 * n) {
        Some(FrameColumn::DescriptorValues)
    } else {
        None
    }
}

fn has_null_slot(validity: &Option<Vec<bool>>, n: usize) -> (r: bool)
    ensures
        r == has_null(*validity, n as int),
{
    match validity {
        None => false,
        Some(v) => {
            assert(*validity == Some(*v));
            let mut i: usize = 0;
            while i < n
                invariant
                    i <= n,
                    *validity == Some(*v),
                    forall|j: int| 0 <= j < i ==> #[trigger] slot_valid(v@, j),
                decreases n - i,
            {
                if i >= v.len() || !v[i] {
                    assert(validity->0 == *v);
                    assert(!slot_valid(validity->0@, i as int));
                    return true;
                }
                i = i + 1;
            }
            false
        },
    }
}

/// Row `i` has a finite keypoint and confidence.
pub open spec fn keypoint_finite(x: Seq<F32Bits>, y: Seq<F32Bits>, s: Seq<F32Bits>, i: int) -> bool {
    x[i].finite() && y[i].finite() && s[i].finite()
}

/// The descriptor of row `i` is finite.
pub open spec fn descriptor_finite(child: Seq<F32Bits>, i: int) -> bool {
    forall|o: int| 0 <= o < 64 ==> #[trigger] child[64 * i + o].finite()
}

pub open spec fn row_ok(x: Seq<F32Bits>, y: Seq<F32Bits>, s: Seq<F32Bits>, child: Seq<F32Bits>, i: int) -> bool {
    keypoint_finite(x, y, s, i) && descriptor_finite(child, i)
}

/// Why row `i` is rejected.
pub open spec fn row_error(x: Seq<F32Bits>, y: Seq<F32Bits>, s: Seq<F32Bits>, i: int) -> DecodeError {
    if !keypoint_finite(x, y, s, i) {
        DecodeError::NonFiniteKeypoint { row: i as usize }
    } else {
        DecodeError::NonFiniteDescriptor { row: i as usize }
    }
}

/// The feature of row `i`.
pub open spec fn row_feature(x: Seq<F32Bits>, y: Seq<F32Bits>, s: Seq<F32Bits>, child: Seq<F32Bits>, i: int) -> FeatureView {
    FeatureView {
        x: x[i],
        y: y[i],
        confidence: s[i],
        descriptor: child.subrange(64 * i, 64 * i + 64),
    }
}

/// The rows decode to `r`: all `n` features when every row is finite, else
/// the error of the first rejected row.
pub open spec fn rows_decoded(
    x: Seq<F32Bits>,
    y: Seq<F32Bits>,
    s: Seq<F32Bits>,
    child: Seq<F32Bits>,
    n: int,
    r: Result<Vec<SparseFeature>, DecodeError>,
) -> bool {
    ||| ({
        &&& forall|i: int| 0 <= i < n ==> row_ok(x, y, s, child, i)
        &&& r is Ok
        &&& feature_views(r->Ok_0@) == Seq::new(n as nat, |i: int| row_feature(x, y, s, child, i))
    })
    ||| exists|i: int|
        0 <= i < n && (forall|j: int| 0 <= j < i ==> row_ok(x, y, s, child, j)) && !row_ok(
            x,
            y,
            s,
            child,
            i,
        ) && r == Err::<Vec<SparseFeature>, DecodeError>(row_error(x, y, s, i))
}

/// What decoding a frame gives: the first structural problem, in the order
/// the columns are checked, or the decoded rows.
pub open spec fn decode_outcome(array: StructColumns, r: Result<Vec<SparseFeature>, DecodeError>) -> bool {
    let cols = array.columns@;
    match (
        float_column(cols, XfeatColumn::X),
        float_column(cols, XfeatColumn::Y),
        float_column(cols, XfeatColumn::Score),
    ) {
        (Err(e), _, _) => r == Err::<Vec<SparseFeature>, DecodeError>(e),
        (Ok(_), Err(e), _) => r == Err::<Vec<SparseFeature>, DecodeError>(e),
        (Ok(_), Ok(_), Err(e)) => r == Err::<Vec<SparseFeature>, DecodeError>(e),
        (Ok(x), Ok(y), Ok(s)) => {
            let n = x.values@.len();
            if y.values@.len() != n || s.values@.len() != n {
                r == Err::<Vec<SparseFeature>, DecodeError>(
                    DecodeError::ColumnLengthMismatch {
                        x: n as usize,
                        y: y.values@.len() as usize,
                        score: s.values@.len() as usize,
                    },
                )
            } else {
                match column_named(cols, "descriptor"@) {
                    None => r == Err::<Vec<SparseFeature>, DecodeError>(
                        DecodeError::MissingDescriptorColumn,
                    ),
                    Some(ColumnData::FixedSizeList { value_length, rows, validity, values }) => if rows
                        != n {
                        r == Err::<Vec<SparseFeature>, DecodeError>(
                            DecodeError::DescriptorLengthMismatch {
                                rows: n as usize,
                                descriptors: rows,
                            },
                        )
                    } else if value_length != 64 {
                        r == Err::<Vec<SparseFeature>, DecodeError>(
                            DecodeError::DescriptorWidth { width: value_length },
                        )
                    } else {
                        match values {
                            ListValues::Float32(child) => match null_column(
                                x,
                                y,
                                s,
                                validity,
                                child,
                                n as int,
                            ) {
                                Some(c) => r == Err::<Vec<SparseFeature>, DecodeError>(
                                    DecodeError::NullValues(c),
                                ),
                                None => rows_decoded(
                                    x.values@,
                                    y.values@,
                                    s.values@,
                                    child.values@,
                                    n as int,
                                    r,
                                ),
                            },
                            ListValues::Other => r == Err::<Vec<SparseFeature>, DecodeError>(
                                DecodeError::DescriptorChildNotFloat32,
                            ),
                        }
                    },
                    Some(_) => r == Err::<Vec<SparseFeature>, DecodeError>(
                        DecodeError::DescriptorNotFixedSizeList,
                    ),
                }
            }
        },
    }
}

/// Every feature of a decoded frame is usable: finite `x`, `y` and
/// confidence and 64 finite descriptor values; and feature `k` is row `k` of
/// the `x`, `y` and `score` columns with the `k`-th run of 64 descriptor
/// values, one feature per row.
pub proof fn lemma_decoded_features_are_finite(
    array: StructColumns,
    r: Result<Vec<SparseFeature>, DecodeError>,
)
    requires
        lists_complete(array),
        decode_outcome(array, r),
    ensures
        r matches Ok(v) ==> forall|k: int|
            0 <= k < v@.len() ==> {
                &&& (#[trigger] v@[k]).x.finite()
                &&& v@[k].y.finite()
                &&& v@[k].confidence.finite()
                &&& v@[k].descriptor@.len() == 64
                &&& forall|o: int| 0 <= o < 64 ==> #[trigger] v@[k].descriptor@[o].finite()
            },
        r is Ok ==> ({
            let cols = array.columns@;
            &&& float_column(cols, XfeatColumn::X) is Ok
            &&& float_column(cols, XfeatColumn::Y) is Ok
            &&& float_column(cols, XfeatColumn::Score) is Ok
            &&& {
                let x = float_column(cols, XfeatColumn::X)->Ok_0.values@;
                let y = float_column(cols, XfeatColumn::Y)->Ok_0.values@;
                let s = float_column(cols, XfeatColumn::Score)->Ok_0.values@;
                let v = r->Ok_0@;
                let child = column_named(cols, "descriptor"@)->0->values->Float32_0.values@;
                &&& v.len() == x.len()
                &&& forall|k: int|
                    0 <= k < v.len() ==> (#[trigger] v[k]).x == x[k] && v[k].y == y[k]
                        && v[k].confidence == s[k]
                &&& forall|k: int, o: int|
                    0 <= k < v.len() && 0 <= o < 64 ==> (#[trigger] v[k].descriptor@[o])
                        == child[64 * k + o]
            }
        }),
{
    if let Ok(v) = r {
        let cols = array.columns@;
        let x = float_column(cols, XfeatColumn::X)->Ok_0;
        let y = float_column(cols, XfeatColumn::Y)->Ok_0;
        let sc = float_column(cols, XfeatColumn::Score)->Ok_0;
        let n = x.values@.len();
        lemma_column_position_bounds(cols, "descriptor"@);
        let position = column_position(cols, "descriptor"@)->0;
        match column_named(cols, "descriptor"@) {
            Some(ColumnData::FixedSizeList { value_length, rows, validity, values }) => {
                match values {
                    ListValues::Float32(child) => {
                        assert(match cols[position].1 {
                            ColumnData::FixedSizeList {
                                value_length,
                                rows,
                                values: ListValues::Float32(c),
                                ..
                            } => (value_length >= 0 ==> c.values@.len() >= rows * value_length),
                            _ => true,
                        });
                        let target = Seq::new(
                            n as nat,
                            |i: int| row_feature(x.values@, y.values@, sc.values@, child.values@, i),
                        );
                        assert(feature_views(v@) == target);
                        assert forall|k: int| 0 <= k < v@.len() implies {
                            &&& (#[trigger] v@[k]).x.finite()
                            &&& v@[k].y.finite()
                            &&& v@[k].confidence.finite()
                            &&& v@[k].descriptor@.len() == 64
                            &&& forall|o: int|
                                0 <= o < 64 ==> #[trigger] v@[k].descriptor@[o].finite()
                        } by {
                            assert(feature_views(v@)[k] == v@[k]@);
                            assert(row_ok(x.values@, y.values@, sc.values@, child.values@, k));
                            assert(k * 64 + 64 <= child.values@.len()) by (nonlinear_arith)
                                requires
                                    0 <= k < n,
                                    child.values@.len() >= n * 64,
                            ;
                            assert forall|o: int| 0 <= o < 64 implies #[trigger] v@[k].descriptor@[
                                o
                            ].finite() by {
                                assert(v@[k].descriptor@[o] == child.values@[64 * k + o]);
                            }
                        }
                        assert forall|k: int| 0 <= k < v@.len() implies (#[trigger] v@[k]).x
                            == x.values@[k] && v@[k].y == y.values@[k] && v@[k].confidence
                            == sc.values@[k] by {
                            assert(feature_views(v@)[k] == v@[k]@);
                        }
                        assert forall|k: int, o: int|
                            0 <= k < v@.len() && 0 <= o < 64 implies (
                            #[trigger] v@[k].descriptor@[o]) == child.values@[64 * k + o] by {
                            assert(feature_views(v@)[k] == v@[k]@);
                            assert(k * 64 + 64 <= child.values@.len()) by (nonlinear_arith)
                                requires
                                    0 <= k < n,
                                    child.values@.len() >= n * 64,
                            ;
                        }
                    },
                    _ => {},
                }
            },
            _ => {},
        }
    }
}

/// Every one of the first `n` slots is present in the bitmap (if any) and
/// marked valid.
pub open spec fn bitmap_all_valid(validity: Option<Vec<bool>>, n: int) -> bool {
    match validity {
        Some(b) => forall|k: int| 0 <= k < n ==> #[trigger] bit_marked_valid(b@, k),
        None => true,
    }
}

/// Slot `k` exists in `bitmap` and its bit is set.
pub open spec fn bit_marked_valid(bitmap: Seq<bool>, k: int) -> bool {
    k < bitmap.len() && bitmap[k]
}

/// A decoded frame has no null slot: the validity bitmaps of `x`, `y`,
/// `score`, the descriptor lists and the descriptor values mark all the
/// frame's slots valid.
pub proof fn lemma_decoded_frames_have_no_nulls(
    array: StructColumns,
    r: Result<Vec<SparseFeature>, DecodeError>,
)
    requires
        decode_outcome(array, r),
        r is Ok,
    ensures
        ({
            let cols = array.columns@;
            let n = r->Ok_0@.len() as int;
            &&& bitmap_all_valid(float_column(cols, XfeatColumn::X)->Ok_0.validity, n)
            &&& bitmap_all_valid(float_column(cols, XfeatColumn::Y)->Ok_0.validity, n)
            &&& bitmap_all_valid(float_column(cols, XfeatColumn::Score)->Ok_0.validity, n)
            &&& column_named(cols, "descriptor"@) is Some
            &&& column_named(cols, "descriptor"@)->0 is FixedSizeList
            &&& bitmap_all_valid(column_named(cols, "descriptor"@)->0->validity, n)
            &&& column_named(cols, "descriptor"@)->0->values is Float32
            &&& bitmap_all_valid(
                column_named(cols, "descriptor"@)->0->values->Float32_0.validity,
                64 * n,
            )
        }),
{
    let cols = array.columns@;
    let v = r->Ok_0@;
    let x = float_column(cols, XfeatColumn::X)->Ok_0;
    let y = float_column(cols, XfeatColumn::Y)->Ok_0;
    let sc = float_column(cols, XfeatColumn::Score)->Ok_0;
    assert(feature_views(v).len() == v.len());
    let n = x.values@.len() as int;
    let d = column_named(cols, "descriptor"@)->0;
    let child = d->values->Float32_0;
    assert(null_column(x, y, sc, d->validity, child, n) is None);
    lemma_no_null_means_all_valid(x.validity, n);
    lemma_no_null_means_all_valid(y.validity, n);
    lemma_no_null_means_all_valid(sc.validity, n);
    lemma_no_null_means_all_valid(d->validity, n);
    lemma_no_null_means_all_valid(child.validity, 64 * n);
}

proof fn lemma_no_null_means_all_valid(validity: Option<Vec<bool>>, n: int)
    requires
        !has_null(validity, n),
    ensures
        bitmap_all_valid(validity, n),
{
    if validity is Some {
        assert forall|k: int| 0 <= k < n implies #[trigger] bit_marked_valid(validity->0@, k) by {
            assert(slot_valid(validity->0@, k));
        }
    }
}

fn read_descriptor(child: &Vec<F32Bits>, base: usize) -> (r: Option<Vec<F32Bits>>)
    requires
        base + 64 <= child@.len(),
    ensures
        r matches Some(d) ==> d@ == child@.subrange(base as int, base + 64) && forall|p: int|
            0 <= p < 64 ==> #[trigger] child@[base + p].finite(),
        r is None ==> exists|p: int| 0 <= p < 64 && !(#[trigger] child@[base + p]).finite(),
{
    let clen = child.len();
    let mut descriptor: Vec<F32Bits> = Vec::new();
    let mut o: usize = 0;
    while o < XFEAT_DESCRIPTOR_DIM
        invariant
            base + 64 <= child@.len(),
            child@.len() == clen,
            o <= 64,
            descriptor@ == child@.subrange(base as int, base + o),
            forall|p: int| 0 <= p < o ==> #[trigger] child@[base + p].finite(),
        decreases 64 - o,
    {
        let value = child[base + o];
        if !value.is_finite() {
            return None;
        }
        descriptor.push(value);
        o = o + 1;
        assert(descriptor@ =~= child@.subrange(base as int, base + o));
    }
    Some(descriptor)
}

fn decode_rows(
    x: &Vec<F32Bits>,
    y: &Vec<F32Bits>,
    s: &Vec<F32Bits>,
    child: &Vec<F32Bits>,
) -> (r: Result<Vec<SparseFeature>, DecodeError>)
    requires
        y@.len() == x@.len(),
        s@.len() == x@.len(),
        child@.len() >= x@.len() * 64,
    ensures
        rows_decoded(x@, y@, s@, child@, x@.len() as int, r),
{
    let n = x.len();
    let clen = child.len();
    let ghost target = Seq::new(n as nat, |i: int| row_feature(x@, y@, s@, child@, i));
    let mut features: Vec<SparseFeature> = Vec::new();
    let mut i: usize = 0;
    while i < n
        invariant
            n == x@.len(),
            y@.len() == n,
            s@.len() == n,
            child@.len() >= n * 64,
            child@.len() == clen,
            i <= n,
            target.len() == n,
            forall|j: int| 0 <= j < n ==> #[trigger] target[j] == row_feature(x@, y@, s@, child@, j),
            forall|j: int| 0 <= j < i ==> row_ok(x@, y@, s@, child@, j),
            feature_views(features@) == target.take(i as int),
        decreases n - i,
    {
        let px = x[i];
        let py = y[i];
        let conf = s[i];
        if !px.is_finite() || !py.is_finite() || !conf.is_finite() {
            assert(!row_ok(x@, y@, s@, child@, i as int));
            return Err(DecodeError::NonFiniteKeypoint { row: i });
        }
        assert(i * 64 + 64 <= child@.len()) by (nonlinear_arith)
            requires
                i < n,
                child@.len() >= n * 64,
        ;
        let base = i * XFEAT_DESCRIPTOR_DIM;
        let descriptor = match read_descriptor(child, base) {
            Some(d) => d,
            None => {
                assert(!descriptor_finite(child@, i as int)) by {
                    let p = choose|p: int| 0 <= p < 64 && !(#[trigger] child@[base + p]).finite();
                    assert(!child@[64 * i + p].finite());
                }
                assert(!row_ok(x@, y@, s@, child@, i as int));
                return Err(DecodeError::NonFiniteDescriptor { row: i });
            },
        };
        assert(descriptor_finite(child@, i as int)) by {
            assert forall|o: int| 0 <= o < 64 implies #[trigger] child@[64 * i + o].finite() by {
                assert(child@[base + o].finite());
            }
        }
        let feature = SparseFeature { x: px, y: py, confidence: conf, descriptor };
        let ghost before = features@;
        features.push(feature);
        proof {
            assert(row_ok(x@, y@, s@, child@, i as int));
            assert(feature_views(features@) =~= feature_views(before).push(feature@));
            assert(feature@ == target[i as int]);
            assert(target.take(i + 1) =~= target.take(i as int).push(target[i as int]));
        }
        i = i + 1;
    }
    proof {
        assert(target.take(n as int) =~= target);
    }
    Ok(features)
}

/// Decodes one frame of features from its columns `x`, `y`, `score` and
/// `descriptor`. Any problem with the schema, the types, the lengths, a null
/// slot or a non-finite value rejects the whole frame.
pub fn decode_xfeat_struct(array: &StructColumns) -> (r: Result<Vec<SparseFeature>, DecodeError>)
    requires
        lists_complete(*array),
    ensures
        decode_outcome(*array, r),
{
    let x = match struct_column_f32(array, XfeatColumn::X) {
        Ok(v) => v,
        Err(e) => {
            return Err(e);
        },
    };
    let y = match struct_column_f32(array, XfeatColumn::Y) {
        Ok(v) => v,
        Err(e) => {
            return Err(e);
        },
    };
    let score = match struct_column_f32(array, XfeatColumn::Score) {
        Ok(v) => v,
        Err(e) => {
            return Err(e);
        },
    };
    let row_count = x.values.len();
    if y.values.len() != row_count || score.values.len() != row_count {
        return Err(
            DecodeError::ColumnLengthMismatch {
                x: row_count,
                y: y.values.len(),
                score: score.values.len(),
            },
        );
    }
    let descriptor = match find_column(array, "descriptor") {
        Some(c) => c,
        None => {
            return Err(DecodeError::MissingDescriptorColumn);
        },
    };
    let ghost position = column_position(array.columns@, "descriptor"@)->0;
    proof {
        lemma_column_position_bounds(array.columns@, "descriptor"@);
    }
    match descriptor {
        ColumnData::FixedSizeList { value_length, rows, validity, values } => {
            if *rows != row_count {
                return Err(
                    DecodeError::DescriptorLengthMismatch {
                        rows: row_count,
                        descriptors: *rows,
                    },
                );
            }
            if *value_length != 64 {
                return Err(DecodeError::DescriptorWidth { width: *value_length });
            }
            match values {
                ListValues::Float32(child) => {
                    assert(child.values@.len() >= row_count * 64) by {
                        assert(match array.columns@[position].1 {
                            ColumnData::FixedSizeList {
                                value_length,
                                rows,
                                values: ListValues::Float32(c),
                                ..
                            } => (value_length >= 0 ==> c.values@.len() >= rows * value_length),
                            _ => true,
                        });
                    }
                    if has_null_slot(&x.validity, row_count) {
                        return Err(DecodeError::NullValues(FrameColumn::X));
                    }
                    if has_null_slot(&y.validity, row_count) {
                        return Err(DecodeError::NullValues(FrameColumn::Y));
                    }
                    if has_null_slot(&score.validity, row_count) {
                        return Err(DecodeError::NullValues(FrameColumn::Score));
                    }
                    if has_null_slot(validity, row_count) {
                        return Err(DecodeError::NullValues(FrameColumn::Descriptor));
                    }
                    let child_len = child.values.len();
                    assert(row_count * 64 <= child_len);
                    if has_null_slot(&child.validity, row_count * 64) {
                        return Err(DecodeError::NullValues(FrameColumn::DescriptorValues));
                    }
                    decode_rows(&x.values, &y.values, &score.values, &child.values)
                },
                ListValues::Other => Err(DecodeError::DescriptorChildNotFloat32),
            }
        },
        _ => Err(DecodeError::DescriptorNotFixedSizeList),
    }
}

} // verus!
