//! Feature matching: which features and matches are usable, mutual
//! best-match selection over a similarity table, RANSAC inlier masks, and the
//! checks around the geometric estimators.
//!
//! Similarities (cosine of descriptors) are `f32` values computed by the
//! caller; the library reads them by their bit patterns and orders them as
//! `f32::total_cmp` does.
use vstd::prelude::*;

use crate::features::{FeatureView, SparseFeature};
use crate::ieee::{F32Bits, F64Bits};

verus! {

/// Width of a descriptor.
pub const DESCRIPTOR_DIM: usize = 64;

/// Side of the grid of subpixel offsets scored by the refinement model.
pub const SUBPIXEL_GRID: usize = 8;

/// A match: realtime feature index, history feature index, similarity.
pub type Match = (usize, usize, F32Bits);

/// Why a matching step refused its input.
#[derive(Clone, Copy, Debug, PartialEq, Eq)]
pub enum MatchError {
    InvalidDescriptor,
    InvalidThreshold,
    RealtimeIndexOutOfBounds { index: usize },
    HistoryIndexOutOfBounds { index: usize },
    InvalidMatchPair,
    MaskLengthMismatch,
    TooFewMatches { needed: usize, got: usize },
    DegenerateEstimate,
    TooFewInliers { needed: usize, got: usize },
    InvalidSubpixelOutput,
    InvalidDenseInput,
}

/// A descriptor of 64 finite values.
pub open spec fn descriptor_valid(d: Seq<F32Bits>) -> bool {
    d.len() == DESCRIPTOR_DIM && forall|i: int| 0 <= i < d.len() ==> #[trigger] d[i].finite()
}

/// A feature with finite coordinates and confidence and a valid descriptor.
pub open spec fn feature_valid(f: FeatureView) -> bool {
    f.x.finite() && f.y.finite() && f.confidence.finite() && descriptor_valid(f.descriptor)
}

/// Accepts a descriptor of 64 finite values.
pub fn validate_descriptor(descriptor: &[F32Bits]) -> (r: Result<(), MatchError>)
    ensures
        r is Ok <==> descriptor_valid(descriptor@),
        r is Err ==> r == Err::<(), MatchError>(MatchError::InvalidDescriptor),
{
    if descriptor.len() != DESCRIPTOR_DIM {
        return Err(MatchError::InvalidDescriptor);
    }
    let mut i: usize = 0;
    while i < descriptor.len()
        invariant
            descriptor@.len() == DESCRIPTOR_DIM,
            i <= descriptor@.len(),
            forall|j: int| 0 <= j < i ==> #[trigger] descriptor@[j].finite(),
        decreases descriptor@.len() - i,
    {
        if !descriptor[i].is_finite() {
            return Err(MatchError::InvalidDescriptor);
        }
        i = i + 1;
    }
    Ok(())
}

/// A feature usable for matching.
pub fn valid_feature(feature: &SparseFeature) -> (r: bool)
    ensures
        r == feature_valid(feature@),
{
    feature.x.is_finite() && feature.y.is_finite() && feature.confidence.is_finite()
        && validate_descriptor(feature.descriptor.as_slice()).is_ok()
}

/// Accepts a finite positive RANSAC threshold.
pub fn valid_threshold(threshold: F64Bits) -> (r: Result<F64Bits, MatchError>)
    ensures
        r is Ok <==> threshold.finite() && F64Bits::zero().less_than(threshold),
        r matches Ok(t) ==> t == threshold,
        r is Err ==> r == Err::<F64Bits, MatchError>(MatchError::InvalidThreshold),
{
    if threshold.is_finite() && F64Bits(0).lt(threshold) {
        Ok(threshold)
    } else {
        Err(MatchError::InvalidThreshold)
    }
}

/// Position of the last largest key (`0` when there is none): the element
/// `Iterator::max_by` picks.
pub open spec fn last_max(keys: Seq<int>) -> int
    decreases keys.len(),
{
    if keys.len() <= 1 {
        0
    } else {
        let p = last_max(keys.drop_last());
        if keys[p] <= keys.last() {
            keys.len() - 1
        } else {
            p
        }
    }
}

proof fn lemma_last_max_bounds(keys: Seq<int>)
    ensures
        keys.len() >= 1 ==> 0 <= last_max(keys) < keys.len(),
    decreases keys.len(),
{
    if keys.len() > 1 {
        lemma_last_max_bounds(keys.drop_last());
    }
}

/// The keys by which `f32::total_cmp` orders the values.
pub open spec fn total_keys(values: Seq<F32Bits>) -> Seq<int> {
    Seq::new(values.len(), |i: int| values[i].total_key())
}

/// Index of the last largest value in `total_cmp` order (what
/// `max_by(total_cmp)` selects).
pub fn last_max_index(values: &Vec<F32Bits>) -> (r: usize)
    requires
        values@.len() >= 1,
    ensures
        r == last_max(total_keys(values@)),
        r < values@.len(),
{
    let ghost keys = total_keys(values@);
    proof {
        lemma_last_max_bounds(keys);
        assert(keys.take(1).len() == 1);
    }
    let mut best: usize = 0;
    let mut best_key = values[0].total_order_key();
    let mut p: usize = 1;
    while p < values.len()
        invariant
            keys == total_keys(values@),
            1 <= p <= values@.len(),
            best < p,
            best == last_max(keys.take(p as int)),
            best_key == keys[best as int],
        decreases values@.len() - p,
    {
        let key = values[p].total_order_key();
        proof {
            assert(keys.take(p + 1).drop_last() =~= keys.take(p as int));
            assert(keys.take(p + 1).last() == keys[p as int]);
            assert(keys.take(p as int)[best as int] == keys[best as int]);
        }
        if best_key <= key {
            best = p;
            best_key = key;
        }
        p = p + 1;
    }
    proof {
        assert(keys.take(p as int) =~= keys);
    }
    best
}

/// Positions of the usable features, in order.
pub open spec fn valid_positions(features: Seq<SparseFeature>) -> Seq<int>
    decreases features.len(),
{
    if features.len() == 0 {
        Seq::empty()
    } else {
        let rest = valid_positions(features.drop_last());
        if feature_valid(features.last()@) {
            rest.push(features.len() - 1)
        } else {
            rest
        }
    }
}

proof fn lemma_last_max_is_max(keys: Seq<int>)
    requires
        keys.len() >= 1,
    ensures
        0 <= last_max(keys) < keys.len(),
        forall|j: int| 0 <= j < keys.len() ==> #[trigger] keys[j] <= keys[last_max(keys)],
        forall|j: int| last_max(keys) < j < keys.len() ==> #[trigger] keys[j] < keys[last_max(keys)],
    decreases keys.len(),
{
    lemma_last_max_bounds(keys);
    if keys.len() > 1 {
        let d = keys.drop_last();
        lemma_last_max_is_max(d);
        let p = last_max(d);
        let m = last_max(keys);
        assert(d[p] == keys[p]);
        assert forall|j: int| 0 <= j < keys.len() implies #[trigger] keys[j] <= keys[m] by {
            if j < keys.len() - 1 {
                assert(d[j] == keys[j]);
                assert(d[j] <= d[p]);
            }
        }
        assert forall|j: int| m < j < keys.len() implies #[trigger] keys[j] < keys[m] by {
            if j < keys.len() - 1 {
                assert(d[j] == keys[j]);
                assert(d[j] < d[p]);
            }
        }
    }
}

proof fn lemma_valid_positions_complete(features: Seq<SparseFeature>, j: int)
    requires
        0 <= j < features.len(),
        feature_valid(features[j]@),
    ensures
        exists|p: int|
            0 <= p < valid_positions(features).len() && #[trigger] valid_positions(features)[p]
                == j,
    decreases features.len(),
{
    let rest = valid_positions(features.drop_last());
    if j == features.len() - 1 {
        assert(valid_positions(features)[rest.len() as int] == j);
    } else {
        assert(features.drop_last()[j] == features[j]);
        lemma_valid_positions_complete(features.drop_last(), j);
        let p = choose|p: int| 0 <= p < rest.len() && #[trigger] rest[p] == j;
        assert(valid_positions(features)[p] == j);
    }
}

proof fn lemma_valid_positions_bounds(features: Seq<SparseFeature>)
    ensures
        forall|k: int|
            0 <= k < valid_positions(features).len() ==> 0 <= #[trigger] valid_positions(
                features,
            )[k] < features.len(),
        valid_positions(features).len() <= features.len(),
    decreases features.len(),
{
    if features.len() > 0 {
        lemma_valid_positions_bounds(features.drop_last());
    }
}

fn collect_valid(features: &[SparseFeature]) -> (r: Vec<usize>)
    ensures
        r@.len() == valid_positions(features@).len(),
        forall|k: int| 0 <= k < r@.len() ==> r@[k] as int == #[trigger] valid_positions(features@)[k],
        forall|k: int| 0 <= k < r@.len() ==> r@[k] < features@.len(),
{
    let mut r: Vec<usize> = Vec::new();
    let mut i: usize = 0;
    while i < features.len()
        invariant
            i <= features@.len(),
            r@.len() == valid_positions(features@.take(i as int)).len(),
            forall|k: int|
                0 <= k < r@.len() ==> r@[k] as int == #[trigger] valid_positions(
                    features@.take(i as int),
                )[k],
            forall|k: int| 0 <= k < r@.len() ==> r@[k] < i,
        decreases features@.len() - i,
    {
        proof {
            assert(features@.take(i + 1).drop_last() =~= features@.take(i as int));
            assert(features@.take(i + 1).last() == features@[i as int]);
        }
        if valid_feature(&features[i]) {
            r.push(i);
        }
        i = i + 1;
    }
    proof {
        assert(features@.take(i as int) =~= features@);
    }
    r
}

/// The similarity table has one row per realtime feature and one column per
/// history feature.
pub open spec fn similarity_shaped(similarity: Seq<Vec<F32Bits>>, rows: int, cols: int) -> bool {
    similarity.len() == rows && forall|i: int|
        0 <= i < rows ==> (#[trigger] similarity[i])@.len() == cols
}

/// Similarities of usable realtime feature `c` (a position among the usable
/// ones) to every usable history feature.
pub open spec fn forward_row(
    similarity: Seq<Vec<F32Bits>>,
    vr: Seq<int>,
    vh: Seq<int>,
    c: int,
) -> Seq<F32Bits> {
    Seq::new(vh.len(), |p: int| similarity[vr[c]]@[vh[p]])
}

/// Similarities of every usable realtime feature to usable history feature
/// `h`.
pub open spec fn backward_column(
    similarity: Seq<Vec<F32Bits>>,
    vr: Seq<int>,
    vh: Seq<int>,
    h: int,
) -> Seq<F32Bits> {
    Seq::new(vr.len(), |p: int| similarity[vr[p]]@[vh[h]])
}

/// Mutual best matches among the first `k` usable realtime features, in
/// order: the best history feature of `c` must have `c` as its best realtime
/// feature, and their similarity must reach the threshold.
pub open spec fn mutual_matches(
    similarity: Seq<Vec<F32Bits>>,
    vr: Seq<int>,
    vh: Seq<int>,
    threshold: F32Bits,
    k: int,
) -> Seq<Match>
    decreases k,
{
    if k <= 0 {
        Seq::empty()
    } else {
        let prev = mutual_matches(similarity, vr, vh, threshold, k - 1);
        let c = k - 1;
        let h = last_max(total_keys(forward_row(similarity, vr, vh, c)));
        let score = similarity[vr[c]]@[vh[h]];
        if last_max(total_keys(backward_column(similarity, vr, vh, h))) == c && threshold.at_most(
            score,
        ) {
            prev.push((vr[c] as usize, vh[h] as usize, score))
        } else {
            prev
        }
    }
}

/// What `cross_match` returns.
pub open spec fn cross_matches(
    realtime: Seq<SparseFeature>,
    history: Seq<SparseFeature>,
    similarity: Seq<Vec<F32Bits>>,
    threshold: F32Bits,
) -> Seq<Match> {
    let vr = valid_positions(realtime);
    let vh = valid_positions(history);
    if !threshold.finite() || vr.len() == 0 || vh.len() == 0 {
        Seq::empty()
    } else {
        mutual_matches(similarity, vr, vh, threshold, vr.len() as int)
    }
}

/// Mutual best matching between realtime and history features.
///
/// `similarity[i][j]` is the similarity of realtime feature `i` to history
/// feature `j`. Only usable features take part; each usable realtime feature
/// is paired with its best history feature (the last one among equals, in
/// `total_cmp` order), and the pair is kept when that history feature's best
/// realtime feature is the same one and the similarity is at least
/// `min_similarity_threshold`.
pub fn cross_match(
    realtime_features: &[SparseFeature],
    history_snapshot: &[SparseFeature],
    similarity: &Vec<Vec<F32Bits>>,
    min_similarity_threshold: F32Bits,
) -> (r: Vec<Match>)
    requires
        similarity_shaped(
            similarity@,
            realtime_features@.len() as int,
            history_snapshot@.len() as int,
        ),
    ensures
        r@ == cross_matches(
            realtime_features@,
            history_snapshot@,
            similarity@,
            min_similarity_threshold,
        ),
{
    if !min_similarity_threshold.is_finite() {
        return Vec::new();
    }
    let valid_realtime = collect_valid(realtime_features);
    let valid_history = collect_valid(history_snapshot);
    if valid_realtime.len() == 0 || valid_history.len() == 0 {
        return Vec::new();
    }
    let ghost vr = valid_positions(realtime_features@);
    let ghost vh = valid_positions(history_snapshot@);
    let ghost sim = similarity@;
    let nr = valid_realtime.len();
    let nh = valid_history.len();
    let mut forward: Vec<usize> = Vec::new();
    let mut c: usize = 0;
    while c < nr
        invariant
            nr == valid_realtime@.len(),
            nh == valid_history@.len(),
            nh >= 1,
            nr == vr.len(),
            nh == vh.len(),
            sim == similarity@,
            similarity_shaped(sim, realtime_features@.len() as int, history_snapshot@.len() as int),
            forall|k: int| 0 <= k < nr ==> valid_realtime@[k] as int == #[trigger] vr[k],
            forall|k: int| 0 <= k < nh ==> valid_history@[k] as int == #[trigger] vh[k],
            forall|k: int| 0 <= k < nr ==> valid_realtime@[k] < realtime_features@.len(),
            forall|k: int| 0 <= k < nh ==> valid_history@[k] < history_snapshot@.len(),
            c <= nr,
            forward@.len() == c,
            forall|k: int|
                0 <= k < c ==> #[trigger] forward@[k] as int == last_max(
                    total_keys(forward_row(sim, vr, vh, k)),
                ) && forward@[k] < nh,
        decreases nr - c,
    {
        let row = &similarity[valid_realtime[c]];
        let mut values: Vec<F32Bits> = Vec::new();
        let mut p: usize = 0;
        while p < nh
            invariant
                nh == valid_history@.len(),
                nh == vh.len(),
                c < nr,
                nr == vr.len(),
                sim == similarity@,
                *row == sim[vr[c as int]],
                row@.len() == history_snapshot@.len(),
                forall|k: int| 0 <= k < nh ==> valid_history@[k] as int == #[trigger] vh[k],
                forall|k: int| 0 <= k < nh ==> valid_history@[k] < history_snapshot@.len(),
                p <= nh,
                values@ == forward_row(sim, vr, vh, c as int).take(p as int),
            decreases nh - p,
        {
            values.push(row[valid_history[p]]);
            p = p + 1;
            assert(values@ =~= forward_row(sim, vr, vh, c as int).take(p as int));
        }
        assert(values@ =~= forward_row(sim, vr, vh, c as int));
        let best = last_max_index(&values);
        forward.push(best);
        c = c + 1;
    }
    let mut backward: Vec<usize> = Vec::new();
    let mut h: usize = 0;
    while h < nh
        invariant
            nr == valid_realtime@.len(),
            nh == valid_history@.len(),
            nr >= 1,
            nr == vr.len(),
            nh == vh.len(),
            sim == similarity@,
            similarity_shaped(sim, realtime_features@.len() as int, history_snapshot@.len() as int),
            forall|k: int| 0 <= k < nr ==> valid_realtime@[k] as int == #[trigger] vr[k],
            forall|k: int| 0 <= k < nh ==> valid_history@[k] as int == #[trigger] vh[k],
            forall|k: int| 0 <= k < nr ==> valid_realtime@[k] < realtime_features@.len(),
            forall|k: int| 0 <= k < nh ==> valid_history@[k] < history_snapshot@.len(),
            h <= nh,
            backward@.len() == h,
            forall|k: int|
                0 <= k < h ==> #[trigger] backward@[k] as int == last_max(
                    total_keys(backward_column(sim, vr, vh, k)),
                ),
        decreases nh - h,
    {
        let mut values: Vec<F32Bits> = Vec::new();
        let mut p: usize = 0;
        while p < nr
            invariant
                nr == valid_realtime@.len(),
                nr == vr.len(),
                h < nh,
                nh == vh.len(),
                sim == similarity@,
                similarity_shaped(sim, realtime_features@.len() as int, history_snapshot@.len() as int),
                forall|k: int| 0 <= k < nr ==> valid_realtime@[k] as int == #[trigger] vr[k],
                forall|k: int| 0 <= k < nr ==> valid_realtime@[k] < realtime_features@.len(),
                nh == valid_history@.len(),
                valid_history@[h as int] < history_snapshot@.len(),
                valid_history@[h as int] as int == vh[h as int],
                p <= nr,
                values@ == backward_column(sim, vr, vh, h as int).take(p as int),
            decreases nr - p,
        {
            let row = &similarity[valid_realtime[p]];
            assert(sim[valid_realtime@[p as int] as int]@.len() == history_snapshot@.len());
            values.push(row[valid_history[h]]);
            p = p + 1;
            assert(values@ =~= backward_column(sim, vr, vh, h as int).take(p as int));
        }
        assert(values@ =~= backward_column(sim, vr, vh, h as int));
        let best = last_max_index(&values);
        backward.push(best);
        h = h + 1;
    }
    let mut result: Vec<Match> = Vec::new();
    let mut c: usize = 0;
    while c < nr
        invariant
            nr == valid_realtime@.len(),
            nh == valid_history@.len(),
            nr == vr.len(),
            nh == vh.len(),
            sim == similarity@,
            similarity_shaped(sim, realtime_features@.len() as int, history_snapshot@.len() as int),
            forall|k: int| 0 <= k < nr ==> valid_realtime@[k] as int == #[trigger] vr[k],
            forall|k: int| 0 <= k < nh ==> valid_history@[k] as int == #[trigger] vh[k],
            forall|k: int| 0 <= k < nr ==> valid_realtime@[k] < realtime_features@.len(),
            forall|k: int| 0 <= k < nh ==> valid_history@[k] < history_snapshot@.len(),
            forward@.len() == nr,
            backward@.len() == nh,
            forall|k: int|
                0 <= k < nr ==> #[trigger] forward@[k] as int == last_max(
                    total_keys(forward_row(sim, vr, vh, k)),
                ) && forward@[k] < nh,
            forall|k: int|
                0 <= k < nh ==> #[trigger] backward@[k] as int == last_max(
                    total_keys(backward_column(sim, vr, vh, k)),
                ),
            c <= nr,
            result@ == mutual_matches(sim, vr, vh, min_similarity_threshold, c as int),
        decreases nr - c,
    {
        let h = forward[c];
        let score = similarity[valid_realtime[c]][valid_history[h]];
        if backward[h] == c && min_similarity_threshold.le(score) {
            result.push((valid_realtime[c], valid_history[h], score));
        }
        c = c + 1;
    }
    result
}

/// The matches whose mask entry is non-zero, in order, among the first `k`.
pub open spec fn masked(matches: Seq<Match>, mask: Seq<u8>, k: int) -> Seq<Match>
    decreases k,
{
    if k <= 0 {
        Seq::empty()
    } else if mask[k - 1] != 0 {
        masked(matches, mask, k - 1).push(matches[k - 1])
    } else {
        masked(matches, mask, k - 1)
    }
}

/// Keeps the matches marked as inliers by a RANSAC mask with one entry per
/// match.
pub fn filter_by_mask(matches: &[Match], mask: &[u8]) -> (r: Result<Vec<Match>, MatchError>)
    ensures
        mask@.len() != matches@.len() ==> r == Err::<Vec<Match>, MatchError>(
            MatchError::MaskLengthMismatch,
        ),
        mask@.len() == matches@.len() ==> r is Ok && r->Ok_0@ == masked(
            matches@,
            mask@,
            matches@.len() as int,
        ),
{
    if mask.len() != matches.len() {
        return Err(MatchError::MaskLengthMismatch);
    }
    let mut inliers: Vec<Match> = Vec::new();
    let mut i: usize = 0;
    while i < matches.len()
        invariant
            mask@.len() == matches@.len(),
            i <= matches@.len(),
            inliers@ == masked(matches@, mask@, i as int),
        decreases matches@.len() - i,
    {
        if mask[i] != 0 {
            inliers.push(matches[i]);
        }
        i = i + 1;
    }
    Ok(inliers)
}

/// Why match `m` cannot be turned into a point pair, if it cannot.
pub open spec fn match_fault(
    realtime: Seq<SparseFeature>,
    history: Seq<SparseFeature>,
    m: Match,
) -> Option<MatchError> {
    if m.0 >= realtime.len() {
        Some(MatchError::RealtimeIndexOutOfBounds { index: m.0 })
    } else if m.1 >= history.len() {
        Some(MatchError::HistoryIndexOutOfBounds { index: m.1 })
    } else if !feature_valid(realtime[m.0 as int]@) || !feature_valid(history[m.1 as int]@)
        || !m.2.finite() {
        Some(MatchError::InvalidMatchPair)
    } else {
        None
    }
}

/// Fault of the first match that has one.
pub open spec fn first_match_fault(
    realtime: Seq<SparseFeature>,
    history: Seq<SparseFeature>,
    matches: Seq<Match>,
) -> Option<MatchError>
    decreases matches.len(),
{
    if matches.len() == 0 {
        None
    } else if match_fault(realtime, history, matches[0]) is Some {
        match_fault(realtime, history, matches[0])
    } else {
        first_match_fault(realtime, history, matches.drop_first())
    }
}

proof fn lemma_first_match_fault(
    realtime: Seq<SparseFeature>,
    history: Seq<SparseFeature>,
    matches: Seq<Match>,
    i: int,
)
    requires
        0 <= i <= matches.len(),
        forall|j: int| 0 <= j < i ==> match_fault(realtime, history, #[trigger] matches[j]) is None,
    ensures
        i == matches.len() ==> first_match_fault(realtime, history, matches) is None,
        i < matches.len() && match_fault(realtime, history, matches[i]) is Some
            ==> first_match_fault(realtime, history, matches) == match_fault(
            realtime,
            history,
            matches[i],
        ),
    decreases i,
{
    if i > 0 {
        assert forall|j: int| 0 <= j < i - 1 implies match_fault(
            realtime,
            history,
            #[trigger] matches.drop_first()[j],
        ) is None by {
            assert(matches.drop_first()[j] == matches[j + 1]);
        }
        lemma_first_match_fault(realtime, history, matches.drop_first(), i - 1);
    }
}

/// Matches that pass the point check (so that `matched_points` and
/// `prepare_estimation` go on) name existing features with finite `x`, `y`
/// and confidence and 64 finite descriptor values, and carry a finite score.
pub proof fn lemma_checked_matches_are_usable(
    realtime: Seq<SparseFeature>,
    history: Seq<SparseFeature>,
    matches: Seq<Match>,
)
    requires
        first_match_fault(realtime, history, matches) is None,
    ensures
        forall|e: int|
            0 <= e < matches.len() ==> {
                let m = #[trigger] matches[e];
                &&& m.0 < realtime.len() && m.1 < history.len()
                &&& m.2.finite()
                &&& realtime[m.0 as int].x.finite() && realtime[m.0 as int].y.finite()
                    && realtime[m.0 as int].confidence.finite()
                &&& history[m.1 as int].x.finite() && history[m.1 as int].y.finite()
                    && history[m.1 as int].confidence.finite()
                &&& realtime[m.0 as int].descriptor@.len() == 64
                &&& history[m.1 as int].descriptor@.len() == 64
                &&& forall|o: int|
                    0 <= o < 64 ==> (#[trigger] realtime[m.0 as int].descriptor@[o]).finite()
                        && history[m.1 as int].descriptor@[o].finite()
            },
    decreases matches.len(),
{
    if matches.len() > 0 {
        lemma_checked_matches_are_usable(realtime, history, matches.drop_first());
        assert forall|e: int| 0 < e < matches.len() implies #[trigger] matches[e]
            == matches.drop_first()[e - 1] by {}
        assert(match_fault(realtime, history, matches[0]) is None);
    }
}

/// An image point.
pub type Point = (F32Bits, F32Bits);

/// The realtime image points of the matches.
pub open spec fn realtime_points_of(realtime: Seq<SparseFeature>, matches: Seq<Match>) -> Seq<Point> {
    Seq::new(
        matches.len(),
        |i: int| (realtime[matches[i].0 as int].x, realtime[matches[i].0 as int].y),
    )
}

/// The history image points of the matches.
pub open spec fn history_points_of(history: Seq<SparseFeature>, matches: Seq<Match>) -> Seq<Point> {
    Seq::new(
        matches.len(),
        |i: int| (history[matches[i].1 as int].x, history[matches[i].1 as int].y),
    )
}

/// The realtime and history image points of the matches, after checking
/// that each match names two usable features and has a finite score.
pub fn matched_points(
    realtime: &[SparseFeature],
    history: &[SparseFeature],
    matches: &[Match],
) -> (r: Result<(Vec<Point>, Vec<Point>), MatchError>)
    ensures
        match first_match_fault(realtime@, history@, matches@) {
            Some(e) => r == Err::<(Vec<Point>, Vec<Point>), MatchError>(e),
            None => r is Ok && r->Ok_0.0@ == realtime_points_of(realtime@, matches@)
                && r->Ok_0.1@ == history_points_of(history@, matches@),
        },
{
    let ghost target_r = realtime_points_of(realtime@, matches@);
    let ghost target_h = history_points_of(history@, matches@);
    let mut realtime_points: Vec<Point> = Vec::new();
    let mut history_points: Vec<Point> = Vec::new();
    let mut i: usize = 0;
    while i < matches.len()
        invariant
            i <= matches@.len(),
            target_r == realtime_points_of(realtime@, matches@),
            target_h == history_points_of(history@, matches@),
            forall|j: int|
                0 <= j < i ==> match_fault(realtime@, history@, #[trigger] matches@[j]) is None,
            realtime_points@ == target_r.take(i as int),
            history_points@ == target_h.take(i as int),
        decreases matches@.len() - i,
    {
        let (current_index, history_index, score) = matches[i];
        if current_index >= realtime.len() {
            proof {
                lemma_first_match_fault(realtime@, history@, matches@, i as int);
            }
            return Err(MatchError::RealtimeIndexOutOfBounds { index: current_index });
        }
        if history_index >= history.len() {
            proof {
                lemma_first_match_fault(realtime@, history@, matches@, i as int);
            }
            return Err(MatchError::HistoryIndexOutOfBounds { index: history_index });
        }
        let current = &realtime[current_index];
        let historical = &history[history_index];
        if !valid_feature(current) || !valid_feature(historical) || !score.is_finite() {
            proof {
                lemma_first_match_fault(realtime@, history@, matches@, i as int);
            }
            return Err(MatchError::InvalidMatchPair);
        }
        realtime_points.push((current.x, current.y));
        history_points.push((historical.x, historical.y));
        i = i + 1;
        assert(realtime_points@ =~= target_r.take(i as int));
        assert(history_points@ =~= target_h.take(i as int));
    }
    proof {
        lemma_first_match_fault(realtime@, history@, matches@, i as int);
    }
    assert(realtime_points@ =~= target_r);
    assert(history_points@ =~= target_h);
    Ok((realtime_points, history_points))
}

/// Fewest matches the fundamental-matrix RANSAC needs.
pub const FUNDAMENTAL_MIN_MATCHES: usize = 8;

/// Fewest matches (and inliers) the homography RANSAC needs.
pub const HOMOGRAPHY_MIN_MATCHES: usize = 4;

/// The point pairs and threshold handed to a RANSAC estimator.
pub type EstimatorInput = (Vec<Point>, Vec<Point>, F64Bits);

/// Checks before a RANSAC estimation that needs `min_matches` matches, in
/// order: enough matches, usable point pairs, a usable threshold.
pub fn prepare_estimation(
    realtime: &[SparseFeature],
    history: &[SparseFeature],
    matches: &[Match],
    ransac_error_threshold: F64Bits,
    min_matches: usize,
) -> (r: Result<EstimatorInput, MatchError>)
    ensures
        matches@.len() < min_matches ==> r == Err::<EstimatorInput, MatchError>(
            MatchError::TooFewMatches { needed: min_matches, got: matches@.len() as usize },
        ),
        matches@.len() >= min_matches ==> match first_match_fault(realtime@, history@, matches@) {
            Some(e) => r == Err::<EstimatorInput, MatchError>(e),
            None => if !(ransac_error_threshold.finite() && F64Bits::zero().less_than(
                ransac_error_threshold,
            )) {
                r == Err::<EstimatorInput, MatchError>(MatchError::InvalidThreshold)
            } else {
                r is Ok && r->Ok_0.0@ == realtime_points_of(realtime@, matches@) && r->Ok_0.1@
                    == history_points_of(history@, matches@) && r->Ok_0.2 == ransac_error_threshold
            },
        },
{
    if matches.len() < min_matches {
        return Err(MatchError::TooFewMatches { needed: min_matches, got: matches.len() });
    }
    let (realtime_points, history_points) = match matched_points(realtime, history, matches) {
        Ok(points) => points,
        Err(e) => {
            return Err(e);
        },
    };
    let threshold = match valid_threshold(ransac_error_threshold) {
        Ok(t) => t,
        Err(e) => {
            return Err(e);
        },
    };
    Ok((realtime_points, history_points, threshold))
}

/// After a fundamental-matrix RANSAC: a non-empty estimate with one mask
/// entry per match gives the inliers; anything else is degenerate.
pub fn accept_fundamental(matches: &[Match], estimate_empty: bool, mask: &[u8]) -> (r: Result<
    Vec<Match>,
    MatchError,
>)
    ensures
        estimate_empty || mask@.len() != matches@.len() ==> r == Err::<Vec<Match>, MatchError>(
            MatchError::DegenerateEstimate,
        ),
        !(estimate_empty || mask@.len() != matches@.len()) ==> r is Ok && r->Ok_0@ == masked(
            matches@,
            mask@,
            matches@.len() as int,
        ),
{
    if estimate_empty || mask.len() != matches.len() {
        return Err(MatchError::DegenerateEstimate);
    }
    filter_by_mask(matches, mask)
}

/// After a homography RANSAC: the estimate must be a non-empty 3 x 3 matrix,
/// the mask must have one entry per match, and at least
/// `HOMOGRAPHY_MIN_MATCHES` matches must be inliers.
pub fn accept_homography(
    matches: &[Match],
    estimate_empty: bool,
    rows: i32,
    cols: i32,
    mask: &[u8],
) -> (r: Result<Vec<Match>, MatchError>)
    ensures
        estimate_empty || rows != 3 || cols != 3 ==> r == Err::<Vec<Match>, MatchError>(
            MatchError::DegenerateEstimate,
        ),
        !(estimate_empty || rows != 3 || cols != 3) && mask@.len() != matches@.len() ==> r
            == Err::<Vec<Match>, MatchError>(MatchError::MaskLengthMismatch),
        !(estimate_empty || rows != 3 || cols != 3) && mask@.len() == matches@.len() ==> ({
            let inliers = masked(matches@, mask@, matches@.len() as int);
            if inliers.len() < HOMOGRAPHY_MIN_MATCHES {
                r == Err::<Vec<Match>, MatchError>(
                    MatchError::TooFewInliers {
                        needed: HOMOGRAPHY_MIN_MATCHES,
                        got: inliers.len() as usize,
                    },
                )
            } else {
                r is Ok && r->Ok_0@ == inliers
            }
        }),
{
    if estimate_empty || rows != 3 || cols != 3 {
        return Err(MatchError::DegenerateEstimate);
    }
    let inliers = match filter_by_mask(matches, mask) {
        Ok(v) => v,
        Err(e) => {
            return Err(e);
        },
    };
    if inliers.len() < HOMOGRAPHY_MIN_MATCHES {
        return Err(
            MatchError::TooFewInliers { needed: HOMOGRAPHY_MIN_MATCHES, got: inliers.len() },
        );
    }
    Ok(inliers)
}

/// The refinement model's output: one tensor of 64 finite logits, one per
/// cell of the 8 x 8 offset grid.
pub open spec fn subpixel_output_valid(
    output_count: usize,
    element_count: usize,
    logits: Seq<F32Bits>,
) -> bool {
    &&& output_count == 1
    &&& element_count == 64
    &&& logits.len() == 64
    &&& forall|i: int| 0 <= i < logits.len() ==> #[trigger] logits[i].finite()
}

/// The grid cell `(column, row)` of the best logit (the last among equals,
/// in `total_cmp` order) of a valid refinement output.
pub fn subpixel_cell(output_count: usize, element_count: usize, logits: &Vec<F32Bits>) -> (r:
    Result<(usize, usize), MatchError>)
    ensures
        !subpixel_output_valid(output_count, element_count, logits@) ==> r == Err::<
            (usize, usize),
            MatchError,
        >(MatchError::InvalidSubpixelOutput),
        subpixel_output_valid(output_count, element_count, logits@) ==> ({
            let best = last_max(total_keys(logits@));
            r == Ok::<(usize, usize), MatchError>(((best % 8) as usize, (best / 8) as usize))
        }),
{
    if output_count != 1 || element_count != 64 || logits.len() != 64 {
        return Err(MatchError::InvalidSubpixelOutput);
    }
    let mut i: usize = 0;
    while i < logits.len()
        invariant
            logits@.len() == 64,
            i <= 64,
            forall|j: int| 0 <= j < i ==> #[trigger] logits@[j].finite(),
        decreases 64 - i,
    {
        if !logits[i].is_finite() {
            return Err(MatchError::InvalidSubpixelOutput);
        }
        i = i + 1;
    }
    let best = last_max_index(logits);
    Ok((best % SUBPIXEL_GRID, best / SUBPIXEL_GRID))
}

/// Checks the inputs of the dense refinement: a valid descriptor, a grid of
/// at least 2 x 2 cells whose tensor holds 64 finite values per cell, and a
/// finite image coordinate.
pub fn check_dense_inputs(
    f_a: &[F32Bits],
    desc_tensor2: &[F32Bits],
    w_d8: usize,
    h_d8: usize,
    x2: F32Bits,
    y2: F32Bits,
) -> (r: Result<(), MatchError>)
    requires
        w_d8 * h_d8 * 64 <= usize::MAX,
    ensures
        !descriptor_valid(f_a@) ==> r == Err::<(), MatchError>(MatchError::InvalidDescriptor),
        descriptor_valid(f_a@) ==> (r is Ok <==> (w_d8 >= 2 && h_d8 >= 2 && desc_tensor2@.len()
            == w_d8 * h_d8 * 64 && (forall|i: int|
            0 <= i < desc_tensor2@.len() ==> #[trigger] desc_tensor2@[i].finite()) && x2.finite()
            && y2.finite())),
        descriptor_valid(f_a@) && r is Err ==> r == Err::<(), MatchError>(
            MatchError::InvalidDenseInput,
        ),
{
    match validate_descriptor(f_a) {
        Ok(_) => {},
        Err(e) => {
            return Err(e);
        },
    }
    assert(w_d8 * h_d8 <= w_d8 * h_d8 * 64) by (nonlinear_arith);
    if w_d8 < 2 || h_d8 < 2 || desc_tensor2.len() != w_d8 * h_d8 * DESCRIPTOR_DIM {
        return Err(MatchError::InvalidDenseInput);
    }
    let mut i: usize = 0;
    while i < desc_tensor2.len()
        invariant
            descriptor_valid(f_a@),
            i <= desc_tensor2@.len(),
            forall|j: int| 0 <= j < i ==> #[trigger] desc_tensor2@[j].finite(),
        decreases desc_tensor2@.len() - i,
    {
        if !desc_tensor2[i].is_finite() {
            return Err(MatchError::InvalidDenseInput);
        }
        i = i + 1;
    }
    if !x2.is_finite() || !y2.is_finite() {
        return Err(MatchError::InvalidDenseInput);
    }
    Ok(())
}

proof fn lemma_valid_positions_increasing(features: Seq<SparseFeature>)
    ensures
        forall|i: int, j: int|
            0 <= i < j < valid_positions(features).len() ==> valid_positions(features)[i]
                < valid_positions(features)[j],
        forall|k: int|
            0 <= k < valid_positions(features).len() ==> feature_valid(
                features[#[trigger] valid_positions(features)[k]]@,
            ),
    decreases features.len(),
{
    lemma_valid_positions_bounds(features);
    if features.len() > 0 {
        let rest = features.drop_last();
        lemma_valid_positions_increasing(rest);
        lemma_valid_positions_bounds(rest);
        assert forall|k: int| 0 <= k < valid_positions(rest).len() implies features[
            #[trigger] valid_positions(rest)[k]]@ == rest[valid_positions(rest)[k]]@ by {}
    }
}

/// A match of the table, traced back to its usable-feature positions.
pub open spec fn traced(
    similarity: Seq<Vec<F32Bits>>,
    vr: Seq<int>,
    vh: Seq<int>,
    threshold: F32Bits,
    m: Match,
    c: int,
    h: int,
) -> bool {
    &&& 0 <= c < vr.len()
    &&& 0 <= h < vh.len()
    &&& m.0 as int == vr[c]
    &&& m.1 as int == vh[h]
    &&& m.2 == similarity[vr[c]]@[vh[h]]
    &&& last_max(total_keys(forward_row(similarity, vr, vh, c))) == h
    &&& last_max(total_keys(backward_column(similarity, vr, vh, h))) == c
    &&& threshold.at_most(m.2)
}

/// Match `m` traces back to a usable realtime position below `k`.
pub open spec fn traced_below(
    similarity: Seq<Vec<F32Bits>>,
    vr: Seq<int>,
    vh: Seq<int>,
    threshold: F32Bits,
    m: Match,
    k: int,
) -> bool {
    exists|c: int, h: int| c < k && #[trigger] traced(similarity, vr, vh, threshold, m, c, h)
}

proof fn lemma_mutual_matches_traced(
    similarity: Seq<Vec<F32Bits>>,
    vr: Seq<int>,
    vh: Seq<int>,
    threshold: F32Bits,
    k: int,
)
    requires
        0 <= k <= vr.len(),
        vh.len() >= 1,
        forall|i: int, j: int| 0 <= i < j < vr.len() ==> vr[i] < vr[j],
        forall|i: int| 0 <= i < vr.len() ==> 0 <= #[trigger] vr[i] <= usize::MAX,
        forall|i: int| 0 <= i < vh.len() ==> 0 <= #[trigger] vh[i] <= usize::MAX,
    ensures
        forall|e: int|
            #![trigger mutual_matches(similarity, vr, vh, threshold, k)[e]]
            0 <= e < mutual_matches(similarity, vr, vh, threshold, k).len() ==> traced_below(
                similarity,
                vr,
                vh,
                threshold,
                mutual_matches(similarity, vr, vh, threshold, k)[e],
                k,
            ),
        forall|e1: int, e2: int|
            0 <= e1 < e2 < mutual_matches(similarity, vr, vh, threshold, k).len() ==> (
            mutual_matches(similarity, vr, vh, threshold, k)[e1].0 as int) < (mutual_matches(
                similarity,
                vr,
                vh,
                threshold,
                k,
            )[e2].0 as int),
        k > 0 ==> forall|e: int|
            0 <= e < mutual_matches(similarity, vr, vh, threshold, k).len() ==> (mutual_matches(
                similarity,
                vr,
                vh,
                threshold,
                k,
            )[e].0 as int) <= vr[k - 1],
    decreases k,
{
    if k > 0 {
        lemma_mutual_matches_traced(similarity, vr, vh, threshold, k - 1);
        let prev = mutual_matches(similarity, vr, vh, threshold, k - 1);
        let cur = mutual_matches(similarity, vr, vh, threshold, k);
        let c = k - 1;
        let h = last_max(total_keys(forward_row(similarity, vr, vh, c)));
        lemma_last_max_bounds(total_keys(forward_row(similarity, vr, vh, c)));
        if cur.len() > prev.len() {
            assert(traced(similarity, vr, vh, threshold, cur[cur.len() - 1], c, h));
            assert forall|e: int| 0 <= e < prev.len() implies (cur[e].0 as int) < vr[c] by {
                assert(cur[e] == prev[e]);
                if k > 1 {
                    assert(vr[k - 2] < vr[k - 1]);
                }
            }
        }
        assert forall|e: int|
            #![trigger mutual_matches(similarity, vr, vh, threshold, k)[e]]
            0 <= e < mutual_matches(similarity, vr, vh, threshold, k).len() implies traced_below(
                similarity,
                vr,
                vh,
                threshold,
                mutual_matches(similarity, vr, vh, threshold, k)[e],
                k,
            ) by {
            if e < prev.len() {
                assert(cur[e] == prev[e]);
                assert(traced_below(similarity, vr, vh, threshold, prev[e], k - 1));
                let (c2, h2) = choose|c2: int, h2: int|
                    c2 < k - 1 && #[trigger] traced(similarity, vr, vh, threshold, prev[e], c2, h2);
                assert(traced(similarity, vr, vh, threshold, cur[e], c2, h2));
            } else {
                assert(traced(similarity, vr, vh, threshold, cur[e], c, h));
            }
        }
        if k > 1 {
            assert forall|e: int| 0 <= e < cur.len() implies (cur[e].0 as int) <= vr[k - 1] by {
                if e < prev.len() {
                    assert(cur[e] == prev[e]);
                    assert(vr[k - 2] < vr[k - 1]);
                }
            }
        }
    } else {
        assert(mutual_matches(similarity, vr, vh, threshold, k).len() == 0);
    }
}

/// Every match returned by `cross_match` pairs a usable realtime feature with
/// a usable history feature (finite `x`, `y` and confidence, 64 finite
/// descriptor values), carries their similarity, and reaches the threshold.
pub proof fn lemma_cross_matches_sound(
    realtime: Seq<SparseFeature>,
    history: Seq<SparseFeature>,
    similarity: Seq<Vec<F32Bits>>,
    threshold: F32Bits,
)
    requires
        similarity_shaped(similarity, realtime.len() as int, history.len() as int),
        realtime.len() <= usize::MAX,
        history.len() <= usize::MAX,
    ensures
        forall|e: int|
            0 <= e < cross_matches(realtime, history, similarity, threshold).len() ==> {
                let m = #[trigger] cross_matches(realtime, history, similarity, threshold)[e];
                &&& m.0 < realtime.len()
                &&& m.1 < history.len()
                &&& feature_valid(realtime[m.0 as int]@)
                &&& feature_valid(history[m.1 as int]@)
                &&& m.2 == similarity[m.0 as int]@[m.1 as int]
                &&& threshold.at_most(m.2)
            },
        forall|e: int|
            0 <= e < cross_matches(realtime, history, similarity, threshold).len() ==> {
                let m = #[trigger] cross_matches(realtime, history, similarity, threshold)[e];
                let current = realtime[m.0 as int];
                let past = history[m.1 as int];
                &&& current.x.finite() && current.y.finite() && current.confidence.finite()
                &&& past.x.finite() && past.y.finite() && past.confidence.finite()
                &&& current.descriptor@.len() == 64 && past.descriptor@.len() == 64
                &&& forall|o: int|
                    0 <= o < 64 ==> (#[trigger] current.descriptor@[o]).finite()
                        && past.descriptor@[o].finite()
            },
{
    let vr = valid_positions(realtime);
    let vh = valid_positions(history);
    lemma_valid_positions_bounds(realtime);
    lemma_valid_positions_bounds(history);
    lemma_valid_positions_increasing(realtime);
    lemma_valid_positions_increasing(history);
    if threshold.finite() && vr.len() > 0 && vh.len() > 0 {
        lemma_mutual_matches_traced(similarity, vr, vh, threshold, vr.len() as int);
        let ms = mutual_matches(similarity, vr, vh, threshold, vr.len() as int);
        assert forall|e: int| 0 <= e < ms.len() implies {
            let m = #[trigger] ms[e];
            &&& m.0 < realtime.len()
            &&& m.1 < history.len()
            &&& feature_valid(realtime[m.0 as int]@)
            &&& feature_valid(history[m.1 as int]@)
            &&& m.2 == similarity[m.0 as int]@[m.1 as int]
            &&& threshold.at_most(m.2)
        } by {
            assert(traced_below(similarity, vr, vh, threshold, ms[e], vr.len() as int));
            let (c, h) = choose|c: int, h: int|
                c < vr.len() && #[trigger] traced(similarity, vr, vh, threshold, ms[e], c, h);
            assert(feature_valid(realtime[vr[c]]@));
            assert(feature_valid(history[vh[h]]@));
        }
    }
}

/// Matching is mutual best: the history feature of a match is, among the
/// usable history features (finite `x`, `y`, confidence and 64 finite
/// descriptor values), one of highest similarity to the realtime feature in
/// `total_cmp` order, and the last such; and the realtime feature is likewise
/// the last of highest similarity to the history feature among the usable
/// realtime features.
pub proof fn lemma_cross_matches_are_mutual_best(
    realtime: Seq<SparseFeature>,
    history: Seq<SparseFeature>,
    similarity: Seq<Vec<F32Bits>>,
    threshold: F32Bits,
)
    requires
        similarity_shaped(similarity, realtime.len() as int, history.len() as int),
        realtime.len() <= usize::MAX,
        history.len() <= usize::MAX,
    ensures
        forall|e: int, j: int|
            #![trigger cross_matches(realtime, history, similarity, threshold)[e], history[j]]
            0 <= e < cross_matches(realtime, history, similarity, threshold).len() && 0 <= j
                < history.len() && history[j].x.finite() && history[j].y.finite()
                && history[j].confidence.finite() && history[j].descriptor@.len() == 64 && (
            forall|o: int| 0 <= o < 64 ==> #[trigger] history[j].descriptor@[o].finite()) ==> {
                let m = cross_matches(realtime, history, similarity, threshold)[e];
                let key = similarity[m.0 as int]@[j].total_key();
                &&& key <= m.2.total_key()
                &&& (j > m.1 ==> key < m.2.total_key())
            },
        forall|e: int, i: int|
            #![trigger cross_matches(realtime, history, similarity, threshold)[e], realtime[i]]
            0 <= e < cross_matches(realtime, history, similarity, threshold).len() && 0 <= i
                < realtime.len() && realtime[i].x.finite() && realtime[i].y.finite()
                && realtime[i].confidence.finite() && realtime[i].descriptor@.len() == 64 && (
            forall|o: int| 0 <= o < 64 ==> #[trigger] realtime[i].descriptor@[o].finite()) ==> {
                let m = cross_matches(realtime, history, similarity, threshold)[e];
                let key = similarity[i]@[m.1 as int].total_key();
                &&& key <= m.2.total_key()
                &&& (i > m.0 ==> key < m.2.total_key())
            },
{
    let vr = valid_positions(realtime);
    let vh = valid_positions(history);
    lemma_valid_positions_bounds(realtime);
    lemma_valid_positions_bounds(history);
    lemma_valid_positions_increasing(realtime);
    lemma_valid_positions_increasing(history);
    if threshold.finite() && vr.len() > 0 && vh.len() > 0 {
        lemma_mutual_matches_traced(similarity, vr, vh, threshold, vr.len() as int);
        let ms = mutual_matches(similarity, vr, vh, threshold, vr.len() as int);
        assert forall|e: int, j: int|
            #![trigger ms[e], history[j]]
            0 <= e < ms.len() && 0 <= j < history.len() && history[j].x.finite()
                && history[j].y.finite() && history[j].confidence.finite()
                && history[j].descriptor@.len() == 64 && (forall|o: int|
                0 <= o < 64 ==> #[trigger] history[j].descriptor@[o].finite()) implies {
            let m = ms[e];
            let key = similarity[m.0 as int]@[j].total_key();
            &&& key <= m.2.total_key()
            &&& (j > m.1 ==> key < m.2.total_key())
        } by {
            assert(traced_below(similarity, vr, vh, threshold, ms[e], vr.len() as int));
            let (c, h) = choose|c: int, h: int|
                c < vr.len() && #[trigger] traced(similarity, vr, vh, threshold, ms[e], c, h);
            assert(descriptor_valid(history[j]@.descriptor));
            assert(feature_valid(history[j]@));
            lemma_valid_positions_complete(history, j);
            let p = choose|p: int| 0 <= p < vh.len() && #[trigger] vh[p] == j;
            let keys = total_keys(forward_row(similarity, vr, vh, c));
            lemma_last_max_is_max(keys);
            assert(keys[p] == similarity[vr[c]]@[j].total_key());
            assert(keys[h] == ms[e].2.total_key());
            if j > ms[e].1 {
                assert(vh[h] < vh[p]);
                if p <= h {
                    if p < h {
                        assert(vh[p] < vh[h]);
                    }
                }
                assert(p > h);
            }
        }
        assert forall|e: int, i: int|
            #![trigger ms[e], realtime[i]]
            0 <= e < ms.len() && 0 <= i < realtime.len() && realtime[i].x.finite()
                && realtime[i].y.finite() && realtime[i].confidence.finite()
                && realtime[i].descriptor@.len() == 64 && (forall|o: int|
                0 <= o < 64 ==> #[trigger] realtime[i].descriptor@[o].finite()) implies {
            let m = ms[e];
            let key = similarity[i]@[m.1 as int].total_key();
            &&& key <= m.2.total_key()
            &&& (i > m.0 ==> key < m.2.total_key())
        } by {
            assert(traced_below(similarity, vr, vh, threshold, ms[e], vr.len() as int));
            let (c, h) = choose|c: int, h: int|
                c < vr.len() && #[trigger] traced(similarity, vr, vh, threshold, ms[e], c, h);
            assert(descriptor_valid(realtime[i]@.descriptor));
            assert(feature_valid(realtime[i]@));
            lemma_valid_positions_complete(realtime, i);
            let q = choose|q: int| 0 <= q < vr.len() && #[trigger] vr[q] == i;
            let keys = total_keys(backward_column(similarity, vr, vh, h));
            lemma_last_max_is_max(keys);
            assert(keys[q] == similarity[i]@[vh[h]].total_key());
            assert(keys[c] == ms[e].2.total_key());
            if i > ms[e].0 {
                if q <= c {
                    if q < c {
                        assert(vr[q] < vr[c]);
                    }
                }
                assert(q > c);
            }
        }
    }
}

/// Matching is one-to-one: no realtime feature and no history feature
/// appears in two matches, and the matches come in increasing order of
/// realtime index.
pub proof fn lemma_cross_matches_one_to_one(
    realtime: Seq<SparseFeature>,
    history: Seq<SparseFeature>,
    similarity: Seq<Vec<F32Bits>>,
    threshold: F32Bits,
)
    requires
        similarity_shaped(similarity, realtime.len() as int, history.len() as int),
        realtime.len() <= usize::MAX,
        history.len() <= usize::MAX,
    ensures
        forall|e1: int, e2: int|
            #![trigger cross_matches(realtime, history, similarity, threshold)[e1], cross_matches(realtime, history, similarity, threshold)[e2]]
            0 <= e1 < e2 < cross_matches(realtime, history, similarity, threshold).len() ==> {
                let m1 = cross_matches(realtime, history, similarity, threshold)[e1];
                let m2 = cross_matches(realtime, history, similarity, threshold)[e2];
                m1.0 < m2.0 && m1.1 != m2.1
            },
{
    let vr = valid_positions(realtime);
    let vh = valid_positions(history);
    lemma_valid_positions_bounds(realtime);
    lemma_valid_positions_bounds(history);
    lemma_valid_positions_increasing(realtime);
    lemma_valid_positions_increasing(history);
    if threshold.finite() && vr.len() > 0 && vh.len() > 0 {
        lemma_mutual_matches_traced(similarity, vr, vh, threshold, vr.len() as int);
        let ms = mutual_matches(similarity, vr, vh, threshold, vr.len() as int);
        assert forall|e1: int, e2: int| 0 <= e1 < e2 < ms.len() implies ms[e1].0 < ms[e2].0
            && ms[e1].1 != ms[e2].1 by {
            assert(traced_below(similarity, vr, vh, threshold, ms[e1], vr.len() as int));
            assert(traced_below(similarity, vr, vh, threshold, ms[e2], vr.len() as int));
            let (c1, h1) = choose|c: int, h: int|
                c < vr.len() && #[trigger] traced(similarity, vr, vh, threshold, ms[e1], c, h);
            let (c2, h2) = choose|c: int, h: int|
                c < vr.len() && #[trigger] traced(similarity, vr, vh, threshold, ms[e2], c, h);
            if ms[e1].1 == ms[e2].1 {
                if h1 < h2 {
                    assert(vh[h1] < vh[h2]);
                } else if h2 < h1 {
                    assert(vh[h2] < vh[h1]);
                }
                assert(h1 == h2);
                assert(c1 == c2);
                assert(false);
            }
        }
    }
}

} // verus!
