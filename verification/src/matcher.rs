//! The similarity matcher: every unordered pair of records is compared once,
//! and the pairs whose fingerprints lie within the threshold are reported.
//!
//! The comparison is exhaustive, so the work grows with the square of the
//! number of records.

use crate::fingerprint::{distance, hamming, FingerprintRecord, RecordView, records_view};
use vstd::prelude::*;

verus! {

/// Two images whose fingerprints lie within the threshold of each other.
#[derive(Clone, Debug, PartialEq, Eq)]
pub struct SimilarPair {
    pub path_a: String,
    pub path_b: String,
    pub distance: u32,
}

/// What a `SimilarPair` stands for.
pub struct PairView {
    pub path_a: Seq<char>,
    pub path_b: Seq<char>,
    pub distance: nat,
}

impl View for SimilarPair {
    type V = PairView;

    open spec fn view(&self) -> PairView {
        PairView { path_a: self.path_a@, path_b: self.path_b@, distance: self.distance as nat }
    }
}

/// The views of a sequence of pairs, in order.
pub open spec fn pairs_view(pairs: Seq<SimilarPair>) -> Seq<PairView> {
    pairs.map_values(|p: SimilarPair| p@)
}

/// Records `i` and `j`, with `i` before `j`, lie within the threshold.
pub open spec fn close(records: Seq<RecordView>, threshold: nat, i: int, j: int) -> bool {
    &&& 0 <= i < j < records.len()
    &&& hamming(records[i].fingerprint, records[j].fingerprint) <= threshold
}

/// The pair reported for records `i` and `j`.
pub open spec fn pair_of(records: Seq<RecordView>, i: int, j: int) -> PairView {
    PairView {
        path_a: records[i].path,
        path_b: records[j].path,
        distance: hamming(records[i].fingerprint, records[j].fingerprint),
    }
}

/// The matches of record `i` with the records after it and before `end`,
/// by rising partner.
pub open spec fn row_matches(records: Seq<RecordView>, threshold: nat, i: int, end: int) -> Seq<
    (int, int),
>
    decreases end - i,
{
    if end <= i + 1 {
        Seq::empty()
    } else {
        let before = row_matches(records, threshold, i, end - 1);
        if close(records, threshold, i, end - 1) {
            before.push((i, end - 1))
        } else {
            before
        }
    }
}

/// The matches of the first `rows` records, row after row.
pub open spec fn matches_before(records: Seq<RecordView>, threshold: nat, rows: int) -> Seq<
    (int, int),
>
    decreases rows,
{
    if rows <= 0 {
        Seq::empty()
    } else {
        matches_before(records, threshold, rows - 1) + row_matches(
            records,
            threshold,
            rows - 1,
            records.len() as int,
        )
    }
}

/// The index pairs `(i, j)`, `i < j`, of all records within the threshold of
/// each other, ordered by `i` and then by `j`.
pub open spec fn similar_indices(records: Seq<RecordView>, threshold: nat) -> Seq<(int, int)> {
    matches_before(records, threshold, records.len() as int)
}

/// The pairs reported for a sequence of index pairs.
pub open spec fn pairs_at(records: Seq<RecordView>, indices: Seq<(int, int)>) -> Seq<PairView> {
    indices.map_values(|ij: (int, int)| pair_of(records, ij.0, ij.1))
}

/// The pairs that the matcher reports for `records` under `threshold`.
pub open spec fn similar_pairs(records: Seq<RecordView>, threshold: nat) -> Seq<PairView> {
    pairs_at(records, similar_indices(records, threshold))
}

/// `p` comes before `q` when index pairs are ordered by their first index
/// and then by their second.
pub open spec fn comes_before(p: (int, int), q: (int, int)) -> bool {
    p.0 < q.0 || (p.0 == q.0 && p.1 < q.1)
}

/// Two pairs name the same two files, in either order.
pub open spec fn same_files(p: PairView, q: PairView) -> bool {
    ||| (p.path_a == q.path_a && p.path_b == q.path_b)
    ||| (p.path_a == q.path_b && p.path_b == q.path_a)
}

/// No two records carry the same path.
pub open spec fn distinct_paths(records: Seq<RecordView>) -> bool {
    forall|i: int, j: int|
        0 <= i < j < records.len() ==> (#[trigger] records[i]).path != (#[trigger] records[j]).path
}

/// Records within the threshold of each other carry different paths.
pub open spec fn close_records_differ_in_path(records: Seq<RecordView>, threshold: nat) -> bool {
    forall|i: int, j: int| #[trigger]
        close(records, threshold, i, j) ==> records[i].path != records[j].path
}

/// Two different pairs of records that are both within the threshold never
/// name the same two files.
pub open spec fn close_pairs_differ_in_files(records: Seq<RecordView>, threshold: nat) -> bool {
    forall|i: int, j: int, k: int, l: int|
        #[trigger] close(records, threshold, i, j) && #[trigger] close(records, threshold, k, l)
            && (i, j) != (k, l) ==> !same_files(pair_of(records, i, j), pair_of(records, k, l))
}

proof fn lemma_row_matches(records: Seq<RecordView>, threshold: nat, i: int, end: int)
    requires
        0 <= i,
        end <= records.len(),
    ensures
        forall|k: int|
            0 <= k < row_matches(records, threshold, i, end).len() ==> {
                let m = #[trigger] row_matches(records, threshold, i, end)[k];
                m.0 == i && m.1 < end && close(records, threshold, m.0, m.1)
            },
        forall|a: int, b: int|
            0 <= a < b < row_matches(records, threshold, i, end).len() ==> comes_before(
                #[trigger] row_matches(records, threshold, i, end)[a],
                #[trigger] row_matches(records, threshold, i, end)[b],
            ),
        forall|j: int|
            j < end && #[trigger] close(records, threshold, i, j) ==> row_matches(
                records,
                threshold,
                i,
                end,
            ).contains((i, j)),
    decreases end - i,
{
    let row = row_matches(records, threshold, i, end);
    if end > i + 1 {
        let before = row_matches(records, threshold, i, end - 1);
        lemma_row_matches(records, threshold, i, end - 1);
        assert forall|j: int| j < end && #[trigger] close(records, threshold, i, j) implies row.contains(
            (i, j),
        ) by {
            if j < end - 1 {
                let k = choose|k: int| 0 <= k < before.len() && before[k] == (i, j);
                assert(row[k] == (i, j));
            } else {
                assert(row[row.len() - 1] == (i, j));
            }
        }
    }
}

proof fn lemma_matches_before(records: Seq<RecordView>, threshold: nat, rows: int)
    requires
        0 <= rows <= records.len(),
    ensures
        forall|k: int|
            0 <= k < matches_before(records, threshold, rows).len() ==> {
                let m = #[trigger] matches_before(records, threshold, rows)[k];
                m.0 < rows && close(records, threshold, m.0, m.1)
            },
        forall|a: int, b: int|
            0 <= a < b < matches_before(records, threshold, rows).len() ==> comes_before(
                #[trigger] matches_before(records, threshold, rows)[a],
                #[trigger] matches_before(records, threshold, rows)[b],
            ),
        forall|i: int, j: int|
            i < rows && #[trigger] close(records, threshold, i, j) ==> matches_before(
                records,
                threshold,
                rows,
            ).contains((i, j)),
    decreases rows,
{
    let all = matches_before(records, threshold, rows);
    if rows > 0 {
        let before = matches_before(records, threshold, rows - 1);
        let row = row_matches(records, threshold, rows - 1, records.len() as int);
        lemma_matches_before(records, threshold, rows - 1);
        lemma_row_matches(records, threshold, rows - 1, records.len() as int);
        assert forall|k: int| 0 <= k < all.len() implies ({
            let m = #[trigger] all[k];
            m.0 < rows && close(records, threshold, m.0, m.1)
        }) by {
            if k < before.len() {
                assert(all[k] == before[k]);
            } else {
                assert(all[k] == row[k - before.len()]);
            }
        }
        assert forall|a: int, b: int| 0 <= a < b < all.len() implies comes_before(
            #[trigger] all[a],
            #[trigger] all[b],
        ) by {
            if b < before.len() {
                assert(all[a] == before[a] && all[b] == before[b]);
            } else if a < before.len() {
                assert(all[a] == before[a] && all[b] == row[b - before.len()]);
            } else {
                assert(all[a] == row[a - before.len()] && all[b] == row[b - before.len()]);
            }
        }
        assert forall|i: int, j: int| i < rows && #[trigger] close(records, threshold, i, j) implies all.contains(
            (i, j),
        ) by {
            if i < rows - 1 {
                let k = choose|k: int| 0 <= k < before.len() && before[k] == (i, j);
                assert(all[k] == (i, j));
            } else {
                let k = choose|k: int| 0 <= k < row.len() && row[k] == (i, j);
                assert(all[before.len() + k] == (i, j));
            }
        }
    }
}

/// The matcher is exhaustive and exact: an index pair is reported if and
/// only if it names two records, the first before the second, whose
/// fingerprints lie within the threshold.
pub proof fn lemma_reported_iff_close(records: Seq<RecordView>, threshold: nat, i: int, j: int)
    ensures
        similar_indices(records, threshold).contains((i, j)) <==> close(records, threshold, i, j),
{
    lemma_matches_before(records, threshold, records.len() as int);
    let all = similar_indices(records, threshold);
    if all.contains((i, j)) {
        let k = choose|k: int| 0 <= k < all.len() && all[k] == (i, j);
        assert(close(records, threshold, all[k].0, all[k].1));
    }
}

/// Index pairs are reported in rising order, by first index and then by
/// second, so each unordered pair of records is reported at most once.
pub proof fn lemma_reported_in_order(records: Seq<RecordView>, threshold: nat, a: int, b: int)
    requires
        0 <= a < b < similar_indices(records, threshold).len(),
    ensures
        comes_before(similar_indices(records, threshold)[a], similar_indices(records, threshold)[b]),
        similar_indices(records, threshold)[a] != similar_indices(records, threshold)[b],
{
    lemma_matches_before(records, threshold, records.len() as int);
}

/// Every reported pair joins two different records, the first before the
/// second, and carries their Hamming distance, which is within the
/// threshold.
pub proof fn lemma_reported_pair(records: Seq<RecordView>, threshold: nat, k: int)
    requires
        0 <= k < similar_pairs(records, threshold).len(),
    ensures
        similar_indices(records, threshold).len() == similar_pairs(records, threshold).len(),
        ({
            let (i, j) = similar_indices(records, threshold)[k];
            &&& 0 <= i < j < records.len()
            &&& similar_pairs(records, threshold)[k] == pair_of(records, i, j)
            &&& similar_pairs(records, threshold)[k].distance <= threshold
        }),
{
    lemma_matches_before(records, threshold, records.len() as int);
    let m = similar_indices(records, threshold)[k];
    assert(close(records, threshold, m.0, m.1));
}

/// No reported pair joins a path with itself, as long as records within the
/// threshold of each other carry different paths.
pub proof fn lemma_no_self_pairs(records: Seq<RecordView>, threshold: nat)
    requires
        close_records_differ_in_path(records, threshold),
    ensures
        forall|k: int|
            0 <= k < similar_pairs(records, threshold).len() ==> (#[trigger] similar_pairs(
                records,
                threshold,
            )[k]).path_a != similar_pairs(records, threshold)[k].path_b,
{
    assert forall|k: int| 0 <= k < similar_pairs(records, threshold).len() implies (
    #[trigger] similar_pairs(records, threshold)[k]).path_a != similar_pairs(
        records,
        threshold,
    )[k].path_b by {
        lemma_reported_pair(records, threshold, k);
        let m = similar_indices(records, threshold)[k];
        lemma_reported_iff_close(records, threshold, m.0, m.1);
    }
}

/// No two reported pairs name the same two files, in either order, as long
/// as different pairs of records within the threshold name different files.
pub proof fn lemma_no_duplicate_pairs(records: Seq<RecordView>, threshold: nat)
    requires
        close_pairs_differ_in_files(records, threshold),
    ensures
        forall|a: int, b: int|
            0 <= a < b < similar_pairs(records, threshold).len() ==> !same_files(
                #[trigger] similar_pairs(records, threshold)[a],
                #[trigger] similar_pairs(records, threshold)[b],
            ),
{
    assert forall|a: int, b: int|
        0 <= a < b < similar_pairs(records, threshold).len() implies !same_files(
        #[trigger] similar_pairs(records, threshold)[a],
        #[trigger] similar_pairs(records, threshold)[b],
    ) by {
        lemma_reported_pair(records, threshold, a);
        lemma_reported_pair(records, threshold, b);
        lemma_reported_in_order(records, threshold, a, b);
        let p = similar_indices(records, threshold)[a];
        let q = similar_indices(records, threshold)[b];
        lemma_reported_iff_close(records, threshold, p.0, p.1);
        lemma_reported_iff_close(records, threshold, q.0, q.1);
    }
}

/// Records with pairwise different paths meet the conditions under which no
/// pair joins a path with itself and no two pairs name the same two files.
pub proof fn lemma_distinct_paths_suffice(records: Seq<RecordView>, threshold: nat)
    requires
        distinct_paths(records),
    ensures
        close_records_differ_in_path(records, threshold),
        close_pairs_differ_in_files(records, threshold),
{
    assert forall|i: int, j: int, k: int, l: int|
        #[trigger] close(records, threshold, i, j) && #[trigger] close(records, threshold, k, l)
            && (i, j) != (k, l) implies !same_files(
        pair_of(records, i, j),
        pair_of(records, k, l),
    ) by {
        if same_files(pair_of(records, i, j), pair_of(records, k, l)) {
            if records[i].path == records[k].path {
                assert(i == k) by {
                    if i < k {
                        assert(records[i].path != records[k].path);
                    } else if k < i {
                        assert(records[k].path != records[i].path);
                    }
                }
                assert(j == l) by {
                    if j < l {
                        assert(records[j].path != records[l].path);
                    } else if l < j {
                        assert(records[l].path != records[j].path);
                    }
                }
            } else {
                assert(i == l) by {
                    if i < l {
                        assert(records[i].path != records[l].path);
                    } else if l < i {
                        assert(records[l].path != records[i].path);
                    }
                }
                assert(j == k) by {
                    if j < k {
                        assert(records[j].path != records[k].path);
                    } else if k < j {
                        assert(records[k].path != records[j].path);
                    }
                }
            }
        }
    }
}

/// Raising the threshold never removes a pair: whatever is reported under
/// `low` is reported under any `high` that is at least `low`.
pub proof fn lemma_threshold_monotonic(records: Seq<RecordView>, low: nat, high: nat)
    requires
        low <= high,
    ensures
        forall|k: int|
            0 <= k < similar_pairs(records, low).len() ==> similar_pairs(records, high).contains(
                #[trigger] similar_pairs(records, low)[k],
            ),
{
    assert forall|k: int| 0 <= k < similar_pairs(records, low).len() implies similar_pairs(
        records,
        high,
    ).contains(#[trigger] similar_pairs(records, low)[k]) by {
        lemma_reported_pair(records, low, k);
        let m = similar_indices(records, low)[k];
        lemma_reported_iff_close(records, low, m.0, m.1);
        assert(close(records, high, m.0, m.1));
        lemma_reported_iff_close(records, high, m.0, m.1);
        let at = choose|at: int|
            0 <= at < similar_indices(records, high).len() && similar_indices(records, high)[at]
                == m;
        assert(similar_pairs(records, high)[at] == pair_of(records, m.0, m.1));
    }
}

/// Compares every record with every later one and reports the pairs whose
/// fingerprints differ in at most `threshold` bits, each with its distance.
///
/// The input is left as it is. Pairs come out ordered by the position of
/// their first record, then by that of their second.
pub fn find_similar_images(records: &Vec<FingerprintRecord>, threshold: u32) -> (pairs: Vec<
    SimilarPair,
>)
    ensures
        pairs_view(pairs@) == similar_pairs(records_view(records@), threshold as nat),
{
    let n = records.len();
    let ghost rv = records_view(records@);
    let ghost t = threshold as nat;
    let mut pairs: Vec<SimilarPair> = Vec::new();
    let mut i: usize = 0;
    assert(pairs_view(pairs@) =~= pairs_at(rv, matches_before(rv, t, 0)));
    while i < n
        invariant
            i <= n,
            n == records.len(),
            rv == records_view(records@),
            t == threshold as nat,
            pairs_view(pairs@) == pairs_at(rv, matches_before(rv, t, i as int)),
        decreases n - i,
    {
        let mut j: usize = i + 1;
        assert(pairs_view(pairs@) =~= pairs_at(
            rv,
            matches_before(rv, t, i as int) + row_matches(rv, t, i as int, j as int),
        ));
        while j < n
            invariant
                i < n,
                i < j <= n,
                n == records.len(),
                rv == records_view(records@),
                t == threshold as nat,
                pairs_view(pairs@) == pairs_at(
                    rv,
                    matches_before(rv, t, i as int) + row_matches(rv, t, i as int, j as int),
                ),
            decreases n - j,
        {
            let d = distance(&records[i].fingerprint, &records[j].fingerprint);
            let ghost found = matches_before(rv, t, i as int) + row_matches(
                rv,
                t,
                i as int,
                j as int,
            );
            if d <= threshold {
                let pair = SimilarPair {
                    path_a: records[i].path.clone(),
                    path_b: records[j].path.clone(),
                    distance: d,
                };
                assert(pair@ == pair_of(rv, i as int, j as int));
                let ghost old_pairs = pairs@;
                pairs.push(pair);
                assert(pairs_view(pairs@) =~= pairs_view(old_pairs).push(pair@));
                assert(pairs_at(rv, found.push((i as int, j as int))) =~= pairs_at(rv, found).push(
                    pair_of(rv, i as int, j as int),
                ));
                assert(matches_before(rv, t, i as int) + row_matches(
                    rv,
                    t,
                    i as int,
                    j as int + 1,
                ) =~= found.push((i as int, j as int)));
            }
            j = j + 1;
        }
        i = i + 1;
    }
    pairs
}

} // verus!
