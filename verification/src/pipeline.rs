//! The hash pipeline: each loaded image is normalized and fingerprinted on
//! its own, and the images that failed to decode are left out.
//!
//! One item's outcome depends on that item alone, so items can be processed
//! in any order and on any number of workers.

use crate::fingerprint::{
    fingerprint_of,
    get_image_hash,
    records_view,
    FingerprintRecord,
    RecordView,
};
use crate::config::Config;
use crate::matcher::{find_similar_images, pairs_view, similar_pairs, SimilarPair};
use crate::normalize::{
    get_image,
    normalized,
    valid_canvas_size,
    DecodeError,
    Decoded,
    DecodedView,
};
use vstd::multiset::Multiset;
use vstd::prelude::*;
use vstd::string::*;

verus! {

/// An image as it was loaded: the path it came from, and the decoded
/// image or the reason why the file could not be decoded.
#[derive(Debug, PartialEq, Eq)]
pub struct ImageSource {
    pub path: String,
    pub decoded: Result<Decoded, DecodeError>,
}

/// What an `ImageSource` stands for.
pub struct SourceView {
    pub path: Seq<char>,
    pub decoded: Result<DecodedView, DecodeError>,
}

/// The view of what loading a file gave.
pub open spec fn loaded_view(loaded: Result<Decoded, DecodeError>) -> Result<
    DecodedView,
    DecodeError,
> {
    match loaded {
        Ok(decoded) => Ok(decoded@),
        Err(e) => Err(e),
    }
}

impl View for ImageSource {
    type V = SourceView;

    open spec fn view(&self) -> SourceView {
        SourceView { path: self.path@, decoded: loaded_view(self.decoded) }
    }
}

/// The views of a sequence of sources, in order.
pub open spec fn sources_view(sources: Seq<ImageSource>) -> Seq<SourceView> {
    sources.map_values(|s: ImageSource| s@)
}

/// The view of one item's outcome.
pub open spec fn record_outcome_view(outcome: Result<FingerprintRecord, DecodeError>) -> Result<
    RecordView,
    DecodeError,
> {
    match outcome {
        Ok(record) => Ok(record@),
        Err(e) => Err(e),
    }
}

/// The outcome for a decoded image that came from `path`, on a canvas of
/// the given side: the fingerprint of its normalized image, paired with the
/// path, or the reason why it could not be normalized.
pub open spec fn record_of(path: Seq<char>, decoded: DecodedView, side: int) -> Result<
    RecordView,
    DecodeError,
> {
    match normalized(decoded, side) {
        Err(e) => Err(e),
        Ok(image) => Ok(RecordView { fingerprint: fingerprint_of(image), path }),
    }
}

/// The outcome for one source on a canvas of the given side: the reason
/// why it could not be decoded, or the outcome for its decoded image and
/// its own path.
pub open spec fn record_for(source: SourceView, side: int) -> Result<RecordView, DecodeError> {
    match source.decoded {
        Err(e) => Err(e),
        Ok(decoded) => record_of(source.path, decoded, side),
    }
}

/// The source was decoded and can be normalized on a canvas of the given
/// side.
pub open spec fn is_valid_image(source: SourceView, side: int) -> bool {
    record_for(source, side) is Ok
}

/// The valid sources, in their order.
pub open spec fn valid_images(sources: Seq<SourceView>, side: int) -> Seq<SourceView> {
    sources.filter(|s: SourceView| is_valid_image(s, side))
}

/// The records of a batch: one for each valid source, in the order of the
/// sources.
pub open spec fn records_for(sources: Seq<SourceView>, side: int) -> Seq<RecordView> {
    valid_images(sources, side).map_values(|s: SourceView| record_for(s, side)->Ok_0)
}

/// Whether a source gives the record `record`, as a predicate on sources.
pub open spec fn gives(side: int, record: RecordView) -> spec_fn(SourceView) -> bool {
    |source: SourceView| record_for(source, side) == Ok::<RecordView, DecodeError>(record)
}

/// A batch that grows by one source grows by that source's record, if it
/// has one.
proof fn lemma_records_push(sources: Seq<SourceView>, last: SourceView, side: int)
    ensures
        records_for(sources.push(last), side) == match record_for(last, side) {
            Ok(record) => records_for(sources, side).push(record),
            Err(_) => records_for(sources, side),
        },
{
    reveal(Seq::filter);
    assert(sources.push(last).drop_last() =~= sources);
    match record_for(last, side) {
        Ok(record) => {
            assert(records_for(sources.push(last), side) =~= records_for(sources, side).push(
                record,
            ));
        },
        Err(_) => {},
    }
}

/// A record occurs among the records of a batch as often as the batch
/// holds sources that give it.
proof fn lemma_record_count(sources: Seq<SourceView>, side: int, record: RecordView)
    ensures
        records_for(sources, side).to_multiset().count(record) == sources.to_multiset().filter(
            gives(side, record),
        ).len(),
    decreases sources.len(),
{
    broadcast use vstd::multiset::group_multiset_axioms;

    let wanted = gives(side, record);
    if sources.len() == 0 {
        reveal(Seq::filter);
        assert(records_for(sources, side) =~= Seq::<RecordView>::empty());
        assert(sources.to_multiset().filter(wanted) =~= Multiset::<SourceView>::empty()) by {
            sources.to_multiset_ensures();
            assert(sources.to_multiset().len() == 0);
        }
        assert(records_for(sources, side).to_multiset().count(record) == 0) by {
            records_for(sources, side).to_multiset_ensures();
        }
    } else {
        let rest = sources.drop_last();
        let last = sources.last();
        assert(sources =~= rest.push(last));
        lemma_record_count(rest, side, record);
        lemma_records_push(rest, last, side);
        vstd::seq_lib::to_multiset_build(rest, last);
        let held = rest.to_multiset();
        if wanted(last) {
            vstd::seq_lib::to_multiset_build(records_for(rest, side), record);
            assert(held.insert(last).filter(wanted) =~= held.filter(wanted).insert(last));
        } else {
            match record_for(last, side) {
                Ok(other) => {
                    vstd::seq_lib::to_multiset_build(records_for(rest, side), other);
                },
                Err(_) => {},
            }
            assert(held.insert(last).filter(wanted) =~= held.filter(wanted));
        }
    }
}

/// The records of a batch do not depend on the order of its sources: two
/// batches that hold the same sources, each as often as the other, give the
/// same records, each as often as the other. So it does not matter in which
/// order, or on how many workers, the sources are processed.
pub proof fn lemma_records_order_independent(
    first: Seq<SourceView>,
    second: Seq<SourceView>,
    side: int,
)
    requires
        first.to_multiset() == second.to_multiset(),
    ensures
        records_for(first, side).to_multiset() == records_for(second, side).to_multiset(),
{
    assert forall|record: RecordView|
        records_for(first, side).to_multiset().count(record) == records_for(
            second,
            side,
        ).to_multiset().count(record) by {
        lemma_record_count(first, side, record);
        lemma_record_count(second, side, record);
    }
    assert(records_for(first, side).to_multiset() =~= records_for(second, side).to_multiset());
}

/// Every record of a batch carries the fingerprint of a valid source of the
/// batch and that source's own path.
pub proof fn lemma_record_belongs_to_source(sources: Seq<SourceView>, side: int, k: int)
    requires
        0 <= k < records_for(sources, side).len(),
    ensures
        exists|i: int|
            0 <= i < sources.len() && record_for(#[trigger] sources[i], side) == Ok::<
                RecordView,
                DecodeError,
            >(records_for(sources, side)[k]) && records_for(sources, side)[k].path
                == sources[i].path,
{
    let valid = |s: SourceView| is_valid_image(s, side);
    let kept = valid_images(sources, side);
    sources.lemma_filter_pred(valid, k);
    sources.lemma_filter_contains_rev(valid, kept[k]);
    let i = choose|i: int| 0 <= i < sources.len() && sources[i] == kept[k];
    assert(record_for(sources[i], side) is Ok);
}

/// Normalizes and fingerprints one decoded image that came from `path`.
pub fn process_image(path: &str, decoded: &Decoded, side: u32) -> (outcome: Result<
    FingerprintRecord,
    DecodeError,
>)
    requires
        valid_canvas_size(side as int),
    ensures
        record_outcome_view(outcome) == record_of(path@, decoded@, side as int),
{
    match get_image(decoded, side) {
        Err(e) => Err(e),
        Ok(image) => Ok(
            FingerprintRecord { fingerprint: get_image_hash(&image), path: String::from_str(path) },
        ),
    }
}

/// Normalizes and fingerprints a batch of loaded images, one after the
/// other.
///
/// An image that failed to decode, or that cannot be normalized, contributes
/// no record and does not stop the batch: there is exactly one record for
/// each valid image, paired with that image's path.
pub fn process_images(sources: &Vec<ImageSource>, side: u32) -> (records: Vec<FingerprintRecord>)
    requires
        valid_canvas_size(side as int),
    ensures
        records_view(records@) == records_for(sources_view(sources@), side as int),
        records@.len() == valid_images(sources_view(sources@), side as int).len(),
        records@.len() <= sources@.len(),
{
    let ghost all = sources_view(sources@);
    let mut records: Vec<FingerprintRecord> = Vec::new();
    let mut i: usize = 0;
    proof {
        reveal(Seq::filter);
        assert(records_for(all.subrange(0, 0), side as int) =~= Seq::<RecordView>::empty());
    }
    while i < sources.len()
        invariant
            i <= sources.len(),
            all == sources_view(sources@),
            valid_canvas_size(side as int),
            records_view(records@) == records_for(all.subrange(0, i as int), side as int),
        decreases sources.len() - i,
    {
        let source = &sources[i];
        proof {
            let seen = all.subrange(0, i as int);
            assert(all.subrange(0, i as int + 1) =~= seen.push(source@));
            lemma_records_push(seen, source@, side as int);
        }
        match &source.decoded {
            Ok(decoded) => {
                match process_image(source.path.as_str(), decoded, side) {
                    Ok(record) => {
                        let ghost before = records@;
                        records.push(record);
                        assert(records_view(records@) =~= records_view(before).push(record@));
                    },
                    Err(_) => {},
                }
            },
            Err(_) => {},
        }
        i = i + 1;
    }
    proof {
        assert(all.subrange(0, i as int) =~= all);
        all.lemma_filter_len(|s: SourceView| is_valid_image(s, side as int));
    }
    records
}

/// The whole comparison over a batch held in memory: every loaded image is
/// normalized and fingerprinted, and once all records are there, every two
/// of them are compared under the configured threshold.
pub fn find_duplicates(sources: &Vec<ImageSource>, config: &Config) -> (pairs: Vec<SimilarPair>)
    ensures
        pairs_view(pairs@) == similar_pairs(
            records_for(sources_view(sources@), config@.canvas_size),
            config@.threshold as nat,
        ),
{
    let records = process_images(sources, config.canvas_size());
    find_similar_images(&records, config.threshold())
}

} // verus!
