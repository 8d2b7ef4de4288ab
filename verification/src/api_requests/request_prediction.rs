//! What becomes of a decoded list of predictions before it is handed on.

use vstd::prelude::*;
use vstd::string::*;

use crate::api_requests::models::prediction::{
    on_platform_only,
    ranked_by_arrival,
    raw_retain_on_platform,
    raw_sort_by_arrival,
    raw_truncate,
    Prediction,
    PredictionList,
};
use crate::TFL_API_PREDICTION_CHANNEL_SIZE;

verus! {

/// The predictions of `items` that go on: those on `platform`, in their
/// order, and of them no more than the channel to the display can hold.
pub open spec fn shortlist(items: Seq<Prediction>, platform: Seq<u8>) -> Seq<Prediction> {
    let kept = on_platform_only(items, platform);
    if kept.len() > TFL_API_PREDICTION_CHANNEL_SIZE {
        kept.take(TFL_API_PREDICTION_CHANNEL_SIZE as int)
    } else {
        kept
    }
}

/// Every prediction of the shortlist is on the platform and comes from
/// `items`, and the shortlist fits into the channel.
pub proof fn lemma_shortlist(items: Seq<Prediction>, platform: Seq<u8>)
    ensures
        shortlist(items, platform).len() <= TFL_API_PREDICTION_CHANNEL_SIZE,
        shortlist(items, platform).len() <= items.len(),
        forall|i: int|
            0 <= i < shortlist(items, platform).len() ==> (#[trigger] shortlist(
                items,
                platform,
            )[i]).on_platform(platform),
        forall|i: int|
            0 <= i < shortlist(items, platform).len() ==> items.contains(
                #[trigger] shortlist(items, platform)[i],
            ),
{
    let pred = |p: Prediction| p.on_platform(platform);
    let kept = items.filter(pred);
    let short = shortlist(items, platform);
    items.lemma_filter_len(pred);
    assert forall|i: int| 0 <= i < short.len() implies (#[trigger] short[i]).on_platform(
        platform,
    ) && items.contains(short[i]) by {
        assert(short[i] == kept[i]);
        items.lemma_filter_pred(pred, i);
        assert(kept.contains(kept[i]));
        lemma_filter_subset(items, pred, kept[i]);
    }
}

/// What a filter keeps was there before.
proof fn lemma_filter_subset(items: Seq<Prediction>, pred: spec_fn(Prediction) -> bool, p: Prediction)
    requires
        items.filter(pred).contains(p),
    ensures
        items.contains(p),
    decreases items.len(),
{
    reveal(Seq::filter);
    if items.len() > 0 {
        let rest = items.drop_last();
        if rest.filter(pred).contains(p) {
            lemma_filter_subset(rest, pred, p);
            let k = choose|k: int| 0 <= k < rest.len() && rest[k] == p;
            assert(items[k] == p);
        } else {
            let out = items.filter(pred);
            let k = choose|k: int| 0 <= k < out.len() && out[k] == p;
            if k < out.len() - 1 {
                assert(rest.filter(pred)[k] == p);
            }
            assert(items[items.len() - 1] == p);
        }
    }
}

/// Chooses and orders the predictions of a decoded response.
///
/// The predictions on the platform of interest stay, the first of them up to
/// the capacity of the channel to the display. If none is left the result is
/// `None`; otherwise they come back by time of arrival, soonest first, those
/// that arrive at the same time in the order in which they came.
pub fn request_prediction(predictions: PredictionList, platform_name: &str) -> (r: Option<
    PredictionList,
>)
    ensures
        r.is_none() == (on_platform_only(predictions@, platform_name.spec_bytes()).len() == 0),
        r.is_some() ==> ranked_by_arrival(
            r.unwrap()@,
            shortlist(predictions@, platform_name.spec_bytes()),
        ),
        r.is_some() ==> 0 < r.unwrap()@.len() <= TFL_API_PREDICTION_CHANNEL_SIZE,
        r.is_some() ==> forall|i: int|
            0 <= i < r.unwrap()@.len() ==> (#[trigger] r.unwrap()@[i]).on_platform(
                platform_name.spec_bytes(),
            ),
{
    let mut list = predictions;
    raw_retain_on_platform(&mut list, platform_name);
    raw_truncate(&mut list, TFL_API_PREDICTION_CHANNEL_SIZE);
    let ghost short = shortlist(predictions@, platform_name.spec_bytes());
    assert(list@ == short);
    if list.is_empty() {
        None
    } else {
        raw_sort_by_arrival(&mut list);
        proof {
            lemma_shortlist(predictions@, platform_name.spec_bytes());
            lemma_ranked_members(list@, short);
        }
        Some(list)
    }
}

/// Every prediction of a ranking is one of those that were ranked.
pub proof fn lemma_ranked_members(ranked: Seq<Prediction>, items: Seq<Prediction>)
    requires
        ranked_by_arrival(ranked, items),
    ensures
        forall|i: int| 0 <= i < ranked.len() ==> items.contains(#[trigger] ranked[i]),
{
    ranked.to_multiset_ensures();
    items.to_multiset_ensures();
    assert forall|i: int| 0 <= i < ranked.len() implies items.contains(#[trigger] ranked[i]) by {
        assert(ranked.contains(ranked[i]));
        assert(ranked.to_multiset().count(ranked[i]) > 0);
        assert(items.to_multiset().count(ranked[i]) > 0);
    }
}

} // verus!
