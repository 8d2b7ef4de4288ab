//! Predicted arrivals at a stop.

use vstd::prelude::*;
use vstd::string::*;

use crate::api_requests::models::prediction_timing::PredictionTiming;
use crate::api_requests::models::{
    TFL_API_FIELD_LONG_STR_SIZE,
    TFL_API_FIELD_SHORT_STR_SIZE,
    TFL_API_FIELD_STR_SIZE,
};
use crate::string_utilities::{contains, contains_bytes};
use crate::text::Text;

verus! {

/// Most predictions that one response may hold.
pub const ARRAY_MAX_SIZE_PREDICTION_MODEL: usize = 8;

/// The predicted arrival of one vehicle at one platform.
pub struct Prediction {
    pub _type: Text,
    pub id: Text,
    pub operation_type: u8,
    pub vehicle_id: Text,
    pub naptan_id: Text,
    pub station_name: Text,
    pub line_id: Text,
    pub line_name: Text,
    pub platform_name: Text,
    pub direction: Text,
    pub bearing: Text,
    pub destination_naptan_id: Text,
    pub destination_name: Text,
    pub timestamp: Text,
    pub time_to_station: u32,
    pub current_location: Text,
    pub towards: Text,
    pub expected_arrival: Text,
    pub time_to_live: Text,
    pub mode_name: Text,
    pub timing: PredictionTiming,
}

impl Prediction {
    /// Every field is within the length that the record allows for it.
    pub open spec fn well_formed(&self) -> bool {
        &&& self._type@.len() <= TFL_API_FIELD_LONG_STR_SIZE
        &&& self.id@.len() <= TFL_API_FIELD_STR_SIZE
        &&& self.vehicle_id@.len() <= TFL_API_FIELD_STR_SIZE
        &&& self.naptan_id@.len() <= TFL_API_FIELD_STR_SIZE
        &&& self.station_name@.len() <= TFL_API_FIELD_STR_SIZE
        &&& self.line_id@.len() <= TFL_API_FIELD_STR_SIZE
        &&& self.line_name@.len() <= TFL_API_FIELD_STR_SIZE
        &&& self.platform_name@.len() <= TFL_API_FIELD_STR_SIZE
        &&& self.direction@.len() <= TFL_API_FIELD_SHORT_STR_SIZE
        &&& self.bearing@.len() <= TFL_API_FIELD_STR_SIZE
        &&& self.destination_naptan_id@.len() <= TFL_API_FIELD_STR_SIZE
        &&& self.destination_name@.len() <= TFL_API_FIELD_STR_SIZE
        &&& self.timestamp@.len() <= TFL_API_FIELD_STR_SIZE
        &&& self.current_location@.len() <= TFL_API_FIELD_LONG_STR_SIZE
        &&& self.towards@.len() <= TFL_API_FIELD_STR_SIZE
        &&& self.expected_arrival@.len() <= TFL_API_FIELD_STR_SIZE
        &&& self.time_to_live@.len() <= TFL_API_FIELD_STR_SIZE
        &&& self.mode_name@.len() <= TFL_API_FIELD_STR_SIZE
        &&& self.timing.well_formed()
    }

    /// The name of the platform holds `platform` as a part.
    pub open spec fn on_platform(&self, platform: Seq<u8>) -> bool {
        contains_bytes(self.platform_name@, platform)
    }

    /// Whether the name of the platform holds `platform` as a part.
    pub fn serves_platform(&self, platform: &str) -> (r: bool)
        ensures
            r == self.on_platform(platform.spec_bytes()),
    {
        contains(self.platform_name.as_str(), platform)
    }

    /// Whether every field is within its length.
    pub fn within_capacity(&self) -> (ok: bool)
        ensures
            ok == self.well_formed(),
    {
        self._type.len() <= TFL_API_FIELD_LONG_STR_SIZE
            && self.id.len() <= TFL_API_FIELD_STR_SIZE
            && self.vehicle_id.len() <= TFL_API_FIELD_STR_SIZE
            && self.naptan_id.len() <= TFL_API_FIELD_STR_SIZE
            && self.station_name.len() <= TFL_API_FIELD_STR_SIZE
            && self.line_id.len() <= TFL_API_FIELD_STR_SIZE
            && self.line_name.len() <= TFL_API_FIELD_STR_SIZE
            && self.platform_name.len() <= TFL_API_FIELD_STR_SIZE
            && self.direction.len() <= TFL_API_FIELD_SHORT_STR_SIZE
            && self.bearing.len() <= TFL_API_FIELD_STR_SIZE
            && self.destination_naptan_id.len() <= TFL_API_FIELD_STR_SIZE
            && self.destination_name.len() <= TFL_API_FIELD_STR_SIZE
            && self.timestamp.len() <= TFL_API_FIELD_STR_SIZE
            && self.current_location.len() <= TFL_API_FIELD_LONG_STR_SIZE
            && self.towards.len() <= TFL_API_FIELD_STR_SIZE
            && self.expected_arrival.len() <= TFL_API_FIELD_STR_SIZE
            && self.time_to_live.len() <= TFL_API_FIELD_STR_SIZE
            && self.mode_name.len() <= TFL_API_FIELD_STR_SIZE
            && self.timing.within_capacity()
    }
}

/// The predictions of `items` that are on `platform`, in their order.
pub open spec fn on_platform_only(items: Seq<Prediction>, platform: Seq<u8>) -> Seq<Prediction> {
    items.filter(|p: Prediction| p.on_platform(platform))
}

/// The predictions of `items` that arrive in `seconds` seconds, in their
/// order.
pub open spec fn arriving_in(items: Seq<Prediction>, seconds: u32) -> Seq<Prediction> {
    items.filter(|p: Prediction| p.time_to_station == seconds)
}

/// No prediction of `items` stands before one that arrives sooner.
pub open spec fn sorted_by_arrival(items: Seq<Prediction>) -> bool {
    forall|i: int, j: int|
        0 <= i <= j < items.len() ==> items[i].time_to_station <= items[j].time_to_station
}

/// `ranked` holds the predictions of `items` by time of arrival, soonest
/// first, those that arrive at the same time in the order that they have in
/// `items`.
pub open spec fn ranked_by_arrival(ranked: Seq<Prediction>, items: Seq<Prediction>) -> bool {
    &&& ranked.len() == items.len()
    &&& ranked.to_multiset() == items.to_multiset()
    &&& sorted_by_arrival(ranked)
    &&& forall|seconds: u32| arriving_in(ranked, seconds) == arriving_in(items, seconds)
}

/// A list of at most [`ARRAY_MAX_SIZE_PREDICTION_MODEL`] predictions.
///
/// The predictions live in a `heapless::Vec`, which the verifier does not
/// look into: what it holds is [`prediction_list_items`].
#[verifier::external_body]
pub struct PredictionList {
    inner: heapless::Vec<Prediction, 8>,
}

/// The predictions that a list holds, in order.
pub uninterp spec fn prediction_list_items(list: PredictionList) -> Seq<Prediction>;

impl View for PredictionList {
    type V = Seq<Prediction>;

    open spec fn view(&self) -> Seq<Prediction> {
        prediction_list_items(*self)
    }
}

/// `heapless::Vec::new`: the new vector holds nothing.
#[verifier::external_body]
fn raw_new() -> (list: PredictionList)
    ensures
        prediction_list_items(list) == Seq::<Prediction>::empty(),
{
    PredictionList { inner: heapless::Vec::new() }
}

/// `heapless::Vec::len`: the number of items, which is never more than the
/// capacity of the vector.
#[verifier::external_body]
fn raw_len(list: &PredictionList) -> (n: usize)
    ensures
        n == prediction_list_items(*list).len(),
        n <= ARRAY_MAX_SIZE_PREDICTION_MODEL,
{
    list.inner.len()
}

/// `heapless::Vec::push`: the item goes to the end of a vector that is not
/// full; a full vector stays as it is and hands the item back.
#[verifier::external_body]
fn raw_push(list: &mut PredictionList, item: Prediction) -> (back: Option<Prediction>)
    ensures
        back.is_none() == (prediction_list_items(*old(list)).len()
            < ARRAY_MAX_SIZE_PREDICTION_MODEL),
        back.is_none() ==> prediction_list_items(*final(list)) == prediction_list_items(
            *old(list),
        ).push(item),
        back.is_some() ==> back == Some(item) && prediction_list_items(*final(list))
            == prediction_list_items(*old(list)),
{
    list.inner.push(item).err()
}

/// Indexing into a `heapless::Vec`, which panics past the last item: the
/// item at `index`.
#[verifier::external_body]
fn raw_get(list: &PredictionList, index: usize) -> (item: &Prediction)
    requires
        index < prediction_list_items(*list).len(),
    ensures
        *item == prediction_list_items(*list)[index as int],
{
    &list.inner[index]
}

/// `heapless::Vec::remove`, which panics past the last item: takes the item
/// at `index` out and returns it, the items behind it moving up by one.
#[verifier::external_body]
fn raw_remove(list: &mut PredictionList, index: usize) -> (item: Prediction)
    requires
        index < prediction_list_items(*old(list)).len(),
    ensures
        item == prediction_list_items(*old(list))[index as int],
        prediction_list_items(*final(list)) == prediction_list_items(*old(list)).remove(
            index as int,
        ),
{
    list.inner.remove(index)
}

/// `heapless::Vec::retain` with the test [`Prediction::serves_platform`]:
/// the items that pass the test stay, in their order.
#[verifier::external_body]
pub(crate) fn raw_retain_on_platform(list: &mut PredictionList, platform: &str)
    ensures
        prediction_list_items(*final(list)) == on_platform_only(
            prediction_list_items(*old(list)),
            platform.spec_bytes(),
        ),
{
    list.inner.retain(|p| p.serves_platform(platform))
}

/// `heapless::Vec::truncate`: keeps the first `len` items, or all of them
/// when the vector holds no more than that.
#[verifier::external_body]
pub(crate) fn raw_truncate(list: &mut PredictionList, len: usize)
    ensures
        prediction_list_items(*final(list)) == if len <= prediction_list_items(
            *old(list),
        ).len() {
            prediction_list_items(*old(list)).take(len as int)
        } else {
            prediction_list_items(*old(list))
        },
{
    list.inner.truncate(len)
}

/// `slice::sort_by_key` on the items, the key being the time to the station:
/// a stable sort, so the items come out by ascending key and items with the
/// same key keep their order.
#[verifier::external_body]
pub(crate) fn raw_sort_by_arrival(list: &mut PredictionList)
    ensures
        ranked_by_arrival(prediction_list_items(*final(list)), prediction_list_items(*old(list))),
{
    list.inner.sort_by_key(|p| p.time_to_station)
}

impl PredictionList {
    /// An empty list.
    pub fn new() -> (list: PredictionList)
        ensures
            list@ == Seq::<Prediction>::empty(),
    {
        raw_new()
    }

    /// Number of predictions in the list.
    pub fn len(&self) -> (n: usize)
        ensures
            n == self@.len(),
            n <= ARRAY_MAX_SIZE_PREDICTION_MODEL,
    {
        raw_len(self)
    }

    /// Whether the list holds nothing.
    pub fn is_empty(&self) -> (r: bool)
        ensures
            r == (self@.len() == 0),
    {
        raw_len(self) == 0
    }

    /// Adds `item` at the end, or hands it back when the list is full.
    pub fn push(&mut self, item: Prediction) -> (r: Result<(), Prediction>)
        ensures
            r.is_ok() == (old(self)@.len() < ARRAY_MAX_SIZE_PREDICTION_MODEL),
            r.is_ok() ==> final(self)@ == old(self)@.push(item),
            r.is_err() ==> r.unwrap_err() == item && final(self)@ == old(self)@,
    {
        match raw_push(self, item) {
            None => Ok(()),
            Some(back) => Err(back),
        }
    }

    /// The prediction at `index`, if there is one.
    pub fn get(&self, index: usize) -> (r: Option<&Prediction>)
        ensures
            r.is_some() == (index < self@.len()),
            r.is_some() ==> *r.unwrap() == self@[index as int],
    {
        if index < raw_len(self) {
            Some(raw_get(self, index))
        } else {
            None
        }
    }

    /// Takes the first prediction out of the list, if there is one.
    pub fn take_first(&mut self) -> (r: Option<Prediction>)
        ensures
            r.is_some() == (old(self)@.len() > 0),
            r.is_some() ==> r.unwrap() == old(self)@[0] && final(self)@ == old(self)@.remove(0),
            r.is_none() ==> final(self)@ == old(self)@,
    {
        if raw_len(self) > 0 {
            Some(raw_remove(self, 0))
        } else {
            None
        }
    }
}

} // verus!
