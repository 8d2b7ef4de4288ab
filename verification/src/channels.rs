//! The bounded queues that carry records from acquisition to the display.
//!
//! A queue is first in, first out. A record sent to a full queue is not
//! taken: the sender keeps it and goes on, so that a slow reader costs
//! records and never time.

use vstd::prelude::*;

use embassy_sync::blocking_mutex::raw::NoopRawMutex;
use embassy_sync::channel::Channel;

use crate::api_requests::models::prediction::{Prediction, PredictionList};
use crate::api_requests::models::status::Status;
use crate::{TFL_API_DISRUPTION_CHANNEL_SIZE, TFL_API_PREDICTION_CHANNEL_SIZE};

verus! {

/// The queue of predictions between acquisition and display.
///
/// The predictions wait in an `embassy_sync::channel::Channel`, which the
/// verifier does not look into: what it holds is
/// [`prediction_channel_items`].
#[verifier::external_body]
pub struct PredictionChannel {
    inner: Channel<NoopRawMutex, Prediction, 3>,
}

/// The predictions that wait in a channel, the one sent first in front.
pub uninterp spec fn prediction_channel_items(channel: PredictionChannel) -> Seq<Prediction>;

impl View for PredictionChannel {
    type V = Seq<Prediction>;

    open spec fn view(&self) -> Seq<Prediction> {
        prediction_channel_items(*self)
    }
}

/// `Channel::new`: the new channel holds nothing.
#[verifier::external_body]
fn raw_new_predictions() -> (channel: PredictionChannel)
    ensures
        prediction_channel_items(channel) == Seq::<Prediction>::empty(),
{
    PredictionChannel { inner: Channel::new() }
}

/// `Channel::len`: the number of records that wait, which is never more than
/// the capacity of the channel.
#[verifier::external_body]
fn raw_len_predictions(channel: &PredictionChannel) -> (n: usize)
    ensures
        n == prediction_channel_items(*channel).len(),
        n <= TFL_API_PREDICTION_CHANNEL_SIZE,
{
    channel.inner.len()
}

/// `Channel::is_full`: whether as many records wait as the channel can hold.
#[verifier::external_body]
fn raw_is_full_predictions(channel: &PredictionChannel) -> (full: bool)
    ensures
        full == (prediction_channel_items(*channel).len() == TFL_API_PREDICTION_CHANNEL_SIZE),
{
    channel.inner.is_full()
}

/// `Channel::try_send`: the record goes to the back of a channel that is not
/// full; a full channel stays as it is and hands the record back.
#[verifier::external_body]
fn raw_try_send_prediction(channel: &mut PredictionChannel, item: Prediction) -> (back: Option<
    Prediction,
>)
    ensures
        back.is_none() == (prediction_channel_items(*old(channel)).len()
            < TFL_API_PREDICTION_CHANNEL_SIZE),
        back.is_none() ==> prediction_channel_items(*final(channel)) == prediction_channel_items(
            *old(channel),
        ).push(item),
        back.is_some() ==> back == Some(item) && prediction_channel_items(*final(channel))
            == prediction_channel_items(*old(channel)),
{
    match channel.inner.try_send(item) {
        Ok(()) => None,
        Err(embassy_sync::channel::TrySendError::Full(item)) => Some(item),
    }
}

/// `Channel::try_receive`: takes the record at the front, if any waits.
#[verifier::external_body]
fn raw_try_receive_prediction(channel: &mut PredictionChannel) -> (item: Option<Prediction>)
    ensures
        item.is_some() == (prediction_channel_items(*old(channel)).len() > 0),
        item.is_some() ==> item == Some(prediction_channel_items(*old(channel))[0])
            && prediction_channel_items(*final(channel)) == prediction_channel_items(
            *old(channel),
        ).drop_first(),
        item.is_none() ==> prediction_channel_items(*final(channel)) == prediction_channel_items(
            *old(channel),
        ),
{
    channel.inner.try_receive().ok()
}

/// `Channel::clear`: nothing waits any more.
#[verifier::external_body]
fn raw_clear_predictions(channel: &mut PredictionChannel)
    ensures
        prediction_channel_items(*final(channel)) == Seq::<Prediction>::empty(),
{
    channel.inner.clear()
}

impl PredictionChannel {
    /// An empty channel.
    pub fn new() -> (channel: PredictionChannel)
        ensures
            channel@ == Seq::<Prediction>::empty(),
    {
        raw_new_predictions()
    }

    /// Number of predictions that wait.
    pub fn len(&self) -> (n: usize)
        ensures
            n == self@.len(),
            n <= TFL_API_PREDICTION_CHANNEL_SIZE,
    {
        raw_len_predictions(self)
    }

    /// Whether the channel can take no more.
    pub fn is_full(&self) -> (full: bool)
        ensures
            full == (self@.len() == TFL_API_PREDICTION_CHANNEL_SIZE),
    {
        raw_is_full_predictions(self)
    }

    /// Sends `item` unless the channel is full, and says whether it went.
    /// The call never waits, and a full channel is left as it is.
    pub fn deliver(&mut self, item: Prediction) -> (sent: bool)
        ensures
            sent == (old(self)@.len() < TFL_API_PREDICTION_CHANNEL_SIZE),
            sent ==> final(self)@ == old(self)@.push(item),
            !sent ==> final(self)@ == old(self)@,
            final(self)@.len() <= TFL_API_PREDICTION_CHANNEL_SIZE,
    {
        let _ = raw_len_predictions(self);
        if raw_is_full_predictions(self) {
            false
        } else {
            let back = raw_try_send_prediction(self, item);
            back.is_none()
        }
    }

    /// Takes the prediction that waited longest, if any waits.
    pub fn try_receive(&mut self) -> (item: Option<Prediction>)
        ensures
            item.is_some() == (old(self)@.len() > 0),
            item.is_some() ==> item == Some(old(self)@[0]) && final(self)@ == old(
                self,
            )@.drop_first(),
            item.is_none() ==> final(self)@ == old(self)@,
    {
        raw_try_receive_prediction(self)
    }

    /// Discards what waits.
    pub fn clear(&mut self)
        ensures
            final(self)@ == Seq::<Prediction>::empty(),
    {
        raw_clear_predictions(self)
    }
}

/// The queue of status reports between acquisition and display.
///
/// The reports wait in an `embassy_sync::channel::Channel`, which the
/// verifier does not look into: what it holds is
/// [`status_channel_items`].
#[verifier::external_body]
pub struct StatusChannel {
    inner: Channel<NoopRawMutex, Status, 1>,
}

/// The status reports that wait in a channel, the one sent first in front.
pub uninterp spec fn status_channel_items(channel: StatusChannel) -> Seq<Status>;

impl View for StatusChannel {
    type V = Seq<Status>;

    open spec fn view(&self) -> Seq<Status> {
        status_channel_items(*self)
    }
}

/// `Channel::new`: the new channel holds nothing.
#[verifier::external_body]
fn raw_new_statuses() -> (channel: StatusChannel)
    ensures
        status_channel_items(channel) == Seq::<Status>::empty(),
{
    StatusChannel { inner: Channel::new() }
}

/// `Channel::len`: the number of records that wait, which is never more than
/// the capacity of the channel.
#[verifier::external_body]
fn raw_len_statuses(channel: &StatusChannel) -> (n: usize)
    ensures
        n == status_channel_items(*channel).len(),
        n <= TFL_API_DISRUPTION_CHANNEL_SIZE,
{
    channel.inner.len()
}

/// `Channel::is_full`: whether as many records wait as the channel can hold.
#[verifier::external_body]
fn raw_is_full_statuses(channel: &StatusChannel) -> (full: bool)
    ensures
        full == (status_channel_items(*channel).len() == TFL_API_DISRUPTION_CHANNEL_SIZE),
{
    channel.inner.is_full()
}

/// `Channel::try_send`: the record goes to the back of a channel that is not
/// full; a full channel stays as it is and hands the record back.
#[verifier::external_body]
fn raw_try_send_status(channel: &mut StatusChannel, item: Status) -> (back: Option<Status>)
    ensures
        back.is_none() == (status_channel_items(*old(channel)).len()
            < TFL_API_DISRUPTION_CHANNEL_SIZE),
        back.is_none() ==> status_channel_items(*final(channel)) == status_channel_items(
            *old(channel),
        ).push(item),
        back.is_some() ==> back == Some(item) && status_channel_items(*final(channel))
            == status_channel_items(*old(channel)),
{
    match channel.inner.try_send(item) {
        Ok(()) => None,
        Err(embassy_sync::channel::TrySendError::Full(item)) => Some(item),
    }
}

/// `Channel::try_receive`: takes the record at the front, if any waits.
#[verifier::external_body]
fn raw_try_receive_status(channel: &mut StatusChannel) -> (item: Option<Status>)
    ensures
        item.is_some() == (status_channel_items(*old(channel)).len() > 0),
        item.is_some() ==> item == Some(status_channel_items(*old(channel))[0])
            && status_channel_items(*final(channel)) == status_channel_items(
            *old(channel),
        ).drop_first(),
        item.is_none() ==> status_channel_items(*final(channel)) == status_channel_items(
            *old(channel),
        ),
{
    channel.inner.try_receive().ok()
}

/// `Channel::clear`: nothing waits any more.
#[verifier::external_body]
fn raw_clear_statuses(channel: &mut StatusChannel)
    ensures
        status_channel_items(*final(channel)) == Seq::<Status>::empty(),
{
    channel.inner.clear()
}

impl StatusChannel {
    /// An empty channel.
    pub fn new() -> (channel: StatusChannel)
        ensures
            channel@ == Seq::<Status>::empty(),
    {
        raw_new_statuses()
    }

    /// Number of status reports that wait.
    pub fn len(&self) -> (n: usize)
        ensures
            n == self@.len(),
            n <= TFL_API_DISRUPTION_CHANNEL_SIZE,
    {
        raw_len_statuses(self)
    }

    /// Whether the channel can take no more.
    pub fn is_full(&self) -> (full: bool)
        ensures
            full == (self@.len() == TFL_API_DISRUPTION_CHANNEL_SIZE),
    {
        raw_is_full_statuses(self)
    }

    /// Sends `item` unless the channel is full, and says whether it went.
    /// The call never waits, and a full channel is left as it is.
    pub fn deliver(&mut self, item: Status) -> (sent: bool)
        ensures
            sent == (old(self)@.len() < TFL_API_DISRUPTION_CHANNEL_SIZE),
            sent ==> final(self)@ == old(self)@.push(item),
            !sent ==> final(self)@ == old(self)@,
            final(self)@.len() <= TFL_API_DISRUPTION_CHANNEL_SIZE,
    {
        let _ = raw_len_statuses(self);
        if raw_is_full_statuses(self) {
            false
        } else {
            let back = raw_try_send_status(self, item);
            back.is_none()
        }
    }

    /// Takes the status report that waited longest, if any waits.
    pub fn try_receive(&mut self) -> (item: Option<Status>)
        ensures
            item.is_some() == (old(self)@.len() > 0),
            item.is_some() ==> item == Some(old(self)@[0]) && final(self)@ == old(
                self,
            )@.drop_first(),
            item.is_none() ==> final(self)@ == old(self)@,
    {
        raw_try_receive_status(self)
    }

    /// Discards what waits.
    pub fn clear(&mut self)
        ensures
            final(self)@ == Seq::<Status>::empty(),
    {
        raw_clear_statuses(self)
    }
}

} // verus!
