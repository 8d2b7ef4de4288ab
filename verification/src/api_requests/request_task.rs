//! One cycle of acquisition: the pause before it, and the handing on of what
//! it brought.

use vstd::prelude::*;

use crate::api_requests::models::prediction::{Prediction, PredictionList};
use crate::api_requests::models::status::Status;
use crate::channels::{PredictionChannel, StatusChannel};
use crate::{TFL_API_DISRUPTION_CHANNEL_SIZE, TFL_API_PREDICTION_CHANNEL_SIZE};

verus! {

/// Seconds between two cycles where nothing else is configured.
pub const DEFAULT_QUERY_DELAY_SECS: u64 = 30;

/// The pause before a cycle, in seconds: none before the first cycle, and
/// afterwards the configured one, or the default where none is configured.
pub fn cycle_delay(sleep_this_cycle: bool, configured: Option<u64>) -> (r: Option<u64>)
    ensures
        r == if !sleep_this_cycle {
            None
        } else {
            match configured {
                Some(secs) => Some(secs),
                None => Some(DEFAULT_QUERY_DELAY_SECS),
            }
        },
{
    if !sleep_this_cycle {
        None
    } else {
        match configured {
            Some(secs) => Some(secs),
            None => Some(DEFAULT_QUERY_DELAY_SECS),
        }
    }
}

/// What waits in the channel of predictions after `items` were offered to
/// it one by one: those that waited, and behind them the first of `items`,
/// as many as there was room for.
pub open spec fn after_predictions(waiting: Seq<Prediction>, items: Seq<Prediction>) -> Seq<
    Prediction,
> {
    let room = TFL_API_PREDICTION_CHANNEL_SIZE - waiting.len();
    if room <= 0 {
        waiting
    } else if items.len() <= room {
        waiting + items
    } else {
        waiting + items.take(room)
    }
}

/// What waits in the channel of status reports after `status` was offered to
/// it.
pub open spec fn after_status(waiting: Seq<Status>, status: Status) -> Seq<Status> {
    if waiting.len() < TFL_API_DISRUPTION_CHANNEL_SIZE {
        waiting.push(status)
    } else {
        waiting
    }
}

/// A channel that is full takes nothing, and a channel that is within its
/// capacity stays within it whatever is offered to it.
pub proof fn lemma_full_channel_takes_nothing(
    waiting: Seq<Prediction>,
    items: Seq<Prediction>,
    reports: Seq<Status>,
    status: Status,
)
    ensures
        waiting.len() >= TFL_API_PREDICTION_CHANNEL_SIZE ==> after_predictions(waiting, items)
            == waiting,
        waiting.len() <= TFL_API_PREDICTION_CHANNEL_SIZE ==> after_predictions(
            waiting,
            items,
        ).len() <= TFL_API_PREDICTION_CHANNEL_SIZE,
        reports.len() >= TFL_API_DISRUPTION_CHANNEL_SIZE ==> after_status(reports, status)
            == reports,
        reports.len() <= TFL_API_DISRUPTION_CHANNEL_SIZE ==> after_status(reports, status).len()
            <= TFL_API_DISRUPTION_CHANNEL_SIZE,
{
}

/// Offers each prediction of a list to the channel, in order, and returns
/// how many it took. One that finds the channel full is dropped.
pub fn deliver_predictions(channel: &mut PredictionChannel, predictions: PredictionList) -> (sent:
    usize)
    ensures
        final(channel)@ == after_predictions(old(channel)@, predictions@),
        sent == final(channel)@.len() - old(channel)@.len(),
        final(channel)@.len() <= TFL_API_PREDICTION_CHANNEL_SIZE,
{
    let mut list = predictions;
    let mut sent: usize = 0;
    let ghost mut done: int = 0;
    let _ = channel.len();
    assert(predictions@.take(0) =~= Seq::<Prediction>::empty());
    assert(old(channel)@ + Seq::<Prediction>::empty() =~= old(channel)@);
    assert(predictions@.skip(0) =~= predictions@);
    loop
        invariant
            0 <= done <= predictions@.len(),
            list@ == predictions@.skip(done),
            channel@ == after_predictions(old(channel)@, predictions@.take(done)),
            old(channel)@.len() <= TFL_API_PREDICTION_CHANNEL_SIZE,
            sent == channel@.len() - old(channel)@.len(),
        ensures
            channel@ == after_predictions(old(channel)@, predictions@),
            sent == channel@.len() - old(channel)@.len(),
            channel@.len() <= TFL_API_PREDICTION_CHANNEL_SIZE,
        decreases list@.len(),
    {
        let ghost before = channel@;
        match list.take_first() {
            Some(item) => {
                let went = channel.deliver(item);
                proof {
                    let upto = predictions@.take(done);
                    let next = predictions@.take(done + 1);
                    assert(item == predictions@[done]);
                    assert(next =~= upto.push(item));
                    let room = TFL_API_PREDICTION_CHANNEL_SIZE - old(channel)@.len();
                    if went {
                        assert(upto.len() < room);
                        assert(before == old(channel)@ + upto);
                        assert(channel@ =~= old(channel)@ + next);
                    } else {
                        if room > 0 {
                            assert(upto.len() >= room);
                            assert(next.take(room) =~= upto.take(room));
                            assert(upto.take(upto.len() as int) =~= upto);
                        }
                    }
                    assert(predictions@.skip(done).remove(0) =~= predictions@.skip(done + 1));
                    done = done + 1;
                }
                if went {
                    sent += 1;
                }
            },
            None => {
                proof {
                    assert(predictions@.take(done) =~= predictions@);
                }
                break ;
            },
        }
    }
    sent
}

/// Hands on what one cycle brought: first the status report, if there is
/// one, then the predictions, if there are any. A record that finds its
/// channel full is dropped; nothing waits for room.
pub fn request_task(
    status: Option<Status>,
    predictions: Option<PredictionList>,
    status_channel: &mut StatusChannel,
    prediction_channel: &mut PredictionChannel,
)
    ensures
        final(status_channel)@ == match status {
            Some(report) => after_status(old(status_channel)@, report),
            None => old(status_channel)@,
        },
        final(prediction_channel)@ == match predictions {
            Some(list) => after_predictions(old(prediction_channel)@, list@),
            None => old(prediction_channel)@,
        },
        final(status_channel)@.len() <= TFL_API_DISRUPTION_CHANNEL_SIZE,
        final(prediction_channel)@.len() <= TFL_API_PREDICTION_CHANNEL_SIZE,
{
    let _ = status_channel.len();
    let _ = prediction_channel.len();
    match status {
        Some(report) => {
            let _ = status_channel.deliver(report);
        },
        None => {},
    }
    match predictions {
        Some(list) => {
            let _ = deliver_predictions(prediction_channel, list);
        },
        None => {},
    }
}

} // verus!
