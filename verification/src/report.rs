//! The records that background work leaves in the event log.
//!
//! What the wallet hands back is opaque here: an outcome is `Ok` with the
//! text that renders what was achieved, or `Err` with the text that renders
//! the error.

use crate::event::EventView;
use crate::event_log::appended;
use crate::event_log::replayed;
use crate::event_log::EventLog;
use vstd::prelude::*;

verus! {

/// The record of an operation that failed: what was being done, and the
/// error.
pub open spec fn failure_text(operation: Seq<char>, error: Seq<char>) -> Seq<char> {
    "Error while "@ + operation + ": "@ + error
}

/// The record of one item of a refresh pass.
pub open spec fn fetch_text(outcome: Result<String, String>) -> Seq<char> {
    match outcome {
        Ok(txid) => "successfully fetched: "@ + txid@,
        Err(error) => failure_text("fetching"@, error@),
    }
}

/// The record of a finished reissue.
pub open spec fn reissue_text(outcome: Result<String, String>) -> Seq<char> {
    match outcome {
        Ok(out_point) => "Successful reissue, outpoint: "@ + out_point@,
        Err(error) => failure_text("reissue"@, error@),
    }
}

/// The record of a signal that could not be handed to the refresh worker.
pub open spec fn unreachable_text(error: Seq<char>) -> Seq<char> {
    "Critical error, restart the deamon: "@ + error
}

/// The events that a refresh pass with the outcomes `outcomes` leaves, the
/// event of item `i` stamped `stamps[i]`.
pub open spec fn fetch_events(outcomes: Seq<Result<String, String>>, stamps: Seq<u64>) -> Seq<
    EventView,
> {
    Seq::new(
        outcomes.len(),
        |i: int| EventView { timestamp: stamps[i], data: fetch_text(outcomes[i]) },
    )
}

/// Renders the record of an operation that failed.
pub fn failure_message(operation: &str, error: &str) -> (message: String)
    ensures
        message@ == failure_text(operation@, error@),
{
    String::from_str("Error while ").concat(operation).concat(": ").concat(error)
}

/// Renders the record of one item of a refresh pass.
pub fn fetch_message(outcome: &Result<String, String>) -> (message: String)
    ensures
        message@ == fetch_text(*outcome),
{
    match outcome {
        Ok(txid) => String::from_str("successfully fetched: ").concat(txid.as_str()),
        Err(error) => failure_message("fetching", error.as_str()),
    }
}

/// Renders the record of a finished reissue.
pub fn reissue_message(outcome: &Result<String, String>) -> (message: String)
    ensures
        message@ == reissue_text(*outcome),
{
    match outcome {
        Ok(out_point) => String::from_str("Successful reissue, outpoint: ").concat(
            out_point.as_str(),
        ),
        Err(error) => failure_message("reissue", error.as_str()),
    }
}

/// Renders the record of a signal that could not be handed to the refresh
/// worker.
pub fn unreachable_message(error: &str) -> (message: String)
    ensures
        message@ == unreachable_text(error@),
{
    String::from_str("Critical error, restart the deamon: ").concat(error)
}

/// Records a refresh pass: one event for each outcome, in their order,
/// whether the item went well or not. Returns the timestamps that the events
/// got.
pub fn record_fetch(log: &mut EventLog, outcomes: &Vec<Result<String, String>>) -> (stamps: Vec<
    u64,
>)
    requires
        old(log).wf(),
    ensures
        final(log).wf(),
        final(log).spec_capacity() == old(log).spec_capacity(),
        stamps@.len() == outcomes@.len(),
        final(log)@ == replayed(
            old(log)@,
            old(log).spec_capacity(),
            fetch_events(outcomes@, stamps@),
        ),
{
    let ghost start = log@;
    let ghost capacity = log.spec_capacity();
    let mut stamps: Vec<u64> = Vec::new();
    let mut next: usize = 0;
    assert(fetch_events(outcomes@.take(0), stamps@) =~= Seq::<EventView>::empty());
    while next < outcomes.len()
        invariant
            next <= outcomes@.len(),
            stamps@.len() == next,
            log.wf(),
            log.spec_capacity() == capacity,
            log@ == replayed(start, capacity, fetch_events(outcomes@.take(next as int), stamps@)),
        decreases outcomes@.len() - next,
    {
        let ghost done = fetch_events(outcomes@.take(next as int), stamps@);
        let message = fetch_message(&outcomes[next]);
        let timestamp = log.add(message);
        stamps.push(timestamp);
        proof {
            let batch = fetch_events(outcomes@.take(next + 1), stamps@);
            assert(batch.drop_last() =~= done);
            assert(batch.last() == (EventView {
                timestamp,
                data: fetch_text(outcomes@[next as int]),
            }));
        }
        next += 1;
    }
    assert(outcomes@.take(next as int) =~= outcomes@);
    stamps
}

/// Records a finished reissue as one event. Returns the timestamp that the
/// event got and whether the refresh worker is to be signalled, which is so
/// exactly when the reissue went well.
pub fn record_reissue(log: &mut EventLog, outcome: &Result<String, String>) -> (recorded: (
    u64,
    bool,
))
    requires
        old(log).wf(),
    ensures
        final(log).wf(),
        final(log).spec_capacity() == old(log).spec_capacity(),
        final(log)@ == appended(
            old(log)@,
            old(log).spec_capacity(),
            EventView { timestamp: recorded.0, data: reissue_text(*outcome) },
        ),
        recorded.1 == outcome.is_ok(),
{
    let timestamp = log.add(reissue_message(outcome));
    (timestamp, outcome.is_ok())
}

/// Records that `operation` failed with `error`, as one event. Returns the
/// timestamp that the event got.
pub fn record_failure(log: &mut EventLog, operation: &str, error: &str) -> (timestamp: u64)
    requires
        old(log).wf(),
    ensures
        final(log).wf(),
        final(log).spec_capacity() == old(log).spec_capacity(),
        final(log)@ == appended(
            old(log)@,
            old(log).spec_capacity(),
            EventView { timestamp, data: failure_text(operation@, error@) },
        ),
{
    log.add(failure_message(operation, error))
}

/// Records that a signal could not be handed to the refresh worker, with the
/// text of the error. Returns the timestamp that the event got.
pub fn record_unreachable(log: &mut EventLog, error: &str) -> (timestamp: u64)
    requires
        old(log).wf(),
    ensures
        final(log).wf(),
        final(log).spec_capacity() == old(log).spec_capacity(),
        final(log)@ == appended(
            old(log)@,
            old(log).spec_capacity(),
            EventView { timestamp, data: unreachable_text(error@) },
        ),
{
    log.add(unreachable_message(error))
}

} // verus!
