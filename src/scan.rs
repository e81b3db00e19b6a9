use vstd::prelude::*;
use crate::slots::SlotRangeArray;

verus! {

/// Where a scan-and-delete loop stands between two network calls.
#[derive(Clone, Copy, Debug, PartialEq, Eq, Structural)]
pub enum ScanState {
    /// The next call is a scan from this cursor.
    Scanning { cursor: u64 },
    /// The batch scanned from `cursor` is being deleted; the scan goes on from
    /// `next_cursor` once the delete is answered.
    Deleting { cursor: u64, next_cursor: u64 },
    /// A call failed; after the backoff the scan resumes from this cursor.
    Backoff { cursor: u64 },
    /// The scan came back to its starting cursor.
    Done,
    /// The loop was stopped from outside.
    Canceled,
}

/// What the runtime observed since the last action.
#[derive(Debug)]
pub enum ScanEvent {
    /// A scan reply: the next cursor and the keys of this batch.
    Scanned { next_cursor: u64, keys: Vec<Vec<u8>> },
    /// The delete was answered with a reply that is not an error.
    Deleted,
    /// The connection failed, or a reply was malformed or an error.
    Failed,
    /// The backoff delay has passed.
    Waited,
    /// Every stop-handle of the task was dropped.
    Stopped,
}

/// What the runtime must do next.
#[derive(Debug)]
pub enum ScanAction {
    /// Send `SCAN <cursor> COUNT <count>`.
    Scan { cursor: u64, count: u64 },
    /// Send `DEL` with these keys.
    Delete { keys: Vec<Vec<u8>> },
    /// Reconnect after this many microseconds.
    Wait { micros: u64 },
    /// The whole keyspace has been scanned.
    Finish,
    /// The task was stopped: issue nothing more.
    Cancel,
}

/// The byte strings that a list of keys holds.
pub open spec fn key_views(keys: Seq<Vec<u8>>) -> Seq<Seq<u8>> {
    keys.map_values(|k: Vec<u8>| k@)
}

/// The keys of a batch that lie outside every retained range, in their order.
pub open spec fn deletable(ranges: SlotRangeArray, keys: Seq<Seq<u8>>) -> Seq<Seq<u8>>
    decreases keys.len(),
{
    if keys.len() == 0 {
        Seq::empty()
    } else {
        let rest = deletable(ranges, keys.drop_last());
        if ranges.holds_key(keys.last()) {
            rest
        } else {
            rest.push(keys.last())
        }
    }
}

/// Selects the keys of a batch that the node no longer owns.
pub fn keys_to_delete(ranges: &SlotRangeArray, keys: &Vec<Vec<u8>>) -> (r: Vec<Vec<u8>>)
    ensures
        key_views(r@) == deletable(*ranges, key_views(keys@)),
{
    let mut out: Vec<Vec<u8>> = Vec::new();
    let mut i: usize = 0;
    while i < keys.len()
        invariant
            0 <= i <= keys@.len(),
            key_views(out@) == deletable(*ranges, key_views(keys@.take(i as int))),
        decreases keys@.len() - i,
    {
        let ghost before = key_views(out@);
        let inside = ranges.is_key_inside(keys[i].as_slice());
        assert(key_views(keys@.take(i + 1)).drop_last() == key_views(keys@.take(i as int)));
        assert(key_views(keys@.take(i + 1)).last() == keys@[i as int]@);
        if !inside {
            let k = keys[i].clone();
            out.push(k);
            assert(key_views(out@) == before.push(keys@[i as int]@));
        }
        i += 1;
    }
    assert(keys@.take(keys@.len() as int) == keys@);
    out
}

/// The cursor from which the scan resumes after a failure in this state.
pub open spec fn retry_cursor(state: ScanState) -> u64 {
    match state {
        ScanState::Scanning { cursor } => cursor,
        ScanState::Deleting { cursor, next_cursor: _ } => cursor,
        ScanState::Backoff { cursor } => cursor,
        _ => 0,
    }
}

/// Moving on to a cursor: the scan is over when it is back at the start.
pub open spec fn advance(next_cursor: u64) -> ScanState {
    if next_cursor == 0 {
        ScanState::Done
    } else {
        ScanState::Scanning { cursor: next_cursor }
    }
}

/// The state that follows an event. A finished or stopped loop stays so; a stop
/// wins over everything else; any failure, or an event that does not answer the
/// last call, leads to a backoff that retries from the cursor of the last scan.
pub open spec fn next_state(state: ScanState, event: ScanEvent, ranges: SlotRangeArray) -> ScanState {
    match state {
        ScanState::Done => ScanState::Done,
        ScanState::Canceled => ScanState::Canceled,
        _ => match event {
            ScanEvent::Stopped => ScanState::Canceled,
            ScanEvent::Scanned { next_cursor, keys } => match state {
                ScanState::Scanning { cursor } => {
                    if deletable(ranges, key_views(keys@)).len() > 0 {
                        ScanState::Deleting { cursor, next_cursor }
                    } else {
                        advance(next_cursor)
                    }
                },
                _ => ScanState::Backoff { cursor: retry_cursor(state) },
            },
            ScanEvent::Deleted => match state {
                ScanState::Deleting { cursor: _, next_cursor } => advance(next_cursor),
                _ => ScanState::Backoff { cursor: retry_cursor(state) },
            },
            ScanEvent::Waited => match state {
                ScanState::Backoff { cursor } => ScanState::Scanning { cursor },
                _ => ScanState::Backoff { cursor: retry_cursor(state) },
            },
            ScanEvent::Failed => ScanState::Backoff { cursor: retry_cursor(state) },
        },
    }
}

/// The action that a state asks for. In the deleting state the keys are those
/// of the batch that lie outside the retained ranges.
pub open spec fn action_fits(
    state: ScanState,
    action: ScanAction,
    batch: Seq<Seq<u8>>,
    ranges: SlotRangeArray,
    scan_count: u64,
    interval: u64,
) -> bool {
    match state {
        ScanState::Scanning { cursor } => action == ScanAction::Scan { cursor, count: scan_count },
        ScanState::Deleting { cursor: _, next_cursor: _ } => match action {
            ScanAction::Delete { keys } => key_views(keys@) == deletable(ranges, batch),
            _ => false,
        },
        ScanState::Backoff { cursor: _ } => action == ScanAction::Wait { micros: interval },
        ScanState::Done => action == ScanAction::Finish,
        ScanState::Canceled => action == ScanAction::Cancel,
    }
}

/// The keys that an event carries, if it is a scan reply.
pub open spec fn batch_of(event: ScanEvent) -> Seq<Seq<u8>> {
    match event {
        ScanEvent::Scanned { next_cursor: _, keys } => key_views(keys@),
        _ => Seq::empty(),
    }
}

/// A stop ends the loop for good: after it the state is canceled, whatever came
/// before (unless the scan had already finished), no later event leaves that state,
/// and the only action it asks for is to cancel, so no scan or delete follows.
pub proof fn lemma_stop_is_final(
    state: ScanState,
    later: ScanEvent,
    ranges: SlotRangeArray,
    action: ScanAction,
    scan_count: u64,
    interval: u64,
)
    ensures
        state != ScanState::Done ==> next_state(state, ScanEvent::Stopped, ranges) == ScanState::Canceled,
        next_state(ScanState::Canceled, later, ranges) == ScanState::Canceled,
        action_fits(ScanState::Canceled, action, batch_of(later), ranges, scan_count, interval)
            ==> action == ScanAction::Cancel,
{
}

impl ScanState {
    /// A fresh loop: scan from cursor 0.
    pub fn start(scan_count: u64) -> (r: (ScanState, ScanAction))
        ensures
            r.0 == (ScanState::Scanning { cursor: 0 }),
            r.1 == (ScanAction::Scan { cursor: 0, count: scan_count }),
    {
        (ScanState::Scanning { cursor: 0 }, ScanAction::Scan { cursor: 0, count: scan_count })
    }

    /// Decides what follows an event. `scan_count` and `interval` are read from the
    /// live configuration for each step.
    pub fn step(self, event: ScanEvent, ranges: &SlotRangeArray, scan_count: u64, interval: u64) -> (r: (
        ScanState,
        ScanAction,
    ))
        ensures
            r.0 == next_state(self, event, *ranges),
            action_fits(r.0, r.1, batch_of(event), *ranges, scan_count, interval),
    {
        let ghost ev = event;
        let next = match self {
            ScanState::Done => ScanState::Done,
            ScanState::Canceled => ScanState::Canceled,
            _ => match event {
                ScanEvent::Stopped => ScanState::Canceled,
                ScanEvent::Scanned { next_cursor, keys } => match self {
                    ScanState::Scanning { cursor } => {
                        let del = keys_to_delete(ranges, &keys);
                        if del.len() > 0 {
                            return (
                                ScanState::Deleting { cursor, next_cursor },
                                ScanAction::Delete { keys: del },
                            );
                        } else {
                            Self::advance_exec(next_cursor)
                        }
                    },
                    _ => ScanState::Backoff { cursor: self.retry_cursor_exec() },
                },
                ScanEvent::Deleted => match self {
                    ScanState::Deleting { cursor: _, next_cursor } => Self::advance_exec(next_cursor),
                    _ => ScanState::Backoff { cursor: self.retry_cursor_exec() },
                },
                ScanEvent::Waited => match self {
                    ScanState::Backoff { cursor } => ScanState::Scanning { cursor },
                    _ => ScanState::Backoff { cursor: self.retry_cursor_exec() },
                },
                ScanEvent::Failed => ScanState::Backoff { cursor: self.retry_cursor_exec() },
            },
        };
        let action = match next {
            ScanState::Scanning { cursor } => ScanAction::Scan { cursor, count: scan_count },
            ScanState::Backoff { cursor: _ } => ScanAction::Wait { micros: interval },
            ScanState::Done => ScanAction::Finish,
            _ => ScanAction::Cancel,
        };
        (next, action)
    }

    fn retry_cursor_exec(self) -> (r: u64)
        ensures
            r == retry_cursor(self),
    {
        match self {
            ScanState::Scanning { cursor } => cursor,
            ScanState::Deleting { cursor, next_cursor: _ } => cursor,
            ScanState::Backoff { cursor } => cursor,
            _ => 0,
        }
    }

    fn advance_exec(next_cursor: u64) -> (r: ScanState)
        ensures
            r == advance(next_cursor),
    {
        if next_cursor == 0 {
            ScanState::Done
        } else {
            ScanState::Scanning { cursor: next_cursor }
        }
    }
}

} // verus!
