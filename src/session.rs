use vstd::prelude::*;

use crate::error::GetError;

verus! {

/// The stages of one retrieval.
#[derive(Debug, Clone, Copy, PartialEq, Eq, Structural)]
pub enum Stage {
    Idle,
    Connecting,
    FetchingManifest,
    FetchingChunks,
    Verified,
    Exporting,
    Done,
    Failed(GetError),
}

/// What the surrounding driver reports after performing a stage's work.
#[derive(Debug, Clone, Copy, PartialEq, Eq, Structural)]
pub enum Event {
    /// A retrieval is requested.
    Begin,
    /// The session with the peer is open.
    Connected,
    /// The manifest was fetched and is within the size ceiling.
    ManifestFetched,
    /// Every chunk was fetched and verified into the store.
    ChunksFetched,
    /// The collection was loaded from the store.
    CollectionLoaded,
    /// Every entry was exported.
    ExportFinished,
    /// The current stage's work failed.
    Fault(GetError),
}

/// Whether a stage ends the retrieval.
pub open spec fn is_terminal(s: Stage) -> bool {
    s is Done || s is Failed
}

/// The stage that follows `s` on event `e`. Each stage moves on only on its own event;
/// a fault in any stage that is not terminal fails the retrieval; the terminal stages
/// never change; any other event leaves the stage as it is.
pub open spec fn next_stage(s: Stage, e: Event) -> Stage {
    if is_terminal(s) {
        s
    } else {
        match (s, e) {
            (_, Event::Fault(err)) => Stage::Failed(err),
            (Stage::Idle, Event::Begin) => Stage::Connecting,
            (Stage::Connecting, Event::Connected) => Stage::FetchingManifest,
            (Stage::FetchingManifest, Event::ManifestFetched) => Stage::FetchingChunks,
            (Stage::FetchingChunks, Event::ChunksFetched) => Stage::Verified,
            (Stage::Verified, Event::CollectionLoaded) => Stage::Exporting,
            (Stage::Exporting, Event::ExportFinished) => Stage::Done,
            _ => s,
        }
    }
}

/// Moves a retrieval on by one event.
pub fn advance(s: Stage, e: Event) -> (r: Stage)
    ensures
        r == next_stage(s, e),
{
    match s {
        Stage::Done | Stage::Failed(_) => s,
        _ => match (s, e) {
            (_, Event::Fault(err)) => Stage::Failed(err),
            (Stage::Idle, Event::Begin) => Stage::Connecting,
            (Stage::Connecting, Event::Connected) => Stage::FetchingManifest,
            (Stage::FetchingManifest, Event::ManifestFetched) => Stage::FetchingChunks,
            (Stage::FetchingChunks, Event::ChunksFetched) => Stage::Verified,
            (Stage::Verified, Event::CollectionLoaded) => Stage::Exporting,
            (Stage::Exporting, Event::ExportFinished) => Stage::Done,
            _ => s,
        },
    }
}

/// The stage after a sequence of events.
pub open spec fn run_events(s: Stage, events: Seq<Event>) -> Stage
    decreases events.len(),
{
    if events.len() == 0 {
        s
    } else {
        run_events(next_stage(s, events[0]), events.drop_first())
    }
}

/// A terminal stage stays as it is, whatever events follow.
pub proof fn lemma_terminal_is_final(s: Stage, events: Seq<Event>)
    requires
        is_terminal(s),
    ensures
        run_events(s, events) == s,
    decreases events.len(),
{
    if events.len() > 0 {
        lemma_terminal_is_final(s, events.drop_first());
    }
}

/// A chunk that fails verification fails the whole retrieval: whatever follows, the
/// retrieval never reaches the export stage and ends failed with `IntegrityMismatch`.
pub proof fn lemma_integrity_failure_stops(events: Seq<Event>)
    ensures
        run_events(
            Stage::FetchingChunks,
            seq![Event::Fault(GetError::IntegrityMismatch)] + events,
        ) == Stage::Failed(GetError::IntegrityMismatch),
{
    let all = seq![Event::Fault(GetError::IntegrityMismatch)] + events;
    assert(all.drop_first() =~= events);
    lemma_terminal_is_final(Stage::Failed(GetError::IntegrityMismatch), events);
}

} // verus!
