//! Sync orchestrator.
//!
//! A cycle runs Fetching → Parsing → Storing → Done, with an error path
//! from every state to Failed. Per-source losses (a failed transfer, a
//! buffer that will not decompress) only cost that source's records;
//! a configuration without sources, and any store-side failure, are
//! fatal to the whole cycle. The runner performs the ordered actions and
//! feeds their outcomes back in as events.

use vstd::prelude::*;

use crate::codec::decompress;
use crate::codec::gunzip_of;
use crate::fetch::FetchOutcome;
use crate::package::DebianPackage;
use crate::package::PackageModel;
use crate::parse::parse_packages;
use crate::parse::spec_parse;

verus! {

/// The orchestrator's states.
#[derive(Debug, Clone, Copy, PartialEq, Eq, Structural)]
pub enum SyncState {
    Idle,
    Fetching,
    Parsing,
    Storing,
    Done,
    Failed,
}

/// What the runner reports back after performing an action.
#[derive(Debug, Clone, Copy, PartialEq, Eq, Structural)]
pub enum SyncEvent {
    Begin { source_count: usize },
    FetchFinished,
    ParseFinished,
    SchemaReady,
    SchemaFailed,
    StoreSucceeded,
    StoreFailed,
}

/// What the orchestrator orders the runner to do next.
#[derive(Debug, Clone, Copy, PartialEq, Eq, Structural)]
pub enum SyncAction {
    StartFetch,
    ParseIndexes,
    InitializeSchema,
    StoreRecords,
    ReportConfigError,
    Discard,
    ReportSuccess,
}

/// The transition table. A `Begin` without configured sources fails
/// before any fetch; schema and store failures fail the cycle from any
/// state; an event that its state does not expect takes the error path.
pub open spec fn spec_step(state: SyncState, event: SyncEvent) -> (SyncState, SyncAction) {
    match (state, event) {
        (SyncState::Idle, SyncEvent::Begin { source_count }) => if source_count == 0 {
            (SyncState::Failed, SyncAction::ReportConfigError)
        } else {
            (SyncState::Fetching, SyncAction::StartFetch)
        },
        (SyncState::Fetching, SyncEvent::FetchFinished) => (
            SyncState::Parsing,
            SyncAction::ParseIndexes,
        ),
        (SyncState::Parsing, SyncEvent::ParseFinished) => (
            SyncState::Storing,
            SyncAction::InitializeSchema,
        ),
        (SyncState::Storing, SyncEvent::SchemaReady) => (
            SyncState::Storing,
            SyncAction::StoreRecords,
        ),
        (SyncState::Storing, SyncEvent::StoreSucceeded) => (
            SyncState::Done,
            SyncAction::ReportSuccess,
        ),
        (SyncState::Storing, SyncEvent::StoreFailed) => (SyncState::Failed, SyncAction::Discard),
        _ => (SyncState::Failed, SyncAction::Discard),
    }
}

/// Advances the orchestrator by one event, returning the next state and
/// the action the runner must take.
pub fn step(state: SyncState, event: SyncEvent) -> (r: (SyncState, SyncAction))
    ensures
        r == spec_step(state, event),
{
    match (state, event) {
        (SyncState::Idle, SyncEvent::Begin { source_count }) => if source_count == 0 {
            (SyncState::Failed, SyncAction::ReportConfigError)
        } else {
            (SyncState::Fetching, SyncAction::StartFetch)
        },
        (SyncState::Fetching, SyncEvent::FetchFinished) => (
            SyncState::Parsing,
            SyncAction::ParseIndexes,
        ),
        (SyncState::Parsing, SyncEvent::ParseFinished) => (
            SyncState::Storing,
            SyncAction::InitializeSchema,
        ),
        (SyncState::Storing, SyncEvent::SchemaReady) => (
            SyncState::Storing,
            SyncAction::StoreRecords,
        ),
        (SyncState::Storing, SyncEvent::StoreSucceeded) => (
            SyncState::Done,
            SyncAction::ReportSuccess,
        ),
        (SyncState::Storing, SyncEvent::StoreFailed) => (SyncState::Failed, SyncAction::Discard),
        _ => (SyncState::Failed, SyncAction::Discard),
    }
}

/// Law: a failed schema initialization is fatal. From every state the
/// machine moves to `Failed`, and the action ordered is never a store of
/// records — what was fetched and parsed is discarded, not persisted.
pub proof fn lemma_schema_failure_is_fatal(state: SyncState)
    ensures
        spec_step(state, SyncEvent::SchemaFailed).0 is Failed,
        !(spec_step(state, SyncEvent::SchemaFailed).1 is StoreRecords),
{
}

/// Records contributed by one fetch outcome: a failed transfer, or a
/// buffer that does not decompress to text, contributes none.
pub open spec fn records_of_outcome(o: FetchOutcome) -> Seq<PackageModel> {
    match o {
        FetchOutcome::Success(bytes) => match gunzip_of(bytes@) {
            Some(text) => spec_parse(text),
            None => Seq::empty(),
        },
        FetchOutcome::Failure(_, _) => Seq::empty(),
    }
}

/// All records of one fetch round: source order first, parse order within
/// a source.
pub open spec fn records_of_outcomes(os: Seq<FetchOutcome>) -> Seq<PackageModel>
    decreases os.len(),
{
    if os.len() == 0 {
        Seq::empty()
    } else {
        records_of_outcome(os.first()) + records_of_outcomes(os.drop_first())
    }
}

/// Whether an outcome contributes records: fetched and decompressed.
pub open spec fn outcome_contributes(o: FetchOutcome) -> bool {
    match o {
        FetchOutcome::Success(bytes) => gunzip_of(bytes@) is Some,
        FetchOutcome::Failure(_, _) => false,
    }
}

/// How many sources of the round contributed records.
pub open spec fn count_contributing(os: Seq<FetchOutcome>) -> nat
    decreases os.len(),
{
    if os.len() == 0 {
        0
    } else {
        (if outcome_contributes(os.first()) {
            1nat
        } else {
            0nat
        }) + count_contributing(os.drop_first())
    }
}

proof fn lemma_records_snoc(os: Seq<FetchOutcome>, o: FetchOutcome)
    ensures
        records_of_outcomes(os.push(o)) == records_of_outcomes(os) + records_of_outcome(o),
        count_contributing(os.push(o)) == count_contributing(os) + (if outcome_contributes(o) {
            1nat
        } else {
            0nat
        }),
    decreases os.len(),
{
    if os.len() == 0 {
        assert(os.push(o).first() == o);
        assert(os.push(o).drop_first() =~= Seq::<FetchOutcome>::empty());
        assert(records_of_outcomes(Seq::<FetchOutcome>::empty())
            == Seq::<PackageModel>::empty());
        assert(count_contributing(Seq::<FetchOutcome>::empty()) == 0);
        assert(records_of_outcomes(os.push(o)) =~= records_of_outcomes(os) + records_of_outcome(
            o,
        ));
    } else {
        assert(os.push(o).first() == os.first());
        assert(os.push(o).drop_first() =~= os.drop_first().push(o));
        lemma_records_snoc(os.drop_first(), o);
        assert(records_of_outcomes(os.push(o)) == records_of_outcome(os.first()) + (
        records_of_outcomes(os.drop_first()) + records_of_outcome(o)));
        assert(records_of_outcome(os.first()) + (records_of_outcomes(os.drop_first())
            + records_of_outcome(o)) =~= (records_of_outcome(os.first()) + records_of_outcomes(
            os.drop_first(),
        )) + records_of_outcome(o));
        assert(count_contributing(os.push(o)) == (if outcome_contributes(os.first()) {
            1nat
        } else {
            0nat
        }) + count_contributing(os.drop_first().push(o)));
    }
}

/// Decompresses and parses every successful fetch of a round, in source
/// order. Returns the concatenated records together with how many sources
/// contributed and how many were dropped; a source that failed to fetch
/// or to decompress costs only its own contribution.
pub fn process_outcomes(outcomes: &Vec<FetchOutcome>) -> (r: (Vec<DebianPackage>, usize, usize))
    ensures
        r.0.deep_view() == records_of_outcomes(outcomes@),
        r.1 == count_contributing(outcomes@),
        r.1 + r.2 == outcomes@.len(),
{
    let mut records: Vec<DebianPackage> = Vec::new();
    let mut ok: usize = 0;
    let mut dropped: usize = 0;
    let mut i: usize = 0;
    proof {
        assert(outcomes@.take(0) =~= Seq::<FetchOutcome>::empty());
        assert(records.deep_view() =~= Seq::<PackageModel>::empty());
    }
    while i < outcomes.len()
        invariant
            i <= outcomes@.len(),
            records.deep_view() == records_of_outcomes(outcomes@.take(i as int)),
            ok == count_contributing(outcomes@.take(i as int)),
            ok + dropped == i,
        decreases outcomes@.len() - i,
    {
        let ghost prefix = outcomes@.take(i as int);
        let ghost prev = records.deep_view();
        match &outcomes[i] {
            FetchOutcome::Success(bytes) => {
                match decompress(bytes) {
                    Ok(text) => {
                        let mut parsed = parse_packages(text.as_str());
                        let ghost parsed_view = parsed.deep_view();
                        records.append(&mut parsed);
                        proof {
                            assert(records.deep_view() =~= prev + parsed_view);
                        }
                        ok = ok + 1;
                    },
                    Err(_) => {
                        dropped = dropped + 1;
                        proof {
                            assert(prev + Seq::<PackageModel>::empty() =~= prev);
                        }
                    },
                }
            },
            FetchOutcome::Failure(_, _) => {
                dropped = dropped + 1;
                proof {
                    assert(prev + Seq::<PackageModel>::empty() =~= prev);
                }
            },
        }
        proof {
            lemma_records_snoc(prefix, outcomes@[i as int]);
            assert(outcomes@.take(i + 1) =~= prefix.push(outcomes@[i as int]));
        }
        i = i + 1;
    }
    proof {
        assert(outcomes@.take(outcomes@.len() as int) =~= outcomes@);
    }
    (records, ok, dropped)
}

} // verus!
