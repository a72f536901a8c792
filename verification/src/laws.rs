//! What holds of every state of the contract and of every run of calls.
//!
//! The statements are over the views: a [`ContractView`] for the state, and a
//! [`Call`] for one submission together with what the host reported to it.

use vstd::prelude::*;
use crate::contract::{demo_key, demo_record, ContractView};
use crate::identifier::analysis_id;
use crate::keyed::{
    has_key,
    keys_of,
    lemma_lookup_after_upsert,
    lemma_upsert_overwrites,
    lemma_upsert_shape,
};
use crate::records::{
    AnalysisMetadataView,
    SearchResultView,
    SemanticAnalysisResultView,
    SemanticGuardRecordView,
};
use crate::severity::OutlierSeverity;

verus! {

/// One state-changing call, with the submitter, timestamp and block height
/// that the host reported to it.
pub enum Call {
    Submit {
        query: Seq<char>,
        results: Seq<SearchResultView>,
        semantic_analysis: SemanticAnalysisResultView,
        metadata: AnalysisMetadataView,
        submitter: Seq<char>,
        timestamp: u64,
        block_height: u64,
    },
    SubmitDemo {
        prefix: Seq<char>,
        identifier: Seq<char>,
        submitter: Seq<char>,
        timestamp: u64,
        block_height: u64,
    },
}

impl Call {
    /// The identifier under which the call stores its record.
    pub open spec fn key(self) -> Seq<char> {
        match self {
            Call::Submit { query, submitter, timestamp, .. } => analysis_id(
                query,
                timestamp,
                submitter,
            ),
            Call::SubmitDemo { prefix, identifier, .. } => demo_key(prefix, identifier),
        }
    }

    /// The record that the call stores.
    pub open spec fn record(self) -> SemanticGuardRecordView {
        match self {
            Call::Submit {
                query,
                results,
                semantic_analysis,
                metadata,
                submitter,
                timestamp,
                block_height,
            } => ContractView::submission_record(
                query,
                results,
                semantic_analysis,
                metadata,
                submitter,
                timestamp,
                block_height,
            ),
            Call::SubmitDemo { prefix, identifier, submitter, timestamp, block_height } => {
                demo_record(demo_key(prefix, identifier), submitter, timestamp, block_height)
            },
        }
    }
}

/// The state after one call.
pub open spec fn after_call(state: ContractView, call: Call) -> ContractView {
    match call {
        Call::Submit {
            query,
            results,
            semantic_analysis,
            metadata,
            submitter,
            timestamp,
            block_height,
        } => state.submitted(
            query,
            results,
            semantic_analysis,
            metadata,
            submitter,
            timestamp,
            block_height,
        ),
        Call::SubmitDemo { prefix, identifier, submitter, timestamp, block_height } => {
            state.demo_submitted(prefix, identifier, submitter, timestamp, block_height)
        },
    }
}

/// The state after a run of calls, made one after the other.
pub open spec fn after_calls(state: ContractView, calls: Seq<Call>) -> ContractView
    decreases calls.len(),
{
    if calls.len() == 0 {
        state
    } else {
        after_call(after_calls(state, calls.drop_last()), calls.last())
    }
}

/// Every call is one write of its record under its key, counted once.
pub proof fn lemma_call_is_one_write(state: ContractView, call: Call)
    ensures
        after_call(state, call) == state.stored(call.key(), call.record()),
{
}

/// Every call counts once. After a run of calls the counter has grown by the
/// number of calls, whether or not identifiers collided, while the number of
/// records has grown by no more than that. No identifier is stored twice, and
/// no identifier is ever dropped or moved: those stored before the run still
/// open the enumeration, in their old order. The version, the staked value
/// and the consensus threshold stay as they were.
pub proof fn lemma_counter_counts_calls(state: ContractView, calls: Seq<Call>)
    requires
        state.well_formed(),
    ensures
        after_calls(state, calls).contract_metadata.total_analyses
            == state.contract_metadata.total_analyses + calls.len(),
        after_calls(state, calls).analyses.len() <= state.analyses.len() + calls.len(),
        after_calls(state, calls).analyses.len() >= state.analyses.len(),
        after_calls(state, calls).well_formed(),
        keys_of(after_calls(state, calls).analyses).take(state.analyses.len() as int) == keys_of(
            state.analyses,
        ),
        after_calls(state, calls).contract_metadata.version == state.contract_metadata.version,
        after_calls(state, calls).contract_metadata.total_staked
            == state.contract_metadata.total_staked,
        after_calls(state, calls).contract_metadata.consensus_threshold
            == state.contract_metadata.consensus_threshold,
    decreases calls.len(),
{
    let kept = state.analyses.len() as int;
    if calls.len() == 0 {
        assert(keys_of(state.analyses).take(kept) =~= keys_of(state.analyses));
    } else {
        let before = after_calls(state, calls.drop_last());
        let after = after_calls(state, calls);
        lemma_counter_counts_calls(state, calls.drop_last());
        lemma_call_is_one_write(before, calls.last());
        lemma_upsert_shape(before.analyses, calls.last().key(), calls.last().record());
        assert(keys_of(after.analyses).take(kept) =~= keys_of(after.analyses).take(
            before.analyses.len() as int,
        ).take(kept));
    }
}

/// A new contract that has served `n` calls reports `n` as its total.
pub proof fn lemma_total_after_calls_from_new(calls: Seq<Call>)
    ensures
        after_calls(ContractView::initial(), calls).contract_metadata.total_analyses
            == calls.len(),
        after_calls(ContractView::initial(), calls).analyses.len() <= calls.len(),
{
    lemma_counter_counts_calls(ContractView::initial(), calls);
}

/// What was submitted can be read back. After a submission, the returned
/// identifier leads to a record that holds the query, the results, the
/// analysis and the metadata as they were given, with the submitter,
/// timestamp and block height that the host reported; every other identifier
/// leads to what it led to before.
pub proof fn lemma_submit_then_get(
    state: ContractView,
    query: Seq<char>,
    results: Seq<SearchResultView>,
    semantic_analysis: SemanticAnalysisResultView,
    metadata: AnalysisMetadataView,
    submitter: Seq<char>,
    timestamp: u64,
    block_height: u64,
    other: Seq<char>,
)
    requires
        state.well_formed(),
    ensures
        ({
            let id = analysis_id(query, timestamp, submitter);
            let after = state.submitted(
                query,
                results,
                semantic_analysis,
                metadata,
                submitter,
                timestamp,
                block_height,
            );
            &&& after.get(id) == Some(
                SemanticGuardRecordView {
                    id,
                    query,
                    results,
                    semantic_analysis,
                    submitter,
                    timestamp,
                    block_height,
                    metadata,
                },
            )
            &&& other != id ==> after.get(other) == state.get(other)
        }),
{
    lemma_lookup_after_upsert(
        state.analyses,
        analysis_id(query, timestamp, submitter),
        ContractView::submission_record(
            query,
            results,
            semantic_analysis,
            metadata,
            submitter,
            timestamp,
            block_height,
        ),
        other,
    );
}

/// A limit of zero yields no records.
pub proof fn lemma_recent_of_zero_is_empty(state: ContractView)
    ensures
        state.recent(0) == Seq::<SemanticGuardRecordView>::empty(),
{
}

/// A limit that covers the store yields every record, in the reverse of the
/// enumeration order: the record at position `i` of the answer is the one at
/// position `len - 1 - i` of the enumeration.
pub proof fn lemma_recent_of_all_is_reverse(state: ContractView, limit: nat)
    requires
        limit >= state.analyses.len(),
    ensures
        state.recent(limit) == state.all().reverse(),
        state.recent(limit).len() == state.analyses.len(),
        forall|i: int|
            0 <= i < state.analyses.len() ==> #[trigger] state.recent(limit)[i]
                == state.analyses[state.analyses.len() - 1 - i].1,
{
}

/// A smaller limit yields the first `limit` records of that reverse.
pub proof fn lemma_recent_is_prefix_of_reverse(state: ContractView, limit: nat)
    requires
        limit <= state.analyses.len(),
    ensures
        state.recent(limit).len() == limit,
        forall|i: int|
            0 <= i < limit ==> #[trigger] state.recent(limit)[i]
                == state.analyses[state.analyses.len() - 1 - i].1,
{
}

/// Two demo submissions under one prefix and identifier collide. Both are
/// counted, so the total grows by two; the second finds the key of the first
/// and replaces its record, so the store holds exactly one record under that
/// key, the second one, and is no larger than after the first submission.
pub proof fn lemma_demo_collision_overwrites(
    state: ContractView,
    prefix: Seq<char>,
    identifier: Seq<char>,
    first_submitter: Seq<char>,
    first_timestamp: u64,
    first_block_height: u64,
    second_submitter: Seq<char>,
    second_timestamp: u64,
    second_block_height: u64,
)
    requires
        state.well_formed(),
    ensures
        ({
            let key = demo_key(prefix, identifier);
            let once = state.demo_submitted(
                prefix,
                identifier,
                first_submitter,
                first_timestamp,
                first_block_height,
            );
            let twice = once.demo_submitted(
                prefix,
                identifier,
                second_submitter,
                second_timestamp,
                second_block_height,
            );
            &&& twice.contract_metadata.total_analyses == state.contract_metadata.total_analyses
                + 2
            &&& twice.analyses.len() == once.analyses.len()
            &&& twice.get(key) == Some(
                demo_record(key, second_submitter, second_timestamp, second_block_height),
            )
            &&& forall|i: int, j: int|
                0 <= i < twice.analyses.len() && 0 <= j < twice.analyses.len()
                    && #[trigger] twice.analyses[i].0 == key && #[trigger] twice.analyses[j].0
                    == key ==> i == j
            &&& twice.analyses == state.demo_submitted(
                prefix,
                identifier,
                second_submitter,
                second_timestamp,
                second_block_height,
            ).analyses
            &&& state.analyses.len() == 0 ==> twice.analyses.len() == 1
        }),
{
    let key = demo_key(prefix, identifier);
    let first = demo_record(key, first_submitter, first_timestamp, first_block_height);
    let second = demo_record(key, second_submitter, second_timestamp, second_block_height);
    let once = state.stored(key, first);
    // The first write leaves the key in the store, so the second replaces.
    lemma_upsert_shape(state.analyses, key, first);
    lemma_lookup_after_upsert(state.analyses, key, first, key);
    lemma_upsert_shape(once.analyses, key, second);
    lemma_lookup_after_upsert(once.analyses, key, second, key);
    lemma_upsert_overwrites(state.analyses, key, first, second);
}

/// At the lowest threshold a record is risky exactly when it has an outlier;
/// at the highest, exactly when it has a critical one; and a record that is
/// risky at a threshold is risky at every lower one.
pub proof fn lemma_risk_follows_the_order(
    record: SemanticGuardRecordView,
    lower: OutlierSeverity,
    higher: OutlierSeverity,
)
    requires
        higher.spec_at_least(lower),
    ensures
        record.is_high_risk(OutlierSeverity::Low) <==> record.semantic_analysis.outliers.len() > 0,
        record.is_high_risk(OutlierSeverity::Critical) <==> exists|i: int|
            0 <= i < record.semantic_analysis.outliers.len()
                && (#[trigger] record.semantic_analysis.outliers[i]).severity
                == OutlierSeverity::Critical,
        record.is_high_risk(higher) ==> record.is_high_risk(lower),
{
    let outliers = record.semantic_analysis.outliers;
    if outliers.len() > 0 {
        assert(outliers[0].severity.spec_at_least(OutlierSeverity::Low));
    }
    if record.is_high_risk(OutlierSeverity::Critical) {
        let i = choose|i: int|
            0 <= i < outliers.len() && (#[trigger] outliers[i]).severity.spec_at_least(
                OutlierSeverity::Critical,
            );
        assert(outliers[i].severity == OutlierSeverity::Critical);
    }
    if record.is_high_risk(higher) {
        let i = choose|i: int|
            0 <= i < outliers.len() && (#[trigger] outliers[i]).severity.spec_at_least(higher);
        assert(outliers[i].severity.spec_at_least(lower));
    }
}

} // verus!
