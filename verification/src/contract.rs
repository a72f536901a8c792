//! The record store with its counters: submission, lookup, the recent slice
//! and the severity filter.

use vstd::prelude::*;
use vstd::string::*;
use crate::host;
use crate::identifier::{analysis_id, generate_analysis_id};
use crate::keyed::{distinct_keys, lookup, upsert, values_of};
use crate::records::{
    AnalysisMetadata,
    AnalysisMetadataView,
    SearchResult,
    SearchResultView,
    SemanticAnalysisResult,
    SemanticAnalysisResultView,
    SemanticGuardRecord,
    SemanticGuardRecordView,
};
use crate::scalar::Double;
use crate::severity::OutlierSeverity;
use crate::store::RecordStore;

verus! {

/// Bit pattern of three quarters, the consensus threshold a new contract
/// starts with and the distance threshold of a demo record.
pub const THREE_QUARTERS_BITS: u64 = 0x3FE8_0000_0000_0000;

/// Bit pattern of nineteen twentieths, the consensus score of a demo record.
pub const NINETEEN_TWENTIETHS_BITS: u64 = 0x3FEE_6666_6666_6666;

/// Counters and settings kept beside the records.
#[derive(Debug, PartialEq)]
pub struct ContractMetadata {
    pub version: String,
    pub total_analyses: u64,
    pub total_staked: u128,
    pub consensus_threshold: Double,
}

/// View of a [`ContractMetadata`].
pub struct ContractMetadataView {
    pub version: Seq<char>,
    pub total_analyses: nat,
    pub total_staked: u128,
    pub consensus_threshold: Double,
}

impl View for ContractMetadata {
    type V = ContractMetadataView;

    open spec fn view(&self) -> ContractMetadataView {
        ContractMetadataView {
            version: self.version@,
            total_analyses: self.total_analyses as nat,
            total_staked: self.total_staked,
            consensus_threshold: self.consensus_threshold,
        }
    }
}

impl Clone for ContractMetadata {
    fn clone(&self) -> (copy: Self)
        ensures
            copy@ == self@,
    {
        ContractMetadata {
            version: self.version.clone(),
            total_analyses: self.total_analyses,
            total_staked: self.total_staked,
            consensus_threshold: self.consensus_threshold,
        }
    }
}

/// The whole state: the records by identifier, and the metadata.
pub struct SemanticGuardContract {
    pub analyses: RecordStore,
    pub contract_metadata: ContractMetadata,
}

/// View of a [`SemanticGuardContract`]: the `(identifier, record)` entries in
/// enumeration order, and the metadata.
pub struct ContractView {
    pub analyses: Seq<(Seq<char>, SemanticGuardRecordView)>,
    pub contract_metadata: ContractMetadataView,
}

/// The storage key of a demo record.
pub open spec fn demo_key(prefix: Seq<char>, identifier: Seq<char>) -> Seq<char> {
    prefix + "_"@ + identifier + "_demo"@
}

/// The placeholder record that a demo submission stores.
pub open spec fn demo_record(
    key: Seq<char>,
    submitter: Seq<char>,
    timestamp: u64,
    block_height: u64,
) -> SemanticGuardRecordView {
    SemanticGuardRecordView {
        id: key,
        query: "Demo Query"@,
        results: Seq::empty(),
        semantic_analysis: SemanticAnalysisResultView {
            center_of_gravity: "A"@,
            outliers: Seq::empty(),
            distance_matrix: Seq::empty(),
            embeddings: Seq::empty(),
            threshold_used: Double { bits: THREE_QUARTERS_BITS },
            processing_time_ms: 100,
            consensus_score: Double { bits: NINETEEN_TWENTIETHS_BITS },
        },
        submitter,
        timestamp,
        block_height,
        metadata: AnalysisMetadataView {
            model_version: "demo"@,
            algorithm_version: "1.0"@,
            processing_node: "demo_node"@,
            verification_count: 0,
            dispute_count: 0,
            consensus_reached: true,
        },
    }
}

impl ContractView {
    /// The state of a new contract: no records, version `1.0.0`, nothing
    /// counted, nothing staked, threshold three quarters.
    pub open spec fn initial() -> ContractView {
        ContractView {
            analyses: Seq::empty(),
            contract_metadata: ContractMetadataView {
                version: "1.0.0"@,
                total_analyses: 0,
                total_staked: 0,
                consensus_threshold: Double { bits: THREE_QUARTERS_BITS },
            },
        }
    }

    /// No identifier is stored twice.
    pub open spec fn well_formed(self) -> bool {
        distinct_keys(self.analyses)
    }

    /// The state after storing `record` under `key` and counting one more
    /// submission. A record already under `key` is replaced.
    pub open spec fn stored(self, key: Seq<char>, record: SemanticGuardRecordView) -> ContractView {
        ContractView {
            analyses: upsert(self.analyses, key, record),
            contract_metadata: ContractMetadataView {
                total_analyses: self.contract_metadata.total_analyses + 1,
                ..self.contract_metadata
            },
        }
    }

    /// The record that a submission stores.
    pub open spec fn submission_record(
        query: Seq<char>,
        results: Seq<SearchResultView>,
        semantic_analysis: SemanticAnalysisResultView,
        metadata: AnalysisMetadataView,
        submitter: Seq<char>,
        timestamp: u64,
        block_height: u64,
    ) -> SemanticGuardRecordView {
        SemanticGuardRecordView {
            id: analysis_id(query, timestamp, submitter),
            query,
            results,
            semantic_analysis,
            submitter,
            timestamp,
            block_height,
            metadata,
        }
    }

    /// The state after a submission by `submitter` at `timestamp` and
    /// `block_height`.
    pub open spec fn submitted(
        self,
        query: Seq<char>,
        results: Seq<SearchResultView>,
        semantic_analysis: SemanticAnalysisResultView,
        metadata: AnalysisMetadataView,
        submitter: Seq<char>,
        timestamp: u64,
        block_height: u64,
    ) -> ContractView {
        self.stored(
            analysis_id(query, timestamp, submitter),
            Self::submission_record(
                query,
                results,
                semantic_analysis,
                metadata,
                submitter,
                timestamp,
                block_height,
            ),
        )
    }

    /// The state after a demo submission by `submitter` at `timestamp` and
    /// `block_height`.
    pub open spec fn demo_submitted(
        self,
        prefix: Seq<char>,
        identifier: Seq<char>,
        submitter: Seq<char>,
        timestamp: u64,
        block_height: u64,
    ) -> ContractView {
        let key = demo_key(prefix, identifier);
        self.stored(key, demo_record(key, submitter, timestamp, block_height))
    }

    /// The record stored under `id`, if any.
    pub open spec fn get(self, id: Seq<char>) -> Option<SemanticGuardRecordView> {
        lookup(self.analyses, id)
    }

    /// All records, in enumeration order.
    pub open spec fn all(self) -> Seq<SemanticGuardRecordView> {
        values_of(self.analyses)
    }

    /// The last `limit` records of the enumeration, last first; all of them,
    /// last first, where there are no more than `limit`.
    pub open spec fn recent(self, limit: nat) -> Seq<SemanticGuardRecordView> {
        let count = if limit <= self.analyses.len() {
            limit
        } else {
            self.analyses.len()
        };
        self.all().reverse().take(count as int)
    }

    /// The records with an outlier at least as severe as `threshold`, in
    /// enumeration order.
    pub open spec fn high_risk(self, threshold: OutlierSeverity) -> Seq<SemanticGuardRecordView> {
        self.all().filter(|record: SemanticGuardRecordView| record.is_high_risk(threshold))
    }
}

impl View for SemanticGuardContract {
    type V = ContractView;

    open spec fn view(&self) -> ContractView {
        ContractView { analyses: self.analyses@, contract_metadata: self.contract_metadata@ }
    }
}

impl SemanticGuardContract {
    /// A contract with no records and the initial metadata.
    pub fn new() -> (contract: Self)
        ensures
            contract@ == ContractView::initial(),
            contract@.well_formed(),
    {
        SemanticGuardContract {
            analyses: RecordStore::new(),
            contract_metadata: ContractMetadata {
                version: String::from_str("1.0.0"),
                total_analyses: 0,
                total_staked: 0,
                consensus_threshold: Double::from_bits(THREE_QUARTERS_BITS),
            },
        }
    }

    /// Stores `record` under `key` and counts one more submission.
    fn store(&mut self, key: String, record: SemanticGuardRecord)
        requires
            old(self).contract_metadata.total_analyses < u64::MAX,
        ensures
            final(self)@ == old(self)@.stored(key@, record@),
            old(self)@.well_formed(),
            final(self)@.well_formed(),
    {
        self.analyses.insert(key, record);
        self.contract_metadata.total_analyses += 1;
    }

    /// Stores an analysis as submitted by `submitter` at `timestamp` and
    /// `block_height`, and returns its identifier.
    ///
    /// Nothing about the query, the results or the analysis is checked. A
    /// record already stored under the identifier is replaced; the submission
    /// is counted either way.
    pub fn record_analysis(
        &mut self,
        query: String,
        results: Vec<SearchResult>,
        semantic_analysis: SemanticAnalysisResult,
        metadata: AnalysisMetadata,
        submitter: String,
        timestamp: u64,
        block_height: u64,
    ) -> (id: String)
        requires
            old(self).contract_metadata.total_analyses < u64::MAX,
        ensures
            id@ == analysis_id(query@, timestamp, submitter@),
            final(self)@ == old(self)@.submitted(
                query@,
                results.deep_view(),
                semantic_analysis@,
                metadata@,
                submitter@,
                timestamp,
                block_height,
            ),
            old(self)@.well_formed(),
            final(self)@.well_formed(),
    {
        let id = generate_analysis_id(query.as_str(), timestamp, submitter.as_str());
        let record = SemanticGuardRecord {
            id: id.clone(),
            query,
            results,
            semantic_analysis,
            submitter,
            timestamp,
            block_height,
            metadata,
        };
        self.store(id.clone(), record);
        id
    }

    /// Stores an analysis on behalf of the calling account, stamped with the
    /// time and height of the current block, and returns its identifier.
    ///
    /// The host decides who the caller is and what time it is, so the
    /// contract holds for whatever the host reports: the outcome is that of
    /// [`Self::record_analysis`] for some submitter, timestamp and height.
    pub fn submit_semantic_analysis(
        &mut self,
        query: String,
        results: Vec<SearchResult>,
        semantic_analysis: SemanticAnalysisResult,
        metadata: AnalysisMetadata,
    ) -> (id: String)
        requires
            old(self).contract_metadata.total_analyses < u64::MAX,
        ensures
            exists|submitter: Seq<char>, timestamp: u64, block_height: u64|
                {
                    &&& id@ == analysis_id(query@, timestamp, submitter)
                    &&& final(self)@ == #[trigger] old(self)@.submitted(
                        query@,
                        results.deep_view(),
                        semantic_analysis@,
                        metadata@,
                        submitter,
                        timestamp,
                        block_height,
                    )
                },
            final(self)@.contract_metadata.total_analyses == old(
                self,
            )@.contract_metadata.total_analyses + 1,
            final(self)@.get(id@) is Some,
            final(self)@.get(id@)->0.id == id@,
            final(self)@.get(id@)->0.query == query@,
            final(self)@.get(id@)->0.results == results.deep_view(),
            final(self)@.get(id@)->0.semantic_analysis == semantic_analysis@,
            final(self)@.get(id@)->0.metadata == metadata@,
            final(self)@.well_formed(),
    {
        let submitter = host::predecessor_account_id();
        let timestamp = host::block_timestamp();
        let block_height = host::block_height();
        let ghost before = self@;
        let ghost key = analysis_id(query@, timestamp, submitter@);
        let ghost record = ContractView::submission_record(
            query@,
            results.deep_view(),
            semantic_analysis@,
            metadata@,
            submitter@,
            timestamp,
            block_height,
        );
        let id = self.record_analysis(
            query,
            results,
            semantic_analysis,
            metadata,
            submitter,
            timestamp,
            block_height,
        );
        proof {
            crate::keyed::lemma_lookup_after_upsert(before.analyses, key, record, key);
        }
        id
    }

    /// A copy of the record stored under `analysis_id`, if there is one.
    pub fn get_semantic_analysis(&self, analysis_id: String) -> (found: Option<SemanticGuardRecord>)
        ensures
            match found {
                Some(record) => self@.get(analysis_id@) == Some(record@),
                None => self@.get(analysis_id@).is_none(),
            },
    {
        self.analyses.get(&analysis_id)
    }

    /// Copies of the records that have an outlier at least as severe as
    /// `severity_threshold`, in enumeration order.
    pub fn get_high_risk_analyses(&self, severity_threshold: OutlierSeverity) -> (risky: Vec<
        SemanticGuardRecord,
    >)
        ensures
            risky.deep_view() == self@.high_risk(severity_threshold),
    {
        let mut risky: Vec<SemanticGuardRecord> = Vec::new();
        let n = self.analyses.len();
        let ghost all = self@.all();
        let ghost risk = |record: SemanticGuardRecordView| record.is_high_risk(severity_threshold);
        let mut i: usize = 0;
        proof {
            reveal(Seq::filter);
            assert(all.take(0) =~= Seq::empty());
        }
        while i < n
            invariant
                i <= n,
                n == self@.analyses.len(),
                all == self@.all(),
                risk == |record: SemanticGuardRecordView| record.is_high_risk(severity_threshold),
                risky.deep_view() == all.take(i as int).filter(risk),
            decreases n - i,
        {
            let record = self.analyses.value_at(i);
            let ghost shorter = all.take(i as int);
            let ghost longer = all.take(i + 1);
            proof {
                reveal(Seq::filter);
                assert(longer.drop_last() =~= shorter);
                assert(longer.last() == record@);
            }
            if record.semantic_analysis.has_outlier_at_least(severity_threshold) {
                let ghost earlier = risky.deep_view();
                risky.push(record.clone());
                assert(risky.deep_view() =~= earlier.push(record@));
            }
            i += 1;
        }
        assert(all.take(n as int) =~= all);
        risky
    }

    /// Stores a placeholder record under `prefix`, `_`, `identifier`, `_demo`
    /// as submitted by `submitter` at `timestamp` and `block_height`, and
    /// returns that key. The payload is not looked at.
    #[allow(unused_variables)]
    pub fn record_demo_analysis(
        &mut self,
        prefix: String,
        identifier: String,
        analysis_data: String,
        submitter: String,
        timestamp: u64,
        block_height: u64,
    ) -> (storage_key: String)
        requires
            old(self).contract_metadata.total_analyses < u64::MAX,
        ensures
            storage_key@ == demo_key(prefix@, identifier@),
            final(self)@ == old(self)@.demo_submitted(
                prefix@,
                identifier@,
                submitter@,
                timestamp,
                block_height,
            ),
            old(self)@.well_formed(),
            final(self)@.well_formed(),
    {
        let mut storage_key = prefix;
        storage_key.append("_");
        storage_key.append(identifier.as_str());
        storage_key.append("_demo");
        let demo_record = SemanticGuardRecord {
            id: storage_key.clone(),
            query: String::from_str("Demo Query"),
            results: Vec::new(),
            semantic_analysis: SemanticAnalysisResult {
                center_of_gravity: String::from_str("A"),
                outliers: Vec::new(),
                distance_matrix: Vec::new(),
                embeddings: Vec::new(),
                threshold_used: Double::from_bits(THREE_QUARTERS_BITS),
                processing_time_ms: 100,
                consensus_score: Double::from_bits(NINETEEN_TWENTIETHS_BITS),
            },
            submitter,
            timestamp,
            block_height,
            metadata: AnalysisMetadata {
                model_version: String::from_str("demo"),
                algorithm_version: String::from_str("1.0"),
                processing_node: String::from_str("demo_node"),
                verification_count: 0,
                dispute_count: 0,
                consensus_reached: true,
            },
        };
        proof {
            assert(demo_record.results.deep_view() =~= Seq::empty());
            assert(demo_record.semantic_analysis.outliers.deep_view() =~= Seq::empty());
            assert(demo_record.semantic_analysis.distance_matrix.deep_view() =~= Seq::empty());
            assert(demo_record.semantic_analysis.embeddings.deep_view() =~= Seq::empty());
            assert(demo_record@ == crate::contract::demo_record(
                storage_key@,
                submitter@,
                timestamp,
                block_height,
            ));
        }
        self.store(storage_key.clone(), demo_record);
        storage_key
    }

    /// Stores a placeholder record on behalf of the calling account, stamped
    /// with the time and height of the current block, and returns its key.
    ///
    /// The outcome is that of [`Self::record_demo_analysis`] for whatever
    /// submitter, timestamp and height the host reports.
    pub fn submit_demo_analysis(
        &mut self,
        prefix: String,
        identifier: String,
        analysis_data: String,
    ) -> (storage_key: String)
        requires
            old(self).contract_metadata.total_analyses < u64::MAX,
        ensures
            storage_key@ == demo_key(prefix@, identifier@),
            exists|submitter: Seq<char>, timestamp: u64, block_height: u64|
                final(self)@ == #[trigger] old(self)@.demo_submitted(
                    prefix@,
                    identifier@,
                    submitter,
                    timestamp,
                    block_height,
                ),
            final(self)@.contract_metadata.total_analyses == old(
                self,
            )@.contract_metadata.total_analyses + 1,
            final(self)@.get(storage_key@) is Some,
            final(self)@.well_formed(),
    {
        let submitter = host::predecessor_account_id();
        let timestamp = host::block_timestamp();
        let block_height = host::block_height();
        let ghost before = self@;
        let ghost key = demo_key(prefix@, identifier@);
        let ghost record = demo_record(key, submitter@, timestamp, block_height);
        let storage_key = self.record_demo_analysis(
            prefix,
            identifier,
            analysis_data,
            submitter,
            timestamp,
            block_height,
        );
        proof {
            crate::keyed::lemma_lookup_after_upsert(before.analyses, key, record, key);
        }
        storage_key
    }

    /// Liveness probe: always `true`.
    pub fn health_check(&self) -> (alive: bool)
        ensures
            alive,
    {
        true
    }

    /// A copy of the metadata.
    pub fn get_contract_stats(&self) -> (stats: ContractMetadata)
        ensures
            stats@ == self@.contract_metadata,
    {
        self.contract_metadata.clone()
    }

    /// The number of submissions counted so far.
    pub fn get_total_analyses(&self) -> (total: u64)
        ensures
            total == self@.contract_metadata.total_analyses,
    {
        self.contract_metadata.total_analyses
    }

    /// Copies of the last `limit` records of the enumeration, last first; of
    /// all records, last first, where there are no more than `limit`.
    ///
    /// The order is the reverse of the enumeration, whatever the timestamps
    /// of the records say.
    pub fn get_recent_analyses(&self, limit: u32) -> (recent: Vec<SemanticGuardRecord>)
        ensures
            recent.deep_view() == self@.recent(limit as nat),
    {
        let n = self.analyses.len();
        let count: usize = if (limit as usize) <= n {
            limit as usize
        } else {
            n
        };
        let ghost all = self@.all();
        let mut recent: Vec<SemanticGuardRecord> = Vec::new();
        let mut taken: usize = 0;
        while taken < count
            invariant
                taken <= count <= n,
                n == all.len(),
                all == self@.all(),
                n == self@.analyses.len(),
                recent.deep_view() == all.reverse().take(taken as int),
            decreases count - taken,
        {
            let record = self.analyses.value_at(n - 1 - taken);
            let ghost earlier = recent.deep_view();
            recent.push(record.clone());
            assert(recent.deep_view() =~= earlier.push(record@));
            assert(all.reverse().take(taken + 1) =~= all.reverse().take(taken as int).push(
                record@,
            ));
            taken += 1;
        }
        recent
    }
}

} // verus!
