//! The data carried by an analysis record, with a mathematical view of each
//! type.
//!
//! Every type `T` here has a view `T@` in which strings are sequences of
//! characters and vectors are sequences of views. Contracts throughout the
//! library speak of these views, and `clone` is proved to preserve them.

use vstd::prelude::*;
use crate::scalar::Double;
use crate::severity::{OutlierSeverity, VerificationStatus};

verus! {

/// How far a transformed text moved from its source.
#[derive(Debug, PartialEq)]
pub struct SemanticDelta {
    pub similarity_score: Double,
    pub confidence_level: Double,
    pub transformation_type: String,
    pub semantic_distance: Double,
    pub integrity_verified: bool,
}

/// View of a [`SemanticDelta`].
pub struct SemanticDeltaView {
    pub similarity_score: Double,
    pub confidence_level: Double,
    pub transformation_type: Seq<char>,
    pub semantic_distance: Double,
    pub integrity_verified: bool,
}

impl View for SemanticDelta {
    type V = SemanticDeltaView;

    open spec fn view(&self) -> SemanticDeltaView {
        SemanticDeltaView {
            similarity_score: self.similarity_score,
            confidence_level: self.confidence_level,
            transformation_type: self.transformation_type@,
            semantic_distance: self.semantic_distance,
            integrity_verified: self.integrity_verified,
        }
    }
}

impl DeepView for SemanticDelta {
    type V = SemanticDeltaView;

    open spec fn deep_view(&self) -> SemanticDeltaView {
        self@
    }
}

impl Clone for SemanticDelta {
    fn clone(&self) -> (copy: Self)
        ensures
            copy@ == self@,
    {
        SemanticDelta {
            similarity_score: self.similarity_score,
            confidence_level: self.confidence_level,
            transformation_type: self.transformation_type.clone(),
            semantic_distance: self.semantic_distance,
            integrity_verified: self.integrity_verified,
        }
    }
}

/// An embedding vector with the hashes that identify it.
#[derive(Debug, PartialEq)]
pub struct MessageEmbedding {
    pub vector: Vec<Double>,
    pub model_name: String,
    pub embedding_hash: String,
    pub semantic_hash: String,
    pub timestamp: u64,
}

/// View of a [`MessageEmbedding`].
pub struct MessageEmbeddingView {
    pub vector: Seq<Double>,
    pub model_name: Seq<char>,
    pub embedding_hash: Seq<char>,
    pub semantic_hash: Seq<char>,
    pub timestamp: u64,
}

impl View for MessageEmbedding {
    type V = MessageEmbeddingView;

    open spec fn view(&self) -> MessageEmbeddingView {
        MessageEmbeddingView {
            vector: self.vector@,
            model_name: self.model_name@,
            embedding_hash: self.embedding_hash@,
            semantic_hash: self.semantic_hash@,
            timestamp: self.timestamp,
        }
    }
}

impl DeepView for MessageEmbedding {
    type V = MessageEmbeddingView;

    open spec fn deep_view(&self) -> MessageEmbeddingView {
        self@
    }
}

impl Clone for MessageEmbedding {
    fn clone(&self) -> (copy: Self)
        ensures
            copy@ == self@,
    {
        MessageEmbedding {
            vector: self.vector.clone(),
            model_name: self.model_name.clone(),
            embedding_hash: self.embedding_hash.clone(),
            semantic_hash: self.semantic_hash.clone(),
            timestamp: self.timestamp,
        }
    }
}

/// By how much the distance from an outlier to one other result exceeds the
/// threshold.
#[derive(Debug, PartialEq)]
pub struct OutlierDistance {
    pub to_result: String,
    pub distance: Double,
    pub threshold_exceeded_by: Double,
}

/// View of an [`OutlierDistance`].
pub struct OutlierDistanceView {
    pub to_result: Seq<char>,
    pub distance: Double,
    pub threshold_exceeded_by: Double,
}

impl View for OutlierDistance {
    type V = OutlierDistanceView;

    open spec fn view(&self) -> OutlierDistanceView {
        OutlierDistanceView {
            to_result: self.to_result@,
            distance: self.distance,
            threshold_exceeded_by: self.threshold_exceeded_by,
        }
    }
}

impl DeepView for OutlierDistance {
    type V = OutlierDistanceView;

    open spec fn deep_view(&self) -> OutlierDistanceView {
        self@
    }
}

impl Clone for OutlierDistance {
    fn clone(&self) -> (copy: Self)
        ensures
            copy@ == self@,
    {
        OutlierDistance {
            to_result: self.to_result.clone(),
            distance: self.distance,
            threshold_exceeded_by: self.threshold_exceeded_by,
        }
    }
}

/// A search result flagged as lying far from the others.
#[derive(Debug, PartialEq)]
pub struct SemanticOutlier {
    pub result_id: String,
    pub reason: String,
    pub severity: OutlierSeverity,
    pub max_distance: Double,
    pub source_type: String,
    pub verification_status: VerificationStatus,
    pub outlier_distances: Vec<OutlierDistance>,
}

/// View of a [`SemanticOutlier`].
pub struct SemanticOutlierView {
    pub result_id: Seq<char>,
    pub reason: Seq<char>,
    pub severity: OutlierSeverity,
    pub max_distance: Double,
    pub source_type: Seq<char>,
    pub verification_status: VerificationStatus,
    pub outlier_distances: Seq<OutlierDistanceView>,
}

impl View for SemanticOutlier {
    type V = SemanticOutlierView;

    open spec fn view(&self) -> SemanticOutlierView {
        SemanticOutlierView {
            result_id: self.result_id@,
            reason: self.reason@,
            severity: self.severity,
            max_distance: self.max_distance,
            source_type: self.source_type@,
            verification_status: self.verification_status,
            outlier_distances: self.outlier_distances.deep_view(),
        }
    }
}

impl DeepView for SemanticOutlier {
    type V = SemanticOutlierView;

    open spec fn deep_view(&self) -> SemanticOutlierView {
        self@
    }
}

impl Clone for SemanticOutlier {
    fn clone(&self) -> (copy: Self)
        ensures
            copy@ == self@,
    {
        SemanticOutlier {
            result_id: self.result_id.clone(),
            reason: self.reason.clone(),
            severity: self.severity,
            max_distance: self.max_distance,
            source_type: self.source_type.clone(),
            verification_status: self.verification_status,
            outlier_distances: self.outlier_distances.clone(),
        }
    }
}

/// One entry of a distance matrix: the distance measured for a result id.
#[derive(Debug, PartialEq)]
pub struct DistanceEntry {
    pub result_id: String,
    pub distance: Double,
}

/// View of a [`DistanceEntry`].
pub struct DistanceEntryView {
    pub result_id: Seq<char>,
    pub distance: Double,
}

impl View for DistanceEntry {
    type V = DistanceEntryView;

    open spec fn view(&self) -> DistanceEntryView {
        DistanceEntryView { result_id: self.result_id@, distance: self.distance }
    }
}

impl DeepView for DistanceEntry {
    type V = DistanceEntryView;

    open spec fn deep_view(&self) -> DistanceEntryView {
        self@
    }
}

impl Clone for DistanceEntry {
    fn clone(&self) -> (copy: Self)
        ensures
            copy@ == self@,
    {
        DistanceEntry { result_id: self.result_id.clone(), distance: self.distance }
    }
}

/// What the semantic analysis of one result set found.
///
/// `distance_matrix` lists the distance measured for each result id, one
/// entry per id, in the order the producer gave them.
#[derive(Debug, PartialEq)]
pub struct SemanticAnalysisResult {
    pub center_of_gravity: String,
    pub outliers: Vec<SemanticOutlier>,
    pub distance_matrix: Vec<DistanceEntry>,
    pub embeddings: Vec<MessageEmbedding>,
    pub threshold_used: Double,
    pub processing_time_ms: u64,
    pub consensus_score: Double,
}

/// View of a [`SemanticAnalysisResult`].
pub struct SemanticAnalysisResultView {
    pub center_of_gravity: Seq<char>,
    pub outliers: Seq<SemanticOutlierView>,
    pub distance_matrix: Seq<DistanceEntryView>,
    pub embeddings: Seq<MessageEmbeddingView>,
    pub threshold_used: Double,
    pub processing_time_ms: u64,
    pub consensus_score: Double,
}

impl SemanticAnalysisResultView {
    /// Whether some outlier is at least as severe as `threshold`.
    pub open spec fn has_outlier_at_least(self, threshold: OutlierSeverity) -> bool {
        exists|i: int|
            0 <= i < self.outliers.len() && (#[trigger] self.outliers[i]).severity.spec_at_least(
                threshold,
            )
    }
}

impl View for SemanticAnalysisResult {
    type V = SemanticAnalysisResultView;

    open spec fn view(&self) -> SemanticAnalysisResultView {
        SemanticAnalysisResultView {
            center_of_gravity: self.center_of_gravity@,
            outliers: self.outliers.deep_view(),
            distance_matrix: self.distance_matrix.deep_view(),
            embeddings: self.embeddings.deep_view(),
            threshold_used: self.threshold_used,
            processing_time_ms: self.processing_time_ms,
            consensus_score: self.consensus_score,
        }
    }
}

impl DeepView for SemanticAnalysisResult {
    type V = SemanticAnalysisResultView;

    open spec fn deep_view(&self) -> SemanticAnalysisResultView {
        self@
    }
}

impl Clone for SemanticAnalysisResult {
    fn clone(&self) -> (copy: Self)
        ensures
            copy@ == self@,
    {
        SemanticAnalysisResult {
            center_of_gravity: self.center_of_gravity.clone(),
            outliers: self.outliers.clone(),
            distance_matrix: self.distance_matrix.clone(),
            embeddings: self.embeddings.clone(),
            threshold_used: self.threshold_used,
            processing_time_ms: self.processing_time_ms,
            consensus_score: self.consensus_score,
        }
    }
}

impl SemanticAnalysisResult {
    /// Whether some outlier is at least as severe as `threshold`.
    pub fn has_outlier_at_least(&self, threshold: OutlierSeverity) -> (found: bool)
        ensures
            found == self@.has_outlier_at_least(threshold),
    {
        let mut i: usize = 0;
        while i < self.outliers.len()
            invariant
                i <= self.outliers.len(),
                forall|j: int|
                    0 <= j < i ==> !(#[trigger] self@.outliers[j]).severity.spec_at_least(
                        threshold,
                    ),
            decreases self.outliers.len() - i,
        {
            if self.outliers[i].severity.at_least(threshold) {
                assert(self@.outliers[i as int].severity.spec_at_least(threshold));
                return true;
            }
            i += 1;
        }
        false
    }
}

/// A search result with the metadata the analysis was run on.
#[derive(Debug, PartialEq)]
pub struct SearchResult {
    pub id: String,
    pub title: String,
    pub snippet: String,
    pub url: String,
    pub rank: u32,
    pub source_type: String,
    pub semantic_hash: String,
    pub trustworthiness_score: Double,
}

/// View of a [`SearchResult`].
pub struct SearchResultView {
    pub id: Seq<char>,
    pub title: Seq<char>,
    pub snippet: Seq<char>,
    pub url: Seq<char>,
    pub rank: u32,
    pub source_type: Seq<char>,
    pub semantic_hash: Seq<char>,
    pub trustworthiness_score: Double,
}

impl View for SearchResult {
    type V = SearchResultView;

    open spec fn view(&self) -> SearchResultView {
        SearchResultView {
            id: self.id@,
            title: self.title@,
            snippet: self.snippet@,
            url: self.url@,
            rank: self.rank,
            source_type: self.source_type@,
            semantic_hash: self.semantic_hash@,
            trustworthiness_score: self.trustworthiness_score,
        }
    }
}

impl DeepView for SearchResult {
    type V = SearchResultView;

    open spec fn deep_view(&self) -> SearchResultView {
        self@
    }
}

impl Clone for SearchResult {
    fn clone(&self) -> (copy: Self)
        ensures
            copy@ == self@,
    {
        SearchResult {
            id: self.id.clone(),
            title: self.title.clone(),
            snippet: self.snippet.clone(),
            url: self.url.clone(),
            rank: self.rank,
            source_type: self.source_type.clone(),
            semantic_hash: self.semantic_hash.clone(),
            trustworthiness_score: self.trustworthiness_score,
        }
    }
}

/// How an analysis was produced and how far its verification has come.
#[derive(Debug, PartialEq)]
pub struct AnalysisMetadata {
    pub model_version: String,
    pub algorithm_version: String,
    pub processing_node: String,
    pub verification_count: u32,
    pub dispute_count: u32,
    pub consensus_reached: bool,
}

/// View of an [`AnalysisMetadata`].
pub struct AnalysisMetadataView {
    pub model_version: Seq<char>,
    pub algorithm_version: Seq<char>,
    pub processing_node: Seq<char>,
    pub verification_count: u32,
    pub dispute_count: u32,
    pub consensus_reached: bool,
}

impl View for AnalysisMetadata {
    type V = AnalysisMetadataView;

    open spec fn view(&self) -> AnalysisMetadataView {
        AnalysisMetadataView {
            model_version: self.model_version@,
            algorithm_version: self.algorithm_version@,
            processing_node: self.processing_node@,
            verification_count: self.verification_count,
            dispute_count: self.dispute_count,
            consensus_reached: self.consensus_reached,
        }
    }
}

impl DeepView for AnalysisMetadata {
    type V = AnalysisMetadataView;

    open spec fn deep_view(&self) -> AnalysisMetadataView {
        self@
    }
}

impl Clone for AnalysisMetadata {
    fn clone(&self) -> (copy: Self)
        ensures
            copy@ == self@,
    {
        AnalysisMetadata {
            model_version: self.model_version.clone(),
            algorithm_version: self.algorithm_version.clone(),
            processing_node: self.processing_node.clone(),
            verification_count: self.verification_count,
            dispute_count: self.dispute_count,
            consensus_reached: self.consensus_reached,
        }
    }
}

/// One stored analysis: what was submitted, by whom, and when.
///
/// `submitter` is the account name of the caller, `timestamp` the block time
/// in nanoseconds and `block_height` the height of the block; the three are
/// assigned at submission and never taken from the caller's arguments.
#[derive(Debug, PartialEq)]
pub struct SemanticGuardRecord {
    pub id: String,
    pub query: String,
    pub results: Vec<SearchResult>,
    pub semantic_analysis: SemanticAnalysisResult,
    pub submitter: String,
    pub timestamp: u64,
    pub block_height: u64,
    pub metadata: AnalysisMetadata,
}

/// View of a [`SemanticGuardRecord`].
pub struct SemanticGuardRecordView {
    pub id: Seq<char>,
    pub query: Seq<char>,
    pub results: Seq<SearchResultView>,
    pub semantic_analysis: SemanticAnalysisResultView,
    pub submitter: Seq<char>,
    pub timestamp: u64,
    pub block_height: u64,
    pub metadata: AnalysisMetadataView,
}

impl SemanticGuardRecordView {
    /// Whether the record counts as risky at `threshold`: some outlier of its
    /// analysis is at least that severe.
    pub open spec fn is_high_risk(self, threshold: OutlierSeverity) -> bool {
        self.semantic_analysis.has_outlier_at_least(threshold)
    }
}

impl View for SemanticGuardRecord {
    type V = SemanticGuardRecordView;

    open spec fn view(&self) -> SemanticGuardRecordView {
        SemanticGuardRecordView {
            id: self.id@,
            query: self.query@,
            results: self.results.deep_view(),
            semantic_analysis: self.semantic_analysis@,
            submitter: self.submitter@,
            timestamp: self.timestamp,
            block_height: self.block_height,
            metadata: self.metadata@,
        }
    }
}

impl DeepView for SemanticGuardRecord {
    type V = SemanticGuardRecordView;

    open spec fn deep_view(&self) -> SemanticGuardRecordView {
        self@
    }
}

impl Clone for SemanticGuardRecord {
    fn clone(&self) -> (copy: Self)
        ensures
            copy@ == self@,
    {
        SemanticGuardRecord {
            id: self.id.clone(),
            query: self.query.clone(),
            results: self.results.clone(),
            semantic_analysis: self.semantic_analysis.clone(),
            submitter: self.submitter.clone(),
            timestamp: self.timestamp,
            block_height: self.block_height,
            metadata: self.metadata.clone(),
        }
    }
}

} // verus!
