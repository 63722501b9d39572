//! Deterministic pattern mining over a diary of symptom episodes.
//!
//! The crate analyzes a finite snapshot of episode records (severity,
//! optional duration, optional free-text triggers, and the calendar and
//! clock position of each occurrence) and produces two reports:
//!
//! * [`patterns::analyze_patterns`] surfaces recurring triggers,
//!   severity trends, temporal clustering, risk indicators and
//!   recommendations, as human-readable sentences;
//! * [`analytics::compute_analytics`] produces raw distributions:
//!   severity histogram, trigger histogram, monthly series, and duration
//!   statistics.
//!
//! Every analyzer is a pure function of the snapshot.  Analyzers that
//! speak of "recent" episodes rely on the documented caller contract
//! that the snapshot is ordered newest-first.

pub mod advice;
pub mod analytics;
pub mod episode;
pub mod laws;
pub mod numfmt;
pub mod patterns;
pub mod recommend;
pub mod report;
pub mod risk;
pub mod severity;
pub mod tally;
pub mod temporal;
pub mod text;
pub mod triggers;

pub use analytics::{compute_analytics, AnalyticsData, DurationStats, MonthlyTrend, SeverityCount, TriggerCount};
pub use advice::{AnalysisRequest, AnalysisResponse};
pub use episode::Episode;
pub use patterns::{analyze_patterns, PatternAnalysis};
pub use report::PDFReportGenerator;
