//! Canonical agent runtime: the decision logic.

pub mod blockers;
pub mod boundary;
pub mod canonical_writer;
pub mod capability;
pub mod captures;
pub mod class_laws;
pub mod detector_laws;
pub mod effect_laws;
pub mod evaluation_laws;
pub mod hotspot_laws;
pub mod report_laws;
pub mod record_laws;
pub mod tool_laws;
pub mod doc_laws;
pub mod schema_laws;
pub mod driver_laws;
pub mod filing_laws;
pub mod text_laws;
pub mod urgency_laws;
pub mod value_laws;
pub mod signal_laws;
pub mod complexity;
pub mod complexity_report;
pub mod components;
pub mod constants;
pub mod drift_analysis;
pub mod error_class;
pub mod eval_driver;
pub mod evaluation;
pub mod events;
pub mod evolution;
pub mod flags;
pub mod fnv;
pub mod generate_issues;
pub mod graph_issues;
pub mod graph_metrics;
pub mod groups;
pub mod grpo;
pub mod inter_complexity;
pub mod invalid_action;
pub mod issues;
pub mod json;
pub mod json_text;
pub mod keyed;
pub mod lessons;
pub mod order;
pub mod proposals;
pub mod reach;
pub mod recovery_laws;
pub mod rename_example;
pub mod reruns;
pub mod rounds;
pub mod route;
pub mod semantic;
pub mod step;
pub mod strong_components;
pub mod supervisor;
pub mod syn_writer;
pub mod tally;
pub mod text;
pub mod tickets;
pub mod tlog_delta;
pub mod training_laws;
pub mod user_chat;
pub mod window_laws;
