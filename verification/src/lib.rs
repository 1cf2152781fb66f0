//! Spec-memory for software projects: requirements, their verification
//! dossiers, and the functional-safety chain (hazard → safety function →
//! safety requirement), with the rules that govern them.

pub mod anchors;
pub mod batch;
pub mod cli;
pub mod coverage;
pub mod dashboard;
pub mod diff;
pub mod errors;
pub mod export;
pub mod glob;
pub mod hara;
pub mod idmap;
pub mod impact;
pub mod import;
pub mod ids;
pub mod json;
pub mod integration;
pub mod links;
pub mod lint;
pub mod markdown;
pub mod model;
pub mod next;
pub mod patterns;
pub mod provenance;
pub mod queries;
pub mod renumber;
pub mod report;
pub mod review;
pub mod safety;
pub mod safety_gov;
pub mod safety_ops;
pub mod sets;
pub mod staleness;
pub mod testrun;
pub mod trace;
pub mod text;
pub mod validation;
pub mod walkthrough;
