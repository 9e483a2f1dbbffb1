//! Local speech and meeting transcription: the decisions, formats and state
//! transitions behind the `comlink` command, with their behaviour proved.
pub mod asr;
pub mod audio;
pub mod cli;
pub mod clipboard;
pub mod config;
pub mod deps;
pub mod doctor;
pub mod error;
pub mod llm;
pub mod mcp;
pub mod meet;
pub mod meet_audit;
pub mod meet_export;
pub mod meet_flow;
pub mod meet_recorders;
pub mod meet_service;
pub mod meet_status;
pub mod meet_store;
pub mod numbers;
pub mod ordering;
pub mod output;
pub mod paths;
pub mod record;
pub mod repetition;
pub mod storage;
pub mod strings;
pub mod system_audio;
pub mod text;

use vstd::prelude::*;

verus! {

} // verus!
