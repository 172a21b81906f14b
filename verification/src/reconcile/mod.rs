pub mod emit;
pub mod run;
pub mod runtime_sync;
pub mod state;
pub mod types;
pub mod snapshot;
pub mod source_recovery;
pub mod rename;
pub mod rename_evidence;
pub mod request;
pub mod work_plan;
pub mod onboarding;
pub mod commands;
pub mod authority;
pub mod identity_conflicts;
pub mod pass;
pub mod projection_plan;
pub mod census;
pub mod directory_apply;
pub mod result_copy;
pub mod onboarding_apply;
