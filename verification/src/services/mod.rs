pub mod activity;
pub mod companion;
pub mod git;
pub mod state_machine;
pub mod storage;
