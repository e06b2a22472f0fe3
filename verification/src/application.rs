pub mod quorum;
pub mod quorum_manager;
