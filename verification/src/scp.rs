pub mod ballot_protocol;
pub mod envelope;
pub mod local_node;
pub mod local_node_builder;
pub mod nomination_protocol;
pub mod queue;
pub mod scp;
pub mod scp_driver;
pub mod scp_driver_builder;
pub mod scp_state_builder;
pub mod slot;
pub mod statement;
pub mod statement_filter;
pub mod statement_order;
