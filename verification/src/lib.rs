//! Deterministic, bounded evidence over immutable code threads.

pub mod canonical;
pub mod cas;
pub mod closure;
pub mod commit;
pub mod edit;
pub mod error;
pub mod fair;
pub mod history;
pub mod history_messages;
pub mod identity;
pub mod json;
pub mod ledger;
pub mod measure;
pub mod model_input;
pub mod order;
pub mod owner_identity;
pub mod owner_identity_types;
pub mod read_set;
pub mod read_set_changes;
pub mod record;
pub mod retained;
pub mod table;
pub mod text;
pub mod thread;
pub mod thread_callables;
pub mod thread_change_set;
pub mod thread_change_set_lanes;
pub mod thread_change_set_service;
pub mod thread_change_set_sight;
pub mod thread_change_set_targets;
pub mod thread_context;
pub mod thread_context_claims;
pub mod thread_context_facts;
pub mod thread_context_members;
pub mod thread_flow;
pub mod thread_flow_bounds;
pub mod thread_flow_cfg;
pub mod thread_flow_cfg_graphs;
pub mod thread_flow_depth;
pub mod thread_flow_order;
pub mod thread_flow_service;
pub mod thread_flow_uses;
pub mod thread_impact;
pub mod thread_impact_duties;
pub mod thread_impact_service;
pub mod transaction;
pub mod transaction_steps;
pub mod unambiguous;
pub mod words;
pub mod worktree;
