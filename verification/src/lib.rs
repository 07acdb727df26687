//! Verified core of caligula: candidate ranking, herder protocol data, write/verify
//! events, request bookkeeping for the RPC client and the decision logic of the GUI.

pub mod candidate;
pub mod compression;
pub mod device;
pub mod external;
pub mod hash;
pub mod herder;
pub mod write_verify;
pub mod rpc;
pub mod gui;
pub mod workflow;
