//! Core library of the NeQST office node: field encryption, remote-access
//! tokens, document metadata, task progress and the JSON-RPC method logic.

pub mod codec;
pub mod crypto;
pub mod json;
pub mod lok;
pub mod network;
pub mod orchestrator;
pub mod queue;
pub mod rpc;
pub mod storage;
pub mod text;
