//! Kotoba: a content-addressed knowledge-graph node.
pub mod agent;
pub mod base32;
pub mod cacao;
pub mod cid;
pub mod client;
pub mod codec;
pub mod commit;
pub mod datalog;
pub mod datom;
pub mod debug_text;
pub mod keymap;
pub mod ip;
pub mod ipfs;
pub mod kse;
pub mod llm;
pub mod mv;
pub mod net;
pub mod prolly;
pub mod quad;
pub mod quad_store;
pub mod runtime;
pub mod server;
pub mod source_chain;
pub mod sparql;
pub mod store;
pub mod text;
pub mod vm;
pub mod warrant;
