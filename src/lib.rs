//! A resource-oriented transaction engine core.
//!
//! - `types`: decimals, addresses and transient/persistent ids.
//! - `resource`, `nft`, `resource_def`: buckets and their conservation
//!   rules, NFTs, and the mint/burn policy of a resource.
//! - `account`, `frame`: vaults held by an account, and the per-call set of
//!   movable buckets with its isolation and leak check.
//! - `text`, `ast`, `grammar`, `parser`: the transaction manifest language,
//!   its grammar as spec functions and the parser proved against it.
//! - `codec`: the canonical binary encoding of scalars, strings and
//!   tuples of scalars.
//! - `engine`, `error`: module validation and the error taxonomy.

pub mod types;
pub mod nft;
pub mod resource;
pub mod text;
pub mod ast;
pub mod parser;
pub mod grammar;
pub mod error;
pub mod component;
pub mod engine;
pub mod account;
pub mod resource_def;
pub mod frame;
pub mod codec;
