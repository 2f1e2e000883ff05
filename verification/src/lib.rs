//! Verified core of an NFT publishing pipeline: the work/asset lifecycle
//! state machine, the task-envelope wire protocol, the pagination-cursor
//! codec, the entity store model, the publish orchestrator and the
//! reconciliation job.

pub mod attrmap;
pub mod bytesfmt;
pub mod cursor;
pub mod domain;
pub mod errors;
pub mod ethaddr;
pub mod event;
pub mod graph;
pub mod grpcframe;
pub mod hexstr;
pub mod kvmap;
pub mod lambda;
pub mod metadata;
pub mod notify;
pub mod numtext;
pub mod pager;
pub mod publish;
pub mod ratelimit;
pub mod reconcile;
pub mod store;
pub mod task;
mod strutf8;

pub use errors::AppError;
