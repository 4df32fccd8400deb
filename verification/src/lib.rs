//! Routing rules of the StableRoute router contract.
//!
//! The crate decides, for one contract invocation at a time, whether a request
//! is accepted, which persistent slots change and which events are published.
//! An [`Invocation`](crate::invocation::Invocation) carries the ledger time, the
//! addresses that signed and the slots the contract holds;
//! [`StableRouteRouter`](crate::router::StableRouteRouter) has one function per
//! entrypoint. A rejected request leaves the invocation as it was.

pub mod config;
pub mod error;
pub mod event;
pub mod governance;
pub mod ident;
pub mod invocation;
pub mod laws;
pub mod pairs;
pub mod queries;
pub mod request;
pub mod router;
pub mod routing;
pub mod rules;
pub mod storage;
pub mod tag;

pub use config::BPS_DENOMINATOR;
pub use config::MAX_BATCH_SIZE;
pub use config::MAX_COOLDOWN_SECS;
pub use config::MAX_FEE_BPS;
pub use error::Rejection;
pub use error::RouterError;
pub use event::Event;
pub use ident::Address;
pub use ident::Symbol;
pub use invocation::Invocation;
pub use queries::PairInfo;
pub use router::StableRouteRouter;
pub use storage::DataKey;
pub use storage::Storage;
pub use storage::Value;
