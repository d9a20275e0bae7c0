//! What the ingestion engine asks of a store, stated over a model of the
//! three tables, and a store in memory that keeps to it.

pub mod interface;
pub mod memory;
pub mod model;
pub mod upsert;

pub use interface::Storage;
pub use memory::St;
pub use model::Store;
