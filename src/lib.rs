//! Value marshalling and statement construction for a PostgreSQL client.
//!
//! - [`coerce`]: from a wire value and its backend type name to a [`TaggedValue`].
//! - [`statement`]: parameterized single-cell `UPDATE` statements.
//! - [`query`]: aggregation of a batch's outcomes, and lexical facts of its text.
//! - [`registry`]: live connection handles under opaque ids.
//! - [`storage`]: the records of the saved-connection and session stores.

pub mod coerce;
pub mod models;
pub mod query;
pub mod registry;
pub mod statement;
pub mod storage;
pub mod text;
pub mod value;

pub use coerce::{coerce, value_kind, ValueKind, WireValue};
pub use models::{ColumnDefinition, DbConfig, SavedConnection};
pub use query::{QueryResult, Outcome};
pub use registry::ConnectionRegistry;
pub use statement::{build_update, JsonItem, KeyTuple, UpdateStatement};
pub use storage::{Session, TabState};
pub use value::TaggedValue;
