//! Plain records exchanged with callers.
use vstd::prelude::*;

verus! {

/// Where and as whom to connect.
#[derive(Clone, Debug)]
pub struct DbConfig {
    pub host: String,
    pub port: u16,
    pub user: String,
    pub password: Option<String>,
    pub dbname: String,
}

/// A connection the user chose to keep, under an id and a display name.
#[derive(Clone, Debug)]
pub struct SavedConnection {
    pub id: String,
    pub name: String,
    pub config: DbConfig,
}

/// One column of a table, as introspection reports it.
#[derive(Clone, Debug)]
pub struct ColumnDefinition {
    pub name: String,
    /// The engine's own name for the type, not normalised.
    pub data_type: String,
    pub is_pk: bool,
    /// Unique and also `NOT NULL`, hence usable as a row key.
    pub is_unique: bool,
    /// The labels of an enumerated type, in their defined order.
    pub enum_values: Option<Vec<String>>,
}

} // verus!
