//! How a column is described: its logical type, the index capabilities it is
//! stored with, and the table it belongs to; and the plaintext values that pass
//! into the encryption boundary.

use vstd::prelude::*;
use vstd::string::StringExecFns;

verus! {

/// A JSON document, passed through as it is.
#[verifier::external_type_specification]
#[verifier::external_body]
pub struct ExJsonValue(serde_json::Value);

/// The logical type that a column's values decrypt to.
#[derive(Clone, Copy, Debug, PartialEq, Eq, Structural)]
pub enum ColumnType {
    Int,
    Utf8Str,
    JsonB,
}

/// The encrypted index capability of a column, which decides the predicates that
/// can be evaluated without decrypting it.
#[derive(Clone, Copy, Debug, PartialEq, Eq, Structural)]
pub enum IndexType {
    /// Order-revealing: equality and range comparisons.
    Ore,
    /// Bloom-filter terms: pattern matching.
    Match,
    /// Deterministic: exact equality.
    Unique,
    /// Searchable encrypted vector: containment in JSON documents.
    SteVec,
}

/// The description of one encrypted column.
pub struct ColumnConfig {
    pub name: String,
    pub cast_type: ColumnType,
    pub indexes: Vec<IndexType>,
}

impl ColumnConfig {
    /// A text column named `name`, with no index yet.
    pub fn build(name: &str) -> (r: ColumnConfig)
        ensures
            r.name@ == name@,
            r.cast_type == ColumnType::Utf8Str,
            r.indexes@ == Seq::<IndexType>::empty(),
    {
        ColumnConfig { name: String::from_str(name), cast_type: ColumnType::Utf8Str, indexes: Vec::new() }
    }

    /// The same column, with values of type `cast_type`.
    pub fn casts_as(self, cast_type: ColumnType) -> (r: ColumnConfig)
        ensures
            r.name == self.name,
            r.cast_type == cast_type,
            r.indexes == self.indexes,
    {
        ColumnConfig { cast_type, ..self }
    }

    /// The same column, with one more index.
    pub fn add_index(self, index: IndexType) -> (r: ColumnConfig)
        ensures
            r.name == self.name,
            r.cast_type == self.cast_type,
            r.indexes@ == self.indexes@.push(index),
    {
        let mut config = self;
        config.indexes.push(index);
        config
    }

    /// Whether the column is stored with an index of type `index`.
    pub fn has_index(&self, index: IndexType) -> (r: bool)
        ensures
            r == self.indexes@.contains(index),
    {
        let mut i: usize = 0;
        while i < self.indexes.len()
            invariant
                0 <= i <= self.indexes@.len(),
                forall|j: int| 0 <= j < i ==> self.indexes@[j] != index,
            decreases self.indexes@.len() - i,
        {
            if self.indexes[i] == index {
                return true;
            }
            i = i + 1;
        }
        false
    }
}

/// The table and column that encrypted values are stored in.
pub struct Identifier {
    pub table: String,
    pub column: String,
}

impl Identifier {
    pub fn new(table: &str, column: &str) -> (r: Identifier)
        ensures
            r.table@ == table@,
            r.column@ == column@,
    {
        Identifier { table: String::from_str(table), column: String::from_str(column) }
    }

    pub fn table(&self) -> (r: &str)
        ensures
            r@ == self.table@,
    {
        self.table.as_str()
    }
}

/// A value before encryption.
pub enum Plaintext {
    Int(i32),
    Utf8Str(String),
    JsonB(serde_json::Value),
}

/// A JSON document that is to be stored encrypted.
pub struct WrappedJson(pub serde_json::Value);

impl From<WrappedJson> for Plaintext {
    fn from(w: WrappedJson) -> (r: Plaintext) {
        Plaintext::JsonB(w.0)
    }
}

impl vstd::std_specs::convert::FromSpecImpl<WrappedJson> for Plaintext {
    open spec fn obeys_from_spec() -> bool {
        true
    }

    open spec fn from_spec(w: WrappedJson) -> Plaintext {
        Plaintext::JsonB(w.0)
    }
}

impl From<i32> for Plaintext {
    fn from(v: i32) -> (r: Plaintext) {
        Plaintext::Int(v)
    }
}

impl vstd::std_specs::convert::FromSpecImpl<i32> for Plaintext {
    open spec fn obeys_from_spec() -> bool {
        true
    }

    open spec fn from_spec(v: i32) -> Plaintext {
        Plaintext::Int(v)
    }
}

impl From<String> for Plaintext {
    fn from(v: String) -> (r: Plaintext) {
        Plaintext::Utf8Str(v)
    }
}

impl vstd::std_specs::convert::FromSpecImpl<String> for Plaintext {
    open spec fn obeys_from_spec() -> bool {
        true
    }

    open spec fn from_spec(v: String) -> Plaintext {
        Plaintext::Utf8Str(v)
    }
}

/// What a prepared value is encrypted for.
#[derive(Clone, Copy, Debug, PartialEq, Eq, Structural)]
pub enum EqlOperation {
    /// To be stored in the column, with all of its index terms.
    Store,
    /// To be compared against stored values through one index.
    Query(IndexType),
}

/// One value on its way into the encryption boundary, bound to the column
/// description it is encrypted for.
pub struct PreparedPlaintext<'a> {
    pub column_config: &'a ColumnConfig,
    pub identifier: &'a Identifier,
    pub plaintext: Plaintext,
    pub operation: EqlOperation,
}

} // verus!
