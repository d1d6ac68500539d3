//! The encrypted query builder: it checks that a query is fully described and
//! matches an index of its column before anything is encrypted, prepares the
//! plaintext for the encryption boundary, and converts decrypted results.

use vstd::prelude::*;
use vstd::string::StringExecFns;
use crate::schema::{ColumnConfig, EqlOperation, Identifier, IndexType, Plaintext, PreparedPlaintext};
use crate::vecs::reversed;

verus! {

/// A query under construction against one encrypted column.
pub struct EncryptedQueryBuilder {
    pub column_config: ColumnConfig,
    pub identifier: Identifier,
    pub index_type: Option<IndexType>,
    pub statement: Option<String>,
}

/// Why a query cannot be built.
#[derive(Clone, Copy, Debug, PartialEq, Eq, Structural)]
pub enum QueryBuildError {
    MissingIndexType,
    MissingStatement,
    /// The chosen index is not one that the column is stored with.
    IndexNotOnColumn,
}

/// A query whose plaintext is ready for the encryption boundary.
pub struct QueryRequest<'a> {
    pub prepared: PreparedPlaintext<'a>,
    pub statement: &'a String,
}

/// A query with its encrypted term, ready to be executed. The term is bound as
/// the statement's only parameter.
pub struct EncryptedQuery {
    pub eql: serde_json::Value,
    pub statement: String,
}

/// What building a query from `b` gives: the operation its term is encrypted for
/// and the text of its statement, or the first thing that is wrong with it.
pub open spec fn query_outcome(b: EncryptedQueryBuilder) -> Result<
    (EqlOperation, Seq<char>),
    QueryBuildError,
> {
    match b.index_type {
        None => Err(QueryBuildError::MissingIndexType),
        Some(index) => match b.statement {
            None => Err(QueryBuildError::MissingStatement),
            Some(statement) => if b.column_config.indexes@.contains(index) {
                Ok((EqlOperation::Query(index), statement@))
            } else {
                Err(QueryBuildError::IndexNotOnColumn)
            },
        },
    }
}

/// Two builders that describe the same query (the same index, the same column
/// indexes, the same statement text) build the same query: the same operation
/// and statement, or the same failure. With the same plaintext the prepared
/// term is then the same too, so both queries bind the same parameter.
pub proof fn lemma_build_query_idempotent(b1: EncryptedQueryBuilder, b2: EncryptedQueryBuilder)
    requires
        b1.index_type == b2.index_type,
        b1.column_config.indexes@ == b2.column_config.indexes@,
        b1.statement is Some <==> b2.statement is Some,
        b1.statement is Some ==> b1.statement->Some_0@ == b2.statement->Some_0@,
    ensures
        query_outcome(b1) == query_outcome(b2),
{
}

impl EncryptedQueryBuilder {
    pub fn new(column_config: ColumnConfig, identifier: Identifier) -> (r: EncryptedQueryBuilder)
        ensures
            r.column_config == column_config,
            r.identifier == identifier,
            r.index_type is None,
            r.statement is None,
    {
        EncryptedQueryBuilder { column_config, identifier, index_type: None, statement: None }
    }

    pub fn index_type(self, index_type: IndexType) -> (r: EncryptedQueryBuilder)
        ensures
            r == (EncryptedQueryBuilder { index_type: Some(index_type), ..self }),
    {
        EncryptedQueryBuilder { index_type: Some(index_type), ..self }
    }

    pub fn statement(self, statement: &str) -> (r: EncryptedQueryBuilder)
        ensures
            r.column_config == self.column_config,
            r.identifier == self.identifier,
            r.index_type == self.index_type,
            r.statement is Some,
            r.statement->Some_0@ == statement@,
    {
        EncryptedQueryBuilder { statement: Some(String::from_str(statement)), ..self }
    }

    /// Prepares `plaintext` as a query term through the chosen index. Fails,
    /// before anything is encrypted, when the index or the statement is not set,
    /// or when the column is not stored with that index.
    pub fn build_query(&self, plaintext: Plaintext) -> (r: Result<QueryRequest<'_>, QueryBuildError>)
        ensures
            match r {
                Ok(q) => {
                    &&& query_outcome(*self) == Ok::<_, QueryBuildError>(
                        (q.prepared.operation, q.statement@),
                    )
                    &&& q.prepared.column_config == &self.column_config
                    &&& q.prepared.identifier == &self.identifier
                    &&& q.prepared.plaintext == plaintext
                    &&& Some(*q.statement) == self.statement
                },
                Err(e) => query_outcome(*self) == Err::<(EqlOperation, Seq<char>), _>(e),
            },
    {
        let index_type = match self.index_type {
            Some(i) => i,
            None => {
                return Err(QueryBuildError::MissingIndexType);
            },
        };
        let statement = match &self.statement {
            Some(s) => s,
            None => {
                return Err(QueryBuildError::MissingStatement);
            },
        };
        if !self.column_config.has_index(index_type) {
            return Err(QueryBuildError::IndexNotOnColumn);
        }
        Ok(
            QueryRequest {
                prepared: PreparedPlaintext {
                    column_config: &self.column_config,
                    identifier: &self.identifier,
                    plaintext,
                    operation: EqlOperation::Query(index_type),
                },
                statement,
            },
        )
    }
}

impl<'a> QueryRequest<'a> {
    /// The executable query, once the encryption boundary has turned the
    /// prepared plaintext into `eql`.
    pub fn with_ciphertext(&self, eql: serde_json::Value) -> (r: EncryptedQuery)
        ensures
            r.eql == eql,
            r.statement == *self.statement,
    {
        EncryptedQuery { eql, statement: self.statement.clone() }
    }
}

/// A type that decrypted values can be converted into.
pub trait FromPlaintext: Sized {
    /// The value that `p` converts to, if it is of this type.
    spec fn from_plaintext_spec(p: Plaintext) -> Option<Self>;

    /// The plaintext that a value of this type is stored as.
    spec fn plaintext_of(v: Self) -> Plaintext;

    /// A value converts back from the plaintext it is stored as.
    proof fn lemma_round_trip(v: Self)
        ensures
            Self::from_plaintext_spec(Self::plaintext_of(v)) == Some(v),
    ;

    fn from_plaintext(p: Plaintext) -> (r: Option<Self>)
        ensures
            r == Self::from_plaintext_spec(p),
    ;
}

impl FromPlaintext for i32 {
    open spec fn from_plaintext_spec(p: Plaintext) -> Option<i32> {
        match p {
            Plaintext::Int(v) => Some(v),
            _ => None,
        }
    }

    open spec fn plaintext_of(v: i32) -> Plaintext {
        Plaintext::Int(v)
    }

    proof fn lemma_round_trip(v: i32) {
    }

    fn from_plaintext(p: Plaintext) -> (r: Option<i32>) {
        match p {
            Plaintext::Int(v) => Some(v),
            _ => None,
        }
    }
}

impl FromPlaintext for String {
    open spec fn from_plaintext_spec(p: Plaintext) -> Option<String> {
        match p {
            Plaintext::Utf8Str(v) => Some(v),
            _ => None,
        }
    }

    open spec fn plaintext_of(v: String) -> Plaintext {
        Plaintext::Utf8Str(v)
    }

    proof fn lemma_round_trip(v: String) {
    }

    fn from_plaintext(p: Plaintext) -> (r: Option<String>) {
        match p {
            Plaintext::Utf8Str(v) => Some(v),
            _ => None,
        }
    }
}

/// The decrypted value at `index` is not of the requested type.
#[derive(Clone, Copy, Debug, PartialEq, Eq, Structural)]
pub struct ConversionError {
    pub index: usize,
}

/// Converts every decrypted value, in order; one value of another type fails the
/// whole conversion, naming the first such value.
pub fn convert_decrypted<T: FromPlaintext>(values: Vec<Plaintext>) -> (r: Result<
    Vec<T>,
    ConversionError,
>)
    ensures
        match r {
            Ok(out) => {
                &&& out@.len() == values@.len()
                &&& forall|i: int|
                    0 <= i < values@.len() ==> T::from_plaintext_spec(#[trigger] values@[i]) == Some(
                        out@[i],
                    )
            },
            Err(e) => {
                &&& e.index < values@.len()
                &&& T::from_plaintext_spec(values@[e.index as int]) is None
                &&& forall|i: int|
                    0 <= i < e.index ==> (#[trigger] T::from_plaintext_spec(values@[i])) is Some
            },
        },
{
    let ghost all = values@;
    let mut taken = reversed(values);
    let mut out: Vec<T> = Vec::new();
    while taken.len() > 0
        invariant
            all == values@,
            out@.len() + taken@.len() == all.len(),
            taken@.reverse() =~= all.subrange(out@.len() as int, all.len() as int),
            forall|i: int|
                0 <= i < out@.len() ==> T::from_plaintext_spec(#[trigger] all[i]) == Some(out@[i]),
        decreases taken@.len(),
    {
        let ghost j = out@.len() as int;
        let ghost prev = taken@;
        let v = taken.pop().unwrap();
        proof {
            assert(taken@ == prev.drop_last());
            assert(prev.reverse()[0] == v);
            assert(all.subrange(j, all.len() as int)[0] == all[j]);
            assert(taken@.reverse() =~= prev.reverse().drop_first());
            assert(prev.reverse().drop_first() =~= all.subrange(j + 1, all.len() as int));
        }
        match T::from_plaintext(v) {
            Some(x) => {
                out.push(x);
            },
            None => {
                let index = out.len();
                assert(v == all[j]);
                assert(T::from_plaintext_spec(all[index as int]) is None);
                assert forall|i: int| 0 <= i < index implies (#[trigger] T::from_plaintext_spec(
                    all[i],
                )) is Some by {
                    assert(T::from_plaintext_spec(all[i]) == Some(out@[i]));
                }
                return Err(ConversionError { index });
            },
        }
    }
    Ok(out)
}

/// A whole number survives the way into a plaintext and back unchanged.
pub proof fn lemma_int_round_trip(v: i32)
    ensures
        <i32 as FromPlaintext>::from_plaintext_spec(
            <Plaintext as vstd::std_specs::convert::FromSpec<i32>>::from_spec(v),
        ) == Some(v),
{
}

/// A text survives the way into a plaintext and back unchanged.
pub proof fn lemma_text_round_trip(v: String)
    ensures
        <String as FromPlaintext>::from_plaintext_spec(
            <Plaintext as vstd::std_specs::convert::FromSpec<String>>::from_spec(v),
        ) == Some(v),
{
}

/// When the decrypted values are, in row order, the plaintexts of stored values
/// of type `T` (the encryption boundary gives back what it was given), the
/// conversion succeeds and yields exactly the stored values, in the same order.
pub proof fn lemma_decrypted_round_trip<T: FromPlaintext>(stored: Seq<T>, decrypted: Seq<Plaintext>)
    requires
        decrypted.len() == stored.len(),
        forall|i: int| 0 <= i < stored.len() ==> decrypted[i] == T::plaintext_of(#[trigger] stored[i]),
    ensures
        forall|i: int|
            0 <= i < decrypted.len() ==> T::from_plaintext_spec(#[trigger] decrypted[i]) == Some(
                stored[i],
            ),
{
    assert forall|i: int| 0 <= i < decrypted.len() implies T::from_plaintext_spec(
        #[trigger] decrypted[i],
    ) == Some(stored[i]) by {
        T::lemma_round_trip(stored[i]);
    }
}

/// A whole number and a text survive the way into a plaintext (through `From`)
/// and back unchanged.
pub proof fn lemma_from_matches_stored_plaintext(n: i32, t: String)
    ensures
        <Plaintext as vstd::std_specs::convert::FromSpec<i32>>::from_spec(n)
            == <i32 as FromPlaintext>::plaintext_of(n),
        <Plaintext as vstd::std_specs::convert::FromSpec<String>>::from_spec(t)
            == <String as FromPlaintext>::plaintext_of(t),
{
}

} // verus!
