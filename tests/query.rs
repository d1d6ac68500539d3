use dbbenches::{
    convert_decrypted, ColumnConfig, ColumnType, ConversionError, EncryptedQueryBuilder, EqlOperation,
    Identifier, IndexType, Plaintext, QueryBuildError, WrappedJson,
};

fn builder() -> EncryptedQueryBuilder {
    let config = ColumnConfig::build("value")
        .casts_as(ColumnType::Utf8Str)
        .add_index(IndexType::Unique)
        .add_index(IndexType::Match);
    EncryptedQueryBuilder::new(config, Identifier::new("string_encrypted", "value"))
}

#[test]
fn query_needs_index_and_statement() {
    let b = builder();
    assert!(matches!(b.build_query(Plaintext::from("x".to_string())), Err(QueryBuildError::MissingIndexType)));
    let b = builder().index_type(IndexType::Unique);
    assert!(matches!(b.build_query(Plaintext::from("x".to_string())), Err(QueryBuildError::MissingStatement)));
    let b = builder().statement("SELECT 1");
    assert!(matches!(b.build_query(Plaintext::from("x".to_string())), Err(QueryBuildError::MissingIndexType)));
}

#[test]
fn query_index_must_be_on_the_column() {
    let b = builder().index_type(IndexType::Ore).statement("SELECT value FROM t WHERE value < $1");
    assert!(matches!(b.build_query(Plaintext::Int(1)), Err(QueryBuildError::IndexNotOnColumn)));
}

#[test]
fn query_is_prepared_for_its_index() {
    let b = builder()
        .index_type(IndexType::Unique)
        .statement("SELECT value FROM string_encrypted WHERE value = $1 LIMIT 1");
    let q = match b.build_query(Plaintext::from("Bob Johnson".to_string())) {
        Ok(q) => q,
        Err(e) => panic!("refused: {:?}", e),
    };
    assert!(matches!(q.prepared.operation, EqlOperation::Query(IndexType::Unique)));
    assert!(matches!(&q.prepared.plaintext, Plaintext::Utf8Str(s) if s == "Bob Johnson"));
    assert_eq!(q.statement, "SELECT value FROM string_encrypted WHERE value = $1 LIMIT 1");
    let eq = q.with_ciphertext(serde_json::Value::from("ciphertext"));
    assert_eq!(eq.statement, "SELECT value FROM string_encrypted WHERE value = $1 LIMIT 1");
    assert_eq!(eq.eql, serde_json::Value::from("ciphertext"));
}

#[test]
fn building_twice_prepares_the_same_query() {
    let b = builder().index_type(IndexType::Match).statement("SELECT value FROM t WHERE value LIKE $1");
    let first = b.build_query(Plaintext::from("ann".to_string())).ok().unwrap();
    let second = b.build_query(Plaintext::from("ann".to_string())).ok().unwrap();
    assert_eq!(first.statement, second.statement);
    assert_eq!(first.prepared.operation, second.prepared.operation);
    assert!(matches!((&first.prepared.plaintext, &second.prepared.plaintext),
        (Plaintext::Utf8Str(a), Plaintext::Utf8Str(b)) if a == b));
}

#[test]
fn decrypted_values_convert_all_or_nothing() {
    let ok: Result<Vec<i32>, ConversionError> =
        convert_decrypted(vec![Plaintext::Int(3), Plaintext::Int(-1)]);
    assert_eq!(ok.unwrap(), vec![3, -1]);
    let bad: Result<Vec<i32>, ConversionError> = convert_decrypted(vec![
        Plaintext::Int(3),
        Plaintext::Utf8Str("x".to_string()),
        Plaintext::Utf8Str("y".to_string()),
    ]);
    assert_eq!(bad.unwrap_err(), ConversionError { index: 1 });
    let texts: Result<Vec<String>, ConversionError> =
        convert_decrypted(vec![Plaintext::Utf8Str("a".to_string())]);
    assert_eq!(texts.unwrap(), vec!["a".to_string()]);
    let json: Result<Vec<String>, ConversionError> =
        convert_decrypted(vec![Plaintext::from(WrappedJson(serde_json::Value::Bool(true)))]);
    assert_eq!(json.unwrap_err(), ConversionError { index: 0 });
    let none: Result<Vec<i32>, ConversionError> = convert_decrypted(vec![]);
    assert!(none.unwrap().is_empty());
}

#[test]
fn round_trip_through_plaintext() {
    let n: Result<Vec<i32>, ConversionError> = convert_decrypted(vec![Plaintext::from(77)]);
    assert_eq!(n.unwrap(), vec![77]);
    let s: Result<Vec<String>, ConversionError> = convert_decrypted(vec![Plaintext::from("Ann".to_string())]);
    assert_eq!(s.unwrap(), vec!["Ann".to_string()]);
}
