//! Format-level rules: CSV header legality, Avro seeds, protobuf
//! descriptor handling, and registry fetch interpretation.

use purifier::ast::{
    AvroSchema, CreateSourceConnection, CreateSourceFormat, CreateSourceStatement,
    CsrConnectionAvro, CsrConnectionRef, CsrSeedAvro, CsvColumns, DbzMode, Envelope, Format,
    KafkaConnectionRef,
};
use purifier::csr::{
    build_avro_seed, key_subject, proto_seed_from_compile, schema_from_id_fetch,
    schema_from_subject_fetch, value_subject, CompiledDescriptors, GetByIdError,
    GetBySubjectError, GetSchemaError, SchemaFetchOutcome,
};
use purifier::errors::{ErrorKind, PurifyError};
use purifier::purify::validate_csv_columns;

#[test]
fn csv_header_requires_object_store() {
    let cols = CsvColumns::Header { names: vec!["a".to_string()] };
    let kafka = CreateSourceConnection::Kafka {
        connection: KafkaConnectionRef::Inline { broker: "h".to_string() },
        topic: "t".to_string(),
    };
    assert_eq!(
        validate_csv_columns(&cols, &kafka),
        Err(PurifyError::CsvHeaderUnsupported)
    );
}

#[test]
fn csv_header_requires_names_on_object_store() {
    let cols = CsvColumns::Header { names: vec![] };
    assert_eq!(
        validate_csv_columns(&cols, &CreateSourceConnection::ObjectStore),
        Err(PurifyError::CsvHeaderColumnsRequired)
    );
}

#[test]
fn csv_header_with_names_on_object_store_passes() {
    let cols = CsvColumns::Header { names: vec!["a".to_string(), "b".to_string()] };
    assert_eq!(validate_csv_columns(&cols, &CreateSourceConnection::ObjectStore), Ok(()));
    // The columns themselves are untouched by validation.
    match cols {
        CsvColumns::Header { names } => {
            assert_eq!(names, vec!["a".to_string(), "b".to_string()])
        }
        _ => unreachable!(),
    }
}

#[test]
fn csv_count_needs_nothing() {
    let cols = CsvColumns::Count(3);
    let kafka = CreateSourceConnection::Kafka {
        connection: KafkaConnectionRef::Inline { broker: "h".to_string() },
        topic: "t".to_string(),
    };
    assert_eq!(validate_csv_columns(&cols, &kafka), Ok(()));
}

#[test]
fn avro_seed_requires_key_schema_for_upsert() {
    let upsert = Some(Envelope::Debezium(DbzMode::Upsert));
    assert_eq!(
        build_avro_seed(&upsert, None, "v".to_string()),
        Err(PurifyError::KeySchemaRequired)
    );
    assert_eq!(
        build_avro_seed(&upsert, Some("k".to_string()), "v".to_string()),
        Ok(CsrSeedAvro { key_schema: Some("k".to_string()), value_schema: "v".to_string() })
    );
}

#[test]
fn avro_seed_without_upsert_tolerates_missing_key() {
    assert_eq!(
        build_avro_seed(&None, None, "v".to_string()),
        Ok(CsrSeedAvro { key_schema: None, value_schema: "v".to_string() })
    );
    let dbz_plain = Some(Envelope::Debezium(DbzMode::Plain));
    assert_eq!(
        build_avro_seed(&dbz_plain, None, "v".to_string()),
        Ok(CsrSeedAvro { key_schema: None, value_schema: "v".to_string() })
    );
}

#[test]
fn proto_single_message_succeeds() {
    let d = CompiledDescriptors {
        serialized: vec![0x0a, 0x02],
        message_count: 1,
        first_message_name: "Order".to_string(),
    };
    let seed = proto_seed_from_compile(d).unwrap();
    assert_eq!(seed.message_name, "Order");
    assert_eq!(seed.schema, "\\x0a02");
}

#[test]
fn proto_zero_messages_is_unsupported() {
    let d = CompiledDescriptors {
        serialized: vec![],
        message_count: 0,
        first_message_name: String::new(),
    };
    match proto_seed_from_compile(d) {
        Err(e @ PurifyError::Unsupported { .. }) => {
            assert_eq!(e.kind(), ErrorKind::Unsupported);
            match e {
                PurifyError::Unsupported { tracking, .. } => assert_eq!(tracking, 9598),
                _ => unreachable!(),
            }
        }
        other => panic!("expected an unsupported-feature error, got {:?}", other),
    }
}

#[test]
fn proto_multiple_messages_is_unsupported() {
    let d = CompiledDescriptors {
        serialized: vec![1, 2, 3],
        message_count: 2,
        first_message_name: "A".to_string(),
    };
    match proto_seed_from_compile(d) {
        Err(PurifyError::Unsupported { tracking, .. }) => assert_eq!(tracking, 9598),
        other => panic!("expected an unsupported-feature error, got {:?}", other),
    }
}

#[test]
fn subjects_derive_from_topic() {
    assert_eq!(value_subject("orders"), "orders-value");
    assert_eq!(key_subject("orders"), "orders-key");
}

#[test]
fn fetch_outcomes_interpreted() {
    assert_eq!(
        schema_from_subject_fetch(SchemaFetchOutcome::Found { raw: "s".to_string() }),
        Ok(Some("s".to_string()))
    );
    assert_eq!(schema_from_subject_fetch(SchemaFetchOutcome::NotFound), Ok(None));
    assert_eq!(
        schema_from_subject_fetch(SchemaFetchOutcome::Failed { message: "x".to_string() }),
        Err(GetSchemaError::Subject(GetBySubjectError::Other { message: "x".to_string() }))
    );
    assert_eq!(
        schema_from_id_fetch(SchemaFetchOutcome::Failed { message: "y".to_string() }),
        Err(GetSchemaError::Id(GetByIdError::Other { message: "y".to_string() }))
    );
}

#[test]
fn get_schema_error_wraps_both_sides() {
    let s: GetSchemaError = GetBySubjectError::SubjectNotFound.into();
    assert_eq!(s, GetSchemaError::Subject(GetBySubjectError::SubjectNotFound));
    let i: GetSchemaError = GetByIdError::SchemaNotFound.into();
    assert_eq!(i, GetSchemaError::Id(GetByIdError::SchemaNotFound));
}

#[test]
fn error_kinds_are_grouped() {
    assert_eq!(PurifyError::CsvHeaderUnsupported.kind(), ErrorKind::Validation);
    assert_eq!(
        PurifyError::Connectivity { system: "kafka".to_string(), message: "m".to_string() }
            .kind(),
        ErrorKind::Connectivity
    );
    assert_eq!(PurifyError::MissingValueSchema.kind(), ErrorKind::NotFound);
    assert_eq!(PurifyError::KeySchemaRequired.kind(), ErrorKind::InvariantViolation);
    assert_eq!(PurifyError::UnexpectedEvent.kind(), ErrorKind::InvariantViolation);
}
