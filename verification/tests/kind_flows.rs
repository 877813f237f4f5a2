//! Purification flows of the remaining source kinds and format paths.

use purifier::ast::{
    AvroSchema, CreateSourceConnection, CreateSourceFormat, CreateSourceStatement,
    CsrConnectionAvro, CsrConnectionProtobuf, CsrConnectionRef, Format, KafkaConnectionRef,
    ProtobufSchema, ReaderSchemaSelectionStrategy, SchemaSource,
};
use purifier::catalog::{CatalogItem, CatalogSnapshot};
use purifier::connections::{
    Connection, ConnectionContext, PostgresConnection, TlsMode,
};
use purifier::csr::CompiledDescriptors;
use purifier::errors::PurifyError;
use purifier::options::{GlobalId, StringOrSecret};
use purifier::purify::{purify_create_source, Action, Event, ProtoSubject, Step};
use purifier::replication::{PgColumn, PgTable};

fn request(step: Step) -> (purifier::purify::Purifier, Action) {
    match step {
        Step::Request(p, a) => (p, a),
        other => panic!("expected a request, got {:?}", other),
    }
}

#[test]
fn protobuf_end_to_end_with_best_effort_key() {
    let stmt = CreateSourceStatement {
        connection: CreateSourceConnection::Kafka {
            connection: KafkaConnectionRef::Inline { broker: "localhost".to_string() },
            topic: "t".to_string(),
        },
        format: CreateSourceFormat::Bare(Format::Protobuf(ProtobufSchema::Csr {
            csr_connection: CsrConnectionProtobuf {
                connection: CsrConnectionRef::Inline { url: "http://reg:8081".to_string() },
                seed: None,
                with_options: vec![],
            },
        })),
        envelope: None,
        with_options: vec![],
    };
    let step = purify_create_source(CatalogSnapshot::new(), 7, stmt, ConnectionContext::for_tests());
    let (p, _) = request(step);
    let (p, _) = request(p.step(Event::ConsumerReady(Ok(()))));
    let (p, action) = request(p.step(Event::CsrClientReady(Ok(()))));
    assert_eq!(
        action,
        Action::FetchSubjectAndReferences { subject: "t-value".to_string() }
    );
    let subjects = vec![
        ProtoSubject { name: "t-value.proto".to_string(), schema: "message A {}".to_string() },
    ];
    let (p, action) = request(p.step(Event::SubjectsFetched(Ok(subjects))));
    match &action {
        Action::CompileDescriptors { files, primary } => {
            assert_eq!(primary, "t-value.proto");
            assert_eq!(files.len(), 1);
            assert_eq!(files[0].name, "t-value.proto");
            assert_eq!(files[0].content, "message A {}");
        }
        other => panic!("expected a compile request, got {:?}", other),
    }
    let compiled = CompiledDescriptors {
        serialized: vec![0xab],
        message_count: 1,
        first_message_name: "A".to_string(),
    };
    let (p, action) = request(p.step(Event::Compiled(Ok(compiled))));
    assert_eq!(
        action,
        Action::FetchSubjectAndReferences { subject: "t-key".to_string() }
    );
    // The key side tolerates any failure.
    let done = match p.step(Event::SubjectsFetched(Err("no such subject".to_string()))) {
        Step::Done(d) => d,
        other => panic!("expected the purified statement, got {:?}", other),
    };
    match &done.format {
        CreateSourceFormat::Bare(Format::Protobuf(ProtobufSchema::Csr { csr_connection })) => {
            let seed = csr_connection.seed.as_ref().unwrap();
            assert_eq!(seed.value.message_name, "A");
            assert_eq!(seed.value.schema, "\\xab");
            assert!(seed.key.is_none());
        }
        other => panic!("unexpected format {:?}", other),
    }
}

#[test]
fn protobuf_multi_message_value_fails_as_unsupported() {
    let stmt = CreateSourceStatement {
        connection: CreateSourceConnection::Kafka {
            connection: KafkaConnectionRef::Inline { broker: "localhost".to_string() },
            topic: "t".to_string(),
        },
        format: CreateSourceFormat::Bare(Format::Protobuf(ProtobufSchema::Csr {
            csr_connection: CsrConnectionProtobuf {
                connection: CsrConnectionRef::Inline { url: "http://reg:8081".to_string() },
                seed: None,
                with_options: vec![],
            },
        })),
        envelope: None,
        with_options: vec![],
    };
    let step = purify_create_source(CatalogSnapshot::new(), 7, stmt, ConnectionContext::for_tests());
    let (p, _) = request(step);
    let (p, _) = request(p.step(Event::ConsumerReady(Ok(()))));
    let (p, _) = request(p.step(Event::CsrClientReady(Ok(()))));
    let subjects = vec![ProtoSubject {
        name: "t-value.proto".to_string(),
        schema: "message A {} message B {}".to_string(),
    }];
    let (p, _) = request(p.step(Event::SubjectsFetched(Ok(subjects))));
    let compiled = CompiledDescriptors {
        serialized: vec![1],
        message_count: 2,
        first_message_name: "A".to_string(),
    };
    match p.step(Event::Compiled(Ok(compiled))) {
        Step::Failed(PurifyError::Unsupported { tracking, .. }) => assert_eq!(tracking, 9598),
        other => panic!("expected an unsupported-feature failure, got {:?}", other),
    }
}

#[test]
fn logical_replication_encodes_details() {
    let pg = PostgresConnection {
        host: "db".to_string(),
        port: 5432,
        database: "prod".to_string(),
        user: StringOrSecret::Plain("app".to_string()),
        password: None,
        ssh_tunnel: None,
        tls_mode: TlsMode::Disable,
        tls_root_cert: None,
        tls_identity: None,
    };
    let catalog = CatalogSnapshot {
        items: vec![CatalogItem {
            name: "pgconn".to_string(),
            connection: Connection::Postgres(pg),
        }],
    };
    let stmt = CreateSourceStatement {
        connection: CreateSourceConnection::LogicalReplication {
            connection: "pgconn".to_string(),
            publication: "pub1".to_string(),
            details: None,
        },
        format: CreateSourceFormat::Absent,
        envelope: None,
        with_options: vec![],
    };
    let step = purify_create_source(catalog, 7, stmt, ConnectionContext::for_tests());
    let (p, action) = request(step);
    match &action {
        Action::IntrospectPublication { connection, publication } => {
            assert_eq!(connection.host, "db");
            assert_eq!(publication, "pub1");
        }
        other => panic!("expected an introspection request, got {:?}", other),
    }
    let tables = vec![PgTable {
        namespace: "public".to_string(),
        name: "t".to_string(),
        columns: vec![PgColumn { name: "id".to_string(), type_oid: 23, nullable: false }],
    }];
    let done = match p.step(Event::PublicationInfo(Ok(tables))) {
        Step::Done(d) => d,
        other => panic!("expected the purified statement, got {:?}", other),
    };
    match &done.connection {
        CreateSourceConnection::LogicalReplication { details, .. } => {
            let d = details.as_ref().expect("details must be filled");
            // The slot name is 41 characters, length-prefixed.
            assert!(d.starts_with("41:purifier_"));
            assert!(d.ends_with("1;6:public1:t1;2:id23r"));
        }
        other => panic!("unexpected kind {:?}", other),
    }
}

#[test]
fn unknown_catalog_item_fails_early() {
    let stmt = CreateSourceStatement {
        connection: CreateSourceConnection::LogicalReplication {
            connection: "missing".to_string(),
            publication: "pub1".to_string(),
            details: None,
        },
        format: CreateSourceFormat::Absent,
        envelope: None,
        with_options: vec![],
    };
    match purify_create_source(CatalogSnapshot::new(), 7, stmt, ConnectionContext::for_tests()) {
        Step::Failed(PurifyError::UnknownCatalogItem { name }) => assert_eq!(name, "missing"),
        other => panic!("expected an unknown-item failure, got {:?}", other),
    }
}

#[test]
fn object_store_validates_credentials() {
    let stmt = CreateSourceStatement {
        connection: CreateSourceConnection::ObjectStore,
        format: CreateSourceFormat::Bare(Format::Csv {
            columns: purifier::ast::CsvColumns::Header { names: vec!["a".to_string()] },
        }),
        envelope: None,
        with_options: vec![purifier::options::StmtOption {
            key: "region".to_string(),
            value: purifier::options::OptionValue::Text("us-east-1".to_string()),
        }],
    };
    let step = purify_create_source(CatalogSnapshot::new(), 7, stmt, ConnectionContext::for_tests());
    let (p, action) = request(step);
    match &action {
        Action::ValidateCloudCredentials { config, external_id_prefix } => {
            assert_eq!(config.region, Some("us-east-1".to_string()));
            assert!(external_id_prefix.is_none());
        }
        other => panic!("expected a credential probe, got {:?}", other),
    }
    match p.step(Event::CloudCredentialsValidated(Ok(()))) {
        Step::Done(d) => match &d.format {
            CreateSourceFormat::Bare(Format::Csv { columns }) => match columns {
                purifier::ast::CsvColumns::Header { names } => {
                    assert_eq!(names, &vec!["a".to_string()])
                }
                other => panic!("unexpected columns {:?}", other),
            },
            other => panic!("unexpected format {:?}", other),
        },
        other => panic!("expected the purified statement, got {:?}", other),
    }
}

#[test]
fn cloud_failure_names_the_system() {
    let stmt = CreateSourceStatement {
        connection: CreateSourceConnection::ObjectStore,
        format: CreateSourceFormat::Absent,
        envelope: None,
        with_options: vec![purifier::options::StmtOption {
            key: "region".to_string(),
            value: purifier::options::OptionValue::Text("us-east-1".to_string()),
        }],
    };
    let step = purify_create_source(CatalogSnapshot::new(), 7, stmt, ConnectionContext::for_tests());
    let (p, _) = request(step);
    match p.step(Event::CloudCredentialsValidated(Err("denied".to_string()))) {
        Step::Failed(PurifyError::Connectivity { system, message }) => {
            assert_eq!(system, "aws");
            assert_eq!(message, "denied");
        }
        other => panic!("expected a connectivity failure, got {:?}", other),
    }
}

#[test]
fn stream_shipping_takes_region_from_identifier() {
    let stmt = CreateSourceStatement {
        connection: CreateSourceConnection::StreamShipping {
            arn: "arn:aws:kinesis:eu-central-1:123456789012:stream/events".to_string(),
        },
        format: CreateSourceFormat::Absent,
        envelope: None,
        with_options: vec![],
    };
    let step = purify_create_source(CatalogSnapshot::new(), 7, stmt, ConnectionContext::for_tests());
    let (_, action) = request(step);
    match &action {
        Action::ValidateCloudCredentials { config, .. } => {
            assert_eq!(config.region, Some("eu-central-1".to_string()));
        }
        other => panic!("expected a credential probe, got {:?}", other),
    }
}

#[test]
fn key_value_format_needs_a_broker_source() {
    let stmt = CreateSourceStatement {
        connection: CreateSourceConnection::ObjectStore,
        format: CreateSourceFormat::KeyValue { key: Format::Bytes, value: Format::Text },
        envelope: None,
        with_options: vec![purifier::options::StmtOption {
            key: "region".to_string(),
            value: purifier::options::OptionValue::Text("us-east-1".to_string()),
        }],
    };
    let step = purify_create_source(CatalogSnapshot::new(), 7, stmt, ConnectionContext::for_tests());
    let (p, _) = request(step);
    match p.step(Event::CloudCredentialsValidated(Ok(()))) {
        Step::Failed(e) => assert_eq!(e, PurifyError::KeyValueFormatUnsupported),
        other => panic!("expected the key/value restriction, got {:?}", other),
    }
}

#[test]
fn avro_file_schema_becomes_literal() {
    let stmt = CreateSourceStatement {
        connection: CreateSourceConnection::Other,
        format: CreateSourceFormat::Bare(Format::Avro(AvroSchema::InlineSchema {
            schema: SchemaSource::File("/tmp/schema.avsc".to_string()),
        })),
        envelope: None,
        with_options: vec![],
    };
    let step = purify_create_source(CatalogSnapshot::new(), 7, stmt, ConnectionContext::for_tests());
    let (p, action) = request(step);
    assert_eq!(action, Action::ReadFileText { path: "/tmp/schema.avsc".to_string() });
    let done = match p.step(Event::FileText(Ok("{\"type\":\"int\"}".to_string()))) {
        Step::Done(d) => d,
        other => panic!("expected the purified statement, got {:?}", other),
    };
    assert_eq!(
        done.format,
        CreateSourceFormat::Bare(Format::Avro(AvroSchema::InlineSchema {
            schema: SchemaSource::Inline("{\"type\":\"int\"}".to_string()),
        }))
    );
}

#[test]
fn protobuf_file_schema_becomes_byte_literal() {
    let stmt = CreateSourceStatement {
        connection: CreateSourceConnection::Other,
        format: CreateSourceFormat::Bare(Format::Protobuf(ProtobufSchema::InlineSchema {
            message_name: "A".to_string(),
            schema: SchemaSource::File("/tmp/schema.pb".to_string()),
        })),
        envelope: None,
        with_options: vec![],
    };
    let step = purify_create_source(CatalogSnapshot::new(), 7, stmt, ConnectionContext::for_tests());
    let (p, action) = request(step);
    assert_eq!(action, Action::ReadFileBytes { path: "/tmp/schema.pb".to_string() });
    let done = match p.step(Event::FileBytes(Ok(vec![0x01, 0xfe]))) {
        Step::Done(d) => d,
        other => panic!("expected the purified statement, got {:?}", other),
    };
    assert_eq!(
        done.format,
        CreateSourceFormat::Bare(Format::Protobuf(ProtobufSchema::InlineSchema {
            message_name: "A".to_string(),
            schema: SchemaSource::Inline("\\x01fe".to_string()),
        }))
    );
}

#[test]
fn avro_by_id_strategy_fetches_by_id() {
    let stmt = CreateSourceStatement {
        connection: CreateSourceConnection::Kafka {
            connection: KafkaConnectionRef::Inline { broker: "localhost".to_string() },
            topic: "t".to_string(),
        },
        format: CreateSourceFormat::Bare(Format::Avro(AvroSchema::Csr {
            csr_connection: CsrConnectionAvro {
                connection: CsrConnectionRef::Inline { url: "http://reg:8081".to_string() },
                seed: None,
                key_strategy: Some(ReaderSchemaSelectionStrategy::Inline("k".to_string())),
                value_strategy: Some(ReaderSchemaSelectionStrategy::ById(42)),
                with_options: vec![],
            },
        })),
        envelope: None,
        with_options: vec![],
    };
    let step = purify_create_source(CatalogSnapshot::new(), 7, stmt, ConnectionContext::for_tests());
    let (p, _) = request(step);
    let (p, _) = request(p.step(Event::ConsumerReady(Ok(()))));
    let (p, action) = request(p.step(Event::CsrClientReady(Ok(()))));
    assert_eq!(action, Action::FetchById { id: 42 });
    // The inline key strategy needs no fetch at all.
    let done = match p.step(Event::SchemaFetched(purifier::csr::SchemaFetchOutcome::Found {
        raw: "v".to_string(),
    })) {
        Step::Done(d) => d,
        other => panic!("expected the purified statement, got {:?}", other),
    };
    match &done.format {
        CreateSourceFormat::Bare(Format::Avro(AvroSchema::Csr { csr_connection })) => {
            let seed = csr_connection.seed.as_ref().unwrap();
            assert_eq!(seed.value_schema, "v");
            assert_eq!(seed.key_schema, Some("k".to_string()));
        }
        other => panic!("unexpected format {:?}", other),
    }
}

#[test]
fn missing_value_schema_is_a_hard_error() {
    let stmt = CreateSourceStatement {
        connection: CreateSourceConnection::Kafka {
            connection: KafkaConnectionRef::Inline { broker: "localhost".to_string() },
            topic: "t".to_string(),
        },
        format: CreateSourceFormat::Bare(Format::Avro(AvroSchema::Csr {
            csr_connection: CsrConnectionAvro {
                connection: CsrConnectionRef::Inline { url: "http://reg:8081".to_string() },
                seed: None,
                key_strategy: None,
                value_strategy: None,
                with_options: vec![],
            },
        })),
        envelope: None,
        with_options: vec![],
    };
    let step = purify_create_source(CatalogSnapshot::new(), 7, stmt, ConnectionContext::for_tests());
    let (p, _) = request(step);
    let (p, _) = request(p.step(Event::ConsumerReady(Ok(()))));
    let (p, _) = request(p.step(Event::CsrClientReady(Ok(()))));
    match p.step(Event::SchemaFetched(purifier::csr::SchemaFetchOutcome::NotFound)) {
        Step::Failed(e) => assert_eq!(e, PurifyError::MissingValueSchema),
        other => panic!("expected the missing-value-schema error, got {:?}", other),
    }
}

#[test]
fn duplicate_options_rejected_before_any_call() {
    let stmt = CreateSourceStatement {
        connection: CreateSourceConnection::Other,
        format: CreateSourceFormat::Absent,
        envelope: None,
        with_options: vec![
            purifier::options::StmtOption {
                key: "a".to_string(),
                value: purifier::options::OptionValue::Num(1),
            },
            purifier::options::StmtOption {
                key: "a".to_string(),
                value: purifier::options::OptionValue::Num(2),
            },
        ],
    };
    match purify_create_source(CatalogSnapshot::new(), 7, stmt, ConnectionContext::for_tests()) {
        Step::Failed(PurifyError::DuplicateOption { key }) => assert_eq!(key, "a"),
        other => panic!("expected a duplicate-option failure, got {:?}", other),
    }
}

#[test]
fn kafka_reference_of_wrong_kind_fails_at_entry() {
    let ssh = purifier::connections::SshConnection {
        host: "h".to_string(),
        port: 22,
        user: "u".to_string(),
        public_key: "pk".to_string(),
        private_key: GlobalId::User(1),
    };
    let catalog = CatalogSnapshot {
        items: vec![CatalogItem {
            name: "conn1".to_string(),
            connection: Connection::Ssh(ssh),
        }],
    };
    let stmt = CreateSourceStatement {
        connection: CreateSourceConnection::Kafka {
            connection: KafkaConnectionRef::Reference { name: "conn1".to_string() },
            topic: "t".to_string(),
        },
        format: CreateSourceFormat::Bare(Format::Text),
        envelope: None,
        with_options: vec![],
    };
    match purify_create_source(catalog, 7, stmt, ConnectionContext::for_tests()) {
        Step::Failed(PurifyError::WrongConnectionKind { name, expected }) => {
            assert_eq!(name, "conn1");
            assert_eq!(expected, purifier::errors::ConnectionKind::Kafka);
        }
        other => panic!("expected a kind mismatch, got {:?}", other),
    }
}

#[test]
fn kafka_reference_resolves_from_catalog() {
    let kc = purifier::connections::KafkaConnection {
        brokers: vec!["broker1:9092".to_string()],
        security: None,
    };
    let catalog = CatalogSnapshot {
        items: vec![CatalogItem {
            name: "conn1".to_string(),
            connection: Connection::Kafka(kc),
        }],
    };
    let stmt = CreateSourceStatement {
        connection: CreateSourceConnection::Kafka {
            connection: KafkaConnectionRef::Reference { name: "conn1".to_string() },
            topic: "t".to_string(),
        },
        format: CreateSourceFormat::Bare(Format::Text),
        envelope: None,
        with_options: vec![],
    };
    let step = purify_create_source(catalog, 7, stmt, ConnectionContext::for_tests());
    let (_, action) = request(step);
    match &action {
        Action::CreateConsumer { connection, .. } => {
            assert_eq!(connection.brokers, vec!["broker1:9092".to_string()]);
        }
        other => panic!("expected CreateConsumer, got {:?}", other),
    }
}

#[test]
fn seeded_protobuf_format_issues_no_fetch() {
    let seed = purifier::ast::CsrSeedProtobuf {
        value: purifier::ast::CsrSeedProtobufSchema {
            schema: "\\xab".to_string(),
            message_name: "A".to_string(),
        },
        key: None,
    };
    let stmt = CreateSourceStatement {
        connection: CreateSourceConnection::Kafka {
            connection: KafkaConnectionRef::Inline { broker: "localhost".to_string() },
            topic: "t".to_string(),
        },
        format: CreateSourceFormat::Bare(Format::Protobuf(ProtobufSchema::Csr {
            csr_connection: CsrConnectionProtobuf {
                connection: CsrConnectionRef::Inline { url: "http://reg:8081".to_string() },
                seed: Some(seed),
                with_options: vec![],
            },
        })),
        envelope: None,
        with_options: vec![],
    };
    let step = purify_create_source(CatalogSnapshot::new(), 7, stmt, ConnectionContext::for_tests());
    let (p, _) = request(step);
    match p.step(Event::ConsumerReady(Ok(()))) {
        Step::Done(d) => match &d.format {
            CreateSourceFormat::Bare(Format::Protobuf(ProtobufSchema::Csr { csr_connection })) => {
                let s = csr_connection.seed.as_ref().unwrap();
                assert_eq!(s.value.message_name, "A");
                assert!(s.key.is_none());
            }
            other => panic!("unexpected format {:?}", other),
        },
        other => panic!("expected an immediate finish, got {:?}", other),
    }
}
