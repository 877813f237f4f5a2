//! End-to-end purification runs, driven by hand-fed events.

use purifier::ast::{
    AvroSchema, CreateSourceConnection, CreateSourceFormat, CreateSourceStatement,
    CsrConnectionAvro, CsrConnectionRef, CsrSeedAvro, CsvColumns, DbzMode, Envelope, Format,
    KafkaConnectionRef,
};
use purifier::catalog::CatalogSnapshot;
use purifier::connections::ConnectionContext;
use purifier::csr::SchemaFetchOutcome;
use purifier::errors::PurifyError;
use purifier::options::{OptionValue, StmtOption};
use purifier::purify::{purify_create_source, Action, Event, Step};

fn kafka_stmt(
    broker: &str,
    topic: &str,
    format: CreateSourceFormat,
    envelope: Option<Envelope>,
    with_options: Vec<StmtOption>,
) -> CreateSourceStatement {
    CreateSourceStatement {
        connection: CreateSourceConnection::Kafka {
            connection: KafkaConnectionRef::Inline { broker: broker.to_string() },
            topic: topic.to_string(),
        },
        format,
        envelope,
        with_options,
    }
}

fn avro_csr_format(url: &str) -> CreateSourceFormat {
    CreateSourceFormat::Bare(Format::Avro(AvroSchema::Csr {
        csr_connection: CsrConnectionAvro {
            connection: CsrConnectionRef::Inline { url: url.to_string() },
            seed: None,
            key_strategy: None,
            value_strategy: None,
            with_options: vec![],
        },
    }))
}

#[test]
fn kafka_avro_end_to_end() {
    let stmt = kafka_stmt(
        "localhost:9092",
        "orders",
        avro_csr_format("http://localhost:8081"),
        None,
        vec![],
    );
    let step = purify_create_source(CatalogSnapshot::new(), 42, stmt, ConnectionContext::for_tests());

    // First: a consumer is built from the inline broker.
    let (p, action) = match step {
        Step::Request(p, a) => (p, a),
        other => panic!("expected a consumer request, got {:?}", other),
    };
    match &action {
        Action::CreateConsumer { connection, options, topic, .. } => {
            assert_eq!(connection.brokers, vec!["localhost:9092".to_string()]);
            assert!(connection.security.is_none());
            assert_eq!(options.len(), 0);
            assert_eq!(topic, "orders");
        }
        other => panic!("expected CreateConsumer, got {:?}", other),
    }

    // Then: a registry client from default options.
    let step = p.step(Event::ConsumerReady(Ok(())));
    let (p, action) = match step {
        Step::Request(p, a) => (p, a),
        other => panic!("expected a registry request, got {:?}", other),
    };
    match &action {
        Action::ConnectCsr { connection } => {
            assert_eq!(connection.url, "http://localhost:8081/");
            assert!(connection.tls_root_cert.is_none());
            assert!(connection.tls_identity.is_none());
            assert!(connection.http_auth.is_none());
        }
        other => panic!("expected ConnectCsr, got {:?}", other),
    }

    // The value schema is fetched by subject with the latest strategy.
    let step = p.step(Event::CsrClientReady(Ok(())));
    let (p, action) = match step {
        Step::Request(p, a) => (p, a),
        other => panic!("expected a value fetch, got {:?}", other),
    };
    assert_eq!(
        action,
        Action::FetchSubject { subject: "orders-value".to_string() }
    );

    // The key schema's absence is tolerated.
    let step = p.step(Event::SchemaFetched(SchemaFetchOutcome::Found {
        raw: "{\"type\":\"record\"}".to_string(),
    }));
    let (p, action) = match step {
        Step::Request(p, a) => (p, a),
        other => panic!("expected a key fetch, got {:?}", other),
    };
    assert_eq!(action, Action::FetchSubject { subject: "orders-key".to_string() });

    let step = p.step(Event::SchemaFetched(SchemaFetchOutcome::NotFound));
    let done = match step {
        Step::Done(d) => d,
        other => panic!("expected the purified statement, got {:?}", other),
    };
    match &done.connection {
        CreateSourceConnection::Kafka { topic, .. } => assert_eq!(topic, "orders"),
        other => panic!("unexpected kind {:?}", other),
    }
    match &done.format {
        CreateSourceFormat::Bare(Format::Avro(AvroSchema::Csr { csr_connection })) => {
            assert_eq!(
                csr_connection.seed,
                Some(CsrSeedAvro {
                    key_schema: None,
                    value_schema: "{\"type\":\"record\"}".to_string(),
                })
            );
        }
        other => panic!("unexpected format {:?}", other),
    }
}

#[test]
fn kafka_avro_upsert_without_key_schema_fails() {
    let stmt = kafka_stmt(
        "localhost:9092",
        "orders",
        avro_csr_format("http://localhost:8081"),
        Some(Envelope::Debezium(DbzMode::Upsert)),
        vec![],
    );
    let step = purify_create_source(CatalogSnapshot::new(), 42, stmt, ConnectionContext::for_tests());
    let (p, _) = match step {
        Step::Request(p, a) => (p, a),
        other => panic!("expected a request, got {:?}", other),
    };
    let (p, _) = match p.step(Event::ConsumerReady(Ok(()))) {
        Step::Request(p, a) => (p, a),
        other => panic!("expected a request, got {:?}", other),
    };
    let (p, _) = match p.step(Event::CsrClientReady(Ok(()))) {
        Step::Request(p, a) => (p, a),
        other => panic!("expected a request, got {:?}", other),
    };
    let (p, _) = match p.step(Event::SchemaFetched(SchemaFetchOutcome::Found {
        raw: "v".to_string(),
    })) {
        Step::Request(p, a) => (p, a),
        other => panic!("expected a request, got {:?}", other),
    };
    match p.step(Event::SchemaFetched(SchemaFetchOutcome::NotFound)) {
        Step::Failed(e) => assert_eq!(e, PurifyError::KeySchemaRequired),
        other => panic!("expected the key-schema error, got {:?}", other),
    }
}

#[test]
fn seeded_registry_format_issues_no_fetch() {
    // A declaration whose seed is already present: after the consumer
    // step, resolution ends immediately, with the statement unchanged.
    let format = CreateSourceFormat::Bare(Format::Avro(AvroSchema::Csr {
        csr_connection: CsrConnectionAvro {
            connection: CsrConnectionRef::Inline { url: "http://localhost:8081".to_string() },
            seed: Some(CsrSeedAvro {
                key_schema: Some("k".to_string()),
                value_schema: "v".to_string(),
            }),
            key_strategy: None,
            value_strategy: None,
            with_options: vec![],
        },
    }));
    let stmt = kafka_stmt("localhost:9092", "orders", format, None, vec![]);
    let expected = kafka_stmt(
        "localhost:9092",
        "orders",
        CreateSourceFormat::Bare(Format::Avro(AvroSchema::Csr {
            csr_connection: CsrConnectionAvro {
                connection: CsrConnectionRef::Inline {
                    url: "http://localhost:8081".to_string(),
                },
                seed: Some(CsrSeedAvro {
                    key_schema: Some("k".to_string()),
                    value_schema: "v".to_string(),
                }),
                key_strategy: None,
                value_strategy: None,
                with_options: vec![],
            },
        })),
        None,
        vec![],
    );
    let step = purify_create_source(CatalogSnapshot::new(), 42, stmt, ConnectionContext::for_tests());
    let (p, _) = match step {
        Step::Request(p, a) => (p, a),
        other => panic!("expected the consumer request, got {:?}", other),
    };
    match p.step(Event::ConsumerReady(Ok(()))) {
        Step::Done(d) => assert_eq!(d, expected),
        other => panic!("expected an immediate finish, got {:?}", other),
    }
}

#[test]
fn time_offset_translated_to_start_offsets() {
    let with_options = vec![
        StmtOption { key: "topic".to_string(), value: OptionValue::Text("x".to_string()) },
        StmtOption { key: "kafka_time_offset".to_string(), value: OptionValue::Num(-1000) },
        StmtOption { key: "tail".to_string(), value: OptionValue::Num(7) },
    ];
    let stmt = kafka_stmt(
        "localhost:9092",
        "orders",
        CreateSourceFormat::Bare(Format::Text),
        None,
        with_options,
    );
    let step =
        purify_create_source(CatalogSnapshot::new(), 5000, stmt, ConnectionContext::for_tests());
    let (p, _) = match step {
        Step::Request(p, a) => (p, a),
        other => panic!("expected the consumer request, got {:?}", other),
    };
    let (p, action) = match p.step(Event::ConsumerReady(Ok(()))) {
        Step::Request(p, a) => (p, a),
        other => panic!("expected the offset request, got {:?}", other),
    };
    assert_eq!(
        action,
        Action::LookupStartOffsets { topic: "orders".to_string(), time: 4000, now: 5000 }
    );
    // Three partitions with known offsets.
    match p.step(Event::StartOffsets(Ok(vec![11, 22, 33]))) {
        Step::Done(d) => {
            assert_eq!(
                d.with_options,
                vec![
                    StmtOption {
                        key: "topic".to_string(),
                        value: OptionValue::Text("x".to_string()),
                    },
                    StmtOption { key: "tail".to_string(), value: OptionValue::Num(7) },
                    StmtOption {
                        key: "start_offset".to_string(),
                        value: OptionValue::NumArray(vec![11, 22, 33]),
                    },
                ]
            );
        }
        other => panic!("expected the purified statement, got {:?}", other),
    }
}

#[test]
fn unexpected_event_fails_the_run() {
    let stmt = kafka_stmt(
        "localhost:9092",
        "orders",
        CreateSourceFormat::Bare(Format::Text),
        None,
        vec![],
    );
    let step = purify_create_source(CatalogSnapshot::new(), 1, stmt, ConnectionContext::for_tests());
    let (p, _) = match step {
        Step::Request(p, a) => (p, a),
        other => panic!("expected the consumer request, got {:?}", other),
    };
    match p.step(Event::FileText(Ok("nope".to_string()))) {
        Step::Failed(e) => assert_eq!(e, PurifyError::UnexpectedEvent),
        other => panic!("expected a protocol failure, got {:?}", other),
    }
}

#[test]
fn broker_failure_aborts_with_connectivity() {
    let stmt = kafka_stmt(
        "localhost:9092",
        "orders",
        CreateSourceFormat::Bare(Format::Text),
        None,
        vec![],
    );
    let step = purify_create_source(CatalogSnapshot::new(), 1, stmt, ConnectionContext::for_tests());
    let (p, _) = match step {
        Step::Request(p, a) => (p, a),
        other => panic!("expected the consumer request, got {:?}", other),
    };
    match p.step(Event::ConsumerReady(Err("broker down".to_string()))) {
        Step::Failed(PurifyError::Connectivity { system, message }) => {
            assert_eq!(system, "kafka");
            assert_eq!(message, "broker down");
        }
        other => panic!("expected a connectivity failure, got {:?}", other),
    }
}

#[test]
fn other_sources_pass_through() {
    let stmt = CreateSourceStatement {
        connection: CreateSourceConnection::Other,
        format: CreateSourceFormat::Absent,
        envelope: None,
        with_options: vec![],
    };
    let expected = CreateSourceStatement {
        connection: CreateSourceConnection::Other,
        format: CreateSourceFormat::Absent,
        envelope: None,
        with_options: vec![],
    };
    match purify_create_source(CatalogSnapshot::new(), 1, stmt, ConnectionContext::for_tests()) {
        Step::Done(d) => assert_eq!(d, expected),
        other => panic!("expected an immediate finish, got {:?}", other),
    }
}
