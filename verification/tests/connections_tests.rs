//! Connection construction: broker lists, config extraction, catalog
//! resolution, registry connections, and cloud credential derivation.

use purifier::catalog::{CatalogItem, CatalogSnapshot};
use purifier::cloud::{arn_region, aws_config_from_options};
use purifier::connections::{
    ConfigKey, Connection, CsrConnection, KafkaConnection, KafkaConnectionOptionName,
    KafkaSecurity, SaslConfig, SshConnection,
};
use purifier::csr::generate_ccsr_connection;
use purifier::errors::{ConnectionKind, PurifyError};
use purifier::kafka::{extract_config, parse_kafka_addrs, time_offset_request};
use purifier::options::{ConnOptions, GlobalId, OptionValue, StmtOption, StringOrSecret};

fn opt(key: &str, value: OptionValue) -> StmtOption {
    StmtOption { key: key.to_string(), value }
}

#[test]
fn broker_lists_normalize_default_port() {
    let v = parse_kafka_addrs("localhost").unwrap();
    assert_eq!(v, vec!["localhost:9092".to_string()]);
    let v = parse_kafka_addrs("a:1,b,c:65535").unwrap();
    assert_eq!(
        v,
        vec!["a:1".to_string(), "b:9092".to_string(), "c:65535".to_string()]
    );
}

#[test]
fn broker_lists_reject_bad_entries() {
    assert!(matches!(
        parse_kafka_addrs(""),
        Err(PurifyError::InvalidBrokerAddress { .. })
    ));
    assert!(matches!(
        parse_kafka_addrs("host:99999"),
        Err(PurifyError::InvalidBrokerAddress { .. })
    ));
    assert!(matches!(
        parse_kafka_addrs("host:12x"),
        Err(PurifyError::InvalidBrokerAddress { .. })
    ));
    assert!(matches!(
        parse_kafka_addrs(":9092"),
        Err(PurifyError::InvalidBrokerAddress { .. })
    ));
    assert!(matches!(
        parse_kafka_addrs("a,,b"),
        Err(PurifyError::InvalidBrokerAddress { .. })
    ));
}

#[test]
fn extract_config_translates_keys() {
    let options = vec![
        opt("client_id", OptionValue::Text("me".to_string())),
        opt("statistics_interval_ms", OptionValue::Num(12345)),
        opt("unrelated", OptionValue::Text("keep".to_string())),
        opt("sasl_password", OptionValue::Secret(GlobalId::User(7))),
    ];
    let m = extract_config(&options).unwrap();
    assert_eq!(
        m.get("client.id"),
        Some(&StringOrSecret::Plain("me".to_string()))
    );
    assert_eq!(
        m.get("statistics.interval.ms"),
        Some(&StringOrSecret::Plain("12345".to_string()))
    );
    assert_eq!(
        m.get("sasl.password"),
        Some(&StringOrSecret::Secret(GlobalId::User(7)))
    );
    assert_eq!(m.get("unrelated"), None);
    assert_eq!(m.get("client_id"), None);
}

#[test]
fn extract_config_checks_shapes_and_ranges() {
    let bad_type = vec![opt("client_id", OptionValue::Num(3))];
    assert!(matches!(
        extract_config(&bad_type),
        Err(PurifyError::OptionTypeError { .. })
    ));
    let out_of_range = vec![opt("statistics_interval_ms", OptionValue::Num(-1))];
    assert!(matches!(
        extract_config(&out_of_range),
        Err(PurifyError::OptionValueOutOfRange { .. })
    ));
}

#[test]
fn kafka_connection_from_options_sasl() {
    let mut m = ConnOptions::new();
    m.insert(
        "security.protocol".to_string(),
        StringOrSecret::Plain("SASL_SSL".to_string()),
    );
    m.insert(
        "sasl.mechanisms".to_string(),
        StringOrSecret::Plain("PLAIN".to_string()),
    );
    m.insert(
        "sasl.username".to_string(),
        StringOrSecret::Plain("user".to_string()),
    );
    m.insert(
        "sasl.password".to_string(),
        StringOrSecret::Secret(GlobalId::User(3)),
    );
    m.insert(
        "bootstrap.servers".to_string(),
        StringOrSecret::Plain("h1,h2:123".to_string()),
    );
    m.insert("acks".to_string(), StringOrSecret::Plain("all".to_string()));
    let c = KafkaConnection::from_options(&mut m).unwrap();
    assert_eq!(c.brokers, vec!["h1:9092".to_string(), "h2:123".to_string()]);
    match c.security {
        Some(KafkaSecurity::Sasl(SaslConfig { mechanisms, username, password, tls_root_cert })) => {
            assert_eq!(mechanisms, "PLAIN");
            assert_eq!(username, StringOrSecret::Plain("user".to_string()));
            assert_eq!(password, GlobalId::User(3));
            assert_eq!(tls_root_cert, None);
        }
        other => panic!("expected SASL security, got {:?}", other),
    }
    // Consumed keys are gone; unrelated keys stay.
    assert_eq!(m.get("bootstrap.servers"), None);
    assert_eq!(m.get("security.protocol"), None);
    assert_eq!(m.get("acks"), Some(&StringOrSecret::Plain("all".to_string())));
}

#[test]
fn kafka_connection_requires_brokers() {
    let mut m = ConnOptions::new();
    match KafkaConnection::from_options(&mut m) {
        Err(PurifyError::MissingOption { key }) => assert_eq!(key, "bootstrap.servers"),
        other => panic!("expected a missing-option error, got {:?}", other),
    }
}

#[test]
fn kafka_connection_round_trips_through_config() {
    let mut m = ConnOptions::new();
    m.insert(
        "bootstrap.servers".to_string(),
        StringOrSecret::Plain("h1,h2:123".to_string()),
    );
    let c = KafkaConnection::from_options(&mut m).unwrap();
    let out = c.to_options();
    assert_eq!(
        out.get("bootstrap.servers"),
        Some(&StringOrSecret::Plain("h1:9092,h2:123".to_string()))
    );
    assert_eq!(out.get("security.protocol"), None);
}

#[test]
fn config_keys_name_their_options() {
    assert_eq!(KafkaConnectionOptionName::Broker.config_key(), "bootstrap.servers");
    assert_eq!(KafkaConnectionOptionName::Brokers.config_key(), "bootstrap.servers");
    assert_eq!(KafkaConnectionOptionName::SslKey.config_key(), "ssl.key.pem");
    assert_eq!(
        KafkaConnectionOptionName::SslCertificateAuthority.config_key(),
        "ssl.ca.pem"
    );
    assert_eq!(KafkaConnectionOptionName::SaslPassword.config_key(), "sasl.password");
}

#[test]
fn catalog_resolution_checks_kind() {
    let ssh = SshConnection {
        host: "h".to_string(),
        port: 22,
        user: "u".to_string(),
        public_key: "pk".to_string(),
        private_key: GlobalId::User(1),
    };
    let snapshot = CatalogSnapshot {
        items: vec![CatalogItem { name: "conn".to_string(), connection: Connection::Ssh(ssh) }],
    };
    match snapshot.resolve_connection("conn", ConnectionKind::Kafka) {
        Err(PurifyError::WrongConnectionKind { name, expected }) => {
            assert_eq!(name, "conn");
            assert_eq!(expected, ConnectionKind::Kafka);
        }
        other => panic!("expected a kind mismatch, got {:?}", other),
    }
    match snapshot.resolve_connection("absent", ConnectionKind::Kafka) {
        Err(PurifyError::UnknownCatalogItem { name }) => assert_eq!(name, "absent"),
        other => panic!("expected an unknown-item error, got {:?}", other),
    }
    match snapshot.resolve_connection("conn", ConnectionKind::Ssh) {
        Ok(Connection::Ssh(c)) => assert_eq!(c.port, 22),
        other => panic!("expected the connection, got {:?}", other),
    }
}

#[test]
fn ccsr_connection_from_url_and_options() {
    let c = generate_ccsr_connection("http://localhost:8081", &vec![]).unwrap();
    assert_eq!(
        c,
        CsrConnection {
            url: "http://localhost:8081/".to_string(),
            tls_root_cert: None,
            tls_identity: None,
            http_auth: None,
        }
    );
    let opts = vec![
        opt("username", OptionValue::Text("u".to_string())),
        opt("password", OptionValue::Secret(GlobalId::User(9))),
    ];
    let c = generate_ccsr_connection("http://reg:8081", &opts).unwrap();
    let auth = c.http_auth.unwrap();
    assert_eq!(auth.username, StringOrSecret::Plain("u".to_string()));
    assert_eq!(auth.password, Some(GlobalId::User(9)));
}

#[test]
fn ccsr_connection_rejects_bad_input() {
    assert!(matches!(
        generate_ccsr_connection("not a url", &vec![]),
        Err(PurifyError::InvalidUrl { .. })
    ));
    let unknown = vec![opt("nope", OptionValue::Text("x".to_string()))];
    assert!(matches!(
        generate_ccsr_connection("http://reg:8081", &unknown),
        Err(PurifyError::UnknownOption { .. })
    ));
    let half_identity = vec![opt("ssl_key_pem", OptionValue::Secret(GlobalId::User(1)))];
    assert!(matches!(
        generate_ccsr_connection("http://reg:8081", &half_identity),
        Err(PurifyError::MissingOption { .. })
    ));
}

#[test]
fn arn_region_extraction() {
    let r = arn_region("arn:aws:kinesis:us-east-2:123456789012:stream/example").unwrap();
    assert_eq!(r, "us-east-2");
    assert!(matches!(
        arn_region("arn:aws:iam::123456789012:user/Bob"),
        Err(PurifyError::MissingRegion { .. })
    ));
    assert!(matches!(
        arn_region("completely wrong"),
        Err(PurifyError::ArnParseFailed { .. })
    ));
}

#[test]
fn aws_config_needs_region_or_endpoint() {
    assert!(matches!(
        aws_config_from_options(&vec![], None),
        Err(PurifyError::MissingOption { .. })
    ));
    let c = aws_config_from_options(&vec![], Some("eu-west-1".to_string())).unwrap();
    assert_eq!(c.region, Some("eu-west-1".to_string()));
    let opts = vec![
        opt("region", OptionValue::Text("us-east-1".to_string())),
        opt("access_key_id", OptionValue::Text("AKIDEXAMPLE".to_string())),
    ];
    let c = aws_config_from_options(&opts, None).unwrap();
    assert_eq!(c.region, Some("us-east-1".to_string()));
    assert_eq!(
        c.access_key_id,
        Some(StringOrSecret::Plain("AKIDEXAMPLE".to_string()))
    );
}

#[test]
fn time_offset_request_shapes() {
    let none: Vec<StmtOption> = vec![];
    assert_eq!(time_offset_request(&none, 100), Ok(None));
    let abs = vec![opt("kafka_time_offset", OptionValue::Num(500))];
    assert_eq!(time_offset_request(&abs, 100), Ok(Some(500)));
    let rel = vec![opt("kafka_time_offset", OptionValue::Num(-40))];
    assert_eq!(time_offset_request(&rel, 100), Ok(Some(60)));
    let too_far = vec![opt("kafka_time_offset", OptionValue::Num(-200))];
    assert_eq!(time_offset_request(&too_far, 100), Err(PurifyError::TimeOffsetOutOfRange));
    let bad = vec![opt("kafka_time_offset", OptionValue::Text("soon".to_string()))];
    assert!(matches!(
        time_offset_request(&bad, 100),
        Err(PurifyError::OptionTypeError { .. })
    ));
}
