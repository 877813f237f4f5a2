//! Connection values: the concrete, typed form that a resolved connection
//! reference takes. Credentials stay handles ([`crate::options::StringOrSecret`],
//! secret ids); nothing here decrypts or connects.

use vstd::prelude::*;

use crate::errors::PurifyError;
use crate::kafka::brokers_of;
use crate::kafka::parse_kafka_addrs;
use crate::options::ConnOptions;
use crate::options::GlobalId;
use crate::options::StringOrSecret;
use crate::options::StringOrSecretView;
use crate::strutil::ascii_lower_char;
use crate::strutil::join_commas;
use crate::strutil::join_with_commas;
use crate::strutil::str_eq_ignore_ascii_case;

verus! {

/// The log level handed to the broker client library.
#[derive(Clone, Copy, Debug, PartialEq, Eq, Structural)]
pub enum LogLevel {
    Error,
    Warn,
    Info,
    Debug,
    Trace,
}

/// Extra context passed through when purifying a declaration: how noisily
/// the broker client may log, and the operator-provided prefix for cloud
/// external ids. Secret decryption stays with the driver.
#[derive(Clone, Debug, PartialEq, Eq)]
pub struct ConnectionContext {
    pub librdkafka_log_level: LogLevel,
    pub aws_external_id_prefix: Option<String>,
}

impl ConnectionContext {
    /// A context for tests: info-level client logs, no external-id prefix.
    pub fn for_tests() -> (r: ConnectionContext)
        ensures
            r.librdkafka_log_level == LogLevel::Info,
            r.aws_external_id_prefix is None,
    {
        ConnectionContext { librdkafka_log_level: LogLevel::Info, aws_external_id_prefix: None }
    }
}

/// A TLS key pair used for client identity: the public certificate and the
/// id of the secret holding the private key.
#[derive(Clone, Debug, PartialEq, Eq)]
pub struct TlsIdentity {
    pub cert: StringOrSecret,
    pub key: GlobalId,
}

/// TLS settings of a broker connection.
#[derive(Clone, Debug, PartialEq, Eq)]
pub struct KafkaTlsConfig {
    pub identity: Option<TlsIdentity>,
    pub root_cert: Option<StringOrSecret>,
}

/// SASL settings of a broker connection.
#[derive(Clone, Debug, PartialEq, Eq)]
pub struct SaslConfig {
    pub mechanisms: String,
    pub username: StringOrSecret,
    pub password: GlobalId,
    pub tls_root_cert: Option<StringOrSecret>,
}

/// How a broker connection authenticates.
#[derive(Clone, Debug, PartialEq, Eq)]
pub enum KafkaSecurity {
    Tls(KafkaTlsConfig),
    Sasl(SaslConfig),
}

impl From<KafkaTlsConfig> for KafkaSecurity {
    fn from(c: KafkaTlsConfig) -> (r: KafkaSecurity) {
        KafkaSecurity::Tls(c)
    }
}

impl vstd::std_specs::convert::FromSpecImpl<KafkaTlsConfig> for KafkaSecurity {
    open spec fn obeys_from_spec() -> bool {
        true
    }

    open spec fn from_spec(c: KafkaTlsConfig) -> KafkaSecurity {
        KafkaSecurity::Tls(c)
    }
}

impl From<SaslConfig> for KafkaSecurity {
    fn from(c: SaslConfig) -> (r: KafkaSecurity) {
        KafkaSecurity::Sasl(c)
    }
}

impl vstd::std_specs::convert::FromSpecImpl<SaslConfig> for KafkaSecurity {
    open spec fn obeys_from_spec() -> bool {
        true
    }

    open spec fn from_spec(c: SaslConfig) -> KafkaSecurity {
        KafkaSecurity::Sasl(c)
    }
}

/// Equivalence between enum-named options and their free-form string
/// counterparts.
pub trait ConfigKey {
    /// The config key, as a specification value.
    spec fn spec_config_key(&self) -> Seq<char>;

    /// The config key this option name stands for.
    fn config_key(&self) -> (r: String)
        ensures
            r@ == self.spec_config_key(),
    ;
}

/// The named options a broker connection understands.
#[derive(Clone, Copy, Debug, PartialEq, Eq, Structural)]
pub enum KafkaConnectionOptionName {
    Broker,
    Brokers,
    SslKey,
    SslCertificate,
    SslCertificateAuthority,
    SaslMechanisms,
    SaslUsername,
    SaslPassword,
}

impl ConfigKey for KafkaConnectionOptionName {
    open spec fn spec_config_key(&self) -> Seq<char> {
        match self {
            KafkaConnectionOptionName::Broker => "bootstrap.servers"@,
            KafkaConnectionOptionName::Brokers => "bootstrap.servers"@,
            KafkaConnectionOptionName::SslKey => "ssl.key.pem"@,
            KafkaConnectionOptionName::SslCertificate => "ssl.certificate.pem"@,
            KafkaConnectionOptionName::SslCertificateAuthority => "ssl.ca.pem"@,
            KafkaConnectionOptionName::SaslMechanisms => "sasl.mechanisms"@,
            KafkaConnectionOptionName::SaslUsername => "sasl.username"@,
            KafkaConnectionOptionName::SaslPassword => "sasl.password"@,
        }
    }

    fn config_key(&self) -> (r: String) {
        match self {
            KafkaConnectionOptionName::Broker => "bootstrap.servers".to_owned(),
            KafkaConnectionOptionName::Brokers => "bootstrap.servers".to_owned(),
            KafkaConnectionOptionName::SslKey => "ssl.key.pem".to_owned(),
            KafkaConnectionOptionName::SslCertificate => "ssl.certificate.pem".to_owned(),
            KafkaConnectionOptionName::SslCertificateAuthority => "ssl.ca.pem".to_owned(),
            KafkaConnectionOptionName::SaslMechanisms => "sasl.mechanisms".to_owned(),
            KafkaConnectionOptionName::SaslUsername => "sasl.username".to_owned(),
            KafkaConnectionOptionName::SaslPassword => "sasl.password".to_owned(),
        }
    }
}

/// The broker config keys are pairwise distinct.
pub proof fn lemma_kafka_keys_distinct()
    ensures
        "bootstrap.servers"@ != "security.protocol"@,
        "bootstrap.servers"@ != "ssl.key.pem"@,
        "bootstrap.servers"@ != "ssl.certificate.pem"@,
        "bootstrap.servers"@ != "ssl.ca.pem"@,
        "bootstrap.servers"@ != "sasl.mechanisms"@,
        "bootstrap.servers"@ != "sasl.username"@,
        "bootstrap.servers"@ != "sasl.password"@,
        "security.protocol"@ != "ssl.key.pem"@,
        "security.protocol"@ != "ssl.certificate.pem"@,
        "security.protocol"@ != "ssl.ca.pem"@,
        "security.protocol"@ != "sasl.mechanisms"@,
        "security.protocol"@ != "sasl.username"@,
        "security.protocol"@ != "sasl.password"@,
        "ssl.key.pem"@ != "ssl.certificate.pem"@,
        "ssl.key.pem"@ != "ssl.ca.pem"@,
        "ssl.key.pem"@ != "sasl.mechanisms"@,
        "ssl.key.pem"@ != "sasl.username"@,
        "ssl.key.pem"@ != "sasl.password"@,
        "ssl.certificate.pem"@ != "ssl.ca.pem"@,
        "ssl.certificate.pem"@ != "sasl.mechanisms"@,
        "ssl.certificate.pem"@ != "sasl.username"@,
        "ssl.certificate.pem"@ != "sasl.password"@,
        "ssl.ca.pem"@ != "sasl.mechanisms"@,
        "ssl.ca.pem"@ != "sasl.username"@,
        "ssl.ca.pem"@ != "sasl.password"@,
        "sasl.mechanisms"@ != "sasl.username"@,
        "sasl.mechanisms"@ != "sasl.password"@,
        "sasl.username"@ != "sasl.password"@,
{
    reveal_strlit("bootstrap.servers");
    reveal_strlit("security.protocol");
    reveal_strlit("ssl.key.pem");
    reveal_strlit("ssl.certificate.pem");
    reveal_strlit("ssl.ca.pem");
    reveal_strlit("sasl.mechanisms");
    reveal_strlit("sasl.username");
    reveal_strlit("sasl.password");
    assert("bootstrap.servers"@.len() == 17);
    assert("security.protocol"@.len() == 17);
    assert("ssl.key.pem"@.len() == 11);
    assert("ssl.certificate.pem"@.len() == 19);
    assert("ssl.ca.pem"@.len() == 10);
    assert("sasl.mechanisms"@.len() == 15);
    assert("sasl.username"@.len() == 13);
    assert("sasl.password"@.len() == 13);
    assert("bootstrap.servers"@[0] == 'b');
    assert("security.protocol"@[0] == 's');
    assert("sasl.username"@[5] == 'u');
    assert("sasl.password"@[5] == 'p');
}

/// A resolved broker connection.
#[derive(Clone, Debug, PartialEq, Eq)]
pub struct KafkaConnection {
    pub brokers: Vec<String>,
    pub security: Option<KafkaSecurity>,
}

/// ASCII case-insensitive equality of character sequences.
pub open spec fn ci_eq(a: Seq<char>, b: Seq<char>) -> bool {
    a.map_values(|c: char| ascii_lower_char(c)) == b.map_values(|c: char| ascii_lower_char(c))
}

/// What a TLS security value says about the config entries it was read
/// from; `f` gives the entry under each key.
pub open spec fn tls_from_entries(
    t: KafkaTlsConfig,
    f: spec_fn(Seq<char>) -> Option<StringOrSecretView>,
) -> bool {
    &&& match t.identity {
        Some(id) => f("ssl.key.pem"@) == Some(StringOrSecretView::Secret(id.key)) && f(
            "ssl.certificate.pem"@,
        ) == Some(id.cert@),
        None => false,
    }
    &&& match t.root_cert {
        Some(rc) => f("ssl.ca.pem"@) == Some(rc@),
        None => f("ssl.ca.pem"@) is None,
    }
}

/// What a SASL security value says about the config entries it was read
/// from.
pub open spec fn sasl_from_entries(
    sc: SaslConfig,
    f: spec_fn(Seq<char>) -> Option<StringOrSecretView>,
) -> bool {
    &&& f("sasl.mechanisms"@) == Some(StringOrSecretView::Plain(sc.mechanisms@))
    &&& f("sasl.username"@) == Some(sc.username@)
    &&& f("sasl.password"@) == Some(StringOrSecretView::Secret(sc.password))
    &&& match sc.tls_root_cert {
        Some(rc) => f("ssl.ca.pem"@) == Some(rc@),
        None => f("ssl.ca.pem"@) is None,
    }
}

/// How the constructed security relates to the entries it was read from:
/// none without a protocol entry, TLS for `ssl`, SASL otherwise.
pub open spec fn kafka_security_from_entries(
    sec: Option<KafkaSecurity>,
    f: spec_fn(Seq<char>) -> Option<StringOrSecretView>,
) -> bool {
    match f("security.protocol"@) {
        None => sec is None,
        Some(StringOrSecretView::Plain(p)) => {
            &&& (ci_eq(p, "ssl"@) ==> (sec matches Some(KafkaSecurity::Tls(t)) && tls_from_entries(
                t,
                f,
            )))
            &&& (!ci_eq(p, "ssl"@) ==> (sec matches Some(KafkaSecurity::Sasl(sc))
                && sasl_from_entries(sc, f)))
        },
        Some(StringOrSecretView::Secret(_)) => false,
    }
}

/// When config entries carry a well-formed security configuration.
pub open spec fn kafka_security_entries_ok(
    f: spec_fn(Seq<char>) -> Option<StringOrSecretView>,
) -> bool {
    match f("security.protocol"@) {
        None => true,
        Some(StringOrSecretView::Plain(p)) => {
            ||| (ci_eq(p, "ssl"@) && (f("ssl.key.pem"@) matches Some(
                StringOrSecretView::Secret(_),
            )) && f("ssl.certificate.pem"@) is Some)
            ||| (!ci_eq(p, "ssl"@) && ci_eq(p, "sasl_ssl"@) && (f("sasl.mechanisms"@) matches Some(
                StringOrSecretView::Plain(_),
            )) && f("sasl.username"@) is Some && (f("sasl.password"@) matches Some(
                StringOrSecretView::Secret(_),
            )))
        },
        Some(StringOrSecretView::Secret(_)) => false,
    }
}

/// When config entries carry a well-formed broker list.
pub open spec fn kafka_bootstrap_entries_ok(
    f: spec_fn(Seq<char>) -> Option<StringOrSecretView>,
) -> bool {
    match f("bootstrap.servers"@) {
        Some(StringOrSecretView::Plain(b)) => brokers_of(b) is Some,
        _ => false,
    }
}

/// When an option map carries a well-formed security configuration.
pub open spec fn kafka_security_input_ok(m: ConnOptions) -> bool {
    kafka_security_entries_ok(|k: Seq<char>| m.spec_get(k))
}

/// When an option map carries a well-formed broker list.
pub open spec fn kafka_bootstrap_ok(m: ConnOptions) -> bool {
    kafka_bootstrap_entries_ok(|k: Seq<char>| m.spec_get(k))
}

/// Which keys constructing this connection consumes from the option map.
pub open spec fn kafka_consumed_key(c: KafkaConnection, k: Seq<char>) -> bool {
    ||| k == "bootstrap.servers"@
    ||| (c.security is Some && k == "security.protocol"@)
    ||| (c.security matches Some(KafkaSecurity::Tls(_)) && (k == "ssl.key.pem"@ || k
        == "ssl.certificate.pem"@ || k == "ssl.ca.pem"@))
    ||| (c.security matches Some(KafkaSecurity::Sasl(_)) && (k == "sasl.mechanisms"@ || k
        == "sasl.username"@ || k == "sasl.password"@ || k == "ssl.ca.pem"@))
}

impl KafkaConnection {
    /// Extracts the options a broker connection needs from a config map,
    /// consuming them and leaving the rest for the client configuration.
    ///
    /// Succeeds exactly when the map holds a parseable broker list and, if
    /// a security protocol is named, the entries that protocol requires
    /// with the right shapes.
    pub fn from_options(opts: &mut ConnOptions) -> (r: Result<KafkaConnection, PurifyError>)
        requires
            old(opts).wf(),
        ensures
            final(opts).wf(),
            r is Ok <==> (kafka_security_input_ok(*old(opts)) && kafka_bootstrap_ok(*old(opts))),
            match r {
                Ok(c) => {
                    &&& match old(opts).spec_get("bootstrap.servers"@) {
                        Some(StringOrSecretView::Plain(b)) => brokers_of(b) == Some(
                            c.brokers@.map_values(|s: String| s@),
                        ),
                        _ => false,
                    }
                    &&& kafka_security_from_entries(
                        c.security,
                        |k: Seq<char>| old(opts).spec_get(k),
                    )
                    &&& forall|k: Seq<char>|
                        !kafka_consumed_key(c, k) ==> final(opts).spec_get(k) == old(
                            opts,
                        ).spec_get(k)
                    &&& forall|k: Seq<char>|
                        kafka_consumed_key(c, k) ==> final(opts).spec_get(k) is None
                },
                Err(e) => {
                    &&& (e matches PurifyError::MissingOption { key } ==> old(opts).spec_get(key@)
                        is None && (key@ == "bootstrap.servers"@ || ((match old(opts).spec_get(
                        "security.protocol"@,
                    ) {
                        Some(StringOrSecretView::Plain(p)) => ci_eq(p, "ssl"@),
                        _ => false,
                    }) && (key@ == "ssl.key.pem"@ || key@ == "ssl.certificate.pem"@)) || ((match old(
                        opts,
                    ).spec_get("security.protocol"@) {
                        Some(StringOrSecretView::Plain(p)) => !ci_eq(p, "ssl"@) && ci_eq(
                            p,
                            "sasl_ssl"@,
                        ),
                        _ => false,
                    }) && (key@ == "sasl.mechanisms"@ || key@ == "sasl.username"@ || key@
                        == "sasl.password"@))))
                    &&& (e matches PurifyError::OptionTypeError { key } ==> old(opts).spec_get(
                        key@,
                    ) is Some)
                    &&& (e matches PurifyError::UnsupportedSecurityProtocol { protocol } ==> old(
                        opts,
                    ).spec_get("security.protocol"@) == Some(
                        StringOrSecretView::Plain(protocol@),
                    ) && !ci_eq(protocol@, "ssl"@) && !ci_eq(protocol@, "sasl_ssl"@))
                    &&& (e is InvalidBrokerAddress ==> (match old(opts).spec_get(
                        "bootstrap.servers"@,
                    ) {
                        Some(StringOrSecretView::Plain(b)) => brokers_of(b) is None,
                        _ => false,
                    }))
                    &&& (e is MissingOption || e is OptionTypeError
                        || e is UnsupportedSecurityProtocol || e is InvalidBrokerAddress)
                },
            },
    {
        proof {
            lemma_kafka_keys_distinct();
        }
        let security: Option<KafkaSecurity> = match opts.remove("security.protocol") {
            Some(StringOrSecret::Plain(p)) => {
                if str_eq_ignore_ascii_case(p.as_str(), "ssl") {
                    let key = match opts.remove("ssl.key.pem") {
                        Some(StringOrSecret::Secret(id)) => id,
                        Some(StringOrSecret::Plain(_)) => {
                            return Err(PurifyError::OptionTypeError {
                                key: "ssl.key.pem".to_owned(),
                            });
                        },
                        None => {
                            return Err(PurifyError::MissingOption {
                                key: "ssl.key.pem".to_owned(),
                            });
                        },
                    };
                    let cert = match opts.remove("ssl.certificate.pem") {
                        Some(v) => v,
                        None => {
                            return Err(PurifyError::MissingOption {
                                key: "ssl.certificate.pem".to_owned(),
                            });
                        },
                    };
                    let root_cert = opts.remove("ssl.ca.pem");
                    Some(
                        KafkaSecurity::Tls(
                            KafkaTlsConfig {
                                identity: Some(TlsIdentity { cert, key }),
                                root_cert,
                            },
                        ),
                    )
                } else if str_eq_ignore_ascii_case(p.as_str(), "sasl_ssl") {
                    let mechanisms = match opts.remove("sasl.mechanisms") {
                        Some(StringOrSecret::Plain(m)) => m,
                        Some(StringOrSecret::Secret(_)) => {
                            return Err(PurifyError::OptionTypeError {
                                key: "sasl.mechanisms".to_owned(),
                            });
                        },
                        None => {
                            return Err(PurifyError::MissingOption {
                                key: "sasl.mechanisms".to_owned(),
                            });
                        },
                    };
                    let username = match opts.remove("sasl.username") {
                        Some(v) => v,
                        None => {
                            return Err(PurifyError::MissingOption {
                                key: "sasl.username".to_owned(),
                            });
                        },
                    };
                    let password = match opts.remove("sasl.password") {
                        Some(StringOrSecret::Secret(id)) => id,
                        Some(StringOrSecret::Plain(_)) => {
                            return Err(PurifyError::OptionTypeError {
                                key: "sasl.password".to_owned(),
                            });
                        },
                        None => {
                            return Err(PurifyError::MissingOption {
                                key: "sasl.password".to_owned(),
                            });
                        },
                    };
                    let tls_root_cert = opts.remove("ssl.ca.pem");
                    Some(
                        KafkaSecurity::Sasl(
                            SaslConfig { mechanisms, username, password, tls_root_cert },
                        ),
                    )
                } else {
                    return Err(PurifyError::UnsupportedSecurityProtocol { protocol: p });
                }
            },
            Some(StringOrSecret::Secret(_)) => {
                return Err(PurifyError::OptionTypeError {
                    key: "security.protocol".to_owned(),
                });
            },
            None => None,
        };
        let brokers = match opts.remove("bootstrap.servers") {
            Some(StringOrSecret::Plain(b)) => {
                match parse_kafka_addrs(b.as_str()) {
                    Ok(v) => v,
                    Err(e) => {
                        return Err(e);
                    },
                }
            },
            Some(StringOrSecret::Secret(_)) => {
                return Err(PurifyError::OptionTypeError {
                    key: "bootstrap.servers".to_owned(),
                });
            },
            None => {
                return Err(PurifyError::MissingOption {
                    key: "bootstrap.servers".to_owned(),
                });
            },
        };
        Ok(KafkaConnection { brokers, security })
    }

    /// The entry a client-config map built from this connection holds
    /// under each key.
    pub open spec fn spec_config_entry(&self, k: Seq<char>) -> Option<StringOrSecretView> {
        if k == "bootstrap.servers"@ {
            Some(StringOrSecretView::Plain(join_commas(self.brokers@.map_values(|s: String| s@))))
        } else {
            match self.security {
                None => None,
                Some(KafkaSecurity::Tls(t)) => {
                    if k == "security.protocol"@ {
                        Some(StringOrSecretView::Plain("SSL"@))
                    } else if k == "ssl.ca.pem"@ {
                        match t.root_cert {
                            Some(rc) => Some(rc@),
                            None => None,
                        }
                    } else if k == "ssl.key.pem"@ {
                        match t.identity {
                            Some(id) => Some(StringOrSecretView::Secret(id.key)),
                            None => None,
                        }
                    } else if k == "ssl.certificate.pem"@ {
                        match t.identity {
                            Some(id) => Some(id.cert@),
                            None => None,
                        }
                    } else {
                        None
                    }
                },
                Some(KafkaSecurity::Sasl(sc)) => {
                    if k == "security.protocol"@ {
                        Some(StringOrSecretView::Plain("SASL_SSL"@))
                    } else if k == "sasl.mechanisms"@ {
                        Some(StringOrSecretView::Plain(sc.mechanisms@))
                    } else if k == "sasl.username"@ {
                        Some(sc.username@)
                    } else if k == "sasl.password"@ {
                        Some(StringOrSecretView::Secret(sc.password))
                    } else if k == "ssl.ca.pem"@ {
                        match sc.tls_root_cert {
                            Some(rc) => Some(rc@),
                            None => None,
                        }
                    } else {
                        None
                    }
                },
            }
        }
    }

    /// Renders the connection as client-config entries: the joined broker
    /// list and the security options of the configured mode.
    pub fn to_options(&self) -> (r: ConnOptions)
        ensures
            r.wf(),
            forall|k: Seq<char>| #[trigger] r.spec_get(k) == self.spec_config_entry(k),
    {
        let mut r = ConnOptions::new();
        proof {
            lemma_kafka_keys_distinct();
        }
        r.insert("bootstrap.servers".to_owned(), StringOrSecret::Plain(join_with_commas(
            &self.brokers,
        )));
        match &self.security {
            None => {},
            Some(KafkaSecurity::Tls(t)) => {
                r.insert("security.protocol".to_owned(), StringOrSecret::Plain("SSL".to_owned()));
                match &t.root_cert {
                    Some(rc) => {
                        r.insert("ssl.ca.pem".to_owned(), rc.clone_value());
                    },
                    None => {},
                }
                match &t.identity {
                    Some(id) => {
                        r.insert("ssl.key.pem".to_owned(), StringOrSecret::Secret(id.key));
                        r.insert("ssl.certificate.pem".to_owned(), id.cert.clone_value());
                    },
                    None => {},
                }
            },
            Some(KafkaSecurity::Sasl(sc)) => {
                r.insert(
                    "security.protocol".to_owned(),
                    StringOrSecret::Plain("SASL_SSL".to_owned()),
                );
                r.insert(
                    "sasl.mechanisms".to_owned(),
                    StringOrSecret::Plain(sc.mechanisms.clone()),
                );
                r.insert("sasl.username".to_owned(), sc.username.clone_value());
                r.insert("sasl.password".to_owned(), StringOrSecret::Secret(sc.password));
                match &sc.tls_root_cert {
                    Some(rc) => {
                        r.insert("ssl.ca.pem".to_owned(), rc.clone_value());
                    },
                    None => {},
                }
            },
        }
        r
    }
}

/// A connection to a schema registry.
#[derive(Clone, Debug, PartialEq, Eq)]
pub struct CsrConnection {
    /// The URL of the registry, as validated text.
    pub url: String,
    /// Trusted root TLS certificate in PEM format.
    pub tls_root_cert: Option<StringOrSecret>,
    /// An optional TLS client certificate for authentication.
    pub tls_identity: Option<TlsIdentity>,
    /// Optional HTTP authentication credentials.
    pub http_auth: Option<CsrConnectionHttpAuth>,
}

/// HTTP authentication credentials in a [`CsrConnection`].
#[derive(Clone, Debug, PartialEq, Eq)]
pub struct CsrConnectionHttpAuth {
    pub username: StringOrSecret,
    pub password: Option<GlobalId>,
}

/// Whether and how a replication connection uses TLS.
#[derive(Clone, Copy, Debug, PartialEq, Eq, Structural)]
pub enum TlsMode {
    Disable,
    Prefer,
    Require,
}

/// A connection to an upstream relational database.
#[derive(Clone, Debug, PartialEq, Eq)]
pub struct PostgresConnection {
    pub host: String,
    pub port: u16,
    pub database: String,
    pub user: StringOrSecret,
    pub password: Option<GlobalId>,
    pub ssh_tunnel: Option<String>,
    pub tls_mode: TlsMode,
    pub tls_root_cert: Option<StringOrSecret>,
    pub tls_identity: Option<TlsIdentity>,
}

/// A connection to an SSH tunnel.
#[derive(Clone, Debug, PartialEq, Eq)]
pub struct SshConnection {
    pub host: String,
    pub port: i32,
    pub user: String,
    pub public_key: String,
    pub private_key: GlobalId,
}

/// A typed connection value, as stored in the catalog.
#[derive(Clone, Debug, PartialEq, Eq)]
pub enum Connection {
    Kafka(KafkaConnection),
    Csr(CsrConnection),
    Postgres(PostgresConnection),
    Ssh(SshConnection),
}

/// The mathematical value of a [`TlsIdentity`].
pub struct TlsIdentityView {
    pub cert: StringOrSecretView,
    pub key: GlobalId,
}

impl View for TlsIdentity {
    type V = TlsIdentityView;

    open spec fn view(&self) -> TlsIdentityView {
        TlsIdentityView { cert: self.cert@, key: self.key }
    }
}

/// The view of an optional viewable value.
pub open spec fn opt_view<T: View>(o: Option<T>) -> Option<T::V> {
    match o {
        Some(v) => Some(v@),
        None => None,
    }
}

/// The mathematical value of a [`KafkaTlsConfig`].
pub struct KafkaTlsConfigView {
    pub identity: Option<TlsIdentityView>,
    pub root_cert: Option<StringOrSecretView>,
}

impl View for KafkaTlsConfig {
    type V = KafkaTlsConfigView;

    open spec fn view(&self) -> KafkaTlsConfigView {
        KafkaTlsConfigView { identity: opt_view(self.identity), root_cert: opt_view(self.root_cert) }
    }
}

/// The mathematical value of a [`SaslConfig`].
pub struct SaslConfigView {
    pub mechanisms: Seq<char>,
    pub username: StringOrSecretView,
    pub password: GlobalId,
    pub tls_root_cert: Option<StringOrSecretView>,
}

impl View for SaslConfig {
    type V = SaslConfigView;

    open spec fn view(&self) -> SaslConfigView {
        SaslConfigView {
            mechanisms: self.mechanisms@,
            username: self.username@,
            password: self.password,
            tls_root_cert: opt_view(self.tls_root_cert),
        }
    }
}

/// The mathematical value of a [`KafkaSecurity`].
pub enum KafkaSecurityView {
    Tls(KafkaTlsConfigView),
    Sasl(SaslConfigView),
}

impl View for KafkaSecurity {
    type V = KafkaSecurityView;

    open spec fn view(&self) -> KafkaSecurityView {
        match self {
            KafkaSecurity::Tls(t) => KafkaSecurityView::Tls(t@),
            KafkaSecurity::Sasl(s) => KafkaSecurityView::Sasl(s@),
        }
    }
}

/// The mathematical value of a [`KafkaConnection`].
pub struct KafkaConnectionView {
    pub brokers: Seq<Seq<char>>,
    pub security: Option<KafkaSecurityView>,
}

impl View for KafkaConnection {
    type V = KafkaConnectionView;

    open spec fn view(&self) -> KafkaConnectionView {
        KafkaConnectionView {
            brokers: self.brokers@.map_values(|s: String| s@),
            security: opt_view(self.security),
        }
    }
}

/// The mathematical value of a [`CsrConnectionHttpAuth`].
pub struct CsrConnectionHttpAuthView {
    pub username: StringOrSecretView,
    pub password: Option<GlobalId>,
}

impl View for CsrConnectionHttpAuth {
    type V = CsrConnectionHttpAuthView;

    open spec fn view(&self) -> CsrConnectionHttpAuthView {
        CsrConnectionHttpAuthView { username: self.username@, password: self.password }
    }
}

/// The mathematical value of a [`CsrConnection`].
pub struct CsrConnectionView {
    pub url: Seq<char>,
    pub tls_root_cert: Option<StringOrSecretView>,
    pub tls_identity: Option<TlsIdentityView>,
    pub http_auth: Option<CsrConnectionHttpAuthView>,
}

impl View for CsrConnection {
    type V = CsrConnectionView;

    open spec fn view(&self) -> CsrConnectionView {
        CsrConnectionView {
            url: self.url@,
            tls_root_cert: opt_view(self.tls_root_cert),
            tls_identity: opt_view(self.tls_identity),
            http_auth: opt_view(self.http_auth),
        }
    }
}

/// The mathematical value of a [`PostgresConnection`].
pub struct PostgresConnectionView {
    pub host: Seq<char>,
    pub port: u16,
    pub database: Seq<char>,
    pub user: StringOrSecretView,
    pub password: Option<GlobalId>,
    pub ssh_tunnel: Option<Seq<char>>,
    pub tls_mode: TlsMode,
    pub tls_root_cert: Option<StringOrSecretView>,
    pub tls_identity: Option<TlsIdentityView>,
}

impl View for PostgresConnection {
    type V = PostgresConnectionView;

    open spec fn view(&self) -> PostgresConnectionView {
        PostgresConnectionView {
            host: self.host@,
            port: self.port,
            database: self.database@,
            user: self.user@,
            password: self.password,
            ssh_tunnel: match self.ssh_tunnel {
                Some(t) => Some(t@),
                None => None,
            },
            tls_mode: self.tls_mode,
            tls_root_cert: opt_view(self.tls_root_cert),
            tls_identity: opt_view(self.tls_identity),
        }
    }
}

/// The mathematical value of an [`SshConnection`].
pub struct SshConnectionView {
    pub host: Seq<char>,
    pub port: i32,
    pub user: Seq<char>,
    pub public_key: Seq<char>,
    pub private_key: GlobalId,
}

impl View for SshConnection {
    type V = SshConnectionView;

    open spec fn view(&self) -> SshConnectionView {
        SshConnectionView {
            host: self.host@,
            port: self.port,
            user: self.user@,
            public_key: self.public_key@,
            private_key: self.private_key,
        }
    }
}

/// The mathematical value of a [`Connection`].
pub enum ConnectionView {
    Kafka(KafkaConnectionView),
    Csr(CsrConnectionView),
    Postgres(PostgresConnectionView),
    Ssh(SshConnectionView),
}

impl View for Connection {
    type V = ConnectionView;

    open spec fn view(&self) -> ConnectionView {
        match self {
            Connection::Kafka(c) => ConnectionView::Kafka(c@),
            Connection::Csr(c) => ConnectionView::Csr(c@),
            Connection::Postgres(c) => ConnectionView::Postgres(c@),
            Connection::Ssh(c) => ConnectionView::Ssh(c@),
        }
    }
}

/// Clones an optional string-or-secret, keeping its value.
fn clone_opt_sos(o: &Option<StringOrSecret>) -> (r: Option<StringOrSecret>)
    ensures
        opt_view(r) == opt_view(*o),
{
    match o {
        Some(v) => Some(v.clone_value()),
        None => None,
    }
}

/// Clones an optional TLS identity, keeping its value.
fn clone_opt_identity(o: &Option<TlsIdentity>) -> (r: Option<TlsIdentity>)
    ensures
        opt_view(r) == opt_view(*o),
{
    match o {
        Some(id) => Some(TlsIdentity { cert: id.cert.clone_value(), key: id.key }),
        None => None,
    }
}

impl KafkaConnection {
    /// A copy holding the same value.
    pub fn clone_value(&self) -> (r: KafkaConnection)
        ensures
            r@ == self@,
    {
        let mut brokers: Vec<String> = Vec::new();
        let mut i: usize = 0;
        while i < self.brokers.len()
            invariant
                0 <= i <= self.brokers@.len(),
                brokers@.len() == i,
                forall|k: int| 0 <= k < i ==> (#[trigger] brokers@[k])@ == self.brokers@[k]@,
            decreases self.brokers@.len() - i,
        {
            brokers.push(self.brokers[i].clone());
            i += 1;
        }
        proof {
            assert(brokers@.map_values(|s: String| s@) =~= self.brokers@.map_values(
                |s: String| s@,
            ));
        }
        let security: Option<KafkaSecurity> = match &self.security {
            None => None,
            Some(KafkaSecurity::Tls(t)) => Some(
                KafkaSecurity::Tls(
                    KafkaTlsConfig {
                        identity: clone_opt_identity(&t.identity),
                        root_cert: clone_opt_sos(&t.root_cert),
                    },
                ),
            ),
            Some(KafkaSecurity::Sasl(sc)) => Some(
                KafkaSecurity::Sasl(
                    SaslConfig {
                        mechanisms: sc.mechanisms.clone(),
                        username: sc.username.clone_value(),
                        password: sc.password,
                        tls_root_cert: clone_opt_sos(&sc.tls_root_cert),
                    },
                ),
            ),
        };
        KafkaConnection { brokers, security }
    }
}

impl CsrConnection {
    /// A copy holding the same value.
    pub fn clone_value(&self) -> (r: CsrConnection)
        ensures
            r@ == self@,
    {
        CsrConnection {
            url: self.url.clone(),
            tls_root_cert: clone_opt_sos(&self.tls_root_cert),
            tls_identity: clone_opt_identity(&self.tls_identity),
            http_auth: match &self.http_auth {
                Some(a) => Some(
                    CsrConnectionHttpAuth {
                        username: a.username.clone_value(),
                        password: a.password,
                    },
                ),
                None => None,
            },
        }
    }
}

impl PostgresConnection {
    /// A copy holding the same value.
    pub fn clone_value(&self) -> (r: PostgresConnection)
        ensures
            r@ == self@,
    {
        PostgresConnection {
            host: self.host.clone(),
            port: self.port,
            database: self.database.clone(),
            user: self.user.clone_value(),
            password: self.password,
            ssh_tunnel: match &self.ssh_tunnel {
                Some(t) => Some(t.clone()),
                None => None,
            },
            tls_mode: self.tls_mode,
            tls_root_cert: clone_opt_sos(&self.tls_root_cert),
            tls_identity: clone_opt_identity(&self.tls_identity),
        }
    }
}

impl SshConnection {
    /// A copy holding the same value.
    pub fn clone_value(&self) -> (r: SshConnection)
        ensures
            r@ == self@,
    {
        SshConnection {
            host: self.host.clone(),
            port: self.port,
            user: self.user.clone(),
            public_key: self.public_key.clone(),
            private_key: self.private_key,
        }
    }
}

impl Connection {
    /// A copy holding the same value.
    pub fn clone_value(&self) -> (r: Connection)
        ensures
            r@ == self@,
    {
        match self {
            Connection::Kafka(c) => Connection::Kafka(c.clone_value()),
            Connection::Csr(c) => Connection::Csr(c.clone_value()),
            Connection::Postgres(c) => Connection::Postgres(c.clone_value()),
            Connection::Ssh(c) => Connection::Ssh(c.clone_value()),
        }
    }
}

} // verus!
