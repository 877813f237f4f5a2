//! Schema-registry resolution: subject naming, reader-strategy handling,
//! seed attachment for Avro, and descriptor handling for protobuf.
//!
//! The network fetches themselves are the driver's work; everything here
//! decides what to fetch and what the fetched content means.

use vstd::prelude::*;

use crate::ast::CsrSeedProtobufSchema;
use crate::ast::Envelope;
use crate::ast::DbzMode;
use crate::connections::CsrConnection;
use crate::connections::CsrConnectionHttpAuth;
use crate::connections::TlsIdentity;
use crate::connections::opt_view;
use crate::errors::PurifyError;
use crate::options::GlobalId;
use crate::options::OptionValue;
use crate::options::OptionValueView;
use crate::options::StmtOption;
use crate::options::StmtOptionView;
use crate::options::StringOrSecret;
use crate::options::StringOrSecretView;
use crate::options::check_unique_keys;
use crate::options::find_option;
use crate::options::stmt_get;
use crate::options::stmt_has_key;
use crate::options::lemma_stmt_get_some;
use crate::strutil::hex_of;
use crate::strutil::push_str;
use crate::strutil::str_eq;
use crate::strutil::format_bytes;

verus! {

/// A snapshot of remote registry content: the value schema is required,
/// the key schema optional.
#[derive(Clone, Debug, PartialEq, Eq)]
pub struct Schema {
    pub key_schema: Option<String>,
    pub value_schema: String,
}

/// A failed lookup of a schema by subject.
#[derive(Clone, Debug, PartialEq, Eq)]
pub enum GetBySubjectError {
    /// The subject does not exist; a recoverable outcome.
    SubjectNotFound,
    /// Any other failure: transport, authentication, server errors.
    Other { message: String },
}

/// A failed lookup of a schema by id.
#[derive(Clone, Debug, PartialEq, Eq)]
pub enum GetByIdError {
    /// No schema has this id; a recoverable outcome.
    SchemaNotFound,
    /// Any other failure: transport, authentication, server errors.
    Other { message: String },
}

/// A hard failure while resolving registry schemas.
#[derive(Clone, Debug, PartialEq, Eq)]
pub enum GetSchemaError {
    Subject(GetBySubjectError),
    Id(GetByIdError),
}

impl From<GetBySubjectError> for GetSchemaError {
    fn from(inner: GetBySubjectError) -> (r: GetSchemaError) {
        GetSchemaError::Subject(inner)
    }
}

impl vstd::std_specs::convert::FromSpecImpl<GetBySubjectError> for GetSchemaError {
    open spec fn obeys_from_spec() -> bool {
        true
    }

    open spec fn from_spec(inner: GetBySubjectError) -> GetSchemaError {
        GetSchemaError::Subject(inner)
    }
}

impl From<GetByIdError> for GetSchemaError {
    fn from(inner: GetByIdError) -> (r: GetSchemaError) {
        GetSchemaError::Id(inner)
    }
}

impl vstd::std_specs::convert::FromSpecImpl<GetByIdError> for GetSchemaError {
    open spec fn obeys_from_spec() -> bool {
        true
    }

    open spec fn from_spec(inner: GetByIdError) -> GetSchemaError {
        GetSchemaError::Id(inner)
    }
}

/// What one registry fetch came back with, as the driver reports it.
#[derive(Clone, Debug, PartialEq, Eq)]
pub enum SchemaFetchOutcome {
    /// The schema exists; its raw text.
    Found { raw: String },
    /// The subject or id does not exist.
    NotFound,
    /// The registry could not be asked or answered with an error.
    Failed { message: String },
}

/// Interprets a fetch-by-subject outcome: absence is tolerated, any other
/// failure is hard.
pub fn schema_from_subject_fetch(outcome: SchemaFetchOutcome) -> (r: Result<
    Option<String>,
    GetSchemaError,
>)
    ensures
        match outcome {
            SchemaFetchOutcome::Found { raw } => r == Ok::<Option<String>, GetSchemaError>(
                Some(raw),
            ),
            SchemaFetchOutcome::NotFound => r == Ok::<Option<String>, GetSchemaError>(
                None::<String>,
            ),
            SchemaFetchOutcome::Failed { message } => r == Err::<Option<String>, GetSchemaError>(
                GetSchemaError::Subject(GetBySubjectError::Other { message }),
            ),
        },
{
    match outcome {
        SchemaFetchOutcome::Found { raw } => Ok(Some(raw)),
        SchemaFetchOutcome::NotFound => Ok(None),
        SchemaFetchOutcome::Failed { message } => Err(
            GetSchemaError::Subject(GetBySubjectError::Other { message }),
        ),
    }
}

/// Interprets a fetch-by-id outcome: absence is tolerated, any other
/// failure is hard.
pub fn schema_from_id_fetch(outcome: SchemaFetchOutcome) -> (r: Result<
    Option<String>,
    GetSchemaError,
>)
    ensures
        match outcome {
            SchemaFetchOutcome::Found { raw } => r == Ok::<Option<String>, GetSchemaError>(
                Some(raw),
            ),
            SchemaFetchOutcome::NotFound => r == Ok::<Option<String>, GetSchemaError>(
                None::<String>,
            ),
            SchemaFetchOutcome::Failed { message } => r == Err::<Option<String>, GetSchemaError>(
                GetSchemaError::Id(GetByIdError::Other { message }),
            ),
        },
{
    match outcome {
        SchemaFetchOutcome::Found { raw } => Ok(Some(raw)),
        SchemaFetchOutcome::NotFound => Ok(None),
        SchemaFetchOutcome::Failed { message } => Err(
            GetSchemaError::Id(GetByIdError::Other { message }),
        ),
    }
}

/// The registry subject holding a topic's value schema.
pub fn value_subject(topic: &str) -> (r: String)
    ensures
        r@ == topic@ + "-value"@,
{
    let mut s = topic.to_owned();
    push_str(&mut s, "-value");
    s
}

/// The registry subject holding a topic's key schema.
pub fn key_subject(topic: &str) -> (r: String)
    ensures
        r@ == topic@ + "-key"@,
{
    let mut s = topic.to_owned();
    push_str(&mut s, "-key");
    s
}

/// Whether an envelope keys its state off the record key.
pub open spec fn is_debezium_upsert(envelope: Option<Envelope>) -> bool {
    envelope == Some(Envelope::Debezium(DbzMode::Upsert))
}

/// Builds the Avro seed out of the resolved schemas, enforcing that a
/// state-keying envelope has a key schema to key by.
///
/// Succeeds exactly when the envelope is not Debezium-Upsert or a key
/// schema was resolved.
pub fn build_avro_seed(
    envelope: &Option<Envelope>,
    key_schema: Option<String>,
    value_schema: String,
) -> (r: Result<crate::ast::CsrSeedAvro, PurifyError>)
    ensures
        r is Ok <==> !(is_debezium_upsert(*envelope) && key_schema is None),
        match r {
            Ok(seed) => seed == (crate::ast::CsrSeedAvro { key_schema, value_schema }),
            Err(e) => e is KeySchemaRequired,
        },
{
    let upsert = match envelope {
        Some(Envelope::Debezium(DbzMode::Upsert)) => true,
        _ => false,
    };
    if upsert && key_schema.is_none() {
        Err(PurifyError::KeySchemaRequired)
    } else {
        Ok(crate::ast::CsrSeedAvro { key_schema, value_schema })
    }
}

/// What a descriptor compilation came back with: the serialized descriptor
/// set, and the top-level message count and first message name of the
/// primary file.
#[derive(Clone, Debug, PartialEq, Eq)]
pub struct CompiledDescriptors {
    pub serialized: Vec<u8>,
    pub message_count: u64,
    pub first_message_name: String,
}

/// The stable tracking number under which multi- and zero-message schemas
/// are reported as unsupported.
pub open spec fn spec_proto_tracking() -> u64 {
    9598
}

/// Builds one side's protobuf seed from a compiled descriptor set.
///
/// Succeeds exactly when the primary file holds one top-level message;
/// zero or several are reported as a distinct unsupported feature, not a
/// generic error.
pub fn proto_seed_from_compile(d: CompiledDescriptors) -> (r: Result<
    CsrSeedProtobufSchema,
    PurifyError,
>)
    ensures
        r is Ok <==> d.message_count == 1,
        match r {
            Ok(s) => s.message_name == d.first_message_name && s.schema@ == "\\x"@ + hex_of(
                d.serialized@,
            ),
            Err(e) => e matches PurifyError::Unsupported { feature: _, tracking } && tracking
                == spec_proto_tracking(),
        },
{
    if d.message_count == 1 {
        let schema = format_bytes(&d.serialized);
        Ok(CsrSeedProtobufSchema { schema, message_name: d.first_message_name })
    } else if d.message_count == 0 {
        Err(PurifyError::Unsupported {
            feature: "protobuf schemas with no messages".to_owned(),
            tracking: 9598,
        })
    } else {
        Err(PurifyError::Unsupported {
            feature: "protobuf schemas with multiple messages".to_owned(),
            tracking: 9598,
        })
    }
}

/// What a registry URL parses and normalizes to; nothing if it is not a
/// valid URL.
pub uninterp spec fn url_parse_of(s: Seq<char>) -> Option<Seq<char>>;

/// Relies on `url::Url::parse` and `url::Url::as_str`: parsing is a
/// function of the text alone, and serializing the parsed URL yields its
/// normalized form.
#[verifier::external_body]
fn parse_url(s: &str) -> (r: Option<String>)
    ensures
        match r {
            Some(u) => url_parse_of(s@) == Some(u@),
            None => url_parse_of(s@) is None,
        },
{
    match s.parse::<url::Url>() {
        Ok(u) => Some(u.as_str().to_owned()),
        Err(_) => None,
    }
}

/// The option keys an inline registry connection understands.
pub open spec fn ccsr_known_key(k: Seq<char>) -> bool {
    ||| k == "ssl_ca_pem"@
    ||| k == "ssl_key_pem"@
    ||| k == "ssl_certificate_pem"@
    ||| k == "username"@
    ||| k == "password"@
}

/// A statement-option value as a string-or-secret, if it is one.
pub open spec fn sos_of_value(v: OptionValueView) -> Option<StringOrSecretView> {
    match v {
        OptionValueView::Text(s) => Some(StringOrSecretView::Plain(s)),
        OptionValueView::Secret(id) => Some(StringOrSecretView::Secret(id)),
        _ => None,
    }
}

/// When the inline registry options are well-formed: unique known keys,
/// each with a value of the right shape, a key and certificate only
/// together, and a password only alongside a username.
pub open spec fn ccsr_options_ok(opts: Seq<StmtOptionView>) -> bool {
    &&& forall|i: int, j: int| 0 <= i < j < opts.len() ==> opts[i].key != opts[j].key
    &&& forall|i: int| 0 <= i < opts.len() ==> ccsr_known_key((#[trigger] opts[i]).key)
    &&& match stmt_get(opts, "ssl_ca_pem"@) {
        Some(v) => sos_of_value(v) is Some,
        None => true,
    }
    &&& match stmt_get(opts, "ssl_key_pem"@) {
        Some(v) => v is Secret,
        None => true,
    }
    &&& match stmt_get(opts, "ssl_certificate_pem"@) {
        Some(v) => sos_of_value(v) is Some,
        None => true,
    }
    &&& (stmt_has_key(opts, "ssl_key_pem"@) <==> stmt_has_key(opts, "ssl_certificate_pem"@))
    &&& match stmt_get(opts, "username"@) {
        Some(v) => sos_of_value(v) is Some,
        None => true,
    }
    &&& match stmt_get(opts, "password"@) {
        Some(v) => v is Secret && stmt_has_key(opts, "username"@),
        None => true,
    }
}

/// The registry-option keys are pairwise distinct.
proof fn lemma_ccsr_keys_distinct()
    ensures
        "ssl_ca_pem"@ != "ssl_key_pem"@,
        "ssl_ca_pem"@ != "ssl_certificate_pem"@,
        "ssl_ca_pem"@ != "username"@,
        "ssl_ca_pem"@ != "password"@,
        "ssl_key_pem"@ != "ssl_certificate_pem"@,
        "ssl_key_pem"@ != "username"@,
        "ssl_key_pem"@ != "password"@,
        "ssl_certificate_pem"@ != "username"@,
        "ssl_certificate_pem"@ != "password"@,
        "username"@ != "password"@,
{
    reveal_strlit("ssl_ca_pem");
    reveal_strlit("ssl_key_pem");
    reveal_strlit("ssl_certificate_pem");
    reveal_strlit("username");
    reveal_strlit("password");
    assert("ssl_ca_pem"@.len() == 10);
    assert("ssl_key_pem"@.len() == 11);
    assert("ssl_certificate_pem"@.len() == 19);
    assert("username"@.len() == 8);
    assert("password"@.len() == 8);
    assert("username"@[0] == 'u');
    assert("password"@[0] == 'p');
}

/// Reads one optional string-or-secret option.
fn read_sos_option(opts: &Vec<StmtOption>, key: &str) -> (r: Result<
    Option<StringOrSecret>,
    PurifyError,
>)
    ensures
        match r {
            Ok(v) => match stmt_get(opts@.map_values(|o: StmtOption| o@), key@) {
                Some(w) => sos_of_value(w) is Some && opt_view(v) == sos_of_value(w),
                None => v is None,
            },
            Err(e) => e is OptionTypeError && (match stmt_get(
                opts@.map_values(|o: StmtOption| o@),
                key@,
            ) {
                Some(w) => sos_of_value(w) is None,
                None => false,
            }),
        },
{
    match find_option(opts, key) {
        Some(OptionValue::Text(s)) => Ok(Some(StringOrSecret::Plain(s.clone()))),
        Some(OptionValue::Secret(id)) => Ok(Some(StringOrSecret::Secret(*id))),
        Some(_) => Err(PurifyError::OptionTypeError { key: key.to_owned() }),
        None => {
            proof {
                lemma_stmt_get_some(opts@.map_values(|o: StmtOption| o@), key@);
            }
            Ok(None)
        },
    }
}

/// A present string-or-secret statement option's value, if it is one.
pub open spec fn sos_view_at(opts: Seq<StmtOptionView>, key: Seq<char>) -> Option<
    StringOrSecretView,
> {
    match stmt_get(opts, key) {
        Some(v) => sos_of_value(v),
        None => None,
    }
}

/// The registry connection that well-formed inline options describe: the
/// normalized URL and the TLS and authentication entries.
pub open spec fn ccsr_connection_view_of(
    url: Seq<char>,
    opts: Seq<StmtOptionView>,
) -> crate::connections::CsrConnectionView {
    crate::connections::CsrConnectionView {
        url: url,
        tls_root_cert: sos_view_at(opts, "ssl_ca_pem"@),
        tls_identity: match stmt_get(opts, "ssl_key_pem"@) {
            Some(OptionValueView::Secret(id)) => Some(
                crate::connections::TlsIdentityView {
                    cert: match sos_view_at(opts, "ssl_certificate_pem"@) {
                        Some(c) => c,
                        None => StringOrSecretView::Plain(Seq::empty()),
                    },
                    key: id,
                },
            ),
            _ => None,
        },
        http_auth: match sos_view_at(opts, "username"@) {
            Some(u) => Some(
                crate::connections::CsrConnectionHttpAuthView {
                    username: u,
                    password: match stmt_get(opts, "password"@) {
                        Some(OptionValueView::Secret(id)) => Some(id),
                        _ => None,
                    },
                },
            ),
            None => None,
        },
    }
}

/// Validates and constructs an inline registry connection from a URL and
/// its `WITH` options, touching neither catalog nor network.
///
/// Succeeds exactly when the URL parses and the options are well-formed
/// ([`ccsr_options_ok`]).
pub fn generate_ccsr_connection(url: &str, ccsr_options: &Vec<StmtOption>) -> (r: Result<
    CsrConnection,
    PurifyError,
>)
    ensures
        ({
            let opts = ccsr_options@.map_values(|o: StmtOption| o@);
            match r {
                Ok(c) => {
                    &&& url_parse_of(url@) == Some(c.url@)
                    &&& ccsr_options_ok(opts)
                    &&& c@ == ccsr_connection_view_of(c.url@, opts)
                    &&& opt_view(c.tls_root_cert) == match stmt_get(opts, "ssl_ca_pem"@) {
                        Some(v) => sos_of_value(v),
                        None => None,
                    }
                    &&& match c.tls_identity {
                        Some(id) => stmt_get(opts, "ssl_key_pem"@) == Some(
                            OptionValueView::Secret(id.key),
                        ) && Some(id.cert@) == match stmt_get(opts, "ssl_certificate_pem"@) {
                            Some(v) => sos_of_value(v),
                            None => None,
                        },
                        None => !stmt_has_key(opts, "ssl_key_pem"@),
                    }
                    &&& match c.http_auth {
                        Some(a) => Some(a.username@) == (match stmt_get(opts, "username"@) {
                            Some(v) => sos_of_value(v),
                            None => None,
                        }) && a.password == (match stmt_get(opts, "password"@) {
                            Some(OptionValueView::Secret(id)) => Some(id),
                            _ => None,
                        }),
                        None => !stmt_has_key(opts, "username"@),
                    }
                },
                Err(e) => !(url_parse_of(url@) is Some && ccsr_options_ok(opts))
                    && e.spec_kind() == crate::errors::ErrorKind::Validation,
            }
        }),
{
    let ghost opts = ccsr_options@.map_values(|o: StmtOption| o@);
    proof {
        lemma_ccsr_keys_distinct();
    }
    let parsed = match parse_url(url) {
        Some(u) => u,
        None => {
            return Err(PurifyError::InvalidUrl { url: url.to_owned() });
        },
    };
    if let Err(e) = check_unique_keys(ccsr_options) {
        proof {
            let (i, j) = choose|i: int, j: int|
                0 <= i < j < ccsr_options@.len() && ccsr_options@[i]@.key
                    == ccsr_options@[j]@.key;
            assert(opts[i].key == opts[j].key);
        }
        return Err(e);
    }
    // Reject keys this connection does not understand.
    let mut i: usize = 0;
    while i < ccsr_options.len()
        invariant
            0 <= i <= ccsr_options@.len(),
            opts == ccsr_options@.map_values(|o: StmtOption| o@),
            forall|k: int| 0 <= k < i ==> ccsr_known_key((#[trigger] opts[k]).key),
        decreases ccsr_options@.len() - i,
    {
        let key = &ccsr_options[i].key;
        let known = str_eq(key.as_str(), "ssl_ca_pem") || str_eq(key.as_str(), "ssl_key_pem")
            || str_eq(key.as_str(), "ssl_certificate_pem") || str_eq(key.as_str(), "username")
            || str_eq(key.as_str(), "password");
        if !known {
            proof {
                assert(opts[i as int].key == key@);
            }
            return Err(PurifyError::UnknownOption { key: key.clone() });
        }
        i += 1;
    }
    let tls_root_cert = match read_sos_option(ccsr_options, "ssl_ca_pem") {
        Ok(v) => v,
        Err(e) => {
            return Err(e);
        },
    };
    let ssl_key = match find_option(ccsr_options, "ssl_key_pem") {
        Some(OptionValue::Secret(id)) => Some(*id),
        Some(_) => {
            return Err(PurifyError::OptionTypeError { key: "ssl_key_pem".to_owned() });
        },
        None => {
            proof {
                lemma_stmt_get_some(opts, "ssl_key_pem"@);
            }
            None
        },
    };
    let ssl_cert = match read_sos_option(ccsr_options, "ssl_certificate_pem") {
        Ok(v) => v,
        Err(e) => {
            return Err(e);
        },
    };
    proof {
        lemma_stmt_get_some(opts, "ssl_key_pem"@);
        lemma_stmt_get_some(opts, "ssl_certificate_pem"@);
        lemma_stmt_get_some(opts, "username"@);
        lemma_stmt_get_some(opts, "password"@);
    }
    let tls_identity: Option<TlsIdentity> = match (ssl_key, ssl_cert) {
        (Some(key), Some(cert)) => Some(TlsIdentity { cert, key }),
        (None, None) => None,
        (Some(_), None) => {
            return Err(PurifyError::MissingOption { key: "ssl_certificate_pem".to_owned() });
        },
        (None, Some(_)) => {
            return Err(PurifyError::MissingOption { key: "ssl_key_pem".to_owned() });
        },
    };
    let username = match read_sos_option(ccsr_options, "username") {
        Ok(v) => v,
        Err(e) => {
            return Err(e);
        },
    };
    let password = match find_option(ccsr_options, "password") {
        Some(OptionValue::Secret(id)) => Some(*id),
        Some(_) => {
            return Err(PurifyError::OptionTypeError { key: "password".to_owned() });
        },
        None => None,
    };
    let http_auth: Option<CsrConnectionHttpAuth> = match (username, password) {
        (Some(u), p) => Some(CsrConnectionHttpAuth { username: u, password: p }),
        (None, None) => None,
        (None, Some(_)) => {
            return Err(PurifyError::MissingOption { key: "username".to_owned() });
        },
    };
    Ok(CsrConnection { url: parsed, tls_root_cert, tls_identity, http_auth })
}

} // verus!
