//! The purifier: an event-driven resolver that walks a source declaration
//! and replaces every reference to external state by a literal value.
//!
//! The purifier performs no I/O. It hands the caller an [`Action`] naming
//! the one external call to make next; the caller performs it and feeds
//! the outcome back through [`Purifier::step`] as an [`Event`]. The run
//! ends in [`Step::Done`] with the fully purified statement, or in
//! [`Step::Failed`] with the first error — in which case the partially
//! resolved declaration is discarded, never returned.
//!
//! Sequencing is fixed: the source-kind state is resolved first, then the
//! formats, key before value; within a schema-registry format the value
//! schema is resolved before the key schema.

use vstd::prelude::*;

use crate::ast::AvroSchema;
use crate::ast::CreateSourceConnection;
use crate::ast::CreateSourceFormat;
use crate::ast::CreateSourceStatement;
use crate::ast::CsrConnectionRef;
use crate::ast::CsrSeedAvro;
use crate::ast::CsrSeedProtobuf;
use crate::ast::CsrSeedProtobufSchema;
use crate::ast::CsvColumns;
use crate::ast::Format;
use crate::ast::ProtobufSchema;
use crate::ast::ReaderSchemaSelectionStrategy;
use crate::ast::SchemaSource;
use crate::ast::format_purified;
use crate::ast::kind_purified;
use crate::ast::single_format_purified;
use crate::ast::statement_purified;
use crate::catalog::CatalogSnapshot;
use crate::cloud::AwsConfig;
use crate::connections::Connection;
use crate::connections::ConnectionContext;
use crate::connections::CsrConnection;
use crate::connections::KafkaConnection;
use crate::connections::LogLevel;
use crate::connections::PostgresConnection;
use crate::csr::CompiledDescriptors;
use crate::csr::SchemaFetchOutcome;
use crate::errors::ConnectionKind;
use crate::errors::PurifyError;
use crate::options::ConnOptions;
use crate::options::StmtOption;
use crate::options::StringOrSecret;
use crate::options::stmt_has_key;
use crate::replication::PgTable;

verus! {

/// One `.proto` file handed to the descriptor compiler.
#[derive(Clone, Debug, PartialEq, Eq)]
pub struct ProtoFile {
    pub name: String,
    pub content: String,
}

/// One subject fetched from the registry together with its references.
#[derive(Clone, Debug, PartialEq, Eq)]
pub struct ProtoSubject {
    pub name: String,
    pub schema: String,
}

/// The one external call the driver must perform next.
#[derive(Clone, Debug, PartialEq, Eq)]
pub enum Action {
    /// Construct a live consumer and connect it to the broker.
    CreateConsumer {
        connection: KafkaConnection,
        options: ConnOptions,
        topic: String,
        log_level: LogLevel,
    },
    /// Ask the broker for the offsets at the given instant, one per
    /// partition of the topic.
    LookupStartOffsets { topic: String, time: i64, now: u64 },
    /// Probe the cloud provider with an inexpensive identity check.
    ValidateCloudCredentials { config: AwsConfig, external_id_prefix: Option<String> },
    /// Connect upstream and read the publication's table metadata.
    IntrospectPublication { connection: PostgresConnection, publication: String },
    /// Build a registry client from the connection, decrypting secrets.
    ConnectCsr { connection: CsrConnection },
    /// Fetch the newest schema under a subject.
    FetchSubject { subject: String },
    /// Fetch the schema with a registry-assigned id.
    FetchById { id: i32 },
    /// Fetch a subject's schema with the transitive closure of its
    /// references, the primary subject first.
    FetchSubjectAndReferences { subject: String },
    /// Compile the files into one binary descriptor set, rooted at
    /// `primary`.
    CompileDescriptors { files: Vec<ProtoFile>, primary: String },
    /// Read a schema file as text.
    ReadFileText { path: String },
    /// Read a schema file as raw bytes.
    ReadFileBytes { path: String },
}

/// The outcome of the requested action, as the driver reports it.
#[derive(Debug)]
pub enum Event {
    ConsumerReady(Result<(), String>),
    StartOffsets(Result<Vec<i64>, String>),
    CloudCredentialsValidated(Result<(), String>),
    PublicationInfo(Result<Vec<PgTable>, String>),
    CsrClientReady(Result<(), String>),
    SchemaFetched(SchemaFetchOutcome),
    SubjectsFetched(Result<Vec<ProtoSubject>, String>),
    Compiled(Result<CompiledDescriptors, String>),
    FileText(Result<String, String>),
    FileBytes(Result<Vec<u8>, String>),
}

/// Which side of the format specification is being resolved.
#[derive(Clone, Copy, Debug, PartialEq, Eq, Structural)]
pub enum FormatSlot {
    /// The single format of a bare specification.
    Bare,
    /// The key format of a key/value specification.
    Key,
    /// The value format of a key/value specification.
    Value,
}

/// Where in the fixed sequence the purifier stands, always immediately
/// before an external outcome it waits for.
#[derive(Clone, Debug, PartialEq, Eq)]
pub enum Phase {
    AwaitConsumer,
    AwaitStartOffsets,
    AwaitCloudValidation,
    AwaitPublicationInfo,
    AwaitCsrClientAvro { slot: FormatSlot },
    AwaitCsrClientProto { slot: FormatSlot },
    AwaitAvroValue { slot: FormatSlot },
    AwaitAvroKey { slot: FormatSlot, value_schema: String },
    AwaitProtoValueSubjects { slot: FormatSlot },
    AwaitProtoValueCompile { slot: FormatSlot },
    AwaitProtoKeySubjects { slot: FormatSlot, value: CsrSeedProtobufSchema },
    AwaitProtoKeyCompile { slot: FormatSlot, value: CsrSeedProtobufSchema },
    AwaitFileText { slot: FormatSlot },
    AwaitFileBytes { slot: FormatSlot },
}

/// A purification run between two external calls.
#[derive(Debug)]
pub struct Purifier {
    catalog: CatalogSnapshot,
    now: u64,
    ctx: ConnectionContext,
    decl: CreateSourceStatement,
    phase: Phase,
}

/// What the purifier asks of its caller next.
#[derive(Debug)]
pub enum Step {
    /// Perform the action and feed the outcome back through
    /// [`Purifier::step`].
    Request(Purifier, Action),
    /// The declaration is fully purified.
    Done(CreateSourceStatement),
    /// The run failed; the declaration is discarded.
    Failed(PurifyError),
}

/// The format a slot points at, if the specification has that slot.
pub open spec fn slot_format(f: CreateSourceFormat, slot: FormatSlot) -> Option<Format> {
    match (f, slot) {
        (CreateSourceFormat::Bare(fmt), FormatSlot::Bare) => Some(fmt),
        (CreateSourceFormat::KeyValue { key, value: _ }, FormatSlot::Key) => Some(key),
        (CreateSourceFormat::KeyValue { key: _, value }, FormatSlot::Value) => Some(value),
        _ => None,
    }
}

/// The specification with the slot's format replaced.
pub open spec fn with_slot(
    f: CreateSourceFormat,
    slot: FormatSlot,
    fmt: Format,
) -> CreateSourceFormat {
    match (f, slot) {
        (CreateSourceFormat::Bare(_), FormatSlot::Bare) => CreateSourceFormat::Bare(fmt),
        (CreateSourceFormat::KeyValue { key: _, value }, FormatSlot::Key)
            => CreateSourceFormat::KeyValue { key: fmt, value },
        (CreateSourceFormat::KeyValue { key, value: _ }, FormatSlot::Value)
            => CreateSourceFormat::KeyValue { key, value: fmt },
        (other, _) => other,
    }
}

/// Whether a declaration's options still request a time-based offset.
pub open spec fn has_time_offset_key(decl: CreateSourceStatement) -> bool {
    stmt_has_key(decl.with_options@.map_values(|o: StmtOption| o@), "kafka_time_offset"@)
}

/// What holds of the declaration once its kind step has completed: the
/// kind state is resolved and any time-based offset request is gone.
pub open spec fn kind_step_done(decl: CreateSourceStatement) -> bool {
    &&& kind_purified(decl.connection)
    &&& (decl.connection is Kafka ==> !has_time_offset_key(decl))
}

/// What holds of a slot while it is being resolved.
pub open spec fn slot_inv(decl: CreateSourceStatement, slot: FormatSlot) -> bool {
    match slot {
        FormatSlot::Bare => decl.format is Bare,
        FormatSlot::Key => decl.format is KeyValue && decl.connection is Kafka,
        FormatSlot::Value => decl.format is KeyValue && decl.connection is Kafka
            && match slot_format(decl.format, FormatSlot::Key) {
            Some(key) => single_format_purified(key, decl.connection),
            None => false,
        },
    }
}

impl Purifier {
    /// The declaration under purification.
    pub closed spec fn spec_decl(&self) -> CreateSourceStatement {
        self.decl
    }

    /// The phase the run waits in.
    pub closed spec fn spec_phase(&self) -> Phase {
        self.phase
    }

    /// The catalog snapshot the run reads.
    pub closed spec fn spec_catalog(&self) -> CatalogSnapshot {
        self.catalog
    }

    /// The logical instant the run translates time offsets against.
    pub closed spec fn spec_now(&self) -> u64 {
        self.now
    }

    /// The well-formedness of a run: each waiting phase can only be
    /// entered with the declaration in the matching shape.
    pub closed spec fn inv(&self) -> bool {
        match self.phase {
            Phase::AwaitConsumer => self.decl.connection is Kafka,
            Phase::AwaitStartOffsets => self.decl.connection is Kafka && kind_purified(
                self.decl.connection,
            ),
            Phase::AwaitCloudValidation => (self.decl.connection is ObjectStore
                || self.decl.connection is StreamShipping) && kind_step_done(self.decl),
            Phase::AwaitPublicationInfo => self.decl.connection is LogicalReplication,
            Phase::AwaitCsrClientAvro { slot } => self.format_phase_inv(slot)
                && self.decl.connection is Kafka && (match slot_format(self.decl.format, slot) {
                Some(Format::Avro(AvroSchema::Csr { csr_connection: _ })) => true,
                _ => false,
            }),
            Phase::AwaitCsrClientProto { slot } => self.format_phase_inv(slot)
                && self.decl.connection is Kafka && (match slot_format(self.decl.format, slot) {
                Some(Format::Protobuf(ProtobufSchema::Csr { csr_connection: _ })) => true,
                _ => false,
            }),
            Phase::AwaitAvroValue { slot } => self.format_phase_inv(slot)
                && self.decl.connection is Kafka && (match slot_format(self.decl.format, slot) {
                Some(Format::Avro(AvroSchema::Csr { csr_connection: _ })) => true,
                _ => false,
            }),
            Phase::AwaitAvroKey { slot, value_schema: _ } => self.format_phase_inv(slot)
                && self.decl.connection is Kafka && (match slot_format(self.decl.format, slot) {
                Some(Format::Avro(AvroSchema::Csr { csr_connection: _ })) => true,
                _ => false,
            }),
            Phase::AwaitProtoValueSubjects { slot } => self.format_phase_inv(slot)
                && self.decl.connection is Kafka && (match slot_format(self.decl.format, slot) {
                Some(Format::Protobuf(ProtobufSchema::Csr { csr_connection: _ })) => true,
                _ => false,
            }),
            Phase::AwaitProtoValueCompile { slot } => self.format_phase_inv(slot)
                && self.decl.connection is Kafka && (match slot_format(self.decl.format, slot) {
                Some(Format::Protobuf(ProtobufSchema::Csr { csr_connection: _ })) => true,
                _ => false,
            }),
            Phase::AwaitProtoKeySubjects { slot, value: _ } => self.format_phase_inv(slot)
                && self.decl.connection is Kafka && (match slot_format(self.decl.format, slot) {
                Some(Format::Protobuf(ProtobufSchema::Csr { csr_connection: _ })) => true,
                _ => false,
            }),
            Phase::AwaitProtoKeyCompile { slot, value: _ } => self.format_phase_inv(slot)
                && self.decl.connection is Kafka && (match slot_format(self.decl.format, slot) {
                Some(Format::Protobuf(ProtobufSchema::Csr { csr_connection: _ })) => true,
                _ => false,
            }),
            Phase::AwaitFileText { slot } => self.format_phase_inv(slot) && (match slot_format(
                self.decl.format,
                slot,
            ) {
                Some(Format::Avro(AvroSchema::InlineSchema { schema })) => schema is File,
                _ => false,
            }),
            Phase::AwaitFileBytes { slot } => self.format_phase_inv(slot) && (match slot_format(
                self.decl.format,
                slot,
            ) {
                Some(
                    Format::Protobuf(ProtobufSchema::InlineSchema { message_name: _, schema }),
                ) => schema is File,
                _ => false,
            }),
        }
    }

    /// What holds in every format-phase state.
    pub closed spec fn format_phase_inv(&self, slot: FormatSlot) -> bool {
        &&& kind_step_done(self.decl)
        &&& slot_inv(self.decl, slot)
    }
}

/// What one slot needs before it can be resolved, as a function of the
/// catalog and the declaration alone.
pub enum SpecSlotPlan {
    /// Nothing: the slot is already resolved or needs no resolution.
    Finished,
    /// A registry format on a source that is not broker-backed.
    FailCsrNotKafka,
    /// CSV header columns on a source that is not an object store.
    FailCsvUnsupported,
    /// CSV header columns with no names on an object store.
    FailCsvEmpty,
    /// A registry reference that names no catalog item.
    FailUnknownItem(Seq<char>),
    /// A registry reference to an item of another kind.
    FailWrongKind(Seq<char>),
    /// Inline registry options or URL that do not validate.
    FailInlineCsr,
    /// Connect to the registry for an Avro seed.
    ConnectAvro(crate::connections::CsrConnectionView),
    /// Connect to the registry for a protobuf seed.
    ConnectProto(crate::connections::CsrConnectionView),
    /// Read this file as schema text.
    ReadText(Seq<char>),
    /// Read this file as raw schema bytes.
    ReadBytes(Seq<char>),
}

/// The registry connection a registry-backed format resolves to, or the
/// failure it runs into.
pub open spec fn spec_csr_plan(
    catalog: CatalogSnapshot,
    conn_ref: CsrConnectionRef,
    with_options: Seq<crate::options::StmtOptionView>,
    avro: bool,
) -> SpecSlotPlan {
    match conn_ref {
        CsrConnectionRef::Inline { url } => match crate::csr::url_parse_of(url@) {
            Some(u) => if crate::csr::ccsr_options_ok(with_options) {
                if avro {
                    SpecSlotPlan::ConnectAvro(crate::csr::ccsr_connection_view_of(u, with_options))
                } else {
                    SpecSlotPlan::ConnectProto(crate::csr::ccsr_connection_view_of(u, with_options))
                }
            } else {
                SpecSlotPlan::FailInlineCsr
            },
            None => SpecSlotPlan::FailInlineCsr,
        },
        CsrConnectionRef::Reference { name } => match crate::catalog::cat_lookup(
            catalog.items@,
            name@,
        ) {
            None => SpecSlotPlan::FailUnknownItem(name@),
            Some(Connection::Csr(c0)) => if avro {
                SpecSlotPlan::ConnectAvro(c0@)
            } else {
                SpecSlotPlan::ConnectProto(c0@)
            },
            Some(_) => SpecSlotPlan::FailWrongKind(name@),
        },
    }
}

/// What one slot needs, as a function of the catalog and declaration.
pub open spec fn spec_plan_slot(
    catalog: CatalogSnapshot,
    decl: CreateSourceStatement,
    slot: FormatSlot,
) -> SpecSlotPlan {
    match slot_format(decl.format, slot) {
        None => SpecSlotPlan::Finished,
        Some(fmt) => match fmt {
            Format::Avro(AvroSchema::Csr { csr_connection: c }) => if !(decl.connection
                is Kafka) {
                SpecSlotPlan::FailCsrNotKafka
            } else if c.seed is Some {
                SpecSlotPlan::Finished
            } else {
                spec_csr_plan(
                    catalog,
                    c.connection,
                    c.with_options@.map_values(|o: StmtOption| o@),
                    true,
                )
            },
            Format::Protobuf(ProtobufSchema::Csr { csr_connection: c }) => if !(decl.connection
                is Kafka) {
                SpecSlotPlan::FailCsrNotKafka
            } else if c.seed is Some {
                SpecSlotPlan::Finished
            } else {
                spec_csr_plan(
                    catalog,
                    c.connection,
                    c.with_options@.map_values(|o: StmtOption| o@),
                    false,
                )
            },
            Format::Avro(AvroSchema::InlineSchema { schema }) => match schema {
                SchemaSource::File(path) => SpecSlotPlan::ReadText(path@),
                SchemaSource::Inline(_) => SpecSlotPlan::Finished,
            },
            Format::Protobuf(ProtobufSchema::InlineSchema { message_name: _, schema }) => match schema {
                SchemaSource::File(path) => SpecSlotPlan::ReadBytes(path@),
                SchemaSource::Inline(_) => SpecSlotPlan::Finished,
            },
            Format::Csv { columns } => match columns {
                CsvColumns::Header { names } => if !(decl.connection is ObjectStore) {
                    SpecSlotPlan::FailCsvUnsupported
                } else if names@.len() == 0 {
                    SpecSlotPlan::FailCsvEmpty
                } else {
                    SpecSlotPlan::Finished
                },
                CsvColumns::Count(_) => SpecSlotPlan::Finished,
            },
            Format::Bytes => SpecSlotPlan::Finished,
            Format::Regex(_) => SpecSlotPlan::Finished,
            Format::Json => SpecSlotPlan::Finished,
            Format::Text => SpecSlotPlan::Finished,
        },
    }
}

/// How the resolver must answer one slot whose plan needs something: the
/// exact failure, or the exact request with the run otherwise untouched.
pub open spec fn slot_request_matches(
    catalog: CatalogSnapshot,
    decl: CreateSourceStatement,
    slot: FormatSlot,
    plan: SpecSlotPlan,
    r: Step,
) -> bool {
    match plan {
        SpecSlotPlan::Finished => true,
        SpecSlotPlan::FailCsrNotKafka => r matches Step::Failed(e) && e is CsrRequiresKafka,
        SpecSlotPlan::FailCsvUnsupported => r matches Step::Failed(e) && e is CsvHeaderUnsupported,
        SpecSlotPlan::FailCsvEmpty => r matches Step::Failed(e) && e is CsvHeaderColumnsRequired,
        SpecSlotPlan::FailUnknownItem(n) => r matches Step::Failed(
            PurifyError::UnknownCatalogItem { name },
        ) && name@ == n,
        SpecSlotPlan::FailWrongKind(n) => r matches Step::Failed(
            PurifyError::WrongConnectionKind { name, expected },
        ) && name@ == n && expected == ConnectionKind::SchemaRegistry,
        SpecSlotPlan::FailInlineCsr => r matches Step::Failed(e) && e.spec_kind()
            == crate::errors::ErrorKind::Validation,
        SpecSlotPlan::ConnectAvro(v) => r matches Step::Request(
            p,
            Action::ConnectCsr { connection },
        ) && connection@ == v && p.spec_phase() == (Phase::AwaitCsrClientAvro { slot })
            && p.spec_decl() == decl,
        SpecSlotPlan::ConnectProto(v) => r matches Step::Request(
            p,
            Action::ConnectCsr { connection },
        ) && connection@ == v && p.spec_phase() == (Phase::AwaitCsrClientProto { slot })
            && p.spec_decl() == decl,
        SpecSlotPlan::ReadText(path) => r matches Step::Request(
            p,
            Action::ReadFileText { path: q },
        ) && q@ == path && p.spec_phase() == (Phase::AwaitFileText { slot }) && p.spec_decl()
            == decl,
        SpecSlotPlan::ReadBytes(path) => r matches Step::Request(
            p,
            Action::ReadFileBytes { path: q },
        ) && q@ == path && p.spec_phase() == (Phase::AwaitFileBytes { slot }) && p.spec_decl()
            == decl,
    }
}

/// How the resolver must answer from one slot on: a finished slot either
/// ends the run with the statement unchanged or moves from the key slot
/// to the value slot; a pending slot gets its exact request or failure.
pub open spec fn slot_outcome_matches(
    catalog: CatalogSnapshot,
    decl: CreateSourceStatement,
    slot: FormatSlot,
    r: Step,
) -> bool
    decreases slot_rank(slot),
{
    match spec_plan_slot(catalog, decl, slot) {
        SpecSlotPlan::Finished => match slot {
            FormatSlot::Key => slot_outcome_matches(catalog, decl, FormatSlot::Value, r),
            _ => r matches Step::Done(d) && d == decl,
        },
        plan => slot_request_matches(catalog, decl, slot, plan, r),
    }
}

/// Whatever format resolution answers, the shape is fixed: the statement
/// comes back unchanged on success, the pending declaration equals the
/// input on a request, and a failure is a validation failure.
pub proof fn lemma_format_outcome_shapes(
    catalog: CatalogSnapshot,
    decl: CreateSourceStatement,
    r: Step,
)
    requires
        resolves_formats(catalog, decl, r),
    ensures
        r matches Step::Done(d) ==> d == decl,
        r matches Step::Request(p, _) ==> p.spec_decl() == decl,
        r matches Step::Failed(e) ==> e.spec_kind() == crate::errors::ErrorKind::Validation,
{
    if decl.format is KeyValue && !(decl.connection is Kafka) {
    } else {
        match decl.format {
            CreateSourceFormat::Absent => {},
            CreateSourceFormat::Bare(_) => lemma_slot_outcome_shapes(
                catalog,
                decl,
                FormatSlot::Bare,
                r,
            ),
            CreateSourceFormat::KeyValue { .. } => lemma_slot_outcome_shapes(
                catalog,
                decl,
                FormatSlot::Key,
                r,
            ),
        }
    }
}

/// The same shapes, from one slot on.
proof fn lemma_slot_outcome_shapes(
    catalog: CatalogSnapshot,
    decl: CreateSourceStatement,
    slot: FormatSlot,
    r: Step,
)
    requires
        slot_outcome_matches(catalog, decl, slot, r),
    ensures
        r matches Step::Done(d) ==> d == decl,
        r matches Step::Request(p, _) ==> p.spec_decl() == decl,
        r matches Step::Failed(e) ==> e.spec_kind() == crate::errors::ErrorKind::Validation,
    decreases slot_rank(slot),
{
    match spec_plan_slot(catalog, decl, slot) {
        SpecSlotPlan::Finished => match slot {
            FormatSlot::Key => lemma_slot_outcome_shapes(catalog, decl, FormatSlot::Value, r),
            _ => {},
        },
        _ => {},
    }
}

/// The statement options, viewed.
pub open spec fn stmt_opts(stmt: CreateSourceStatement) -> Seq<crate::options::StmtOptionView> {
    stmt.with_options@.map_values(|o: StmtOption| o@)
}

/// When no statement option key is given twice.
pub open spec fn unique_opt_keys(opts: Seq<crate::options::StmtOptionView>) -> bool {
    forall|i: int, j: int| 0 <= i < j < opts.len() ==> opts[i].key != opts[j].key
}

/// The view of an optional string.
pub open spec fn opt_str_view(o: Option<String>) -> Option<Seq<char>> {
    match o {
        Some(s) => Some(s@),
        None => None,
    }
}

/// The client-config entry the inline-broker path starts from under each
/// key: the broker address under the bootstrap key, the extracted
/// statement options elsewhere.
pub open spec fn inline_entry(
    opts: Seq<crate::options::StmtOptionView>,
    broker: Seq<char>,
    k: Seq<char>,
) -> Option<crate::options::StringOrSecretView> {
    if k == "bootstrap.servers"@ {
        Some(crate::options::StringOrSecretView::Plain(broker))
    } else {
        crate::kafka::extracted_entry(opts, k)
    }
}

/// When the kind step has everything it needs: unique option keys and,
/// per kind, well-shaped config options, a resolvable connection
/// reference, a parseable broker list, or a region and well-shaped cloud
/// options.
pub open spec fn kind_inputs_ok(catalog: CatalogSnapshot, stmt: CreateSourceStatement) -> bool {
    &&& unique_opt_keys(stmt_opts(stmt))
    &&& match stmt.connection {
        CreateSourceConnection::Kafka { connection: conn_ref, topic: _ } => {
            &&& crate::kafka::extract_ok(stmt_opts(stmt))
            &&& match conn_ref {
                crate::ast::KafkaConnectionRef::Reference { name } => crate::catalog::cat_lookup(
                    catalog.items@,
                    name@,
                ) matches Some(Connection::Kafka(_)),
                crate::ast::KafkaConnectionRef::Inline { broker } => {
                    &&& crate::connections::kafka_security_entries_ok(
                        |k: Seq<char>| inline_entry(stmt_opts(stmt), broker@, k),
                    )
                    &&& crate::kafka::brokers_of(broker@) is Some
                },
            }
        },
        CreateSourceConnection::ObjectStore => crate::cloud::aws_options_ok(
            None,
            stmt_opts(stmt),
        ),
        CreateSourceConnection::StreamShipping { arn } => match crate::cloud::arn_parse_of(arn@) {
            Some(Some(reg)) => crate::cloud::aws_options_ok(Some(reg), stmt_opts(stmt)),
            _ => false,
        },
        CreateSourceConnection::LogicalReplication { connection, publication: _, details: _ }
            => crate::catalog::cat_lookup(catalog.items@, connection@) matches Some(
            Connection::Postgres(_),
        ),
        CreateSourceConnection::Other => true,
    }
}

/// The failure a dead or wrong-kind connection reference produces.
pub open spec fn reference_failure(
    catalog: CatalogSnapshot,
    name: Seq<char>,
    want: ConnectionKind,
    r: Step,
) -> bool {
    match crate::catalog::cat_lookup(catalog.items@, name) {
        None => r matches Step::Failed(PurifyError::UnknownCatalogItem { name: n }) && n@ == name,
        Some(c0) => crate::catalog::spec_kind_of(c0) != want && (r matches Step::Failed(
            PurifyError::WrongConnectionKind { name: n, expected },
        ) && n@ == name && expected == want),
    }
}

/// What the run does when the kind step's inputs are in order: the one
/// external call the kind determines, with its payload pinned to the
/// statement and the catalog — or, for a kind with no external need,
/// straight to format resolution.
pub open spec fn kind_request_matches(
    catalog: CatalogSnapshot,
    stmt: CreateSourceStatement,
    connection_context: ConnectionContext,
    r: Step,
) -> bool {
    match stmt.connection {
        CreateSourceConnection::Kafka { connection: conn_ref, topic } => r matches Step::Request(
            p,
            a,
        ) && {
            &&& p.spec_decl() == stmt
            &&& p.spec_phase() == Phase::AwaitConsumer
            &&& p.spec_catalog() == catalog
            &&& a matches Action::CreateConsumer { connection: c, options: m, topic: t, log_level: l }
            &&& t@ == topic@
            &&& l == connection_context.librdkafka_log_level
            &&& match conn_ref {
                crate::ast::KafkaConnectionRef::Reference { name } => {
                    &&& (crate::catalog::cat_lookup(catalog.items@, name@) matches Some(
                        Connection::Kafka(c0),
                    ) && c@ == c0@)
                    &&& forall|k: Seq<char>| #[trigger]
                        m.spec_get(k) == crate::kafka::extracted_entry(stmt_opts(stmt), k)
                },
                crate::ast::KafkaConnectionRef::Inline { broker } => {
                    &&& crate::kafka::brokers_of(broker@) == Some(
                        c.brokers@.map_values(|s: String| s@),
                    )
                    &&& crate::connections::kafka_security_from_entries(
                        c.security,
                        |k: Seq<char>| inline_entry(stmt_opts(stmt), broker@, k),
                    )
                    &&& forall|k: Seq<char>| #[trigger]
                        m.spec_get(k) == (if crate::connections::kafka_consumed_key(c, k) {
                            None::<crate::options::StringOrSecretView>
                        } else {
                            inline_entry(stmt_opts(stmt), broker@, k)
                        })
                },
            }
        },
        CreateSourceConnection::ObjectStore => r matches Step::Request(p, a) && {
            &&& p.spec_decl() == stmt
            &&& p.spec_phase() == Phase::AwaitCloudValidation
            &&& p.spec_catalog() == catalog
            &&& a matches Action::ValidateCloudCredentials { config, external_id_prefix }
            &&& crate::cloud::aws_config_matches(config, None, stmt_opts(stmt))
            &&& opt_str_view(external_id_prefix) == opt_str_view(
                connection_context.aws_external_id_prefix,
            )
        },
        CreateSourceConnection::StreamShipping { arn } => r matches Step::Request(p, a) && {
            &&& p.spec_decl() == stmt
            &&& p.spec_phase() == Phase::AwaitCloudValidation
            &&& p.spec_catalog() == catalog
            &&& a matches Action::ValidateCloudCredentials { config, external_id_prefix }
            &&& (match crate::cloud::arn_parse_of(arn@) {
                Some(Some(reg)) => crate::cloud::aws_config_matches(
                    config,
                    Some(reg),
                    stmt_opts(stmt),
                ),
                _ => false,
            })
            &&& opt_str_view(external_id_prefix) == opt_str_view(
                connection_context.aws_external_id_prefix,
            )
        },
        CreateSourceConnection::LogicalReplication { connection: name, publication, details: _ }
            => r matches Step::Request(p, a) && {
            &&& p.spec_decl() == stmt
            &&& p.spec_phase() == Phase::AwaitPublicationInfo
            &&& p.spec_catalog() == catalog
            &&& a matches Action::IntrospectPublication { connection: c, publication: pb }
            &&& (crate::catalog::cat_lookup(catalog.items@, name@) matches Some(
                Connection::Postgres(c0),
            ) && c@ == c0@)
            &&& pb@ == publication@
        },
        CreateSourceConnection::Other => resolves_formats(catalog, stmt, r),
    }
}

/// How format resolution must answer, as a function of the catalog and
/// the declaration alone: reject key/value off brokers, pass an absent
/// format through, and otherwise act on the first slot that needs
/// anything — key before value.
pub open spec fn resolves_formats(
    catalog: CatalogSnapshot,
    decl: CreateSourceStatement,
    r: Step,
) -> bool {
    if decl.format is KeyValue && !(decl.connection is Kafka) {
        r matches Step::Failed(e) && e is KeyValueFormatUnsupported
    } else {
        match decl.format {
            CreateSourceFormat::Absent => r matches Step::Done(d) && d == decl,
            CreateSourceFormat::Bare(_) => slot_outcome_matches(catalog, decl, FormatSlot::Bare, r),
            CreateSourceFormat::KeyValue { .. } => slot_outcome_matches(
                catalog,
                decl,
                FormatSlot::Key,
                r,
            ),
        }
    }
}

/// The format a slot points at, by reference.
fn slot_format_ref<'a>(f: &'a CreateSourceFormat, slot: FormatSlot) -> (r: Option<&'a Format>)
    ensures
        match r {
            Some(fmt) => slot_format(*f, slot) == Some(*fmt),
            None => slot_format(*f, slot) is None,
        },
{
    match (f, slot) {
        (CreateSourceFormat::Bare(fmt), FormatSlot::Bare) => Some(fmt),
        (CreateSourceFormat::KeyValue { key, value: _ }, FormatSlot::Key) => Some(key),
        (CreateSourceFormat::KeyValue { key: _, value }, FormatSlot::Value) => Some(value),
        _ => None,
    }
}

/// Attaches a resolved Avro seed at the slot.
fn set_avro_seed_at(f: &mut CreateSourceFormat, slot: FormatSlot, seed: CsrSeedAvro) -> (ok: bool)
    ensures
        ok <==> (match slot_format(*old(f), slot) {
            Some(Format::Avro(AvroSchema::Csr { csr_connection: _ })) => true,
            _ => false,
        }),
        ok ==> (match slot_format(*old(f), slot) {
            Some(Format::Avro(AvroSchema::Csr { csr_connection: c })) => *final(f) == with_slot(
                *old(f),
                slot,
                Format::Avro(
                    AvroSchema::Csr {
                        csr_connection: crate::ast::CsrConnectionAvro { seed: Some(seed), ..c },
                    },
                ),
            ),
            _ => false,
        }),
        !ok ==> *final(f) == *old(f),
{
    let target: &mut Format = match (f, slot) {
        (CreateSourceFormat::Bare(fmt), FormatSlot::Bare) => fmt,
        (CreateSourceFormat::KeyValue { key, value: _ }, FormatSlot::Key) => key,
        (CreateSourceFormat::KeyValue { key: _, value }, FormatSlot::Value) => value,
        _ => {
            return false;
        },
    };
    match target {
        Format::Avro(AvroSchema::Csr { csr_connection }) => {
            csr_connection.seed = Some(seed);
            true
        },
        _ => false,
    }
}

/// Attaches a resolved protobuf seed at the slot.
fn set_proto_seed_at(f: &mut CreateSourceFormat, slot: FormatSlot, seed: CsrSeedProtobuf) -> (ok:
    bool)
    ensures
        ok <==> (match slot_format(*old(f), slot) {
            Some(Format::Protobuf(ProtobufSchema::Csr { csr_connection: _ })) => true,
            _ => false,
        }),
        ok ==> (match slot_format(*old(f), slot) {
            Some(Format::Protobuf(ProtobufSchema::Csr { csr_connection: c })) => *final(f)
                == with_slot(
                *old(f),
                slot,
                Format::Protobuf(
                    ProtobufSchema::Csr {
                        csr_connection: crate::ast::CsrConnectionProtobuf {
                            seed: Some(seed),
                            ..c
                        },
                    },
                ),
            ),
            _ => false,
        }),
        !ok ==> *final(f) == *old(f),
{
    let target: &mut Format = match (f, slot) {
        (CreateSourceFormat::Bare(fmt), FormatSlot::Bare) => fmt,
        (CreateSourceFormat::KeyValue { key, value: _ }, FormatSlot::Key) => key,
        (CreateSourceFormat::KeyValue { key: _, value }, FormatSlot::Value) => value,
        _ => {
            return false;
        },
    };
    match target {
        Format::Protobuf(ProtobufSchema::Csr { csr_connection }) => {
            csr_connection.seed = Some(seed);
            true
        },
        _ => false,
    }
}

/// Replaces an Avro file reference at the slot by literal schema text.
fn set_avro_inline_at(f: &mut CreateSourceFormat, slot: FormatSlot, text: String) -> (ok: bool)
    ensures
        ok <==> (match slot_format(*old(f), slot) {
            Some(Format::Avro(AvroSchema::InlineSchema { schema: _ })) => true,
            _ => false,
        }),
        ok ==> *final(f) == with_slot(
            *old(f),
            slot,
            Format::Avro(AvroSchema::InlineSchema { schema: SchemaSource::Inline(text) }),
        ),
        !ok ==> *final(f) == *old(f),
{
    let target: &mut Format = match (f, slot) {
        (CreateSourceFormat::Bare(fmt), FormatSlot::Bare) => fmt,
        (CreateSourceFormat::KeyValue { key, value: _ }, FormatSlot::Key) => key,
        (CreateSourceFormat::KeyValue { key: _, value }, FormatSlot::Value) => value,
        _ => {
            return false;
        },
    };
    match target {
        Format::Avro(AvroSchema::InlineSchema { schema }) => {
            *schema = SchemaSource::Inline(text);
            true
        },
        _ => false,
    }
}

/// Replaces a protobuf file reference at the slot by a literal byte
/// string.
fn set_proto_inline_at(f: &mut CreateSourceFormat, slot: FormatSlot, text: String) -> (ok: bool)
    ensures
        ok <==> (match slot_format(*old(f), slot) {
            Some(Format::Protobuf(ProtobufSchema::InlineSchema { message_name: _, schema: _ }))
                => true,
            _ => false,
        }),
        ok ==> (match slot_format(*old(f), slot) {
            Some(Format::Protobuf(ProtobufSchema::InlineSchema { message_name: m, schema: _ }))
                => *final(f) == with_slot(
                *old(f),
                slot,
                Format::Protobuf(
                    ProtobufSchema::InlineSchema {
                        message_name: m,
                        schema: SchemaSource::Inline(text),
                    },
                ),
            ),
            _ => false,
        }),
        !ok ==> *final(f) == *old(f),
{
    let target: &mut Format = match (f, slot) {
        (CreateSourceFormat::Bare(fmt), FormatSlot::Bare) => fmt,
        (CreateSourceFormat::KeyValue { key, value: _ }, FormatSlot::Key) => key,
        (CreateSourceFormat::KeyValue { key: _, value }, FormatSlot::Value) => value,
        _ => {
            return false;
        },
    };
    match target {
        Format::Protobuf(ProtobufSchema::InlineSchema { message_name: _, schema }) => {
            *schema = SchemaSource::Inline(text);
            true
        },
        _ => false,
    }
}

/// Checks the legality of CSV header columns for the source kind: header
/// columns require an object-store source and at least one column name.
pub fn validate_csv_columns(columns: &CsvColumns, conn: &CreateSourceConnection) -> (r: Result<
    (),
    PurifyError,
>)
    ensures
        r is Ok <==> (match *columns {
            CsvColumns::Header { names } => *conn is ObjectStore && names@.len() > 0,
            CsvColumns::Count(_) => true,
        }),
        match r {
            Ok(()) => true,
            Err(e) => match *columns {
                CsvColumns::Header { names } => if !(*conn is ObjectStore) {
                    e is CsvHeaderUnsupported
                } else {
                    names@.len() == 0 && e is CsvHeaderColumnsRequired
                },
                CsvColumns::Count(_) => false,
            },
        },
{
    match columns {
        CsvColumns::Header { names } => {
            match conn {
                CreateSourceConnection::ObjectStore => {
                    if names.len() == 0 {
                        Err(PurifyError::CsvHeaderColumnsRequired)
                    } else {
                        Ok(())
                    }
                },
                _ => Err(PurifyError::CsvHeaderUnsupported),
            }
        },
        CsvColumns::Count(_) => Ok(()),
    }
}


/// Whether two declarations agree on everything but the format: format
/// resolution never touches the kind, the envelope or the options.
pub open spec fn same_but_format(a: CreateSourceStatement, b: CreateSourceStatement) -> bool {
    &&& a.connection == b.connection
    &&& a.envelope == b.envelope
    &&& a.with_options == b.with_options
}

/// What a successful offset translation leaves behind: the time-based
/// entry dropped, every other option kept in order, and a `start_offset`
/// entry holding the broker's offsets appended.
pub open spec fn offsets_rewritten(
    before: CreateSourceStatement,
    after: CreateSourceStatement,
    offsets: Seq<i64>,
) -> bool {
    after.with_options@.map_values(|o: StmtOption| o@) == before.with_options@.map_values(
        |o: StmtOption| o@,
    ).filter(|o: crate::options::StmtOptionView| crate::kafka::not_time_offset(o)).push(
        crate::options::StmtOptionView {
            key: "start_offset"@,
            value: crate::options::OptionValueView::NumArray(offsets),
        },
    )
}

/// Which slots a slot's completion still leaves to resolve, and whether
/// they are all already resolved.
pub open spec fn remaining_purified(decl: CreateSourceStatement, slot: FormatSlot) -> bool {
    match slot {
        FormatSlot::Bare => match slot_format(decl.format, FormatSlot::Bare) {
            Some(f) => single_format_purified(f, decl.connection),
            None => false,
        },
        FormatSlot::Key => (match slot_format(decl.format, FormatSlot::Key) {
            Some(f) => single_format_purified(f, decl.connection),
            None => false,
        }) && (match slot_format(decl.format, FormatSlot::Value) {
            Some(f) => single_format_purified(f, decl.connection),
            None => false,
        }),
        FormatSlot::Value => match slot_format(decl.format, FormatSlot::Value) {
            Some(f) => single_format_purified(f, decl.connection),
            None => false,
        },
    }
}

/// An ordering of slots for termination: the key slot is resolved before
/// the value slot.
pub open spec fn slot_rank(slot: FormatSlot) -> int {
    match slot {
        FormatSlot::Bare => 1,
        FormatSlot::Key => 2,
        FormatSlot::Value => 1,
    }
}

/// The topic of a broker-backed declaration.
fn kafka_topic(decl: &CreateSourceStatement) -> (r: Option<String>)
    ensures
        match decl.connection {
            CreateSourceConnection::Kafka { connection: _, topic } => r matches Some(t) && t@
                == topic@,
            _ => r is None,
        },
{
    match &decl.connection {
        CreateSourceConnection::Kafka { connection: _, topic } => Some(topic.clone()),
        _ => None,
    }
}

/// What one slot needs before it can be resolved.
enum SlotPlan {
    /// Nothing: the slot is already resolved (or needs no resolution).
    Finished,
    /// The run fails with this error.
    Fail(PurifyError),
    /// Connect to the registry for an Avro seed.
    ConnectAvro(CsrConnection),
    /// Connect to the registry for a protobuf seed.
    ConnectProto(CsrConnection),
    /// Read this file as schema text.
    ReadText(String),
    /// Read this file as raw schema bytes.
    ReadBytes(String),
}

/// Whether an executed plan is the one the specification calls for.
spec fn plan_matches(r: SlotPlan, s: SpecSlotPlan) -> bool {
    match s {
        SpecSlotPlan::Finished => r is Finished,
        SpecSlotPlan::FailCsrNotKafka => r matches SlotPlan::Fail(e) && e is CsrRequiresKafka,
        SpecSlotPlan::FailCsvUnsupported => r matches SlotPlan::Fail(e) && e
            is CsvHeaderUnsupported,
        SpecSlotPlan::FailCsvEmpty => r matches SlotPlan::Fail(e) && e is CsvHeaderColumnsRequired,
        SpecSlotPlan::FailUnknownItem(n) => r matches SlotPlan::Fail(
            PurifyError::UnknownCatalogItem { name },
        ) && name@ == n,
        SpecSlotPlan::FailWrongKind(n) => r matches SlotPlan::Fail(
            PurifyError::WrongConnectionKind { name, expected },
        ) && name@ == n && expected == ConnectionKind::SchemaRegistry,
        SpecSlotPlan::FailInlineCsr => r matches SlotPlan::Fail(e) && e.spec_kind()
            == crate::errors::ErrorKind::Validation,
        SpecSlotPlan::ConnectAvro(v) => r matches SlotPlan::ConnectAvro(c) && c@ == v,
        SpecSlotPlan::ConnectProto(v) => r matches SlotPlan::ConnectProto(c) && c@ == v,
        SpecSlotPlan::ReadText(p) => r matches SlotPlan::ReadText(q) && q@ == p,
        SpecSlotPlan::ReadBytes(p) => r matches SlotPlan::ReadBytes(q) && q@ == p,
    }
}

/// Decides what one slot needs, resolving the registry connection where
/// one is named. An already-seeded registry format needs nothing: planning
/// it is a no-op with no external call.
fn plan_slot(catalog: &CatalogSnapshot, decl: &CreateSourceStatement, slot: FormatSlot) -> (r:
    SlotPlan)
    requires
        kind_step_done(*decl),
        slot_inv(*decl, slot),
        decl.format is KeyValue ==> decl.connection is Kafka,
    ensures
        match r {
            SlotPlan::Finished => match slot_format(decl.format, slot) {
                Some(f) => single_format_purified(f, decl.connection),
                None => false,
            },
            SlotPlan::ConnectAvro(_) => decl.connection is Kafka && (match slot_format(
                decl.format,
                slot,
            ) {
                Some(Format::Avro(AvroSchema::Csr { csr_connection: c })) => c.seed is None,
                _ => false,
            }),
            SlotPlan::ConnectProto(_) => decl.connection is Kafka && (match slot_format(
                decl.format,
                slot,
            ) {
                Some(Format::Protobuf(ProtobufSchema::Csr { csr_connection: c })) => c.seed
                    is None,
                _ => false,
            }),
            SlotPlan::ReadText(_) => match slot_format(decl.format, slot) {
                Some(Format::Avro(AvroSchema::InlineSchema { schema })) => schema is File,
                _ => false,
            },
            SlotPlan::ReadBytes(_) => match slot_format(decl.format, slot) {
                Some(
                    Format::Protobuf(ProtobufSchema::InlineSchema { message_name: _, schema }),
                ) => schema is File,
                _ => false,
            },
            SlotPlan::Fail(_) => true,
        },
        (match slot_format(decl.format, slot) {
            Some(f) => single_format_purified(f, decl.connection),
            None => false,
        }) ==> r is Finished,
        plan_matches(r, spec_plan_slot(*catalog, *decl, slot)),
{
    let fmt: &Format = match slot_format_ref(&decl.format, slot) {
        Some(f) => f,
        None => {
            return unreached();
        },
    };
    let is_kafka = match &decl.connection {
        CreateSourceConnection::Kafka { .. } => true,
        _ => false,
    };
    match fmt {
        Format::Avro(AvroSchema::Csr { csr_connection }) => {
            if !is_kafka {
                return SlotPlan::Fail(PurifyError::CsrRequiresKafka);
            }
            if csr_connection.seed.is_some() {
                return SlotPlan::Finished;
            }
            let ghost wopts = csr_connection.with_options@.map_values(|o: StmtOption| o@);
            match &csr_connection.connection {
                CsrConnectionRef::Inline { url } => {
                    match crate::csr::generate_ccsr_connection(
                        url.as_str(),
                        &csr_connection.with_options,
                    ) {
                        Ok(c) => {
                            proof {
                                assert(c@ == crate::csr::ccsr_connection_view_of(c.url@, wopts));
                                assert(spec_csr_plan(
                                    *catalog,
                                    csr_connection.connection,
                                    wopts,
                                    true,
                                ) == SpecSlotPlan::ConnectAvro(c@));
                            }
                            SlotPlan::ConnectAvro(c)
                        },
                        Err(e) => SlotPlan::Fail(e),
                    }
                },
                CsrConnectionRef::Reference { name } => {
                    match catalog.resolve_connection(
                        name.as_str(),
                        ConnectionKind::SchemaRegistry,
                    ) {
                        Ok(Connection::Csr(c)) => SlotPlan::ConnectAvro(c),
                        Ok(_) => unreached(),
                        Err(e) => SlotPlan::Fail(e),
                    }
                },
            }
        },
        Format::Protobuf(ProtobufSchema::Csr { csr_connection }) => {
            if !is_kafka {
                return SlotPlan::Fail(PurifyError::CsrRequiresKafka);
            }
            if csr_connection.seed.is_some() {
                return SlotPlan::Finished;
            }
            let ghost wopts = csr_connection.with_options@.map_values(|o: StmtOption| o@);
            match &csr_connection.connection {
                CsrConnectionRef::Inline { url } => {
                    match crate::csr::generate_ccsr_connection(
                        url.as_str(),
                        &csr_connection.with_options,
                    ) {
                        Ok(c) => {
                            proof {
                                assert(c@ == crate::csr::ccsr_connection_view_of(c.url@, wopts));
                                assert(spec_csr_plan(
                                    *catalog,
                                    csr_connection.connection,
                                    wopts,
                                    false,
                                ) == SpecSlotPlan::ConnectProto(c@));
                            }
                            SlotPlan::ConnectProto(c)
                        },
                        Err(e) => SlotPlan::Fail(e),
                    }
                },
                CsrConnectionRef::Reference { name } => {
                    match catalog.resolve_connection(
                        name.as_str(),
                        ConnectionKind::SchemaRegistry,
                    ) {
                        Ok(Connection::Csr(c)) => SlotPlan::ConnectProto(c),
                        Ok(_) => unreached(),
                        Err(e) => SlotPlan::Fail(e),
                    }
                },
            }
        },
        Format::Avro(AvroSchema::InlineSchema { schema }) => {
            match schema {
                SchemaSource::File(path) => SlotPlan::ReadText(path.clone()),
                SchemaSource::Inline(_) => SlotPlan::Finished,
            }
        },
        Format::Protobuf(ProtobufSchema::InlineSchema { message_name: _, schema }) => {
            match schema {
                SchemaSource::File(path) => SlotPlan::ReadBytes(path.clone()),
                SchemaSource::Inline(_) => SlotPlan::Finished,
            }
        },
        Format::Csv { columns } => {
            match validate_csv_columns(columns, &decl.connection) {
                Ok(()) => SlotPlan::Finished,
                Err(e) => SlotPlan::Fail(e),
            }
        },
        Format::Bytes => SlotPlan::Finished,
        Format::Regex(_) => SlotPlan::Finished,
        Format::Json => SlotPlan::Finished,
        Format::Text => SlotPlan::Finished,
    }
}

/// Starts resolving one slot: plans its external need, and either asks the
/// driver for it or moves on.
fn start_slot(
    catalog: CatalogSnapshot,
    now: u64,
    ctx: ConnectionContext,
    decl: CreateSourceStatement,
    slot: FormatSlot,
) -> (r: Step)
    requires
        kind_step_done(decl),
        slot_inv(decl, slot),
        decl.format is KeyValue ==> decl.connection is Kafka,
    ensures
        r matches Step::Done(d) ==> statement_purified(d),
        r matches Step::Request(p, _) ==> p.inv(),
        remaining_purified(decl, slot) ==> (r matches Step::Done(d) && d == decl),
        r matches Step::Done(d) ==> same_but_format(d, decl),
        r matches Step::Request(p, _) ==> same_but_format(p.spec_decl(), decl),
        slot_outcome_matches(catalog, decl, slot, r),
    decreases slot_rank(slot) * 2 + 1,
{
    let plan = plan_slot(&catalog, &decl, slot);
    match plan {
        SlotPlan::Finished => finish_slot(catalog, now, ctx, decl, slot),
        SlotPlan::Fail(e) => Step::Failed(e),
        SlotPlan::ConnectAvro(c) => Step::Request(
            Purifier { catalog, now, ctx, decl, phase: Phase::AwaitCsrClientAvro { slot } },
            Action::ConnectCsr { connection: c },
        ),
        SlotPlan::ConnectProto(c) => Step::Request(
            Purifier { catalog, now, ctx, decl, phase: Phase::AwaitCsrClientProto { slot } },
            Action::ConnectCsr { connection: c },
        ),
        SlotPlan::ReadText(path) => Step::Request(
            Purifier { catalog, now, ctx, decl, phase: Phase::AwaitFileText { slot } },
            Action::ReadFileText { path },
        ),
        SlotPlan::ReadBytes(path) => Step::Request(
            Purifier { catalog, now, ctx, decl, phase: Phase::AwaitFileBytes { slot } },
            Action::ReadFileBytes { path },
        ),
    }
}

/// Finishes one resolved slot: hands the statement back after the last
/// slot, or moves from the key slot to the value slot.
fn finish_slot(
    catalog: CatalogSnapshot,
    now: u64,
    ctx: ConnectionContext,
    decl: CreateSourceStatement,
    slot: FormatSlot,
) -> (r: Step)
    requires
        kind_step_done(decl),
        slot_inv(decl, slot),
        decl.format is KeyValue ==> decl.connection is Kafka,
        match slot_format(decl.format, slot) {
            Some(f) => single_format_purified(f, decl.connection),
            None => false,
        },
    ensures
        r matches Step::Done(d) ==> statement_purified(d),
        r matches Step::Request(p, _) ==> p.inv(),
        (slot is Bare || slot is Value) ==> (r matches Step::Done(d) && d == decl),
        (slot is Key && remaining_purified(decl, FormatSlot::Value)) ==> (r matches Step::Done(d)
            && d == decl),
        r matches Step::Done(d) ==> same_but_format(d, decl),
        r matches Step::Request(p, _) ==> same_but_format(p.spec_decl(), decl),
        slot is Key ==> slot_outcome_matches(catalog, decl, FormatSlot::Value, r),
        !(slot is Key) ==> (r matches Step::Done(d) && d == decl),
    decreases slot_rank(slot) * 2,
{
    match slot {
        FormatSlot::Bare => Step::Done(decl),
        FormatSlot::Value => Step::Done(decl),
        FormatSlot::Key => start_slot(catalog, now, ctx, decl, FormatSlot::Value),
    }
}

/// Resolves the format half of a declaration whose kind step is complete.
///
/// Rejects a key/value format on anything but a broker-backed source, and
/// resolves the key format before the value format.
///
/// Resolution is idempotent: on a declaration whose formats are already
/// fully resolved — every registry seed present, every file reference
/// already literal — it issues no external call and hands the statement
/// back unchanged.
pub fn purify_source_format(
    catalog: CatalogSnapshot,
    now: u64,
    connection_context: ConnectionContext,
    decl: CreateSourceStatement,
) -> (r: Step)
    requires
        kind_step_done(decl),
    ensures
        r matches Step::Done(d) ==> statement_purified(d),
        r matches Step::Request(p, _) ==> p.inv(),
        r matches Step::Done(d) ==> same_but_format(d, decl),
        r matches Step::Request(p, _) ==> same_but_format(p.spec_decl(), decl),
        format_purified(decl.format, decl.connection) ==> (r matches Step::Done(d) && d == decl),
        (decl.format is KeyValue && !(decl.connection is Kafka)) ==> (r matches Step::Failed(e)
            && e is KeyValueFormatUnsupported),
        resolves_formats(catalog, decl, r),
{
    let is_kv = match &decl.format {
        CreateSourceFormat::KeyValue { .. } => true,
        _ => false,
    };
    let is_absent = match &decl.format {
        CreateSourceFormat::Absent => true,
        _ => false,
    };
    let is_kafka = match &decl.connection {
        CreateSourceConnection::Kafka { .. } => true,
        _ => false,
    };
    if is_kv && !is_kafka {
        return Step::Failed(PurifyError::KeyValueFormatUnsupported);
    }
    if is_absent {
        return Step::Done(decl);
    }
    let slot = if is_kv {
        FormatSlot::Key
    } else {
        FormatSlot::Bare
    };
    start_slot(catalog, now, connection_context, decl, slot)
}

/// Purifies a source declaration, removing its dependencies on external
/// state: the kind-specific state is resolved first, then the formats.
///
/// The catalog snapshot is read-only; `now` is the logical instant used to
/// translate time-based offset requests. The returned [`Step`] either
/// hands back the fully purified statement, asks the driver for one
/// external call, or reports the first error — after which the declaration
/// is discarded.
///
/// The kind step is a function of the statement and the catalog: when its
/// inputs are in order ([`kind_inputs_ok`]) the step issues exactly the
/// call the kind determines, with the payload pinned to the statement
/// ([`kind_request_matches`]); otherwise it fails without asking for
/// anything.
#[verifier::rlimit(100)]
#[verifier::spinoff_prover]
pub fn purify_create_source(
    catalog: CatalogSnapshot,
    now: u64,
    stmt: CreateSourceStatement,
    connection_context: ConnectionContext,
) -> (r: Step)
    ensures
        r matches Step::Done(d) ==> statement_purified(d),
        r matches Step::Request(p, _) ==> p.inv(),
        r matches Step::Done(_) ==> stmt.connection is Other,
        r matches Step::Request(_, _) ==> kind_inputs_ok(catalog, stmt),
        kind_inputs_ok(catalog, stmt) ==> kind_request_matches(
            catalog,
            stmt,
            connection_context,
            r,
        ),
        !unique_opt_keys(stmt_opts(stmt)) ==> (r matches Step::Failed(e) && e is DuplicateOption),
        (match stmt.connection {
            CreateSourceConnection::Kafka {
                connection: crate::ast::KafkaConnectionRef::Reference { name },
                topic: _,
            } => (unique_opt_keys(stmt_opts(stmt)) && crate::kafka::extract_ok(stmt_opts(stmt))
                && !(crate::catalog::cat_lookup(catalog.items@, name@) matches Some(
                Connection::Kafka(_),
            ))) ==> reference_failure(catalog, name@, ConnectionKind::Kafka, r),
            CreateSourceConnection::LogicalReplication { connection: name, publication: _, details: _ }
                => (unique_opt_keys(stmt_opts(stmt)) && !(crate::catalog::cat_lookup(
                catalog.items@,
                name@,
            ) matches Some(Connection::Postgres(_)))) ==> reference_failure(
                catalog,
                name@,
                ConnectionKind::Postgres,
                r,
            ),
            _ => true,
        }),
{
    if let Err(e) = crate::options::check_unique_keys(&stmt.with_options) {
        proof {
            let (i, j) = choose|i: int, j: int|
                0 <= i < j < stmt.with_options@.len() && stmt.with_options@[i]@.key
                    == stmt.with_options@[j]@.key;
            assert(stmt_opts(stmt)[i].key == stmt_opts(stmt)[j].key);
        }
        return Step::Failed(e);
    }
    proof {
        let so = stmt_opts(stmt);
        assert forall|i: int, j: int| 0 <= i < j < so.len() implies so[i].key != so[j].key by {
            assert(so[i] == stmt.with_options@[i]@);
            assert(so[j] == stmt.with_options@[j]@);
        }
    }
    let CreateSourceStatement { connection, format, envelope, with_options } = stmt;
    match connection {
        CreateSourceConnection::Kafka { connection: conn_ref, topic } => {
            let mut conn_options = match crate::kafka::extract_config(&with_options) {
                Ok(m) => m,
                Err(e) => {
                    return Step::Failed(e);
                },
            };
            let kconn: KafkaConnection = match &conn_ref {
                crate::ast::KafkaConnectionRef::Reference { name } => {
                    match catalog.resolve_connection(name.as_str(), ConnectionKind::Kafka) {
                        Ok(Connection::Kafka(c)) => c,
                        Ok(_) => unreached(),
                        Err(e) => {
                            return Step::Failed(e);
                        },
                    }
                },
                crate::ast::KafkaConnectionRef::Inline { broker } => {
                    conn_options.insert(
                        "bootstrap.servers".to_owned(),
                        StringOrSecret::Plain(broker.clone()),
                    );
                    let ghost m2 = conn_options;
                    proof {
                        let so = stmt_opts(stmt);
                        crate::connections::lemma_kafka_keys_distinct();
                        assert forall|k: Seq<char>| #[trigger]
                            m2.spec_get(k) == inline_entry(so, broker@, k) by {
                            if k == "bootstrap.servers"@ {
                            } else {
                            }
                        }
                        assert(crate::connections::kafka_security_input_ok(m2)
                            == crate::connections::kafka_security_entries_ok(
                            |k: Seq<char>| inline_entry(so, broker@, k),
                        ));
                        assert(crate::connections::kafka_bootstrap_ok(m2) == (
                        crate::kafka::brokers_of(broker@) is Some));
                    }
                    match KafkaConnection::from_options(&mut conn_options) {
                        Ok(c) => {
                            proof {
                                let so = stmt_opts(stmt);
                                assert(crate::connections::kafka_security_from_entries(
                                    c.security,
                                    |k: Seq<char>| inline_entry(so, broker@, k),
                                ));
                                assert forall|k: Seq<char>| #[trigger]
                                    conn_options.spec_get(k) == (
                                if crate::connections::kafka_consumed_key(c, k) {
                                    None::<crate::options::StringOrSecretView>
                                } else {
                                    inline_entry(so, broker@, k)
                                }) by {
                                    if crate::connections::kafka_consumed_key(c, k) {
                                    } else {
                                    }
                                }
                            }
                            c
                        },
                        Err(e) => {
                            return Step::Failed(e);
                        },
                    }
                },
            };
            let action = Action::CreateConsumer {
                connection: kconn,
                options: conn_options,
                topic: topic.clone(),
                log_level: connection_context.librdkafka_log_level,
            };
            let decl = CreateSourceStatement {
                connection: CreateSourceConnection::Kafka { connection: conn_ref, topic },
                format,
                envelope,
                with_options,
            };
            Step::Request(
                Purifier {
                    catalog,
                    now,
                    ctx: connection_context,
                    decl,
                    phase: Phase::AwaitConsumer,
                },
                action,
            )
        },
        CreateSourceConnection::ObjectStore => {
            let config = match crate::cloud::aws_config_from_options(&with_options, None) {
                Ok(c) => c,
                Err(e) => {
                    return Step::Failed(e);
                },
            };
            let external_id_prefix = match &connection_context.aws_external_id_prefix {
                Some(s) => Some(s.clone()),
                None => None,
            };
            let decl = CreateSourceStatement {
                connection: CreateSourceConnection::ObjectStore,
                format,
                envelope,
                with_options,
            };
            Step::Request(
                Purifier {
                    catalog,
                    now,
                    ctx: connection_context,
                    decl,
                    phase: Phase::AwaitCloudValidation,
                },
                Action::ValidateCloudCredentials { config, external_id_prefix },
            )
        },
        CreateSourceConnection::StreamShipping { arn } => {
            let region = match crate::cloud::arn_region(arn.as_str()) {
                Ok(r) => r,
                Err(e) => {
                    return Step::Failed(e);
                },
            };
            let config = match crate::cloud::aws_config_from_options(
                &with_options,
                Some(region),
            ) {
                Ok(c) => c,
                Err(e) => {
                    return Step::Failed(e);
                },
            };
            let external_id_prefix = match &connection_context.aws_external_id_prefix {
                Some(s) => Some(s.clone()),
                None => None,
            };
            let decl = CreateSourceStatement {
                connection: CreateSourceConnection::StreamShipping { arn },
                format,
                envelope,
                with_options,
            };
            Step::Request(
                Purifier {
                    catalog,
                    now,
                    ctx: connection_context,
                    decl,
                    phase: Phase::AwaitCloudValidation,
                },
                Action::ValidateCloudCredentials { config, external_id_prefix },
            )
        },
        CreateSourceConnection::LogicalReplication { connection: conn_name, publication, details } => {
            let pg: PostgresConnection = match catalog.resolve_connection(
                conn_name.as_str(),
                ConnectionKind::Postgres,
            ) {
                Ok(Connection::Postgres(c)) => c,
                Ok(_) => unreached(),
                Err(e) => {
                    return Step::Failed(e);
                },
            };
            let action = Action::IntrospectPublication {
                connection: pg,
                publication: publication.clone(),
            };
            let decl = CreateSourceStatement {
                connection: CreateSourceConnection::LogicalReplication {
                    connection: conn_name,
                    publication,
                    details,
                },
                format,
                envelope,
                with_options,
            };
            Step::Request(
                Purifier {
                    catalog,
                    now,
                    ctx: connection_context,
                    decl,
                    phase: Phase::AwaitPublicationInfo,
                },
                action,
            )
        },
        CreateSourceConnection::Other => {
            let decl = CreateSourceStatement {
                connection: CreateSourceConnection::Other,
                format,
                envelope,
                with_options,
            };
            purify_source_format(catalog, now, connection_context, decl)
        },
    }
}

/// The broker is asked for the offsets at the translated instant, with
/// the run otherwise untouched.
pub open spec fn offsets_lookup_requested(before: Purifier, time: i64, r: Step) -> bool {
    r matches Step::Request(p, Action::LookupStartOffsets { topic, time: t2, now }) && topic@
        == spec_topic(before.spec_decl()) && t2 == time && now == before.spec_now() && p.spec_phase()
        is AwaitStartOffsets && p.spec_decl() == before.spec_decl()
}

/// How a declaration changes when its replication details are filled:
/// everything else stays, and the kind keeps its connection name and
/// publication while gaining the encoded details.
pub open spec fn lr_details_filled(
    before: CreateSourceStatement,
    after: CreateSourceStatement,
) -> bool {
    &&& after.format == before.format
    &&& after.envelope == before.envelope
    &&& after.with_options == before.with_options
    &&& match (before.connection, after.connection) {
        (
            CreateSourceConnection::LogicalReplication {
                connection: n0,
                publication: p0,
                details: _,
            },
            CreateSourceConnection::LogicalReplication {
                connection: n1,
                publication: p1,
                details,
            },
        ) => n1 == n0 && p1 == p0 && details is Some,
        _ => false,
    }
}

/// A run that failed because an external system did: a connectivity
/// error naming the system and carrying its message.
pub open spec fn connectivity_failed(r: Step, system: Seq<char>, message: String) -> bool {
    r matches Step::Failed(PurifyError::Connectivity { system: sy, message: m }) && sy@ == system
        && m == message
}

/// The topic of a broker-backed declaration, as text.
pub open spec fn spec_topic(decl: CreateSourceStatement) -> Seq<char> {
    match decl.connection {
        CreateSourceConnection::Kafka { connection: _, topic } => topic@,
        _ => Seq::empty(),
    }
}

/// The registry-backed Avro format at a slot.
pub open spec fn slot_avro(decl: CreateSourceStatement, slot: FormatSlot) -> crate::ast::CsrConnectionAvro {
    match slot_format(decl.format, slot) {
        Some(Format::Avro(AvroSchema::Csr { csr_connection })) => csr_connection,
        _ => vstd::pervasive::arbitrary(),
    }
}

/// How a declaration's format changes when an Avro seed is attached at a
/// slot: that slot keeps its connection, strategies and options and gains
/// exactly the resolved schemas; every other slot is untouched.
pub open spec fn avro_seeded(
    old_f: CreateSourceFormat,
    slot: FormatSlot,
    key: Option<Seq<char>>,
    value: Seq<char>,
    new_f: CreateSourceFormat,
) -> bool {
    &&& match (slot_format(old_f, slot), slot_format(new_f, slot)) {
        (
            Some(Format::Avro(AvroSchema::Csr { csr_connection: c0 })),
            Some(Format::Avro(AvroSchema::Csr { csr_connection: c1 })),
        ) => {
            &&& c1.connection == c0.connection
            &&& c1.key_strategy == c0.key_strategy
            &&& c1.value_strategy == c0.value_strategy
            &&& c1.with_options == c0.with_options
            &&& c1.seed matches Some(sd) && opt_str_view(sd.key_schema) == key
                && sd.value_schema@ == value
        },
        _ => false,
    }
    &&& forall|other: FormatSlot|
        other != slot ==> #[trigger] slot_format(new_f, other) == slot_format(old_f, other)
    &&& (new_f is Bare <==> old_f is Bare)
    &&& (new_f is KeyValue <==> old_f is KeyValue)
}

/// How the run answers once both Avro schemas of a slot are in hand: the
/// state-keying envelope rule decides failure; otherwise the seed is
/// attached, and either the run ends, or the value slot of a key/value
/// format is taken up next.
pub open spec fn avro_attached_outcome(
    decl: CreateSourceStatement,
    slot: FormatSlot,
    key: Option<Seq<char>>,
    value: Seq<char>,
    r: Step,
) -> bool {
    if crate::csr::is_debezium_upsert(decl.envelope) && key is None {
        r matches Step::Failed(e) && e is KeySchemaRequired
    } else {
        match slot {
            FormatSlot::Key => match r {
                Step::Done(d) => same_but_format(d, decl) && avro_seeded(
                    decl.format,
                    slot,
                    key,
                    value,
                    d.format,
                ),
                Step::Request(p, _) => same_but_format(p.spec_decl(), decl) && avro_seeded(
                    decl.format,
                    slot,
                    key,
                    value,
                    p.spec_decl().format,
                ),
                Step::Failed(e) => e.spec_kind() == crate::errors::ErrorKind::Validation,
            },
            _ => r matches Step::Done(d) && same_but_format(d, decl) && avro_seeded(
                decl.format,
                slot,
                key,
                value,
                d.format,
            ),
        }
    }
}

/// How the run answers once a slot's Avro value schema is in hand: the
/// key schema is resolved per the key reader strategy — fetched by
/// subject or id, or taken from the inline text with no fetch at all.
pub open spec fn avro_key_outcome(
    decl: CreateSourceStatement,
    slot: FormatSlot,
    value: Seq<char>,
    r: Step,
) -> bool {
    match slot_avro(decl, slot).key_strategy {
        None | Some(ReaderSchemaSelectionStrategy::Latest) => r matches Step::Request(
            p,
            Action::FetchSubject { subject },
        ) && subject@ == spec_topic(decl) + "-key"@ && (p.spec_phase() matches Phase::AwaitAvroKey {
            slot: s2,
            value_schema,
        } && s2 == slot && value_schema@ == value) && p.spec_decl() == decl,
        Some(ReaderSchemaSelectionStrategy::ById(id)) => r matches Step::Request(
            p,
            Action::FetchById { id: id2 },
        ) && id2 == id && (p.spec_phase() matches Phase::AwaitAvroKey { slot: s2, value_schema }
            && s2 == slot && value_schema@ == value) && p.spec_decl() == decl,
        Some(ReaderSchemaSelectionStrategy::Inline(raw)) => avro_attached_outcome(
            decl,
            slot,
            Some(raw@),
            value,
            r,
        ),
    }
}

/// Where a slot's protobuf key seed comes from: absent, or built from a
/// compiled descriptor set.
pub enum SpecProtoKey {
    KeyAbsent,
    KeyFrom(CompiledDescriptors),
}

/// Whether an attached key seed is the one its source calls for.
pub open spec fn proto_key_matches(
    k: Option<CsrSeedProtobufSchema>,
    source: SpecProtoKey,
) -> bool {
    match source {
        SpecProtoKey::KeyAbsent => k is None,
        SpecProtoKey::KeyFrom(d) => k matches Some(ks) && ks.message_name == d.first_message_name
            && ks.schema@ == "\\x"@ + crate::strutil::hex_of(d.serialized@),
    }
}

/// How a declaration's format changes when a protobuf seed is attached.
pub open spec fn proto_seeded(
    old_f: CreateSourceFormat,
    slot: FormatSlot,
    value: CsrSeedProtobufSchema,
    key_source: SpecProtoKey,
    new_f: CreateSourceFormat,
) -> bool {
    &&& match (slot_format(old_f, slot), slot_format(new_f, slot)) {
        (
            Some(Format::Protobuf(ProtobufSchema::Csr { csr_connection: c0 })),
            Some(Format::Protobuf(ProtobufSchema::Csr { csr_connection: c1 })),
        ) => {
            &&& c1.connection == c0.connection
            &&& c1.with_options == c0.with_options
            &&& c1.seed matches Some(sd) && sd.value == value && proto_key_matches(
                sd.key,
                key_source,
            )
        },
        _ => false,
    }
    &&& forall|other: FormatSlot|
        other != slot ==> #[trigger] slot_format(new_f, other) == slot_format(old_f, other)
    &&& (new_f is Bare <==> old_f is Bare)
    &&& (new_f is KeyValue <==> old_f is KeyValue)
}

/// How the run answers once a slot's protobuf seeds are settled: the
/// state-keying envelope rule decides failure; otherwise the seed is
/// attached and the run moves on as for Avro.
pub open spec fn proto_attached_outcome(
    decl: CreateSourceStatement,
    slot: FormatSlot,
    value: CsrSeedProtobufSchema,
    key_source: SpecProtoKey,
    r: Step,
) -> bool {
    if crate::csr::is_debezium_upsert(decl.envelope) && key_source is KeyAbsent {
        r matches Step::Failed(e) && e is KeySchemaRequired
    } else {
        match slot {
            FormatSlot::Key => match r {
                Step::Done(d) => same_but_format(d, decl) && proto_seeded(
                    decl.format,
                    slot,
                    value,
                    key_source,
                    d.format,
                ),
                Step::Request(p, _) => same_but_format(p.spec_decl(), decl) && proto_seeded(
                    decl.format,
                    slot,
                    value,
                    key_source,
                    p.spec_decl().format,
                ),
                Step::Failed(e) => e.spec_kind() == crate::errors::ErrorKind::Validation,
            },
            _ => r matches Step::Done(d) && same_but_format(d, decl) && proto_seeded(
                decl.format,
                slot,
                value,
                key_source,
                d.format,
            ),
        }
    }
}

/// How a declaration's format changes when a read schema file replaces
/// its reference: the text becomes the literal Avro schema, or the
/// byte-string encoding becomes the literal protobuf schema.
pub open spec fn file_inlined(
    old_f: CreateSourceFormat,
    slot: FormatSlot,
    text: Option<Seq<char>>,
    bytes: Option<Seq<u8>>,
    new_f: CreateSourceFormat,
) -> bool {
    &&& match (slot_format(old_f, slot), slot_format(new_f, slot)) {
        (
            Some(Format::Avro(AvroSchema::InlineSchema { schema: _ })),
            Some(Format::Avro(AvroSchema::InlineSchema { schema })),
        ) => text is Some && (schema matches SchemaSource::Inline(lit) && lit@
            == text->Some_0),
        (
            Some(Format::Protobuf(ProtobufSchema::InlineSchema { message_name: m0, schema: _ })),
            Some(Format::Protobuf(ProtobufSchema::InlineSchema { message_name: m1, schema })),
        ) => bytes is Some && m1 == m0 && (schema matches SchemaSource::Inline(lit) && lit@
            == "\\x"@ + crate::strutil::hex_of(bytes->Some_0)),
        _ => false,
    }
    &&& forall|other: FormatSlot|
        other != slot ==> #[trigger] slot_format(new_f, other) == slot_format(old_f, other)
    &&& (new_f is Bare <==> old_f is Bare)
    &&& (new_f is KeyValue <==> old_f is KeyValue)
}

/// How the run answers once a schema file's content is in hand.
pub open spec fn file_inlined_outcome(
    decl: CreateSourceStatement,
    slot: FormatSlot,
    text: Option<Seq<char>>,
    bytes: Option<Seq<u8>>,
    r: Step,
) -> bool {
    match slot {
        FormatSlot::Key => match r {
            Step::Done(d) => same_but_format(d, decl) && file_inlined(
                decl.format,
                slot,
                text,
                bytes,
                d.format,
            ),
            Step::Request(p, _) => same_but_format(p.spec_decl(), decl) && file_inlined(
                decl.format,
                slot,
                text,
                bytes,
                p.spec_decl().format,
            ),
            Step::Failed(e) => e.spec_kind() == crate::errors::ErrorKind::Validation,
        },
        _ => r matches Step::Done(d) && same_but_format(d, decl) && file_inlined(
            decl.format,
            slot,
            text,
            bytes,
            d.format,
        ),
    }
}

/// Replacing one slot's format leaves the specification's shape and the
/// other slots alone.
proof fn lemma_with_slot(f: CreateSourceFormat, slot: FormatSlot, fmt: Format)
    requires
        slot_format(f, slot) is Some,
    ensures
        slot_format(with_slot(f, slot, fmt), slot) == Some(fmt),
        forall|other: FormatSlot|
            other != slot ==> #[trigger] slot_format(with_slot(f, slot, fmt), other) == slot_format(
                f,
                other,
            ),
        with_slot(f, slot, fmt) is Bare <==> f is Bare,
        with_slot(f, slot, fmt) is KeyValue <==> f is KeyValue,
{
}

/// A copy of a reader strategy, holding the same choice.
fn clone_strategy(s: &ReaderSchemaSelectionStrategy) -> (r: ReaderSchemaSelectionStrategy)
    ensures
        r is Latest <==> s is Latest,
        r is Inline <==> s is Inline,
        r is ById <==> s is ById,
        (r matches ReaderSchemaSelectionStrategy::ById(id) ==> *s
            == ReaderSchemaSelectionStrategy::ById(id)),
        (r matches ReaderSchemaSelectionStrategy::Inline(x) ==> (s matches
            ReaderSchemaSelectionStrategy::Inline(y) && x@ == y@)),
{
    match s {
        ReaderSchemaSelectionStrategy::Latest => ReaderSchemaSelectionStrategy::Latest,
        ReaderSchemaSelectionStrategy::Inline(raw) => ReaderSchemaSelectionStrategy::Inline(
            raw.clone(),
        ),
        ReaderSchemaSelectionStrategy::ById(id) => ReaderSchemaSelectionStrategy::ById(*id),
    }
}

/// The reader strategy for the value schema at a registry-backed slot,
/// defaulting to the newest version.
fn avro_value_strategy(decl: &CreateSourceStatement, slot: FormatSlot) -> (r:
    ReaderSchemaSelectionStrategy)
    requires
        match slot_format(decl.format, slot) {
            Some(Format::Avro(AvroSchema::Csr { csr_connection: _ })) => true,
            _ => false,
        },
    ensures
        ({
            let vs = slot_avro(*decl, slot).value_strategy;
            match vs {
                None => r is Latest,
                Some(s0) => {
                    &&& (r is Latest <==> s0 is Latest)
                    &&& (r is Inline <==> s0 is Inline)
                    &&& (r is ById <==> s0 is ById)
                    &&& (r matches ReaderSchemaSelectionStrategy::ById(id) ==> s0
                        == ReaderSchemaSelectionStrategy::ById(id))
                    &&& (r matches ReaderSchemaSelectionStrategy::Inline(x) ==> (s0 matches
                        ReaderSchemaSelectionStrategy::Inline(y) && x@ == y@))
                },
            }
        }),
{
    match slot_format_ref(&decl.format, slot) {
        Some(Format::Avro(AvroSchema::Csr { csr_connection })) => {
            match &csr_connection.value_strategy {
                Some(s) => clone_strategy(s),
                None => ReaderSchemaSelectionStrategy::Latest,
            }
        },
        _ => unreached(),
    }
}

/// The reader strategy for the key schema at a registry-backed slot,
/// defaulting to the newest version.
fn avro_key_strategy(decl: &CreateSourceStatement, slot: FormatSlot) -> (r:
    ReaderSchemaSelectionStrategy)
    requires
        match slot_format(decl.format, slot) {
            Some(Format::Avro(AvroSchema::Csr { csr_connection: _ })) => true,
            _ => false,
        },
    ensures
        ({
            let ks = slot_avro(*decl, slot).key_strategy;
            match ks {
                None => r is Latest,
                Some(s0) => {
                    &&& (r is Latest <==> s0 is Latest)
                    &&& (r is Inline <==> s0 is Inline)
                    &&& (r is ById <==> s0 is ById)
                    &&& (r matches ReaderSchemaSelectionStrategy::ById(id) ==> s0
                        == ReaderSchemaSelectionStrategy::ById(id))
                    &&& (r matches ReaderSchemaSelectionStrategy::Inline(x) ==> (s0 matches
                        ReaderSchemaSelectionStrategy::Inline(y) && x@ == y@))
                },
            }
        }),
{
    match slot_format_ref(&decl.format, slot) {
        Some(Format::Avro(AvroSchema::Csr { csr_connection })) => {
            match &csr_connection.key_strategy {
                Some(s) => clone_strategy(s),
                None => ReaderSchemaSelectionStrategy::Latest,
            }
        },
        _ => unreached(),
    }
}

/// The virtual file set of a fetched subject closure.
fn proto_files_of(subjects: &Vec<ProtoSubject>) -> (files: Vec<ProtoFile>)
    ensures
        files@.len() == subjects@.len(),
        forall|i: int|
            0 <= i < subjects@.len() ==> (#[trigger] files@[i]).name@ == subjects@[i].name@
                && files@[i].content@ == subjects@[i].schema@,
{
    let mut files: Vec<ProtoFile> = Vec::new();
    let mut i: usize = 0;
    while i < subjects.len()
        invariant
            0 <= i <= subjects@.len(),
            files@.len() == i,
            forall|k: int|
                0 <= k < i ==> (#[trigger] files@[k]).name@ == subjects@[k].name@
                    && files@[k].content@ == subjects@[k].schema@,
        decreases subjects@.len() - i,
    {
        files.push(
            ProtoFile { name: subjects[i].name.clone(), content: subjects[i].schema.clone() },
        );
        i += 1;
    }
    files
}

/// A human-readable message for a hard registry failure.
fn csr_error_message(e: crate::csr::GetSchemaError) -> (m: String)
    ensures
        (e matches crate::csr::GetSchemaError::Subject(
            crate::csr::GetBySubjectError::Other { message },
        ) ==> m == message),
        (e matches crate::csr::GetSchemaError::Id(
            crate::csr::GetByIdError::Other { message },
        ) ==> m == message),
{
    match e {
        crate::csr::GetSchemaError::Subject(crate::csr::GetBySubjectError::SubjectNotFound)
            => "subject not found".to_owned(),
        crate::csr::GetSchemaError::Subject(
            crate::csr::GetBySubjectError::Other { message },
        ) => message,
        crate::csr::GetSchemaError::Id(crate::csr::GetByIdError::SchemaNotFound)
            => "schema not found".to_owned(),
        crate::csr::GetSchemaError::Id(crate::csr::GetByIdError::Other { message }) => message,
    }
}

/// Attaches the resolved Avro schemas at the slot, enforcing the
/// state-keying envelope rule, and moves on.
fn finish_avro(
    catalog: CatalogSnapshot,
    now: u64,
    ctx: ConnectionContext,
    decl: CreateSourceStatement,
    slot: FormatSlot,
    key_schema: Option<String>,
    value_schema: String,
) -> (r: Step)
    requires
        kind_step_done(decl),
        slot_inv(decl, slot),
        decl.format is KeyValue ==> decl.connection is Kafka,
        decl.connection is Kafka,
        match slot_format(decl.format, slot) {
            Some(Format::Avro(AvroSchema::Csr { csr_connection: _ })) => true,
            _ => false,
        },
    ensures
        r matches Step::Done(d) ==> statement_purified(d),
        r matches Step::Request(p, _) ==> p.inv(),
        r matches Step::Done(d) ==> same_but_format(d, decl),
        r matches Step::Request(p, _) ==> same_but_format(p.spec_decl(), decl),
        (crate::csr::is_debezium_upsert(decl.envelope) && key_schema is None) ==> (r matches
            Step::Failed(e) && e is KeySchemaRequired),
        avro_attached_outcome(decl, slot, opt_str_view(key_schema), value_schema@, r),
    decreases slot_rank(slot) * 2 + 2,
{
    let ghost key_view = opt_str_view(key_schema);
    let ghost value_view = value_schema@;
    let mut decl = decl;
    let seed = match crate::csr::build_avro_seed(&decl.envelope, key_schema, value_schema) {
        Ok(s) => s,
        Err(e) => {
            return Step::Failed(e);
        },
    };
    let ghost old_format = decl.format;
    let ok = set_avro_seed_at(&mut decl.format, slot, seed);
    proof {
        assert(ok);
        let c = slot_format(old_format, slot)->Some_0->Avro_0->csr_connection;
        let newfmt = Format::Avro(
            AvroSchema::Csr {
                csr_connection: crate::ast::CsrConnectionAvro { seed: Some(seed), ..c },
            },
        );
        lemma_with_slot(old_format, slot, newfmt);
        assert(slot_format(decl.format, slot) == Some(newfmt));
        assert(single_format_purified(newfmt, decl.connection));
    }
    finish_slot(catalog, now, ctx, decl, slot)
}

/// Resolves the key schema of a registry-backed Avro slot once the value
/// schema is in hand.
fn avro_key_stage(
    catalog: CatalogSnapshot,
    now: u64,
    ctx: ConnectionContext,
    decl: CreateSourceStatement,
    slot: FormatSlot,
    value_schema: String,
) -> (r: Step)
    requires
        kind_step_done(decl),
        slot_inv(decl, slot),
        decl.format is KeyValue ==> decl.connection is Kafka,
        decl.connection is Kafka,
        match slot_format(decl.format, slot) {
            Some(Format::Avro(AvroSchema::Csr { csr_connection: _ })) => true,
            _ => false,
        },
    ensures
        r matches Step::Done(d) ==> statement_purified(d),
        r matches Step::Request(p, _) ==> p.inv(),
        r matches Step::Done(d) ==> same_but_format(d, decl),
        r matches Step::Request(p, _) ==> same_but_format(p.spec_decl(), decl),
        avro_key_outcome(decl, slot, value_schema@, r),
    decreases slot_rank(slot) * 2 + 3,
{
    let topic = match kafka_topic(&decl) {
        Some(t) => t,
        None => {
            return unreached();
        },
    };
    let strategy = avro_key_strategy(&decl, slot);
    match strategy {
        ReaderSchemaSelectionStrategy::Latest => Step::Request(
            Purifier { catalog, now, ctx, decl, phase: Phase::AwaitAvroKey { slot, value_schema } },
            Action::FetchSubject { subject: crate::csr::key_subject(topic.as_str()) },
        ),
        ReaderSchemaSelectionStrategy::ById(id) => Step::Request(
            Purifier { catalog, now, ctx, decl, phase: Phase::AwaitAvroKey { slot, value_schema } },
            Action::FetchById { id },
        ),
        ReaderSchemaSelectionStrategy::Inline(raw) => finish_avro(
            catalog,
            now,
            ctx,
            decl,
            slot,
            Some(raw),
            value_schema,
        ),
    }
}

/// How a declaration's format changes when exactly these protobuf seeds
/// are attached at a slot.
pub open spec fn proto_seeded_exact(
    old_f: CreateSourceFormat,
    slot: FormatSlot,
    value: CsrSeedProtobufSchema,
    key: Option<CsrSeedProtobufSchema>,
    new_f: CreateSourceFormat,
) -> bool {
    &&& match (slot_format(old_f, slot), slot_format(new_f, slot)) {
        (
            Some(Format::Protobuf(ProtobufSchema::Csr { csr_connection: c0 })),
            Some(Format::Protobuf(ProtobufSchema::Csr { csr_connection: c1 })),
        ) => {
            &&& c1.connection == c0.connection
            &&& c1.with_options == c0.with_options
            &&& c1.seed == Some(CsrSeedProtobuf { value, key })
        },
        _ => false,
    }
    &&& forall|other: FormatSlot|
        other != slot ==> #[trigger] slot_format(new_f, other) == slot_format(old_f, other)
    &&& (new_f is Bare <==> old_f is Bare)
    &&& (new_f is KeyValue <==> old_f is KeyValue)
}

/// How the run answers once a slot's protobuf seeds are settled, pinned
/// to the exact seed values.
pub open spec fn proto_attached_exact(
    decl: CreateSourceStatement,
    slot: FormatSlot,
    value: CsrSeedProtobufSchema,
    key: Option<CsrSeedProtobufSchema>,
    r: Step,
) -> bool {
    if crate::csr::is_debezium_upsert(decl.envelope) && key is None {
        r matches Step::Failed(e) && e is KeySchemaRequired
    } else {
        match slot {
            FormatSlot::Key => match r {
                Step::Done(d) => same_but_format(d, decl) && proto_seeded_exact(
                    decl.format,
                    slot,
                    value,
                    key,
                    d.format,
                ),
                Step::Request(p, _) => same_but_format(p.spec_decl(), decl) && proto_seeded_exact(
                    decl.format,
                    slot,
                    value,
                    key,
                    p.spec_decl().format,
                ),
                Step::Failed(e) => e.spec_kind() == crate::errors::ErrorKind::Validation,
            },
            _ => r matches Step::Done(d) && same_but_format(d, decl) && proto_seeded_exact(
                decl.format,
                slot,
                value,
                key,
                d.format,
            ),
        }
    }
}

/// Attaches the compiled protobuf seeds at the slot, enforcing the
/// state-keying envelope rule, and moves on.
///
/// The rule that a Debezium-Upsert envelope needs a key schema is
/// enforced here for protobuf exactly as [`finish_avro`] enforces it for
/// Avro; the two paths are deliberately independent and tested
/// independently.
fn finish_proto(
    catalog: CatalogSnapshot,
    now: u64,
    ctx: ConnectionContext,
    decl: CreateSourceStatement,
    slot: FormatSlot,
    value: CsrSeedProtobufSchema,
    key: Option<CsrSeedProtobufSchema>,
) -> (r: Step)
    requires
        kind_step_done(decl),
        slot_inv(decl, slot),
        decl.format is KeyValue ==> decl.connection is Kafka,
        decl.connection is Kafka,
        match slot_format(decl.format, slot) {
            Some(Format::Protobuf(ProtobufSchema::Csr { csr_connection: _ })) => true,
            _ => false,
        },
    ensures
        r matches Step::Done(d) ==> statement_purified(d),
        r matches Step::Request(p, _) ==> p.inv(),
        r matches Step::Done(d) ==> same_but_format(d, decl),
        r matches Step::Request(p, _) ==> same_but_format(p.spec_decl(), decl),
        (crate::csr::is_debezium_upsert(decl.envelope) && key is None) ==> (r matches Step::Failed(
            e,
        ) && e is KeySchemaRequired),
        proto_attached_exact(decl, slot, value, key, r),
    decreases slot_rank(slot) * 2 + 2,
{
    let mut decl = decl;
    let upsert = match &decl.envelope {
        Some(crate::ast::Envelope::Debezium(crate::ast::DbzMode::Upsert)) => true,
        _ => false,
    };
    if upsert && key.is_none() {
        return Step::Failed(PurifyError::KeySchemaRequired);
    }
    let ghost old_format = decl.format;
    let seed = CsrSeedProtobuf { value, key };
    let ok = set_proto_seed_at(&mut decl.format, slot, seed);
    proof {
        assert(ok);
        let c = slot_format(old_format, slot)->Some_0->Protobuf_0->csr_connection;
        let newfmt = Format::Protobuf(
            ProtobufSchema::Csr {
                csr_connection: crate::ast::CsrConnectionProtobuf { seed: Some(seed), ..c },
            },
        );
        lemma_with_slot(old_format, slot, newfmt);
        assert(slot_format(decl.format, slot) == Some(newfmt));
        assert(single_format_purified(newfmt, decl.connection));
    }
    finish_slot(catalog, now, ctx, decl, slot)
}

impl Purifier {
    /// Feeds the outcome of the requested action back in and carries the
    /// run forward: to the next request, to the purified statement, or to
    /// the first error. An event that does not answer the pending request
    /// fails the run.
    #[verifier::rlimit(100)]
    #[verifier::spinoff_prover]
    pub fn step(self, event: Event) -> (r: Step)
        requires
            self.inv(),
        ensures
            r matches Step::Done(d) ==> statement_purified(d),
            r matches Step::Request(p, _) ==> p.inv(),
            (match (self.spec_phase(), event) {
                (Phase::AwaitConsumer, Event::ConsumerReady(res)) => match res {
                    Ok(()) => (match crate::options::stmt_get(
                        stmt_opts(self.spec_decl()),
                        "kafka_time_offset"@,
                    ) {
                        None => resolves_formats(self.spec_catalog(), self.spec_decl(), r),
                        Some(crate::options::OptionValueView::Num(t)) => {
                            if t >= 0 {
                                offsets_lookup_requested(self, t, r)
                            } else if self.spec_now() > i64::MAX {
                                r matches Step::Failed(e) && e is TimeOffsetOutOfRange
                            } else if self.spec_now() + t < 0 {
                                r matches Step::Failed(e) && e is TimeOffsetOutOfRange
                            } else {
                                offsets_lookup_requested(self, (self.spec_now() + t) as i64, r)
                            }
                        },
                        Some(_) => r matches Step::Failed(e) && e is OptionTypeError,
                    }),
                    Err(m) => connectivity_failed(r, "kafka"@, m),
                },
                (Phase::AwaitStartOffsets, Event::StartOffsets(res)) => match res {
                    Ok(offsets) => {
                        &&& match r {
                            Step::Done(d) => offsets_rewritten(self.spec_decl(), d, offsets@)
                                && d.connection == self.spec_decl().connection && d.envelope
                                == self.spec_decl().envelope,
                            Step::Request(p, _) => offsets_rewritten(
                                self.spec_decl(),
                                p.spec_decl(),
                                offsets@,
                            ) && p.spec_decl().connection == self.spec_decl().connection
                                && p.spec_decl().envelope == self.spec_decl().envelope,
                            Step::Failed(e) => e.spec_kind()
                                == crate::errors::ErrorKind::Validation,
                        }
                        &&& (format_purified(
                            self.spec_decl().format,
                            self.spec_decl().connection,
                        ) ==> r is Done)
                    },
                    Err(m) => connectivity_failed(r, "kafka"@, m),
                },
                (Phase::AwaitCloudValidation, Event::CloudCredentialsValidated(res)) => match res {
                    Ok(()) => resolves_formats(self.spec_catalog(), self.spec_decl(), r),
                    Err(m) => connectivity_failed(r, "aws"@, m),
                },
                (Phase::AwaitPublicationInfo, Event::PublicationInfo(res)) => match res {
                    Ok(_) => {
                        &&& match r {
                            Step::Done(d) => lr_details_filled(self.spec_decl(), d),
                            Step::Request(p, _) => lr_details_filled(
                                self.spec_decl(),
                                p.spec_decl(),
                            ),
                            Step::Failed(e) => e.spec_kind()
                                == crate::errors::ErrorKind::Validation,
                        }
                        &&& (format_purified(
                            self.spec_decl().format,
                            self.spec_decl().connection,
                        ) ==> r is Done)
                    },
                    Err(m) => connectivity_failed(r, "postgres"@, m),
                },
                (Phase::AwaitCsrClientAvro { slot }, Event::CsrClientReady(res)) => match res {
                    Ok(()) => (match slot_avro(self.spec_decl(), slot).value_strategy {
                        None | Some(ReaderSchemaSelectionStrategy::Latest) => r matches
                            Step::Request(p, Action::FetchSubject { subject }) && subject@
                            == spec_topic(self.spec_decl()) + "-value"@ && p.spec_phase() == (
                        Phase::AwaitAvroValue { slot }) && p.spec_decl() == self.spec_decl(),
                        Some(ReaderSchemaSelectionStrategy::ById(id)) => r matches Step::Request(
                            p,
                            Action::FetchById { id: id2 },
                        ) && id2 == id && p.spec_phase() == (Phase::AwaitAvroValue { slot })
                            && p.spec_decl() == self.spec_decl(),
                        Some(ReaderSchemaSelectionStrategy::Inline(raw)) => avro_key_outcome(
                            self.spec_decl(),
                            slot,
                            raw@,
                            r,
                        ),
                    }),
                    Err(m) => connectivity_failed(r, "schema registry"@, m),
                },
                (Phase::AwaitAvroValue { slot }, Event::SchemaFetched(outcome)) => match outcome {
                    SchemaFetchOutcome::Found { raw } => avro_key_outcome(
                        self.spec_decl(),
                        slot,
                        raw@,
                        r,
                    ),
                    SchemaFetchOutcome::NotFound => r matches Step::Failed(e) && e
                        is MissingValueSchema,
                    SchemaFetchOutcome::Failed { message } => connectivity_failed(
                        r,
                        "schema registry"@,
                        message,
                    ),
                },
                (
                    Phase::AwaitAvroKey { slot, value_schema },
                    Event::SchemaFetched(outcome),
                ) => match outcome {
                    SchemaFetchOutcome::Found { raw } => avro_attached_outcome(
                        self.spec_decl(),
                        slot,
                        Some(raw@),
                        value_schema@,
                        r,
                    ),
                    SchemaFetchOutcome::NotFound => avro_attached_outcome(
                        self.spec_decl(),
                        slot,
                        None,
                        value_schema@,
                        r,
                    ),
                    SchemaFetchOutcome::Failed { message } => connectivity_failed(
                        r,
                        "schema registry"@,
                        message,
                    ),
                },
                (Phase::AwaitCsrClientProto { slot }, Event::CsrClientReady(res)) => match res {
                    Ok(()) => r matches Step::Request(
                        p,
                        Action::FetchSubjectAndReferences { subject },
                    ) && subject@ == spec_topic(self.spec_decl()) + "-value"@ && p.spec_phase()
                        == (Phase::AwaitProtoValueSubjects { slot }) && p.spec_decl()
                        == self.spec_decl(),
                    Err(m) => connectivity_failed(r, "schema registry"@, m),
                },
                (
                    Phase::AwaitProtoValueSubjects { slot },
                    Event::SubjectsFetched(res),
                ) => match res {
                    Ok(subjects) => if subjects@.len() == 0 {
                        r matches Step::Failed(e) && e is Connectivity
                    } else {
                        r matches Step::Request(
                            p,
                            Action::CompileDescriptors { files, primary },
                        ) && primary@ == subjects@[0].name@ && files@.len() == subjects@.len()
                            && (forall|i: int|
                            0 <= i < subjects@.len() ==> (#[trigger] files@[i]).name@
                                == subjects@[i].name@ && files@[i].content@
                                == subjects@[i].schema@) && p.spec_phase() == (
                        Phase::AwaitProtoValueCompile { slot }) && p.spec_decl()
                            == self.spec_decl()
                    },
                    Err(m) => connectivity_failed(r, "schema registry"@, m),
                },
                (Phase::AwaitProtoValueCompile { slot }, Event::Compiled(res)) => match res {
                    Ok(d) => if d.message_count == 1 {
                        r matches Step::Request(
                            p,
                            Action::FetchSubjectAndReferences { subject },
                        ) && subject@ == spec_topic(self.spec_decl()) + "-key"@ && (p.spec_phase()
                            matches Phase::AwaitProtoKeySubjects { slot: s2, value } && s2 == slot
                            && value.message_name == d.first_message_name && value.schema@
                            == "\\x"@ + crate::strutil::hex_of(d.serialized@)) && p.spec_decl()
                            == self.spec_decl()
                    } else {
                        r matches Step::Failed(PurifyError::Unsupported { feature: _, tracking })
                            && tracking == crate::csr::spec_proto_tracking()
                    },
                    Err(m) => connectivity_failed(r, "descriptor compiler"@, m),
                },
                (
                    Phase::AwaitProtoKeySubjects { slot, value },
                    Event::SubjectsFetched(res),
                ) => match res {
                    Ok(subjects) => if subjects@.len() == 0 {
                        proto_attached_outcome(
                            self.spec_decl(),
                            slot,
                            value,
                            SpecProtoKey::KeyAbsent,
                            r,
                        )
                    } else {
                        r matches Step::Request(
                            p,
                            Action::CompileDescriptors { files, primary },
                        ) && primary@ == subjects@[0].name@ && files@.len() == subjects@.len()
                            && (forall|i: int|
                            0 <= i < subjects@.len() ==> (#[trigger] files@[i]).name@
                                == subjects@[i].name@ && files@[i].content@
                                == subjects@[i].schema@) && p.spec_phase() == (
                        Phase::AwaitProtoKeyCompile { slot, value }) && p.spec_decl()
                            == self.spec_decl()
                    },
                    Err(_) => proto_attached_outcome(
                        self.spec_decl(),
                        slot,
                        value,
                        SpecProtoKey::KeyAbsent,
                        r,
                    ),
                },
                (Phase::AwaitProtoKeyCompile { slot, value }, Event::Compiled(res)) => match res {
                    Ok(d) => if d.message_count == 1 {
                        proto_attached_outcome(
                            self.spec_decl(),
                            slot,
                            value,
                            SpecProtoKey::KeyFrom(d),
                            r,
                        )
                    } else {
                        proto_attached_outcome(
                            self.spec_decl(),
                            slot,
                            value,
                            SpecProtoKey::KeyAbsent,
                            r,
                        )
                    },
                    Err(_) => proto_attached_outcome(
                        self.spec_decl(),
                        slot,
                        value,
                        SpecProtoKey::KeyAbsent,
                        r,
                    ),
                },
                (Phase::AwaitFileText { slot }, Event::FileText(res)) => match res {
                    Ok(text) => file_inlined_outcome(
                        self.spec_decl(),
                        slot,
                        Some(text@),
                        None,
                        r,
                    ),
                    Err(m) => connectivity_failed(r, "file"@, m),
                },
                (Phase::AwaitFileBytes { slot }, Event::FileBytes(res)) => match res {
                    Ok(bytes) => file_inlined_outcome(
                        self.spec_decl(),
                        slot,
                        None,
                        Some(bytes@),
                        r,
                    ),
                    Err(m) => connectivity_failed(r, "file"@, m),
                },
                (_, _) => r matches Step::Failed(e) && e is UnexpectedEvent,
            }),
    {
        let Purifier { catalog, now, ctx, decl, phase } = self;
        match (phase, event) {
            (Phase::AwaitConsumer, Event::ConsumerReady(res)) => match res {
                Ok(()) => {
                    match crate::kafka::time_offset_request(&decl.with_options, now) {
                        Err(e) => Step::Failed(e),
                        Ok(None) => {
                            proof {
                                crate::options::lemma_stmt_get_some(
                                    decl.with_options@.map_values(|o: StmtOption| o@),
                                    "kafka_time_offset"@,
                                );
                            }
                            purify_source_format(catalog, now, ctx, decl)
                        },
                        Ok(Some(time)) => {
                            let topic = match kafka_topic(&decl) {
                                Some(t) => t,
                                None => {
                                    return unreached();
                                },
                            };
                            Step::Request(
                                Purifier {
                                    catalog,
                                    now,
                                    ctx,
                                    decl,
                                    phase: Phase::AwaitStartOffsets,
                                },
                                Action::LookupStartOffsets { topic, time, now },
                            )
                        },
                    }
                },
                Err(message) => Step::Failed(
                    PurifyError::Connectivity { system: "kafka".to_owned(), message },
                ),
            },
            (Phase::AwaitStartOffsets, Event::StartOffsets(res)) => match res {
                Ok(offsets) => {
                    let mut decl = decl;
                    let ghost old_opts = decl.with_options@.map_values(|o: StmtOption| o@);
                    crate::kafka::apply_start_offsets(&mut decl.with_options, &offsets);
                    proof {
                        reveal_strlit("start_offset");
                        reveal_strlit("kafka_time_offset");
                        assert("start_offset"@.len() == 12);
                        assert("kafka_time_offset"@.len() == 17);
                        let newv = decl.with_options@.map_values(|o: StmtOption| o@);
                        let filtered = old_opts.filter(
                            |o: crate::options::StmtOptionView| crate::kafka::not_time_offset(o),
                        );
                        assert(!has_time_offset_key(decl)) by {
                            if has_time_offset_key(decl) {
                                let i = choose|i: int|
                                    0 <= i < newv.len() && newv[i].key == "kafka_time_offset"@;
                                if i < filtered.len() {
                                    assert(newv[i] == filtered[i]);
                                    old_opts.lemma_filter_pred(
                                        |o: crate::options::StmtOptionView|
                                            crate::kafka::not_time_offset(o),
                                        i,
                                    );
                                } else {
                                    assert(newv[i].key == "start_offset"@);
                                }
                            }
                        }
                    }
                    let r2 = purify_source_format(catalog, now, ctx, decl);
                    proof {
                        lemma_format_outcome_shapes(catalog, decl, r2);
                    }
                    r2
                },
                Err(message) => Step::Failed(
                    PurifyError::Connectivity { system: "kafka".to_owned(), message },
                ),
            },
            (Phase::AwaitCloudValidation, Event::CloudCredentialsValidated(res)) => match res {
                Ok(()) => purify_source_format(catalog, now, ctx, decl),
                Err(message) => Step::Failed(
                    PurifyError::Connectivity { system: "aws".to_owned(), message },
                ),
            },
            (Phase::AwaitPublicationInfo, Event::PublicationInfo(res)) => match res {
                Ok(tables) => {
                    let slot_name = crate::replication::generate_slot_name();
                    let encoded = crate::replication::encode_details(&tables, slot_name.as_str());
                    let mut decl = decl;
                    let ghost decl0 = decl;
                    match &mut decl.connection {
                        CreateSourceConnection::LogicalReplication {
                            connection: _,
                            publication: _,
                            details,
                        } => {
                            *details = Some(encoded);
                        },
                        _ => {
                            return unreached();
                        },
                    }
                    proof {
                        assert(format_purified(decl0.format, decl0.connection)
                            ==> format_purified(decl.format, decl.connection));
                    }
                    let r2 = purify_source_format(catalog, now, ctx, decl);
                    proof {
                        lemma_format_outcome_shapes(catalog, decl, r2);
                    }
                    r2
                },
                Err(message) => Step::Failed(
                    PurifyError::Connectivity { system: "postgres".to_owned(), message },
                ),
            },
            (Phase::AwaitCsrClientAvro { slot }, Event::CsrClientReady(res)) => match res {
                Ok(()) => {
                    let topic = match kafka_topic(&decl) {
                        Some(t) => t,
                        None => {
                            return unreached();
                        },
                    };
                    let strategy = avro_value_strategy(&decl, slot);
                    match strategy {
                        ReaderSchemaSelectionStrategy::Latest => Step::Request(
                            Purifier { catalog, now, ctx, decl, phase: Phase::AwaitAvroValue { slot } },
                            Action::FetchSubject {
                                subject: crate::csr::value_subject(topic.as_str()),
                            },
                        ),
                        ReaderSchemaSelectionStrategy::ById(id) => Step::Request(
                            Purifier { catalog, now, ctx, decl, phase: Phase::AwaitAvroValue { slot } },
                            Action::FetchById { id },
                        ),
                        ReaderSchemaSelectionStrategy::Inline(raw) => avro_key_stage(
                            catalog,
                            now,
                            ctx,
                            decl,
                            slot,
                            raw,
                        ),
                    }
                },
                Err(message) => Step::Failed(
                    PurifyError::Connectivity { system: "schema registry".to_owned(), message },
                ),
            },
            (Phase::AwaitAvroValue { slot }, Event::SchemaFetched(outcome)) => {
                let strategy = avro_value_strategy(&decl, slot);
                let fetched = match strategy {
                    ReaderSchemaSelectionStrategy::ById(_) => crate::csr::schema_from_id_fetch(
                        outcome,
                    ),
                    _ => crate::csr::schema_from_subject_fetch(outcome),
                };
                match fetched {
                    Ok(Some(raw)) => avro_key_stage(catalog, now, ctx, decl, slot, raw),
                    Ok(None) => Step::Failed(PurifyError::MissingValueSchema),
                    Err(e) => Step::Failed(
                        PurifyError::Connectivity {
                            system: "schema registry".to_owned(),
                            message: csr_error_message(e),
                        },
                    ),
                }
            },
            (Phase::AwaitAvroKey { slot, value_schema }, Event::SchemaFetched(outcome)) => {
                let strategy = avro_key_strategy(&decl, slot);
                let fetched = match strategy {
                    ReaderSchemaSelectionStrategy::ById(_) => crate::csr::schema_from_id_fetch(
                        outcome,
                    ),
                    _ => crate::csr::schema_from_subject_fetch(outcome),
                };
                match fetched {
                    Ok(key_schema) => finish_avro(
                        catalog,
                        now,
                        ctx,
                        decl,
                        slot,
                        key_schema,
                        value_schema,
                    ),
                    Err(e) => Step::Failed(
                        PurifyError::Connectivity {
                            system: "schema registry".to_owned(),
                            message: csr_error_message(e),
                        },
                    ),
                }
            },
            (Phase::AwaitCsrClientProto { slot }, Event::CsrClientReady(res)) => match res {
                Ok(()) => {
                    let topic = match kafka_topic(&decl) {
                        Some(t) => t,
                        None => {
                            return unreached();
                        },
                    };
                    Step::Request(
                        Purifier {
                            catalog,
                            now,
                            ctx,
                            decl,
                            phase: Phase::AwaitProtoValueSubjects { slot },
                        },
                        Action::FetchSubjectAndReferences {
                            subject: crate::csr::value_subject(topic.as_str()),
                        },
                    )
                },
                Err(message) => Step::Failed(
                    PurifyError::Connectivity { system: "schema registry".to_owned(), message },
                ),
            },
            (Phase::AwaitProtoValueSubjects { slot }, Event::SubjectsFetched(res)) => match res {
                Ok(subjects) => {
                    if subjects.len() == 0 {
                        return Step::Failed(
                            PurifyError::Connectivity {
                                system: "schema registry".to_owned(),
                                message: "no subjects returned".to_owned(),
                            },
                        );
                    }
                    let primary = subjects[0].name.clone();
                    let files = proto_files_of(&subjects);
                    Step::Request(
                        Purifier {
                            catalog,
                            now,
                            ctx,
                            decl,
                            phase: Phase::AwaitProtoValueCompile { slot },
                        },
                        Action::CompileDescriptors { files, primary },
                    )
                },
                Err(message) => Step::Failed(
                    PurifyError::Connectivity { system: "schema registry".to_owned(), message },
                ),
            },
            (Phase::AwaitProtoValueCompile { slot }, Event::Compiled(res)) => match res {
                Ok(d) => {
                    match crate::csr::proto_seed_from_compile(d) {
                        Ok(value) => {
                            let topic = match kafka_topic(&decl) {
                                Some(t) => t,
                                None => {
                                    return unreached();
                                },
                            };
                            Step::Request(
                                Purifier {
                                    catalog,
                                    now,
                                    ctx,
                                    decl,
                                    phase: Phase::AwaitProtoKeySubjects { slot, value },
                                },
                                Action::FetchSubjectAndReferences {
                                    subject: crate::csr::key_subject(topic.as_str()),
                                },
                            )
                        },
                        Err(e) => Step::Failed(e),
                    }
                },
                Err(message) => Step::Failed(
                    PurifyError::Connectivity {
                        system: "descriptor compiler".to_owned(),
                        message,
                    },
                ),
            },
            (Phase::AwaitProtoKeySubjects { slot, value }, Event::SubjectsFetched(res)) => match res {
                Ok(subjects) => {
                    if subjects.len() == 0 {
                        return finish_proto(catalog, now, ctx, decl, slot, value, None);
                    }
                    let primary = subjects[0].name.clone();
                    let files = proto_files_of(&subjects);
                    Step::Request(
                        Purifier {
                            catalog,
                            now,
                            ctx,
                            decl,
                            phase: Phase::AwaitProtoKeyCompile { slot, value },
                        },
                        Action::CompileDescriptors { files, primary },
                    )
                },
                // The key side is best effort: any failure means no key
                // schema, not a failed run.
                Err(_) => finish_proto(catalog, now, ctx, decl, slot, value, None),
            },
            (Phase::AwaitProtoKeyCompile { slot, value }, Event::Compiled(res)) => match res {
                Ok(d) => {
                    match crate::csr::proto_seed_from_compile(d) {
                        Ok(key) => finish_proto(catalog, now, ctx, decl, slot, value, Some(key)),
                        Err(_) => finish_proto(catalog, now, ctx, decl, slot, value, None),
                    }
                },
                Err(_) => finish_proto(catalog, now, ctx, decl, slot, value, None),
            },
            (Phase::AwaitFileText { slot }, Event::FileText(res)) => match res {
                Ok(text) => {
                    let mut decl = decl;
                    let ghost old_format = decl.format;
                    let ok = set_avro_inline_at(&mut decl.format, slot, text);
                    proof {
                        assert(ok);
                        let newfmt = Format::Avro(
                            AvroSchema::InlineSchema {
                                schema: SchemaSource::Inline(text),
                            },
                        );
                        lemma_with_slot(old_format, slot, newfmt);
                        assert(slot_format(decl.format, slot) == Some(newfmt));
                        assert(single_format_purified(newfmt, decl.connection));
                    }
                    finish_slot(catalog, now, ctx, decl, slot)
                },
                Err(message) => Step::Failed(
                    PurifyError::Connectivity { system: "file".to_owned(), message },
                ),
            },
            (Phase::AwaitFileBytes { slot }, Event::FileBytes(res)) => match res {
                Ok(bytes) => {
                    let encoded = crate::strutil::format_bytes(&bytes);
                    let mut decl = decl;
                    let ghost old_format = decl.format;
                    let ghost m = slot_format(
                        old_format,
                        slot,
                    )->Some_0->Protobuf_0->message_name;
                    let ok = set_proto_inline_at(&mut decl.format, slot, encoded);
                    proof {
                        assert(ok);
                        let newfmt = Format::Protobuf(
                            ProtobufSchema::InlineSchema {
                                message_name: m,
                                schema: SchemaSource::Inline(encoded),
                            },
                        );
                        lemma_with_slot(old_format, slot, newfmt);
                        assert(slot_format(decl.format, slot) == Some(newfmt));
                        assert(single_format_purified(newfmt, decl.connection));
                    }
                    finish_slot(catalog, now, ctx, decl, slot)
                },
                Err(message) => Step::Failed(
                    PurifyError::Connectivity { system: "file".to_owned(), message },
                ),
            },
            (_, _) => Step::Failed(PurifyError::UnexpectedEvent),
        }
    }
}

} // verus!
