//! The declaration under purification.
//!
//! These types mirror what the parser hands over: a source kind, a format
//! specification, an optional envelope and the statement options. The
//! `*_purified` spec functions at the bottom say what purification leaves
//! behind: every schema seed filled, every file reference replaced by its
//! literal content, and every kind-specific detail materialized.

use vstd::prelude::*;

use crate::options::StmtOption;
use crate::options::stmt_has_key;

verus! {

/// The change-data semantics applied to a source's records.
#[derive(Clone, Copy, Debug, PartialEq, Eq, Structural)]
pub enum Envelope {
    Plain,
    Debezium(DbzMode),
    Upsert,
    CdcV2,
}

/// How a Debezium envelope keys its state.
#[derive(Clone, Copy, Debug, PartialEq, Eq, Structural)]
pub enum DbzMode {
    Plain,
    Upsert,
}

/// Which version of a registry schema to read.
#[derive(Clone, Debug, PartialEq, Eq)]
pub enum ReaderSchemaSelectionStrategy {
    /// Fetch the newest schema under the subject.
    Latest,
    /// Use this literal schema text, fetching nothing.
    Inline(String),
    /// Fetch the schema with this registry-assigned id.
    ById(i32),
}

/// Schema text, either literal or still a file reference.
#[derive(Clone, Debug, PartialEq, Eq)]
pub enum SchemaSource {
    Inline(String),
    File(String),
}

/// A schema-registry connection: inline by URL, or a catalog reference.
#[derive(Clone, Debug, PartialEq, Eq)]
pub enum CsrConnectionRef {
    Inline { url: String },
    Reference { name: String },
}

/// The resolved registry content for an Avro-formatted source.
#[derive(Clone, Debug, PartialEq, Eq)]
pub struct CsrSeedAvro {
    pub key_schema: Option<String>,
    pub value_schema: String,
}

/// One compiled protobuf schema: an encoded descriptor set and the name of
/// its single top-level message.
#[derive(Clone, Debug, PartialEq, Eq)]
pub struct CsrSeedProtobufSchema {
    pub schema: String,
    pub message_name: String,
}

/// The resolved registry content for a protobuf-formatted source.
#[derive(Clone, Debug, PartialEq, Eq)]
pub struct CsrSeedProtobuf {
    pub value: CsrSeedProtobufSchema,
    pub key: Option<CsrSeedProtobufSchema>,
}

/// An Avro format backed by a schema registry.
#[derive(Clone, Debug, PartialEq, Eq)]
pub struct CsrConnectionAvro {
    pub connection: CsrConnectionRef,
    pub seed: Option<CsrSeedAvro>,
    pub key_strategy: Option<ReaderSchemaSelectionStrategy>,
    pub value_strategy: Option<ReaderSchemaSelectionStrategy>,
    pub with_options: Vec<StmtOption>,
}

/// A protobuf format backed by a schema registry.
#[derive(Clone, Debug, PartialEq, Eq)]
pub struct CsrConnectionProtobuf {
    pub connection: CsrConnectionRef,
    pub seed: Option<CsrSeedProtobuf>,
    pub with_options: Vec<StmtOption>,
}

/// An Avro payload schema.
#[derive(Clone, Debug, PartialEq, Eq)]
pub enum AvroSchema {
    Csr { csr_connection: CsrConnectionAvro },
    InlineSchema { schema: SchemaSource },
}

/// A protobuf payload schema.
#[derive(Clone, Debug, PartialEq, Eq)]
pub enum ProtobufSchema {
    Csr { csr_connection: CsrConnectionProtobuf },
    InlineSchema { message_name: String, schema: SchemaSource },
}

/// Where CSV column names come from.
#[derive(Clone, Debug, PartialEq, Eq)]
pub enum CsvColumns {
    /// A fixed number of unnamed columns.
    Count(u64),
    /// Column names taken from the header row; may be spelled out.
    Header { names: Vec<String> },
}

/// The payload format of one side of a source.
#[derive(Clone, Debug, PartialEq, Eq)]
pub enum Format {
    Avro(AvroSchema),
    Protobuf(ProtobufSchema),
    Csv { columns: CsvColumns },
    Regex(String),
    Bytes,
    Json,
    Text,
}

/// The format specification of a source declaration.
#[derive(Clone, Debug, PartialEq, Eq)]
pub enum CreateSourceFormat {
    /// No format was given.
    Absent,
    /// One format for the whole record.
    Bare(Format),
    /// Separate key and value formats; broker-backed sources only.
    KeyValue { key: Format, value: Format },
}

/// A broker connection: a catalog reference or an inline broker address.
#[derive(Clone, Debug, PartialEq, Eq)]
pub enum KafkaConnectionRef {
    Reference { name: String },
    Inline { broker: String },
}

/// The kind-specific half of a source declaration.
#[derive(Clone, Debug, PartialEq, Eq)]
pub enum CreateSourceConnection {
    Kafka { connection: KafkaConnectionRef, topic: String },
    ObjectStore,
    StreamShipping { arn: String },
    LogicalReplication { connection: String, publication: String, details: Option<String> },
    Other,
}

/// A source declaration as purification receives and returns it.
#[derive(Clone, Debug, PartialEq, Eq)]
pub struct CreateSourceStatement {
    pub connection: CreateSourceConnection,
    pub format: CreateSourceFormat,
    pub envelope: Option<Envelope>,
    pub with_options: Vec<StmtOption>,
}

/// Whether one format holds no unresolved external reference.
pub open spec fn single_format_purified(f: Format, conn: CreateSourceConnection) -> bool {
    match f {
        Format::Avro(AvroSchema::Csr { csr_connection }) => conn is Kafka
            && csr_connection.seed is Some,
        Format::Avro(AvroSchema::InlineSchema { schema }) => schema is Inline,
        Format::Protobuf(ProtobufSchema::Csr { csr_connection }) => conn is Kafka
            && csr_connection.seed is Some,
        Format::Protobuf(ProtobufSchema::InlineSchema { schema, .. }) => schema is Inline,
        Format::Csv { columns } => match columns {
            CsvColumns::Header { names } => conn is ObjectStore && names@.len() > 0,
            CsvColumns::Count(_) => true,
        },
        _ => true,
    }
}

/// Whether a format specification is fully resolved and legal for the kind.
pub open spec fn format_purified(f: CreateSourceFormat, conn: CreateSourceConnection) -> bool {
    match f {
        CreateSourceFormat::Absent => true,
        CreateSourceFormat::Bare(fmt) => single_format_purified(fmt, conn),
        CreateSourceFormat::KeyValue { key, value } => conn is Kafka && single_format_purified(
            key,
            conn,
        ) && single_format_purified(value, conn),
    }
}

/// Whether the kind-specific state of a declaration is resolved.
pub open spec fn kind_purified(conn: CreateSourceConnection) -> bool {
    match conn {
        CreateSourceConnection::LogicalReplication { details, .. } => details is Some,
        _ => true,
    }
}

/// Whether a whole declaration is purified: kind state resolved, formats
/// resolved and legal, and any time-based offset request translated away.
pub open spec fn statement_purified(s: CreateSourceStatement) -> bool {
    &&& kind_purified(s.connection)
    &&& format_purified(s.format, s.connection)
    &&& (s.connection is Kafka ==> !stmt_has_key(
        s.with_options@.map_values(|o: StmtOption| o@),
        "kafka_time_offset"@,
    ))
}

} // verus!
