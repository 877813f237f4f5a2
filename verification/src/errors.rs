//! The errors a purification run can end in.
//!
//! Every error aborts the whole run: nothing is retried, and the partially
//! mutated declaration is never handed back. The variants are fine-grained
//! so that contracts can say exactly which inputs produce which error;
//! [`PurifyError::kind`] groups them into the five broad categories.

use vstd::prelude::*;

verus! {

/// The broad category of a [`PurifyError`].
#[derive(Clone, Copy, Debug, PartialEq, Eq, Structural)]
pub enum ErrorKind {
    /// A structurally illegal declaration; immediate and user-facing.
    Validation,
    /// An external system was unreachable or rejected the request.
    Connectivity,
    /// A registry lookup found nothing where something was required.
    NotFound,
    /// A recognized but unsupported feature, with a stable tracking number.
    Unsupported,
    /// An internal consistency rule was violated.
    InvariantViolation,
}

/// An error produced while purifying a source declaration.
#[derive(Clone, Debug, PartialEq, Eq)]
pub enum PurifyError {
    /// The same option key was given more than once.
    DuplicateOption { key: String },
    /// A known option carried a value of the wrong shape.
    OptionTypeError { key: String },
    /// A numeric option fell outside its permitted range.
    OptionValueOutOfRange { key: String },
    /// An option key that this context does not recognize.
    UnknownOption { key: String },
    /// A required option was absent.
    MissingOption { key: String },
    /// `security.protocol` held something other than the supported modes.
    UnsupportedSecurityProtocol { protocol: String },
    /// A broker address that could not be parsed as `host[:port]`.
    InvalidBrokerAddress { address: String },
    /// Key/value formats are only available on broker-backed sources.
    KeyValueFormatUnsupported,
    /// CSV header columns are only available on object-store sources.
    CsvHeaderUnsupported,
    /// CSV header columns on an object-store source must be named.
    CsvHeaderColumnsRequired,
    /// Schema-registry formats are only available on broker-backed sources.
    CsrRequiresKafka,
    /// A registry URL that could not be parsed.
    InvalidUrl { url: String },
    /// A resource identifier that could not be parsed.
    ArnParseFailed { arn: String },
    /// A resource identifier that names no region.
    MissingRegion { arn: String },
    /// A named catalog item does not exist in the snapshot.
    UnknownCatalogItem { name: String },
    /// A named catalog item is not a connection of the expected kind.
    WrongConnectionKind { name: String, expected: ConnectionKind },
    /// The logical "now" or the requested time offset does not fit.
    TimeOffsetOutOfRange,
    /// An external system failed; `system` names it.
    Connectivity { system: String, message: String },
    /// No value schema could be resolved; always a hard error.
    MissingValueSchema,
    /// The envelope keys its state by the key schema, so one is required.
    KeySchemaRequired,
    /// A recognized but unsupported feature, with its tracking number.
    Unsupported { feature: String, tracking: u64 },
    /// The driver answered with an event the current state cannot take.
    UnexpectedEvent,
}

/// The kind of connection a context expected to resolve.
#[derive(Clone, Copy, Debug, PartialEq, Eq, Structural)]
pub enum ConnectionKind {
    Kafka,
    SchemaRegistry,
    Postgres,
    Ssh,
}

impl PurifyError {
    /// The broad category this error belongs to.
    pub fn kind(&self) -> (k: ErrorKind)
        ensures
            k == self.spec_kind(),
    {
        match self {
            PurifyError::Connectivity { .. } => ErrorKind::Connectivity,
            PurifyError::MissingValueSchema => ErrorKind::NotFound,
            PurifyError::KeySchemaRequired => ErrorKind::InvariantViolation,
            PurifyError::UnexpectedEvent => ErrorKind::InvariantViolation,
            PurifyError::Unsupported { .. } => ErrorKind::Unsupported,
            _ => ErrorKind::Validation,
        }
    }

    /// The category, as a specification-level function.
    pub open spec fn spec_kind(&self) -> ErrorKind {
        match self {
            PurifyError::Connectivity { .. } => ErrorKind::Connectivity,
            PurifyError::MissingValueSchema => ErrorKind::NotFound,
            PurifyError::KeySchemaRequired => ErrorKind::InvariantViolation,
            PurifyError::UnexpectedEvent => ErrorKind::InvariantViolation,
            PurifyError::Unsupported { .. } => ErrorKind::Unsupported,
            _ => ErrorKind::Validation,
        }
    }
}

} // verus!
