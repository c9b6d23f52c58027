//! The errors of the data store, in four families.
use vstd::prelude::*;

verus! {

/// The family that an error belongs to.
#[derive(Debug, Clone, Copy, PartialEq, Eq, Structural)]
pub enum ErrorCategory {
    /// Malformed or unsupported statement syntax.
    Parse,
    /// A table or column that does not fit the catalog.
    Schema,
    /// A value or an omission that breaks a column's rules.
    Constraint,
    /// The store itself cannot serve the request.
    Storage,
}

/// A column option that translation refuses.
#[derive(Debug, Clone, PartialEq, Eq)]
pub enum Clause {
    ForeignKey,
    Check,
    OnUpdate,
    Generated,
    /// Any other refused option, by its SQL text.
    Other(String),
}

/// Every failure that the library reports.
#[derive(Debug, Clone, PartialEq, Eq)]
pub enum DbError {
    /// A statement kind other than CREATE TABLE, INSERT or a query.
    UnsupportedStatement(String),
    /// A column option that is recognised but not supported.
    UnsupportedClause(Clause),
    /// A column named twice in one INSERT.
    DuplicateColumn(String),
    /// A row value that is not a literal.
    UnsupportedExpression(String),
    /// A row source other than a VALUES list.
    UnsupportedSetExpression(String),
    /// A literal form that has no value here.
    UnsupportedLiteral(String),
    /// A hex string literal that does not decode.
    InvalidHex(String),
    /// A numeric literal that is not a decimal number.
    InvalidNumber(String),
    /// Queries parse but cannot be run.
    SelectNotSupported,
    /// CREATE TABLE on a name that is taken.
    TableExists(String),
    /// A table name with no keyspace.
    NoSuchTable(String),
    /// An INSERT or a table constraint that names a column the table lacks.
    UnknownColumn(String),
    /// A column whose foreign key names a table or column that does not
    /// exist.
    InvalidReference(String),
    /// A required column left out of an INSERT.
    MissingColumn(String),
    /// A row whose number of values differs from the number of columns.
    RowLength(usize),
    /// A value that does not fit its column's type.
    TypeMismatch(String),
    /// An omitted column for which no value can be made.
    CannotGenerate(String),
    /// A keyspace whose descriptor is absent.
    NoMetadata(String),
    /// A keyspace read back whose descriptor or counters do not fit
    /// together.
    CorruptKeyspace(String),
    /// An auto-increment counter that would pass its largest value.
    CounterExhausted(String),
}

impl DbError {
    pub open spec fn spec_category(&self) -> ErrorCategory {
        match self {
            DbError::UnsupportedStatement(_) => ErrorCategory::Parse,
            DbError::UnsupportedClause(_) => ErrorCategory::Schema,
            DbError::DuplicateColumn(_) => ErrorCategory::Parse,
            DbError::UnsupportedExpression(_) => ErrorCategory::Parse,
            DbError::UnsupportedSetExpression(_) => ErrorCategory::Parse,
            DbError::UnsupportedLiteral(_) => ErrorCategory::Parse,
            DbError::InvalidHex(_) => ErrorCategory::Parse,
            DbError::InvalidNumber(_) => ErrorCategory::Parse,
            DbError::SelectNotSupported => ErrorCategory::Parse,
            DbError::TableExists(_) => ErrorCategory::Schema,
            DbError::NoSuchTable(_) => ErrorCategory::Schema,
            DbError::UnknownColumn(_) => ErrorCategory::Schema,
            DbError::InvalidReference(_) => ErrorCategory::Schema,
            DbError::MissingColumn(_) => ErrorCategory::Constraint,
            DbError::RowLength(_) => ErrorCategory::Constraint,
            DbError::TypeMismatch(_) => ErrorCategory::Constraint,
            DbError::CannotGenerate(_) => ErrorCategory::Constraint,
            DbError::NoMetadata(_) => ErrorCategory::Storage,
            DbError::CorruptKeyspace(_) => ErrorCategory::Storage,
            DbError::CounterExhausted(_) => ErrorCategory::Storage,
        }
    }

    /// The family of this error.
    pub fn category(&self) -> (r: ErrorCategory)
        ensures
            r == self.spec_category(),
    {
        match self {
            DbError::UnsupportedStatement(_) => ErrorCategory::Parse,
            DbError::UnsupportedClause(_) => ErrorCategory::Schema,
            DbError::DuplicateColumn(_) => ErrorCategory::Parse,
            DbError::UnsupportedExpression(_) => ErrorCategory::Parse,
            DbError::UnsupportedSetExpression(_) => ErrorCategory::Parse,
            DbError::UnsupportedLiteral(_) => ErrorCategory::Parse,
            DbError::InvalidHex(_) => ErrorCategory::Parse,
            DbError::InvalidNumber(_) => ErrorCategory::Parse,
            DbError::SelectNotSupported => ErrorCategory::Parse,
            DbError::TableExists(_) => ErrorCategory::Schema,
            DbError::NoSuchTable(_) => ErrorCategory::Schema,
            DbError::UnknownColumn(_) => ErrorCategory::Schema,
            DbError::InvalidReference(_) => ErrorCategory::Schema,
            DbError::MissingColumn(_) => ErrorCategory::Constraint,
            DbError::RowLength(_) => ErrorCategory::Constraint,
            DbError::TypeMismatch(_) => ErrorCategory::Constraint,
            DbError::CannotGenerate(_) => ErrorCategory::Constraint,
            DbError::NoMetadata(_) => ErrorCategory::Storage,
            DbError::CorruptKeyspace(_) => ErrorCategory::Storage,
            DbError::CounterExhausted(_) => ErrorCategory::Storage,
        }
    }
}

} // verus!
