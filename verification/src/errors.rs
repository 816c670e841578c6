//! Failure conditions of a transfer.

use crate::data_order::DataOrder;
use crate::value::Transport;
use vstd::prelude::*;

verus! {

/// `r2d2_mysql::mysql::Error`: a failure that the MySQL driver reported. Carried
/// through unread.
#[verifier::external_type_specification]
#[verifier::external_body]
pub struct ExMysqlError(r2d2_mysql::mysql::Error);

/// `r2d2_mysql::mysql::UrlError`: why the driver refused a connection URL.
/// Carried through unread.
#[verifier::external_type_specification]
#[verifier::external_body]
pub struct ExMysqlUrlError(r2d2_mysql::mysql::UrlError);

/// `sqlparser::parser::ParserError`: why a query text did not parse. Carried
/// through unread.
#[verifier::external_type_specification]
#[verifier::external_body]
pub struct ExParserError(sqlparser::parser::ParserError);

/// `arrow::error::ArrowError`: a failure inside the columnar library. Carried
/// through unread.
#[verifier::external_type_specification]
#[verifier::external_body]
pub struct ExArrowError(arrow::error::ArrowError);

/// `std::io::Error`: a failure of reading or writing. Carried through unread.
#[verifier::external_type_specification]
#[verifier::external_body]
pub struct ExIoError(std::io::Error);

/// `r2d2::Error`: a failure of the connection pool. Carried through unread.
#[verifier::external_type_specification]
#[verifier::external_body]
pub struct ExPoolError(r2d2::Error);

/// `postgres::Error`: a failure that the Postgres driver reported. Carried
/// through unread.
#[verifier::external_type_specification]
#[verifier::external_body]
pub struct ExPostgresError(postgres::Error);

/// `rusqlite::Error`: a failure that the SQLite driver reported. Carried
/// through unread.
#[verifier::external_type_specification]
#[verifier::external_body]
pub struct ExSqliteError(rusqlite::Error);

/// `csv::Error`: a failure of reading CSV. Carried through unread.
#[verifier::external_type_specification]
#[verifier::external_body]
pub struct ExCsvError(csv::Error);

/// `regex::Error`: why a pattern did not compile. Carried through unread.
#[verifier::external_type_specification]
#[verifier::external_body]
pub struct ExRegexError(regex::Error);

/// `ndarray::ShapeError`: a mismatch of array shapes. Carried through unread.
#[verifier::external_type_specification]
#[verifier::external_body]
pub struct ExShapeError(ndarray::ShapeError);

/// `hex::FromHexError`: why a text is no hexadecimal number. Carried through
/// unread.
#[verifier::external_type_specification]
#[verifier::external_body]
pub struct ExFromHexError(hex::FromHexError);

/// Where a value could not be produced.
#[derive(Debug)]
pub enum ProduceContext {
    NoContext,
    Context(String),
}

impl ProduceContext {
    /// The text that stands for this context in a message.
    pub open spec fn text(self) -> Seq<char> {
        match self {
            ProduceContext::NoContext => "No Context"@,
            ProduceContext::Context(s) => s@,
        }
    }

    /// The context that an optional description stands for.
    pub open spec fn of(val: Option<String>) -> ProduceContext {
        match val {
            Some(c) => ProduceContext::Context(c),
            None => ProduceContext::NoContext,
        }
    }

    /// Renders the context for a message.
    pub fn render(&self) -> (s: String)
        ensures
            s@ == self.text(),
    {
        match self {
            ProduceContext::NoContext => "No Context".to_owned(),
            ProduceContext::Context(s) => s.clone(),
        }
    }
}

impl From<Option<String>> for ProduceContext {
    fn from(val: Option<String>) -> (r: Self) {
        match val {
            Some(c) => ProduceContext::Context(c),
            None => ProduceContext::NoContext,
        }
    }
}

impl vstd::std_specs::convert::FromSpecImpl<Option<String>> for ProduceContext {
    open spec fn obeys_from_spec() -> bool {
        true
    }

    open spec fn from_spec(val: Option<String>) -> Self {
        ProduceContext::of(val)
    }
}

/// Errors that a transfer can end with.
#[derive(Debug)]
pub enum ConnectorAgentError {
    /// A value's native type is not the one that the column declares: what the
    /// column expects, and what was found.
    TypeCheckFailed(String, &'static str),
    /// A position outside a buffer or a window.
    OutOfBound,
    /// The order is not one that this side supports.
    UnsupportedDataOrder(DataOrder),
    /// No order is common to the source's and the destination's lists.
    CannotResolveDataOrder(Vec<DataOrder>, Vec<DataOrder>),
    /// A value of the named type could not be produced.
    CannotProduce(&'static str, ProduceContext),
    /// The destination was allocated before.
    DuplicatedAllocation,
    /// The destination has not been allocated yet.
    DestinationNotAllocated,
    /// No rule converts the source type into a type of the destination.
    NoConversionRule(String, String),
    /// The query is not a single `SELECT` statement.
    SQLQueryNotSupported(String),
    /// The query cannot be partitioned.
    SQLQueryPartitionNotSupported(String),
    /// Reading or writing failed.
    IOError(std::io::Error),
    /// The connection pool failed.
    PostgresPoolError(r2d2::Error),
    /// The Postgres driver failed.
    PostgresError(postgres::Error),
    /// The MySQL driver failed.
    MysqlError(r2d2_mysql::mysql::Error),
    /// The connection URL was refused.
    MysqlUrlError(r2d2_mysql::mysql::UrlError),
    /// The SQLite driver failed.
    SQLiteError(rusqlite::Error),
    /// Reading CSV failed.
    CSVError(csv::Error),
    /// The query text did not parse.
    SQLParserError(sqlparser::parser::ParserError),
    /// A pattern did not compile.
    RegexError(regex::Error),
    /// Array shapes do not match.
    NdArrayShapeError(ndarray::ShapeError),
    /// The columnar library failed.
    ArrowError(arrow::error::ArrowError),
    /// A text is no hexadecimal number.
    HexError(hex::FromHexError),
    /// Any other failure, by its message.
    Other(String),
}

impl ConnectorAgentError {
    /// The error for a value of type `T` that could not be produced.
    pub fn cannot_produce<T: Transport>(context: Option<String>) -> (e: Self)
        ensures
            e matches ConnectorAgentError::CannotProduce(name, ctx)
                && name@ == T::label_spec()
                && ctx == ProduceContext::of(context),
    {
        ConnectorAgentError::CannotProduce(T::label(), ProduceContext::from(context))
    }
}

} // verus!
