//! The MySQL source: metadata discovery, partitions and their buffered parsers.
//!
//! The driver's work (connecting, running a statement, pulling rows) is done by
//! the caller. Each type here holds one side's state and decides, from what the
//! driver answered, what happens next.

use crate::data_order::DataOrder;
use crate::errors::ConnectorAgentError;
use crate::sql::{get_limit, limit_answer, LimitAnswer};
use crate::typesystem::MysqlTypeSystem;
use crate::value::{copy_texts, row_slots, texts, Cell, Slot, Transport};
use r2d2_mysql::mysql::{Opts, UrlError};
use crate::layout::{lemma_cell_place, lemma_cell_within};
use vstd::arithmetic::div_mod::{lemma_fundamental_div_mod, lemma_fundamental_div_mod_converse};
use vstd::prelude::*;

verus! {

/// `r2d2_mysql::mysql::Opts`: the connection options that the driver reads off a
/// URL. Carried through unread.
#[verifier::external_type_specification]
#[verifier::external_body]
pub struct ExOpts(Opts);

/// Whether `mysql::Opts::from_url` accepts a connection URL.
pub uninterp spec fn url_accepted(url: Seq<char>) -> bool;

/// Calls `mysql::Opts::from_url`, which parses the URL and reads the options off
/// it without connecting. Nothing is claimed about which URLs are accepted:
/// acceptance only gets its name.
#[verifier::external_body]
fn parse_url(url: &str) -> (r: Result<Opts, UrlError>)
    ensures
        r is Ok == url_accepted(url@),
{
    Opts::from_url(url)
}

/// A column as a probe reports it.
#[derive(Debug)]
pub struct ColumnMeta {
    pub name: String,
    pub ty: MysqlTypeSystem,
}

impl View for ColumnMeta {
    type V = (Seq<char>, MysqlTypeSystem);

    open spec fn view(&self) -> (Seq<char>, MysqlTypeSystem) {
        (self.name@, self.ty)
    }
}

/// The views of a list of columns.
pub open spec fn metas(v: Seq<ColumnMeta>) -> Seq<(Seq<char>, MysqlTypeSystem)> {
    v.map_values(|m: ColumnMeta| m@)
}

/// The names of a list of columns.
pub open spec fn column_names(cols: Seq<(Seq<char>, MysqlTypeSystem)>) -> Seq<Seq<char>> {
    cols.map_values(|c: (Seq<char>, MysqlTypeSystem)| c.0)
}

/// The types of a list of columns.
pub open spec fn column_types(cols: Seq<(Seq<char>, MysqlTypeSystem)>) -> Seq<MysqlTypeSystem> {
    cols.map_values(|c: (Seq<char>, MysqlTypeSystem)| c.1)
}

/// The schema of `n` columns of which only the names are known: every column
/// is a nullable string.
pub open spec fn string_schema(n: nat) -> Seq<MysqlTypeSystem> {
    Seq::new(n, |i: int| MysqlTypeSystem::VarChar(true))
}

/// What the driver answered to the single-row probe of one query.
pub enum ProbeOutcome {
    /// A row came back, with these columns.
    Row(Vec<ColumnMeta>),
    /// The query has no row.
    Empty,
    /// The driver failed.
    Failed(r2d2_mysql::mysql::Error),
}

/// A probe's answer as a mathematical value.
pub enum Outcome {
    Row(Seq<(Seq<char>, MysqlTypeSystem)>),
    Empty,
    Failed(r2d2_mysql::mysql::Error),
}

impl View for ProbeOutcome {
    type V = Outcome;

    open spec fn view(&self) -> Outcome {
        match *self {
            ProbeOutcome::Row(cols) => Outcome::Row(metas(cols@)),
            ProbeOutcome::Empty => Outcome::Empty,
            ProbeOutcome::Failed(e) => Outcome::Failed(e),
        }
    }
}

/// The columns of the first answer that brought a row.
pub open spec fn first_row(h: Seq<Outcome>) -> Option<Seq<(Seq<char>, MysqlTypeSystem)>>
    decreases h.len(),
{
    if h.len() == 0 {
        None
    } else {
        match first_row(h.drop_last()) {
            Some(cols) => Some(cols),
            None => match h.last() {
                Outcome::Row(cols) => Some(cols),
                _ => None,
            },
        }
    }
}

/// The error of the last answer that was a failure.
pub open spec fn last_failure(h: Seq<Outcome>) -> Option<r2d2_mysql::mysql::Error>
    decreases h.len(),
{
    if h.len() == 0 {
        None
    } else {
        match h.last() {
            Outcome::Failed(e) => Some(e),
            _ => last_failure(h.drop_last()),
        }
    }
}

/// Whether every answer says that the query has no row.
pub open spec fn all_empty(h: Seq<Outcome>) -> bool
    decreases h.len(),
{
    h.len() == 0 || (h.last() is Empty && all_empty(h.drop_last()))
}

/// What the column description of the first query brought: the names, or the
/// driver's error.
pub open spec fn description_view(d: Option<Result<Vec<String>, r2d2_mysql::mysql::Error>>) -> Option<
    Result<Seq<Seq<char>>, r2d2_mysql::mysql::Error>,
> {
    match d {
        None => None,
        Some(Ok(names)) => Some(Ok(texts(names@))),
        Some(Err(e)) => Some(Err(e)),
    }
}

/// Where the metadata discovery stands.
pub enum Resolution {
    /// The query with this index is to be probed.
    Probe(int),
    /// No query has a row: the columns of the first query are to be described.
    Describe,
    /// A probe brought a row with these columns.
    Found(Seq<(Seq<char>, MysqlTypeSystem)>),
    /// The description brought these names.
    Described(Seq<Seq<char>>),
    /// No probe brought a row and the driver failed, last with this error.
    Failed(r2d2_mysql::mysql::Error),
}

/// The state of the discovery over `n` queries after the probes of the first
/// queries were answered by `probes`, in order, and the description, if it was
/// asked for, by `description`. The first row settles the metadata. Without
/// one, every query is probed; then, if none had a row, the first query is
/// described, and otherwise the last failure is the result.
pub open spec fn resolution(
    n: int,
    probes: Seq<Outcome>,
    description: Option<Result<Seq<Seq<char>>, r2d2_mysql::mysql::Error>>,
) -> Resolution {
    match first_row(probes) {
        Some(cols) => Resolution::Found(cols),
        None => if probes.len() < n {
            Resolution::Probe(probes.len() as int)
        } else if all_empty(probes) {
            match description {
                None => Resolution::Describe,
                Some(Ok(names)) => Resolution::Described(names),
                Some(Err(e)) => Resolution::Failed(e),
            }
        } else {
            match last_failure(probes) {
                Some(e) => Resolution::Failed(e),
                None => Resolution::Describe,
            }
        },
    }
}

/// Answers without a row, not all of them empty, hold a failure.
pub proof fn lemma_failure_recorded(h: Seq<Outcome>)
    requires
        first_row(h) is None,
        !all_empty(h),
    ensures
        last_failure(h) is Some,
    decreases h.len(),
{
    if h.len() > 0 {
        match h.last() {
            Outcome::Failed(_) => {},
            Outcome::Row(_) => {},
            Outcome::Empty => {
                lemma_failure_recorded(h.drop_last());
            },
        }
    }
}

/// What the caller is to do next for the metadata.
#[derive(Clone, Copy, Debug, PartialEq, Eq, Structural)]
pub enum MetadataStep {
    /// Run the single-row rewrite of the query with this index and record the
    /// answer.
    Probe(usize),
    /// Describe the columns of the first query and record the answer.
    Describe,
    /// Names and schema are known.
    Done,
}

/// The state of a MySQL source: its connection options, the partition
/// queries, the metadata once discovered, and how far the discovery has come.
pub struct MysqlSource {
    opts: Opts,
    nconn: usize,
    queries: Vec<String>,
    names: Vec<String>,
    schema: Vec<MysqlTypeSystem>,
    buf_size: usize,
    answered: usize,
    found: Option<Vec<ColumnMeta>>,
    zero_tuple: bool,
    error: Option<r2d2_mysql::mysql::Error>,
    description: Option<Result<Vec<String>, r2d2_mysql::mysql::Error>>,
    probes: Ghost<Seq<Outcome>>,
}

impl MysqlSource {
    /// The partition queries.
    pub closed spec fn queries_spec(&self) -> Seq<Seq<char>> {
        texts(self.queries@)
    }

    /// The column names.
    pub closed spec fn names_spec(&self) -> Seq<Seq<char>> {
        texts(self.names@)
    }

    /// The column types.
    pub closed spec fn schema_spec(&self) -> Seq<MysqlTypeSystem> {
        self.schema@
    }

    /// The number of rows that a partition's parser buffers.
    pub closed spec fn buf_size_spec(&self) -> usize {
        self.buf_size
    }

    /// The number of connections that the pool may open.
    pub closed spec fn nconn_spec(&self) -> usize {
        self.nconn
    }

    /// The connection options.
    pub closed spec fn opts_spec(&self) -> Opts {
        self.opts
    }

    /// The answers to the probes made since the queries were set, in order.
    pub closed spec fn probes(&self) -> Seq<Outcome> {
        self.probes@
    }

    /// The answer to the description, if one was recorded.
    pub closed spec fn description_spec(&self) -> Option<Result<Seq<Seq<char>>, r2d2_mysql::mysql::Error>> {
        description_view(self.description)
    }

    /// Where the discovery stands.
    pub open spec fn resolution(&self) -> Resolution {
        resolution(self.queries_spec().len() as int, self.probes(), self.description_spec())
    }

    /// The invariant of the state: what is kept of the answers agrees with them.
    pub closed spec fn wf(&self) -> bool {
        &&& self.answered == self.probes@.len()
        &&& self.probes@.len() <= self.queries@.len()
        &&& match self.found {
            Some(cols) => first_row(self.probes@) == Some(metas(cols@)),
            None => first_row(self.probes@) is None,
        }
        &&& self.zero_tuple == all_empty(self.probes@)
        &&& self.error == last_failure(self.probes@)
        &&& self.description is Some ==> {
            &&& self.found is None
            &&& self.probes@.len() == self.queries@.len()
            &&& self.zero_tuple
        }
    }

    /// Whether `other` has the settings of `self`: options, pool size, queries
    /// and buffer size.
    pub open spec fn same_settings(&self, other: &MysqlSource) -> bool {
        &&& self.opts_spec() == other.opts_spec()
        &&& self.nconn_spec() == other.nconn_spec()
        &&& self.queries_spec() == other.queries_spec()
        &&& self.buf_size_spec() == other.buf_size_spec()
    }

    /// Whether `other` has the metadata of `self`.
    pub open spec fn same_metadata(&self, other: &MysqlSource) -> bool {
        &&& self.names_spec() == other.names_spec()
        &&& self.schema_spec() == other.schema_spec()
    }

    /// Whether the discovery of `other` stands where that of `self` stands.
    pub open spec fn same_discovery(&self, other: &MysqlSource) -> bool {
        &&& self.probes() == other.probes()
        &&& self.description_spec() == other.description_spec()
    }

    /// What a call of `fetch_metadata` makes of a source: `after` is the
    /// source after the call, and `r` the call's result.
    pub open spec fn fetched(
        &self,
        after: &MysqlSource,
        r: Result<MetadataStep, ConnectorAgentError>,
    ) -> bool {
        &&& self.same_settings(after)
        &&& match self.resolution() {
            Resolution::Probe(i) => {
                &&& r matches Ok(MetadataStep::Probe(k))
                &&& k == i
                &&& self.same_metadata(after)
                &&& self.same_discovery(after)
            },
            Resolution::Describe => {
                &&& r matches Ok(MetadataStep::Describe)
                &&& self.same_metadata(after)
                &&& self.same_discovery(after)
            },
            Resolution::Found(cols) => {
                &&& r matches Ok(MetadataStep::Done)
                &&& after.names_spec() == column_names(cols)
                &&& after.schema_spec() == column_types(cols)
                &&& self.same_discovery(after)
            },
            Resolution::Described(names) => {
                &&& r matches Ok(MetadataStep::Done)
                &&& after.names_spec() == names
                &&& after.schema_spec() == string_schema(names.len())
                &&& self.same_discovery(after)
            },
            Resolution::Failed(e) => {
                &&& r matches Err(ConnectorAgentError::MysqlError(driver))
                &&& driver == e
                &&& self.same_metadata(after)
                &&& after.probes() == Seq::<Outcome>::empty()
                &&& after.description_spec() is None
            },
        }
    }

    /// Fetching the metadata again changes nothing: a second call right after
    /// one that settled names and schema settles the same names and the same
    /// schema.
    pub proof fn lemma_fetch_twice(
        &self,
        once: &MysqlSource,
        twice: &MysqlSource,
        r: Result<MetadataStep, ConnectorAgentError>,
    )
        requires
            self.fetched(once, Ok(MetadataStep::Done)),
            once.fetched(twice, r),
        ensures
            r matches Ok(MetadataStep::Done),
            twice.names_spec() == once.names_spec(),
            twice.schema_spec() == once.schema_spec(),
    {
    }

    /// Names and schema come in pairs: once the metadata is settled there is
    /// one type per name.
    pub proof fn lemma_fetched_lengths(
        &self,
        after: &MysqlSource,
    )
        requires
            self.fetched(after, Ok(MetadataStep::Done)),
        ensures
            after.names_spec().len() == after.schema_spec().len(),
    {
    }

    /// The source for already parsed connection options: no queries, no
    /// metadata, a buffer of 32 rows.
    pub fn with_options(parsed: Result<Opts, UrlError>, nconn: usize) -> (r: Result<
        MysqlSource,
        ConnectorAgentError,
    >)
        ensures
            match r {
                Ok(s) => {
                    &&& parsed == Ok::<Opts, UrlError>(s.opts_spec())
                    &&& s.wf()
                    &&& s.nconn_spec() == nconn
                    &&& s.queries_spec() == Seq::<Seq<char>>::empty()
                    &&& s.names_spec() == Seq::<Seq<char>>::empty()
                    &&& s.schema_spec() == Seq::<MysqlTypeSystem>::empty()
                    &&& s.buf_size_spec() == 32
                    &&& s.probes() == Seq::<Outcome>::empty()
                    &&& s.description_spec() is None
                },
                Err(e) => parsed == Err::<Opts, UrlError>(e->MysqlUrlError_0) && e is MysqlUrlError,
            },
    {
        match parsed {
            Ok(opts) => {
                let s = MysqlSource {
                    opts,
                    nconn,
                    queries: Vec::new(),
                    names: Vec::new(),
                    schema: Vec::new(),
                    buf_size: 32,
                    answered: 0,
                    found: None,
                    zero_tuple: true,
                    error: None,
                    description: None,
                    probes: Ghost(Seq::empty()),
                };
                assert(s.queries_spec() =~= Seq::<Seq<char>>::empty());
                assert(s.names_spec() =~= Seq::<Seq<char>>::empty());
                Ok(s)
            },
            Err(e) => Err(ConnectorAgentError::MysqlUrlError(e)),
        }
    }

    /// The source for a connection URL and a pool of at most `nconn`
    /// connections. A URL that the driver refuses is a `MysqlUrlError`.
    pub fn new(conn: &str, nconn: usize) -> (r: Result<MysqlSource, ConnectorAgentError>)
        ensures
            r is Ok == url_accepted(conn@),
            match r {
                Ok(s) => {
                    &&& s.wf()
                    &&& s.nconn_spec() == nconn
                    &&& s.queries_spec() == Seq::<Seq<char>>::empty()
                    &&& s.names_spec() == Seq::<Seq<char>>::empty()
                    &&& s.schema_spec() == Seq::<MysqlTypeSystem>::empty()
                    &&& s.buf_size_spec() == 32
                    &&& s.probes() == Seq::<Outcome>::empty()
                    &&& s.description_spec() is None
                },
                Err(e) => e is MysqlUrlError,
            },
    {
        MysqlSource::with_options(parse_url(conn), nconn)
    }

    /// Sets the number of rows that a partition's parser buffers.
    pub fn buf_size(&mut self, buf_size: usize)
        requires
            old(self).wf(),
        ensures
            final(self).wf(),
            final(self).buf_size_spec() == buf_size,
            final(self).opts_spec() == old(self).opts_spec(),
            final(self).nconn_spec() == old(self).nconn_spec(),
            final(self).queries_spec() == old(self).queries_spec(),
            old(self).same_metadata(final(self)),
            old(self).same_discovery(final(self)),
    {
        self.buf_size = buf_size;
    }

    /// The orders that this source can stream in, by preference.
    pub fn data_orders() -> (orders: Vec<DataOrder>)
        ensures
            orders@ == seq![DataOrder::RowMajor],
    {
        let mut orders: Vec<DataOrder> = Vec::new();
        orders.push(DataOrder::RowMajor);
        assert(orders@ =~= seq![DataOrder::RowMajor]);
        orders
    }

    /// Accepts `data_order` if the source can stream in it.
    pub fn set_data_order(&mut self, data_order: DataOrder) -> (r: Result<(), ConnectorAgentError>)
        ensures
            *final(self) == *old(self),
            match r {
                Ok(()) => data_order == DataOrder::RowMajor,
                Err(ConnectorAgentError::UnsupportedDataOrder(o)) => {
                    o == data_order && data_order != DataOrder::RowMajor
                },
                Err(_) => false,
            },
    {
        match data_order {
            DataOrder::RowMajor => Ok(()),
            _ => Err(ConnectorAgentError::UnsupportedDataOrder(data_order)),
        }
    }

    /// Stores the partition queries as they are and starts the discovery of
    /// the metadata anew.
    pub fn set_queries(&mut self, queries: &[String])
        requires
            old(self).wf(),
        ensures
            final(self).wf(),
            final(self).queries_spec() == texts(queries@),
            final(self).opts_spec() == old(self).opts_spec(),
            final(self).nconn_spec() == old(self).nconn_spec(),
            final(self).buf_size_spec() == old(self).buf_size_spec(),
            old(self).same_metadata(final(self)),
            final(self).probes() == Seq::<Outcome>::empty(),
            final(self).description_spec() is None,
    {
        self.queries = copy_texts(queries);
        self.answered = 0;
        self.found = None;
        self.zero_tuple = true;
        self.error = None;
        self.description = None;
        self.probes = Ghost(Seq::empty());
    }

    /// Records the answer to the probe that `fetch_metadata` asked for. Without
    /// a probe pending the answer is refused and nothing changes.
    pub fn record_probe(&mut self, outcome: ProbeOutcome) -> (r: Result<(), ConnectorAgentError>)
        requires
            old(self).wf(),
        ensures
            final(self).wf(),
            old(self).same_settings(final(self)),
            old(self).same_metadata(final(self)),
            final(self).description_spec() == old(self).description_spec(),
            match r {
                Ok(()) => {
                    &&& old(self).resolution() is Probe
                    &&& final(self).probes() == old(self).probes().push(outcome@)
                },
                Err(ConnectorAgentError::OutOfBound) => {
                    &&& !(old(self).resolution() is Probe)
                    &&& final(self).probes() == old(self).probes()
                },
                Err(_) => false,
            },
    {
        if self.found.is_some() || self.answered >= self.queries.len() {
            return Err(ConnectorAgentError::OutOfBound);
        }
        let ghost before = self.probes@;
        let ghost after = before.push(outcome@);
        proof {
            assert(after.drop_last() =~= before);
            assert(after.last() == outcome@);
        }
        self.probes = Ghost(after);
        self.answered = self.answered + 1;
        match outcome {
            ProbeOutcome::Row(cols) => {
                self.found = Some(cols);
                self.zero_tuple = false;
            },
            ProbeOutcome::Empty => {},
            ProbeOutcome::Failed(e) => {
                self.error = Some(e);
                self.zero_tuple = false;
            },
        }
        Ok(())
    }

    /// Records the answer to the description that `fetch_metadata` asked for.
    /// Without a description pending the answer is refused and nothing changes.
    pub fn record_description(&mut self, outcome: Result<Vec<String>, r2d2_mysql::mysql::Error>) -> (r:
        Result<(), ConnectorAgentError>)
        requires
            old(self).wf(),
        ensures
            final(self).wf(),
            old(self).same_settings(final(self)),
            old(self).same_metadata(final(self)),
            final(self).probes() == old(self).probes(),
            match r {
                Ok(()) => {
                    &&& old(self).resolution() is Describe
                    &&& final(self).description_spec() == description_view(Some(outcome))
                },
                Err(ConnectorAgentError::OutOfBound) => {
                    &&& !(old(self).resolution() is Describe)
                    &&& final(self).description_spec() == old(self).description_spec()
                },
                Err(_) => false,
            },
    {
        if self.found.is_some() || self.answered < self.queries.len() || !self.zero_tuple
            || self.description.is_some() {
            proof {
                if !self.zero_tuple && self.found is None {
                    lemma_failure_recorded(self.probes@);
                }
            }
            return Err(ConnectorAgentError::OutOfBound);
        }
        self.description = Some(outcome);
        Ok(())
    }

    /// Drives the discovery of names and schema. While an answer is missing,
    /// says which: the probe of a query, or the description of the first one,
    /// and changes nothing. Once the answers settle the metadata, stores it:
    /// names and types of the first row that a probe brought, or, where no
    /// query has a row, the described names with every column a nullable
    /// string. Where no probe brought a row and the driver failed, the result is
    /// its last error, and the discovery starts anew.
    pub fn fetch_metadata(&mut self) -> (r: Result<MetadataStep, ConnectorAgentError>)
        requires
            old(self).wf(),
            old(self).queries_spec().len() > 0,
        ensures
            final(self).wf(),
            old(self).fetched(final(self), r),
    {
        if self.found.is_some() {
            let mut names: Vec<String> = Vec::new();
            let mut schema: Vec<MysqlTypeSystem> = Vec::new();
            match &self.found {
                Some(cols) => {
                    let mut i: usize = 0;
                    while i < cols.len()
                        invariant
                            i <= cols.len(),
                            names@.len() == i,
                            schema@.len() == i,
                            forall|k: int| 0 <= k < i ==> (#[trigger] names@[k])@ == cols@[k].name@,
                            forall|k: int| 0 <= k < i ==> #[trigger] schema@[k] == cols@[k].ty,
                        decreases cols.len() - i,
                    {
                        names.push(cols[i].name.clone());
                        schema.push(cols[i].ty);
                        i += 1;
                    }
                    assert(texts(names@) =~= column_names(metas(cols@)));
                    assert(schema@ =~= column_types(metas(cols@)));
                },
                None => {},
            }
            self.names = names;
            self.schema = schema;
            return Ok(MetadataStep::Done);
        }
        if self.answered < self.queries.len() {
            return Ok(MetadataStep::Probe(self.answered));
        }
        if !self.zero_tuple {
            proof {
                lemma_failure_recorded(self.probes@);
            }
            let mut taken: Option<r2d2_mysql::mysql::Error> = None;
            std::mem::swap(&mut self.error, &mut taken);
            self.answered = 0;
            self.zero_tuple = true;
            self.probes = Ghost(Seq::empty());
            match taken {
                Some(e) => {
                    return Err(ConnectorAgentError::MysqlError(e));
                },
                None => vstd::pervasive::unreached(),
            }
        }
        let mut taken: Option<Result<Vec<String>, r2d2_mysql::mysql::Error>> = None;
        std::mem::swap(&mut self.description, &mut taken);
        match taken {
            None => Ok(MetadataStep::Describe),
            Some(Ok(described)) => {
                let mut schema: Vec<MysqlTypeSystem> = Vec::new();
                let mut i: usize = 0;
                while i < described.len()
                    invariant
                        i <= described.len(),
                        schema@.len() == i,
                        forall|k: int| 0 <= k < i ==> #[trigger] schema@[k] == MysqlTypeSystem::VarChar(true),
                    decreases described.len() - i,
                {
                    schema.push(MysqlTypeSystem::VarChar(true));
                    i += 1;
                }
                assert(schema@ =~= string_schema(texts(described@).len()));
                self.names = copy_texts(described.as_slice());
                self.schema = schema;
                self.description = Some(Ok(described));
                Ok(MetadataStep::Done)
            },
            Some(Err(e)) => {
                self.answered = 0;
                self.error = None;
                self.probes = Ghost(Seq::empty());
                Err(ConnectorAgentError::MysqlError(e))
            },
        }
    }

    /// The column names.
    pub fn names(&self) -> (names: Vec<String>)
        ensures
            texts(names@) == self.names_spec(),
    {
        copy_texts(self.names.as_slice())
    }

    /// The column types.
    pub fn schema(&self) -> (schema: Vec<MysqlTypeSystem>)
        ensures
            schema@ == self.schema_spec(),
    {
        self.schema.clone()
    }

    /// The partition queries.
    pub fn queries(&self) -> (queries: &Vec<String>)
        ensures
            texts(queries@) == self.queries_spec(),
    {
        &self.queries
    }

    /// The number of connections that the pool may open.
    pub fn nconn(&self) -> (n: usize)
        ensures
            n == self.nconn_spec(),
    {
        self.nconn
    }

    /// The connection options.
    pub fn opts(&self) -> (opts: &Opts)
        ensures
            *opts == self.opts_spec(),
    {
        &self.opts
    }

    /// Splits the source into one partition per query, in order. Every
    /// partition gets the source's schema and buffer size and knows no row
    /// count yet.
    pub fn partition(self) -> (parts: Vec<MysqlSourcePartition>)
        ensures
            parts@.len() == self.queries_spec().len(),
            forall|i: int|
                0 <= i < parts@.len() ==> {
                    &&& (#[trigger] parts@[i]).wf()
                    &&& parts@[i].query_spec() == self.queries_spec()[i]
                    &&& parts@[i].schema_spec() == self.schema_spec()
                    &&& parts@[i].buf_size_spec() == self.buf_size_spec()
                    &&& parts@[i].nrows_spec() == 0
                    &&& parts@[i].ncols_spec() == self.schema_spec().len()
                },
    {
        let mut parts: Vec<MysqlSourcePartition> = Vec::new();
        let mut i: usize = 0;
        while i < self.queries.len()
            invariant
                i <= self.queries.len(),
                parts@.len() == i,
                forall|k: int|
                    0 <= k < i ==> {
                        &&& (#[trigger] parts@[k]).wf()
                        &&& parts@[k].query_spec() == self.queries@[k]@
                        &&& parts@[k].schema_spec() == self.schema@
                        &&& parts@[k].buf_size_spec() == self.buf_size
                        &&& parts@[k].nrows_spec() == 0
                        &&& parts@[k].ncols_spec() == self.schema@.len()
                    },
            decreases self.queries.len() - i,
        {
            let part = MysqlSourcePartition::new(
                self.queries[i].as_str(),
                self.schema.as_slice(),
                self.buf_size,
            );
            parts.push(part);
            i += 1;
        }
        parts
    }
}

/// What the caller is to do next for a partition's row count.
#[derive(Clone, Copy, Debug, PartialEq, Eq, Structural)]
pub enum PrepareStep {
    /// The row count is known.
    Ready,
    /// Run the counting rewrite of the query and record the answer.
    Count,
}

/// One partition of a MySQL source: a query, the schema of its rows, and the
/// number of rows once that is known.
pub struct MysqlSourcePartition {
    query: String,
    schema: Vec<MysqlTypeSystem>,
    nrows: usize,
    ncols: usize,
    buf_size: usize,
}

/// The message for a counting query that brought no row.
pub open spec fn count_failure(query: Seq<char>) -> Seq<char> {
    "mysql failed to get the count of query: "@ + query
}

impl MysqlSourcePartition {
    /// The partition's query.
    pub closed spec fn query_spec(&self) -> Seq<char> {
        self.query@
    }

    /// The types of the partition's columns.
    pub closed spec fn schema_spec(&self) -> Seq<MysqlTypeSystem> {
        self.schema@
    }

    /// The number of rows, 0 until it is known.
    pub closed spec fn nrows_spec(&self) -> usize {
        self.nrows
    }

    /// The number of columns.
    pub closed spec fn ncols_spec(&self) -> usize {
        self.ncols
    }

    /// The number of rows that the parser buffers.
    pub closed spec fn buf_size_spec(&self) -> usize {
        self.buf_size
    }

    /// The invariant of the state: there is one column per type of the schema.
    pub closed spec fn wf(&self) -> bool {
        self.ncols == self.schema@.len()
    }

    /// Whether `other` differs from `self` at most in the row count.
    pub open spec fn same_but_nrows(&self, other: &MysqlSourcePartition) -> bool {
        &&& self.query_spec() == other.query_spec()
        &&& self.schema_spec() == other.schema_spec()
        &&& self.ncols_spec() == other.ncols_spec()
        &&& self.buf_size_spec() == other.buf_size_spec()
    }

    /// A partition for `query` whose rows have the types of `schema`.
    pub fn new(query: &str, schema: &[MysqlTypeSystem], buf_size: usize) -> (part: Self)
        ensures
            part.wf(),
            part.query_spec() == query@,
            part.schema_spec() == schema@,
            part.nrows_spec() == 0,
            part.ncols_spec() == schema@.len(),
            part.buf_size_spec() == buf_size,
    {
        let mut copy: Vec<MysqlTypeSystem> = Vec::new();
        let mut i: usize = 0;
        while i < schema.len()
            invariant
                i <= schema.len(),
                copy@ == schema@.subrange(0, i as int),
            decreases schema.len() - i,
        {
            copy.push(schema[i]);
            assert(copy@ =~= schema@.subrange(0, i + 1));
            i += 1;
        }
        assert(schema@.subrange(0, schema@.len() as int) =~= schema@);
        MysqlSourcePartition {
            query: query.to_owned(),
            schema: copy,
            nrows: 0,
            ncols: schema.len(),
            buf_size,
        }
    }

    /// Settles the row count from what the query's text says of its limit: a
    /// limit is the row count; without one the rows have to be counted; a text
    /// that could not be read fails with its error.
    pub fn prepare_with(&mut self, limit: Result<Option<usize>, ConnectorAgentError>) -> (r: Result<
        PrepareStep,
        ConnectorAgentError,
    >)
        requires
            old(self).wf(),
        ensures
            final(self).wf(),
            old(self).same_but_nrows(final(self)),
            match limit {
                Ok(Some(n)) => r matches Ok(PrepareStep::Ready) && final(self).nrows_spec() == n,
                Ok(None) => {
                    &&& r matches Ok(PrepareStep::Count)
                    &&& final(self).nrows_spec() == old(self).nrows_spec()
                },
                Err(e) => r == Err::<PrepareStep, ConnectorAgentError>(e) && final(self).nrows_spec() == old(
                    self,
                ).nrows_spec(),
            },
    {
        match limit {
            Ok(Some(n)) => {
                self.nrows = n;
                Ok(PrepareStep::Ready)
            },
            Ok(None) => Ok(PrepareStep::Count),
            Err(e) => Err(e),
        }
    }

    /// Settles the row count where the query fixes it: a `LIMIT n` makes it
    /// `n`, and nothing is counted. Without a limit the rows have to be counted.
    /// A query that the parser refuses is a `SQLParserError`, and one that is
    /// not of a supported form a `SQLQueryNotSupported` with its text.
    pub fn prepare(&mut self) -> (r: Result<PrepareStep, ConnectorAgentError>)
        requires
            old(self).wf(),
        ensures
            final(self).wf(),
            old(self).same_but_nrows(final(self)),
            match limit_answer(old(self).query_spec()) {
                LimitAnswer::Limit(Some(n)) => {
                    &&& r matches Ok(PrepareStep::Ready)
                    &&& final(self).nrows_spec() == n
                },
                LimitAnswer::Limit(None) => {
                    &&& r matches Ok(PrepareStep::Count)
                    &&& final(self).nrows_spec() == old(self).nrows_spec()
                },
                LimitAnswer::Unparsed => {
                    &&& r matches Err(ConnectorAgentError::SQLParserError(_))
                    &&& final(self).nrows_spec() == old(self).nrows_spec()
                },
                LimitAnswer::Unsupported => {
                    &&& r matches Err(ConnectorAgentError::SQLQueryNotSupported(q))
                    &&& q@ == old(self).query_spec()
                    &&& final(self).nrows_spec() == old(self).nrows_spec()
                },
            },
    {
        let limit = get_limit(self.query.as_str());
        self.prepare_with(limit)
    }

    /// Records the answer to the counting query: the count becomes the row
    /// count. No row is a failure, and so is an error of the driver.
    pub fn record_count(&mut self, count: Result<Option<usize>, r2d2_mysql::mysql::Error>) -> (r: Result<
        (),
        ConnectorAgentError,
    >)
        requires
            old(self).wf(),
        ensures
            final(self).wf(),
            old(self).same_but_nrows(final(self)),
            match count {
                Ok(Some(n)) => r is Ok && final(self).nrows_spec() == n,
                Ok(None) => {
                    &&& r matches Err(ConnectorAgentError::Other(msg))
                    &&& msg@ == count_failure(old(self).query_spec())
                    &&& final(self).nrows_spec() == old(self).nrows_spec()
                },
                Err(e) => {
                    &&& r matches Err(ConnectorAgentError::MysqlError(driver))
                    &&& driver == e
                    &&& final(self).nrows_spec() == old(self).nrows_spec()
                },
            },
    {
        match count {
            Ok(Some(n)) => {
                self.nrows = n;
                Ok(())
            },
            Ok(None) => {
                let msg = "mysql failed to get the count of query: ".to_owned().concat(
                    self.query.as_str(),
                );
                Err(ConnectorAgentError::Other(msg))
            },
            Err(e) => Err(ConnectorAgentError::MysqlError(e)),
        }
    }

    /// A parser for the partition's rows, with an empty buffer.
    pub fn parser(&self) -> (parser: MysqlSourcePartitionParser)
        requires
            self.wf(),
        ensures
            parser.wf(),
            parser.rows_spec() == Seq::<Seq<Slot>>::empty(),
            parser.delivered() == Seq::<Seq<Slot>>::empty(),
            parser.position() == (0int, 0int),
            parser.ncols_spec() == self.ncols_spec(),
            parser.buf_size_spec() == self.buf_size_spec(),
    {
        MysqlSourcePartitionParser::new(self.schema.as_slice(), self.buf_size)
    }

    /// The number of rows, 0 until it is known.
    pub fn nrows(&self) -> (n: usize)
        ensures
            n == self.nrows_spec(),
    {
        self.nrows
    }

    /// The number of columns.
    pub fn ncols(&self) -> (n: usize)
        ensures
            n == self.ncols_spec(),
    {
        self.ncols
    }

    /// The partition's query.
    pub fn query(&self) -> (q: &String)
        ensures
            q@ == self.query_spec(),
    {
        &self.query
    }

    /// The types of the partition's columns.
    pub fn schema(&self) -> (schema: &Vec<MysqlTypeSystem>)
        ensures
            schema@ == self.schema_spec(),
    {
        &self.schema
    }
}

/// The views of buffered rows.
pub open spec fn buffer_slots(rows: Seq<Vec<Cell>>) -> Seq<Seq<Slot>> {
    rows.map_values(|row: Vec<Cell>| row_slots(row@))
}

/// The position after the cell at `pos` in rows of `ncols` columns: the next
/// column, or the first column of the next row.
pub open spec fn next_position(pos: (int, int), ncols: int) -> (int, int) {
    if pos.1 + 1 < ncols {
        (pos.0, pos.1 + 1)
    } else {
        (pos.0 + 1, 0)
    }
}

/// The cell at row `r`, column `c` of `rows`, if the row is that long.
pub open spec fn cell_at(rows: Seq<Seq<Slot>>, r: int, c: int) -> Option<Slot> {
    if 0 <= r < rows.len() && 0 <= c < rows[r].len() {
        Some(rows[r][c])
    } else {
        None
    }
}

/// The message for a refill that brought no row.
pub open spec fn eof_message() -> Seq<char> {
    "Mysql EOF"@
}

/// The cursor over a partition's rows. It holds at most `buf_size` rows at a
/// time, which the caller pulls from the driver, and walks them cell by cell,
/// row after row and column after column.
pub struct MysqlSourcePartitionParser {
    buf_size: usize,
    rowbuf: Vec<Vec<Cell>>,
    ncols: usize,
    current_col: usize,
    current_row: usize,
    delivered: Ghost<Seq<Seq<Slot>>>,
}

impl MysqlSourcePartitionParser {
    /// All the rows that were delivered so far, in the order of their
    /// delivery: the partition's stream of rows, as far as it has come.
    pub closed spec fn delivered(&self) -> Seq<Seq<Slot>> {
        self.delivered@
    }

    /// The number of delivered rows that have left the buffer.
    pub open spec fn dropped(&self) -> int {
        self.delivered().len() - self.rows_spec().len()
    }

    /// The number of cells that were located so far, which is the place of
    /// the next cell in the stream, counted row after row.
    pub open spec fn cursor(&self) -> int {
        (self.dropped() + self.position().0) * self.ncols_spec() + self.position().1
    }

    /// The buffered rows.
    pub closed spec fn rows_spec(&self) -> Seq<Seq<Slot>> {
        buffer_slots(self.rowbuf@)
    }

    /// Row and column of the next cell, within the buffer.
    pub closed spec fn position(&self) -> (int, int) {
        (self.current_row as int, self.current_col as int)
    }

    /// The number of columns.
    pub closed spec fn ncols_spec(&self) -> usize {
        self.ncols
    }

    /// The most rows that the buffer holds.
    pub closed spec fn buf_size_spec(&self) -> usize {
        self.buf_size
    }

    /// The invariant of the state: the buffer is within its bound and the
    /// position within the buffer.
    pub closed spec fn wf(&self) -> bool {
        &&& self.rowbuf@.len() <= self.buf_size
        &&& self.current_row <= self.rowbuf@.len()
        &&& self.current_col < self.ncols || self.current_col == 0
        &&& self.current_row == self.rowbuf@.len() ==> self.current_col == 0
        &&& self.rowbuf@.len() <= self.delivered@.len()
        &&& buffer_slots(self.rowbuf@) == self.delivered@.subrange(
            self.delivered@.len() - self.rowbuf@.len(),
            self.delivered@.len() as int,
        )
    }

    /// Whether the position is past the buffered rows.
    pub open spec fn exhausted(&self) -> bool {
        self.position().0 >= self.rows_spec().len()
    }

    /// Whether a cell can be located: rows have a column, and the position
    /// is within the buffer.
    pub open spec fn located(&self) -> bool {
        self.ncols_spec() > 0 && !self.exhausted()
    }

    /// What the invariant says of the position: it lies within the buffer, of
    /// which the rows are no more than the bound, or right behind its last row.
    pub proof fn lemma_bounds(&self)
        requires
            self.wf(),
        ensures
            self.rows_spec().len() <= self.buf_size_spec(),
            0 <= self.position().0 <= self.rows_spec().len(),
            0 <= self.position().1,
            self.position().1 < self.ncols_spec() || self.position().1 == 0,
            self.position().0 == self.rows_spec().len() ==> self.position().1 == 0,
            self.rows_spec().len() <= self.delivered().len(),
            self.rows_spec() == self.delivered().subrange(
                self.dropped(),
                self.delivered().len() as int,
            ),
    {
    }

    /// The position as a function of the number of cells located: the cell
    /// that call `k` locates is cell `k % ncols` of row `k / ncols` of the
    /// stream, and the buffered row that the call addresses is that row. So
    /// every cell of the stream is located once, in the order of the stream.
    pub proof fn lemma_cursor(&self)
        requires
            self.wf(),
            self.ncols_spec() > 0,
        ensures
            0 <= self.cursor() <= self.delivered().len() * self.ncols_spec(),
            self.cursor() / (self.ncols_spec() as int) == self.dropped() + self.position().0,
            self.cursor() % (self.ncols_spec() as int) == self.position().1,
            self.exhausted() <==> self.cursor() == self.delivered().len() * self.ncols_spec(),
            !self.exhausted() ==> {
                &&& self.cursor() / (self.ncols_spec() as int) < self.delivered().len()
                &&& self.rows_spec()[self.position().0] == self.delivered()[self.cursor() / (
                self.ncols_spec() as int)]
            },
    {
        let n = self.ncols_spec() as int;
        let row = self.dropped() + self.position().0;
        let len = self.delivered().len() as int;
        lemma_cell_place(row, self.position().1, n);
        if row < len {
            lemma_cell_within(row, self.position().1, len, n);
        }
    }

    /// A refill after a full buffer, or the first one, leaves the number of
    /// rows that have left the buffer a multiple of the buffer's size.
    pub proof fn lemma_full_refill(&self, after: &MysqlSourcePartitionParser)
        requires
            self.wf(),
            self.buf_size_spec() > 0,
            self.dropped() % (self.buf_size_spec() as int) == 0,
            self.rows_spec().len() == self.buf_size_spec() || self.rows_spec().len() == 0,
            after.buf_size_spec() == self.buf_size_spec(),
            after.dropped() == self.delivered().len(),
        ensures
            after.dropped() % (after.buf_size_spec() as int) == 0,
    {
        let b = self.buf_size_spec() as int;
        if self.rows_spec().len() != 0 {
            lemma_fundamental_div_mod(self.dropped(), b);
            let q = self.dropped() / b;
            assert(self.dropped() + b == (q + 1) * b + 0) by (nonlinear_arith)
                requires
                    self.dropped() == b * q + 0,
            ;
            lemma_fundamental_div_mod_converse(self.dropped() + b, b, q + 1, 0);
        }
    }

    /// Where every refill before filled the buffer, the row that call `k`
    /// addresses in the buffer is row `(k / ncols) % buf_size`.
    pub proof fn lemma_full_buffers(&self)
        requires
            self.wf(),
            self.ncols_spec() > 0,
            self.buf_size_spec() > 0,
            !self.exhausted(),
            self.dropped() % (self.buf_size_spec() as int) == 0,
        ensures
            self.position().0 == (self.cursor() / (self.ncols_spec() as int)) % (
            self.buf_size_spec() as int),
    {
        let b = self.buf_size_spec() as int;
        let q = self.dropped() / b;
        self.lemma_cursor();
        self.lemma_bounds();
        lemma_fundamental_div_mod(self.dropped(), b);
        assert(self.dropped() == q * b) by (nonlinear_arith)
            requires
                self.dropped() == b * q + 0,
        ;
        lemma_fundamental_div_mod_converse(
            self.dropped() + self.position().0,
            b,
            self.dropped() / b,
            self.position().0,
        );
    }

    /// A parser for rows with one column per type of `schema`, with an empty
    /// buffer of at most `buf_size` rows.
    pub fn new(schema: &[MysqlTypeSystem], buf_size: usize) -> (parser: Self)
        ensures
            parser.wf(),
            parser.rows_spec() == Seq::<Seq<Slot>>::empty(),
            parser.delivered() == Seq::<Seq<Slot>>::empty(),
            parser.position() == (0int, 0int),
            parser.ncols_spec() == schema@.len(),
            parser.buf_size_spec() == buf_size,
    {
        let parser = MysqlSourcePartitionParser {
            buf_size,
            rowbuf: Vec::new(),
            ncols: schema.len(),
            current_row: 0,
            current_col: 0,
            delivered: Ghost(Seq::empty()),
        };
        assert(parser.rows_spec() =~= Seq::<Seq<Slot>>::empty());
        assert(parser.rows_spec() =~= parser.delivered@.subrange(0, 0));
        parser
    }

    /// The most rows that the buffer holds.
    pub fn buf_size(&self) -> (n: usize)
        ensures
            n == self.buf_size_spec(),
    {
        self.buf_size
    }

    /// The number of columns.
    pub fn ncols(&self) -> (n: usize)
        ensures
            n == self.ncols_spec(),
    {
        self.ncols
    }

    /// The column of the next cell.
    pub fn column(&self) -> (c: usize)
        ensures
            c == self.position().1,
    {
        self.current_col
    }

    /// Tells whether the buffer is used up, so that the next cell needs a
    /// refill.
    pub fn needs_rows(&self) -> (b: bool)
        ensures
            b == self.exhausted(),
    {
        self.current_row >= self.rowbuf.len()
    }

    /// Replaces the used-up buffer by the rows that the driver delivered, and
    /// puts the position at their first cell. No row at all is the end of the
    /// data, which is an error: the caller asks for no more rows than were
    /// counted. A refill before the buffer is used up, or with more rows than
    /// the buffer holds, is refused and changes nothing.
    pub fn refill(&mut self, rows: Vec<Vec<Cell>>) -> (r: Result<(), ConnectorAgentError>)
        requires
            old(self).wf(),
        ensures
            final(self).wf(),
            final(self).ncols_spec() == old(self).ncols_spec(),
            final(self).buf_size_spec() == old(self).buf_size_spec(),
            match r {
                Ok(()) => {
                    &&& old(self).exhausted()
                    &&& 0 < rows@.len() <= old(self).buf_size_spec()
                    &&& final(self).rows_spec() == buffer_slots(rows@)
                    &&& final(self).delivered() == old(self).delivered() + buffer_slots(rows@)
                    &&& final(self).position() == (0int, 0int)
                    &&& final(self).cursor() == old(self).cursor()
                },
                Err(ConnectorAgentError::Other(msg)) => {
                    &&& old(self).exhausted()
                    &&& rows@.len() == 0
                    &&& msg@ == eof_message()
                    &&& final(self).rows_spec() == Seq::<Seq<Slot>>::empty()
                    &&& final(self).delivered() == old(self).delivered()
                    &&& final(self).position() == (0int, 0int)
                    &&& final(self).cursor() == old(self).cursor()
                },
                Err(ConnectorAgentError::OutOfBound) => {
                    &&& !old(self).exhausted() || rows@.len() > old(self).buf_size_spec()
                    &&& final(self).rows_spec() == old(self).rows_spec()
                    &&& final(self).delivered() == old(self).delivered()
                    &&& final(self).position() == old(self).position()
                },
                Err(_) => false,
            },
    {
        if self.current_row < self.rowbuf.len() || rows.len() > self.buf_size {
            return Err(ConnectorAgentError::OutOfBound);
        }
        let empty = rows.len() == 0;
        let ghost before = self.delivered@;
        let ghost more = buffer_slots(rows@);
        proof {
            let n = self.ncols as int;
            assert((before.len() - self.rowbuf@.len() + self.current_row) * n == before.len() * n)
                by (nonlinear_arith)
                requires
                    self.current_row == self.rowbuf@.len(),
            ;
            assert((before + more).subrange(before.len() as int, (before + more).len() as int)
                =~= more);
            assert(before.subrange(before.len() as int, before.len() as int) =~= Seq::<
                Seq<Slot>,
            >::empty());
        }
        self.rowbuf = rows;
        self.current_row = 0;
        self.current_col = 0;
        if empty {
            assert(self.rows_spec() =~= Seq::<Seq<Slot>>::empty());
            return Err(ConnectorAgentError::Other("Mysql EOF".to_owned()));
        }
        self.delivered = Ghost(before + more);
        Ok(())
    }

    /// Row and column of the next cell; the position moves on by one cell.
    /// Rows must have a column. Where the buffer is used up no cell can be
    /// located: the answer is `OutOfBound` and nothing changes.
    pub fn next_loc(&mut self) -> (r: Result<(usize, usize), ConnectorAgentError>)
        requires
            old(self).wf(),
            old(self).ncols_spec() > 0,
        ensures
            final(self).wf(),
            final(self).ncols_spec() == old(self).ncols_spec(),
            final(self).buf_size_spec() == old(self).buf_size_spec(),
            final(self).rows_spec() == old(self).rows_spec(),
            final(self).delivered() == old(self).delivered(),
            match r {
                Ok(loc) => {
                    &&& old(self).located()
                    &&& (loc.0 as int, loc.1 as int) == old(self).position()
                    &&& final(self).position() == next_position(
                        old(self).position(),
                        old(self).ncols_spec() as int,
                    )
                    &&& final(self).cursor() == old(self).cursor() + 1
                },
                Err(ConnectorAgentError::OutOfBound) => {
                    &&& !old(self).located()
                    &&& final(self).position() == old(self).position()
                },
                Err(_) => false,
            },
    {
        if self.current_row >= self.rowbuf.len() {
            return Err(ConnectorAgentError::OutOfBound);
        }
        let ret = (self.current_row, self.current_col);
        proof {
            let n = self.ncols as int;
            let row = self.delivered@.len() - self.rowbuf@.len() + self.current_row;
            assert((row + 1) * n == row * n + n) by (nonlinear_arith);
        }
        if self.current_col + 1 < self.ncols {
            self.current_col = self.current_col + 1;
        } else {
            self.current_row = self.current_row + 1;
            self.current_col = 0;
        }
        Ok(ret)
    }

    /// The next cell as a value of type `T`; the position moves on by one
    /// cell. Rows must have a column. A cell that is missing from its row, a
    /// null, or a value of another type cannot be produced.
    pub fn produce<T: Transport>(&mut self) -> (r: Result<T, ConnectorAgentError>)
        requires
            old(self).wf(),
            old(self).ncols_spec() > 0,
        ensures
            final(self).wf(),
            final(self).ncols_spec() == old(self).ncols_spec(),
            final(self).buf_size_spec() == old(self).buf_size_spec(),
            final(self).rows_spec() == old(self).rows_spec(),
            final(self).delivered() == old(self).delivered(),
            !old(self).located() ==> {
                &&& r matches Err(ConnectorAgentError::OutOfBound)
                &&& final(self).position() == old(self).position()
            },
            old(self).located() ==> {
                &&& final(self).position() == next_position(
                    old(self).position(),
                    old(self).ncols_spec() as int,
                )
                &&& final(self).cursor() == old(self).cursor() + 1
                &&& match cell_at(old(self).rows_spec(), old(self).position().0, old(self).position().1) {
                    Some(slot) if slot.kind() == Some(T::kind_spec()) => r matches Ok(v) && v.slot()
                        == slot,
                    _ => {
                        &&& r matches Err(ConnectorAgentError::CannotProduce(name, ctx))
                        &&& name@ == T::label_spec()
                        &&& ctx is NoContext
                    },
                }
            },
    {
        let (ridx, cidx) = match self.next_loc() {
            Ok(loc) => loc,
            Err(e) => {
                return Err(e);
            },
        };
        let row = &self.rowbuf[ridx];
        if cidx >= row.len() {
            return Err(ConnectorAgentError::cannot_produce::<T>(None));
        }
        assert(self.rows_spec()[ridx as int][cidx as int] == row@[cidx as int]@);
        match T::from_cell(&row[cidx]) {
            Some(v) => Ok(v),
            None => Err(ConnectorAgentError::cannot_produce::<T>(None)),
        }
    }

    /// The next cell as an optional value of type `T`: `None` for a null and
    /// for a cell that is missing from its row. The position moves on by one
    /// cell. Rows must have a column. A value of another type cannot be
    /// produced.
    pub fn produce_opt<T: Transport>(&mut self) -> (r: Result<Option<T>, ConnectorAgentError>)
        requires
            old(self).wf(),
            old(self).ncols_spec() > 0,
        ensures
            final(self).wf(),
            final(self).ncols_spec() == old(self).ncols_spec(),
            final(self).buf_size_spec() == old(self).buf_size_spec(),
            final(self).rows_spec() == old(self).rows_spec(),
            final(self).delivered() == old(self).delivered(),
            !old(self).located() ==> {
                &&& r matches Err(ConnectorAgentError::OutOfBound)
                &&& final(self).position() == old(self).position()
            },
            old(self).located() ==> {
                &&& final(self).position() == next_position(
                    old(self).position(),
                    old(self).ncols_spec() as int,
                )
                &&& final(self).cursor() == old(self).cursor() + 1
                &&& match cell_at(old(self).rows_spec(), old(self).position().0, old(self).position().1) {
                    None => r matches Ok(None),
                    Some(Slot::Null) => r matches Ok(None),
                    Some(slot) if slot.kind() == Some(T::kind_spec()) => r matches Ok(Some(v))
                        && v.slot() == slot,
                    _ => {
                        &&& r matches Err(ConnectorAgentError::CannotProduce(name, ctx))
                        &&& name@ == T::label_spec()
                        &&& ctx is NoContext
                    },
                }
            },
    {
        let (ridx, cidx) = match self.next_loc() {
            Ok(loc) => loc,
            Err(e) => {
                return Err(e);
            },
        };
        let row = &self.rowbuf[ridx];
        if cidx >= row.len() {
            return Ok(None);
        }
        assert(self.rows_spec()[ridx as int][cidx as int] == row@[cidx as int]@);
        if row[cidx].is_null() {
            return Ok(None);
        }
        match T::from_cell(&row[cidx]) {
            Some(v) => Ok(Some(v)),
            None => Err(ConnectorAgentError::cannot_produce::<T>(None)),
        }
    }
}

} // verus!
