//! The engine that binds a MySQL source to an Arrow destination: the plan of
//! a transfer, and the loop that moves a partition's buffered cells.
//!
//! The caller runs the driver and the workers. What is decided here is which
//! order and which rules a transfer uses, how each cell travels, and which
//! failure a transfer ends with.

use crate::data_order::{coordinate, first_common, no_common, DataOrder};
use crate::destinations::arrow_destination::{accepts, ArrowPartitionWriter};
use crate::errors::ConnectorAgentError;
use crate::sources::mysql::{
    cell_at, next_position, MysqlSourcePartition, MysqlSourcePartitionParser,
};
use crate::layout::lemma_cell_place;
use crate::typesystem::{
    convert_schema, destination_name, first_unconverted, kind_name_spec, schema_image,
    ArrowTypeSystem, MysqlTypeSystem,
};
use crate::value::{NativeKind, Slot, Transport};
use chrono::{NaiveDate, NaiveDateTime, NaiveTime};
use rust_decimal::Decimal;
use vstd::arithmetic::div_mod::{
    lemma_add_mod_noop, lemma_div_pos_is_pos, lemma_fundamental_div_mod, lemma_mod_bound,
    lemma_multiply_divide_lt,
};
use vstd::prelude::*;

verus! {

/// How the values of one column travel: as which native type they are
/// produced and consumed, and whether as optional values.
#[derive(Clone, Copy, Debug, PartialEq, Eq, Structural)]
pub struct CellPipe {
    pub kind: NativeKind,
    pub optional: bool,
}

/// The pipe that feeds a column of type `ty`: every rule transports the
/// value as it is.
pub open spec fn pipe_of(ty: ArrowTypeSystem) -> CellPipe {
    CellPipe { kind: ty.native_spec(), optional: ty.nullable_spec() }
}

/// What a pipe produces from a cell of the source, where `None` is a cell
/// that is missing from its row: the value as it is, a null for a null or a
/// missing cell if the pipe is optional, and nothing otherwise.
pub open spec fn pipe_reads(pipe: CellPipe, cell: Option<Slot>) -> Option<Slot> {
    match cell {
        Some(slot) => if slot.kind() == Some(pipe.kind) {
            Some(slot)
        } else if pipe.optional && slot is Null {
            Some(Slot::Null)
        } else {
            None
        },
        None => if pipe.optional {
            Some(Slot::Null)
        } else {
            None
        },
    }
}

/// Whether a column of type `ty` consumes what the pipe carries.
pub open spec fn pipe_fits(pipe: CellPipe, ty: ArrowTypeSystem) -> bool {
    ty.native_spec() == pipe.kind && ty.nullable_spec() == pipe.optional
}

/// What becomes of one cell.
pub enum Verdict {
    /// The cell arrives in the destination, as this slot.
    Moved(Slot),
    /// The source cannot produce the cell as the pipe's type.
    CannotProduce,
    /// The window of the destination is full.
    WindowFull,
    /// The column of the destination does not store the pipe's type.
    TypeMismatch,
}

/// What becomes of a cell of the source that travels through `pipe` to a
/// window that is `full` or not and whose next column has the type `ty`.
pub open spec fn verdict(pipe: CellPipe, cell: Option<Slot>, full: bool, ty: ArrowTypeSystem) -> Verdict {
    match pipe_reads(pipe, cell) {
        None => Verdict::CannotProduce,
        Some(slot) => if full {
            Verdict::WindowFull
        } else if !pipe_fits(pipe, ty) {
            Verdict::TypeMismatch
        } else {
            Verdict::Moved(slot)
        },
    }
}

/// Whether `e` is the error of a cell that did not arrive.
pub open spec fn failure_matches(v: Verdict, pipe: CellPipe, ty: ArrowTypeSystem, e: ConnectorAgentError) -> bool {
    match v {
        Verdict::Moved(_) => false,
        Verdict::CannotProduce => {
            &&& e matches ConnectorAgentError::CannotProduce(name, ctx)
            &&& name@ == kind_name_spec(pipe.kind)
            &&& ctx is NoContext
        },
        Verdict::WindowFull => e is OutOfBound,
        Verdict::TypeMismatch => {
            &&& e matches ConnectorAgentError::TypeCheckFailed(expected, found)
            &&& expected@ == ty.name_spec()
            &&& found@ == kind_name_spec(pipe.kind)
        },
    }
}

/// A cell that its column stores arrives unchanged where the column's own
/// pipe carries it to a window that is not full: what is consumed is what was
/// produced.
pub proof fn lemma_round_trip(ty: ArrowTypeSystem, slot: Slot)
    requires
        slot.kind() == Some(ty.native_spec()) || (ty.nullable_spec() && slot is Null),
    ensures
        verdict(pipe_of(ty), Some(slot), false, ty) == Verdict::Moved(slot),
{
}

/// The label of every transport type is the name of its kind.
pub proof fn lemma_labels()
    ensures
        <i32 as Transport>::label_spec() == kind_name_spec(NativeKind::Int32),
        <i64 as Transport>::label_spec() == kind_name_spec(NativeKind::Int64),
        <bool as Transport>::label_spec() == kind_name_spec(NativeKind::Boolean),
        <String as Transport>::label_spec() == kind_name_spec(NativeKind::Utf8),
        <NaiveDate as Transport>::label_spec() == kind_name_spec(NativeKind::Date),
        <NaiveTime as Transport>::label_spec() == kind_name_spec(NativeKind::Time),
        <NaiveDateTime as Transport>::label_spec() == kind_name_spec(NativeKind::DateTime),
        <Decimal as Transport>::label_spec() == kind_name_spec(NativeKind::Decimal),
{
}

/// Whether the parser and the writer are, but for what one cell changes, as
/// they were.
pub open spec fn same_frames(
    parser: &MysqlSourcePartitionParser,
    parser2: &MysqlSourcePartitionParser,
    writer: &ArrowPartitionWriter,
    writer2: &ArrowPartitionWriter,
) -> bool {
    &&& parser2.ncols_spec() == parser.ncols_spec()
    &&& parser2.buf_size_spec() == parser.buf_size_spec()
    &&& parser2.rows_spec() == parser.rows_spec()
    &&& parser2.delivered() == parser.delivered()
    &&& writer2.index_spec() == writer.index_spec()
    &&& writer2.nrows_spec() == writer.nrows_spec()
    &&& writer2.schema_spec() == writer.schema_spec()
}

/// What moving one cell does to a parser and a writer: the parser moves on
/// whenever it can locate a cell, and the writer takes what arrives.
pub open spec fn cell_step(
    pipe: CellPipe,
    parser: &MysqlSourcePartitionParser,
    parser2: &MysqlSourcePartitionParser,
    writer: &ArrowPartitionWriter,
    writer2: &ArrowPartitionWriter,
    r: Result<(), ConnectorAgentError>,
) -> bool {
    if !parser.located() {
        &&& r matches Err(ConnectorAgentError::OutOfBound)
        &&& parser2.position() == parser.position()
        &&& *writer2 == *writer
    } else {
        let cell = cell_at(parser.rows_spec(), parser.position().0, parser.position().1);
        let v = verdict(pipe, cell, writer.full(), writer.expected());
        &&& parser2.position() == next_position(parser.position(), parser.ncols_spec() as int)
        &&& match v {
            Verdict::Moved(slot) => r is Ok && writer2.written() == writer.written().push(slot),
            _ => {
                &&& r matches Err(e)
                &&& failure_matches(v, pipe, writer.expected(), e)
                &&& *writer2 == *writer
            },
        }
    }
}

/// Moves one cell as a value of type `T`, optional or not: produces it from
/// the parser and has the writer consume it.
fn pump<T: Transport>(
    optional: bool,
    parser: &mut MysqlSourcePartitionParser,
    writer: &mut ArrowPartitionWriter,
) -> (r: Result<(), ConnectorAgentError>)
    requires
        old(parser).wf(),
        old(writer).wf(),
        old(parser).ncols_spec() > 0,
        T::label_spec() == kind_name_spec(T::kind_spec()),
    ensures
        final(parser).wf(),
        final(writer).wf(),
        same_frames(old(parser), final(parser), old(writer), final(writer)),
        cell_step(
            CellPipe { kind: T::kind_spec(), optional },
            old(parser),
            final(parser),
            old(writer),
            final(writer),
            r,
        ),
{
    if optional {
        let value = match parser.produce_opt::<T>() {
            Ok(v) => v,
            Err(e) => {
                return Err(e);
            },
        };
        proof {
            if value is Some {
                value->0.lemma_slot_kind();
            }
        }
        writer.consume_opt::<T>(value)
    } else {
        let value = match parser.produce::<T>() {
            Ok(v) => v,
            Err(e) => {
                return Err(e);
            },
        };
        proof {
            value.lemma_slot_kind();
        }
        writer.consume::<T>(value)
    }
}

/// Moves the parser's next cell into the writer through `pipe`: the value is
/// produced as the pipe's type and consumed as it was produced. The parser
/// moves on by one cell whenever it can locate one; the writer takes the cell
/// unless it could not be produced, the window is full, or the column stores
/// another type. A parser whose rows have no column locates no cell, and is
/// not asked for one.
pub fn process_cell(
    pipe: CellPipe,
    parser: &mut MysqlSourcePartitionParser,
    writer: &mut ArrowPartitionWriter,
) -> (r: Result<(), ConnectorAgentError>)
    requires
        old(parser).wf(),
        old(writer).wf(),
    ensures
        final(parser).wf(),
        final(writer).wf(),
        same_frames(old(parser), final(parser), old(writer), final(writer)),
        cell_step(pipe, old(parser), final(parser), old(writer), final(writer), r),
{
    if parser.ncols() == 0 {
        return Err(ConnectorAgentError::OutOfBound);
    }
    proof {
        lemma_labels();
    }
    match pipe.kind {
        NativeKind::Int32 => pump::<i32>(pipe.optional, parser, writer),
        NativeKind::Int64 => pump::<i64>(pipe.optional, parser, writer),
        NativeKind::Boolean => pump::<bool>(pipe.optional, parser, writer),
        NativeKind::Utf8 => pump::<String>(pipe.optional, parser, writer),
        NativeKind::Date => pump::<NaiveDate>(pipe.optional, parser, writer),
        NativeKind::Time => pump::<NaiveTime>(pipe.optional, parser, writer),
        NativeKind::DateTime => pump::<NaiveDateTime>(pipe.optional, parser, writer),
        NativeKind::Decimal => pump::<Decimal>(pipe.optional, parser, writer),
    }
}

/// The place of a position among the cells of a buffer that are counted row
/// after row.
pub open spec fn linear(pos: (int, int), ncols: int) -> int {
    pos.0 * ncols + pos.1
}

/// The cell at place `at` of a buffer, if its row is that long.
pub open spec fn buffer_cell(rows: Seq<Seq<Slot>>, ncols: int, at: int) -> Option<Slot> {
    cell_at(rows, at / ncols, at % ncols)
}

/// What a run of cell moves does, from the place `start` of the parser's
/// buffer on: the writer has taken `moved` cells more, each of them what its
/// column's pipe reads off the parser's cell at the same distance from
/// `start`. A run that succeeds ends where the buffer is used up or the window
/// full; one that fails has the parser one cell further, at the cell that did
/// not arrive.
pub open spec fn run_moves(
    pipes: Seq<CellPipe>,
    parser: &MysqlSourcePartitionParser,
    parser2: &MysqlSourcePartitionParser,
    writer: &ArrowPartitionWriter,
    writer2: &ArrowPartitionWriter,
    r: Result<(), ConnectorAgentError>,
) -> bool {
    let n = parser.ncols_spec() as int;
    let start = linear(parser.position(), n);
    let before = writer.written();
    let after = writer2.written();
    let moved = after.len() - before.len();
    &&& moved >= 0
    &&& after.subrange(0, before.len() as int) == before
    &&& forall|j: int|
        0 <= j < moved ==> pipe_reads(pipes[(start + j) % n], buffer_cell(parser.rows_spec(), n, start + j))
            == Some(#[trigger] after[before.len() + j])
    &&& match r {
        Ok(()) => {
            &&& linear(parser2.position(), n) == start + moved
            &&& n == 0 || parser2.exhausted() || writer2.full()
        },
        Err(e) => {
            &&& n > 0
            &&& !writer2.full()
            &&& linear(parser2.position(), n) == start + moved + 1
            &&& failure_matches(
                verdict(
                    pipes[(start + moved) % n],
                    buffer_cell(parser.rows_spec(), n, start + moved),
                    writer2.full(),
                    writer2.expected(),
                ),
                pipes[(start + moved) % n],
                writer2.expected(),
                e,
            )
        },
    }
}

/// Moves the cells that the parser has buffered into the writer, each through
/// the pipe of its column, until the buffer is used up or the window full.
/// The first cell that does not arrive ends the run with its error. Pipes
/// that are not one per column are refused with `OutOfBound`, and nothing
/// moves.
pub fn transfer_buffered(
    pipes: &Vec<CellPipe>,
    parser: &mut MysqlSourcePartitionParser,
    writer: &mut ArrowPartitionWriter,
) -> (r: Result<(), ConnectorAgentError>)
    requires
        old(parser).wf(),
        old(writer).wf(),
    ensures
        final(parser).wf(),
        final(writer).wf(),
        same_frames(old(parser), final(parser), old(writer), final(writer)),
        pipes@.len() != old(parser).ncols_spec() ==> {
            &&& r matches Err(ConnectorAgentError::OutOfBound)
            &&& final(parser).position() == old(parser).position()
            &&& *final(writer) == *old(writer)
        },
        pipes@.len() == old(parser).ncols_spec() ==> run_moves(
            pipes@,
            old(parser),
            final(parser),
            old(writer),
            final(writer),
            r,
        ),
{
    let ncols = parser.ncols();
    if pipes.len() != ncols {
        return Err(ConnectorAgentError::OutOfBound);
    }
    let ghost n = ncols as int;
    let ghost start = linear(parser.position(), n);
    let ghost before = writer.written();
    let ghost rows = parser.rows_spec();
    assert(before.subrange(0, before.len() as int) =~= before);
    if ncols == 0 {
        return Ok(());
    }
    while !parser.needs_rows() && !writer.is_full()
        invariant
            parser.wf(),
            writer.wf(),
            same_frames(old(parser), parser, old(writer), writer),
            n == ncols,
            n > 0,
            pipes@.len() == n,
            parser.ncols_spec() == n,
            rows == parser.rows_spec(),
            start == linear(old(parser).position(), n),
            before == old(writer).written(),
            writer.written().len() >= before.len(),
            writer.written().subrange(0, before.len() as int) == before,
            linear(parser.position(), n) == start + (writer.written().len() - before.len()),
            forall|j: int|
                0 <= j < writer.written().len() - before.len() ==> pipe_reads(
                    pipes@[(start + j) % n],
                    buffer_cell(rows, n, start + j),
                ) == Some(#[trigger] writer.written()[before.len() + j]),
        decreases parser.rows_spec().len() - parser.position().0, n - parser.position().1,
    {
        let col = parser.column();
        let ghost pos = parser.position();
        let ghost sofar = writer.written();
        let ghost moved = sofar.len() - before.len();
        proof {
            parser.lemma_bounds();
            lemma_cell_place(pos.0, pos.1, n);
            assert((pos.0 + 1) * n == pos.0 * n + n) by (nonlinear_arith);
        }
        let pipe = pipes[col];
        match process_cell(pipe, parser, writer) {
            Ok(()) => {
                proof {
                    let after = writer.written();
                    assert(after.subrange(0, before.len() as int) =~= before);
                    assert forall|j: int| 0 <= j < after.len() - before.len() implies pipe_reads(
                        pipes@[(start + j) % n],
                        buffer_cell(rows, n, start + j),
                    ) == Some(#[trigger] after[before.len() + j]) by {
                        if j < moved {
                            assert(after[before.len() + j] == sofar[before.len() + j]);
                        }
                    }
                }
            },
            Err(e) => {
                return Err(e);
            },
        }
    }
    Ok(())
}

/// Whether every row has one cell per column of `schema`, each of them one
/// that its column stores.
pub open spec fn rows_fit(rows: Seq<Seq<Slot>>, schema: Seq<ArrowTypeSystem>) -> bool {
    forall|r: int, c: int|
        0 <= r < rows.len() && 0 <= c < schema.len() ==> c < rows[r].len() && accepts(
            schema[c],
            #[trigger] rows[r][c],
        )
}

/// A position within a buffer of `len` rows, or right behind its last row,
/// has no more than the buffer's cells before it.
proof fn lemma_linear_bound(pos: (int, int), len: int, ncols: int)
    requires
        0 <= pos.0 <= len,
        0 <= pos.1 < ncols,
        pos.0 == len ==> pos.1 == 0,
    ensures
        0 <= linear(pos, ncols) <= len * ncols,
{
    assert(0 <= pos.0 * ncols) by (nonlinear_arith)
        requires
            0 <= pos.0,
            0 < ncols,
    ;
    if pos.0 < len {
        assert(pos.0 * ncols + ncols <= len * ncols) by (nonlinear_arith)
            requires
                0 <= pos.0 < len,
                0 < ncols,
        ;
    }
}

/// Rows that fit the destination arrive as they are: a run over rows of
/// which every cell is one that its column stores, through the pipes of the
/// columns and into a window that stands at the parser's column, does not
/// fail, and what the writer has taken are the parser's cells in their order.
pub proof fn lemma_fitting_rows_arrive(
    pipes: Seq<CellPipe>,
    parser: &MysqlSourcePartitionParser,
    parser2: &MysqlSourcePartitionParser,
    writer: &ArrowPartitionWriter,
    writer2: &ArrowPartitionWriter,
    r: Result<(), ConnectorAgentError>,
)
    requires
        parser.wf(),
        parser2.wf(),
        writer.wf(),
        writer2.wf(),
        same_frames(parser, parser2, writer, writer2),
        run_moves(pipes, parser, parser2, writer, writer2, r),
        writer.schema_spec().len() == parser.ncols_spec(),
        pipes == pipes_of(writer.schema_spec()),
        writer.position().1 == parser.position().1,
        rows_fit(parser.rows_spec(), writer.schema_spec()),
    ensures
        r is Ok,
        forall|j: int|
            0 <= j < writer2.written().len() - writer.written().len() ==> {
                let at = linear(parser.position(), parser.ncols_spec() as int) + j;
                let n = parser.ncols_spec() as int;
                #[trigger] writer2.written()[writer.written().len() + j] == parser.rows_spec()[at
                    / n][at % n]
            },
{
    let n = parser.ncols_spec() as int;
    let rows = parser.rows_spec();
    let schema = writer.schema_spec();
    let start = linear(parser.position(), n);
    let before = writer.written();
    let after = writer2.written();
    let moved = after.len() - before.len();
    parser.lemma_bounds();
    parser2.lemma_bounds();
    writer.lemma_layout();
    writer2.lemma_layout();
    if n > 0 {
        lemma_linear_bound(parser.position(), rows.len() as int, n);
        lemma_linear_bound(parser2.position(), rows.len() as int, n);
        assert forall|j: int| 0 <= j < moved implies {
            let at = start + j;
            #[trigger] after[before.len() + j] == rows[at / n][at % n]
        } by {
            let at = start + j;
            lemma_multiply_divide_lt(at, n, rows.len() as int);
            lemma_div_pos_is_pos(at, n);
            lemma_mod_bound(at, n);
            let slot = rows[at / n][at % n];
            assert(accepts(schema[at % n], slot));
            assert(cell_at(rows, at / n, at % n) == Some(slot));
            assert(pipes[at % n] == pipe_of(schema[at % n]));
            assert(pipe_reads(pipes[at % n], buffer_cell(rows, n, at)) == Some(slot));
        }
        if r is Err {
            let at = start + moved;
            lemma_multiply_divide_lt(at, n, rows.len() as int);
            lemma_div_pos_is_pos(at, n);
            lemma_mod_bound(at, n);
            let slot = rows[at / n][at % n];
            assert(accepts(schema[at % n], slot));
            assert(cell_at(rows, at / n, at % n) == Some(slot));
            assert(pipes[at % n] == pipe_of(schema[at % n]));
            lemma_cell_place(parser.position().0, parser.position().1, n);
            lemma_add_mod_noop(before.len() as int, moved, n);
            lemma_add_mod_noop(start, moved, n);
            assert(writer2.position().1 == at % n);
            assert(verdict(pipes[at % n], buffer_cell(rows, n, at), false, schema[at % n])
                == Verdict::Moved(slot));
            assert(false);
        }
    }
}

/// Whether the writer holds the parser's stream as far as the parser has
/// come: one cell per cell that the parser has located, each of them the cell
/// of the stream at its place, row after row.
pub open spec fn carried(parser: &MysqlSourcePartitionParser, writer: &ArrowPartitionWriter) -> bool {
    let n = parser.ncols_spec() as int;
    &&& writer.written().len() == parser.cursor()
    &&& forall|k: int|
        0 <= k < parser.cursor() ==> #[trigger] writer.written()[k] == parser.delivered()[k / n][k
            % n]
}

/// A refill keeps what the writer holds of the stream: the rows that come
/// in stand behind those that were walked.
pub proof fn lemma_refill_carries(
    parser: &MysqlSourcePartitionParser,
    parser2: &MysqlSourcePartitionParser,
    writer: &ArrowPartitionWriter,
    rows: Seq<Seq<Slot>>,
)
    requires
        parser.wf(),
        parser.ncols_spec() > 0,
        parser2.ncols_spec() == parser.ncols_spec(),
        parser2.delivered() == parser.delivered() + rows,
        parser2.cursor() == parser.cursor(),
        carried(parser, writer),
    ensures
        carried(parser2, writer),
{
    let n = parser.ncols_spec() as int;
    parser.lemma_cursor();
    assert forall|k: int| 0 <= k < parser2.cursor() implies #[trigger] writer.written()[k]
        == parser2.delivered()[k / n][k % n] by {
        lemma_multiply_divide_lt(k, n, parser.delivered().len() as int);
        lemma_div_pos_is_pos(k, n);
    }
}

/// The whole stream arrives: where the writer holds the parser's stream as
/// far as the parser has come, a run over buffered rows that fit the
/// destination, through the pipes of the columns, does not fail and leaves
/// the writer holding the stream as far as the parser has then come. With
/// `lemma_refill_carries` this holds from the first refill to the last cell:
/// what the writer holds in the end are the rows as the driver delivered
/// them, none skipped, repeated, reordered or altered.
pub proof fn lemma_run_carries(
    pipes: Seq<CellPipe>,
    parser: &MysqlSourcePartitionParser,
    parser2: &MysqlSourcePartitionParser,
    writer: &ArrowPartitionWriter,
    writer2: &ArrowPartitionWriter,
    r: Result<(), ConnectorAgentError>,
)
    requires
        parser.wf(),
        parser2.wf(),
        writer.wf(),
        writer2.wf(),
        parser.ncols_spec() > 0,
        same_frames(parser, parser2, writer, writer2),
        run_moves(pipes, parser, parser2, writer, writer2, r),
        writer.schema_spec().len() == parser.ncols_spec(),
        pipes == pipes_of(writer.schema_spec()),
        rows_fit(parser.rows_spec(), writer.schema_spec()),
        carried(parser, writer),
    ensures
        r is Ok,
        carried(parser2, writer2),
{
    let n = parser.ncols_spec() as int;
    let rows = parser.rows_spec();
    let stream = parser.delivered();
    let start = linear(parser.position(), n);
    let before = writer.written();
    let after = writer2.written();
    let moved = after.len() - before.len();
    let base = parser.dropped();
    parser.lemma_bounds();
    parser2.lemma_bounds();
    parser.lemma_cursor();
    parser2.lemma_cursor();
    writer.lemma_layout();
    assert(parser.cursor() == base * n + start) by (nonlinear_arith)
        requires
            parser.cursor() == (base + parser.position().0) * n + parser.position().1,
            start == parser.position().0 * n + parser.position().1,
    ;
    assert(parser2.cursor() == base * n + linear(parser2.position(), n)) by (nonlinear_arith)
        requires
            parser2.cursor() == (base + parser2.position().0) * n + parser2.position().1,
            linear(parser2.position(), n) == parser2.position().0 * n + parser2.position().1,
    ;
    lemma_fitting_rows_arrive(pipes, parser, parser2, writer, writer2, r);
    lemma_linear_bound(parser2.position(), rows.len() as int, n);
    assert forall|k: int| 0 <= k < parser2.cursor() implies #[trigger] after[k] == stream[k / n][k
        % n] by {
        if k < parser.cursor() {
            assert(after[k] == after.subrange(0, before.len() as int)[k]);
        } else {
            let j = k - parser.cursor();
            let at = start + j;
            assert(after[before.len() + j] == rows[at / n][at % n]);
            lemma_multiply_divide_lt(at, n, rows.len() as int);
            lemma_div_pos_is_pos(at, n);
            lemma_mod_bound(at, n);
            lemma_fundamental_div_mod(at, n);
            assert(k == (base + at / n) * n + at % n) by (nonlinear_arith)
                requires
                    k == base * n + at,
                    at == n * (at / n) + at % n,
            ;
            lemma_cell_place(base + at / n, at % n, n);
            assert(rows[at / n] == stream[base + at / n]);
        }
    }
}

/// The plan of a transfer: the negotiated order, the destination's schema,
/// and the pipe of every column.
pub struct TransferPlan {
    pub order: DataOrder,
    pub schema: Vec<ArrowTypeSystem>,
    pub pipes: Vec<CellPipe>,
}

/// The pipes of the columns of a destination schema.
pub open spec fn pipes_of(schema: Seq<ArrowTypeSystem>) -> Seq<CellPipe> {
    schema.map_values(|t: ArrowTypeSystem| pipe_of(t))
}

/// Resolves the plan of a transfer before anything is read or allocated: the
/// order is the first that the source prefers and the destination accepts,
/// and every column of the source's schema goes through its conversion rule.
/// Without a common order the transfer is a `CannotResolveDataOrder`; with
/// one, the first column without a rule makes it a `NoConversionRule`.
pub fn resolve_plan(src_orders: &[DataOrder], dst_orders: &[DataOrder], schema: &[MysqlTypeSystem]) -> (r:
    Result<TransferPlan, ConnectorAgentError>)
    ensures
        match r {
            Ok(plan) => {
                &&& exists|i: int| first_common(src_orders@, dst_orders@, i) && src_orders@[i] == plan.order
                &&& schema_image(schema@, plan.schema@)
                &&& plan.pipes@ == pipes_of(plan.schema@)
            },
            Err(ConnectorAgentError::CannotResolveDataOrder(s, d)) => {
                &&& no_common(src_orders@, dst_orders@)
                &&& s@ == src_orders@
                &&& d@ == dst_orders@
            },
            Err(ConnectorAgentError::NoConversionRule(s, d)) => {
                &&& exists|i: int| first_common(src_orders@, dst_orders@, i)
                &&& exists|c: int|
                    first_unconverted(schema@, c) && s@ == schema@[c].name_spec() && d@
                        == destination_name()
            },
            Err(_) => false,
        },
{
    let order = match coordinate(src_orders, dst_orders) {
        Ok(o) => o,
        Err(e) => {
            return Err(e);
        },
    };
    let types = match convert_schema(schema) {
        Ok(t) => t,
        Err(e) => {
            return Err(e);
        },
    };
    let mut pipes: Vec<CellPipe> = Vec::new();
    let mut c: usize = 0;
    while c < types.len()
        invariant
            c <= types.len(),
            pipes@.len() == c,
            forall|k: int| 0 <= k < c ==> #[trigger] pipes@[k] == pipe_of(types@[k]),
        decreases types.len() - c,
    {
        pipes.push(CellPipe { kind: types[c].native(), optional: types[c].nullable() });
        c += 1;
    }
    assert(pipes@ =~= pipes_of(types@));
    Ok(TransferPlan { order, schema: types, pipes })
}

/// The row counts of the partitions, in order.
pub fn row_counts(parts: &Vec<MysqlSourcePartition>) -> (counts: Vec<usize>)
    ensures
        counts@.len() == parts@.len(),
        forall|i: int| 0 <= i < parts@.len() ==> #[trigger] counts@[i] == parts@[i].nrows_spec(),
{
    let mut counts: Vec<usize> = Vec::new();
    let mut i: usize = 0;
    while i < parts.len()
        invariant
            i <= parts.len(),
            counts@.len() == i,
            forall|k: int| 0 <= k < i ==> #[trigger] counts@[k] == parts@[k].nrows_spec(),
        decreases parts.len() - i,
    {
        counts.push(parts[i].nrows());
        i += 1;
    }
    counts
}

/// The number of workers of a transfer: one per partition, but no more than
/// the pool has connections.
pub fn worker_count(npartitions: usize, nconn: usize) -> (n: usize)
    ensures
        n <= npartitions,
        n <= nconn,
        n == npartitions || n == nconn,
{
    if npartitions <= nconn {
        npartitions
    } else {
        nconn
    }
}

/// Whether `i` is the first partition that failed.
pub open spec fn first_failed(results: Seq<Result<(), ConnectorAgentError>>, i: int) -> bool {
    &&& 0 <= i < results.len()
    &&& results[i] is Err
    &&& forall|k: int| 0 <= k < i ==> (#[trigger] results[k]) is Ok
}

/// The outcome of a transfer from the outcomes of its partitions, by index:
/// it succeeds if all of them did, and else fails with the error of the first
/// partition that failed.
pub fn join(results: Vec<Result<(), ConnectorAgentError>>) -> (r: Result<(), ConnectorAgentError>)
    ensures
        match r {
            Ok(()) => forall|k: int| 0 <= k < results@.len() ==> (#[trigger] results@[k]) is Ok,
            Err(e) => exists|i: int|
                first_failed(results@, i) && results@[i] == Err::<(), ConnectorAgentError>(e),
        },
{
    let mut rest = results;
    let ghost all = rest@;
    let ghost mut done: int = 0;
    while rest.len() > 0
        invariant
            0 <= done <= all.len(),
            all == results@,
            rest@ == all.subrange(done, all.len() as int),
            forall|k: int| 0 <= k < done ==> (#[trigger] all[k]) is Ok,
        decreases rest.len(),
    {
        let ghost shorter = rest@;
        let first = rest.remove(0);
        proof {
            assert(first == all[done]);
            assert(rest@ =~= all.subrange(done + 1, all.len() as int));
        }
        match first {
            Ok(()) => {},
            Err(e) => {
                assert(first_failed(all, done));
                assert(all[done] == Err::<(), ConnectorAgentError>(e));
                return Err(e);
            },
        }
        proof {
            done = done + 1;
        }
    }
    Ok(())
}

} // verus!
