//! The Arrow destination. A transfer allocates it once, takes one writer per
//! partition, and hands the filled writers back to have their rows sealed,
//! partition after partition, into one array per column.

use crate::data_order::DataOrder;
use crate::destinations::arrow_assoc::{
    array_slots, field_name, field_nullable, field_type, max_capacity, seal_boolean, seal_int32,
    seal_int64, seal_utf8, text_room, ArrowAssoc, FieldType,
};
use crate::errors::ConnectorAgentError;
use crate::layout::{lemma_cell_place, lemma_cell_within};
use crate::typesystem::{kind_name_spec, ArrowTypeSystem};
use crate::value::{copy_texts, row_slots, texts, Cell, NativeKind, Slot, Transport};
use arrow::array::ArrayData;
use arrow::datatypes::Field;
use vstd::prelude::*;

verus! {

/// Whether a column of type `ty` stores `slot`: a value of its native kind,
/// or a null where the column is nullable.
pub open spec fn accepts(ty: ArrowTypeSystem, slot: Slot) -> bool {
    slot.kind() == Some(ty.native_spec()) || (ty.nullable_spec() && slot is Null)
}

/// The sum of the row counts.
pub open spec fn total_rows(counts: Seq<usize>) -> nat
    decreases counts.len(),
{
    if counts.len() == 0 {
        0
    } else {
        total_rows(counts.drop_last()) + counts.last() as nat
    }
}

/// The rows of a shorter list of partitions are no more than those of the
/// whole list.
pub proof fn lemma_total_rows_prefix(counts: Seq<usize>, i: int)
    requires
        0 <= i <= counts.len(),
    ensures
        total_rows(counts.subrange(0, i)) <= total_rows(counts),
    decreases counts.len() - i,
{
    if i < counts.len() {
        lemma_total_rows_prefix(counts, i + 1);
        assert(counts.subrange(0, i + 1).drop_last() =~= counts.subrange(0, i));
    } else {
        assert(counts.subrange(0, i) =~= counts);
    }
}

/// Column `c` of `nrows` rows of `ncols` cells that are laid out row after
/// row.
pub open spec fn part_column(cells: Seq<Slot>, nrows: int, ncols: int, c: int) -> Seq<Slot> {
    Seq::new(nrows as nat, |r: int| cells[r * ncols + c])
}

/// The append cursor of one partition: a window of `nrows` rows that the
/// partition fills cell by cell, row after row and column after column.
pub struct ArrowPartitionWriter {
    index: usize,
    nrows: usize,
    schema: Vec<ArrowTypeSystem>,
    cells: Vec<Cell>,
    current_row: usize,
    current_col: usize,
}

impl ArrowPartitionWriter {
    /// The index of the partition.
    pub closed spec fn index_spec(&self) -> usize {
        self.index
    }

    /// The number of rows of the window.
    pub closed spec fn nrows_spec(&self) -> usize {
        self.nrows
    }

    /// The types of the columns.
    pub closed spec fn schema_spec(&self) -> Seq<ArrowTypeSystem> {
        self.schema@
    }

    /// The cells written so far, row after row.
    pub closed spec fn written(&self) -> Seq<Slot> {
        row_slots(self.cells@)
    }

    /// Row and column of the next cell.
    pub closed spec fn position(&self) -> (int, int) {
        (self.current_row as int, self.current_col as int)
    }

    /// The number of columns.
    pub open spec fn ncols_spec(&self) -> int {
        self.schema_spec().len() as int
    }

    /// Whether the window takes no further cell.
    pub open spec fn full(&self) -> bool {
        self.ncols_spec() == 0 || self.position().0 >= self.nrows_spec()
    }

    /// The type of the column that the next cell belongs to.
    pub open spec fn expected(&self) -> ArrowTypeSystem {
        self.schema_spec()[self.position().1]
    }

    /// The invariant of the state: the position is where the written cells
    /// end, within the window, and every cell is one that its column stores.
    pub closed spec fn wf(&self) -> bool {
        &&& self.cells@.len() == self.current_row * self.schema@.len() + self.current_col
        &&& self.current_row <= self.nrows
        &&& self.current_col < self.schema@.len() || self.current_col == 0
        &&& self.current_row == self.nrows ==> self.current_col == 0
        &&& forall|k: int|
            0 <= k < self.cells@.len() ==> accepts(
                self.schema@[k % (self.schema@.len() as int)],
                (#[trigger] self.cells@[k])@,
            )
    }

    /// After `k` cells the position is row `k / ncols`, column `k % ncols`:
    /// no cell is skipped and none is written twice. Every written cell is one
    /// that its column stores, and a full window holds `nrows` whole rows.
    pub proof fn lemma_layout(&self)
        requires
            self.wf(),
        ensures
            self.written().len() == self.position().0 * self.ncols_spec() + self.position().1,
            0 <= self.position().0 <= self.nrows_spec(),
            0 <= self.position().1,
            self.position().1 < self.ncols_spec() || self.position().1 == 0,
            self.ncols_spec() > 0 ==> {
                &&& self.position().0 == self.written().len() / (self.ncols_spec() as nat)
                &&& self.position().1 == self.written().len() % (self.ncols_spec() as nat)
            },
            self.full() && self.ncols_spec() > 0 ==> self.written().len() == self.nrows_spec()
                * self.ncols_spec(),
            forall|k: int|
                0 <= k < self.written().len() ==> accepts(
                    self.schema_spec()[k % self.ncols_spec()],
                    #[trigger] self.written()[k],
                ),
    {
        if self.ncols_spec() > 0 {
            lemma_cell_place(self.position().0, self.position().1, self.ncols_spec());
        }
        assert forall|k: int| 0 <= k < self.written().len() implies accepts(
            self.schema_spec()[k % self.ncols_spec()],
            #[trigger] self.written()[k],
        ) by {
            assert(self.written()[k] == self.cells@[k]@);
        }
    }

    fn new(index: usize, nrows: usize, schema: &[ArrowTypeSystem]) -> (w: Self)
        ensures
            w.wf(),
            w.index_spec() == index,
            w.nrows_spec() == nrows,
            w.schema_spec() == schema@,
            w.written() == Seq::<Slot>::empty(),
            w.position() == (0int, 0int),
    {
        let mut copy: Vec<ArrowTypeSystem> = Vec::new();
        let mut i: usize = 0;
        while i < schema.len()
            invariant
                i <= schema.len(),
                copy@ == schema@.subrange(0, i as int),
            decreases schema.len() - i,
        {
            copy.push(schema[i]);
            assert(copy@ =~= schema@.subrange(0, i + 1));
            i += 1;
        }
        assert(schema@.subrange(0, schema@.len() as int) =~= schema@);
        let w = ArrowPartitionWriter {
            index,
            nrows,
            schema: copy,
            cells: Vec::new(),
            current_row: 0,
            current_col: 0,
        };
        assert(w.written() =~= Seq::<Slot>::empty());
        assert(w.current_row * w.schema@.len() == 0) by (nonlinear_arith)
            requires
                w.current_row == 0,
        ;
        w
    }

    /// The index of the partition.
    pub fn index(&self) -> (i: usize)
        ensures
            i == self.index_spec(),
    {
        self.index
    }

    /// The number of rows of the window.
    pub fn nrows(&self) -> (n: usize)
        ensures
            n == self.nrows_spec(),
    {
        self.nrows
    }

    /// The number of columns.
    pub fn ncols(&self) -> (n: usize)
        ensures
            n == self.ncols_spec(),
    {
        self.schema.len()
    }

    /// Tells whether the window takes no further cell.
    pub fn is_full(&self) -> (b: bool)
        ensures
            b == self.full(),
    {
        self.schema.len() == 0 || self.current_row >= self.nrows
    }

    fn put(&mut self, cell: Cell)
        requires
            old(self).wf(),
            !old(self).full(),
            accepts(old(self).expected(), cell@),
        ensures
            final(self).wf(),
            final(self).index_spec() == old(self).index_spec(),
            final(self).nrows_spec() == old(self).nrows_spec(),
            final(self).schema_spec() == old(self).schema_spec(),
            final(self).written() == old(self).written().push(cell@),
    {
        let ghost ncols = self.schema@.len() as int;
        let ghost at = self.cells@.len() as int;
        proof {
            lemma_cell_place(self.current_row as int, self.current_col as int, ncols);
            lemma_cell_within(
                self.current_row as int,
                self.current_col as int,
                self.nrows as int,
                ncols,
            );
            assert((self.current_row + 1) * ncols == self.current_row * ncols + ncols)
                by (nonlinear_arith);
        }
        let width = self.schema.len();
        self.cells.push(cell);
        if self.current_col + 1 < width {
            self.current_col = self.current_col + 1;
        } else {
            self.current_row = self.current_row + 1;
            self.current_col = 0;
        }
        proof {
            assert(self.written() =~= old(self).written().push(cell@));
            assert forall|k: int| 0 <= k < self.cells@.len() implies accepts(
                self.schema@[k % ncols],
                (#[trigger] self.cells@[k])@,
            ) by {
                if k < at {
                    assert(self.cells@[k] == old(self).cells@[k]);
                }
            }
        }
    }

    /// Appends `value` as the next cell of the window and moves the position
    /// on by one cell. A full window refuses it with `OutOfBound`; a column
    /// that does not store plain values of type `T` refuses it with
    /// `TypeCheckFailed`. A refusal changes nothing.
    pub fn consume<T: Transport>(&mut self, value: T) -> (r: Result<(), ConnectorAgentError>)
        requires
            old(self).wf(),
        ensures
            final(self).wf(),
            final(self).index_spec() == old(self).index_spec(),
            final(self).nrows_spec() == old(self).nrows_spec(),
            final(self).schema_spec() == old(self).schema_spec(),
            match r {
                Ok(()) => {
                    &&& !old(self).full()
                    &&& old(self).expected().native_spec() == T::kind_spec()
                    &&& !old(self).expected().nullable_spec()
                    &&& final(self).written() == old(self).written().push(value.slot())
                },
                Err(ConnectorAgentError::OutOfBound) => {
                    &&& old(self).full()
                    &&& *final(self) == *old(self)
                },
                Err(ConnectorAgentError::TypeCheckFailed(expected, found)) => {
                    &&& !old(self).full()
                    &&& !(old(self).expected().native_spec() == T::kind_spec() && !old(
                        self,
                    ).expected().nullable_spec())
                    &&& expected@ == old(self).expected().name_spec()
                    &&& found@ == kind_name_spec(T::kind_spec())
                    &&& *final(self) == *old(self)
                },
                Err(_) => false,
            },
    {
        if self.schema.len() == 0 || self.current_row >= self.nrows {
            return Err(ConnectorAgentError::OutOfBound);
        }
        match self.schema[self.current_col].check(T::kind(), false) {
            Ok(()) => {},
            Err(e) => {
                return Err(e);
            },
        }
        proof {
            value.lemma_slot_kind();
        }
        self.put(value.into_cell());
        Ok(())
    }

    /// Appends `value`, or a null for `None`, as the next cell of the window
    /// and moves the position on by one cell. A full window refuses it with
    /// `OutOfBound`; a column that does not store optional values of type `T`
    /// refuses it with `TypeCheckFailed`. A refusal changes nothing.
    pub fn consume_opt<T: Transport>(&mut self, value: Option<T>) -> (r: Result<
        (),
        ConnectorAgentError,
    >)
        requires
            old(self).wf(),
        ensures
            final(self).wf(),
            final(self).index_spec() == old(self).index_spec(),
            final(self).nrows_spec() == old(self).nrows_spec(),
            final(self).schema_spec() == old(self).schema_spec(),
            match r {
                Ok(()) => {
                    &&& !old(self).full()
                    &&& old(self).expected().native_spec() == T::kind_spec()
                    &&& old(self).expected().nullable_spec()
                    &&& final(self).written() == old(self).written().push(optional_slot(value))
                },
                Err(ConnectorAgentError::OutOfBound) => {
                    &&& old(self).full()
                    &&& *final(self) == *old(self)
                },
                Err(ConnectorAgentError::TypeCheckFailed(expected, found)) => {
                    &&& !old(self).full()
                    &&& !(old(self).expected().native_spec() == T::kind_spec() && old(
                        self,
                    ).expected().nullable_spec())
                    &&& expected@ == old(self).expected().name_spec()
                    &&& found@ == kind_name_spec(T::kind_spec())
                    &&& *final(self) == *old(self)
                },
                Err(_) => false,
            },
    {
        if self.schema.len() == 0 || self.current_row >= self.nrows {
            return Err(ConnectorAgentError::OutOfBound);
        }
        match self.schema[self.current_col].check(T::kind(), true) {
            Ok(()) => {},
            Err(e) => {
                return Err(e);
            },
        }
        match value {
            Some(v) => {
                proof {
                    v.lemma_slot_kind();
                }
                self.put(v.into_cell());
            },
            None => {
                self.put(Cell::Null);
            },
        }
        Ok(())
    }
}

/// The slot of an optional value: a null for `None`.
pub open spec fn optional_slot<T: Transport>(value: Option<T>) -> Slot {
    match value {
        Some(v) => v.slot(),
        None => Slot::Null,
    }
}

/// The number of rows of all the windows together.
pub open spec fn rows_of(writers: Seq<ArrowPartitionWriter>) -> nat
    decreases writers.len(),
{
    if writers.len() == 0 {
        0
    } else {
        rows_of(writers.drop_last()) + writers.last().nrows_spec() as nat
    }
}

/// Column `c` of the destination: the cells that the partitions wrote into
/// it, partition after partition by index, each partition's rows in order.
pub open spec fn stacked(writers: Seq<ArrowPartitionWriter>, ncols: int, c: int) -> Seq<Slot>
    decreases writers.len(),
{
    if writers.len() == 0 {
        Seq::empty()
    } else {
        stacked(writers.drop_last(), ncols, c) + part_column(
            writers.last().written(),
            writers.last().nrows_spec() as int,
            ncols,
            c,
        )
    }
}

/// A column has one row per row of every window.
pub proof fn lemma_stacked_len(writers: Seq<ArrowPartitionWriter>, ncols: int, c: int)
    ensures
        stacked(writers, ncols, c).len() == rows_of(writers),
    decreases writers.len(),
{
    if writers.len() > 0 {
        lemma_stacked_len(writers.drop_last(), ncols, c);
    }
}

/// Windows whose row counts are `counts` have `total_rows(counts)` rows.
pub proof fn lemma_rows_of_counts(writers: Seq<ArrowPartitionWriter>, counts: Seq<usize>)
    requires
        writers.len() == counts.len(),
        forall|i: int| 0 <= i < writers.len() ==> (#[trigger] writers[i]).nrows_spec() == counts[i],
    ensures
        rows_of(writers) == total_rows(counts),
    decreases writers.len(),
{
    if writers.len() > 0 {
        lemma_rows_of_counts(writers.drop_last(), counts.drop_last());
    }
}

/// The windows are contiguous and in the order of the partitions: row `r` of
/// partition `i` is the row of the column that comes after all the rows of the
/// partitions before it.
pub proof fn lemma_stacked_row(
    writers: Seq<ArrowPartitionWriter>,
    ncols: int,
    c: int,
    i: int,
    r: int,
)
    requires
        0 <= i < writers.len(),
        0 <= r < writers[i].nrows_spec(),
    ensures
        rows_of(writers.subrange(0, i)) + r < stacked(writers, ncols, c).len(),
        stacked(writers, ncols, c)[rows_of(writers.subrange(0, i)) + r] == writers[i].written()[r
            * ncols + c],
    decreases writers.len(),
{
    let shorter = writers.drop_last();
    lemma_stacked_len(shorter, ncols, c);
    lemma_stacked_len(writers, ncols, c);
    if i == writers.len() - 1 {
        assert(writers.subrange(0, i) =~= shorter);
    } else {
        lemma_stacked_row(shorter, ncols, c, i, r);
        assert(shorter.subrange(0, i) =~= writers.subrange(0, i));
    }
}

/// The windows do not overlap: the window of a partition ends where the
/// windows of the later partitions have not begun.
pub proof fn lemma_windows_disjoint(writers: Seq<ArrowPartitionWriter>, i: int, j: int)
    requires
        0 <= i < j <= writers.len(),
    ensures
        rows_of(writers.subrange(0, i)) + writers[i].nrows_spec() <= rows_of(
            writers.subrange(0, j),
        ),
    decreases j - i,
{
    let upto = writers.subrange(0, j);
    assert(upto.drop_last() =~= writers.subrange(0, j - 1));
    if i + 1 == j {
        assert(upto.last() == writers[i]);
    } else {
        lemma_windows_disjoint(writers, i, j - 1);
    }
}

/// Whether a builder for columns of type `ty` that holds `slots` takes `slot`
/// as well; only a text column can run out of room.
pub open spec fn fits_for(ty: ArrowTypeSystem, slots: Seq<Slot>, slot: Slot) -> bool {
    match ty {
        ArrowTypeSystem::Utf8(_) => text_room(slots, slot),
        _ => true,
    }
}

/// Whether a builder for columns of type `ty` has room for all of `slots`, one
/// after the other.
pub open spec fn column_roomy(ty: ArrowTypeSystem, slots: Seq<Slot>) -> bool {
    forall|k: int| 0 <= k < slots.len() ==> fits_for(ty, #[trigger] slots.subrange(0, k), slots[k])
}

/// The data type of the field of a column.
pub open spec fn field_type_of(ty: ArrowTypeSystem) -> FieldType {
    match ty {
        ArrowTypeSystem::Int32(_) => FieldType::Int32,
        ArrowTypeSystem::Int64(_) => FieldType::Int64,
        ArrowTypeSystem::Boolean(_) => FieldType::Boolean,
        ArrowTypeSystem::Utf8(_) => FieldType::Utf8,
    }
}

/// The field of a column of type `ty` under the name `name`.
pub fn make_field(name: &str, ty: ArrowTypeSystem) -> (f: Field)
    ensures
        field_name(f) == name@,
        field_type(f) == Some(field_type_of(ty)),
        field_nullable(f) == ty.nullable_spec(),
{
    match ty {
        ArrowTypeSystem::Int32(false) => <i32 as ArrowAssoc>::field(name),
        ArrowTypeSystem::Int32(true) => <Option<i32> as ArrowAssoc>::field(name),
        ArrowTypeSystem::Int64(false) => <i64 as ArrowAssoc>::field(name),
        ArrowTypeSystem::Int64(true) => <Option<i64> as ArrowAssoc>::field(name),
        ArrowTypeSystem::Boolean(false) => <bool as ArrowAssoc>::field(name),
        ArrowTypeSystem::Boolean(true) => <Option<bool> as ArrowAssoc>::field(name),
        ArrowTypeSystem::Utf8(false) => <String as ArrowAssoc>::field(name),
        ArrowTypeSystem::Utf8(true) => <Option<String> as ArrowAssoc>::field(name),
    }
}

/// Collects the cells into a builder of `T`, in order. The builder that runs
/// out of room refuses with `OutOfBound`.
fn fill<T: ArrowAssoc>(cells: &Vec<Cell>) -> (r: Result<T::Builder, ConnectorAgentError>)
    requires
        cells@.len() <= max_capacity(),
        forall|k: int| 0 <= k < cells@.len() ==> T::stores((#[trigger] cells@[k])@),
    ensures
        match r {
            Ok(b) => {
                &&& T::wf(&b)
                &&& T::slots(&b) == row_slots(cells@)
                &&& forall|k: int|
                    0 <= k < cells@.len() ==> T::fits(
                        #[trigger] row_slots(cells@).subrange(0, k),
                        row_slots(cells@)[k],
                    )
            },
            Err(ConnectorAgentError::OutOfBound) => exists|k: int|
                0 <= k < cells@.len() && !T::fits(
                    #[trigger] row_slots(cells@).subrange(0, k),
                    row_slots(cells@)[k],
                ),
            Err(_) => false,
        },
{
    let ghost all = row_slots(cells@);
    let mut builder = T::builder(cells.len());
    let mut i: usize = 0;
    while i < cells.len()
        invariant
            i <= cells.len(),
            all == row_slots(cells@),
            T::wf(&builder),
            T::slots(&builder) == all.subrange(0, i as int),
            forall|k: int| 0 <= k < cells@.len() ==> T::stores((#[trigger] cells@[k])@),
            forall|k: int| 0 <= k < i ==> T::fits(#[trigger] all.subrange(0, k), all[k]),
        decreases cells.len() - i,
    {
        let value = match T::read(&cells[i]) {
            Some(v) => v,
            None => {
                assert(T::stores(cells@[i as int]@));
                vstd::pervasive::unreached()
            },
        };
        assert(value.slot() == all[i as int]);
        match T::append(&mut builder, value) {
            Ok(()) => {
                assert(T::slots(&builder) =~= all.subrange(0, i + 1));
            },
            Err(e) => {
                assert(!T::fits(all.subrange(0, i as int), all[i as int]));
                return Err(e);
            },
        }
        i += 1;
    }
    assert(all.subrange(0, all.len() as int) =~= all);
    Ok(builder)
}

/// Seals the cells of one column of type `ty` into an array that holds them
/// in order. A text column whose strings outgrow the builder's 32-bit
/// offsets is refused with `OutOfBound`.
pub fn build_array(ty: ArrowTypeSystem, cells: &Vec<Cell>) -> (r: Result<
    ArrayData,
    ConnectorAgentError,
>)
    requires
        cells@.len() <= max_capacity(),
        forall|k: int| 0 <= k < cells@.len() ==> accepts(ty, (#[trigger] cells@[k])@),
    ensures
        match r {
            Ok(a) => {
                &&& array_slots(ty.native_spec(), a) == row_slots(cells@)
                &&& column_roomy(ty, row_slots(cells@))
            },
            Err(ConnectorAgentError::OutOfBound) => !column_roomy(ty, row_slots(cells@)),
            Err(_) => false,
        },
{
    match ty {
        ArrowTypeSystem::Int32(false) => {
            let b = fill::<i32>(cells)?;
            Ok(seal_int32(b))
        },
        ArrowTypeSystem::Int32(true) => {
            let b = fill::<Option<i32>>(cells)?;
            Ok(seal_int32(b))
        },
        ArrowTypeSystem::Int64(false) => {
            let b = fill::<i64>(cells)?;
            Ok(seal_int64(b))
        },
        ArrowTypeSystem::Int64(true) => {
            let b = fill::<Option<i64>>(cells)?;
            Ok(seal_int64(b))
        },
        ArrowTypeSystem::Boolean(false) => {
            let b = fill::<bool>(cells)?;
            Ok(seal_boolean(b))
        },
        ArrowTypeSystem::Boolean(true) => {
            let b = fill::<Option<bool>>(cells)?;
            Ok(seal_boolean(b))
        },
        ArrowTypeSystem::Utf8(false) => {
            let b = fill::<String>(cells)?;
            Ok(seal_utf8(b))
        },
        ArrowTypeSystem::Utf8(true) => {
            let b = fill::<Option<String>>(cells)?;
            Ok(seal_utf8(b))
        },
    }
}

/// Collects column `c` of the filled windows, partition after partition.
fn gather_column(writers: &Vec<ArrowPartitionWriter>, schema: &Vec<ArrowTypeSystem>, c: usize) -> (cells:
    Vec<Cell>)
    requires
        c < schema@.len(),
        forall|i: int|
            0 <= i < writers@.len() ==> {
                &&& (#[trigger] writers@[i]).wf()
                &&& writers@[i].full()
                &&& writers@[i].schema_spec() == schema@
            },
    ensures
        row_slots(cells@) == stacked(writers@, schema@.len() as int, c as int),
        forall|k: int| 0 <= k < cells@.len() ==> accepts(schema@[c as int], (#[trigger] cells@[k])@),
{
    let ncols = schema.len();
    let mut cells: Vec<Cell> = Vec::new();
    let mut i: usize = 0;
    assert(writers@.subrange(0, 0) =~= Seq::<ArrowPartitionWriter>::empty());
    assert(row_slots(cells@) =~= Seq::<Slot>::empty());
    while i < writers.len()
        invariant
            i <= writers.len(),
            ncols == schema@.len(),
            c < ncols,
            forall|j: int|
                0 <= j < writers@.len() ==> {
                    &&& (#[trigger] writers@[j]).wf()
                    &&& writers@[j].full()
                    &&& writers@[j].schema_spec() == schema@
                },
            row_slots(cells@) == stacked(writers@.subrange(0, i as int), ncols as int, c as int),
            forall|k: int| 0 <= k < cells@.len() ==> accepts(schema@[c as int], (#[trigger] cells@[k])@),
        decreases writers.len() - i,
    {
        let w = &writers[i];
        let ghost base = row_slots(cells@);
        let ghost column = part_column(w.written(), w.nrows as int, ncols as int, c as int);
        proof {
            w.lemma_layout();
            assert(w.schema@.len() == ncols);
        }
        let filled = w.cells.len();
        let mut r: usize = 0;
        while r < w.nrows
            invariant
                r <= w.nrows,
                filled == w.cells@.len(),
                ncols == schema@.len(),
                c < ncols,
                w.wf(),
                w.full(),
                w.schema_spec() == schema@,
                w.cells@.len() == w.nrows * ncols,
                column == part_column(w.written(), w.nrows as int, ncols as int, c as int),
                row_slots(cells@) == base + column.subrange(0, r as int),
                forall|k: int|
                    0 <= k < cells@.len() ==> accepts(schema@[c as int], (#[trigger] cells@[k])@),
            decreases w.nrows - r,
        {
            proof {
                lemma_cell_within(r as int, c as int, w.nrows as int, ncols as int);
                lemma_cell_place(r as int, c as int, ncols as int);
            }
            let at = r * ncols + c;
            let cell = w.cells[at].duplicate();
            proof {
                assert(accepts(w.schema@[at as int % (ncols as int)], w.cells@[at as int]@));
                assert(column[r as int] == w.written()[at as int]);
                assert(w.written()[at as int] == w.cells@[at as int]@);
            }
            let ghost before = cells@;
            cells.push(cell);
            proof {
                assert(row_slots(cells@) =~= row_slots(before).push(cell@));
                assert(column.subrange(0, r + 1) =~= column.subrange(0, r as int).push(
                    column[r as int],
                ));
                assert(row_slots(cells@) =~= base + column.subrange(0, r + 1));
                assert forall|k: int| 0 <= k < cells@.len() implies accepts(
                    schema@[c as int],
                    (#[trigger] cells@[k])@,
                ) by {
                    if k < before.len() {
                        assert(cells@[k] == before[k]);
                    }
                }
            }
            r += 1;
        }
        proof {
            assert(column.subrange(0, w.nrows as int) =~= column);
            let upto = writers@.subrange(0, i + 1);
            assert(upto.drop_last() =~= writers@.subrange(0, i as int));
            assert(upto.last() == writers@[i as int]);
        }
        i += 1;
    }
    assert(writers@.subrange(0, writers@.len() as int) =~= writers@);
    cells
}

/// Tells whether two schemas are the same.
fn same_schema(a: &Vec<ArrowTypeSystem>, b: &Vec<ArrowTypeSystem>) -> (same: bool)
    ensures
        same == (a@ == b@),
{
    if a.len() != b.len() {
        return false;
    }
    let mut i: usize = 0;
    while i < a.len()
        invariant
            i <= a.len(),
            a@.len() == b@.len(),
            forall|k: int| 0 <= k < i ==> a@[k] == b@[k],
        decreases a.len() - i,
    {
        if a[i] != b[i] {
            return false;
        }
        i += 1;
    }
    assert(a@ =~= b@);
    true
}

/// What a finished transfer leaves: one field and one array per column.
pub struct ArrowTable {
    pub fields: Vec<Field>,
    pub columns: Vec<ArrayData>,
}

/// The Arrow destination: nothing until it is allocated, then the layout of
/// the transfer, which is the names and types of the columns and the number of
/// rows of every partition.
pub struct ArrowDestination {
    allocated: bool,
    names: Vec<String>,
    schema: Vec<ArrowTypeSystem>,
    row_counts: Vec<usize>,
}

impl ArrowDestination {
    /// Whether the destination was allocated.
    pub closed spec fn allocated_spec(&self) -> bool {
        self.allocated
    }

    /// The names of the columns.
    pub closed spec fn names_spec(&self) -> Seq<Seq<char>> {
        texts(self.names@)
    }

    /// The types of the columns.
    pub closed spec fn schema_spec(&self) -> Seq<ArrowTypeSystem> {
        self.schema@
    }

    /// The number of rows of every partition.
    pub closed spec fn row_counts_spec(&self) -> Seq<usize> {
        self.row_counts@
    }

    /// The invariant of the state: an allocated destination has one name per
    /// column and no more rows than a builder can be asked to make room for.
    pub closed spec fn wf(&self) -> bool {
        self.allocated ==> {
            &&& self.names@.len() == self.schema@.len()
            &&& total_rows(self.row_counts@) <= max_capacity()
        }
    }

    /// What the invariant says of an allocated destination.
    pub proof fn lemma_allocated(&self)
        requires
            self.wf(),
            self.allocated_spec(),
        ensures
            self.names_spec().len() == self.schema_spec().len(),
            total_rows(self.row_counts_spec()) <= max_capacity(),
    {
    }

    /// Whether `other` is in the state of `self`.
    pub open spec fn same_state(&self, other: &ArrowDestination) -> bool {
        &&& self.allocated_spec() == other.allocated_spec()
        &&& self.names_spec() == other.names_spec()
        &&& self.schema_spec() == other.schema_spec()
        &&& self.row_counts_spec() == other.row_counts_spec()
    }

    /// Whether `writers` are the windows of this destination, one per
    /// partition and in order, each of them filled to its last row.
    pub open spec fn filled_by(&self, writers: Seq<ArrowPartitionWriter>) -> bool {
        &&& writers.len() == self.row_counts_spec().len()
        &&& forall|i: int|
            0 <= i < writers.len() ==> {
                &&& (#[trigger] writers[i]).index_spec() == i
                &&& writers[i].nrows_spec() == self.row_counts_spec()[i]
                &&& writers[i].schema_spec() == self.schema_spec()
                &&& writers[i].full()
            }
    }

    /// A destination that is not allocated yet.
    pub fn new() -> (d: ArrowDestination)
        ensures
            d.wf(),
            !d.allocated_spec(),
            d.names_spec() == Seq::<Seq<char>>::empty(),
            d.schema_spec() == Seq::<ArrowTypeSystem>::empty(),
            d.row_counts_spec() == Seq::<usize>::empty(),
    {
        let d = ArrowDestination {
            allocated: false,
            names: Vec::new(),
            schema: Vec::new(),
            row_counts: Vec::new(),
        };
        assert(d.names_spec() =~= Seq::<Seq<char>>::empty());
        d
    }

    /// The orders that this destination accepts, by preference.
    pub fn data_orders() -> (orders: Vec<DataOrder>)
        ensures
            orders@ == seq![DataOrder::RowMajor],
    {
        let mut orders: Vec<DataOrder> = Vec::new();
        orders.push(DataOrder::RowMajor);
        assert(orders@ =~= seq![DataOrder::RowMajor]);
        orders
    }

    /// Fixes the layout of the transfer, once: the number of rows of every
    /// partition, and name and type of every column. A second allocation is a
    /// `DuplicatedAllocation`, another order than row-major an
    /// `UnsupportedDataOrder`, and more rows in all than a builder can be
    /// asked to make room for are `OutOfBound`. A refusal changes nothing.
    pub fn allocate(
        &mut self,
        row_counts: &[usize],
        names: &[String],
        schema: &[ArrowTypeSystem],
        data_order: DataOrder,
    ) -> (r: Result<(), ConnectorAgentError>)
        requires
            old(self).wf(),
            names@.len() == schema@.len(),
        ensures
            final(self).wf(),
            match r {
                Ok(()) => {
                    &&& !old(self).allocated_spec()
                    &&& data_order == DataOrder::RowMajor
                    &&& total_rows(row_counts@) <= max_capacity()
                    &&& final(self).allocated_spec()
                    &&& final(self).names_spec() == texts(names@)
                    &&& final(self).schema_spec() == schema@
                    &&& final(self).row_counts_spec() == row_counts@
                },
                Err(ConnectorAgentError::DuplicatedAllocation) => {
                    &&& old(self).allocated_spec()
                    &&& old(self).same_state(final(self))
                },
                Err(ConnectorAgentError::UnsupportedDataOrder(o)) => {
                    &&& !old(self).allocated_spec()
                    &&& o == data_order
                    &&& data_order != DataOrder::RowMajor
                    &&& old(self).same_state(final(self))
                },
                Err(ConnectorAgentError::OutOfBound) => {
                    &&& !old(self).allocated_spec()
                    &&& data_order == DataOrder::RowMajor
                    &&& total_rows(row_counts@) > max_capacity()
                    &&& old(self).same_state(final(self))
                },
                Err(_) => false,
            },
    {
        if self.allocated {
            return Err(ConnectorAgentError::DuplicatedAllocation);
        }
        match data_order {
            DataOrder::RowMajor => {},
            _ => {
                return Err(ConnectorAgentError::UnsupportedDataOrder(data_order));
            },
        }
        let limit: usize = usize::MAX / 32;
        let mut counts: Vec<usize> = Vec::new();
        let mut total: usize = 0;
        let mut i: usize = 0;
        assert(row_counts@.subrange(0, 0) =~= Seq::<usize>::empty());
        while i < row_counts.len()
            invariant
                i <= row_counts.len(),
                limit == max_capacity(),
                *self == *old(self),
                !self.allocated,
                data_order == DataOrder::RowMajor,
                counts@ == row_counts@.subrange(0, i as int),
                total == total_rows(row_counts@.subrange(0, i as int)),
                total <= limit,
            decreases row_counts.len() - i,
        {
            let n = row_counts[i];
            proof {
                assert(row_counts@.subrange(0, i + 1).drop_last() =~= row_counts@.subrange(
                    0,
                    i as int,
                ));
            }
            if n > limit - total {
                proof {
                    lemma_total_rows_prefix(row_counts@, i + 1);
                    assert(row_counts@.subrange(0, i + 1).last() == n);
                    assert(total_rows(row_counts@.subrange(0, i + 1)) == total + n);
                }
                return Err(ConnectorAgentError::OutOfBound);
            }
            total = total + n;
            counts.push(n);
            assert(counts@ =~= row_counts@.subrange(0, i + 1));
            i += 1;
        }
        assert(row_counts@.subrange(0, row_counts@.len() as int) =~= row_counts@);
        let mut types: Vec<ArrowTypeSystem> = Vec::new();
        let mut c: usize = 0;
        while c < schema.len()
            invariant
                c <= schema.len(),
                types@ == schema@.subrange(0, c as int),
            decreases schema.len() - c,
        {
            types.push(schema[c]);
            assert(types@ =~= schema@.subrange(0, c + 1));
            c += 1;
        }
        assert(schema@.subrange(0, schema@.len() as int) =~= schema@);
        let copied = copy_texts(names);
        assert(copied@.len() == texts(copied@).len());
        assert(names@.len() == texts(names@).len());
        self.names = copied;
        self.schema = types;
        self.row_counts = counts;
        self.allocated = true;
        Ok(())
    }

    /// The writer for the window of partition `i`: `row_counts[i]` rows, none
    /// of them written. Before the allocation there is none, which is a
    /// `DestinationNotAllocated`; an index past the last partition is
    /// `OutOfBound`.
    pub fn partition(&self, i: usize) -> (r: Result<ArrowPartitionWriter, ConnectorAgentError>)
        requires
            self.wf(),
        ensures
            match r {
                Ok(w) => {
                    &&& self.allocated_spec()
                    &&& i < self.row_counts_spec().len()
                    &&& w.wf()
                    &&& w.index_spec() == i
                    &&& w.nrows_spec() == self.row_counts_spec()[i as int]
                    &&& w.schema_spec() == self.schema_spec()
                    &&& w.written() == Seq::<Slot>::empty()
                    &&& w.position() == (0int, 0int)
                },
                Err(ConnectorAgentError::DestinationNotAllocated) => !self.allocated_spec(),
                Err(ConnectorAgentError::OutOfBound) => {
                    &&& self.allocated_spec()
                    &&& i >= self.row_counts_spec().len()
                },
                Err(_) => false,
            },
    {
        if !self.allocated {
            return Err(ConnectorAgentError::DestinationNotAllocated);
        }
        if i >= self.row_counts.len() {
            return Err(ConnectorAgentError::OutOfBound);
        }
        Ok(ArrowPartitionWriter::new(i, self.row_counts[i], self.schema.as_slice()))
    }

    /// Tells whether `writers` are the windows of this destination, one per
    /// partition and in order, each of them filled to its last row.
    pub fn is_filled_by(&self, writers: &Vec<ArrowPartitionWriter>) -> (b: bool)
        ensures
            b == self.filled_by(writers@),
    {
        if writers.len() != self.row_counts.len() {
            return false;
        }
        let mut i: usize = 0;
        while i < writers.len()
            invariant
                i <= writers.len(),
                writers@.len() == self.row_counts@.len(),
                forall|k: int|
                    0 <= k < i ==> {
                        &&& (#[trigger] writers@[k]).index_spec() == k
                        &&& writers@[k].nrows_spec() == self.row_counts_spec()[k]
                        &&& writers@[k].schema_spec() == self.schema_spec()
                        &&& writers@[k].full()
                    },
            decreases writers.len() - i,
        {
            let w = &writers[i];
            if w.index != i || w.nrows != self.row_counts[i] || !same_schema(&w.schema, &self.schema)
                || !w.is_full() {
                return false;
            }
            i += 1;
        }
        true
    }

    /// Seals the transfer: takes the filled windows back, one per partition
    /// and in order, and makes one field and one array per column. The array
    /// of a column holds the cells that the partitions wrote into it, partition
    /// after partition by index, each partition's rows in order; it has as
    /// many rows as the partitions were allocated in all. Before the
    /// allocation there is nothing to seal, which is a
    /// `DestinationNotAllocated`. Windows that are not those of this
    /// destination, or of which one is not filled to its last row, are
    /// `OutOfBound`, and so is a text column that outgrows its builder.
    pub fn finish(self, writers: Vec<ArrowPartitionWriter>) -> (r: Result<
        ArrowTable,
        ConnectorAgentError,
    >)
        requires
            self.wf(),
            forall|i: int| 0 <= i < writers@.len() ==> (#[trigger] writers@[i]).wf(),
        ensures
            match r {
                Ok(table) => {
                    &&& self.allocated_spec()
                    &&& self.filled_by(writers@)
                    &&& table.fields@.len() == self.schema_spec().len()
                    &&& table.columns@.len() == self.schema_spec().len()
                    &&& forall|c: int|
                        0 <= c < self.schema_spec().len() ==> {
                            &&& field_name(#[trigger] table.fields@[c]) == self.names_spec()[c]
                            &&& field_type(table.fields@[c]) == Some(
                                field_type_of(self.schema_spec()[c]),
                            )
                            &&& field_nullable(table.fields@[c])
                                == self.schema_spec()[c].nullable_spec()
                        }
                    &&& forall|c: int|
                        0 <= c < self.schema_spec().len() ==> {
                            &&& array_slots(
                                self.schema_spec()[c].native_spec(),
                                #[trigger] table.columns@[c],
                            ) == stacked(writers@, self.schema_spec().len() as int, c)
                            &&& stacked(writers@, self.schema_spec().len() as int, c).len()
                                == total_rows(self.row_counts_spec())
                            &&& column_roomy(
                                self.schema_spec()[c],
                                stacked(writers@, self.schema_spec().len() as int, c),
                            )
                        }
                },
                Err(ConnectorAgentError::DestinationNotAllocated) => !self.allocated_spec(),
                Err(ConnectorAgentError::OutOfBound) => {
                    &&& self.allocated_spec()
                    &&& !self.filled_by(writers@) || exists|c: int|
                        0 <= c < self.schema_spec().len() && !column_roomy(
                            self.schema_spec()[c],
                            #[trigger] stacked(writers@, self.schema_spec().len() as int, c),
                        )
                },
                Err(_) => false,
            },
    {
        if !self.allocated {
            return Err(ConnectorAgentError::DestinationNotAllocated);
        }
        if !self.is_filled_by(&writers) {
            return Err(ConnectorAgentError::OutOfBound);
        }
        let ghost ncols = self.schema@.len() as int;
        let mut fields: Vec<Field> = Vec::new();
        let mut columns: Vec<ArrayData> = Vec::new();
        let mut c: usize = 0;
        while c < self.schema.len()
            invariant
                c <= self.schema.len(),
                ncols == self.schema@.len(),
                self.wf(),
                self.allocated,
                self.filled_by(writers@),
                forall|i: int| 0 <= i < writers@.len() ==> (#[trigger] writers@[i]).wf(),
                fields@.len() == c,
                columns@.len() == c,
                forall|k: int|
                    0 <= k < c ==> {
                        &&& field_name(#[trigger] fields@[k]) == self.names_spec()[k]
                        &&& field_type(fields@[k]) == Some(field_type_of(self.schema_spec()[k]))
                        &&& field_nullable(fields@[k]) == self.schema_spec()[k].nullable_spec()
                    },
                forall|k: int|
                    0 <= k < c ==> array_slots(
                        self.schema_spec()[k].native_spec(),
                        #[trigger] columns@[k],
                    ) == stacked(writers@, ncols, k),
                forall|k: int|
                    0 <= k < c ==> (#[trigger] stacked(writers@, ncols, k)).len() == total_rows(
                        self.row_counts_spec(),
                    ),
                forall|k: int|
                    0 <= k < c ==> column_roomy(
                        self.schema_spec()[k],
                        #[trigger] stacked(writers@, ncols, k),
                    ),
            decreases self.schema.len() - c,
        {
            let cells = gather_column(&writers, &self.schema, c);
            proof {
                lemma_stacked_len(writers@, ncols, c as int);
                lemma_rows_of_counts(writers@, self.row_counts@);
                assert(cells@.len() == row_slots(cells@).len());
            }
            let array = match build_array(self.schema[c], &cells) {
                Ok(a) => a,
                Err(e) => {
                    return Err(e);
                },
            };
            let field = make_field(self.names[c].as_str(), self.schema[c]);
            assert(self.names_spec()[c as int] == self.names@[c as int]@);
            let ghost sealed = columns@;
            let ghost named = fields@;
            fields.push(field);
            columns.push(array);
            proof {
                assert(rows_of(writers@) == total_rows(self.row_counts_spec()));
                assert forall|k: int| 0 <= k < c + 1 implies array_slots(
                    self.schema_spec()[k].native_spec(),
                    #[trigger] columns@[k],
                ) == stacked(writers@, ncols, k) by {
                    if k < c {
                        assert(columns@[k] == sealed[k]);
                    }
                }
                assert forall|k: int| 0 <= k < c + 1 implies {
                    &&& field_name(#[trigger] fields@[k]) == self.names_spec()[k]
                    &&& field_type(fields@[k]) == Some(field_type_of(self.schema_spec()[k]))
                    &&& field_nullable(fields@[k]) == self.schema_spec()[k].nullable_spec()
                } by {
                    if k < c {
                        assert(fields@[k] == named[k]);
                    }
                }
            }
            c += 1;
        }
        Ok(ArrowTable { fields, columns })
    }
}

} // verus!
