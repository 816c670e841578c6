//! The values that travel from a source to a destination, one per cell.

use chrono::{NaiveDate, NaiveDateTime, NaiveTime};
use rust_decimal::Decimal;
use vstd::prelude::*;

verus! {

/// `chrono::NaiveDate`: a calendar date. Carried through unread.
#[verifier::external_type_specification]
#[verifier::external_body]
pub struct ExNaiveDate(NaiveDate);

/// `chrono::NaiveTime`: a time of day. Carried through unread.
#[verifier::external_type_specification]
#[verifier::external_body]
pub struct ExNaiveTime(NaiveTime);

/// `chrono::NaiveDateTime`: a date with a time of day. Carried through unread.
#[verifier::external_type_specification]
#[verifier::external_body]
pub struct ExNaiveDateTime(NaiveDateTime);

/// `rust_decimal::Decimal`: a decimal number. Carried through unread.
#[verifier::external_type_specification]
#[verifier::external_body]
pub struct ExDecimal(Decimal);

/// The native types that a cell can carry.
#[derive(Clone, Copy, Debug, PartialEq, Eq, Structural)]
pub enum NativeKind {
    Int32,
    Int64,
    Boolean,
    Utf8,
    Date,
    Time,
    DateTime,
    Decimal,
}

/// One cell of a row, as the source hands it over.
#[derive(Debug)]
pub enum Cell {
    Null,
    Int32(i32),
    Int64(i64),
    Boolean(bool),
    Utf8(String),
    Date(NaiveDate),
    Time(NaiveTime),
    DateTime(NaiveDateTime),
    Decimal(Decimal),
}

/// What a cell holds, as a mathematical value.
pub enum Slot {
    Null,
    Int32(i32),
    Int64(i64),
    Boolean(bool),
    Utf8(Seq<char>),
    Date(NaiveDate),
    Time(NaiveTime),
    DateTime(NaiveDateTime),
    Decimal(Decimal),
}

impl Slot {
    /// The native kind of the value in this slot; a null has none.
    pub open spec fn kind(self) -> Option<NativeKind> {
        match self {
            Slot::Null => None,
            Slot::Int32(_) => Some(NativeKind::Int32),
            Slot::Int64(_) => Some(NativeKind::Int64),
            Slot::Boolean(_) => Some(NativeKind::Boolean),
            Slot::Utf8(_) => Some(NativeKind::Utf8),
            Slot::Date(_) => Some(NativeKind::Date),
            Slot::Time(_) => Some(NativeKind::Time),
            Slot::DateTime(_) => Some(NativeKind::DateTime),
            Slot::Decimal(_) => Some(NativeKind::Decimal),
        }
    }
}

impl View for Cell {
    type V = Slot;

    open spec fn view(&self) -> Slot {
        match *self {
            Cell::Null => Slot::Null,
            Cell::Int32(v) => Slot::Int32(v),
            Cell::Int64(v) => Slot::Int64(v),
            Cell::Boolean(v) => Slot::Boolean(v),
            Cell::Utf8(s) => Slot::Utf8(s@),
            Cell::Date(v) => Slot::Date(v),
            Cell::Time(v) => Slot::Time(v),
            Cell::DateTime(v) => Slot::DateTime(v),
            Cell::Decimal(v) => Slot::Decimal(v),
        }
    }
}

impl Cell {
    /// Tells whether the cell is a null.
    pub fn is_null(&self) -> (b: bool)
        ensures
            b == (self@ is Null),
    {
        match self {
            Cell::Null => true,
            _ => false,
        }
    }

    /// Copies the cell.
    pub fn duplicate(&self) -> (c: Cell)
        ensures
            c@ == self@,
    {
        match self {
            Cell::Null => Cell::Null,
            Cell::Int32(v) => Cell::Int32(*v),
            Cell::Int64(v) => Cell::Int64(*v),
            Cell::Boolean(v) => Cell::Boolean(*v),
            Cell::Utf8(s) => Cell::Utf8(s.clone()),
            Cell::Date(v) => Cell::Date(*v),
            Cell::Time(v) => Cell::Time(*v),
            Cell::DateTime(v) => Cell::DateTime(*v),
            Cell::Decimal(v) => Cell::Decimal(*v),
        }
    }
}

/// The views of a row's cells, in column order.
pub open spec fn row_slots(row: Seq<Cell>) -> Seq<Slot> {
    row.map_values(|c: Cell| c@)
}

/// The views of a list of texts.
pub open spec fn texts(v: Seq<String>) -> Seq<Seq<char>> {
    v.map_values(|s: String| s@)
}

/// Copies a list of texts.
pub fn copy_texts(v: &[String]) -> (copy: Vec<String>)
    ensures
        texts(copy@) == texts(v@),
{
    let mut copy: Vec<String> = Vec::new();
    let mut i: usize = 0;
    while i < v.len()
        invariant
            i <= v.len(),
            copy@.len() == i,
            forall|k: int| 0 <= k < i ==> (#[trigger] copy@[k])@ == v@[k]@,
        decreases v.len() - i,
    {
        copy.push(v[i].clone());
        i += 1;
    }
    assert(texts(copy@) =~= texts(v@));
    copy
}

/// A native type that a cell can carry from a source to a destination.
pub trait Transport: Sized {
    /// The kind of this type.
    spec fn kind_spec() -> NativeKind;

    /// The name of this type in messages.
    spec fn label_spec() -> Seq<char>;

    /// The slot that carries `self`.
    spec fn slot(self) -> Slot;

    /// A value is carried by a slot of its own kind, never by a null.
    proof fn lemma_slot_kind(self)
        ensures
            self.slot().kind() == Some(Self::kind_spec()),
    ;

    fn kind() -> (k: NativeKind)
        ensures
            k == Self::kind_spec(),
    ;

    fn label() -> (name: &'static str)
        ensures
            name@ == Self::label_spec(),
    ;

    /// Wraps the value into a cell.
    fn into_cell(self) -> (c: Cell)
        ensures
            c@ == self.slot(),
    ;

    /// Reads a value of this type out of a cell: `None` when the cell carries a
    /// null or a value of another kind.
    fn from_cell(c: &Cell) -> (r: Option<Self>)
        ensures
            r is Some <==> c@.kind() == Some(Self::kind_spec()),
            r matches Some(v) ==> v.slot() == c@,
    ;
}

impl Transport for i32 {
    open spec fn kind_spec() -> NativeKind {
        NativeKind::Int32
    }

    open spec fn label_spec() -> Seq<char> {
        "i32"@
    }

    open spec fn slot(self) -> Slot {
        Slot::Int32(self)
    }

    proof fn lemma_slot_kind(self) {
    }

    fn kind() -> (k: NativeKind) {
        NativeKind::Int32
    }

    fn label() -> (name: &'static str) {
        "i32"
    }

    fn into_cell(self) -> (c: Cell) {
        Cell::Int32(self)
    }

    fn from_cell(c: &Cell) -> (r: Option<Self>) {
        match c {
            Cell::Int32(v) => Some(*v),
            _ => None,
        }
    }
}

impl Transport for i64 {
    open spec fn kind_spec() -> NativeKind {
        NativeKind::Int64
    }

    open spec fn label_spec() -> Seq<char> {
        "i64"@
    }

    open spec fn slot(self) -> Slot {
        Slot::Int64(self)
    }

    proof fn lemma_slot_kind(self) {
    }

    fn kind() -> (k: NativeKind) {
        NativeKind::Int64
    }

    fn label() -> (name: &'static str) {
        "i64"
    }

    fn into_cell(self) -> (c: Cell) {
        Cell::Int64(self)
    }

    fn from_cell(c: &Cell) -> (r: Option<Self>) {
        match c {
            Cell::Int64(v) => Some(*v),
            _ => None,
        }
    }
}

impl Transport for bool {
    open spec fn kind_spec() -> NativeKind {
        NativeKind::Boolean
    }

    open spec fn label_spec() -> Seq<char> {
        "bool"@
    }

    open spec fn slot(self) -> Slot {
        Slot::Boolean(self)
    }

    proof fn lemma_slot_kind(self) {
    }

    fn kind() -> (k: NativeKind) {
        NativeKind::Boolean
    }

    fn label() -> (name: &'static str) {
        "bool"
    }

    fn into_cell(self) -> (c: Cell) {
        Cell::Boolean(self)
    }

    fn from_cell(c: &Cell) -> (r: Option<Self>) {
        match c {
            Cell::Boolean(v) => Some(*v),
            _ => None,
        }
    }
}

impl Transport for String {
    open spec fn kind_spec() -> NativeKind {
        NativeKind::Utf8
    }

    open spec fn label_spec() -> Seq<char> {
        "String"@
    }

    open spec fn slot(self) -> Slot {
        Slot::Utf8(self@)
    }

    proof fn lemma_slot_kind(self) {
    }

    fn kind() -> (k: NativeKind) {
        NativeKind::Utf8
    }

    fn label() -> (name: &'static str) {
        "String"
    }

    fn into_cell(self) -> (c: Cell) {
        Cell::Utf8(self)
    }

    fn from_cell(c: &Cell) -> (r: Option<Self>) {
        match c {
            Cell::Utf8(s) => Some(s.clone()),
            _ => None,
        }
    }
}

impl Transport for NaiveDate {
    open spec fn kind_spec() -> NativeKind {
        NativeKind::Date
    }

    open spec fn label_spec() -> Seq<char> {
        "NaiveDate"@
    }

    open spec fn slot(self) -> Slot {
        Slot::Date(self)
    }

    proof fn lemma_slot_kind(self) {
    }

    fn kind() -> (k: NativeKind) {
        NativeKind::Date
    }

    fn label() -> (name: &'static str) {
        "NaiveDate"
    }

    fn into_cell(self) -> (c: Cell) {
        Cell::Date(self)
    }

    fn from_cell(c: &Cell) -> (r: Option<Self>) {
        match c {
            Cell::Date(v) => Some(*v),
            _ => None,
        }
    }
}

impl Transport for NaiveTime {
    open spec fn kind_spec() -> NativeKind {
        NativeKind::Time
    }

    open spec fn label_spec() -> Seq<char> {
        "NaiveTime"@
    }

    open spec fn slot(self) -> Slot {
        Slot::Time(self)
    }

    proof fn lemma_slot_kind(self) {
    }

    fn kind() -> (k: NativeKind) {
        NativeKind::Time
    }

    fn label() -> (name: &'static str) {
        "NaiveTime"
    }

    fn into_cell(self) -> (c: Cell) {
        Cell::Time(self)
    }

    fn from_cell(c: &Cell) -> (r: Option<Self>) {
        match c {
            Cell::Time(v) => Some(*v),
            _ => None,
        }
    }
}

impl Transport for NaiveDateTime {
    open spec fn kind_spec() -> NativeKind {
        NativeKind::DateTime
    }

    open spec fn label_spec() -> Seq<char> {
        "NaiveDateTime"@
    }

    open spec fn slot(self) -> Slot {
        Slot::DateTime(self)
    }

    proof fn lemma_slot_kind(self) {
    }

    fn kind() -> (k: NativeKind) {
        NativeKind::DateTime
    }

    fn label() -> (name: &'static str) {
        "NaiveDateTime"
    }

    fn into_cell(self) -> (c: Cell) {
        Cell::DateTime(self)
    }

    fn from_cell(c: &Cell) -> (r: Option<Self>) {
        match c {
            Cell::DateTime(v) => Some(*v),
            _ => None,
        }
    }
}

impl Transport for Decimal {
    open spec fn kind_spec() -> NativeKind {
        NativeKind::Decimal
    }

    open spec fn label_spec() -> Seq<char> {
        "Decimal"@
    }

    open spec fn slot(self) -> Slot {
        Slot::Decimal(self)
    }

    proof fn lemma_slot_kind(self) {
    }

    fn kind() -> (k: NativeKind) {
        NativeKind::Decimal
    }

    fn label() -> (name: &'static str) {
        "Decimal"
    }

    fn into_cell(self) -> (c: Cell) {
        Cell::Decimal(self)
    }

    fn from_cell(c: &Cell) -> (r: Option<Self>) {
        match c {
            Cell::Decimal(v) => Some(*v),
            _ => None,
        }
    }
}

} // verus!
