//! The native types that an Arrow column stores, each with the builder that
//! collects its values.

use crate::errors::ConnectorAgentError;
use crate::value::{Cell, NativeKind, Slot};
use arrow::array::{Array, ArrayData, BooleanBuilder, Int32Builder, Int64Builder, StringBuilder};
use arrow::datatypes::{DataType, Field};
use arrow::error::ArrowError;
use vstd::prelude::*;
use vstd::utf8::encode_utf8;

verus! {

/// `arrow::array::BooleanBuilder`: collects optional booleans.
#[verifier::external_type_specification]
#[verifier::external_body]
pub struct ExBooleanBuilder(BooleanBuilder);

/// `arrow::array::ArrayData`: the sealed contents of one array.
#[verifier::external_type_specification]
#[verifier::external_body]
pub struct ExArrayData(ArrayData);

/// `arrow::datatypes::Field`: name, data type and nullability of a column.
#[verifier::external_type_specification]
#[verifier::external_body]
pub struct ExField(Field);

/// Holds an `arrow::array::Int32Builder`, which collects optional 32-bit
/// integers. The builder's type is generic over a trait of its crate, so it
/// is kept behind this struct and reached through the functions below.
#[verifier::external_body]
pub struct Int32Column {
    inner: Int32Builder,
}

/// Holds an `arrow::array::Int64Builder`, which collects optional 64-bit
/// integers. The builder's type is generic over a trait of its crate, so it
/// is kept behind this struct and reached through the functions below.
#[verifier::external_body]
pub struct Int64Column {
    inner: Int64Builder,
}

/// Holds an `arrow::array::StringBuilder`, which collects optional strings.
/// The builder's type is generic over a trait of its crate, so it is kept
/// behind this struct and reached through the functions below.
#[verifier::external_body]
pub struct Utf8Column {
    inner: StringBuilder,
}

/// The data types that a field of this library names.
#[derive(Clone, Copy, Debug, PartialEq, Eq, Structural)]
pub enum FieldType {
    Int32,
    Int64,
    Boolean,
    Utf8,
}

/// The slots that an `Int32Builder` has collected, in order; `None` is a null.
pub uninterp spec fn int32_slots(b: Int32Column) -> Seq<Option<i32>>;

/// The slots that an `Int64Builder` has collected, in order; `None` is a null.
pub uninterp spec fn int64_slots(b: Int64Column) -> Seq<Option<i64>>;

/// The slots that a `BooleanBuilder` has collected, in order; `None` is a null.
pub uninterp spec fn boolean_slots(b: BooleanBuilder) -> Seq<Option<bool>>;

/// The slots that a `StringBuilder` has collected, in order; `None` is a null.
pub uninterp spec fn utf8_slots(b: Utf8Column) -> Seq<Option<Seq<char>>>;

/// The slots of an array of 32-bit integers, in order; `None` is a null.
pub uninterp spec fn int32_values(a: ArrayData) -> Seq<Option<i32>>;

/// The slots of an array of 64-bit integers, in order; `None` is a null.
pub uninterp spec fn int64_values(a: ArrayData) -> Seq<Option<i64>>;

/// The slots of an array of booleans, in order; `None` is a null.
pub uninterp spec fn boolean_values(a: ArrayData) -> Seq<Option<bool>>;

/// The slots of an array of strings, in order; `None` is a null.
pub uninterp spec fn utf8_values(a: ArrayData) -> Seq<Option<Seq<char>>>;

/// The name of a field.
pub uninterp spec fn field_name(f: Field) -> Seq<char>;

/// The data type of a field, where it is one that this library names.
pub uninterp spec fn field_type(f: Field) -> Option<FieldType>;

/// Whether a field admits nulls.
pub uninterp spec fn field_nullable(f: Field) -> bool;

/// The most values that a builder may be asked to make room for: it counts
/// the room in bytes, rounded up, in a machine word.
pub open spec fn max_capacity() -> usize {
    (usize::MAX / 32) as usize
}

/// The bytes that a slot's text takes in UTF-8; other slots take none.
pub open spec fn slot_bytes(slot: Slot) -> nat {
    match slot {
        Slot::Utf8(s) => encode_utf8(s).len(),
        _ => 0,
    }
}

/// The bytes that the texts of `slots` take in UTF-8.
pub open spec fn text_bytes(slots: Seq<Slot>) -> nat
    decreases slots.len(),
{
    if slots.len() == 0 {
        0
    } else {
        text_bytes(slots.drop_last()) + slot_bytes(slots.last())
    }
}

/// Whether a string builder that holds `slots` takes `slot` as well: it
/// counts its slots and its bytes in 32-bit offsets.
pub open spec fn text_room(slots: Seq<Slot>, slot: Slot) -> bool {
    slots.len() < i32::MAX && text_bytes(slots) + slot_bytes(slot) <= i32::MAX
}

/// The slots of optional strings.
pub open spec fn lift_utf8(s: Seq<Option<Seq<char>>>) -> Seq<Slot> {
    s.map_values(
        |o: Option<Seq<char>>|
            match o {
                Some(v) => Slot::Utf8(v),
                None => Slot::Null,
            },
    )
}

/// Calls `Int32Builder::new`: an empty builder with room for `capacity` values.
#[verifier::external_body]
fn int32_new(capacity: usize) -> (b: Int32Column)
    requires
        capacity <= max_capacity(),
    ensures
        int32_slots(b) == Seq::<Option<i32>>::empty(),
{
    Int32Column { inner: Int32Builder::new(capacity) }
}

/// Calls `Int32Builder::append_value`, which appends the value as the last
/// slot and, in this version of the crate, always returns `Ok`.
#[verifier::external_body]
fn int32_append_value(b: &mut Int32Column, v: i32) -> (r: Result<(), ArrowError>)
    ensures
        r is Ok,
        int32_slots(*final(b)) == int32_slots(*old(b)).push(Some(v)),
{
    b.inner.append_value(v)
}

/// Calls `Int32Builder::append_option`, which appends the value, or a null for
/// `None`, as the last slot and, in this version of the crate, always returns
/// `Ok`.
#[verifier::external_body]
fn int32_append_option(b: &mut Int32Column, v: Option<i32>) -> (r: Result<(), ArrowError>)
    ensures
        r is Ok,
        int32_slots(*final(b)) == int32_slots(*old(b)).push(v),
{
    b.inner.append_option(v)
}

/// Calls `Int32Builder::finish` and takes the array's data: the array holds
/// the builder's slots.
#[verifier::external_body]
fn int32_finish(b: Int32Column) -> (a: ArrayData)
    ensures
        int32_values(a) == int32_slots(b),
{
    let mut b = b;
    b.inner.finish().data().clone()
}

/// Calls `Int64Builder::new`: an empty builder with room for `capacity` values.
#[verifier::external_body]
fn int64_new(capacity: usize) -> (b: Int64Column)
    requires
        capacity <= max_capacity(),
    ensures
        int64_slots(b) == Seq::<Option<i64>>::empty(),
{
    Int64Column { inner: Int64Builder::new(capacity) }
}

/// Calls `Int64Builder::append_value`, which appends the value as the last
/// slot and, in this version of the crate, always returns `Ok`.
#[verifier::external_body]
fn int64_append_value(b: &mut Int64Column, v: i64) -> (r: Result<(), ArrowError>)
    ensures
        r is Ok,
        int64_slots(*final(b)) == int64_slots(*old(b)).push(Some(v)),
{
    b.inner.append_value(v)
}

/// Calls `Int64Builder::append_option`, which appends the value, or a null for
/// `None`, as the last slot and, in this version of the crate, always returns
/// `Ok`.
#[verifier::external_body]
fn int64_append_option(b: &mut Int64Column, v: Option<i64>) -> (r: Result<(), ArrowError>)
    ensures
        r is Ok,
        int64_slots(*final(b)) == int64_slots(*old(b)).push(v),
{
    b.inner.append_option(v)
}

/// Calls `Int64Builder::finish` and takes the array's data: the array holds
/// the builder's slots.
#[verifier::external_body]
fn int64_finish(b: Int64Column) -> (a: ArrayData)
    ensures
        int64_values(a) == int64_slots(b),
{
    let mut b = b;
    b.inner.finish().data().clone()
}

/// Calls `BooleanBuilder::new`: an empty builder with room for `capacity`
/// values.
#[verifier::external_body]
fn boolean_new(capacity: usize) -> (b: BooleanBuilder)
    requires
        capacity <= max_capacity(),
    ensures
        boolean_slots(b) == Seq::<Option<bool>>::empty(),
{
    BooleanBuilder::new(capacity)
}

/// Calls `BooleanBuilder::append_value`, which appends the value as the last
/// slot and, in this version of the crate, always returns `Ok`.
#[verifier::external_body]
fn boolean_append_value(b: &mut BooleanBuilder, v: bool) -> (r: Result<(), ArrowError>)
    ensures
        r is Ok,
        boolean_slots(*final(b)) == boolean_slots(*old(b)).push(Some(v)),
{
    b.append_value(v)
}

/// Calls `BooleanBuilder::append_option`, which appends the value, or a null
/// for `None`, as the last slot and, in this version of the crate, always
/// returns `Ok`.
#[verifier::external_body]
fn boolean_append_option(b: &mut BooleanBuilder, v: Option<bool>) -> (r: Result<(), ArrowError>)
    ensures
        r is Ok,
        boolean_slots(*final(b)) == boolean_slots(*old(b)).push(v),
{
    b.append_option(v)
}

/// Calls `BooleanBuilder::finish` and takes the array's data: the array holds
/// the builder's slots.
#[verifier::external_body]
fn boolean_finish(b: BooleanBuilder) -> (a: ArrayData)
    ensures
        boolean_values(a) == boolean_slots(b),
{
    let mut b = b;
    b.finish().data().clone()
}

/// Calls `StringBuilder::new`: an empty builder with room for `capacity` bytes
/// of text.
#[verifier::external_body]
fn utf8_new(capacity: usize) -> (b: Utf8Column)
    requires
        capacity <= max_capacity(),
    ensures
        utf8_slots(b) == Seq::<Option<Seq<char>>>::empty(),
{
    Utf8Column { inner: StringBuilder::new(capacity) }
}

/// Calls `StringBuilder::append_value`, which appends the text as the last slot
/// and, in this version of the crate, always returns `Ok`. It panics where the
/// builder's bytes no longer fit a 32-bit offset, which `requires` leaves out.
#[verifier::external_body]
fn utf8_append_value(b: &mut Utf8Column, v: &str) -> (r: Result<(), ArrowError>)
    requires
        text_room(lift_utf8(utf8_slots(*old(b))), Slot::Utf8(v@)),
    ensures
        r is Ok,
        utf8_slots(*final(b)) == utf8_slots(*old(b)).push(Some(v@)),
{
    b.inner.append_value(v)
}

/// Calls `StringBuilder::append_null`, which appends a null as the last slot
/// and, in this version of the crate, always returns `Ok`.
#[verifier::external_body]
fn utf8_append_null(b: &mut Utf8Column) -> (r: Result<(), ArrowError>)
    requires
        text_room(lift_utf8(utf8_slots(*old(b))), Slot::Null),
    ensures
        r is Ok,
        utf8_slots(*final(b)) == utf8_slots(*old(b)).push(None),
{
    b.inner.append_null()
}

/// Calls `StringBuilder::finish` and takes the array's data: the array holds
/// the builder's slots.
#[verifier::external_body]
fn utf8_finish(b: Utf8Column) -> (a: ArrayData)
    ensures
        utf8_values(a) == utf8_slots(b),
{
    let mut b = b;
    b.inner.finish().data().clone()
}

/// Calls `Field::new`, which keeps the name, the data type and the
/// nullability as they are given.
#[verifier::external_body]
fn new_field(header: &str, data_type: FieldType, nullable: bool) -> (f: Field)
    ensures
        field_name(f) == header@,
        field_type(f) == Some(data_type),
        field_nullable(f) == nullable,
{
    let data_type = match data_type {
        FieldType::Int32 => DataType::Int32,
        FieldType::Int64 => DataType::Int64,
        FieldType::Boolean => DataType::Boolean,
        FieldType::Utf8 => DataType::Utf8,
    };
    Field::new(header, data_type, nullable)
}

/// The slots of optional 32-bit integers.
pub open spec fn lift_int32(s: Seq<Option<i32>>) -> Seq<Slot> {
    s.map_values(
        |o: Option<i32>|
            match o {
                Some(v) => Slot::Int32(v),
                None => Slot::Null,
            },
    )
}

/// The slots of optional 64-bit integers.
pub open spec fn lift_int64(s: Seq<Option<i64>>) -> Seq<Slot> {
    s.map_values(
        |o: Option<i64>|
            match o {
                Some(v) => Slot::Int64(v),
                None => Slot::Null,
            },
    )
}

/// The slots of optional booleans.
pub open spec fn lift_boolean(s: Seq<Option<bool>>) -> Seq<Slot> {
    s.map_values(
        |o: Option<bool>|
            match o {
                Some(v) => Slot::Boolean(v),
                None => Slot::Null,
            },
    )
}

/// The slots of a sealed array whose values have the native kind `kind`; no
/// array holds values of the other kinds.
pub open spec fn array_slots(kind: NativeKind, a: ArrayData) -> Seq<Slot> {
    match kind {
        NativeKind::Int32 => lift_int32(int32_values(a)),
        NativeKind::Int64 => lift_int64(int64_values(a)),
        NativeKind::Boolean => lift_boolean(boolean_values(a)),
        NativeKind::Utf8 => lift_utf8(utf8_values(a)),
        _ => Seq::empty(),
    }
}

/// A string builder together with the number of slots and bytes that it
/// holds, which bound what it takes.
pub struct Utf8Builder {
    column: Utf8Column,
    len: usize,
    bytes: usize,
}

impl Utf8Builder {
    /// The slots that were collected, in order.
    pub closed spec fn slots(&self) -> Seq<Slot> {
        lift_utf8(utf8_slots(self.column))
    }

    /// The invariant of the state: the counts are those of the slots, and
    /// within the builder's bounds.
    pub closed spec fn wf(&self) -> bool {
        &&& self.len == self.slots().len()
        &&& self.bytes == text_bytes(self.slots())
        &&& self.len <= i32::MAX
        &&& self.bytes <= i32::MAX
    }

    fn new(capacity: usize) -> (b: Utf8Builder)
        requires
            capacity <= max_capacity(),
        ensures
            b.wf(),
            b.slots() == Seq::<Slot>::empty(),
    {
        let b = Utf8Builder { column: utf8_new(capacity), len: 0, bytes: 0 };
        assert(b.slots() =~= Seq::<Slot>::empty());
        b
    }

    fn push(&mut self, value: Option<&str>) -> (r: Result<(), ConnectorAgentError>)
        requires
            old(self).wf(),
        ensures
            final(self).wf(),
            match r {
                Ok(()) => {
                    &&& text_room(old(self).slots(), text_slot(value))
                    &&& final(self).slots() == old(self).slots().push(text_slot(value))
                },
                Err(ConnectorAgentError::OutOfBound) => {
                    &&& !text_room(old(self).slots(), text_slot(value))
                    &&& final(self).slots() == old(self).slots()
                },
                Err(_) => false,
            },
    {
        let more: usize = match value {
            Some(s) => s.as_bytes().len(),
            None => 0,
        };
        if self.len >= 0x7fff_ffff || more > 0x7fff_ffff - self.bytes {
            return Err(ConnectorAgentError::OutOfBound);
        }
        let ghost before = self.slots();
        let appended = match value {
            Some(s) => utf8_append_value(&mut self.column, s),
            None => utf8_append_null(&mut self.column),
        };
        proof {
            let after = self.slots();
            assert(after =~= before.push(text_slot(value)));
            assert(after.drop_last() =~= before);
        }
        self.len = self.len + 1;
        self.bytes = self.bytes + more;
        match appended {
            Ok(()) => Ok(()),
            Err(e) => Err(ConnectorAgentError::ArrowError(e)),
        }
    }

    fn seal(self) -> (a: ArrayData)
        ensures
            lift_utf8(utf8_values(a)) == self.slots(),
    {
        utf8_finish(self.column)
    }
}

/// The slot of an optional text.
pub open spec fn text_slot(value: Option<&str>) -> Slot {
    match value {
        Some(s) => Slot::Utf8(s@),
        None => Slot::Null,
    }
}

/// Associates a native type with the Arrow builder that collects its values.
pub trait ArrowAssoc: Sized {
    type Builder;

    /// The invariant of a builder.
    spec fn wf(b: &Self::Builder) -> bool;

    /// The slots that a builder has collected, in order.
    spec fn slots(b: &Self::Builder) -> Seq<Slot>;

    /// The slot that stores `self`.
    spec fn slot(&self) -> Slot;

    /// Whether a slot stores a value of this type.
    spec fn stores(slot: Slot) -> bool;

    /// Whether a builder that holds `slots` takes `slot` as well.
    spec fn fits(slots: Seq<Slot>, slot: Slot) -> bool;

    /// The data type of a column of this type.
    spec fn field_type() -> FieldType;

    /// Whether a column of this type admits nulls.
    spec fn nullable() -> bool;

    /// An empty builder with room for `nrows` values.
    fn builder(nrows: usize) -> (b: Self::Builder)
        requires
            nrows <= max_capacity(),
        ensures
            Self::wf(&b),
            Self::slots(&b) == Seq::<Slot>::empty(),
    ;

    /// Appends the value as the builder's last slot. A value that the builder
    /// has no room for is refused with `OutOfBound`, and nothing changes.
    fn append(builder: &mut Self::Builder, value: Self) -> (r: Result<(), ConnectorAgentError>)
        requires
            Self::wf(old(builder)),
        ensures
            Self::wf(final(builder)),
            match r {
                Ok(()) => {
                    &&& Self::fits(Self::slots(old(builder)), value.slot())
                    &&& Self::slots(final(builder)) == Self::slots(old(builder)).push(value.slot())
                },
                Err(ConnectorAgentError::OutOfBound) => {
                    &&& !Self::fits(Self::slots(old(builder)), value.slot())
                    &&& Self::slots(final(builder)) == Self::slots(old(builder))
                },
                Err(_) => false,
            },
    ;

    /// The field of a column of this type under the name `header`.
    fn field(header: &str) -> (f: Field)
        ensures
            field_name(f) == header@,
            field_type(f) == Some(Self::field_type()),
            field_nullable(f) == Self::nullable(),
    ;

    /// Reads a value of this type out of a cell.
    fn read(cell: &Cell) -> (r: Option<Self>)
        ensures
            r is Some <==> Self::stores(cell@),
            r matches Some(v) ==> v.slot() == cell@,
    ;
}

impl ArrowAssoc for i32 {
    type Builder = Int32Column;

    open spec fn wf(b: &Int32Column) -> bool {
        true
    }

    open spec fn slots(b: &Int32Column) -> Seq<Slot> {
        lift_int32(int32_slots(*b))
    }

    open spec fn slot(&self) -> Slot {
        Slot::Int32(*self)
    }

    open spec fn stores(slot: Slot) -> bool {
        slot is Int32
    }

    open spec fn fits(slots: Seq<Slot>, slot: Slot) -> bool {
        true
    }

    open spec fn field_type() -> FieldType {
        FieldType::Int32
    }

    open spec fn nullable() -> bool {
        false
    }

    fn builder(nrows: usize) -> (b: Int32Column) {
        let b = int32_new(nrows);
        assert(lift_int32(int32_slots(b)) =~= Seq::<Slot>::empty());
        b
    }

    fn append(builder: &mut Int32Column, value: i32) -> (r: Result<(), ConnectorAgentError>) {
        let appended = int32_append_value(builder, value);
        assert(lift_int32(int32_slots(*builder)) =~= lift_int32(int32_slots(*old(builder))).push(
            Slot::Int32(value),
        ));
        match appended {
            Ok(()) => Ok(()),
            Err(e) => Err(ConnectorAgentError::ArrowError(e)),
        }
    }

    fn field(header: &str) -> (f: Field) {
        new_field(header, FieldType::Int32, false)
    }

    fn read(cell: &Cell) -> (r: Option<i32>) {
        match cell {
            Cell::Int32(v) => Some(*v),
            _ => None,
        }
    }
}

impl ArrowAssoc for Option<i32> {
    type Builder = Int32Column;

    open spec fn wf(b: &Int32Column) -> bool {
        true
    }

    open spec fn slots(b: &Int32Column) -> Seq<Slot> {
        lift_int32(int32_slots(*b))
    }

    open spec fn slot(&self) -> Slot {
        match *self {
            Some(v) => Slot::Int32(v),
            None => Slot::Null,
        }
    }

    open spec fn stores(slot: Slot) -> bool {
        slot is Int32 || slot is Null
    }

    open spec fn fits(slots: Seq<Slot>, slot: Slot) -> bool {
        true
    }

    open spec fn field_type() -> FieldType {
        FieldType::Int32
    }

    open spec fn nullable() -> bool {
        true
    }

    fn builder(nrows: usize) -> (b: Int32Column) {
        let b = int32_new(nrows);
        assert(lift_int32(int32_slots(b)) =~= Seq::<Slot>::empty());
        b
    }

    fn append(builder: &mut Int32Column, value: Option<i32>) -> (r: Result<(), ConnectorAgentError>) {
        let appended = int32_append_option(builder, value);
        assert(lift_int32(int32_slots(*builder)) =~= lift_int32(int32_slots(*old(builder))).push(
            value.slot(),
        ));
        match appended {
            Ok(()) => Ok(()),
            Err(e) => Err(ConnectorAgentError::ArrowError(e)),
        }
    }

    fn field(header: &str) -> (f: Field) {
        new_field(header, FieldType::Int32, true)
    }

    fn read(cell: &Cell) -> (r: Option<Option<i32>>) {
        match cell {
            Cell::Int32(v) => Some(Some(*v)),
            Cell::Null => Some(None),
            _ => None,
        }
    }
}

impl ArrowAssoc for i64 {
    type Builder = Int64Column;

    open spec fn wf(b: &Int64Column) -> bool {
        true
    }

    open spec fn slots(b: &Int64Column) -> Seq<Slot> {
        lift_int64(int64_slots(*b))
    }

    open spec fn slot(&self) -> Slot {
        Slot::Int64(*self)
    }

    open spec fn stores(slot: Slot) -> bool {
        slot is Int64
    }

    open spec fn fits(slots: Seq<Slot>, slot: Slot) -> bool {
        true
    }

    open spec fn field_type() -> FieldType {
        FieldType::Int64
    }

    open spec fn nullable() -> bool {
        false
    }

    fn builder(nrows: usize) -> (b: Int64Column) {
        let b = int64_new(nrows);
        assert(lift_int64(int64_slots(b)) =~= Seq::<Slot>::empty());
        b
    }

    fn append(builder: &mut Int64Column, value: i64) -> (r: Result<(), ConnectorAgentError>) {
        let appended = int64_append_value(builder, value);
        assert(lift_int64(int64_slots(*builder)) =~= lift_int64(int64_slots(*old(builder))).push(
            Slot::Int64(value),
        ));
        match appended {
            Ok(()) => Ok(()),
            Err(e) => Err(ConnectorAgentError::ArrowError(e)),
        }
    }

    fn field(header: &str) -> (f: Field) {
        new_field(header, FieldType::Int64, false)
    }

    fn read(cell: &Cell) -> (r: Option<i64>) {
        match cell {
            Cell::Int64(v) => Some(*v),
            _ => None,
        }
    }
}

impl ArrowAssoc for Option<i64> {
    type Builder = Int64Column;

    open spec fn wf(b: &Int64Column) -> bool {
        true
    }

    open spec fn slots(b: &Int64Column) -> Seq<Slot> {
        lift_int64(int64_slots(*b))
    }

    open spec fn slot(&self) -> Slot {
        match *self {
            Some(v) => Slot::Int64(v),
            None => Slot::Null,
        }
    }

    open spec fn stores(slot: Slot) -> bool {
        slot is Int64 || slot is Null
    }

    open spec fn fits(slots: Seq<Slot>, slot: Slot) -> bool {
        true
    }

    open spec fn field_type() -> FieldType {
        FieldType::Int64
    }

    open spec fn nullable() -> bool {
        true
    }

    fn builder(nrows: usize) -> (b: Int64Column) {
        let b = int64_new(nrows);
        assert(lift_int64(int64_slots(b)) =~= Seq::<Slot>::empty());
        b
    }

    fn append(builder: &mut Int64Column, value: Option<i64>) -> (r: Result<(), ConnectorAgentError>) {
        let appended = int64_append_option(builder, value);
        assert(lift_int64(int64_slots(*builder)) =~= lift_int64(int64_slots(*old(builder))).push(
            value.slot(),
        ));
        match appended {
            Ok(()) => Ok(()),
            Err(e) => Err(ConnectorAgentError::ArrowError(e)),
        }
    }

    fn field(header: &str) -> (f: Field) {
        new_field(header, FieldType::Int64, true)
    }

    fn read(cell: &Cell) -> (r: Option<Option<i64>>) {
        match cell {
            Cell::Int64(v) => Some(Some(*v)),
            Cell::Null => Some(None),
            _ => None,
        }
    }
}

impl ArrowAssoc for bool {
    type Builder = BooleanBuilder;

    open spec fn wf(b: &BooleanBuilder) -> bool {
        true
    }

    open spec fn slots(b: &BooleanBuilder) -> Seq<Slot> {
        lift_boolean(boolean_slots(*b))
    }

    open spec fn slot(&self) -> Slot {
        Slot::Boolean(*self)
    }

    open spec fn stores(slot: Slot) -> bool {
        slot is Boolean
    }

    open spec fn fits(slots: Seq<Slot>, slot: Slot) -> bool {
        true
    }

    open spec fn field_type() -> FieldType {
        FieldType::Boolean
    }

    open spec fn nullable() -> bool {
        false
    }

    fn builder(nrows: usize) -> (b: BooleanBuilder) {
        let b = boolean_new(nrows);
        assert(lift_boolean(boolean_slots(b)) =~= Seq::<Slot>::empty());
        b
    }

    fn append(builder: &mut BooleanBuilder, value: bool) -> (r: Result<(), ConnectorAgentError>) {
        let appended = boolean_append_value(builder, value);
        assert(lift_boolean(boolean_slots(*builder)) =~= lift_boolean(
            boolean_slots(*old(builder)),
        ).push(Slot::Boolean(value)));
        match appended {
            Ok(()) => Ok(()),
            Err(e) => Err(ConnectorAgentError::ArrowError(e)),
        }
    }

    fn field(header: &str) -> (f: Field) {
        new_field(header, FieldType::Boolean, false)
    }

    fn read(cell: &Cell) -> (r: Option<bool>) {
        match cell {
            Cell::Boolean(v) => Some(*v),
            _ => None,
        }
    }
}

impl ArrowAssoc for Option<bool> {
    type Builder = BooleanBuilder;

    open spec fn wf(b: &BooleanBuilder) -> bool {
        true
    }

    open spec fn slots(b: &BooleanBuilder) -> Seq<Slot> {
        lift_boolean(boolean_slots(*b))
    }

    open spec fn slot(&self) -> Slot {
        match *self {
            Some(v) => Slot::Boolean(v),
            None => Slot::Null,
        }
    }

    open spec fn stores(slot: Slot) -> bool {
        slot is Boolean || slot is Null
    }

    open spec fn fits(slots: Seq<Slot>, slot: Slot) -> bool {
        true
    }

    open spec fn field_type() -> FieldType {
        FieldType::Boolean
    }

    open spec fn nullable() -> bool {
        true
    }

    fn builder(nrows: usize) -> (b: BooleanBuilder) {
        let b = boolean_new(nrows);
        assert(lift_boolean(boolean_slots(b)) =~= Seq::<Slot>::empty());
        b
    }

    fn append(builder: &mut BooleanBuilder, value: Option<bool>) -> (r: Result<
        (),
        ConnectorAgentError,
    >) {
        let appended = boolean_append_option(builder, value);
        assert(lift_boolean(boolean_slots(*builder)) =~= lift_boolean(
            boolean_slots(*old(builder)),
        ).push(value.slot()));
        match appended {
            Ok(()) => Ok(()),
            Err(e) => Err(ConnectorAgentError::ArrowError(e)),
        }
    }

    fn field(header: &str) -> (f: Field) {
        new_field(header, FieldType::Boolean, true)
    }

    fn read(cell: &Cell) -> (r: Option<Option<bool>>) {
        match cell {
            Cell::Boolean(v) => Some(Some(*v)),
            Cell::Null => Some(None),
            _ => None,
        }
    }
}

impl ArrowAssoc for String {
    type Builder = Utf8Builder;

    open spec fn wf(b: &Utf8Builder) -> bool {
        b.wf()
    }

    open spec fn slots(b: &Utf8Builder) -> Seq<Slot> {
        b.slots()
    }

    open spec fn slot(&self) -> Slot {
        Slot::Utf8(self@)
    }

    open spec fn stores(slot: Slot) -> bool {
        slot is Utf8
    }

    open spec fn fits(slots: Seq<Slot>, slot: Slot) -> bool {
        text_room(slots, slot)
    }

    open spec fn field_type() -> FieldType {
        FieldType::Utf8
    }

    open spec fn nullable() -> bool {
        false
    }

    fn builder(nrows: usize) -> (b: Utf8Builder) {
        Utf8Builder::new(nrows)
    }

    fn append(builder: &mut Utf8Builder, value: String) -> (r: Result<(), ConnectorAgentError>) {
        builder.push(Some(value.as_str()))
    }

    fn field(header: &str) -> (f: Field) {
        new_field(header, FieldType::Utf8, false)
    }

    fn read(cell: &Cell) -> (r: Option<String>) {
        match cell {
            Cell::Utf8(s) => Some(s.clone()),
            _ => None,
        }
    }
}

impl ArrowAssoc for Option<String> {
    type Builder = Utf8Builder;

    open spec fn wf(b: &Utf8Builder) -> bool {
        b.wf()
    }

    open spec fn slots(b: &Utf8Builder) -> Seq<Slot> {
        b.slots()
    }

    open spec fn slot(&self) -> Slot {
        match *self {
            Some(s) => Slot::Utf8(s@),
            None => Slot::Null,
        }
    }

    open spec fn stores(slot: Slot) -> bool {
        slot is Utf8 || slot is Null
    }

    open spec fn fits(slots: Seq<Slot>, slot: Slot) -> bool {
        text_room(slots, slot)
    }

    open spec fn field_type() -> FieldType {
        FieldType::Utf8
    }

    open spec fn nullable() -> bool {
        true
    }

    fn builder(nrows: usize) -> (b: Utf8Builder) {
        Utf8Builder::new(nrows)
    }

    fn append(builder: &mut Utf8Builder, value: Option<String>) -> (r: Result<
        (),
        ConnectorAgentError,
    >) {
        match &value {
            Some(s) => builder.push(Some(s.as_str())),
            None => builder.push(None),
        }
    }

    fn field(header: &str) -> (f: Field) {
        new_field(header, FieldType::Utf8, true)
    }

    fn read(cell: &Cell) -> (r: Option<Option<String>>) {
        match cell {
            Cell::Utf8(s) => Some(Some(s.clone())),
            Cell::Null => Some(None),
            _ => None,
        }
    }
}

/// Seals a builder of 32-bit integers into an array with the same slots.
pub fn seal_int32(b: Int32Column) -> (a: ArrayData)
    ensures
        array_slots(NativeKind::Int32, a) == <i32 as ArrowAssoc>::slots(&b),
{
    int32_finish(b)
}

/// Seals a builder of 64-bit integers into an array with the same slots.
pub fn seal_int64(b: Int64Column) -> (a: ArrayData)
    ensures
        array_slots(NativeKind::Int64, a) == <i64 as ArrowAssoc>::slots(&b),
{
    int64_finish(b)
}

/// Seals a builder of booleans into an array with the same slots.
pub fn seal_boolean(b: BooleanBuilder) -> (a: ArrayData)
    ensures
        array_slots(NativeKind::Boolean, a) == <bool as ArrowAssoc>::slots(&b),
{
    boolean_finish(b)
}

/// Seals a builder of strings into an array with the same slots.
pub fn seal_utf8(b: Utf8Builder) -> (a: ArrayData)
    ensures
        array_slots(NativeKind::Utf8, a) == <String as ArrowAssoc>::slots(&b),
{
    b.seal()
}

} // verus!
