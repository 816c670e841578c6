//! The column types of the two sides, and the rules that lead from one to the other.

use crate::errors::ConnectorAgentError;
use crate::value::NativeKind;
use vstd::prelude::*;

verus! {

/// The column types that a MySQL source reports. The flag says whether the
/// column can hold nulls.
#[derive(Clone, Copy, Debug, PartialEq, Eq, Structural)]
pub enum MysqlTypeSystem {
    Double(bool),
    Long(bool),
    LongLong(bool),
    Datetime(bool),
    Date(bool),
    Time(bool),
    Decimal(bool),
    Char(bool),
    VarChar(bool),
}

/// The column types that an Arrow destination stores. The flag says whether the
/// column can hold nulls.
#[derive(Clone, Copy, Debug, PartialEq, Eq, Structural)]
pub enum ArrowTypeSystem {
    Int32(bool),
    Int64(bool),
    Boolean(bool),
    Utf8(bool),
}

impl MysqlTypeSystem {
    /// Whether a column of this type can hold nulls.
    pub open spec fn nullable_spec(self) -> bool {
        match self {
            MysqlTypeSystem::Double(n) => n,
            MysqlTypeSystem::Long(n) => n,
            MysqlTypeSystem::LongLong(n) => n,
            MysqlTypeSystem::Datetime(n) => n,
            MysqlTypeSystem::Date(n) => n,
            MysqlTypeSystem::Time(n) => n,
            MysqlTypeSystem::Decimal(n) => n,
            MysqlTypeSystem::Char(n) => n,
            MysqlTypeSystem::VarChar(n) => n,
        }
    }

    /// The variant's name.
    pub open spec fn name_spec(self) -> Seq<char> {
        match self {
            MysqlTypeSystem::Double(_) => "Double"@,
            MysqlTypeSystem::Long(_) => "Long"@,
            MysqlTypeSystem::LongLong(_) => "LongLong"@,
            MysqlTypeSystem::Datetime(_) => "Datetime"@,
            MysqlTypeSystem::Date(_) => "Date"@,
            MysqlTypeSystem::Time(_) => "Time"@,
            MysqlTypeSystem::Decimal(_) => "Decimal"@,
            MysqlTypeSystem::Char(_) => "Char"@,
            MysqlTypeSystem::VarChar(_) => "VarChar"@,
        }
    }

    /// The type for a column that the driver describes by its protocol type
    /// code, or `None` for a code that no variant stands for.
    pub open spec fn from_column_spec(code: u8, nullable: bool) -> Option<MysqlTypeSystem> {
        if code == 3 {
            Some(MysqlTypeSystem::Long(nullable))
        } else if code == 5 {
            Some(MysqlTypeSystem::Double(nullable))
        } else if code == 8 {
            Some(MysqlTypeSystem::LongLong(nullable))
        } else if code == 10 {
            Some(MysqlTypeSystem::Date(nullable))
        } else if code == 11 {
            Some(MysqlTypeSystem::Time(nullable))
        } else if code == 12 {
            Some(MysqlTypeSystem::Datetime(nullable))
        } else if code == 246 {
            Some(MysqlTypeSystem::Decimal(nullable))
        } else if code == 253 {
            Some(MysqlTypeSystem::VarChar(nullable))
        } else if code == 254 {
            Some(MysqlTypeSystem::Char(nullable))
        } else {
            None
        }
    }

    /// The native kind that a value of this column type is produced as.
    pub open spec fn native_spec(self) -> Option<NativeKind> {
        match self {
            MysqlTypeSystem::Double(_) => None,
            MysqlTypeSystem::Long(_) => Some(NativeKind::Int64),
            MysqlTypeSystem::LongLong(_) => Some(NativeKind::Int64),
            MysqlTypeSystem::Datetime(_) => Some(NativeKind::DateTime),
            MysqlTypeSystem::Date(_) => Some(NativeKind::Date),
            MysqlTypeSystem::Time(_) => Some(NativeKind::Time),
            MysqlTypeSystem::Decimal(_) => Some(NativeKind::Decimal),
            MysqlTypeSystem::Char(_) => Some(NativeKind::Utf8),
            MysqlTypeSystem::VarChar(_) => Some(NativeKind::Utf8),
        }
    }

    pub fn nullable(self) -> (n: bool)
        ensures
            n == self.nullable_spec(),
    {
        match self {
            MysqlTypeSystem::Double(n) => n,
            MysqlTypeSystem::Long(n) => n,
            MysqlTypeSystem::LongLong(n) => n,
            MysqlTypeSystem::Datetime(n) => n,
            MysqlTypeSystem::Date(n) => n,
            MysqlTypeSystem::Time(n) => n,
            MysqlTypeSystem::Decimal(n) => n,
            MysqlTypeSystem::Char(n) => n,
            MysqlTypeSystem::VarChar(n) => n,
        }
    }

    pub fn name(self) -> (s: &'static str)
        ensures
            s@ == self.name_spec(),
    {
        match self {
            MysqlTypeSystem::Double(_) => "Double",
            MysqlTypeSystem::Long(_) => "Long",
            MysqlTypeSystem::LongLong(_) => "LongLong",
            MysqlTypeSystem::Datetime(_) => "Datetime",
            MysqlTypeSystem::Date(_) => "Date",
            MysqlTypeSystem::Time(_) => "Time",
            MysqlTypeSystem::Decimal(_) => "Decimal",
            MysqlTypeSystem::Char(_) => "Char",
            MysqlTypeSystem::VarChar(_) => "VarChar",
        }
    }

    /// The native kind that a value of this column type is produced as, if
    /// there is one.
    pub fn native(self) -> (k: Option<NativeKind>)
        ensures
            k == self.native_spec(),
    {
        match self {
            MysqlTypeSystem::Double(_) => None,
            MysqlTypeSystem::Long(_) => Some(NativeKind::Int64),
            MysqlTypeSystem::LongLong(_) => Some(NativeKind::Int64),
            MysqlTypeSystem::Datetime(_) => Some(NativeKind::DateTime),
            MysqlTypeSystem::Date(_) => Some(NativeKind::Date),
            MysqlTypeSystem::Time(_) => Some(NativeKind::Time),
            MysqlTypeSystem::Decimal(_) => Some(NativeKind::Decimal),
            MysqlTypeSystem::Char(_) => Some(NativeKind::Utf8),
            MysqlTypeSystem::VarChar(_) => Some(NativeKind::Utf8),
        }
    }

    /// Builds the type from the protocol type code and the nullability that the
    /// driver reports for a column.
    pub fn from_column(code: u8, nullable: bool) -> (t: Option<MysqlTypeSystem>)
        ensures
            t == Self::from_column_spec(code, nullable),
    {
        if code == 3 {
            Some(MysqlTypeSystem::Long(nullable))
        } else if code == 5 {
            Some(MysqlTypeSystem::Double(nullable))
        } else if code == 8 {
            Some(MysqlTypeSystem::LongLong(nullable))
        } else if code == 10 {
            Some(MysqlTypeSystem::Date(nullable))
        } else if code == 11 {
            Some(MysqlTypeSystem::Time(nullable))
        } else if code == 12 {
            Some(MysqlTypeSystem::Datetime(nullable))
        } else if code == 246 {
            Some(MysqlTypeSystem::Decimal(nullable))
        } else if code == 253 {
            Some(MysqlTypeSystem::VarChar(nullable))
        } else if code == 254 {
            Some(MysqlTypeSystem::Char(nullable))
        } else {
            None
        }
    }

    /// Checks that a value of native kind `kind`, optional or not, is what a
    /// column of this type produces.
    pub fn check(self, kind: NativeKind, optional: bool) -> (r: Result<(), ConnectorAgentError>)
        ensures
            r is Ok <==> (self.native_spec() == Some(kind) && self.nullable_spec() == optional),
            r matches Err(e) ==> (e matches ConnectorAgentError::TypeCheckFailed(expected, found)
                && expected@ == self.name_spec() && found@ == kind_name_spec(kind)),
    {
        let fits = match self.native() {
            Some(k) => k == kind && self.nullable() == optional,
            None => false,
        };
        if fits {
            Ok(())
        } else {
            Err(ConnectorAgentError::TypeCheckFailed(self.name().to_owned(), kind_name(kind)))
        }
    }
}

/// The name of a native kind in messages.
pub open spec fn kind_name_spec(kind: NativeKind) -> Seq<char> {
    match kind {
        NativeKind::Int32 => "i32"@,
        NativeKind::Int64 => "i64"@,
        NativeKind::Boolean => "bool"@,
        NativeKind::Utf8 => "String"@,
        NativeKind::Date => "NaiveDate"@,
        NativeKind::Time => "NaiveTime"@,
        NativeKind::DateTime => "NaiveDateTime"@,
        NativeKind::Decimal => "Decimal"@,
    }
}

pub fn kind_name(kind: NativeKind) -> (s: &'static str)
    ensures
        s@ == kind_name_spec(kind),
{
    match kind {
        NativeKind::Int32 => "i32",
        NativeKind::Int64 => "i64",
        NativeKind::Boolean => "bool",
        NativeKind::Utf8 => "String",
        NativeKind::Date => "NaiveDate",
        NativeKind::Time => "NaiveTime",
        NativeKind::DateTime => "NaiveDateTime",
        NativeKind::Decimal => "Decimal",
    }
}

impl ArrowTypeSystem {
    /// Whether a column of this type can hold nulls.
    pub open spec fn nullable_spec(self) -> bool {
        match self {
            ArrowTypeSystem::Int32(n) => n,
            ArrowTypeSystem::Int64(n) => n,
            ArrowTypeSystem::Boolean(n) => n,
            ArrowTypeSystem::Utf8(n) => n,
        }
    }

    /// The variant's name.
    pub open spec fn name_spec(self) -> Seq<char> {
        match self {
            ArrowTypeSystem::Int32(_) => "Int32"@,
            ArrowTypeSystem::Int64(_) => "Int64"@,
            ArrowTypeSystem::Boolean(_) => "Boolean"@,
            ArrowTypeSystem::Utf8(_) => "Utf8"@,
        }
    }

    /// The native kind that a column of this type stores.
    pub open spec fn native_spec(self) -> NativeKind {
        match self {
            ArrowTypeSystem::Int32(_) => NativeKind::Int32,
            ArrowTypeSystem::Int64(_) => NativeKind::Int64,
            ArrowTypeSystem::Boolean(_) => NativeKind::Boolean,
            ArrowTypeSystem::Utf8(_) => NativeKind::Utf8,
        }
    }

    pub fn nullable(self) -> (n: bool)
        ensures
            n == self.nullable_spec(),
    {
        match self {
            ArrowTypeSystem::Int32(n) => n,
            ArrowTypeSystem::Int64(n) => n,
            ArrowTypeSystem::Boolean(n) => n,
            ArrowTypeSystem::Utf8(n) => n,
        }
    }

    pub fn name(self) -> (s: &'static str)
        ensures
            s@ == self.name_spec(),
    {
        match self {
            ArrowTypeSystem::Int32(_) => "Int32",
            ArrowTypeSystem::Int64(_) => "Int64",
            ArrowTypeSystem::Boolean(_) => "Boolean",
            ArrowTypeSystem::Utf8(_) => "Utf8",
        }
    }

    pub fn native(self) -> (k: NativeKind)
        ensures
            k == self.native_spec(),
    {
        match self {
            ArrowTypeSystem::Int32(_) => NativeKind::Int32,
            ArrowTypeSystem::Int64(_) => NativeKind::Int64,
            ArrowTypeSystem::Boolean(_) => NativeKind::Boolean,
            ArrowTypeSystem::Utf8(_) => NativeKind::Utf8,
        }
    }

    /// Checks that a value of native kind `kind`, optional or not, is what a
    /// column of this type stores.
    pub fn check(self, kind: NativeKind, optional: bool) -> (r: Result<(), ConnectorAgentError>)
        ensures
            r is Ok <==> (self.native_spec() == kind && self.nullable_spec() == optional),
            r matches Err(e) ==> (e matches ConnectorAgentError::TypeCheckFailed(expected, found)
                && expected@ == self.name_spec() && found@ == kind_name_spec(kind)),
    {
        if self.native() == kind && self.nullable() == optional {
            Ok(())
        } else {
            Err(ConnectorAgentError::TypeCheckFailed(self.name().to_owned(), kind_name(kind)))
        }
    }
}

/// The conversion rules from MySQL to Arrow: the destination type that a
/// source type is stored as, or `None` where no rule exists. Every rule keeps
/// the nullability and transports the value unchanged.
pub open spec fn rule(src: MysqlTypeSystem) -> Option<ArrowTypeSystem> {
    match src {
        MysqlTypeSystem::Long(n) => Some(ArrowTypeSystem::Int64(n)),
        MysqlTypeSystem::LongLong(n) => Some(ArrowTypeSystem::Int64(n)),
        MysqlTypeSystem::Char(n) => Some(ArrowTypeSystem::Utf8(n)),
        MysqlTypeSystem::VarChar(n) => Some(ArrowTypeSystem::Utf8(n)),
        _ => None,
    }
}

/// The name of the destination's type system in messages.
pub open spec fn destination_name() -> Seq<char> {
    "ArrowTypeSystem"@
}

/// Resolves the rule for one source type.
pub fn convert_type(src: MysqlTypeSystem) -> (r: Result<ArrowTypeSystem, ConnectorAgentError>)
    ensures
        match r {
            Ok(dst) => rule(src) == Some(dst),
            Err(ConnectorAgentError::NoConversionRule(s, d)) => {
                &&& rule(src) is None
                &&& s@ == src.name_spec()
                &&& d@ == destination_name()
            },
            Err(_) => false,
        },
{
    match src {
        MysqlTypeSystem::Long(n) => Ok(ArrowTypeSystem::Int64(n)),
        MysqlTypeSystem::LongLong(n) => Ok(ArrowTypeSystem::Int64(n)),
        MysqlTypeSystem::Char(n) => Ok(ArrowTypeSystem::Utf8(n)),
        MysqlTypeSystem::VarChar(n) => Ok(ArrowTypeSystem::Utf8(n)),
        _ => Err(
            ConnectorAgentError::NoConversionRule(
                src.name().to_owned(),
                "ArrowTypeSystem".to_owned(),
            ),
        ),
    }
}

/// Whether `dst` is the image of `src` under the rules, column by column.
pub open spec fn schema_image(src: Seq<MysqlTypeSystem>, dst: Seq<ArrowTypeSystem>) -> bool {
    &&& dst.len() == src.len()
    &&& forall|c: int| 0 <= c < src.len() ==> rule(#[trigger] src[c]) == Some(dst[c])
}

/// Whether `c` is the first column of `src` that no rule converts.
pub open spec fn first_unconverted(src: Seq<MysqlTypeSystem>, c: int) -> bool {
    &&& 0 <= c < src.len()
    &&& rule(src[c]) is None
    &&& forall|k: int| 0 <= k < c ==> rule(#[trigger] src[k]) is Some
}

/// Resolves the destination schema for a source schema: the image of every
/// column, or the missing rule of the first column that has none.
pub fn convert_schema(src: &[MysqlTypeSystem]) -> (r: Result<Vec<ArrowTypeSystem>, ConnectorAgentError>)
    ensures
        match r {
            Ok(dst) => schema_image(src@, dst@),
            Err(ConnectorAgentError::NoConversionRule(s, d)) => exists|c: int|
                first_unconverted(src@, c) && s@ == src@[c].name_spec() && d@ == destination_name(),
            Err(_) => false,
        },
{
    let mut dst: Vec<ArrowTypeSystem> = Vec::new();
    let mut i: usize = 0;
    while i < src.len()
        invariant
            i <= src.len(),
            dst@.len() == i,
            forall|c: int| 0 <= c < i ==> rule(#[trigger] src@[c]) == Some(dst@[c]),
        decreases src.len() - i,
    {
        match convert_type(src[i]) {
            Ok(t) => {
                dst.push(t);
            },
            Err(e) => {
                assert(first_unconverted(src@, i as int));
                return Err(e);
            },
        }
        i += 1;
    }
    Ok(dst)
}

/// The rules keep the nullability of every column.
pub proof fn lemma_rules_keep_nullability(src: Seq<MysqlTypeSystem>, dst: Seq<ArrowTypeSystem>, c: int)
    requires
        schema_image(src, dst),
        0 <= c < src.len(),
    ensures
        dst[c].nullable_spec() == src[c].nullable_spec(),
{
    assert(rule(src[c]) == Some(dst[c]));
}

/// The rules transport every value unchanged: the destination stores the
/// native kind that the source produces.
pub proof fn lemma_rules_keep_native_kind(src: MysqlTypeSystem, dst: ArrowTypeSystem)
    requires
        rule(src) == Some(dst),
    ensures
        src.native_spec() == Some(dst.native_spec()),
{
}

} // verus!
