//! From the type of a fetched column to the way its values are decoded.

use vstd::prelude::*;

verus! {

/// The type of a column as the database driver reports it for a fetched
/// value, without its size and precision.
#[derive(Debug, Clone, Copy, PartialEq, Eq, Structural)]
pub enum ColumnType {
    Varchar2,
    NVarchar2,
    Char,
    NChar,
    Rowid,
    Raw,
    BinaryFloat,
    BinaryDouble,
    Number,
    Float,
    Date,
    Timestamp,
    TimestampTZ,
    TimestampLTZ,
    IntervalDS,
    IntervalYM,
    Clob,
    NClob,
    Blob,
    BFile,
    RefCursor,
    Boolean,
    Object,
    Long,
    LongRaw,
    Json,
    Int64,
    UInt64,
}

/// The kinds of column that the scan tells apart. `Unsupported` stands for
/// every type that has no decode strategy.
#[derive(Debug, Clone, Copy, PartialEq, Eq, Structural)]
pub enum TypeTag {
    StringFamily,
    BinaryFamily,
    NumericFamily,
    Integer,
    Temporal,
    RowIdentifier,
    Unsupported,
}

/// The representation that a value is materialized into.
#[derive(Debug, Clone, Copy, PartialEq, Eq, Structural)]
pub enum DecodeStrategy {
    /// Character data, as text.
    Text,
    /// Binary data, as raw bytes.
    RawBytes,
    /// A decimal number, as a floating-point number.
    FloatingPoint,
    /// A native integer, in 64 bits.
    Integer64,
    /// A date or a timestamp, as a timestamp.
    Timestamp,
    /// A row identifier, kept as the label of its row in later diagnostics.
    /// Taking it cannot fail and is not counted.
    OpaqueId,
}

/// The diagnostic for a value whose type has no decode strategy: the type
/// and the position of its column in the row, counted from zero.
#[derive(Debug, Clone, Copy, PartialEq, Eq, Structural)]
pub struct UnhandledTypeWarning {
    pub column_type: ColumnType,
    pub position: usize,
}

/// What the scan does with one fetched cell.
#[derive(Debug, Clone, Copy, PartialEq, Eq, Structural)]
pub enum CellAction {
    /// The cell is null: nothing is decoded.
    Skip,
    /// Materialize the value in the given way and discard it.
    Decode(DecodeStrategy),
    /// Report the diagnostic and go on with the next cell.
    Warn(UnhandledTypeWarning),
}

/// The kind that a column type belongs to.
pub open spec fn family_of(column_type: ColumnType) -> TypeTag {
    match column_type {
        ColumnType::Varchar2
        | ColumnType::NVarchar2
        | ColumnType::Char
        | ColumnType::NChar
        | ColumnType::Clob
        | ColumnType::NClob => TypeTag::StringFamily,
        ColumnType::Raw | ColumnType::Blob => TypeTag::BinaryFamily,
        ColumnType::Number | ColumnType::Float => TypeTag::NumericFamily,
        ColumnType::Int64 => TypeTag::Integer,
        ColumnType::Date
        | ColumnType::Timestamp
        | ColumnType::TimestampTZ
        | ColumnType::TimestampLTZ => TypeTag::Temporal,
        ColumnType::Rowid => TypeTag::RowIdentifier,
        _ => TypeTag::Unsupported,
    }
}

/// The decode strategy of a kind, if it has one.
pub open spec fn strategy_of(tag: TypeTag) -> Option<DecodeStrategy> {
    match tag {
        TypeTag::StringFamily => Some(DecodeStrategy::Text),
        TypeTag::BinaryFamily => Some(DecodeStrategy::RawBytes),
        TypeTag::NumericFamily => Some(DecodeStrategy::FloatingPoint),
        TypeTag::Integer => Some(DecodeStrategy::Integer64),
        TypeTag::Temporal => Some(DecodeStrategy::Timestamp),
        TypeTag::RowIdentifier => Some(DecodeStrategy::OpaqueId),
        TypeTag::Unsupported => None,
    }
}

/// What the dispatcher answers for a value of the given type in the given
/// column.
pub open spec fn dispatch_of(column_type: ColumnType, position: usize) -> Result<
    DecodeStrategy,
    UnhandledTypeWarning,
> {
    match strategy_of(family_of(column_type)) {
        Some(strategy) => Ok(strategy),
        None => Err(UnhandledTypeWarning { column_type, position }),
    }
}

/// What the scan does with a cell, given whether it is null.
pub open spec fn cell_action_of(is_null: bool, column_type: ColumnType, position: usize)
    -> CellAction {
    if is_null {
        CellAction::Skip
    } else {
        match dispatch_of(column_type, position) {
            Ok(strategy) => CellAction::Decode(strategy),
            Err(warning) => CellAction::Warn(warning),
        }
    }
}

impl TypeTag {
    /// Classifies a column type.
    pub fn of(column_type: ColumnType) -> (tag: TypeTag)
        ensures
            tag == family_of(column_type),
    {
        match column_type {
            ColumnType::Varchar2 => TypeTag::StringFamily,
            ColumnType::NVarchar2 => TypeTag::StringFamily,
            ColumnType::Char => TypeTag::StringFamily,
            ColumnType::NChar => TypeTag::StringFamily,
            ColumnType::Clob => TypeTag::StringFamily,
            ColumnType::NClob => TypeTag::StringFamily,
            ColumnType::Raw => TypeTag::BinaryFamily,
            ColumnType::Blob => TypeTag::BinaryFamily,
            ColumnType::Number => TypeTag::NumericFamily,
            ColumnType::Float => TypeTag::NumericFamily,
            ColumnType::Int64 => TypeTag::Integer,
            ColumnType::Date => TypeTag::Temporal,
            ColumnType::Timestamp => TypeTag::Temporal,
            ColumnType::TimestampTZ => TypeTag::Temporal,
            ColumnType::TimestampLTZ => TypeTag::Temporal,
            ColumnType::Rowid => TypeTag::RowIdentifier,
            ColumnType::BinaryFloat
            | ColumnType::BinaryDouble
            | ColumnType::IntervalDS
            | ColumnType::IntervalYM
            | ColumnType::BFile
            | ColumnType::RefCursor
            | ColumnType::Boolean
            | ColumnType::Object
            | ColumnType::Long
            | ColumnType::LongRaw
            | ColumnType::Json
            | ColumnType::UInt64 => TypeTag::Unsupported,
        }
    }

    /// The decode strategy of this kind; `None` for `Unsupported` and for no
    /// other.
    pub fn strategy(self) -> (strategy: Option<DecodeStrategy>)
        ensures
            strategy == strategy_of(self),
            strategy is None <==> self == TypeTag::Unsupported,
    {
        match self {
            TypeTag::StringFamily => Some(DecodeStrategy::Text),
            TypeTag::BinaryFamily => Some(DecodeStrategy::RawBytes),
            TypeTag::NumericFamily => Some(DecodeStrategy::FloatingPoint),
            TypeTag::Integer => Some(DecodeStrategy::Integer64),
            TypeTag::Temporal => Some(DecodeStrategy::Timestamp),
            TypeTag::RowIdentifier => Some(DecodeStrategy::OpaqueId),
            TypeTag::Unsupported => None,
        }
    }
}

/// Chooses the decode strategy for a value of the given type, or answers
/// with the diagnostic that names the type and the column's position where
/// the type has none. It answers for every type and never fails otherwise.
pub fn dispatch(column_type: ColumnType, position: usize) -> (choice: Result<
    DecodeStrategy,
    UnhandledTypeWarning,
>)
    ensures
        choice == dispatch_of(column_type, position),
        choice is Err <==> family_of(column_type) == TypeTag::Unsupported,
{
    match TypeTag::of(column_type).strategy() {
        Some(strategy) => Ok(strategy),
        None => Err(UnhandledTypeWarning { column_type, position }),
    }
}

/// Decides what to do with one fetched cell. A null cell is skipped without
/// consulting the dispatcher; any other is dispatched by its type.
pub fn cell_action(is_null: bool, column_type: ColumnType, position: usize) -> (action:
    CellAction)
    ensures
        action == cell_action_of(is_null, column_type, position),
        is_null ==> action == CellAction::Skip,
        !is_null ==> action != CellAction::Skip,
{
    if is_null {
        CellAction::Skip
    } else {
        match dispatch(column_type, position) {
            Ok(strategy) => CellAction::Decode(strategy),
            Err(warning) => CellAction::Warn(warning),
        }
    }
}

} // verus!
