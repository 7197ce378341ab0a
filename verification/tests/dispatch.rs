use rust_oracle_performance::dispatch::{
    cell_action, dispatch, CellAction, ColumnType, DecodeStrategy, TypeTag, UnhandledTypeWarning,
};

const ALL_TYPES: [ColumnType; 28] = [
    ColumnType::Varchar2,
    ColumnType::NVarchar2,
    ColumnType::Char,
    ColumnType::NChar,
    ColumnType::Rowid,
    ColumnType::Raw,
    ColumnType::BinaryFloat,
    ColumnType::BinaryDouble,
    ColumnType::Number,
    ColumnType::Float,
    ColumnType::Date,
    ColumnType::Timestamp,
    ColumnType::TimestampTZ,
    ColumnType::TimestampLTZ,
    ColumnType::IntervalDS,
    ColumnType::IntervalYM,
    ColumnType::Clob,
    ColumnType::NClob,
    ColumnType::Blob,
    ColumnType::BFile,
    ColumnType::RefCursor,
    ColumnType::Boolean,
    ColumnType::Object,
    ColumnType::Long,
    ColumnType::LongRaw,
    ColumnType::Json,
    ColumnType::Int64,
    ColumnType::UInt64,
];

const ALL_TAGS: [TypeTag; 7] = [
    TypeTag::StringFamily,
    TypeTag::BinaryFamily,
    TypeTag::NumericFamily,
    TypeTag::Integer,
    TypeTag::Temporal,
    TypeTag::RowIdentifier,
    TypeTag::Unsupported,
];

#[test]
fn character_types_are_the_string_family() {
    for t in [
        ColumnType::Varchar2,
        ColumnType::NVarchar2,
        ColumnType::Char,
        ColumnType::NChar,
        ColumnType::Clob,
        ColumnType::NClob,
    ] {
        assert_eq!(TypeTag::of(t), TypeTag::StringFamily);
        assert_eq!(dispatch(t, 0), Ok(DecodeStrategy::Text));
    }
}

#[test]
fn raw_and_blob_are_the_binary_family() {
    for t in [ColumnType::Raw, ColumnType::Blob] {
        assert_eq!(TypeTag::of(t), TypeTag::BinaryFamily);
        assert_eq!(dispatch(t, 0), Ok(DecodeStrategy::RawBytes));
    }
}

#[test]
fn number_and_float_are_the_numeric_family() {
    for t in [ColumnType::Number, ColumnType::Float] {
        assert_eq!(TypeTag::of(t), TypeTag::NumericFamily);
        assert_eq!(dispatch(t, 0), Ok(DecodeStrategy::FloatingPoint));
    }
}

#[test]
fn native_integer_is_decoded_in_64_bits() {
    assert_eq!(TypeTag::of(ColumnType::Int64), TypeTag::Integer);
    assert_eq!(dispatch(ColumnType::Int64, 0), Ok(DecodeStrategy::Integer64));
}

#[test]
fn dates_and_timestamps_are_temporal() {
    for t in [
        ColumnType::Date,
        ColumnType::Timestamp,
        ColumnType::TimestampTZ,
        ColumnType::TimestampLTZ,
    ] {
        assert_eq!(TypeTag::of(t), TypeTag::Temporal);
        assert_eq!(dispatch(t, 0), Ok(DecodeStrategy::Timestamp));
    }
}

#[test]
fn rowid_is_the_row_identifier() {
    assert_eq!(TypeTag::of(ColumnType::Rowid), TypeTag::RowIdentifier);
    assert_eq!(dispatch(ColumnType::Rowid, 0), Ok(DecodeStrategy::OpaqueId));
}

#[test]
fn every_other_type_is_unsupported_and_warned_of_once() {
    for t in [
        ColumnType::BinaryFloat,
        ColumnType::BinaryDouble,
        ColumnType::IntervalDS,
        ColumnType::IntervalYM,
        ColumnType::BFile,
        ColumnType::RefCursor,
        ColumnType::Boolean,
        ColumnType::Object,
        ColumnType::Long,
        ColumnType::LongRaw,
        ColumnType::Json,
        ColumnType::UInt64,
    ] {
        assert_eq!(TypeTag::of(t), TypeTag::Unsupported);
        assert_eq!(
            dispatch(t, 7),
            Err(UnhandledTypeWarning { column_type: t, position: 7 })
        );
        assert_eq!(
            cell_action(false, t, 7),
            CellAction::Warn(UnhandledTypeWarning { column_type: t, position: 7 })
        );
    }
}

#[test]
fn every_tag_but_unsupported_has_a_strategy() {
    for tag in ALL_TAGS {
        assert_eq!(tag.strategy().is_none(), tag == TypeTag::Unsupported);
    }
    assert_eq!(TypeTag::StringFamily.strategy(), Some(DecodeStrategy::Text));
    assert_eq!(TypeTag::BinaryFamily.strategy(), Some(DecodeStrategy::RawBytes));
    assert_eq!(TypeTag::NumericFamily.strategy(), Some(DecodeStrategy::FloatingPoint));
    assert_eq!(TypeTag::Integer.strategy(), Some(DecodeStrategy::Integer64));
    assert_eq!(TypeTag::Temporal.strategy(), Some(DecodeStrategy::Timestamp));
    assert_eq!(TypeTag::RowIdentifier.strategy(), Some(DecodeStrategy::OpaqueId));
    assert_eq!(TypeTag::Unsupported.strategy(), None);
}

#[test]
fn dispatch_answers_for_every_type() {
    for (position, t) in ALL_TYPES.iter().enumerate() {
        match dispatch(*t, position) {
            Ok(strategy) => assert_eq!(TypeTag::of(*t).strategy(), Some(strategy)),
            Err(warning) => {
                assert_eq!(TypeTag::of(*t), TypeTag::Unsupported);
                assert_eq!(warning.column_type, *t);
                assert_eq!(warning.position, position);
            }
        }
    }
}

#[test]
fn a_null_cell_is_skipped_whatever_its_type() {
    for (position, t) in ALL_TYPES.iter().enumerate() {
        assert_eq!(cell_action(true, *t, position), CellAction::Skip);
    }
}

#[test]
fn a_cell_with_a_value_is_never_skipped() {
    for (position, t) in ALL_TYPES.iter().enumerate() {
        assert_ne!(cell_action(false, *t, position), CellAction::Skip);
    }
    assert_eq!(
        cell_action(false, ColumnType::Varchar2, 1),
        CellAction::Decode(DecodeStrategy::Text)
    );
    assert_eq!(
        cell_action(false, ColumnType::Number, 0),
        CellAction::Decode(DecodeStrategy::FloatingPoint)
    );
}
