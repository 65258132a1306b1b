use avro_schema::filter::{check_filter, select_column, FilterError, FilterProbe, PhysicalType};

#[test]
fn int_columns_take_decimal_literals() {
    assert_eq!(check_filter(PhysicalType::Int32, &"42".to_string()), Ok(FilterProbe::Int32(42)));
    assert_eq!(check_filter(PhysicalType::Int32, &"-7".to_string()), Ok(FilterProbe::Int32(-7)));
    assert_eq!(check_filter(PhysicalType::Int32, &"+7".to_string()), Ok(FilterProbe::Int32(7)));
    assert_eq!(
        check_filter(PhysicalType::Int64, &"9000000000".to_string()),
        Ok(FilterProbe::Int64(9000000000))
    );
}

#[test]
fn bad_literals_are_reported() {
    assert_eq!(
        check_filter(PhysicalType::Int32, &"abc".to_string()),
        Err(FilterError::InvalidValue { value: "abc".to_string(), target: PhysicalType::Int32 })
    );
    assert_eq!(
        check_filter(PhysicalType::Int32, &"2147483648".to_string()),
        Err(FilterError::InvalidValue { value: "2147483648".to_string(), target: PhysicalType::Int32 })
    );
    assert_eq!(
        check_filter(PhysicalType::Int64, &"".to_string()),
        Err(FilterError::InvalidValue { value: "".to_string(), target: PhysicalType::Int64 })
    );
}

#[test]
fn byte_arrays_take_text() {
    assert_eq!(
        check_filter(PhysicalType::ByteArray, &"hello".to_string()),
        Ok(FilterProbe::Bytes("hello".to_string()))
    );
}

#[test]
fn other_types_are_unsupported() {
    for t in [PhysicalType::Boolean, PhysicalType::Double, PhysicalType::FixedLenByteArray] {
        assert_eq!(check_filter(t, &"1".to_string()), Err(FilterError::UnsupportedColumnType(t)));
    }
}

#[test]
fn columns_are_found_by_path() {
    let paths = vec!["name".to_string(), "id".to_string(), "id".to_string()];
    assert_eq!(select_column(&paths, "id"), Some(1));
    assert_eq!(select_column(&paths, "missing"), None);
    assert_eq!(select_column(&Vec::new(), "id"), None);
}
