use vstd::prelude::*;

use crate::text::text_eq;

verus! {

/// The physical storage type of a column.
#[derive(Debug, Clone, Copy, PartialEq, Eq, Structural)]
pub enum PhysicalType {
    Boolean,
    Int32,
    Int64,
    Int96,
    Float,
    Double,
    ByteArray,
    FixedLenByteArray,
}

/// A literal in the physical representation of its column, ready to probe a bloom filter.
#[derive(Debug, PartialEq, Eq)]
pub enum FilterProbe {
    Int32(i32),
    Int64(i64),
    Bytes(String),
}

/// Why a literal cannot be checked against a column's bloom filter.
#[derive(Debug, PartialEq, Eq)]
pub enum FilterError {
    /// The literal is not an integer of the column's type.
    InvalidValue { value: String, target: PhysicalType },
    /// Bloom filters of this column type are not checked.
    UnsupportedColumnType(PhysicalType),
}

pub open spec fn is_digit_char(c: char) -> bool {
    '0' <= c <= '9'
}

pub open spec fn unsigned_value(t: Seq<char>) -> int
    decreases t.len(),
{
    if t.len() == 0 {
        0
    } else {
        unsigned_value(t.drop_last()) * 10 + (t.last() as u32 - '0' as u32)
    }
}

pub open spec fn all_digits(t: Seq<char>) -> bool {
    t.len() > 0 && forall|i: int| 0 <= i < t.len() ==> is_digit_char(#[trigger] t[i])
}

/// The integer written by an optional sign and decimal digits, as std's integer parsing reads it.
pub open spec fn decimal_value(s: Seq<char>) -> Option<int> {
    if s.len() > 0 && s[0] == '-' {
        if all_digits(s.skip(1)) { Some(-unsigned_value(s.skip(1))) } else { None }
    } else if s.len() > 0 && s[0] == '+' {
        if all_digits(s.skip(1)) { Some(unsigned_value(s.skip(1))) } else { None }
    } else if all_digits(s) {
        Some(unsigned_value(s))
    } else {
        None
    }
}

/// Relies on std's `str::parse::<i32>`: an optional sign then decimal digits, in range.
#[verifier::external_body]
fn parse_i32(s: &str) -> (r: Option<i32>)
    ensures
        r is Some <==> (decimal_value(s@) matches Some(v) && i32::MIN <= v <= i32::MAX),
        r matches Some(v) ==> decimal_value(s@) == Some(v as int),
{
    match s.parse::<i32>() {
        Ok(v) => Some(v),
        Err(_) => None,
    }
}

/// Relies on std's `str::parse::<i64>`: an optional sign then decimal digits, in range.
#[verifier::external_body]
fn parse_i64(s: &str) -> (r: Option<i64>)
    ensures
        r is Some <==> (decimal_value(s@) matches Some(v) && i64::MIN <= v <= i64::MAX),
        r matches Some(v) ==> decimal_value(s@) == Some(v as int),
{
    match s.parse::<i64>() {
        Ok(v) => Some(v),
        Err(_) => None,
    }
}

/// Converts a literal to the physical representation of a column of type `column_type`.
///
/// Int32 and Int64 columns take a decimal integer in range; byte-array columns
/// take the text as it is; every other column type is unsupported.
pub fn check_filter(column_type: PhysicalType, value: &String) -> (r: Result<FilterProbe, FilterError>)
    ensures
        column_type == PhysicalType::Int32 ==> match decimal_value(value@) {
            Some(v) if i32::MIN <= v <= i32::MAX => r matches Ok(FilterProbe::Int32(x)) && x == v,
            _ => r matches Err(FilterError::InvalidValue { value: s, target }) && s@ == value@ && target == column_type,
        },
        column_type == PhysicalType::Int64 ==> match decimal_value(value@) {
            Some(v) if i64::MIN <= v <= i64::MAX => r matches Ok(FilterProbe::Int64(x)) && x == v,
            _ => r matches Err(FilterError::InvalidValue { value: s, target }) && s@ == value@ && target == column_type,
        },
        column_type == PhysicalType::ByteArray ==> (r matches Ok(FilterProbe::Bytes(b)) && b@ == value@),
        !(column_type == PhysicalType::Int32 || column_type == PhysicalType::Int64 || column_type
            == PhysicalType::ByteArray) ==> r == Err::<FilterProbe, FilterError>(FilterError::UnsupportedColumnType(column_type)),
{
    match column_type {
        PhysicalType::Int32 => match parse_i32(value.as_str()) {
            Some(v) => Ok(FilterProbe::Int32(v)),
            None => Err(FilterError::InvalidValue { value: value.clone(), target: column_type }),
        },
        PhysicalType::Int64 => match parse_i64(value.as_str()) {
            Some(v) => Ok(FilterProbe::Int64(v)),
            None => Err(FilterError::InvalidValue { value: value.clone(), target: column_type }),
        },
        PhysicalType::ByteArray => Ok(FilterProbe::Bytes(value.clone())),
        _ => Err(FilterError::UnsupportedColumnType(column_type)),
    }
}

/// Position of the first column whose path equals `wanted`.
pub fn select_column(paths: &Vec<String>, wanted: &str) -> (r: Option<usize>)
    ensures
        match r {
            Some(i) => i < paths@.len() && paths@[i as int]@ == wanted@ && forall|q: int|
                0 <= q < i ==> (#[trigger] paths@[q])@ != wanted@,
            None => forall|q: int| 0 <= q < paths@.len() ==> (#[trigger] paths@[q])@ != wanted@,
        },
{
    let mut i: usize = 0;
    while i < paths.len()
        invariant
            i <= paths@.len(),
            forall|q: int| 0 <= q < i ==> (#[trigger] paths@[q])@ != wanted@,
        decreases paths@.len() - i,
    {
        if text_eq(paths[i].as_str(), wanted) {
            return Some(i);
        }
        i = i + 1;
    }
    None
}

} // verus!
