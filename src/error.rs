use vstd::prelude::*;

verus! {

/// Reasons why a file header is rejected.
#[derive(Debug, Clone, Copy, PartialEq, Eq)]
pub enum InvalidHeaderError {
    /// The first four bytes are not the `WDBC` tag.
    MagicValue { actual: u32 },
    /// The record size in the header differs from the table's layout.
    RecordSize { expected: u32, actual: u32 },
    /// The field count in the header differs from the table's layout.
    FieldCount { expected: u32, actual: u32 },
}

/// A closed enumeration held a value outside its recognised set.
#[derive(Debug, Clone, Copy, PartialEq, Eq)]
pub struct InvalidEnumError {
    /// Name of the enumeration.
    pub enum_name: &'static str,
    /// The raw value that was found.
    pub value: i64,
}

impl InvalidEnumError {
    pub fn new(enum_name: &'static str, value: i64) -> (r: Self)
        ensures
            r.enum_name == enum_name,
            r.value == value,
    {
        Self { enum_name, value }
    }
}

/// Everything that can go wrong while decoding a table.
#[derive(Debug, Clone, Copy, PartialEq, Eq)]
pub enum DbcError {
    /// The input ended before a header, the rows, the string heap, or a
    /// nul-terminated string within the heap was complete.
    Truncated,
    /// The header does not describe this table.
    InvalidHeader(InvalidHeaderError),
    /// A string in the heap is not valid UTF-8.
    InvalidString,
    /// A field of a closed enumeration held an unknown value.
    InvalidEnum(InvalidEnumError),
}

} // verus!
