//! The schema model: data types and fields.
//!
//! The writer's metadata batch and the variance expressions describe their
//! columns with fields over a small set of data types, including one nested
//! struct type for the statistics column.
use vstd::prelude::*;
use vstd::string::StringExecFns;

verus! {

/// A column's data type.
#[derive(Debug, PartialEq, Eq)]
pub enum DataType {
    Int8,
    Int16,
    Int32,
    Int64,
    UInt8,
    UInt16,
    UInt32,
    UInt64,
    Float32,
    Float64,
    Utf8,
    Decimal(usize, usize),
    Struct(Vec<Field>),
}

/// The display label of a data type, as it appears in error messages: the
/// variant's name, with a decimal type's precision and scale spelled out.
pub open spec fn spec_type_label(dt: DataType) -> Seq<char> {
    match dt {
        DataType::Int8 => "Int8"@,
        DataType::Int16 => "Int16"@,
        DataType::Int32 => "Int32"@,
        DataType::Int64 => "Int64"@,
        DataType::UInt8 => "UInt8"@,
        DataType::UInt16 => "UInt16"@,
        DataType::UInt32 => "UInt32"@,
        DataType::UInt64 => "UInt64"@,
        DataType::Float32 => "Float32"@,
        DataType::Float64 => "Float64"@,
        DataType::Utf8 => "Utf8"@,
        DataType::Decimal(p, s) => "Decimal("@ + crate::fmtnum::spec_u64_digits(p as int) + ", "@
            + crate::fmtnum::spec_u64_digits(s as int) + ")"@,
        DataType::Struct(_) => "Struct"@,
    }
}

impl DataType {
    /// The type's display label.
    pub fn type_label(&self) -> (r: String)
        ensures
            r@ == spec_type_label(*self),
    {
        match self {
            DataType::Int8 => String::from_str("Int8"),
            DataType::Int16 => String::from_str("Int16"),
            DataType::Int32 => String::from_str("Int32"),
            DataType::Int64 => String::from_str("Int64"),
            DataType::UInt8 => String::from_str("UInt8"),
            DataType::UInt16 => String::from_str("UInt16"),
            DataType::UInt32 => String::from_str("UInt32"),
            DataType::UInt64 => String::from_str("UInt64"),
            DataType::Float32 => String::from_str("Float32"),
            DataType::Float64 => String::from_str("Float64"),
            DataType::Utf8 => String::from_str("Utf8"),
            DataType::Decimal(p, s) => {
                let mut t = String::from_str("Decimal(");
                crate::fmtnum::append_u64(&mut t, *p as u64);
                t.append(", ");
                crate::fmtnum::append_u64(&mut t, *s as u64);
                t.append(")");
                proof {
                    assert(t@ =~= spec_type_label(*self));
                }
                t
            },
            DataType::Struct(_) => String::from_str("Struct"),
        }
    }
}

/// One named, typed, possibly nullable column of a schema.
#[derive(Debug, PartialEq, Eq)]
pub struct Field {
    pub name: String,
    pub data_type: DataType,
    pub nullable: bool,
}

impl Field {
    /// Builds a field.
    pub fn new(name: &str, data_type: DataType, nullable: bool) -> (r: Field)
        ensures
            r.name@ == name@,
            r.data_type == data_type,
            r.nullable == nullable,
    {
        Field { name: String::from_str(name), data_type, nullable }
    }
}

/// A schema: an ordered list of fields.
#[derive(Debug, PartialEq, Eq)]
pub struct Schema {
    pub fields: Vec<Field>,
}

impl Schema {
    pub fn new(fields: Vec<Field>) -> (r: Schema)
        ensures
            r.fields@ == fields@,
    {
        Schema { fields }
    }
}

/// The fields of the statistics struct column of the metadata batch.
pub fn partition_stats_fields() -> (r: Vec<Field>)
    ensures
        r@.len() == 3,
        r@[0].name@ == "num_rows"@ && r@[0].data_type == DataType::UInt64 && !r@[0].nullable,
        r@[1].name@ == "num_batches"@ && r@[1].data_type == DataType::UInt64 && !r@[1].nullable,
        r@[2].name@ == "num_bytes"@ && r@[2].data_type == DataType::UInt64 && !r@[2].nullable,
{
    let mut fields: Vec<Field> = Vec::new();
    fields.push(Field::new("num_rows", DataType::UInt64, false));
    fields.push(Field::new("num_batches", DataType::UInt64, false));
    fields.push(Field::new("num_bytes", DataType::UInt64, false));
    fields
}

/// The schema of the writer's metadata result batch: the output partition
/// id, the file path (or the empty string), and a non-null statistics
/// struct.
pub fn result_schema() -> (r: Schema)
    ensures
        r.fields@.len() == 3,
        r.fields@[0].name@ == "partition"@ && r.fields@[0].data_type == DataType::UInt32
            && !r.fields@[0].nullable,
        r.fields@[1].name@ == "path"@ && r.fields@[1].data_type == DataType::Utf8
            && !r.fields@[1].nullable,
        r.fields@[2].name@ == "stats"@ && !r.fields@[2].nullable,
        r.fields@[2].data_type matches DataType::Struct(inner) && {
            &&& inner@.len() == 3
            &&& inner@[0].name@ == "num_rows"@ && inner@[0].data_type == DataType::UInt64
                && !inner@[0].nullable
            &&& inner@[1].name@ == "num_batches"@ && inner@[1].data_type == DataType::UInt64
                && !inner@[1].nullable
            &&& inner@[2].name@ == "num_bytes"@ && inner@[2].data_type == DataType::UInt64
                && !inner@[2].nullable
        },
{
    let mut fields: Vec<Field> = Vec::new();
    fields.push(Field::new("partition", DataType::UInt32, false));
    fields.push(Field::new("path", DataType::Utf8, false));
    fields.push(Field::new("stats", DataType::Struct(partition_stats_fields()), false));
    Schema::new(fields)
}

} // verus!
