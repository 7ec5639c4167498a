//! Type mapper: primitive EDM type plus nullability to the target field type
//! name.  The mapping is total over the closed primitive-type set; a nullable
//! property wraps its bare type in the optional-value constructor.

use vstd::prelude::*;
use vstd::string::*;
use crate::model::{PrimitiveTag, Property};

verus! {

/// The bare target type for each primitive tag.
pub open spec fn base_type_name(tag: PrimitiveTag) -> Seq<char> {
    match tag {
        PrimitiveTag::Binary => "Vec<u8>"@,
        PrimitiveTag::Boolean => "bool"@,
        PrimitiveTag::Byte => "u8"@,
        PrimitiveTag::DateTime => "chrono::NaiveDateTime"@,
        PrimitiveTag::DateTimeOffset => "std::time::Duration"@,
        PrimitiveTag::Decimal => "f64"@,
        PrimitiveTag::Double => "f64"@,
        PrimitiveTag::Int16 => "i16"@,
        PrimitiveTag::Int32 => "i32"@,
        PrimitiveTag::Text => "String"@,
    }
}

/// The full target type: the bare type, wrapped in `Option<..>` when the
/// property is nullable.
pub open spec fn type_name_spec(tag: PrimitiveTag, nullable: bool) -> Seq<char> {
    if nullable {
        "Option<"@ + base_type_name(tag) + ">"@
    } else {
        base_type_name(tag)
    }
}

/// Map a property to the name of the field type that will hold it.
pub fn edm_type_to_rust_type(property: &Property) -> (r: String)
    ensures
        r@ == type_name_spec(property.tag, property.nullable),
{
    let inner: &str = match property.tag {
        PrimitiveTag::Binary => "Vec<u8>",
        PrimitiveTag::Boolean => "bool",
        PrimitiveTag::Byte => "u8",
        PrimitiveTag::DateTime => "chrono::NaiveDateTime",
        PrimitiveTag::DateTimeOffset => "std::time::Duration",
        PrimitiveTag::Decimal => "f64",
        PrimitiveTag::Double => "f64",
        PrimitiveTag::Int16 => "i16",
        PrimitiveTag::Int32 => "i32",
        PrimitiveTag::Text => "String",
    };
    if property.nullable {
        "Option<".to_owned().concat(inner).concat(">")
    } else {
        inner.to_owned()
    }
}

/// The label of a primitive tag in reflection output.
pub open spec fn tag_label_spec(tag: PrimitiveTag) -> Seq<char> {
    match tag {
        PrimitiveTag::Binary => "Binary"@,
        PrimitiveTag::Boolean => "Boolean"@,
        PrimitiveTag::Byte => "Byte"@,
        PrimitiveTag::DateTime => "DateTime"@,
        PrimitiveTag::DateTimeOffset => "DateTimeOffset"@,
        PrimitiveTag::Decimal => "Decimal"@,
        PrimitiveTag::Double => "Double"@,
        PrimitiveTag::Int16 => "Int16"@,
        PrimitiveTag::Int32 => "Int32"@,
        PrimitiveTag::Text => "String"@,
    }
}

/// The reflection label of a primitive tag, as text.
pub fn tag_label(tag: PrimitiveTag) -> (r: String)
    ensures
        r@ == tag_label_spec(tag),
{
    match tag {
        PrimitiveTag::Binary => "Binary".to_owned(),
        PrimitiveTag::Boolean => "Boolean".to_owned(),
        PrimitiveTag::Byte => "Byte".to_owned(),
        PrimitiveTag::DateTime => "DateTime".to_owned(),
        PrimitiveTag::DateTimeOffset => "DateTimeOffset".to_owned(),
        PrimitiveTag::Decimal => "Decimal".to_owned(),
        PrimitiveTag::Double => "Double".to_owned(),
        PrimitiveTag::Int16 => "Int16".to_owned(),
        PrimitiveTag::Int32 => "Int32".to_owned(),
        PrimitiveTag::Text => "String".to_owned(),
    }
}

/// Totality of the type mapping: for every primitive tag, nullable or not,
/// the mapper yields a defined, non-empty type name.
pub proof fn lemma_type_mapping_total(tag: PrimitiveTag, nullable: bool)
    ensures
        type_name_spec(tag, nullable).len() > 0,
{
    reveal_strlit("Vec<u8>");
    reveal_strlit("bool");
    reveal_strlit("u8");
    reveal_strlit("chrono::NaiveDateTime");
    reveal_strlit("std::time::Duration");
    reveal_strlit("f64");
    reveal_strlit("i16");
    reveal_strlit("i32");
    reveal_strlit("String");
    reveal_strlit("Option<");
    reveal_strlit(">");
}

} // verus!
