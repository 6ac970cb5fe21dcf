//! The Rust types that stand for Lexicon primitive types.
use vstd::prelude::*;
use crate::text::string_views;
use super::order::{entry_views, is_index_permutation, sorted_by_entries, sorted_order};
use super::{pascal_case, resolve_path, snake_case, spec_resolve_path, to_pascal_case, to_snake_case};

verus! {

/// The Rust type generated for a Lexicon integer.
#[derive(Debug, Clone, Copy, PartialEq, Eq, Structural)]
pub enum IntegerType {
    U8,
    U16,
    U32,
    Usize,
    NonZeroU8,
    NonZeroU16,
    NonZeroU32,
    NonZeroU64,
    I8,
    I16,
    I32,
    I64,
    /// An unsigned integer with the given maximum.
    LimitedU8(u8),
    LimitedU16(u16),
    LimitedU32(u32),
    LimitedU64(u64),
    /// A non-zero unsigned integer with the given maximum.
    LimitedNonZeroU8(u8),
    LimitedNonZeroU16(u16),
    LimitedNonZeroU32(u32),
    LimitedNonZeroU64(u64),
    /// An unsigned integer with the given minimum and maximum.
    BoundedU8(u8, u8),
    BoundedU16(u16, u16),
    BoundedU32(u32, u32),
    BoundedU64(u64, u64),
}

/// The type for an integer whose minimum is 0: the smallest unsigned type
/// that holds the maximum, limited to it unless it is the type's own.
pub open spec fn spec_from_zero(maximum: Option<i64>) -> IntegerType {
    match maximum {
        Some(max) => if 0 <= max <= 0xfe {
            IntegerType::LimitedU8(max as u8)
        } else if max == 0xff {
            IntegerType::U8
        } else if 0x100 <= max <= 0xfffe {
            IntegerType::LimitedU16(max as u16)
        } else if max == 0xffff {
            IntegerType::U16
        } else if 0x1_0000 <= max <= 0xffff_fffe {
            IntegerType::LimitedU32(max as u32)
        } else if max == 0xffff_ffff {
            IntegerType::U32
        } else {
            IntegerType::LimitedU64(max as u64)
        },
        None => IntegerType::Usize,
    }
}

/// The type for an integer whose minimum is 1: the smallest non-zero
/// unsigned type that holds the maximum, limited to it unless it is the
/// type's own.
pub open spec fn spec_from_one(maximum: Option<i64>) -> IntegerType {
    match maximum {
        Some(max) => if 0 <= max <= 0xfe {
            IntegerType::LimitedNonZeroU8(max as u8)
        } else if max == 0xff {
            IntegerType::NonZeroU8
        } else if 0x100 <= max <= 0xfffe {
            IntegerType::LimitedNonZeroU16(max as u16)
        } else if max == 0xffff {
            IntegerType::NonZeroU16
        } else if 0x1_0000 <= max <= 0xffff_fffe {
            IntegerType::LimitedNonZeroU32(max as u32)
        } else if max == 0xffff_ffff {
            IntegerType::NonZeroU32
        } else {
            IntegerType::LimitedNonZeroU64(max as u64)
        },
        None => IntegerType::NonZeroU64,
    }
}

/// The type for an integer whose minimum is 2 or more: the smallest
/// unsigned type that holds the maximum, bounded on both sides.
pub open spec fn spec_from_positive(min: i64, maximum: Option<i64>) -> IntegerType {
    match maximum {
        Some(max) => if 0 <= max <= 0xff {
            IntegerType::BoundedU8(min as u8, max as u8)
        } else if 0x100 <= max <= 0xffff {
            IntegerType::BoundedU16(min as u16, max as u16)
        } else if 0x1_0000 <= max <= 0xffff_ffff {
            IntegerType::BoundedU32(min as u32, max as u32)
        } else {
            IntegerType::BoundedU64(min as u64, max as u64)
        },
        None => IntegerType::BoundedU64(min as u64, u64::MAX),
    }
}

/// The type for an integer that may be negative: a signed type whose range
/// is exactly the bounds, or `i64` without a maximum. Other bounds have
/// no type.
pub open spec fn spec_from_negative(min: i64, maximum: Option<i64>) -> Option<IntegerType> {
    match maximum {
        Some(max) => if min == -0x80 && max == 0x7f {
            Some(IntegerType::I8)
        } else if min == -0x8000 && max == 0x7fff {
            Some(IntegerType::I16)
        } else if min == -0x8000_0000 && max == 0x7fff_ffff {
            Some(IntegerType::I32)
        } else if min == i64::MIN && max == i64::MAX {
            Some(IntegerType::I64)
        } else {
            None
        },
        None => Some(IntegerType::I64),
    }
}

/// The type generated for an integer with the given bounds, if there is
/// one: `None` for a negative minimum without a signed type of exactly
/// its range, and for a maximum without a minimum.
pub open spec fn spec_integer_type(minimum: Option<i64>, maximum: Option<i64>) -> Option<IntegerType> {
    match minimum {
        Some(min) => if min == 0 {
            Some(spec_from_zero(maximum))
        } else if min == 1 {
            Some(spec_from_one(maximum))
        } else if min >= 0 {
            Some(spec_from_positive(min, maximum))
        } else {
            spec_from_negative(min, maximum)
        },
        None => match maximum {
            Some(_) => None,
            None => Some(IntegerType::I64),
        },
    }
}

/// The least and greatest values of a generated integer type (for `usize`,
/// those of a 64-bit target).
pub open spec fn type_bounds(t: IntegerType) -> (int, int) {
    match t {
        IntegerType::U8 => (0, 0xff),
        IntegerType::U16 => (0, 0xffff),
        IntegerType::U32 => (0, 0xffff_ffff),
        IntegerType::Usize => (0, 0xffff_ffff_ffff_ffff),
        IntegerType::NonZeroU8 => (1, 0xff),
        IntegerType::NonZeroU16 => (1, 0xffff),
        IntegerType::NonZeroU32 => (1, 0xffff_ffff),
        IntegerType::NonZeroU64 => (1, 0xffff_ffff_ffff_ffff),
        IntegerType::I8 => (-0x80, 0x7f),
        IntegerType::I16 => (-0x8000, 0x7fff),
        IntegerType::I32 => (-0x8000_0000, 0x7fff_ffff),
        IntegerType::I64 => (i64::MIN as int, i64::MAX as int),
        IntegerType::LimitedU8(m) => (0, m as int),
        IntegerType::LimitedU16(m) => (0, m as int),
        IntegerType::LimitedU32(m) => (0, m as int),
        IntegerType::LimitedU64(m) => (0, m as int),
        IntegerType::LimitedNonZeroU8(m) => (1, m as int),
        IntegerType::LimitedNonZeroU16(m) => (1, m as int),
        IntegerType::LimitedNonZeroU32(m) => (1, m as int),
        IntegerType::LimitedNonZeroU64(m) => (1, m as int),
        IntegerType::BoundedU8(a, b) => (a as int, b as int),
        IntegerType::BoundedU16(a, b) => (a as int, b as int),
        IntegerType::BoundedU32(a, b) => (a as int, b as int),
        IntegerType::BoundedU64(a, b) => (a as int, b as int),
    }
}

/// The width in bits of the integer a generated type stores.
pub open spec fn type_bits(t: IntegerType) -> nat {
    match t {
        IntegerType::U8 | IntegerType::NonZeroU8 | IntegerType::I8 | IntegerType::LimitedU8(_)
        | IntegerType::LimitedNonZeroU8(_) | IntegerType::BoundedU8(_, _) => 8,
        IntegerType::U16 | IntegerType::NonZeroU16 | IntegerType::I16 | IntegerType::LimitedU16(_)
        | IntegerType::LimitedNonZeroU16(_) | IntegerType::BoundedU16(_, _) => 16,
        IntegerType::U32 | IntegerType::NonZeroU32 | IntegerType::I32 | IntegerType::LimitedU32(_)
        | IntegerType::LimitedNonZeroU32(_) | IntegerType::BoundedU32(_, _) => 32,
        _ => 64,
    }
}

/// With both bounds given, the generated type, when there is one, holds
/// exactly the integers between them; for a minimum of 0 or more there
/// always is one, and it stores the narrowest unsigned width that holds
/// the maximum.
pub proof fn lemma_integer_type_holds_the_bounds(min: i64, max: i64)
    requires
        min <= max,
    ensures
        spec_integer_type(Some(min), Some(max)) matches Some(t) ==> type_bounds(t) == (min as int, max as int),
        min >= 0 ==> spec_integer_type(Some(min), Some(max)) is Some,
        min >= 0 ==> (spec_integer_type(Some(min), Some(max)) matches Some(t) && {
            &&& type_bits(t) == 8 <==> max <= 0xff
            &&& type_bits(t) == 16 <==> 0x100 <= max <= 0xffff
            &&& type_bits(t) == 32 <==> 0x1_0000 <= max <= 0xffff_ffff
            &&& type_bits(t) == 64 <==> 0x1_0000_0000 <= max
        }),
{
}

/// Whether an integer with the given bounds has a generated type.
pub fn integer_type_supported(minimum: Option<i64>, maximum: Option<i64>) -> (r: bool)
    ensures
        r == spec_integer_type(minimum, maximum) is Some,
{
    match minimum {
        Some(min) => if min >= 0 {
            true
        } else {
            match maximum {
                Some(max) => (min == -0x80 && max == 0x7f) || (min == -0x8000 && max == 0x7fff) || (
                min == -0x8000_0000 && max == 0x7fff_ffff) || (min == i64::MIN && max == i64::MAX),
                None => true,
            }
        },
        None => maximum.is_none(),
    }
}

fn from_zero(maximum: Option<i64>) -> (r: IntegerType)
    ensures
        r == spec_from_zero(maximum),
{
    match maximum {
        Some(max) => if 0 <= max && max <= 0xfe {
            IntegerType::LimitedU8(max as u8)
        } else if max == 0xff {
            IntegerType::U8
        } else if 0x100 <= max && max <= 0xfffe {
            IntegerType::LimitedU16(max as u16)
        } else if max == 0xffff {
            IntegerType::U16
        } else if 0x1_0000 <= max && max <= 0xffff_fffe {
            IntegerType::LimitedU32(max as u32)
        } else if max == 0xffff_ffff {
            IntegerType::U32
        } else {
            IntegerType::LimitedU64(max as u64)
        },
        None => IntegerType::Usize,
    }
}

fn from_one(maximum: Option<i64>) -> (r: IntegerType)
    ensures
        r == spec_from_one(maximum),
{
    match maximum {
        Some(max) => if 0 <= max && max <= 0xfe {
            IntegerType::LimitedNonZeroU8(max as u8)
        } else if max == 0xff {
            IntegerType::NonZeroU8
        } else if 0x100 <= max && max <= 0xfffe {
            IntegerType::LimitedNonZeroU16(max as u16)
        } else if max == 0xffff {
            IntegerType::NonZeroU16
        } else if 0x1_0000 <= max && max <= 0xffff_fffe {
            IntegerType::LimitedNonZeroU32(max as u32)
        } else if max == 0xffff_ffff {
            IntegerType::NonZeroU32
        } else {
            IntegerType::LimitedNonZeroU64(max as u64)
        },
        None => IntegerType::NonZeroU64,
    }
}

fn from_positive(min: i64, maximum: Option<i64>) -> (r: IntegerType)
    ensures
        r == spec_from_positive(min, maximum),
{
    match maximum {
        Some(max) => if 0 <= max && max <= 0xff {
            IntegerType::BoundedU8(min as u8, max as u8)
        } else if 0x100 <= max && max <= 0xffff {
            IntegerType::BoundedU16(min as u16, max as u16)
        } else if 0x1_0000 <= max && max <= 0xffff_ffff {
            IntegerType::BoundedU32(min as u32, max as u32)
        } else {
            IntegerType::BoundedU64(min as u64, max as u64)
        },
        None => IntegerType::BoundedU64(min as u64, u64::MAX),
    }
}

/// The type generated for an integer with the given bounds; see
/// `spec_integer_type`.
pub fn integer_type(minimum: Option<i64>, maximum: Option<i64>) -> (r: IntegerType)
    requires
        spec_integer_type(minimum, maximum) is Some,
    ensures
        spec_integer_type(minimum, maximum) == Some(r),
{
    match minimum {
        Some(min) => if min == 0 {
            from_zero(maximum)
        } else if min == 1 {
            from_one(maximum)
        } else if min >= 0 {
            from_positive(min, maximum)
        } else {
            match maximum {
                Some(max) => if min == -0x80 && max == 0x7f {
                    IntegerType::I8
                } else if min == -0x8000 && max == 0x7fff {
                    IntegerType::I16
                } else if min == -0x8000_0000 && max == 0x7fff_ffff {
                    IntegerType::I32
                } else {
                    IntegerType::I64
                },
                None => IntegerType::I64,
            }
        },
        None => IntegerType::I64,
    }
}

/// The formats a Lexicon string may declare.
#[derive(Debug, Clone, Copy, PartialEq, Eq, Structural)]
pub enum StringFormat {
    AtIdentifier,
    AtUri,
    Cid,
    Datetime,
    Did,
    Handle,
    Nsid,
    Language,
    Tid,
    RecordKey,
    Uri,
}

/// The Rust type generated for a Lexicon string: a checked string type
/// for most formats, a plain `String` otherwise.
#[derive(Debug, Clone, Copy, PartialEq, Eq, Structural)]
pub enum StringType {
    AtIdentifier,
    Cid,
    Datetime,
    Did,
    Handle,
    Nsid,
    Language,
    Tid,
    RecordKey,
    Plain,
}

/// The string type for a format; `at-uri`, `uri` and no format give a
/// plain `String`.
pub open spec fn spec_string_type(format: Option<StringFormat>) -> StringType {
    match format {
        Some(StringFormat::AtIdentifier) => StringType::AtIdentifier,
        Some(StringFormat::Cid) => StringType::Cid,
        Some(StringFormat::Datetime) => StringType::Datetime,
        Some(StringFormat::Did) => StringType::Did,
        Some(StringFormat::Handle) => StringType::Handle,
        Some(StringFormat::Nsid) => StringType::Nsid,
        Some(StringFormat::Language) => StringType::Language,
        Some(StringFormat::Tid) => StringType::Tid,
        Some(StringFormat::RecordKey) => StringType::RecordKey,
        _ => StringType::Plain,
    }
}

/// The string type for a format; see `spec_string_type`.
pub fn string_type(format: Option<StringFormat>) -> (r: StringType)
    ensures
        r == spec_string_type(format),
{
    match format {
        Some(StringFormat::AtIdentifier) => StringType::AtIdentifier,
        Some(StringFormat::Cid) => StringType::Cid,
        Some(StringFormat::Datetime) => StringType::Datetime,
        Some(StringFormat::Did) => StringType::Did,
        Some(StringFormat::Handle) => StringType::Handle,
        Some(StringFormat::Nsid) => StringType::Nsid,
        Some(StringFormat::Language) => StringType::Language,
        Some(StringFormat::Tid) => StringType::Tid,
        Some(StringFormat::RecordKey) => StringType::RecordKey,
        _ => StringType::Plain,
    }
}

/// The type of an array's items, as a schema declares it.
#[derive(Debug, Clone, PartialEq, Eq)]
pub enum ArrayItem {
    Boolean,
    Integer { minimum: Option<i64>, maximum: Option<i64> },
    Str(Option<StringFormat>),
    Unknown,
    Bytes,
    CidLink,
    Blob,
    /// A reference to a definition.
    Ref(String),
    /// A union of references, closed or not.
    Union(Option<bool>),
}

/// The type of an object's property, as a schema declares it.
#[derive(Debug, Clone, PartialEq, Eq)]
pub enum ObjectProperty {
    Boolean,
    Integer { minimum: Option<i64>, maximum: Option<i64> },
    Str(Option<StringFormat>),
    Unknown,
    Bytes,
    CidLink,
    Blob,
    /// A reference to a definition.
    Ref(String),
    /// A union of references, closed or not.
    Union(Option<bool>),
    Array(ArrayItem),
}

/// The Rust type generated for an array's items; `S` is the type of texts.
#[derive(Debug, Clone, PartialEq, Eq)]
pub enum ItemType<S> {
    Integer(IntegerType),
    Str(StringType),
    Unknown,
    CidLink,
    /// A path to a generated type.
    Path(S),
    /// The enum generated for a union of references, wrapped in `Union`
    /// unless the union is closed.
    RefUnion { name: S, closed: bool },
}

/// The Rust type generated for an object's field; `S` is the type of texts.
#[derive(Debug, Clone, PartialEq, Eq)]
pub enum FieldType<S> {
    Bool,
    Bytes,
    CidLink,
    Blob,
    Unknown,
    Integer(IntegerType),
    Str(StringType),
    /// A path to a generated type.
    Path(S),
    /// The enum generated for a union of references, wrapped in `Union`
    /// unless the union is closed.
    RefUnion { name: S, closed: bool },
    /// A vector of items.
    Vec(ItemType<S>),
}

impl View for ItemType<String> {
    type V = ItemType<Seq<char>>;

    open spec fn view(&self) -> ItemType<Seq<char>> {
        match self {
            ItemType::Integer(t) => ItemType::Integer(*t),
            ItemType::Str(t) => ItemType::Str(*t),
            ItemType::Unknown => ItemType::Unknown,
            ItemType::CidLink => ItemType::CidLink,
            ItemType::Path(p) => ItemType::Path(p@),
            ItemType::RefUnion { name, closed } => ItemType::RefUnion { name: name@, closed: *closed },
        }
    }
}

impl View for FieldType<String> {
    type V = FieldType<Seq<char>>;

    open spec fn view(&self) -> FieldType<Seq<char>> {
        match self {
            FieldType::Bool => FieldType::Bool,
            FieldType::Bytes => FieldType::Bytes,
            FieldType::CidLink => FieldType::CidLink,
            FieldType::Blob => FieldType::Blob,
            FieldType::Unknown => FieldType::Unknown,
            FieldType::Integer(t) => FieldType::Integer(*t),
            FieldType::Str(t) => FieldType::Str(*t),
            FieldType::Path(p) => FieldType::Path(p@),
            FieldType::RefUnion { name, closed } => FieldType::RefUnion { name: name@, closed: *closed },
            FieldType::Vec(i) => FieldType::Vec(i@),
        }
    }
}

/// Whether a union is closed: only when it says so.
pub open spec fn is_closed(closed: Option<bool>) -> bool {
    closed == Some(true)
}

/// The name of the enum for a union inside an array: the object's and the
/// field's names pascal-cased, then `Item`.
pub open spec fn array_union_name(name: Seq<char>, object_name: Option<Seq<char>>) -> Seq<char> {
    let prefix = match object_name {
        Some(o) => pascal_case(o),
        None => Seq::empty(),
    };
    prefix + pascal_case(name) + "Item"@
}

/// The type generated for an array's items, if the generator handles them
/// (it does not handle booleans, bytes, blobs, or integers without a type).
pub open spec fn spec_array_item_type(item: ArrayItem, name: Seq<char>, object_name: Option<Seq<char>>) -> Option<
    ItemType<Seq<char>>,
> {
    match item {
        ArrayItem::Integer { minimum, maximum } => match spec_integer_type(minimum, maximum) {
            Some(t) => Some(ItemType::Integer(t)),
            None => None,
        },
        ArrayItem::Str(f) => Some(ItemType::Str(spec_string_type(f))),
        ArrayItem::Unknown => Some(ItemType::Unknown),
        ArrayItem::CidLink => Some(ItemType::CidLink),
        ArrayItem::Ref(r) => Some(ItemType::Path(spec_resolve_path(r@, "main"@))),
        ArrayItem::Union(closed) => Some(
            ItemType::RefUnion { name: array_union_name(name, object_name), closed: is_closed(closed) },
        ),
        _ => None,
    }
}

/// The view of an optional text.
pub open spec fn opt_view(o: Option<&str>) -> Option<Seq<char>> {
    match o {
        Some(t) => Some(t@),
        None => None,
    }
}

fn closed_of(closed: Option<bool>) -> (r: bool)
    ensures
        r == is_closed(closed),
{
    match closed {
        Some(b) => b,
        None => false,
    }
}

/// The type generated for an array's items; see `spec_array_item_type`.
pub fn array_item_type(item: &ArrayItem, name: &str, object_name: Option<&str>) -> (r: ItemType<String>)
    requires
        spec_array_item_type(*item, name@, opt_view(object_name)) is Some,
    ensures
        spec_array_item_type(*item, name@, opt_view(object_name)) == Some(r@),
{
    match item {
        ArrayItem::Integer { minimum, maximum } => ItemType::Integer(integer_type(*minimum, *maximum)),
        ArrayItem::Str(f) => ItemType::Str(string_type(*f)),
        ArrayItem::Unknown => ItemType::Unknown,
        ArrayItem::CidLink => ItemType::CidLink,
        ArrayItem::Ref(r) => ItemType::Path(resolve_path(r.as_str(), "main")),
        ArrayItem::Union(closed) => {
            let mut n = match object_name {
                Some(o) => to_pascal_case(o),
                None => String::new(),
            };
            n.push_str(to_pascal_case(name).as_str());
            n.push_str("Item");
            ItemType::RefUnion { name: n, closed: closed_of(*closed) }
        },
        _ => ItemType::Unknown,
    }
}

/// The name of the enum for a union field: the object's and the field's
/// names pascal-cased, then `Refs`.
pub open spec fn field_union_name(name: Seq<char>, object_name: Seq<char>) -> Seq<char> {
    pascal_case(object_name) + pascal_case(name) + "Refs"@
}

/// The type generated for an object's property, if the generator handles
/// it; see `spec_array_item_type` for arrays.
pub open spec fn spec_property_type(p: ObjectProperty, name: Seq<char>, object_name: Seq<char>) -> Option<
    FieldType<Seq<char>>,
> {
    match p {
        ObjectProperty::Boolean => Some(FieldType::Bool),
        ObjectProperty::Integer { minimum, maximum } => match spec_integer_type(minimum, maximum) {
            Some(t) => Some(FieldType::Integer(t)),
            None => None,
        },
        ObjectProperty::Str(f) => Some(FieldType::Str(spec_string_type(f))),
        ObjectProperty::Unknown => Some(FieldType::Unknown),
        ObjectProperty::Bytes => Some(FieldType::Bytes),
        ObjectProperty::CidLink => Some(FieldType::CidLink),
        ObjectProperty::Blob => Some(FieldType::Blob),
        ObjectProperty::Ref(r) => Some(FieldType::Path(spec_resolve_path(r@, "main"@))),
        ObjectProperty::Union(closed) => Some(
            FieldType::RefUnion { name: field_union_name(name, object_name), closed: is_closed(closed) },
        ),
        ObjectProperty::Array(item) => match spec_array_item_type(item, name, Some(object_name)) {
            Some(t) => Some(FieldType::Vec(t)),
            None => None,
        },
    }
}

/// An attribute on a generated field, in the order the generator writes them.
#[derive(Debug, Clone, Copy, PartialEq, Eq, Structural)]
pub enum FieldAttribute {
    /// `#[serde(default)]`
    SerdeDefault,
    /// `#[serde(with = "serde_bytes")]`
    SerdeBytes,
    /// `#[serde(skip_serializing_if = "Option::is_none")]`
    SkipIfNone,
}

/// A generated field of an object; `S` is the type of texts.
#[derive(Debug, Clone, PartialEq, Eq)]
pub struct Field<S> {
    /// The field's identifier.
    pub name: S,
    /// Its type, before wrapping an optional field in `Option`.
    pub ty: FieldType<S>,
    /// Whether the field is optional (its type wrapped in `Option`).
    pub optional: bool,
    pub attributes: Vec<FieldAttribute>,
}

/// The mathematical value of a `Field`.
pub struct FieldView {
    pub name: Seq<char>,
    pub ty: FieldType<Seq<char>>,
    pub optional: bool,
    pub attributes: Seq<FieldAttribute>,
}

impl View for Field<String> {
    type V = FieldView;

    open spec fn view(&self) -> FieldView {
        FieldView { name: self.name@, ty: self.ty@, optional: self.optional, attributes: self.attributes@ }
    }
}

/// The identifier of the field for a property: `r#` before the keywords
/// `ref` and `type`, the snake-cased name otherwise.
pub open spec fn field_name(name: Seq<char>) -> Seq<char> {
    if name == "ref"@ || name == "type"@ {
        "r#"@ + name
    } else {
        snake_case(name)
    }
}

/// The attributes of a field: bytes are (de)serialized as bytes, with a
/// default when optional; optional fields are skipped when empty.
pub open spec fn field_attributes(p: ObjectProperty, is_required: bool) -> Seq<FieldAttribute> {
    let bytes = if p is Bytes {
        if is_required {
            seq![FieldAttribute::SerdeBytes]
        } else {
            seq![FieldAttribute::SerdeDefault, FieldAttribute::SerdeBytes]
        }
    } else {
        Seq::empty()
    };
    if is_required {
        bytes
    } else {
        bytes.push(FieldAttribute::SkipIfNone)
    }
}

/// The field generated for a property of an object, if the generator
/// handles the property.
pub open spec fn spec_object_field(p: ObjectProperty, name: Seq<char>, is_required: bool, object_name: Seq<char>) -> Option<
    FieldView,
> {
    match spec_property_type(p, name, object_name) {
        Some(ty) => Some(
            FieldView {
                name: field_name(name),
                ty,
                optional: !is_required,
                attributes: field_attributes(p, is_required),
            },
        ),
        None => None,
    }
}

fn field_name_exec(name: &str) -> (r: String)
    ensures
        r@ == field_name(name@),
{
    proof {
        reveal_strlit("ref");
        reveal_strlit("type");
    }
    if crate::text::str_eq(name, "ref") || crate::text::str_eq(name, "type") {
        let mut n = "r#".to_owned();
        n.push_str(name);
        n
    } else {
        to_snake_case(name)
    }
}

/// The field generated for a property of an object; see `spec_object_field`.
pub fn lex_object_property(p: &ObjectProperty, name: &str, is_required: bool, object_name: &str) -> (r: Field<String>)
    requires
        spec_property_type(*p, name@, object_name@) is Some,
    ensures
        spec_object_field(*p, name@, is_required, object_name@) == Some(r@),
{
    let ty = match p {
        ObjectProperty::Boolean => FieldType::Bool,
        ObjectProperty::Integer { minimum, maximum } => FieldType::Integer(integer_type(*minimum, *maximum)),
        ObjectProperty::Str(f) => FieldType::Str(string_type(*f)),
        ObjectProperty::Unknown => FieldType::Unknown,
        ObjectProperty::Bytes => FieldType::Bytes,
        ObjectProperty::CidLink => FieldType::CidLink,
        ObjectProperty::Blob => FieldType::Blob,
        ObjectProperty::Ref(r) => FieldType::Path(resolve_path(r.as_str(), "main")),
        ObjectProperty::Union(closed) => {
            let mut n = to_pascal_case(object_name);
            n.push_str(to_pascal_case(name).as_str());
            n.push_str("Refs");
            FieldType::RefUnion { name: n, closed: closed_of(*closed) }
        },
        ObjectProperty::Array(item) => FieldType::Vec(array_item_type(item, name, Some(object_name))),
    };
    let mut attributes = Vec::new();
    if let ObjectProperty::Bytes = p {
        if !is_required {
            attributes.push(FieldAttribute::SerdeDefault);
        }
        attributes.push(FieldAttribute::SerdeBytes);
    }
    if !is_required {
        attributes.push(FieldAttribute::SkipIfNone);
    }
    let r = Field { name: field_name_exec(name), ty, optional: !is_required, attributes };
    assert(r@.attributes =~= field_attributes(*p, is_required));
    r
}

/// An object schema: its properties by name, which of them are required,
/// and which of those may be null.
#[derive(Debug, Clone, PartialEq, Eq)]
pub struct LexObject {
    pub description: Option<String>,
    pub required: Option<Vec<String>>,
    pub nullable: Option<Vec<String>>,
    pub properties: Vec<(String, ObjectProperty)>,
}

/// The struct generated for an object schema, and the alias that wraps it.
#[derive(Debug, Clone, PartialEq, Eq)]
pub struct ObjectDef {
    pub description: Option<String>,
    /// The data struct's name: the object's name pascal-cased, then `Data`.
    pub struct_name: String,
    /// The alias's name: the object's name pascal-cased.
    pub object_name: String,
    /// The fields, by their properties' names in `str` order.
    pub fields: Vec<Field<String>>,
}

/// The views of a list of fields.
pub open spec fn field_views(s: Seq<Field<String>>) -> Seq<FieldView> {
    s.map_values(|f: Field<String>| f@)
}

/// Whether a list of texts holds a text.
pub open spec fn lists(l: Option<Vec<String>>, key: Seq<char>) -> bool {
    match l {
        Some(v) => string_views(v@).contains(key),
        None => false,
    }
}

/// Whether a property of an object is required: listed as required and
/// not listed as nullable.
pub open spec fn is_required_key(o: LexObject, key: Seq<char>) -> bool {
    lists(o.required, key) && !lists(o.nullable, key)
}

/// The names of an object's properties, each with the flag `false`, as
/// entries to order.
pub open spec fn property_entries(props: Seq<(String, ObjectProperty)>) -> Seq<(Seq<char>, bool)> {
    props.map_values(|p: (String, ObjectProperty)| (p.0@, false))
}

/// Whether the generator handles every property of an object.
pub open spec fn object_supported(o: LexObject, name: Seq<char>) -> bool {
    forall|i: int|
        0 <= i < o.properties@.len() ==> spec_property_type(
            (#[trigger] o.properties@[i]).1,
            o.properties@[i].0@,
            name,
        ) is Some
}

/// Whether `fields` are the fields generated for the properties of an
/// object in the given order.
pub open spec fn fields_in_order(o: LexObject, name: Seq<char>, order: Seq<usize>, fields: Seq<FieldView>) -> bool {
    &&& fields.len() == order.len()
    &&& forall|i: int|
        0 <= i < order.len() ==> Some(#[trigger] fields[i]) == spec_object_field(
            o.properties@[order[i] as int].1,
            o.properties@[order[i] as int].0@,
            is_required_key(o, o.properties@[order[i] as int].0@),
            name,
        )
}

fn lists_exec(l: &Option<Vec<String>>, key: &str) -> (r: bool)
    ensures
        r == lists(*l, key@),
{
    match l {
        Some(v) => {
            let mut i: usize = 0;
            while i < v.len()
                invariant
                    *l == Some(*v),
                    i <= v@.len(),
                    forall|j: int| 0 <= j < i ==> string_views(v@)[j] != key@,
                decreases v.len() - i,
            {
                if crate::text::str_eq(v[i].as_str(), key) {
                    assert(string_views(v@)[i as int] == key@);
                    return true;
                }
                i = i + 1;
            }
            false
        },
        None => false,
    }
}

/// Whether `r` is the struct generated for an object schema named `name`:
/// its fields in the `str` order of their properties' names.
pub open spec fn is_object_def(r: ObjectDef, object: LexObject, name: Seq<char>) -> bool {
    &&& r.description == object.description
    &&& r.struct_name@ == pascal_case(name) + "Data"@
    &&& r.object_name@ == pascal_case(name)
    &&& exists|order: Seq<usize>|
        is_index_permutation(order, object.properties@.len()) && sorted_by_entries(
            order,
            property_entries(object.properties@),
        ) && fields_in_order(object, name, order, field_views(r.fields@))
}

/// The struct generated for an object schema named `name`; see
/// `is_object_def`.
pub fn lex_object(object: &LexObject, name: &str) -> (r: ObjectDef)
    requires
        object_supported(*object, name@),
    ensures
        is_object_def(r, *object, name@),
{
    lex_object_parts(&object.description, &object.required, &object.nullable, &object.properties, name)
}

/// The struct generated for the object schema with the given parts.
pub fn lex_object_parts(
    description: &Option<String>,
    required: &Option<Vec<String>>,
    nullable: &Option<Vec<String>>,
    props: &Vec<(String, ObjectProperty)>,
    name: &str,
) -> (r: ObjectDef)
    requires
        object_supported(
            (LexObject {
                description: *description,
                required: *required,
                nullable: *nullable,
                properties: *props,
            }),
            name@,
        ),
    ensures
        is_object_def(
            r,
            (LexObject {
                description: *description,
                required: *required,
                nullable: *nullable,
                properties: *props,
            }),
            name@,
        ),
{
    let ghost object = LexObject {
        description: *description,
        required: *required,
        nullable: *nullable,
        properties: *props,
    };

    let mut entries: Vec<(String, bool)> = Vec::new();
    let mut i: usize = 0;
    while i < props.len()
        invariant
            *props == object.properties,
            i <= props@.len(),
            entries@.len() == i,
            entry_views(entries@) == property_entries(props@).take(i as int),
        decreases props.len() - i,
    {
        let ghost before = entries@;
        let e = (props[i].0.clone(), false);
        entries.push(e);
        assert(entries@ == before.push(e));
        assert(e.0@ == props@[i as int].0@);
        assert forall|j: int| 0 <= j < i + 1 implies #[trigger] entry_views(entries@)[j]
            == property_entries(props@).take(i + 1)[j] by {
            if j < i {
                assert(entries@[j] == before[j]);
                assert(entry_views(before)[j] == property_entries(props@).take(i as int)[j]);
            }
        }
        assert(entry_views(entries@) =~= property_entries(props@).take(i + 1));
        i = i + 1;
    }
    assert(property_entries(props@).take(i as int) =~= property_entries(props@));
    let order = sorted_order(&entries);
    let mut fields: Vec<Field<String>> = Vec::new();
    let mut k: usize = 0;
    while k < order.len()
        invariant
            *props == object.properties,
            object.required == *required,
            object.nullable == *nullable,
            object_supported(object, name@),
            is_index_permutation(order@, props@.len()),
            k <= order@.len(),
            fields_in_order(object, name@, order@.take(k as int), field_views(fields@)),
        decreases order.len() - k,
    {
        let j = order[k];
        let key = props[j].0.as_str();
        let required = lists_exec(required, key) && !lists_exec(nullable, key);
        assert(order@[k as int] < props@.len());
        assert(spec_property_type(props@[j as int].1, props@[j as int].0@, name@) is Some);
        let f = lex_object_property(&props[j].1, key, required, name);
        let ghost before = fields@;
        fields.push(f);
        proof {
            let o = order@.take(k + 1);
            assert(field_views(fields@).len() == o.len());
            assert forall|i: int| 0 <= i < o.len() implies Some(#[trigger] field_views(fields@)[i])
                == spec_object_field(
                    object.properties@[o[i] as int].1,
                    object.properties@[o[i] as int].0@,
                    is_required_key(object, object.properties@[o[i] as int].0@),
                    name@,
                ) by {
                if i < k {
                    assert(fields@[i] == before[i]);
                    assert(o[i] == order@.take(k as int)[i]);
                    assert(field_views(before)[i] == field_views(fields@)[i]);
                } else {
                    assert(fields@[i] == f);
                    assert(o[i] == j);
                }
            }
        }
        k = k + 1;
    }
    assert(order@.take(k as int) =~= order@);
    let mut struct_name = to_pascal_case(name);
    struct_name.push_str("Data");
    ObjectDef { description: description.clone(), struct_name, object_name: to_pascal_case(name), fields }
}

} // verus!
