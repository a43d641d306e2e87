use vstd::prelude::*;

use crate::error::GenError;
use crate::types::{classify, classify_spec, text_eq, CanonicalType, TypeExpr};

verus! {

/// An attribute of an item: its path and, when it is a list such as
/// `#[repr(C, u8)]`, the entries of the list as written.
#[derive(Debug)]
pub struct Attribute {
    pub path: String,
    pub entries: Option<Vec<String>>,
}

/// A field of a struct or union; tuple fields have no name.
#[derive(Debug)]
pub struct FieldDef {
    pub name: Option<String>,
    pub ty: TypeExpr,
}

/// A variant of an enum, with its explicit discriminant as written, if any.
#[derive(Debug)]
pub struct VariantDef {
    pub name: String,
    pub discriminant: Option<String>,
}

/// A parameter of a function: a receiver (`self`, `&self`, ...) or a typed binding.
#[derive(Debug)]
pub enum FnInput {
    Receiver,
    Typed { name: String, ty: TypeExpr },
}

/// A top-level item of a parsed source unit.
#[derive(Debug)]
pub enum SourceItem {
    Struct { public: bool, attrs: Vec<Attribute>, name: String, fields: Vec<FieldDef> },
    Enum { public: bool, attrs: Vec<Attribute>, name: String, variants: Vec<VariantDef> },
    Union { public: bool, attrs: Vec<Attribute>, name: String, fields: Vec<FieldDef> },
    Const { public: bool, name: String, ty: TypeExpr, value: String },
    Fn { public: bool, name: String, inputs: Vec<FnInput>, output: Option<TypeExpr> },
    /// Any other kind of item.
    Other,
}

/// An extracted struct: its fields in layout order.
#[derive(Debug)]
pub struct Struct {
    pub name: String,
    pub fields: Vec<(String, CanonicalType)>,
}

/// An extracted enum: its underlying type and its variants with their discriminants.
#[derive(Debug)]
pub struct Enum {
    pub name: String,
    pub ty: CanonicalType,
    pub variants: Vec<(String, String)>,
}

/// An extracted union.
#[derive(Debug)]
pub struct Union {
    pub name: String,
    pub fields: Vec<(String, CanonicalType)>,
}

/// A parameter of an extracted function.
#[derive(Debug)]
pub struct Arg {
    pub name: String,
    pub ty: CanonicalType,
}

/// An extracted function.
#[derive(Debug)]
pub struct Function {
    pub name: String,
    pub return_ty: CanonicalType,
    pub args: Vec<Arg>,
}

/// An extracted constant; its value is carried as source text.
#[derive(Debug)]
pub struct Const {
    pub name: String,
    pub ty: CanonicalType,
    pub value: String,
}

/// Two structs with the same name and the same fields.
pub open spec fn same_struct(a: Struct, b: Struct) -> bool {
    a.name == b.name && a.fields@ == b.fields@
}

impl Struct {
    /// A copy of the struct.
    pub fn duplicate(&self) -> (r: Struct)
        ensures
            same_struct(r, *self),
    {
        let mut fields: Vec<(String, CanonicalType)> = Vec::new();
        let mut i: usize = 0;
        while i < self.fields.len()
            invariant
                0 <= i <= self.fields@.len(),
                fields@ =~= self.fields@.subrange(0, i as int),
            decreases self.fields@.len() - i,
        {
            let f = &self.fields[i];
            fields.push((f.0.clone(), f.1.duplicate()));
            i += 1;
        }
        assert(fields@ =~= self.fields@);
        Struct { name: self.name.clone(), fields }
    }
}

// ---------------------------------------------------------------------------
// The eligibility predicate
pub open spec fn is_public_spec(item: SourceItem) -> bool {
    match item {
        SourceItem::Struct { public, .. } => public,
        SourceItem::Enum { public, .. } => public,
        SourceItem::Union { public, .. } => public,
        SourceItem::Const { public, .. } => public,
        SourceItem::Fn { public, .. } => public,
        SourceItem::Other => false,
    }
}

/// `#[repr(..)]` listing only `C` and `u8`.
pub open spec fn is_fixed_layout_attr(a: Attribute) -> bool {
    &&& a.path@ == "repr"@
    &&& a.entries is Some
    &&& all_fixed_layout_entries(a.entries->0@)
}

pub open spec fn all_fixed_layout_entries(es: Seq<String>) -> bool {
    forall|j: int| 0 <= j < es.len() ==> (#[trigger] es[j])@ == "C"@ || es[j]@ == "u8"@
}

pub open spec fn has_fixed_layout(attrs: Seq<Attribute>) -> bool {
    exists|i: int| 0 <= i < attrs.len() && is_fixed_layout_attr(#[trigger] attrs[i])
}

pub open spec fn is_numeric_name(s: Seq<char>) -> bool {
    s == "i8"@ || s == "i16"@ || s == "i32"@ || s == "i64"@ || s == "u8"@ || s == "u16"@ || s
        == "u32"@ || s == "u64"@ || s == "f32"@ || s == "f64"@
}

pub open spec fn is_ffi_safe_spec(item: SourceItem) -> bool {
    match item {
        SourceItem::Struct { attrs, .. } => has_fixed_layout(attrs@),
        SourceItem::Enum { attrs, .. } => has_fixed_layout(attrs@),
        SourceItem::Union { attrs, .. } => has_fixed_layout(attrs@),
        SourceItem::Const { ty, .. } => ty matches TypeExpr::Ident(s) && is_numeric_name(s@),
        SourceItem::Fn { .. } => true,
        SourceItem::Other => false,
    }
}

/// Whether the item is exported at the crate's public level.
pub fn is_public_item(item: &SourceItem) -> (r: bool)
    ensures
        r == is_public_spec(*item),
{
    match item {
        SourceItem::Struct { public, .. } => *public,
        SourceItem::Enum { public, .. } => *public,
        SourceItem::Union { public, .. } => *public,
        SourceItem::Const { public, .. } => *public,
        SourceItem::Fn { public, .. } => *public,
        SourceItem::Other => false,
    }
}

fn fixed_layout_attr(a: &Attribute) -> (r: bool)
    ensures
        r == is_fixed_layout_attr(*a),
{
    if !text_eq(a.path.as_str(), "repr") {
        return false;
    }
    match a.entries {
        None => false,
        Some(ref es) => {
            let mut j: usize = 0;
            while j < es.len()
                invariant
                    0 <= j <= es@.len(),
                    a.path@ == "repr"@,
                    a.entries == Some(*es),
                    forall|k: int| 0 <= k < j ==> (#[trigger] es@[k])@ == "C"@ || es@[k]@ == "u8"@,
                decreases es@.len() - j,
            {
                if !(text_eq(es[j].as_str(), "C") || text_eq(es[j].as_str(), "u8")) {
                    assert(!((es@[j as int])@ == "C"@ || es@[j as int]@ == "u8"@));
                    return false;
                }
                j += 1;
            }
            true
        },
    }
}

fn fixed_layout(attrs: &Vec<Attribute>) -> (r: bool)
    ensures
        r == has_fixed_layout(attrs@),
{
    let mut i: usize = 0;
    while i < attrs.len()
        invariant
            0 <= i <= attrs@.len(),
            forall|k: int| 0 <= k < i ==> !is_fixed_layout_attr(#[trigger] attrs@[k]),
        decreases attrs@.len() - i,
    {
        if fixed_layout_attr(&attrs[i]) {
            return true;
        }
        i += 1;
    }
    false
}

fn numeric_name(s: &str) -> (r: bool)
    ensures
        r == is_numeric_name(s@),
{
    text_eq(s, "i8") || text_eq(s, "i16") || text_eq(s, "i32") || text_eq(s, "i64") || text_eq(
        s,
        "u8",
    ) || text_eq(s, "u16") || text_eq(s, "u32") || text_eq(s, "u64") || text_eq(s, "f32")
        || text_eq(s, "f64")
}

/// Whether the item has a fixed, foreign-call-safe layout: a `repr` of `C`
/// or `u8` for structs, enums and unions, a fixed-width numeric type for
/// constants; functions always qualify.
pub fn is_ffi_safe_item(item: &SourceItem) -> (r: bool)
    ensures
        r == is_ffi_safe_spec(*item),
{
    match item {
        SourceItem::Struct { attrs, .. } => fixed_layout(attrs),
        SourceItem::Enum { attrs, .. } => fixed_layout(attrs),
        SourceItem::Union { attrs, .. } => fixed_layout(attrs),
        SourceItem::Const { ty, .. } => match ty {
            TypeExpr::Ident(s) => numeric_name(s.as_str()),
            _ => false,
        },
        SourceItem::Fn { .. } => true,
        SourceItem::Other => false,
    }
}

// ---------------------------------------------------------------------------
// What each kind of declaration is extracted into
pub open spec fn field_name_spec(f: FieldDef) -> Seq<char> {
    if f.name is Some {
        f.name->0@
    } else {
        "value"@
    }
}

pub open spec fn fields_supported(fs: Seq<FieldDef>) -> bool {
    forall|i: int| 0 <= i < fs.len() ==> classify_spec((#[trigger] fs[i]).ty) is Some
}

/// The extracted fields keep the source order, each name and the
/// classification of each type.
pub open spec fn fields_match(fs: Seq<FieldDef>, out: Seq<(String, CanonicalType)>) -> bool {
    &&& out.len() == fs.len()
    &&& forall|i: int|
        0 <= i < fs.len() ==> (#[trigger] out[i]).0@ == field_name_spec(fs[i])
            && classify_spec(fs[i].ty) == Some(out[i].1)
}

/// The first `repr` attribute that is a list.
pub open spec fn first_repr(attrs: Seq<Attribute>) -> Option<Attribute>
    decreases attrs.len(),
{
    if attrs.len() == 0 {
        None
    } else if attrs[0].path@ == "repr"@ && attrs[0].entries is Some {
        Some(attrs[0])
    } else {
        first_repr(attrs.subrange(1, attrs.len() as int))
    }
}

pub open spec fn is_int_name(s: Seq<char>) -> bool {
    s == "i8"@ || s == "i16"@ || s == "i32"@ || s == "i64"@ || s == "u8"@ || s == "u16"@ || s
        == "u32"@ || s == "u64"@
}

/// The first entry of a `repr` list that names an integer width.
pub open spec fn width_entry(es: Seq<String>) -> Option<String>
    decreases es.len(),
{
    if es.len() == 0 {
        None
    } else if is_int_name(es[0]@) {
        Some(es[0])
    } else {
        width_entry(es.subrange(1, es.len() as int))
    }
}

/// The underlying type an enum declares, from its first `repr` list: the
/// integer width it names (`#[repr(C, u8)]` gives `u8`), or else its single
/// entry.
pub open spec fn enum_repr(attrs: Seq<Attribute>) -> Option<String> {
    if first_repr(attrs) is Some {
        let es = first_repr(attrs)->0.entries->0@;
        if width_entry(es) is Some {
            width_entry(es)
        } else if es.len() == 1 {
            Some(es[0])
        } else {
            None
        }
    } else {
        None
    }
}

pub open spec fn variants_explicit(vs: Seq<VariantDef>) -> bool {
    forall|i: int| 0 <= i < vs.len() ==> (#[trigger] vs[i]).discriminant is Some
}

pub open spec fn variants_match(vs: Seq<VariantDef>, out: Seq<(String, String)>) -> bool {
    &&& out.len() == vs.len()
    &&& forall|i: int|
        0 <= i < vs.len() ==> (#[trigger] out[i]).0 == vs[i].name && vs[i].discriminant == Some(
            out[i].1,
        )
}

pub open spec fn has_receiver(inputs: Seq<FnInput>) -> bool {
    exists|i: int| 0 <= i < inputs.len() && (#[trigger] inputs[i]) is Receiver
}

pub open spec fn args_supported(inputs: Seq<FnInput>) -> bool {
    forall|i: int| 0 <= i < inputs.len() ==> classify_spec((#[trigger] inputs[i])->ty) is Some
}

pub open spec fn args_match(inputs: Seq<FnInput>, out: Seq<Arg>) -> bool {
    &&& out.len() == inputs.len()
    &&& forall|i: int|
        0 <= i < inputs.len() ==> (#[trigger] out[i]).name == inputs[i]->name && classify_spec(
            inputs[i]->ty,
        ) == Some(out[i].ty)
}

/// A missing return type is `Void`.
pub open spec fn return_spec(output: Option<TypeExpr>) -> Option<CanonicalType> {
    if output is Some {
        classify_spec(output->0)
    } else {
        Some(CanonicalType::Void)
    }
}

/// A declaration that is dropped as malformed: an enum without a single
/// underlying type or with an implicit discriminant, or a function with a
/// receiver. Other kinds of item yield no declaration either.
pub open spec fn item_dropped(item: SourceItem) -> bool {
    match item {
        SourceItem::Enum { attrs, variants, .. } => !(enum_repr(attrs@) is Some && variants_explicit(
            variants@,
        )),
        SourceItem::Fn { inputs, .. } => has_receiver(inputs@),
        SourceItem::Other => true,
        _ => false,
    }
}

/// A declaration with a type outside the canonical model.
pub open spec fn item_unsupported(item: SourceItem) -> bool {
    match item {
        SourceItem::Struct { fields, .. } => !fields_supported(fields@),
        SourceItem::Union { fields, .. } => !fields_supported(fields@),
        SourceItem::Enum { attrs, variants, .. } => enum_repr(attrs@) is Some && variants_explicit(
            variants@,
        ) && classify_spec(TypeExpr::Ident(enum_repr(attrs@)->0)) is None,
        SourceItem::Fn { inputs, output, .. } => !has_receiver(inputs@) && (!args_supported(
            inputs@,
        ) || return_spec(output) is None),
        SourceItem::Const { ty, .. } => classify_spec(ty) is None,
        SourceItem::Other => false,
    }
}

pub open spec fn struct_decl_of(item: SourceItem, s: Struct) -> bool {
    &&& item matches SourceItem::Struct { name, fields, .. }
    &&& s.name == name
    &&& fields_match(fields@, s.fields@)
}

pub open spec fn union_decl_of(item: SourceItem, u: Union) -> bool {
    &&& item matches SourceItem::Union { name, fields, .. }
    &&& u.name == name
    &&& fields_match(fields@, u.fields@)
}

pub open spec fn enum_decl_of(item: SourceItem, e: Enum) -> bool {
    &&& item matches SourceItem::Enum { name, attrs, variants, .. }
    &&& e.name == name
    &&& enum_repr(attrs@) is Some
    &&& classify_spec(TypeExpr::Ident(enum_repr(attrs@)->0)) == Some(e.ty)
    &&& variants_match(variants@, e.variants@)
}

pub open spec fn function_decl_of(item: SourceItem, f: Function) -> bool {
    &&& item matches SourceItem::Fn { name, inputs, output, .. }
    &&& f.name == name
    &&& return_spec(output) == Some(f.return_ty)
    &&& args_match(inputs@, f.args@)
}

pub open spec fn const_decl_of(item: SourceItem, c: Const) -> bool {
    &&& item matches SourceItem::Const { name, ty, value, .. }
    &&& c.name == name
    &&& classify_spec(ty) == Some(c.ty)
    &&& c.value == value
}

/// What parsing one item as a given kind returns: an error exactly when a
/// type is unsupported, nothing when the item is of another kind or dropped,
/// and otherwise the declaration that `decl_of` relates to the item.
pub open spec fn parse_result<T>(
    item: SourceItem,
    of_kind: bool,
    r: Result<Option<T>, GenError>,
    decl_of: spec_fn(SourceItem, T) -> bool,
) -> bool {
    if !of_kind || item_dropped(item) {
        r matches Ok(None)
    } else if item_unsupported(item) {
        r matches Err(e) && e is UnsupportedType
    } else {
        r matches Ok(Some(d)) && decl_of(item, d)
    }
}

fn field_name(f: &FieldDef) -> (r: String)
    ensures
        r@ == field_name_spec(*f),
{
    match &f.name {
        Some(n) => n.clone(),
        None => String::from_str("value"),
    }
}

fn classify_fields(fs: &Vec<FieldDef>) -> (r: Result<Vec<(String, CanonicalType)>, GenError>)
    ensures
        match r {
            Ok(out) => fields_supported(fs@) && fields_match(fs@, out@),
            Err(e) => !fields_supported(fs@) && e is UnsupportedType,
        },
{
    let mut out: Vec<(String, CanonicalType)> = Vec::new();
    let mut i: usize = 0;
    while i < fs.len()
        invariant
            0 <= i <= fs@.len(),
            out@.len() == i,
            forall|j: int| 0 <= j < i ==> classify_spec((#[trigger] fs@[j]).ty) is Some,
            forall|j: int|
                0 <= j < i ==> (#[trigger] out@[j]).0@ == field_name_spec(fs@[j]) && classify_spec(
                    fs@[j].ty,
                ) == Some(out@[j].1),
        decreases fs@.len() - i,
    {
        let name = field_name(&fs[i]);
        match classify(&fs[i].ty) {
            Ok(c) => out.push((name, c)),
            Err(e) => return Err(e),
        }
        i += 1;
    }
    Ok(out)
}

/// Extracts a struct item with its fields classified, in source order.
pub fn parse_struct(item: &SourceItem) -> (r: Result<Option<Struct>, GenError>)
    ensures
        parse_result(*item, item is Struct, r, |i: SourceItem, s: Struct| struct_decl_of(i, s)),
{
    match item {
        SourceItem::Struct { name, fields, .. } => match classify_fields(fields) {
            Ok(fields) => Ok(Some(Struct { name: name.clone(), fields })),
            Err(e) => Err(e),
        },
        _ => Ok(None),
    }
}

/// Extracts a union item with its fields classified, in source order.
pub fn parse_union(item: &SourceItem) -> (r: Result<Option<Union>, GenError>)
    ensures
        parse_result(*item, item is Union, r, |i: SourceItem, u: Union| union_decl_of(i, u)),
{
    match item {
        SourceItem::Union { name, fields, .. } => match classify_fields(fields) {
            Ok(fields) => Ok(Some(Union { name: name.clone(), fields })),
            Err(e) => Err(e),
        },
        _ => Ok(None),
    }
}

fn int_name(s: &str) -> (r: bool)
    ensures
        r == is_int_name(s@),
{
    text_eq(s, "i8") || text_eq(s, "i16") || text_eq(s, "i32") || text_eq(s, "i64") || text_eq(
        s,
        "u8",
    ) || text_eq(s, "u16") || text_eq(s, "u32") || text_eq(s, "u64")
}

fn width_entry_of(es: &Vec<String>) -> (r: Option<String>)
    ensures
        r == width_entry(es@),
{
    let mut j: usize = 0;
    assert(es@.subrange(0, es@.len() as int) =~= es@);
    while j < es.len()
        invariant
            0 <= j <= es@.len(),
            width_entry(es@) == width_entry(es@.subrange(j as int, es@.len() as int)),
        decreases es@.len() - j,
    {
        if int_name(es[j].as_str()) {
            return Some(es[j].clone());
        }
        assert(es@.subrange(j as int, es@.len() as int).subrange(1, es@.len() - j) =~= es@.subrange(
            j + 1,
            es@.len() as int,
        ));
        j += 1;
    }
    None
}

fn enum_repr_of(attrs: &Vec<Attribute>) -> (r: Option<String>)
    ensures
        r == enum_repr(attrs@),
{
    let mut i: usize = 0;
    assert(attrs@.subrange(0, attrs@.len() as int) =~= attrs@);
    while i < attrs.len()
        invariant
            0 <= i <= attrs@.len(),
            first_repr(attrs@) == first_repr(attrs@.subrange(i as int, attrs@.len() as int)),
        decreases attrs@.len() - i,
    {
        let a = &attrs[i];
        if text_eq(a.path.as_str(), "repr") {
            if let Some(es) = &a.entries {
                assert(first_repr(attrs@) == Some(*a));
                let width = width_entry_of(es);
                if width.is_some() {
                    return width;
                } else if es.len() == 1 {
                    return Some(es[0].clone());
                } else {
                    return None;
                }
            }
        }
        assert(attrs@.subrange(i as int, attrs@.len() as int).subrange(1, attrs@.len() - i)
            =~= attrs@.subrange(i + 1, attrs@.len() as int));
        i += 1;
    }
    None
}

fn explicit_variants(vs: &Vec<VariantDef>) -> (r: Option<Vec<(String, String)>>)
    ensures
        match r {
            Some(out) => variants_explicit(vs@) && variants_match(vs@, out@),
            None => !variants_explicit(vs@),
        },
{
    let mut out: Vec<(String, String)> = Vec::new();
    let mut i: usize = 0;
    while i < vs.len()
        invariant
            0 <= i <= vs@.len(),
            out@.len() == i,
            forall|j: int| 0 <= j < i ==> (#[trigger] vs@[j]).discriminant is Some,
            forall|j: int|
                0 <= j < i ==> (#[trigger] out@[j]).0 == vs@[j].name && vs@[j].discriminant
                    == Some(out@[j].1),
        decreases vs@.len() - i,
    {
        match &vs[i].discriminant {
            Some(d) => out.push((vs[i].name.clone(), d.clone())),
            None => return None,
        }
        i += 1;
    }
    Some(out)
}

/// Extracts an enum item. An enum whose first `repr` list does not name a
/// single type, or with any variant lacking an explicit discriminant, is
/// dropped whole.
pub fn parse_enum(item: &SourceItem) -> (r: Result<Option<Enum>, GenError>)
    ensures
        parse_result(*item, item is Enum, r, |i: SourceItem, e: Enum| enum_decl_of(i, e)),
{
    match item {
        SourceItem::Enum { name, attrs, variants, .. } => {
            let repr = match enum_repr_of(attrs) {
                Some(t) => t,
                None => return Ok(None),
            };
            let variants = match explicit_variants(variants) {
                Some(v) => v,
                None => return Ok(None),
            };
            match classify(&TypeExpr::Ident(repr)) {
                Ok(ty) => Ok(Some(Enum { name: name.clone(), ty, variants })),
                Err(e) => Err(e),
            }
        },
        _ => Ok(None),
    }
}

fn receiver_free(inputs: &Vec<FnInput>) -> (r: bool)
    ensures
        r == !has_receiver(inputs@),
{
    let mut i: usize = 0;
    while i < inputs.len()
        invariant
            0 <= i <= inputs@.len(),
            forall|j: int| 0 <= j < i ==> !((#[trigger] inputs@[j]) is Receiver),
        decreases inputs@.len() - i,
    {
        if let FnInput::Receiver = &inputs[i] {
            return false;
        }
        i += 1;
    }
    true
}

fn classify_args(inputs: &Vec<FnInput>) -> (r: Result<Vec<Arg>, GenError>)
    requires
        !has_receiver(inputs@),
    ensures
        match r {
            Ok(out) => args_supported(inputs@) && args_match(inputs@, out@),
            Err(e) => !args_supported(inputs@) && e is UnsupportedType,
        },
{
    let mut out: Vec<Arg> = Vec::new();
    let mut i: usize = 0;
    while i < inputs.len()
        invariant
            0 <= i <= inputs@.len(),
            !has_receiver(inputs@),
            out@.len() == i,
            forall|j: int| 0 <= j < i ==> classify_spec((#[trigger] inputs@[j])->ty) is Some,
            forall|j: int|
                0 <= j < i ==> (#[trigger] out@[j]).name == inputs@[j]->name && classify_spec(
                    inputs@[j]->ty,
                ) == Some(out@[j].ty),
        decreases inputs@.len() - i,
    {
        match &inputs[i] {
            FnInput::Typed { name, ty } => match classify(ty) {
                Ok(c) => out.push(Arg { name: name.clone(), ty: c }),
                Err(e) => return Err(e),
            },
            FnInput::Receiver => {
                assert(inputs@[i as int] is Receiver);
                return Err(GenError::UnsupportedType);
            },
        }
        i += 1;
    }
    Ok(out)
}

/// Extracts a function item. A function taking a receiver is dropped whole.
pub fn parse_function(item: &SourceItem) -> (r: Result<Option<Function>, GenError>)
    ensures
        parse_result(*item, item is Fn, r, |i: SourceItem, f: Function| function_decl_of(i, f)),
{
    match item {
        SourceItem::Fn { name, inputs, output, .. } => {
            if !receiver_free(inputs) {
                return Ok(None);
            }
            let args = match classify_args(inputs) {
                Ok(a) => a,
                Err(e) => return Err(e),
            };
            let return_ty = match output {
                Some(t) => match classify(t) {
                    Ok(c) => c,
                    Err(e) => return Err(e),
                },
                None => CanonicalType::Void,
            };
            Ok(Some(Function { name: name.clone(), return_ty, args }))
        },
        _ => Ok(None),
    }
}

/// Extracts a constant item, keeping its value as source text.
pub fn parse_const(item: &SourceItem) -> (r: Result<Option<Const>, GenError>)
    ensures
        parse_result(*item, item is Const, r, |i: SourceItem, c: Const| const_decl_of(i, c)),
{
    match item {
        SourceItem::Const { name, ty, value, .. } => match classify(ty) {
            Ok(c) => Ok(Some(Const { name: name.clone(), ty: c, value: value.clone() })),
            Err(e) => Err(e),
        },
        _ => Ok(None),
    }
}

} // verus!
