use vstd::prelude::*;

use crate::error::GenError;

verus! {

/// A type expression as written in a source unit, reduced to the shapes
/// that matter for foreign-call bindings.
#[derive(Debug)]
pub enum TypeExpr {
    /// `(T)`
    Paren(Box<TypeExpr>),
    /// `[T; N]`, with the length as written.
    Array(Box<TypeExpr>, String),
    /// `*const T` or `*mut T`
    Ptr(Box<TypeExpr>),
    /// A path that is a single identifier, as the identifier (`u8`, `Größe`;
    /// a raw identifier without its `r#`).
    Ident(String),
    /// Any other path without a qualified self type, as its token text
    /// (`libc :: c_void`, `Vec < u8 >`).
    Path(String),
    /// Any other shape (references, tuples, function pointers, trait objects,
    /// qualified paths), as its token text.
    Other(String),
}

#[derive(PartialEq, Eq, Structural, Clone, Copy, Debug)]
pub enum IntWidth {
    W8,
    W16,
    W32,
    W64,
}

#[derive(PartialEq, Eq, Structural, Clone, Copy, Debug)]
pub enum FloatWidth {
    F32,
    F64,
}

/// The closed cross-language type model every field, parameter and return
/// type is classified into.
#[derive(Debug, PartialEq, Eq)]
pub enum CanonicalType {
    Int { width: IntWidth, signed: bool },
    Float { precision: FloatWidth },
    Bool,
    /// A single-byte character.
    Char,
    /// An untyped pointer.
    VoidPointer,
    /// A struct, enum, union or typedef referred to by name.
    Named(String),
    /// A fixed-size array, with its length as written.
    Array(Box<CanonicalType>, String),
    /// A pointer of depth 1 or 2 to the given type. `Pointer(Char, 1)` is a C string.
    Pointer(Box<CanonicalType>, u8),
    /// No value.
    Void,
}

/// Pointer depths stay within 1 and 2, at every level of the type.
pub open spec fn well_formed(t: CanonicalType) -> bool
    decreases t,
{
    match t {
        CanonicalType::Array(e, _) => well_formed(*e),
        CanonicalType::Pointer(e, d) => (d == 1 || d == 2) && well_formed(*e),
        _ => true,
    }
}

/// The fixed table of primitive type names.
pub open spec fn primitive_of(s: Seq<char>) -> Option<CanonicalType> {
    if s == "bool"@ {
        Some(CanonicalType::Bool)
    } else if s == "char"@ || s == "c_char"@ {
        Some(CanonicalType::Char)
    } else if s == "f32"@ {
        Some(CanonicalType::Float { precision: FloatWidth::F32 })
    } else if s == "f64"@ {
        Some(CanonicalType::Float { precision: FloatWidth::F64 })
    } else if s == "i8"@ {
        Some(CanonicalType::Int { width: IntWidth::W8, signed: true })
    } else if s == "i16"@ {
        Some(CanonicalType::Int { width: IntWidth::W16, signed: true })
    } else if s == "i32"@ {
        Some(CanonicalType::Int { width: IntWidth::W32, signed: true })
    } else if s == "i64"@ {
        Some(CanonicalType::Int { width: IntWidth::W64, signed: true })
    } else if s == "u8"@ || s == "NonZeroU8"@ {
        Some(CanonicalType::Int { width: IntWidth::W8, signed: false })
    } else if s == "u16"@ || s == "NonZeroU16"@ {
        Some(CanonicalType::Int { width: IntWidth::W16, signed: false })
    } else if s == "u32"@ || s == "NonZeroU32"@ {
        Some(CanonicalType::Int { width: IntWidth::W32, signed: false })
    } else if s == "u64"@ || s == "NonZeroU64"@ {
        Some(CanonicalType::Int { width: IntWidth::W64, signed: false })
    } else if s == "libc :: c_void"@ {
        Some(CanonicalType::Void)
    } else if s == "ConstPtr"@ {
        Some(CanonicalType::VoidPointer)
    } else {
        None
    }
}

/// Classification of a bare identifier: a primitive, or else a named type
/// unless it is one of the pointer-sized integers.
pub open spec fn classify_ident(s: String) -> Option<CanonicalType> {
    match primitive_of(s@) {
        Some(p) => Some(p),
        None => if s@ == "isize"@ || s@ == "usize"@ {
            None
        } else {
            Some(CanonicalType::Named(s))
        },
    }
}

/// Whether the expression is a pointer, under any parentheses.
pub open spec fn is_pointer_syntax(t: TypeExpr) -> bool
    decreases t,
{
    match t {
        TypeExpr::Paren(e) => is_pointer_syntax(*e),
        TypeExpr::Ptr(_) => true,
        _ => false,
    }
}

/// A single indirection to an already classified pointee.
pub open spec fn point_to(c: CanonicalType) -> CanonicalType {
    match c {
        CanonicalType::Void => CanonicalType::VoidPointer,
        _ => CanonicalType::Pointer(Box::new(c), 1),
    }
}

/// A second indirection over a classified single pointer; a third is refused.
pub open spec fn deepen(c: CanonicalType) -> Option<CanonicalType> {
    match c {
        CanonicalType::VoidPointer => Some(CanonicalType::Pointer(Box::new(CanonicalType::Void), 2)),
        CanonicalType::Pointer(e, d) => if d == 1 {
            Some(CanonicalType::Pointer(e, 2))
        } else {
            None
        },
        _ => None,
    }
}

/// The classification rules, first match wins; `None` is an unsupported type.
pub open spec fn classify_spec(t: TypeExpr) -> Option<CanonicalType>
    decreases t,
{
    match t {
        TypeExpr::Paren(e) => classify_spec(*e),
        TypeExpr::Array(e, len) => match classify_spec(*e) {
            Some(c) => Some(CanonicalType::Array(Box::new(c), len)),
            None => None,
        },
        TypeExpr::Ptr(e) => match classify_spec(*e) {
            Some(c) => if is_pointer_syntax(*e) {
                deepen(c)
            } else {
                Some(point_to(c))
            },
            None => None,
        },
        TypeExpr::Ident(s) => classify_ident(s),
        TypeExpr::Path(s) => primitive_of(s@),
        TypeExpr::Other(_) => None,
    }
}

/// Character-wise equality of two texts.
pub fn text_eq(a: &str, b: &str) -> (r: bool)
    ensures
        r == (a@ == b@),
{
    let n = a.unicode_len();
    if n != b.unicode_len() {
        return false;
    }
    let mut i: usize = 0;
    while i < n
        invariant
            n == a@.len(),
            n == b@.len(),
            0 <= i <= n,
            forall|j: int| 0 <= j < i ==> a@[j] == b@[j],
        decreases n - i,
    {
        if a.get_char(i) != b.get_char(i) {
            return false;
        }
        i += 1;
    }
    assert(a@ =~= b@);
    true
}

/// Looks a name up in the table of primitive type names.
pub fn primitive(s: &str) -> (r: Option<CanonicalType>)
    ensures
        r == primitive_of(s@),
{
    if text_eq(s, "bool") {
        Some(CanonicalType::Bool)
    } else if text_eq(s, "char") || text_eq(s, "c_char") {
        Some(CanonicalType::Char)
    } else if text_eq(s, "f32") {
        Some(CanonicalType::Float { precision: FloatWidth::F32 })
    } else if text_eq(s, "f64") {
        Some(CanonicalType::Float { precision: FloatWidth::F64 })
    } else if text_eq(s, "i8") {
        Some(CanonicalType::Int { width: IntWidth::W8, signed: true })
    } else if text_eq(s, "i16") {
        Some(CanonicalType::Int { width: IntWidth::W16, signed: true })
    } else if text_eq(s, "i32") {
        Some(CanonicalType::Int { width: IntWidth::W32, signed: true })
    } else if text_eq(s, "i64") {
        Some(CanonicalType::Int { width: IntWidth::W64, signed: true })
    } else if text_eq(s, "u8") || text_eq(s, "NonZeroU8") {
        Some(CanonicalType::Int { width: IntWidth::W8, signed: false })
    } else if text_eq(s, "u16") || text_eq(s, "NonZeroU16") {
        Some(CanonicalType::Int { width: IntWidth::W16, signed: false })
    } else if text_eq(s, "u32") || text_eq(s, "NonZeroU32") {
        Some(CanonicalType::Int { width: IntWidth::W32, signed: false })
    } else if text_eq(s, "u64") || text_eq(s, "NonZeroU64") {
        Some(CanonicalType::Int { width: IntWidth::W64, signed: false })
    } else if text_eq(s, "libc :: c_void") {
        Some(CanonicalType::Void)
    } else if text_eq(s, "ConstPtr") {
        Some(CanonicalType::VoidPointer)
    } else {
        None
    }
}

fn pointer_syntax(t: &TypeExpr) -> (r: bool)
    ensures
        r == is_pointer_syntax(*t),
    decreases t,
{
    match t {
        TypeExpr::Paren(e) => pointer_syntax(e),
        TypeExpr::Ptr(_) => true,
        _ => false,
    }
}

fn deepen_pointer(c: CanonicalType) -> (r: Result<CanonicalType, GenError>)
    ensures
        match r {
            Ok(d) => deepen(c) == Some(d),
            Err(e) => deepen(c).is_none() && e is UnsupportedType,
        },
{
    match c {
        CanonicalType::VoidPointer => Ok(CanonicalType::Pointer(Box::new(CanonicalType::Void), 2)),
        CanonicalType::Pointer(e, d) => if d == 1 {
            Ok(CanonicalType::Pointer(e, 2))
        } else {
            Err(GenError::UnsupportedType)
        },
        _ => Err(GenError::UnsupportedType),
    }
}

fn pointer_to(c: CanonicalType) -> (r: CanonicalType)
    ensures
        r == point_to(c),
{
    match c {
        CanonicalType::Void => CanonicalType::VoidPointer,
        _ => CanonicalType::Pointer(Box::new(c), 1),
    }
}

impl CanonicalType {
    /// A copy of the type.
    pub fn duplicate(&self) -> (r: Self)
        ensures
            r == *self,
        decreases self,
    {
        match self {
            CanonicalType::Int { width, signed } => CanonicalType::Int { width: *width, signed: *signed },
            CanonicalType::Float { precision } => CanonicalType::Float { precision: *precision },
            CanonicalType::Bool => CanonicalType::Bool,
            CanonicalType::Char => CanonicalType::Char,
            CanonicalType::VoidPointer => CanonicalType::VoidPointer,
            CanonicalType::Named(n) => CanonicalType::Named(n.clone()),
            CanonicalType::Array(e, len) => CanonicalType::Array(Box::new((**e).duplicate()), len.clone()),
            CanonicalType::Pointer(e, d) => CanonicalType::Pointer(Box::new((**e).duplicate()), *d),
            CanonicalType::Void => CanonicalType::Void,
        }
    }
}

/// Classifies a source type expression into the canonical model, or fails
/// with `UnsupportedType`.
pub fn classify(t: &TypeExpr) -> (r: Result<CanonicalType, GenError>)
    ensures
        match r {
            Ok(c) => classify_spec(*t) == Some(c) && well_formed(c),
            Err(e) => classify_spec(*t).is_none() && e is UnsupportedType,
        },
    decreases t,
{
    proof {
        lemma_classified_well_formed(*t);
    }
    match t {
        TypeExpr::Paren(e) => classify(e),
        TypeExpr::Array(e, len) => match classify(e) {
            Ok(c) => Ok(CanonicalType::Array(Box::new(c), len.clone())),
            Err(x) => Err(x),
        },
        TypeExpr::Ptr(e) => match classify(e) {
            Ok(c) => if pointer_syntax(e) {
                deepen_pointer(c)
            } else {
                Ok(pointer_to(c))
            },
            Err(x) => Err(x),
        },
        TypeExpr::Ident(s) => match primitive(s.as_str()) {
            Some(p) => Ok(p),
            None => if text_eq(s.as_str(), "isize") || text_eq(s.as_str(), "usize") {
                Err(GenError::UnsupportedType)
            } else {
                Ok(CanonicalType::Named(s.clone()))
            },
        },
        TypeExpr::Path(s) => match primitive(s.as_str()) {
            Some(p) => Ok(p),
            None => Err(GenError::UnsupportedType),
        },
        TypeExpr::Other(_) => Err(GenError::UnsupportedType),
    }
}

/// Classifying a pointer, under any parentheses, gives a pointer of depth 1 or 2.
proof fn lemma_pointer_shape(e: TypeExpr)
    requires
        is_pointer_syntax(e),
    ensures
        match classify_spec(e) {
            Some(CanonicalType::VoidPointer) => true,
            Some(CanonicalType::Pointer(_, d)) => d == 1 || d == 2,
            Some(_) => false,
            None => true,
        },
    decreases e,
{
    match e {
        TypeExpr::Paren(inner) => lemma_pointer_shape(*inner),
        _ => {},
    }
}

/// Every successful classification is well formed: no pointer is deeper than 2.
pub proof fn lemma_classified_well_formed(t: TypeExpr)
    ensures
        match classify_spec(t) {
            Some(c) => well_formed(c),
            None => true,
        },
    decreases t,
{
    match t {
        TypeExpr::Paren(e) => {
            lemma_classified_well_formed(*e);
        },
        TypeExpr::Array(e, _) => lemma_classified_well_formed(*e),
        TypeExpr::Ptr(e) => {
            lemma_classified_well_formed(*e);
            if is_pointer_syntax(*e) {
                lemma_pointer_shape(*e);
            }
            if let Some(CanonicalType::Pointer(x, _)) = classify_spec(*e) {
                assert(well_formed(*x));
            }
            assert(well_formed(CanonicalType::Void));
        },
        _ => {},
    }
}

/// Three levels of indirection are never classified, whatever the pointee.
pub proof fn lemma_triple_pointer_unsupported(t: TypeExpr)
    ensures
        classify_spec(TypeExpr::Ptr(Box::new(TypeExpr::Ptr(Box::new(TypeExpr::Ptr(Box::new(t)))))))
            is None,
{
    let two = TypeExpr::Ptr(Box::new(TypeExpr::Ptr(Box::new(t))));
    lemma_pointer_shape(TypeExpr::Ptr(Box::new(t)));
    assert(classify_spec(two) matches Some(c) ==> c matches CanonicalType::Pointer(_, 2));
}

} // verus!
