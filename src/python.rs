use convert_case::{Case, Casing};
use vstd::prelude::*;

use crate::parser::{field_name_spec, struct_decl_of, Arg, Const, Enum, FieldDef, Function, SourceItem, Struct, Union};
use crate::types::{classify_spec, text_eq, CanonicalType, FloatWidth, IntWidth};

verus! {

/// A type as the host language's foreign-call module spells it.
#[derive(Debug)]
pub struct CtypesType(pub String);

/// A type as a parameter annotation of a generated method.
#[derive(Debug)]
pub struct PythonType(pub String);

pub open spec fn int_ctype(width: IntWidth, signed: bool) -> Seq<char> {
    match width {
        IntWidth::W8 => if signed {
            "ctypes.c_int8"@
        } else {
            "ctypes.c_uint8"@
        },
        IntWidth::W16 => if signed {
            "ctypes.c_int16"@
        } else {
            "ctypes.c_uint16"@
        },
        IntWidth::W32 => if signed {
            "ctypes.c_int32"@
        } else {
            "ctypes.c_uint32"@
        },
        IntWidth::W64 => if signed {
            "ctypes.c_int64"@
        } else {
            "ctypes.c_uint64"@
        },
    }
}

/// The underlying type of the enum of that name; a later definition shadows
/// an earlier one.
pub open spec fn enum_underlying(enums: Seq<Enum>, n: Seq<char>) -> Option<CanonicalType>
    decreases enums.len(),
{
    if enums.len() == 0 {
        None
    } else if enums.last().name@ == n {
        Some(enums.last().ty)
    } else {
        enum_underlying(enums.drop_last(), n)
    }
}

/// The foreign-call spelling of a type. A name of one of the given enums
/// stands for the enum's underlying type.
pub open spec fn ctypes_text(t: CanonicalType, enums: Seq<Enum>) -> Seq<char>
    decreases enums.len(), t,
{
    match t {
        CanonicalType::Int { width, signed } => int_ctype(width, signed),
        CanonicalType::Float { precision } => match precision {
            FloatWidth::F32 => "ctypes.c_float"@,
            FloatWidth::F64 => "ctypes.c_double"@,
        },
        CanonicalType::Bool => "ctypes.c_bool"@,
        CanonicalType::Char => "ctypes.c_char"@,
        CanonicalType::VoidPointer => "ctypes.c_void_p"@,
        CanonicalType::Void => "None"@,
        CanonicalType::Named(n) => match enum_underlying(enums, n@) {
            Some(u) => ctypes_text(u, Seq::empty()),
            None => n@,
        },
        CanonicalType::Array(e, len) => ctypes_text(*e, enums) + " * "@ + len@,
        CanonicalType::Pointer(e, d) => if d == 1 {
            if *e is Char {
                "ctypes.c_char_p"@
            } else {
                "ctypes.POINTER("@ + ctypes_text(*e, enums) + ")"@
            }
        } else {
            if *e is Char {
                "ctypes.POINTER(ctypes.c_char_p)"@
            } else if *e is Void {
                "ctypes.POINTER(ctypes.c_void_p)"@
            } else {
                "ctypes.POINTER(ctypes.POINTER("@ + ctypes_text(*e, enums) + "))"@
            }
        },
    }
}

/// Two enum lists that agree on each name and underlying type.
pub open spec fn enums_agree(e1: Seq<Enum>, e2: Seq<Enum>) -> bool {
    &&& e1.len() == e2.len()
    &&& forall|i: int|
        0 <= i < e1.len() ==> (#[trigger] e1[i]).name@ == e2[i].name@ && e1[i].ty == e2[i].ty
}

proof fn lemma_enum_underlying_agree(e1: Seq<Enum>, e2: Seq<Enum>, n: Seq<char>)
    requires
        enums_agree(e1, e2),
    ensures
        enum_underlying(e1, n) == enum_underlying(e2, n),
    decreases e1.len(),
{
    if e1.len() > 0 {
        assert(enums_agree(e1.drop_last(), e2.drop_last()));
        lemma_enum_underlying_agree(e1.drop_last(), e2.drop_last(), n);
    }
}

/// The spelling of a type depends on the enums' names and underlying types alone.
pub proof fn lemma_ctypes_agree(t: CanonicalType, e1: Seq<Enum>, e2: Seq<Enum>)
    requires
        enums_agree(e1, e2),
    ensures
        ctypes_text(t, e1) == ctypes_text(t, e2),
    decreases t,
{
    match t {
        CanonicalType::Named(n) => lemma_enum_underlying_agree(e1, e2, n@),
        CanonicalType::Array(e, _) => lemma_ctypes_agree(*e, e1, e2),
        CanonicalType::Pointer(e, _) => lemma_ctypes_agree(*e, e1, e2),
        _ => {},
    }
}

pub proof fn lemma_field_items_agree(fs: Seq<(String, CanonicalType)>, e1: Seq<Enum>, e2: Seq<Enum>)
    requires
        enums_agree(e1, e2),
    ensures
        field_items(fs, e1) == field_items(fs, e2),
{
    assert forall|i: int| 0 <= i < fs.len() implies field_item(fs[i], e1) == field_item(fs[i], e2) by {
        lemma_ctypes_agree(fs[i].1, e1, e2);
    }
    assert(field_items(fs, e1) =~= field_items(fs, e2));
}

pub proof fn lemma_arg_items_agree(args: Seq<Arg>, e1: Seq<Enum>, e2: Seq<Enum>)
    requires
        enums_agree(e1, e2),
    ensures
        arg_ctypes_items(args, e1) == arg_ctypes_items(args, e2),
{
    assert forall|i: int| 0 <= i < args.len() implies ctypes_text(args[i].ty, e1) == ctypes_text(
        args[i].ty,
        e2,
    ) by {
        lemma_ctypes_agree(args[i].ty, e1, e2);
    }
    assert(arg_ctypes_items(args, e1) =~= arg_ctypes_items(args, e2));
}

/// The annotation of a parameter of a type: host numbers for numbers, byte
/// strings for C strings, arrays for other pointers.
pub open spec fn python_text(t: CanonicalType) -> Seq<char>
    decreases t,
{
    match t {
        CanonicalType::Int { .. } => "int"@,
        CanonicalType::Float { .. } => "float"@,
        CanonicalType::Bool => "bool"@,
        CanonicalType::Char => "ctypes.c_char"@,
        CanonicalType::VoidPointer => "ctypes.c_void_p"@,
        CanonicalType::Void => "None"@,
        CanonicalType::Named(n) => n@,
        CanonicalType::Array(e, len) => python_text(*e) + " * "@ + len@,
        CanonicalType::Pointer(e, d) => if d == 1 {
            if *e is Char {
                "bytes"@
            } else {
                "ctypes.Array["@ + ctypes_text(*e, Seq::empty()) + "]"@
            }
        } else {
            "ctypes.Array[ctypes.Array["@ + ctypes_text(*e, Seq::empty()) + "]]"@
        },
    }
}

fn int_ctype_string(width: IntWidth, signed: bool) -> (r: String)
    ensures
        r@ == int_ctype(width, signed),
{
    match width {
        IntWidth::W8 => if signed {
            String::from_str("ctypes.c_int8")
        } else {
            String::from_str("ctypes.c_uint8")
        },
        IntWidth::W16 => if signed {
            String::from_str("ctypes.c_int16")
        } else {
            String::from_str("ctypes.c_uint16")
        },
        IntWidth::W32 => if signed {
            String::from_str("ctypes.c_int32")
        } else {
            String::from_str("ctypes.c_uint32")
        },
        IntWidth::W64 => if signed {
            String::from_str("ctypes.c_int64")
        } else {
            String::from_str("ctypes.c_uint64")
        },
    }
}

fn enum_underlying_of<'a>(enums: &'a [Enum], n: &str) -> (r: Option<&'a CanonicalType>)
    ensures
        match r {
            Some(u) => enum_underlying(enums@, n@) == Some(*u),
            None => enum_underlying(enums@, n@).is_none(),
        },
{
    let mut i: usize = enums.len();
    assert(enums@.subrange(0, i as int) =~= enums@);
    while i > 0
        invariant
            0 <= i <= enums@.len(),
            enum_underlying(enums@, n@) == enum_underlying(enums@.subrange(0, i as int), n@),
        decreases i,
    {
        assert(enums@.subrange(0, i as int).drop_last() =~= enums@.subrange(0, i - 1));
        if text_eq(enums[i - 1].name.as_str(), n) {
            return Some(&enums[i - 1].ty);
        }
        i -= 1;
    }
    None
}

/// The foreign-call spelling of a type, with the given enums standing for
/// their underlying types.
pub fn ctypes_string(t: &CanonicalType, enums: &[Enum]) -> (r: String)
    ensures
        r@ == ctypes_text(*t, enums@),
    decreases enums@.len(), t,
{
    match t {
        CanonicalType::Int { width, signed } => int_ctype_string(*width, *signed),
        CanonicalType::Float { precision } => match precision {
            FloatWidth::F32 => String::from_str("ctypes.c_float"),
            FloatWidth::F64 => String::from_str("ctypes.c_double"),
        },
        CanonicalType::Bool => String::from_str("ctypes.c_bool"),
        CanonicalType::Char => String::from_str("ctypes.c_char"),
        CanonicalType::VoidPointer => String::from_str("ctypes.c_void_p"),
        CanonicalType::Void => String::from_str("None"),
        CanonicalType::Named(n) => match enum_underlying_of(enums, n.as_str()) {
            Some(u) => {
                proof {
                    assert(enums@.len() > 0);
                }
                let none: [Enum; 0] = [];
                assert(none@ =~= Seq::<Enum>::empty());
                ctypes_string(u, &none)
            },
            None => n.clone(),
        },
        CanonicalType::Array(e, len) => {
            let mut r = ctypes_string(e, enums);
            r.append(" * ");
            r.append(len.as_str());
            r
        },
        CanonicalType::Pointer(e, d) => if *d == 1 {
            if let CanonicalType::Char = **e {
                String::from_str("ctypes.c_char_p")
            } else {
                let mut r = String::from_str("ctypes.POINTER(");
                r.append(ctypes_string(e, enums).as_str());
                r.append(")");
                r
            }
        } else {
            if let CanonicalType::Char = **e {
                String::from_str("ctypes.POINTER(ctypes.c_char_p)")
            } else if let CanonicalType::Void = **e {
                String::from_str("ctypes.POINTER(ctypes.c_void_p)")
            } else {
                let mut r = String::from_str("ctypes.POINTER(ctypes.POINTER(");
                r.append(ctypes_string(e, enums).as_str());
                r.append("))");
                r
            }
        },
    }
}

/// The parameter annotation of a type.
pub fn python_string(t: &CanonicalType) -> (r: String)
    ensures
        r@ == python_text(*t),
    decreases t,
{
    let none: [Enum; 0] = [];
    assert(none@ =~= Seq::<Enum>::empty());
    match t {
        CanonicalType::Int { .. } => String::from_str("int"),
        CanonicalType::Float { .. } => String::from_str("float"),
        CanonicalType::Bool => String::from_str("bool"),
        CanonicalType::Char => String::from_str("ctypes.c_char"),
        CanonicalType::VoidPointer => String::from_str("ctypes.c_void_p"),
        CanonicalType::Void => String::from_str("None"),
        CanonicalType::Named(n) => n.clone(),
        CanonicalType::Array(e, len) => {
            let mut r = python_string(e);
            r.append(" * ");
            r.append(len.as_str());
            r
        },
        CanonicalType::Pointer(e, d) => if *d == 1 {
            if let CanonicalType::Char = **e {
                String::from_str("bytes")
            } else {
                let mut r = String::from_str("ctypes.Array[");
                r.append(ctypes_string(e, &none).as_str());
                r.append("]");
                r
            }
        } else {
            let mut r = String::from_str("ctypes.Array[ctypes.Array[");
            r.append(ctypes_string(e, &none).as_str());
            r.append("]]");
            r
        },
    }
}

impl CtypesType {
    /// The foreign-call spelling of a type.
    pub fn of(t: &CanonicalType) -> (r: CtypesType)
        ensures
            r.0@ == ctypes_text(*t, Seq::empty()),
    {
        let none: [Enum; 0] = [];
        assert(none@ =~= Seq::<Enum>::empty());
        CtypesType(ctypes_string(t, &none))
    }
}

impl PythonType {
    /// The parameter annotation of a type.
    pub fn of(t: &CanonicalType) -> (r: PythonType)
        ensures
            r.0@ == python_text(*t),
    {
        PythonType(python_string(t))
    }
}

pub open spec fn escaped_builtin(s: Seq<char>) -> Seq<char> {
    if s == "len"@ || s == "dir"@ || s == "map"@ || s == "range"@ {
        s + "_"@
    } else {
        s
    }
}

/// A parameter name that shadows a host builtin gets a trailing underscore.
pub fn escape_python_builtin(name: &str) -> (r: String)
    ensures
        r@ == escaped_builtin(name@),
{
    let mut r = String::from_str(name);
    if text_eq(name, "len") || text_eq(name, "dir") || text_eq(name, "map") || text_eq(name, "range") {
        r.append("_");
    }
    r
}

/// What convert_case makes of a text in snake case.
pub uninterp spec fn snake_case_of(s: Seq<char>) -> Seq<char>;

/// Relies on convert_case's `Casing::to_case` with `Case::Snake`: the result
/// depends on the text alone.
#[verifier::external_body]
fn to_snake_case(s: &str) -> (r: String)
    ensures
        r@ == snake_case_of(s@),
{
    s.to_case(Case::Snake)
}

/// The text after the first four characters (the native symbols' prefix).
pub open spec fn without_prefix(name: Seq<char>) -> Seq<char> {
    if name.len() < 4 {
        Seq::empty()
    } else {
        name.subrange(4, name.len() as int)
    }
}

/// The method name of a native function: its name without the four-character
/// prefix, in snake case.
pub fn to_python_func_name(name: &str) -> (r: String)
    ensures
        r@ == snake_case_of(without_prefix(name@)),
{
    let n = name.unicode_len();
    let from: usize = if n < 4 {
        n
    } else {
        4
    };
    let rest = name.substring_char(from, n);
    assert(rest@ =~= without_prefix(name@));
    to_snake_case(rest)
}

// ---------------------------------------------------------------------------
// Declarations
/// The parts joined by a separator.
pub open spec fn join(parts: Seq<Seq<char>>, sep: Seq<char>) -> Seq<char>
    decreases parts.len(),
{
    if parts.len() == 0 {
        Seq::empty()
    } else if parts.len() == 1 {
        parts[0]
    } else {
        join(parts.drop_last(), sep) + sep + parts.last()
    }
}

pub(crate) proof fn lemma_join_step(parts: Seq<Seq<char>>, sep: Seq<char>, i: int)
    requires
        0 <= i < parts.len(),
    ensures
        join(parts.subrange(0, i + 1), sep) == if i == 0 {
            parts[0]
        } else {
            join(parts.subrange(0, i), sep) + sep + parts[i]
        },
{
    assert(parts.subrange(0, i + 1).drop_last() =~= parts.subrange(0, i));
}

pub open spec fn field_item(f: (String, CanonicalType), enums: Seq<Enum>) -> Seq<char> {
    "(\""@ + f.0@ + "\", "@ + ctypes_text(f.1, enums) + ")"@
}

pub open spec fn field_items(fs: Seq<(String, CanonicalType)>, enums: Seq<Enum>) -> Seq<Seq<char>> {
    Seq::new(fs.len(), |i: int| field_item(fs[i], enums))
}

/// The `_fields_` entries of a struct or union.
fn field_list(fs: &Vec<(String, CanonicalType)>, enums: &[Enum]) -> (r: String)
    ensures
        r@ == join(field_items(fs@, enums@), ", "@),
{
    let ghost parts = field_items(fs@, enums@);
    let mut r = String::new();
    let mut i: usize = 0;
    while i < fs.len()
        invariant
            0 <= i <= fs@.len(),
            parts == field_items(fs@, enums@),
            r@ == join(parts.subrange(0, i as int), ", "@),
        decreases fs@.len() - i,
    {
        proof {
            lemma_join_step(parts, ", "@, i as int);
        }
        let mut item = String::from_str("(\"");
        item.append(fs[i].0.as_str());
        item.append("\", ");
        item.append(ctypes_string(&fs[i].1, enums).as_str());
        item.append(")");
        if i > 0 {
            r.append(", ");
            r.append(item.as_str());
        } else {
            r = item;
        }
        i += 1;
    }
    assert(parts.subrange(0, fs@.len() as int) =~= parts);
    r
}

/// The `_fields_` entries written straight from the source fields: each
/// field's name and the spelling of its classified type.
pub open spec fn source_field_items(fs: Seq<FieldDef>, enums: Seq<Enum>) -> Seq<Seq<char>> {
    Seq::new(
        fs.len(),
        |i: int|
            "(\""@ + field_name_spec(fs[i]) + "\", "@ + ctypes_text(classify_spec(fs[i].ty)->0, enums)
                + ")"@,
    )
}

/// An extracted struct is emitted with one entry per source field, in source
/// order, each with the field's name and its classified type.
pub proof fn lemma_struct_layout_preserved(item: SourceItem, s: Struct, enums: Seq<Enum>)
    requires
        struct_decl_of(item, s),
    ensures
        item matches SourceItem::Struct { fields, .. } && field_items(s.fields@, enums)
            == source_field_items(fields@, enums),
{
    if let SourceItem::Struct { fields, .. } = item {
        assert(field_items(s.fields@, enums) =~= source_field_items(fields@, enums));
    }
}

pub open spec fn struct_text(s: Struct, enums: Seq<Enum>) -> Seq<char> {
    "class "@ + s.name@ + "(ctypes.Structure):\n    _fields_ = ["@ + join(
        field_items(s.fields@, enums),
        ", "@,
    ) + "]\n\n    def __eq__(self, other: object) -> bool:\n        return isinstance(other, "@
        + s.name@ + ") and self._fields_ == other._fields_  # pragma: no cover"@
}

pub open spec fn union_text(u: Union, enums: Seq<Enum>) -> Seq<char> {
    "class "@ + u.name@ + "(ctypes.Union):\n    _fields_ = ["@ + join(
        field_items(u.fields@, enums),
        ", "@,
    ) + "]"@
}

/// A variant named like the host's null value gets a trailing underscore.
pub open spec fn variant_name(n: Seq<char>) -> Seq<char> {
    if n == "None"@ {
        n + "_"@
    } else {
        n
    }
}

pub open spec fn variant_items(vs: Seq<(String, String)>) -> Seq<Seq<char>> {
    Seq::new(vs.len(), |i: int| "    "@ + variant_name(vs[i].0@) + " = "@ + vs[i].1@)
}

pub open spec fn enum_text(e: Enum) -> Seq<char> {
    "class "@ + e.name@ + "(enum.IntEnum):\n"@ + join(variant_items(e.variants@), "\n"@)
        + "\n\n    @classmethod\n    def from_param(cls, obj):\n        return int(obj)  # pragma: no cover"@
}

pub open spec fn const_text(c: Const) -> Seq<char> {
    c.name@ + ": "@ + python_text(c.ty) + " = "@ + c.value@
}

pub open spec fn arg_ctypes_items(args: Seq<Arg>, enums: Seq<Enum>) -> Seq<Seq<char>> {
    Seq::new(args.len(), |i: int| ctypes_text(args[i].ty, enums))
}

impl Struct {
    /// The class definition of the struct.
    pub fn to_python_def(&self, enums: &[Enum]) -> (r: String)
        ensures
            r@ == struct_text(*self, enums@),
    {
        let mut r = String::from_str("class ");
        r.append(self.name.as_str());
        r.append("(ctypes.Structure):\n    _fields_ = [");
        r.append(field_list(&self.fields, enums).as_str());
        r.append("]\n\n    def __eq__(self, other: object) -> bool:\n        return isinstance(other, ");
        r.append(self.name.as_str());
        r.append(") and self._fields_ == other._fields_  # pragma: no cover");
        r
    }
}

impl Union {
    /// The class definition of the union.
    pub fn to_python_def(&self, enums: &[Enum]) -> (r: String)
        ensures
            r@ == union_text(*self, enums@),
    {
        let mut r = String::from_str("class ");
        r.append(self.name.as_str());
        r.append("(ctypes.Union):\n    _fields_ = [");
        r.append(field_list(&self.fields, enums).as_str());
        r.append("]");
        r
    }
}

impl Enum {
    /// The class definition of the enum, one member per variant.
    pub fn to_python_def(&self) -> (r: String)
        ensures
            r@ == enum_text(*self),
    {
        let ghost parts = variant_items(self.variants@);
        let mut lines = String::new();
        let mut i: usize = 0;
        while i < self.variants.len()
            invariant
                0 <= i <= self.variants@.len(),
                parts == variant_items(self.variants@),
                lines@ == join(parts.subrange(0, i as int), "\n"@),
            decreases self.variants@.len() - i,
        {
            proof {
                lemma_join_step(parts, "\n"@, i as int);
            }
            let v = &self.variants[i];
            let mut line = String::from_str("    ");
            let mut name = String::from_str(v.0.as_str());
            if text_eq(v.0.as_str(), "None") {
                name.append("_");
            }
            line.append(name.as_str());
            line.append(" = ");
            line.append(v.1.as_str());
            if i > 0 {
                lines.append("\n");
                lines.append(line.as_str());
            } else {
                lines = line;
            }
            i += 1;
        }
        assert(parts.subrange(0, self.variants@.len() as int) =~= parts);
        let mut r = String::from_str("class ");
        r.append(self.name.as_str());
        r.append("(enum.IntEnum):\n");
        r.append(lines.as_str());
        r.append(
            "\n\n    @classmethod\n    def from_param(cls, obj):\n        return int(obj)  # pragma: no cover",
        );
        r
    }
}

impl Const {
    /// The annotated assignment of the constant.
    pub fn to_python_def(&self) -> (r: String)
        ensures
            r@ == const_text(*self),
    {
        let mut r = String::from_str(self.name.as_str());
        r.append(": ");
        r.append(python_string(&self.ty).as_str());
        r.append(" = ");
        r.append(self.value.as_str());
        r
    }
}

impl Function {
    /// The foreign-call spellings of the parameter types, comma separated.
    pub fn to_python_def_arg(&self, enums: &[Enum]) -> (r: String)
        ensures
            r@ == join(arg_ctypes_items(self.args@, enums@), ", "@),
    {
        let ghost parts = arg_ctypes_items(self.args@, enums@);
        let mut r = String::new();
        let mut i: usize = 0;
        while i < self.args.len()
            invariant
                0 <= i <= self.args@.len(),
                parts == arg_ctypes_items(self.args@, enums@),
                r@ == join(parts.subrange(0, i as int), ", "@),
            decreases self.args@.len() - i,
        {
            proof {
                lemma_join_step(parts, ", "@, i as int);
            }
            let item = ctypes_string(&self.args[i].ty, enums);
            if i > 0 {
                r.append(", ");
                r.append(item.as_str());
            } else {
                r = item;
            }
            i += 1;
        }
        assert(parts.subrange(0, self.args@.len() as int) =~= parts);
        r
    }

    /// The foreign-call spelling of the return type.
    pub fn to_python_def_return(&self) -> (r: String)
        ensures
            r@ == ctypes_text(self.return_ty, Seq::empty()),
    {
        let none: [Enum; 0] = [];
        assert(none@ =~= Seq::<Enum>::empty());
        ctypes_string(&self.return_ty, &none)
    }
}

} // verus!
