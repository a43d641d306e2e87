use vstd::prelude::*;

use crate::error::GenError;
use crate::extract::{Declarations, PythonWrapperGenerator};
use crate::order::{emission_order, is_known, lemma_mutual_reference_unresolved, references, sort_structs};
use crate::parser::{same_struct, Arg, Enum, Function, Struct};
use crate::python::{
    enums_agree, lemma_arg_items_agree, lemma_field_items_agree, arg_ctypes_items, const_text, ctypes_text, enum_text, escape_python_builtin, escaped_builtin,
    join, python_string, python_text, snake_case_of, struct_text, to_python_func_name, union_text,
    without_prefix,
};
use crate::types::{text_eq, CanonicalType};

verus! {

/// Two enums with the same name, underlying type and variants.
pub open spec fn same_enum(a: Enum, b: Enum) -> bool {
    a.name == b.name && a.ty == b.ty && a.variants@ == b.variants@
}

impl Enum {
    /// A copy of the enum.
    pub fn duplicate(&self) -> (r: Enum)
        ensures
            same_enum(r, *self),
    {
        let mut variants: Vec<(String, String)> = Vec::new();
        let mut i: usize = 0;
        while i < self.variants.len()
            invariant
                0 <= i <= self.variants@.len(),
                variants@ =~= self.variants@.subrange(0, i as int),
            decreases self.variants@.len() - i,
        {
            variants.push((self.variants[i].0.clone(), self.variants[i].1.clone()));
            i += 1;
        }
        assert(variants@ =~= self.variants@);
        Enum { name: self.name.clone(), ty: self.ty.duplicate(), variants }
    }
}

/// The parts one after the other.
pub open spec fn concat(parts: Seq<Seq<char>>) -> Seq<char>
    decreases parts.len(),
{
    if parts.len() == 0 {
        Seq::empty()
    } else {
        concat(parts.drop_last()) + parts.last()
    }
}

proof fn lemma_concat_step(parts: Seq<Seq<char>>, i: int)
    requires
        0 <= i < parts.len(),
    ensures
        concat(parts.subrange(0, i + 1)) == concat(parts.subrange(0, i)) + parts[i],
{
    assert(parts.subrange(0, i + 1).drop_last() =~= parts.subrange(0, i));
}

/// The named type at the core of a type, under arrays and pointers.
pub open spec fn core_name(t: CanonicalType) -> Option<String>
    decreases t,
{
    match t {
        CanonicalType::Named(n) => Some(n),
        CanonicalType::Array(e, _) => core_name(*e),
        CanonicalType::Pointer(e, _) => core_name(*e),
        _ => None,
    }
}

pub open spec fn mentions(t: CanonicalType, n: Seq<char>) -> bool {
    core_name(t) is Some && core_name(t)->0@ == n
}

pub open spec fn fields_mention(fs: Seq<(String, CanonicalType)>, n: Seq<char>) -> bool {
    exists|k: int| 0 <= k < fs.len() && mentions(#[trigger] fs[k].1, n)
}

pub open spec fn function_mentions(f: Function, n: Seq<char>) -> bool {
    mentions(f.return_ty, n) || exists|k: int| 0 <= k < f.args@.len() && mentions(
        #[trigger] f.args@[k].ty,
        n,
    )
}

/// Whether a field, parameter or return type of the declarations refers to the name.
pub open spec fn uses_name(d: Declarations, n: Seq<char>) -> bool {
    ||| exists|i: int|
        0 <= i < d.structs@.len() && fields_mention(#[trigger] d.structs@[i].fields@, n)
    ||| exists|i: int| 0 <= i < d.unions@.len() && fields_mention(#[trigger] d.unions@[i].fields@, n)
    ||| exists|i: int| 0 <= i < d.functions@.len() && function_mentions(#[trigger] d.functions@[i], n)
}

/// The opening lines: the host modules the declarations need.
pub open spec fn header_text(d: Declarations) -> Seq<char> {
    (if d.functions@.len() > 0 {
        "import threading\nfrom pathlib import Path\n"@
    } else {
        Seq::empty()
    }) + (if d.structs@.len() > 0 || d.unions@.len() > 0 || d.functions@.len() > 0 {
        "import ctypes\n"@
    } else {
        Seq::empty()
    }) + (if d.enums@.len() > 0 {
        "import enum\n"@
    } else {
        Seq::empty()
    })
}

/// An import for each type defined by an earlier module that the declarations use.
pub open spec fn import_items(d: Declarations, defined: Seq<(String, String)>) -> Seq<Seq<char>> {
    Seq::new(
        defined.len(),
        |i: int|
            if uses_name(d, defined[i].0@) {
                "from "@ + defined[i].1@ + " import "@ + defined[i].0@ + "\n"@
            } else {
                Seq::empty()
            },
    )
}

pub open spec fn block(text: Seq<char>) -> Seq<char> {
    "\n\n"@ + text + "\n"@
}

pub open spec fn enum_blocks(enums: Seq<Enum>) -> Seq<Seq<char>> {
    Seq::new(enums.len(), |i: int| block(enum_text(enums[i])))
}

pub open spec fn union_blocks(d: Declarations, enums: Seq<Enum>) -> Seq<Seq<char>> {
    Seq::new(d.unions@.len(), |i: int| block(union_text(d.unions@[i], enums)))
}

/// A pointer handle: a struct whose one field is an untyped pointer.
pub open spec fn is_handle(s: Struct) -> bool {
    s.fields@.len() == 1 && s.fields@[0].1 is VoidPointer
}

/// The pointer handles, in source order; they come before the unions.
pub open spec fn handle_blocks(structs: Seq<Struct>, enums: Seq<Enum>) -> Seq<Seq<char>> {
    Seq::new(
        structs.len(),
        |i: int|
            if is_handle(structs[i]) {
                block(struct_text(structs[i], enums))
            } else {
                Seq::empty()
            },
    )
}

/// The other structs, in emission order.
pub open spec fn struct_blocks(structs: Seq<Struct>, order: Seq<usize>, enums: Seq<Enum>) -> Seq<
    Seq<char>,
> {
    Seq::new(
        order.len(),
        |i: int|
            if is_handle(structs[order[i] as int]) {
                Seq::empty()
            } else {
                block(struct_text(structs[order[i] as int], enums))
            },
    )
}

pub open spec fn const_blocks(d: Declarations) -> Seq<Seq<char>> {
    Seq::new(d.consts@.len(), |i: int| block(const_text(d.consts@[i])))
}

/// The loader class, up to its first method's body, for the native library's name.
pub open spec fn class_header(lib_name: Seq<char>) -> Seq<char> {
    "\nclass Singleton(type):\n    _instances = {}  # type: ignore[var-annotated]\n    _lock = threading.Lock()\n\n    def __call__(cls, *args, **kwargs):\n        if cls not in cls._instances:\n            with cls._lock:\n                if cls not in cls._instances: # pragma: no cover\n                    cls._instances[cls] = super().__call__(*args, **kwargs)\n        return cls._instances[cls]\n\nclass NativeMethods(metaclass=Singleton):\n    def init_dll(self, bin_location: Path, bin_prefix: str, bin_ext: str) -> None:\n        self.dll = ctypes.CDLL(str(bin_location / f'{bin_prefix}"@ + lib_name + "{bin_ext}'))\n"@
}

pub open spec fn argtypes_line(f: Function, enums: Seq<Enum>) -> Seq<char> {
    "\n        self.dll."@ + f.name@ + ".argtypes = ["@ + join(arg_ctypes_items(f.args@, enums), ", "@)
        + "]\n        self.dll."@ + f.name@ + ".restype = "@ + ctypes_text(f.return_ty, Seq::empty())
        + "\n"@
}

pub open spec fn param_items(args: Seq<Arg>) -> Seq<Seq<char>> {
    Seq::new(args.len(), |i: int| escaped_builtin(args[i].name@) + ": "@ + python_text(args[i].ty))
}

pub open spec fn argname_items(args: Seq<Arg>) -> Seq<Seq<char>> {
    Seq::new(args.len(), |i: int| escaped_builtin(args[i].name@))
}

/// The method, under the given name, that calls the native function.
pub open spec fn method_text_named(f: Function, method_name: Seq<char>) -> Seq<char> {
    "\n    def "@ + method_name + "(self"@ + (if f.args@.len() == 0 {
        Seq::empty()
    } else {
        ", "@
    }) + join(param_items(f.args@), ", "@) + ") -> "@ + ctypes_text(f.return_ty, Seq::empty())
        + ":\n        return self.dll."@ + f.name@ + "("@ + join(argname_items(f.args@), ", "@)
        + ")\n"@
}

/// The method that calls the native function: its name is the function's
/// without the prefix, in snake case.
pub open spec fn method_text(f: Function) -> Seq<char> {
    method_text_named(f, snake_case_of(without_prefix(f.name@)))
}

pub open spec fn functions_text(lib_name: Seq<char>, fs: Seq<Function>, enums: Seq<Enum>) -> Seq<
    char,
> {
    if fs.len() == 0 {
        Seq::empty()
    } else {
        class_header(lib_name) + concat(Seq::new(fs.len(), |i: int| argtypes_line(fs[i], enums)))
            + concat(Seq::new(fs.len(), |i: int| method_text(fs[i])))
    }
}

/// The names known before the structs are ordered: those defined by earlier
/// modules, then this module's enums and unions.
pub open spec fn known_names(defined: Seq<(String, String)>, d: Declarations) -> Seq<String> {
    Seq::new(defined.len(), |i: int| defined[i].0) + Seq::new(
        d.enums@.len(),
        |i: int| d.enums@[i].name,
    ) + Seq::new(d.unions@.len(), |i: int| d.unions@[i].name)
}

/// The whole generated module.
pub open spec fn module_text(
    lib_name: Seq<char>,
    d: Declarations,
    defined: Seq<(String, String)>,
    enums: Seq<Enum>,
) -> Seq<char> {
    header_text(d) + concat(import_items(d, defined)) + concat(enum_blocks(d.enums@)) + concat(
        handle_blocks(d.structs@, enums),
    ) + concat(union_blocks(d, enums)) + concat(
        struct_blocks(d.structs@, emission_order(d.structs@, known_names(defined, d)), enums),
    ) + concat(const_blocks(d)) + functions_text(lib_name, d.functions@, enums)
}

/// `after` is `before` followed by the names of the given declarations, each
/// paired with the module.
pub open spec fn names_appended(
    before: Seq<(String, String)>,
    after: Seq<(String, String)>,
    names: Seq<String>,
    module: Seq<char>,
) -> bool {
    &&& after.len() == before.len() + names.len()
    &&& after.subrange(0, before.len() as int) == before
    &&& forall|i: int|
        0 <= i < names.len() ==> (#[trigger] after[before.len() + i]).0 == names[i] && after[before.len()
            + i].1@ == module
}

pub open spec fn struct_names(d: Declarations) -> Seq<String> {
    Seq::new(d.structs@.len(), |i: int| d.structs@[i].name)
}

pub open spec fn enum_names(d: Declarations) -> Seq<String> {
    Seq::new(d.enums@.len(), |i: int| d.enums@[i].name)
}

pub open spec fn union_names(d: Declarations) -> Seq<String> {
    Seq::new(d.unions@.len(), |i: int| d.unions@[i].name)
}

/// The generated text depends on the contents of the declarations and of the
/// defined lists alone: two runs over unchanged input give the same bytes,
/// structs included, whose order is the stable emission order.
pub proof fn lemma_output_reproducible(
    lib_name: Seq<char>,
    d1: Declarations,
    d2: Declarations,
    defined: Seq<(String, String)>,
    enums: Seq<Enum>,
)
    requires
        d1.structs@ == d2.structs@,
        d1.enums@ == d2.enums@,
        d1.unions@ == d2.unions@,
        d1.functions@ == d2.functions@,
        d1.consts@ == d2.consts@,
    ensures
        module_text(lib_name, d1, defined, enums) == module_text(lib_name, d2, defined, enums),
{
    assert(known_names(defined, d1) =~= known_names(defined, d2));
    assert(import_items(d1, defined) =~= import_items(d2, defined));
    assert(union_blocks(d1, enums) =~= union_blocks(d2, enums));
    assert(const_blocks(d1) =~= const_blocks(d2));
}

/// The module text depends on the enums' names and underlying types alone.
pub proof fn lemma_module_text_agree(
    lib_name: Seq<char>,
    d: Declarations,
    defined: Seq<(String, String)>,
    e1: Seq<Enum>,
    e2: Seq<Enum>,
)
    requires
        enums_agree(e1, e2),
    ensures
        module_text(lib_name, d, defined, e1) == module_text(lib_name, d, defined, e2),
{
    assert forall|i: int| 0 <= i < d.unions@.len() implies union_text(d.unions@[i], e1) == union_text(
        d.unions@[i],
        e2,
    ) by {
        lemma_field_items_agree(d.unions@[i].fields@, e1, e2);
    }
    assert(union_blocks(d, e1) =~= union_blocks(d, e2));
    assert forall|i: int| 0 <= i < d.structs@.len() implies struct_text(d.structs@[i], e1)
        == struct_text(d.structs@[i], e2) by {
        lemma_field_items_agree(d.structs@[i].fields@, e1, e2);
    }
    assert(handle_blocks(d.structs@, e1) =~= handle_blocks(d.structs@, e2));
    let order = emission_order(d.structs@, known_names(defined, d));
    assert forall|i: int| 0 <= i < order.len() implies struct_text(
        d.structs@[order[i] as int],
        e1,
    ) == struct_text(d.structs@[order[i] as int], e2) by {
        lemma_field_items_agree(d.structs@[order[i] as int].fields@, e1, e2);
    }
    assert(struct_blocks(d.structs@, order, e1) =~= struct_blocks(d.structs@, order, e2));
    let fs = d.functions@;
    assert forall|i: int| 0 <= i < fs.len() implies argtypes_line(fs[i], e1) == argtypes_line(
        fs[i],
        e2,
    ) by {
        lemma_arg_items_agree(fs[i].args@, e1, e2);
    }
    assert(Seq::new(fs.len(), |i: int| argtypes_line(fs[i], e1)) =~= Seq::new(
        fs.len(),
        |i: int| argtypes_line(fs[i], e2),
    ));
}

/// Two runs of the renderer over the same declarations and the same lists
/// give the same text and record the same names with the same module: the
/// copies of the enums that each run records agree on names and underlying
/// types, which is all the text depends on.
pub proof fn lemma_render_reproducible(
    lib_name: Seq<char>,
    module_name: Seq<char>,
    d: Declarations,
    defined: Seq<(String, String)>,
    enums: Seq<Enum>,
    defined1: Seq<(String, String)>,
    defined2: Seq<(String, String)>,
    e1: Seq<Enum>,
    e2: Seq<Enum>,
)
    requires
        e1.len() == enums.len() + d.enums@.len(),
        e2.len() == enums.len() + d.enums@.len(),
        e1.subrange(0, enums.len() as int) == enums,
        e2.subrange(0, enums.len() as int) == enums,
        forall|i: int| 0 <= i < d.enums@.len() ==> same_enum(#[trigger] e1[enums.len() + i], d.enums@[i]),
        forall|i: int| 0 <= i < d.enums@.len() ==> same_enum(#[trigger] e2[enums.len() + i], d.enums@[i]),
        names_appended(defined, defined1, enum_names(d) + union_names(d) + struct_names(d), module_name),
        names_appended(defined, defined2, enum_names(d) + union_names(d) + struct_names(d), module_name),
    ensures
        module_text(lib_name, d, defined, e1) == module_text(lib_name, d, defined, e2),
        defined1.len() == defined2.len(),
        forall|i: int|
            0 <= i < defined1.len() ==> (#[trigger] defined1[i]).0 == defined2[i].0 && defined1[i].1@
                == defined2[i].1@,
{
    assert forall|i: int| 0 <= i < e1.len() implies (#[trigger] e1[i]).name@ == e2[i].name@ && e1[i].ty
        == e2[i].ty by {
        if i < enums.len() {
            assert(e1[i] == e1.subrange(0, enums.len() as int)[i]);
            assert(e2[i] == e2.subrange(0, enums.len() as int)[i]);
        } else {
            assert(same_enum(e1[enums.len() + (i - enums.len())], d.enums@[i - enums.len()]));
            assert(same_enum(e2[enums.len() + (i - enums.len())], d.enums@[i - enums.len()]));
        }
    }
    lemma_module_text_agree(lib_name, d, defined, e1, e2);
    assert forall|i: int| 0 <= i < defined1.len() implies (#[trigger] defined1[i]).0 == defined2[i].0
        && defined1[i].1@ == defined2[i].1@ by {
        if i < defined.len() {
            assert(defined1[i] == defined1.subrange(0, defined.len() as int)[i]);
            assert(defined2[i] == defined2.subrange(0, defined.len() as int)[i]);
        } else {
            let k = i - defined.len();
            assert(defined1[defined.len() + k].0 == (enum_names(d) + union_names(d) + struct_names(d))[k]);
            assert(defined2[defined.len() + k].0 == (enum_names(d) + union_names(d) + struct_names(d))[k]);
        }
    }
}

/// Two structs of a unit that reference each other's names directly, with
/// neither name defined earlier nor an enum or union of the unit, and each
/// name borne by one struct only: rendering the unit fails and records
/// nothing.
pub proof fn lemma_mutual_reference_fails_render(
    d: Declarations,
    defined: Seq<(String, String)>,
    a: int,
    b: int,
)
    requires
        d.structs@.len() <= usize::MAX,
        0 <= a < d.structs@.len(),
        0 <= b < d.structs@.len(),
        references(d.structs@[a], d.structs@[b].name@),
        references(d.structs@[b], d.structs@[a].name@),
        !is_known(known_names(defined, d), d.structs@[a].name@),
        !is_known(known_names(defined, d), d.structs@[b].name@),
        forall|x: int|
            0 <= x < d.structs@.len() && (#[trigger] d.structs@[x]).name@ == d.structs@[a].name@
                ==> x == a,
        forall|x: int|
            0 <= x < d.structs@.len() && (#[trigger] d.structs@[x]).name@ == d.structs@[b].name@
                ==> x == b,
    ensures
        emission_order(d.structs@, known_names(defined, d)).len() < d.structs@.len(),
{
    lemma_mutual_reference_unresolved(d.structs@, known_names(defined, d), a, b);
}

fn mentions_name(t: &CanonicalType, n: &str) -> (r: bool)
    ensures
        r == mentions(*t, n@),
    decreases t,
{
    match t {
        CanonicalType::Named(m) => text_eq(m.as_str(), n),
        CanonicalType::Array(e, _) => mentions_name(e, n),
        CanonicalType::Pointer(e, _) => mentions_name(e, n),
        _ => false,
    }
}

fn fields_mention_name(fs: &Vec<(String, CanonicalType)>, n: &str) -> (r: bool)
    ensures
        r == fields_mention(fs@, n@),
{
    let mut k: usize = 0;
    while k < fs.len()
        invariant
            0 <= k <= fs@.len(),
            forall|j: int| 0 <= j < k ==> !mentions(#[trigger] fs@[j].1, n@),
        decreases fs@.len() - k,
    {
        if mentions_name(&fs[k].1, n) {
            return true;
        }
        k += 1;
    }
    false
}

fn function_mentions_name(f: &Function, n: &str) -> (r: bool)
    ensures
        r == function_mentions(*f, n@),
{
    if mentions_name(&f.return_ty, n) {
        return true;
    }
    let mut k: usize = 0;
    while k < f.args.len()
        invariant
            0 <= k <= f.args@.len(),
            forall|j: int| 0 <= j < k ==> !mentions(#[trigger] f.args@[j].ty, n@),
        decreases f.args@.len() - k,
    {
        if mentions_name(&f.args[k].ty, n) {
            return true;
        }
        k += 1;
    }
    false
}

/// Whether a field, parameter or return type of the declarations refers to the name.
pub fn uses_name_of(d: &Declarations, n: &str) -> (r: bool)
    ensures
        r == uses_name(*d, n@),
{
    let mut i: usize = 0;
    while i < d.structs.len()
        invariant
            0 <= i <= d.structs@.len(),
            forall|j: int| 0 <= j < i ==> !fields_mention(#[trigger] d.structs@[j].fields@, n@),
        decreases d.structs@.len() - i,
    {
        if fields_mention_name(&d.structs[i].fields, n) {
            return true;
        }
        i += 1;
    }
    let mut i: usize = 0;
    while i < d.unions.len()
        invariant
            0 <= i <= d.unions@.len(),
            forall|j: int| 0 <= j < i ==> !fields_mention(#[trigger] d.unions@[j].fields@, n@),
        decreases d.unions@.len() - i,
    {
        if fields_mention_name(&d.unions[i].fields, n) {
            return true;
        }
        i += 1;
    }
    let mut i: usize = 0;
    while i < d.functions.len()
        invariant
            0 <= i <= d.functions@.len(),
            forall|j: int| 0 <= j < i ==> !function_mentions(#[trigger] d.functions@[j], n@),
        decreases d.functions@.len() - i,
    {
        if function_mentions_name(&d.functions[i], n) {
            return true;
        }
        i += 1;
    }
    false
}

fn argtypes_def(f: &Function, enums: &[Enum]) -> (r: String)
    ensures
        r@ == argtypes_line(*f, enums@),
{
    let mut r = String::from_str("\n        self.dll.");
    r.append(f.name.as_str());
    r.append(".argtypes = [");
    r.append(f.to_python_def_arg(enums).as_str());
    r.append("]\n        self.dll.");
    r.append(f.name.as_str());
    r.append(".restype = ");
    r.append(f.to_python_def_return().as_str());
    r.append("\n");
    r
}

fn method_def(f: &Function) -> (r: String)
    ensures
        r@ == method_text(*f),
{
    to_python_method(f, to_python_func_name(f.name.as_str()).as_str())
}

/// The method, under the given name, that calls the native function with
/// its parameters, builtin names escaped, annotated for the host.
pub fn to_python_method(f: &Function, method_name: &str) -> (r: String)
    ensures
        r@ == method_text_named(*f, method_name@),
{
    let ghost params = param_items(f.args@);
    let ghost names = argname_items(f.args@);
    let mut ps = String::new();
    let mut ns = String::new();
    let mut i: usize = 0;
    while i < f.args.len()
        invariant
            0 <= i <= f.args@.len(),
            params == param_items(f.args@),
            names == argname_items(f.args@),
            ps@ == join(params.subrange(0, i as int), ", "@),
            ns@ == join(names.subrange(0, i as int), ", "@),
        decreases f.args@.len() - i,
    {
        proof {
            crate::python::lemma_join_step(params, ", "@, i as int);
            crate::python::lemma_join_step(names, ", "@, i as int);
        }
        let name = escape_python_builtin(f.args[i].name.as_str());
        let mut p = String::from_str(name.as_str());
        p.append(": ");
        p.append(python_string(&f.args[i].ty).as_str());
        if i > 0 {
            ps.append(", ");
            ps.append(p.as_str());
            ns.append(", ");
            ns.append(name.as_str());
        } else {
            ps = p;
            ns = name;
        }
        i += 1;
    }
    assert(params.subrange(0, f.args@.len() as int) =~= params);
    assert(names.subrange(0, f.args@.len() as int) =~= names);
    let mut r = String::from_str("\n    def ");
    r.append(method_name);
    r.append("(self");
    let ghost before = r@;
    if f.args.len() > 0 {
        r.append(", ");
    }
    assert(r@ =~= before + (if f.args@.len() == 0 {
        Seq::empty()
    } else {
        ", "@
    }));
    r.append(ps.as_str());
    r.append(") -> ");
    r.append(f.to_python_def_return().as_str());
    r.append(":\n        return self.dll.");
    r.append(f.name.as_str());
    r.append("(");
    r.append(ns.as_str());
    r.append(")\n");
    r
}

/// A sequence of the names as `String`s, one after the other.
fn names_of_known(defined: &Vec<(String, String)>, d: &Declarations) -> (r: Vec<String>)
    ensures
        r@ == known_names(defined@, *d),
{
    let mut names: Vec<String> = Vec::new();
    let mut i: usize = 0;
    while i < defined.len()
        invariant
            0 <= i <= defined@.len(),
            names@ =~= Seq::new(i as nat, |j: int| defined@[j].0),
        decreases defined@.len() - i,
    {
        names.push(defined[i].0.clone());
        i += 1;
    }
    let ghost a = names@;
    let mut i: usize = 0;
    while i < d.enums.len()
        invariant
            0 <= i <= d.enums@.len(),
            names@ =~= a + Seq::new(i as nat, |j: int| d.enums@[j].name),
        decreases d.enums@.len() - i,
    {
        names.push(d.enums[i].name.clone());
        i += 1;
    }
    let ghost b = names@;
    let mut i: usize = 0;
    while i < d.unions.len()
        invariant
            0 <= i <= d.unions@.len(),
            names@ =~= b + Seq::new(i as nat, |j: int| d.unions@[j].name),
        decreases d.unions@.len() - i,
    {
        names.push(d.unions[i].name.clone());
        i += 1;
    }
    assert(names@ =~= known_names(defined@, *d));
    names
}

/// The names of the enums, unions and structs, in that order.
fn declared_names(d: &Declarations) -> (r: Vec<String>)
    ensures
        r@ == enum_names(*d) + union_names(*d) + struct_names(*d),
{
    let mut names: Vec<String> = Vec::new();
    let mut i: usize = 0;
    while i < d.enums.len()
        invariant
            0 <= i <= d.enums@.len(),
            names@ =~= Seq::new(i as nat, |j: int| d.enums@[j].name),
        decreases d.enums@.len() - i,
    {
        names.push(d.enums[i].name.clone());
        i += 1;
    }
    let ghost a = names@;
    let mut i: usize = 0;
    while i < d.unions.len()
        invariant
            0 <= i <= d.unions@.len(),
            names@ =~= a + Seq::new(i as nat, |j: int| d.unions@[j].name),
        decreases d.unions@.len() - i,
    {
        names.push(d.unions[i].name.clone());
        i += 1;
    }
    let ghost b = names@;
    let mut i: usize = 0;
    while i < d.structs.len()
        invariant
            0 <= i <= d.structs@.len(),
            names@ =~= b + Seq::new(i as nat, |j: int| d.structs@[j].name),
        decreases d.structs@.len() - i,
    {
        names.push(d.structs[i].name.clone());
        i += 1;
    }
    assert(names@ =~= enum_names(*d) + union_names(*d) + struct_names(*d));
    names
}

/// Appends each name, paired with the module.
fn record_names(defined: &mut Vec<(String, String)>, names: &Vec<String>, module: &str)
    ensures
        names_appended(old(defined)@, final(defined)@, names@, module@),
{
    let ghost defined0 = defined@;
    let mut i: usize = 0;
    while i < names.len()
        invariant
            0 <= i <= names@.len(),
            defined@.len() == defined0.len() + i,
            defined@.subrange(0, defined0.len() as int) == defined0,
            forall|j: int|
                0 <= j < i ==> (#[trigger] defined@[defined0.len() + j]).0 == names@[j]
                    && defined@[defined0.len() + j].1@ == module@,
        decreases names@.len() - i,
    {
        defined.push((names[i].clone(), String::from_str(module)));
        assert(defined@.subrange(0, defined0.len() as int) =~= defined0);
        i += 1;
    }
}

/// Appends a copy of each enum.
fn record_enums(defined_enum: &mut Vec<Enum>, enums: &Vec<Enum>)
    ensures
        final(defined_enum)@.len() == old(defined_enum)@.len() + enums@.len(),
        final(defined_enum)@.subrange(0, old(defined_enum)@.len() as int) == old(defined_enum)@,
        forall|i: int|
            0 <= i < enums@.len() ==> same_enum(
                #[trigger] final(defined_enum)@[old(defined_enum)@.len() + i],
                enums@[i],
            ),
{
    let ghost enums0 = defined_enum@;
    let mut i: usize = 0;
    while i < enums.len()
        invariant
            0 <= i <= enums@.len(),
            defined_enum@.len() == enums0.len() + i,
            defined_enum@.subrange(0, enums0.len() as int) == enums0,
            forall|j: int|
                0 <= j < i ==> same_enum(#[trigger] defined_enum@[enums0.len() + j], enums@[j]),
        decreases enums@.len() - i,
    {
        defined_enum.push(enums[i].duplicate());
        assert(defined_enum@.subrange(0, enums0.len() as int) =~= enums0);
        i += 1;
    }
}

fn header_of(d: &Declarations) -> (r: String)
    ensures
        r@ == header_text(*d),
{
    let mut out = String::new();
    if d.functions.len() > 0 {
        out.append("import threading\nfrom pathlib import Path\n");
    }
    if d.structs.len() > 0 || d.unions.len() > 0 || d.functions.len() > 0 {
        out.append("import ctypes\n");
    }
    if d.enums.len() > 0 {
        out.append("import enum\n");
    }
    assert(out@ =~= header_text(*d));
    out
}

fn imports_of(d: &Declarations, defined: &Vec<(String, String)>) -> (r: String)
    ensures
        r@ == concat(import_items(*d, defined@)),
{
    let ghost parts = import_items(*d, defined@);
    let mut out = String::new();
    let mut i: usize = 0;
    while i < defined.len()
        invariant
            0 <= i <= defined@.len(),
            parts == import_items(*d, defined@),
            out@ == concat(parts.subrange(0, i as int)),
        decreases defined@.len() - i,
    {
        proof {
            lemma_concat_step(parts, i as int);
        }
        let ghost before = out@;
        if uses_name_of(d, defined[i].0.as_str()) {
            out.append("from ");
            out.append(defined[i].1.as_str());
            out.append(" import ");
            out.append(defined[i].0.as_str());
            out.append("\n");
        }
        assert(out@ =~= before + parts[i as int]);
        i += 1;
    }
    assert(parts.subrange(0, defined@.len() as int) =~= parts);
    out
}

fn enum_blocks_of(enums: &Vec<Enum>) -> (r: String)
    ensures
        r@ == concat(enum_blocks(enums@)),
{
    let ghost parts = enum_blocks(enums@);
    let mut out = String::new();
    let mut i: usize = 0;
    while i < enums.len()
        invariant
            0 <= i <= enums@.len(),
            parts == enum_blocks(enums@),
            out@ == concat(parts.subrange(0, i as int)),
        decreases enums@.len() - i,
    {
        proof {
            lemma_concat_step(parts, i as int);
        }
        let ghost before = out@;
        out.append("\n\n");
        out.append(enums[i].to_python_def().as_str());
        out.append("\n");
        assert(out@ =~= before + parts[i as int]);
        i += 1;
    }
    assert(parts.subrange(0, enums@.len() as int) =~= parts);
    out
}

fn union_blocks_of(d: &Declarations, enums: &[Enum]) -> (r: String)
    ensures
        r@ == concat(union_blocks(*d, enums@)),
{
    let ghost parts = union_blocks(*d, enums@);
    let mut out = String::new();
    let mut i: usize = 0;
    while i < d.unions.len()
        invariant
            0 <= i <= d.unions@.len(),
            parts == union_blocks(*d, enums@),
            out@ == concat(parts.subrange(0, i as int)),
        decreases d.unions@.len() - i,
    {
        proof {
            lemma_concat_step(parts, i as int);
        }
        let ghost before = out@;
        out.append("\n\n");
        out.append(d.unions[i].to_python_def(enums).as_str());
        out.append("\n");
        assert(out@ =~= before + parts[i as int]);
        i += 1;
    }
    assert(parts.subrange(0, d.unions@.len() as int) =~= parts);
    out
}

fn struct_blocks_of(
    sorted: &Vec<Struct>,
    structs: Ghost<Seq<Struct>>,
    order: Ghost<Seq<usize>>,
    enums: &[Enum],
) -> (r: String)
    requires
        sorted@.len() == order@.len(),
        forall|j: int|
            0 <= j < sorted@.len() ==> same_struct(#[trigger] sorted@[j], structs@[order@[j] as int]),
    ensures
        r@ == concat(struct_blocks(structs@, order@, enums@)),
{
    let ghost parts = struct_blocks(structs@, order@, enums@);
    let mut out = String::new();
    let mut k: usize = 0;
    while k < sorted.len()
        invariant
            0 <= k <= sorted@.len(),
            sorted@.len() == order@.len(),
            forall|j: int|
                0 <= j < sorted@.len() ==> same_struct(#[trigger] sorted@[j], structs@[order@[j] as int]),
            parts == struct_blocks(structs@, order@, enums@),
            out@ == concat(parts.subrange(0, k as int)),
        decreases sorted@.len() - k,
    {
        proof {
            lemma_concat_step(parts, k as int);
        }
        let ghost before = out@;
        assert(same_struct(sorted@[k as int], structs@[order@[k as int] as int]));
        if !handle(&sorted[k]) {
            out.append("\n\n");
            out.append(sorted[k].to_python_def(enums).as_str());
            out.append("\n");
        }
        assert(out@ =~= before + parts[k as int]);
        k += 1;
    }
    assert(parts.subrange(0, order@.len() as int) =~= parts);
    out
}

fn handle(s: &Struct) -> (r: bool)
    ensures
        r == is_handle(*s),
{
    s.fields.len() == 1 && match s.fields[0].1 {
        CanonicalType::VoidPointer => true,
        _ => false,
    }
}

fn handle_blocks_of(structs: &Vec<Struct>, enums: &[Enum]) -> (r: String)
    ensures
        r@ == concat(handle_blocks(structs@, enums@)),
{
    let ghost parts = handle_blocks(structs@, enums@);
    let mut out = String::new();
    let mut i: usize = 0;
    while i < structs.len()
        invariant
            0 <= i <= structs@.len(),
            parts == handle_blocks(structs@, enums@),
            out@ == concat(parts.subrange(0, i as int)),
        decreases structs@.len() - i,
    {
        proof {
            lemma_concat_step(parts, i as int);
        }
        let ghost before = out@;
        if handle(&structs[i]) {
            out.append("\n\n");
            out.append(structs[i].to_python_def(enums).as_str());
            out.append("\n");
        }
        assert(out@ =~= before + parts[i as int]);
        i += 1;
    }
    assert(parts.subrange(0, structs@.len() as int) =~= parts);
    out
}

fn const_blocks_of(d: &Declarations) -> (r: String)
    ensures
        r@ == concat(const_blocks(*d)),
{
    let ghost parts = const_blocks(*d);
    let mut out = String::new();
    let mut i: usize = 0;
    while i < d.consts.len()
        invariant
            0 <= i <= d.consts@.len(),
            parts == const_blocks(*d),
            out@ == concat(parts.subrange(0, i as int)),
        decreases d.consts@.len() - i,
    {
        proof {
            lemma_concat_step(parts, i as int);
        }
        let ghost before = out@;
        out.append("\n\n");
        out.append(d.consts[i].to_python_def().as_str());
        out.append("\n");
        assert(out@ =~= before + parts[i as int]);
        i += 1;
    }
    assert(parts.subrange(0, d.consts@.len() as int) =~= parts);
    out
}

fn functions_of(lib_name: &str, fs: &Vec<Function>, enums: &[Enum]) -> (r: String)
    ensures
        r@ == functions_text(lib_name@, fs@, enums@),
{
    if fs.len() == 0 {
        return String::new();
    }
    let mut out = String::from_str("\nclass Singleton(type):\n    _instances = {}  # type: ignore[var-annotated]\n    _lock = threading.Lock()\n\n    def __call__(cls, *args, **kwargs):\n        if cls not in cls._instances:\n            with cls._lock:\n                if cls not in cls._instances: # pragma: no cover\n                    cls._instances[cls] = super().__call__(*args, **kwargs)\n        return cls._instances[cls]\n\nclass NativeMethods(metaclass=Singleton):\n    def init_dll(self, bin_location: Path, bin_prefix: str, bin_ext: str) -> None:\n        self.dll = ctypes.CDLL(str(bin_location / f'{bin_prefix}");
    out.append(lib_name);
    out.append("{bin_ext}'))\n");
    let ghost lines = Seq::new(fs@.len(), |i: int| argtypes_line(fs@[i], enums@));
    let mut ls = String::new();
    let mut i: usize = 0;
    while i < fs.len()
        invariant
            0 <= i <= fs@.len(),
            lines == Seq::new(fs@.len(), |i: int| argtypes_line(fs@[i], enums@)),
            ls@ == concat(lines.subrange(0, i as int)),
        decreases fs@.len() - i,
    {
        proof {
            lemma_concat_step(lines, i as int);
        }
        ls.append(argtypes_def(&fs[i], enums).as_str());
        i += 1;
    }
    assert(lines.subrange(0, fs@.len() as int) =~= lines);
    let ghost defs = Seq::new(fs@.len(), |i: int| method_text(fs@[i]));
    let mut ds = String::new();
    let mut i: usize = 0;
    while i < fs.len()
        invariant
            0 <= i <= fs@.len(),
            defs == Seq::new(fs@.len(), |i: int| method_text(fs@[i])),
            ds@ == concat(defs.subrange(0, i as int)),
        decreases fs@.len() - i,
    {
        proof {
            lemma_concat_step(defs, i as int);
        }
        ds.append(method_def(&fs[i]).as_str());
        i += 1;
    }
    assert(defs.subrange(0, fs@.len() as int) =~= defs);
    out.append(ls.as_str());
    out.append(ds.as_str());
    out
}

impl PythonWrapperGenerator {
    /// Renders the module for one generation unit. `defined` pairs each type
    /// defined by an earlier module with that module; `defined_enum` holds the
    /// enums defined so far, whose names stand for their underlying types in
    /// field and parameter lists. The module holds, in order, the imports, the
    /// enums, the pointer handles, the unions, the other structs in emission
    /// order, the constants and the loader class. The structs are ordered first: when that
    /// fails nothing is rendered and neither list changes. Otherwise both
    /// lists grow by this module's declarations.
    pub fn render(
        lib_name: &str,
        module_name: &str,
        d: &Declarations,
        defined: &mut Vec<(String, String)>,
        defined_enum: &mut Vec<Enum>,
    ) -> (r: Result<String, GenError>)
        ensures
            match r {
                Ok(text) => {
                    &&& emission_order(d.structs@, known_names(old(defined)@, *d)).len()
                        == d.structs@.len()
                    &&& text@ == module_text(lib_name@, *d, old(defined)@, final(defined_enum)@)
                    &&& final(defined_enum)@.len() == old(defined_enum)@.len() + d.enums@.len()
                    &&& final(defined_enum)@.subrange(0, old(defined_enum)@.len() as int) == old(
                        defined_enum,
                    )@
                    &&& forall|i: int|
                        0 <= i < d.enums@.len() ==> same_enum(
                            #[trigger] final(defined_enum)@[old(defined_enum)@.len() + i],
                            d.enums@[i],
                        )
                    &&& names_appended(
                        old(defined)@,
                        final(defined)@,
                        enum_names(*d) + union_names(*d) + struct_names(*d),
                        module_name@,
                    )
                },
                Err(e) => {
                    &&& emission_order(d.structs@, known_names(old(defined)@, *d)).len()
                        < d.structs@.len()
                    &&& e is UnresolvedDependency
                    &&& final(defined)@ == old(defined)@
                    &&& final(defined_enum)@ == old(defined_enum)@
                },
            },
    {
        let names = names_of_known(defined, d);
        let sorted = match sort_structs(d.structs.as_slice(), names) {
            Ok(v) => v,
            Err(e) => return Err(e),
        };
        let ghost order = emission_order(d.structs@, known_names(defined@, *d));
        let mut out = header_of(d);
        out.append(imports_of(d, defined).as_str());
        out.append(enum_blocks_of(&d.enums).as_str());
        record_enums(defined_enum, &d.enums);
        out.append(handle_blocks_of(&d.structs, defined_enum.as_slice()).as_str());
        out.append(union_blocks_of(d, defined_enum.as_slice()).as_str());
        out.append(
            struct_blocks_of(
                &sorted,
                Ghost(d.structs@),
                Ghost(order),
                defined_enum.as_slice(),
            ).as_str(),
        );
        out.append(const_blocks_of(d).as_str());
        out.append(functions_of(lib_name, &d.functions, defined_enum.as_slice()).as_str());
        record_names(defined, &declared_names(d), module_name);
        Ok(out)
    }
}

} // verus!
