use vstd::prelude::*;

use crate::error::GenError;
use crate::parser::{
    const_decl_of, enum_decl_of, function_decl_of, is_ffi_safe_item, is_ffi_safe_spec,
    has_receiver, is_public_item, is_public_spec, item_dropped, item_unsupported, parse_const, parse_enum,
    parse_function, parse_struct, parse_union, struct_decl_of, union_decl_of, variants_explicit,
    Const, Enum, Function, SourceItem, Struct, Union,
};
use crate::types::text_eq;

verus! {

/// The five kinds of declaration.
#[derive(PartialEq, Eq, Structural, Clone, Copy, Debug)]
pub enum DeclKind {
    Struct,
    Enum,
    Union,
    Function,
    Const,
    /// An enum or function dropped as malformed.
    Malformed,
}

/// The declarations extracted from the source units of one generation unit.
#[derive(Debug)]
pub struct Declarations {
    pub structs: Vec<Struct>,
    pub enums: Vec<Enum>,
    pub unions: Vec<Union>,
    pub functions: Vec<Function>,
    pub consts: Vec<Const>,
    /// The names of the enums and functions dropped as malformed.
    pub dropped: Vec<String>,
}

/// Extraction settings: the names to drop even when they qualify, and
/// whether only type declarations (structs and enums) are taken.
pub struct PythonWrapperGenerator {
    pub ignore_items: Vec<String>,
    pub types_only: bool,
}

pub open spec fn item_name(item: SourceItem) -> Seq<char> {
    match item {
        SourceItem::Struct { name, .. } => name@,
        SourceItem::Enum { name, .. } => name@,
        SourceItem::Union { name, .. } => name@,
        SourceItem::Const { name, .. } => name@,
        SourceItem::Fn { name, .. } => name@,
        SourceItem::Other => Seq::empty(),
    }
}

pub open spec fn is_ignored(ignore: Seq<String>, n: Seq<char>) -> bool {
    exists|j: int| 0 <= j < ignore.len() && (#[trigger] ignore[j])@ == n
}

/// Exported, foreign-call safe, not excluded, and of a kind the settings take.
pub open spec fn selected(item: SourceItem, g: PythonWrapperGenerator) -> bool {
    &&& is_public_spec(item)
    &&& is_ffi_safe_spec(item)
    &&& !is_ignored(g.ignore_items@, item_name(item))
    &&& (!g.types_only || item is Struct || item is Enum)
}

pub open spec fn of_kind(item: SourceItem, kind: DeclKind) -> bool {
    match kind {
        DeclKind::Struct => item is Struct,
        DeclKind::Enum => item is Enum,
        DeclKind::Union => item is Union,
        DeclKind::Function => item is Fn,
        DeclKind::Const => item is Const,
        DeclKind::Malformed => item is Enum || item is Fn,
    }
}

/// The item yields a declaration of the kind.
pub open spec fn kept(item: SourceItem, g: PythonWrapperGenerator, kind: DeclKind) -> bool {
    selected(item, g) && of_kind(item, kind) && if kind is Malformed {
        item_dropped(item)
    } else {
        !item_dropped(item)
    }
}

/// The positions of the items that yield a declaration of the kind, in order.
pub open spec fn positions(items: Seq<SourceItem>, g: PythonWrapperGenerator, kind: DeclKind) -> Seq<int>
    decreases items.len(),
{
    if items.len() == 0 {
        Seq::empty()
    } else {
        let prev = positions(items.drop_last(), g, kind);
        if kept(items.last(), g, kind) {
            prev.push(items.len() - 1)
        } else {
            prev
        }
    }
}

/// Some selected item has a type outside the canonical model.
pub open spec fn any_unsupported(items: Seq<SourceItem>, g: PythonWrapperGenerator) -> bool {
    exists|i: int|
        0 <= i < items.len() && selected(#[trigger] items[i], g) && item_unsupported(items[i])
}

pub open spec fn structs_match(items: Seq<SourceItem>, pos: Seq<int>, ds: Seq<Struct>) -> bool {
    ds.len() == pos.len() && forall|k: int|
        0 <= k < ds.len() ==> struct_decl_of(items[pos[k]], #[trigger] ds[k])
}

pub open spec fn enums_match(items: Seq<SourceItem>, pos: Seq<int>, ds: Seq<Enum>) -> bool {
    ds.len() == pos.len() && forall|k: int|
        0 <= k < ds.len() ==> enum_decl_of(items[pos[k]], #[trigger] ds[k])
}

pub open spec fn unions_match(items: Seq<SourceItem>, pos: Seq<int>, ds: Seq<Union>) -> bool {
    ds.len() == pos.len() && forall|k: int|
        0 <= k < ds.len() ==> union_decl_of(items[pos[k]], #[trigger] ds[k])
}

pub open spec fn functions_match(items: Seq<SourceItem>, pos: Seq<int>, ds: Seq<Function>) -> bool {
    ds.len() == pos.len() && forall|k: int|
        0 <= k < ds.len() ==> function_decl_of(items[pos[k]], #[trigger] ds[k])
}

pub open spec fn consts_match(items: Seq<SourceItem>, pos: Seq<int>, ds: Seq<Const>) -> bool {
    ds.len() == pos.len() && forall|k: int|
        0 <= k < ds.len() ==> const_decl_of(items[pos[k]], #[trigger] ds[k])
}

pub open spec fn names_match(items: Seq<SourceItem>, pos: Seq<int>, names: Seq<String>) -> bool {
    names.len() == pos.len() && forall|k: int|
        0 <= k < names.len() ==> (#[trigger] names[k])@ == item_name(items[pos[k]])
}

/// The declarations are exactly those of the kept items, each kind in source order.
pub open spec fn extracted(items: Seq<SourceItem>, g: PythonWrapperGenerator, d: Declarations) -> bool {
    &&& structs_match(items, positions(items, g, DeclKind::Struct), d.structs@)
    &&& enums_match(items, positions(items, g, DeclKind::Enum), d.enums@)
    &&& unions_match(items, positions(items, g, DeclKind::Union), d.unions@)
    &&& functions_match(items, positions(items, g, DeclKind::Function), d.functions@)
    &&& consts_match(items, positions(items, g, DeclKind::Const), d.consts@)
    &&& names_match(items, positions(items, g, DeclKind::Malformed), d.dropped@)
}

/// An enum with any variant lacking an explicit discriminant yields no
/// declaration, not even of its explicit variants.
pub proof fn lemma_implicit_enum_excluded(items: Seq<SourceItem>, g: PythonWrapperGenerator, i: int)
    requires
        0 <= i < items.len(),
        items[i] matches SourceItem::Enum { variants, .. } && !variants_explicit(variants@),
    ensures
        !positions(items, g, DeclKind::Enum).contains(i),
    decreases items.len(),
{
    lemma_positions_bounded(items, g, DeclKind::Enum);
    if i < items.len() - 1 {
        lemma_positions_bounded(items.drop_last(), g, DeclKind::Enum);
        lemma_implicit_enum_excluded(items.drop_last(), g, i);
    }
}

proof fn lemma_positions_bounded(items: Seq<SourceItem>, g: PythonWrapperGenerator, kind: DeclKind)
    ensures
        forall|k: int|
            0 <= k < positions(items, g, kind).len() ==> 0 <= #[trigger] positions(
                items,
                g,
                kind,
            )[k] < items.len() && kept(items[positions(items, g, kind)[k]], g, kind),
    decreases items.len(),
{
    if items.len() > 0 {
        lemma_positions_bounded(items.drop_last(), g, kind);
        let prev = positions(items.drop_last(), g, kind);
        let cur = positions(items, g, kind);
        assert forall|k: int| 0 <= k < cur.len() implies 0 <= #[trigger] cur[k] < items.len() && kept(
            items[cur[k]],
            g,
            kind,
        ) by {
            if k < prev.len() {
                assert(cur[k] == prev[k]);
                assert(items.drop_last()[prev[k]] == items[prev[k]]);
            }
        }
    }
}

/// The positions of a kind are exactly the items kept as that kind, in
/// increasing order.
pub proof fn lemma_positions_exact(items: Seq<SourceItem>, g: PythonWrapperGenerator, kind: DeclKind)
    ensures
        forall|i: int|
            0 <= i < items.len() ==> (positions(items, g, kind).contains(i) <==> kept(
                #[trigger] items[i],
                g,
                kind,
            )),
        forall|j: int, k: int|
            0 <= j < k < positions(items, g, kind).len() ==> positions(items, g, kind)[j]
                < positions(items, g, kind)[k],
    decreases items.len(),
{
    lemma_positions_bounded(items, g, kind);
    if items.len() > 0 {
        let prev = positions(items.drop_last(), g, kind);
        let cur = positions(items, g, kind);
        lemma_positions_exact(items.drop_last(), g, kind);
        lemma_positions_bounded(items.drop_last(), g, kind);
        assert forall|i: int| 0 <= i < items.len() implies (cur.contains(i) <==> kept(
            #[trigger] items[i],
            g,
            kind,
        )) by {
            if i < items.len() - 1 {
                assert(items.drop_last()[i] == items[i]);
                if cur.contains(i) {
                    let k = choose|k: int| 0 <= k < cur.len() && cur[k] == i;
                    if k < prev.len() {
                        assert(prev[k] == i);
                    }
                }
                if prev.contains(i) {
                    let k = choose|k: int| 0 <= k < prev.len() && prev[k] == i;
                    assert(cur[k] == i);
                }
            } else {
                if kept(items.last(), g, kind) {
                    assert(cur[prev.len() as int] == i);
                } else if cur.contains(i) {
                    let k = choose|k: int| 0 <= k < cur.len() && cur[k] == i;
                    assert(prev[k] < items.len() - 1);
                }
            }
        }
    }
}

/// A function with a receiver never yields a declaration; every other
/// selected function does, and the extracted functions keep source order.
pub proof fn lemma_receiver_functions_excluded(items: Seq<SourceItem>, g: PythonWrapperGenerator)
    ensures
        forall|i: int|
            0 <= i < items.len() && (#[trigger] items[i]) is Fn && selected(items[i], g) ==> (
            positions(items, g, DeclKind::Function).contains(i) <==> !has_receiver(
                items[i]->inputs@,
            )),
        forall|j: int, k: int|
            0 <= j < k < positions(items, g, DeclKind::Function).len() ==> positions(
                items,
                g,
                DeclKind::Function,
            )[j] < positions(items, g, DeclKind::Function)[k],
{
    lemma_positions_exact(items, g, DeclKind::Function);
}

fn ignored(ignore: &Vec<String>, n: &str) -> (r: bool)
    ensures
        r == is_ignored(ignore@, n@),
{
    let mut j: usize = 0;
    while j < ignore.len()
        invariant
            0 <= j <= ignore@.len(),
            forall|k: int| 0 <= k < j ==> (#[trigger] ignore@[k])@ != n@,
        decreases ignore@.len() - j,
    {
        if text_eq(ignore[j].as_str(), n) {
            return true;
        }
        j += 1;
    }
    false
}

fn name_of(item: &SourceItem) -> (r: &str)
    ensures
        r@ == item_name(*item),
{
    match item {
        SourceItem::Struct { name, .. } => name.as_str(),
        SourceItem::Enum { name, .. } => name.as_str(),
        SourceItem::Union { name, .. } => name.as_str(),
        SourceItem::Const { name, .. } => name.as_str(),
        SourceItem::Fn { name, .. } => name.as_str(),
        SourceItem::Other => {
            proof {
                reveal_strlit("");
            }
            ""
        },
    }
}

proof fn lemma_positions_step(items: Seq<SourceItem>, g: PythonWrapperGenerator, kind: DeclKind, i: int)
    requires
        0 <= i < items.len(),
    ensures
        positions(items.subrange(0, i + 1), g, kind) == if kept(items[i], g, kind) {
            positions(items.subrange(0, i), g, kind).push(i)
        } else {
            positions(items.subrange(0, i), g, kind)
        },
{
    assert(items.subrange(0, i + 1).drop_last() =~= items.subrange(0, i));
}

impl PythonWrapperGenerator {
    /// Extracts the declarations of the items: each item exported, foreign-call
    /// safe and not excluded is parsed as its kind. Malformed enums and
    /// functions are dropped; a type outside the canonical model fails the
    /// whole unit.
    pub fn parse(&self, items: &[SourceItem]) -> (r: Result<Declarations, GenError>)
        ensures
            match r {
                Ok(d) => !any_unsupported(items@, *self) && extracted(
                    items@,
                    *self,
                    d,
                ),
                Err(e) => any_unsupported(items@, *self) && e is UnsupportedType,
            },
    {
        let ghost g = *self;
        let mut d = Declarations {
            structs: Vec::new(),
            enums: Vec::new(),
            unions: Vec::new(),
            functions: Vec::new(),
            consts: Vec::new(),
            dropped: Vec::new(),
        };
        let mut i: usize = 0;
        while i < items.len()
            invariant
                0 <= i <= items@.len(),
                g == *self,
                forall|j: int|
                    0 <= j < i ==> !(selected(#[trigger] items@[j], g) && item_unsupported(
                        items@[j],
                    )),
                structs_match(
                    items@,
                    positions(items@.subrange(0, i as int), g, DeclKind::Struct),
                    d.structs@,
                ),
                enums_match(
                    items@,
                    positions(items@.subrange(0, i as int), g, DeclKind::Enum),
                    d.enums@,
                ),
                unions_match(
                    items@,
                    positions(items@.subrange(0, i as int), g, DeclKind::Union),
                    d.unions@,
                ),
                functions_match(
                    items@,
                    positions(items@.subrange(0, i as int), g, DeclKind::Function),
                    d.functions@,
                ),
                consts_match(
                    items@,
                    positions(items@.subrange(0, i as int), g, DeclKind::Const),
                    d.consts@,
                ),
                names_match(
                    items@,
                    positions(items@.subrange(0, i as int), g, DeclKind::Malformed),
                    d.dropped@,
                ),
            decreases items@.len() - i,
        {
            proof {
                lemma_positions_step(items@, g, DeclKind::Struct, i as int);
                lemma_positions_step(items@, g, DeclKind::Enum, i as int);
                lemma_positions_step(items@, g, DeclKind::Union, i as int);
                lemma_positions_step(items@, g, DeclKind::Function, i as int);
                lemma_positions_step(items@, g, DeclKind::Const, i as int);
                lemma_positions_step(items@, g, DeclKind::Malformed, i as int);
            }
            let item = &items[i];
            let kind_taken = match item {
                SourceItem::Struct { .. } => true,
                SourceItem::Enum { .. } => true,
                _ => !self.types_only,
            };
            if kind_taken && is_public_item(item) && is_ffi_safe_item(item) && !ignored(
                &self.ignore_items,
                name_of(item),
            ) {
                assert(selected(items@[i as int], g));
                match parse_struct(item) {
                    Err(e) => return Err(e),
                    Ok(Some(s)) => d.structs.push(s),
                    Ok(None) => {},
                }
                match parse_enum(item) {
                    Err(e) => return Err(e),
                    Ok(Some(x)) => d.enums.push(x),
                    Ok(None) => {
                        if let SourceItem::Enum { name, .. } = item {
                            d.dropped.push(name.clone());
                        }
                    },
                }
                match parse_union(item) {
                    Err(e) => return Err(e),
                    Ok(Some(u)) => d.unions.push(u),
                    Ok(None) => {},
                }
                match parse_function(item) {
                    Err(e) => return Err(e),
                    Ok(Some(f)) => d.functions.push(f),
                    Ok(None) => {
                        if let SourceItem::Fn { name, .. } = item {
                            d.dropped.push(name.clone());
                        }
                    },
                }
                match parse_const(item) {
                    Err(e) => return Err(e),
                    Ok(Some(c)) => d.consts.push(c),
                    Ok(None) => {},
                }
            }
            i += 1;
        }
        assert(items@.subrange(0, items@.len() as int) =~= items@);
        Ok(d)
    }
}

} // verus!
