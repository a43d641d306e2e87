use wrapper_generator::error::GenError;
use wrapper_generator::extract::PythonWrapperGenerator;
use wrapper_generator::parser::{
    is_ffi_safe_item, is_public_item, parse_const, parse_enum, parse_function, parse_struct,
    parse_union, Attribute, FieldDef, FnInput, SourceItem, VariantDef,
};
use wrapper_generator::types::{CanonicalType, FloatWidth, IntWidth, TypeExpr};

fn path(s: &str) -> TypeExpr {
    TypeExpr::Ident(s.to_string())
}

fn repr(entries: &[&str]) -> Attribute {
    Attribute {
        path: "repr".to_string(),
        entries: Some(entries.iter().map(|e| e.to_string()).collect()),
    }
}

fn field(name: &str, ty: TypeExpr) -> FieldDef {
    FieldDef { name: Some(name.to_string()), ty }
}

fn c_struct(name: &str, fields: Vec<FieldDef>) -> SourceItem {
    SourceItem::Struct { public: true, attrs: vec![repr(&["C"])], name: name.to_string(), fields }
}

fn variant(name: &str, d: Option<&str>) -> VariantDef {
    VariantDef { name: name.to_string(), discriminant: d.map(|x| x.to_string()) }
}

fn u8_enum(name: &str, variants: Vec<VariantDef>) -> SourceItem {
    SourceItem::Enum { public: true, attrs: vec![repr(&["u8"])], name: name.to_string(), variants }
}

fn typed(name: &str, ty: TypeExpr) -> FnInput {
    FnInput::Typed { name: name.to_string(), ty }
}

fn func(name: &str, inputs: Vec<FnInput>, output: Option<TypeExpr>) -> SourceItem {
    SourceItem::Fn { public: true, name: name.to_string(), inputs, output }
}

fn generator(ignore: &[&str]) -> PythonWrapperGenerator {
    PythonWrapperGenerator {
        ignore_items: ignore.iter().map(|s| s.to_string()).collect(),
        types_only: false,
    }
}

#[test]
fn receiver_function_is_dropped_and_others_kept() {
    let items = vec![
        func("AUTDOne", vec![typed("a", path("u32"))], None),
        func("at", vec![FnInput::Receiver, typed("i", path("u32"))], Some(path("f32"))),
        func("AUTDTwo", vec![], Some(path("bool"))),
        func("AUTDThree", vec![typed("p", TypeExpr::Ptr(Box::new(path("u8"))))], Some(path("i32"))),
    ];
    let d = generator(&[]).parse(&items).unwrap();
    let names: Vec<&str> = d.functions.iter().map(|f| f.name.as_str()).collect();
    assert_eq!(names, vec!["AUTDOne", "AUTDTwo", "AUTDThree"]);
    assert_eq!(d.functions[0].return_ty, CanonicalType::Void);
    assert_eq!(d.functions[1].return_ty, CanonicalType::Bool);
    assert_eq!(d.functions[0].args[0].name, "a");
    assert_eq!(
        d.functions[0].args[0].ty,
        CanonicalType::Int { width: IntWidth::W32, signed: false }
    );
    let mut defined = vec![];
    let mut defined_enum = vec![];
    let text = PythonWrapperGenerator::render("lib", "m", &d, &mut defined, &mut defined_enum).unwrap();
    assert!(text.contains("self.dll.AUTDOne.argtypes"));
    assert!(text.contains("self.dll.AUTDTwo.argtypes"));
    assert!(text.contains("self.dll.AUTDThree.argtypes"));
    assert!(!text.contains("self.dll.at"));
    assert!(!text.contains("def at("));
    assert_eq!(d.dropped, vec!["at".to_string()]);
}

#[test]
fn receiver_function_parses_to_nothing() {
    let at = func("at", vec![FnInput::Receiver, typed("i", path("u32"))], Some(path("f32")));
    assert!(parse_function(&at).unwrap().is_none());
}

#[test]
fn enum_with_an_implicit_variant_is_excluded() {
    let items = vec![
        u8_enum("Mixed", vec![variant("A", Some("1")), variant("B", None)]),
        u8_enum("Explicit", vec![variant("A", Some("1")), variant("None", Some("2"))]),
    ];
    assert!(parse_enum(&items[0]).unwrap().is_none());
    let d = generator(&[]).parse(&items).unwrap();
    assert_eq!(d.enums.len(), 1);
    assert_eq!(d.enums[0].name, "Explicit");
    assert_eq!(d.dropped, vec!["Mixed".to_string()]);
    assert_eq!(d.enums[0].ty, CanonicalType::Int { width: IntWidth::W8, signed: false });
    assert_eq!(
        d.enums[0].variants,
        vec![("A".to_string(), "1".to_string()), ("None".to_string(), "2".to_string())]
    );
}

#[test]
fn struct_fields_keep_order_names_and_types() {
    let item = c_struct(
        "Point",
        vec![field("x", path("f32")), field("y", path("f64")), FieldDef { name: None, ty: path("u8") }],
    );
    let s = parse_struct(&item).unwrap().unwrap();
    assert_eq!(s.name, "Point");
    let names: Vec<&str> = s.fields.iter().map(|f| f.0.as_str()).collect();
    assert_eq!(names, vec!["x", "y", "value"]);
    assert_eq!(s.fields[0].1, CanonicalType::Float { precision: FloatWidth::F32 });
    assert_eq!(s.fields[1].1, CanonicalType::Float { precision: FloatWidth::F64 });
    assert_eq!(
        s.to_python_def(&[]),
        "class Point(ctypes.Structure):\n    _fields_ = [(\"x\", ctypes.c_float), (\"y\", ctypes.c_double), (\"value\", ctypes.c_uint8)]\n\n    def __eq__(self, other: object) -> bool:\n        return isinstance(other, Point) and self._fields_ == other._fields_  # pragma: no cover"
    );
}

#[test]
fn unsupported_field_fails_the_unit() {
    let items = vec![
        c_struct("Good", vec![field("x", path("u8"))]),
        c_struct("Bad", vec![field("n", path("usize"))]),
    ];
    assert_eq!(generator(&[]).parse(&items).unwrap_err(), GenError::UnsupportedType);
    assert_eq!(parse_struct(&items[1]).unwrap_err(), GenError::UnsupportedType);
}

#[test]
fn ignored_names_are_dropped_before_classification() {
    let items = vec![
        c_struct("Bad", vec![field("n", path("usize"))]),
        c_struct("Good", vec![field("x", path("u8"))]),
    ];
    let d = generator(&["Bad"]).parse(&items).unwrap();
    assert_eq!(d.structs.len(), 1);
    assert_eq!(d.structs[0].name, "Good");
}

#[test]
fn eligibility_needs_export_and_fixed_layout() {
    let private = SourceItem::Struct {
        public: false,
        attrs: vec![repr(&["C"])],
        name: "P".to_string(),
        fields: vec![],
    };
    let no_repr = SourceItem::Struct {
        public: true,
        attrs: vec![Attribute { path: "derive".to_string(), entries: Some(vec!["Clone".to_string()]) }],
        name: "N".to_string(),
        fields: vec![],
    };
    let aligned = SourceItem::Struct {
        public: true,
        attrs: vec![repr(&["C", "align(4)"])],
        name: "A".to_string(),
        fields: vec![],
    };
    let bare_repr = SourceItem::Struct {
        public: true,
        attrs: vec![Attribute { path: "repr".to_string(), entries: None }],
        name: "B".to_string(),
        fields: vec![],
    };
    assert!(!is_public_item(&private));
    assert!(is_ffi_safe_item(&private));
    assert!(!is_ffi_safe_item(&no_repr));
    assert!(!is_ffi_safe_item(&aligned));
    assert!(!is_ffi_safe_item(&bare_repr));
    assert!(!is_public_item(&SourceItem::Other));
    assert!(!is_ffi_safe_item(&SourceItem::Other));
    let d = generator(&[]).parse(&[private, no_repr, aligned, bare_repr, SourceItem::Other]).unwrap();
    assert!(d.structs.is_empty());
}

#[test]
fn constants_need_a_numeric_type() {
    let num = SourceItem::Const {
        public: true,
        name: "NUM".to_string(),
        ty: path("u32"),
        value: "42".to_string(),
    };
    let text = SourceItem::Const {
        public: true,
        name: "TEXT".to_string(),
        ty: TypeExpr::Other("& str".to_string()),
        value: "\"a\"".to_string(),
    };
    assert!(is_ffi_safe_item(&num));
    assert!(!is_ffi_safe_item(&text));
    let d = generator(&[]).parse(&[num, text]).unwrap();
    assert_eq!(d.consts.len(), 1);
    assert_eq!(d.consts[0].name, "NUM");
    assert_eq!(d.consts[0].value, "42");
    let c = parse_const(&SourceItem::Const {
        public: true,
        name: "F".to_string(),
        ty: path("f32"),
        value: "1.5".to_string(),
    });
    assert_eq!(c.unwrap().unwrap().ty, CanonicalType::Float { precision: FloatWidth::F32 });
}

#[test]
fn unions_are_extracted() {
    let item = SourceItem::Union {
        public: true,
        attrs: vec![repr(&["C"])],
        name: "U".to_string(),
        fields: vec![field("a", path("u32")), field("b", path("f32"))],
    };
    let u = parse_union(&item).unwrap().unwrap();
    assert_eq!(u.name, "U");
    assert_eq!(u.fields.len(), 2);
    let d = generator(&[]).parse(&[item]).unwrap();
    assert_eq!(d.unions.len(), 1);
    assert!(parse_union(&c_struct("S", vec![])).unwrap().is_none());
}

#[test]
fn enum_underlying_type_comes_from_first_repr_list() {
    let e = SourceItem::Enum {
        public: true,
        attrs: vec![
            Attribute { path: "derive".to_string(), entries: Some(vec!["Clone".to_string()]) },
            repr(&["u8"]),
        ],
        name: "E".to_string(),
        variants: vec![variant("X", Some("0"))],
    };
    let parsed = parse_enum(&e).unwrap().unwrap();
    assert_eq!(parsed.ty, CanonicalType::Int { width: IntWidth::W8, signed: false });
    let two = SourceItem::Enum {
        public: true,
        attrs: vec![repr(&["C", "u8"])],
        name: "T".to_string(),
        variants: vec![variant("X", Some("0"))],
    };
    let parsed = parse_enum(&two).unwrap().unwrap();
    assert_eq!(parsed.ty, CanonicalType::Int { width: IntWidth::W8, signed: false });
    let c_only = SourceItem::Enum {
        public: true,
        attrs: vec![repr(&["C"])],
        name: "K".to_string(),
        variants: vec![variant("X", Some("0"))],
    };
    assert_eq!(parse_enum(&c_only).unwrap().unwrap().ty, CanonicalType::Named("C".to_string()));
}

#[test]
fn types_only_takes_structs_and_enums() {
    let items = vec![
        c_struct("S", vec![field("x", path("u8"))]),
        u8_enum("E", vec![variant("A", Some("0"))]),
        func("generic", vec![typed("v", TypeExpr::Path("Vec < u8 >".to_string()))], None),
        SourceItem::Const { public: true, name: "N".to_string(), ty: path("u8"), value: "1".to_string() },
    ];
    assert_eq!(generator(&[]).parse(&items).unwrap_err(), GenError::UnsupportedType);
    let g = PythonWrapperGenerator { ignore_items: vec![], types_only: true };
    let d = g.parse(&items).unwrap();
    assert_eq!(d.structs.len(), 1);
    assert_eq!(d.enums.len(), 1);
    assert!(d.functions.is_empty());
    assert!(d.consts.is_empty());
}
