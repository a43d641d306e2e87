use wrapper_generator::error::GenError;
use wrapper_generator::extract::{Declarations, PythonWrapperGenerator};
use wrapper_generator::parser::{Arg, Const, Enum, Function, Struct, Union};
use wrapper_generator::python::{escape_python_builtin, to_python_func_name};
use wrapper_generator::render::to_python_method;
use wrapper_generator::types::{CanonicalType, FloatWidth, IntWidth};

fn float() -> CanonicalType {
    CanonicalType::Float { precision: FloatWidth::F32 }
}

fn u8t() -> CanonicalType {
    CanonicalType::Int { width: IntWidth::W8, signed: false }
}

fn named(s: &str) -> CanonicalType {
    CanonicalType::Named(s.to_string())
}

fn st(name: &str, fields: Vec<(&str, CanonicalType)>) -> Struct {
    Struct {
        name: name.to_string(),
        fields: fields.into_iter().map(|(n, t)| (n.to_string(), t)).collect(),
    }
}

fn empty() -> Declarations {
    Declarations {
        structs: vec![],
        enums: vec![],
        unions: vec![],
        functions: vec![],
        consts: vec![],
        dropped: vec![],
    }
}

fn point_line() -> Declarations {
    let mut d = empty();
    d.structs = vec![
        st("Line", vec![("a", named("Point")), ("b", named("Point"))]),
        st("Point", vec![("x", float()), ("y", float())]),
    ];
    d
}

const POINT: &str = "class Point(ctypes.Structure):\n    _fields_ = [(\"x\", ctypes.c_float), (\"y\", ctypes.c_float)]\n\n    def __eq__(self, other: object) -> bool:\n        return isinstance(other, Point) and self._fields_ == other._fields_  # pragma: no cover";
const LINE: &str = "class Line(ctypes.Structure):\n    _fields_ = [(\"a\", Point), (\"b\", Point)]\n\n    def __eq__(self, other: object) -> bool:\n        return isinstance(other, Line) and self._fields_ == other._fields_  # pragma: no cover";

#[test]
fn struct_definition_text() {
    let p = st("Point", vec![("x", float()), ("y", float())]);
    assert_eq!(p.to_python_def(&[]), POINT);
}

#[test]
fn point_line_module_emits_point_first() {
    let mut defined = vec![];
    let mut defined_enum = vec![];
    let text =
        PythonWrapperGenerator::render("lib", "m.geo", &point_line(), &mut defined, &mut defined_enum)
            .unwrap();
    assert_eq!(text, format!("import ctypes\n\n\n{}\n\n\n{}\n", POINT, LINE));
    let rec: Vec<(&str, &str)> = defined.iter().map(|(a, b)| (a.as_str(), b.as_str())).collect();
    assert_eq!(rec, vec![("Line", "m.geo"), ("Point", "m.geo")]);
    assert!(defined_enum.is_empty());
}

#[test]
fn rendering_twice_gives_identical_text() {
    let mut d1 = vec![("Vector3".to_string(), "m.structs".to_string())];
    let mut e1 = vec![];
    let mut d2 = vec![("Vector3".to_string(), "m.structs".to_string())];
    let mut e2 = vec![];
    let a = PythonWrapperGenerator::render("lib", "m.geo", &point_line(), &mut d1, &mut e1).unwrap();
    let b = PythonWrapperGenerator::render("lib", "m.geo", &point_line(), &mut d2, &mut e2).unwrap();
    assert_eq!(a, b);
    assert_eq!(d1, d2);
}

#[test]
fn cycle_renders_nothing_and_records_nothing() {
    let mut d = empty();
    d.structs = vec![st("A", vec![("b", named("B"))]), st("B", vec![("a", named("A"))])];
    let mut defined = vec![("X".to_string(), "m".to_string())];
    let mut defined_enum = vec![];
    let r = PythonWrapperGenerator::render("lib", "m.x", &d, &mut defined, &mut defined_enum);
    assert!(matches!(r, Err(GenError::UnresolvedDependency(_))));
    assert_eq!(defined, vec![("X".to_string(), "m".to_string())]);
}

#[test]
fn enum_definition_escapes_none() {
    let e = Enum {
        name: "Segment".to_string(),
        ty: u8t(),
        variants: vec![("S0".to_string(), "0".to_string()), ("None".to_string(), "1".to_string())],
    };
    assert_eq!(
        e.to_python_def(),
        "class Segment(enum.IntEnum):\n    S0 = 0\n    None_ = 1\n\n    @classmethod\n    def from_param(cls, obj):\n        return int(obj)  # pragma: no cover"
    );
}

#[test]
fn union_and_const_definitions() {
    let u = Union { name: "V".to_string(), fields: vec![("a".to_string(), u8t()), ("b".to_string(), float())] };
    assert_eq!(
        u.to_python_def(&[]),
        "class V(ctypes.Union):\n    _fields_ = [(\"a\", ctypes.c_uint8), (\"b\", ctypes.c_float)]"
    );
    let c = Const { name: "NUM".to_string(), ty: u8t(), value: "4".to_string() };
    assert_eq!(c.to_python_def(), "NUM: int = 4");
    let f = Const { name: "PI".to_string(), ty: float(), value: "3.14".to_string() };
    assert_eq!(f.to_python_def(), "PI: float = 3.14");
}

#[test]
fn enums_stand_for_their_underlying_type_in_fields() {
    let mut d = empty();
    d.enums = vec![Enum {
        name: "Mode".to_string(),
        ty: u8t(),
        variants: vec![("A".to_string(), "0".to_string())],
    }];
    d.structs = vec![st("Cfg", vec![("mode", named("Mode")), ("p", CanonicalType::Pointer(Box::new(named("Mode")), 1))])];
    let mut defined = vec![];
    let mut defined_enum = vec![];
    let text = PythonWrapperGenerator::render("lib", "m.cfg", &d, &mut defined, &mut defined_enum).unwrap();
    assert!(text.starts_with("import ctypes\nimport enum\n\n\nclass Mode(enum.IntEnum):\n"));
    assert!(text.contains("_fields_ = [(\"mode\", ctypes.c_uint8), (\"p\", ctypes.POINTER(ctypes.c_uint8))]"));
    assert_eq!(defined_enum.len(), 1);
    assert_eq!(defined_enum[0].name, "Mode");
    let rec: Vec<&str> = defined.iter().map(|(a, _)| a.as_str()).collect();
    assert_eq!(rec, vec!["Mode", "Cfg"]);
}

#[test]
fn cross_module_types_are_imported_when_used() {
    let mut d = empty();
    d.structs = vec![st("Pose", vec![("p", named("Vector3")), ("q", CanonicalType::Pointer(Box::new(named("Quaternion")), 1))])];
    let mut defined = vec![
        ("Vector3".to_string(), "pkg.structs".to_string()),
        ("Unused".to_string(), "pkg.other".to_string()),
        ("Quaternion".to_string(), "pkg.structs".to_string()),
    ];
    let mut defined_enum = vec![];
    let text = PythonWrapperGenerator::render("lib", "pkg.pose", &d, &mut defined, &mut defined_enum).unwrap();
    assert!(text.starts_with(
        "import ctypes\nfrom pkg.structs import Vector3\nfrom pkg.structs import Quaternion\n\n\nclass Pose("
    ));
    assert!(!text.contains("Unused"));
    assert_eq!(defined.len(), 4);
    assert_eq!(defined[3], ("Pose".to_string(), "pkg.pose".to_string()));
}

#[test]
fn functions_become_loader_methods() {
    let mut d = empty();
    d.functions = vec![
        Function {
            name: "AUTDLinkSetTimeout".to_string(),
            return_ty: CanonicalType::Bool,
            args: vec![
                Arg { name: "len".to_string(), ty: CanonicalType::Int { width: IntWidth::W32, signed: false } },
                Arg { name: "ptr".to_string(), ty: CanonicalType::Pointer(Box::new(CanonicalType::Char), 1) },
            ],
        },
        Function { name: "AUTDFree".to_string(), return_ty: CanonicalType::Void, args: vec![] },
    ];
    let mut defined = vec![];
    let mut defined_enum = vec![];
    let text = PythonWrapperGenerator::render("autd3capi", "m.capi", &d, &mut defined, &mut defined_enum).unwrap();
    assert!(text.starts_with("import threading\nfrom pathlib import Path\nimport ctypes\n\nclass Singleton(type):\n"));
    assert!(text.contains("self.dll = ctypes.CDLL(str(bin_location / f'{bin_prefix}autd3capi{bin_ext}'))\n"));
    assert!(text.contains(
        "\n        self.dll.AUTDLinkSetTimeout.argtypes = [ctypes.c_uint32, ctypes.c_char_p]\n        self.dll.AUTDLinkSetTimeout.restype = ctypes.c_bool\n"
    ));
    assert!(text.contains("\n        self.dll.AUTDFree.argtypes = []\n        self.dll.AUTDFree.restype = None\n"));
    assert!(text.ends_with(
        "\n    def link_set_timeout(self, len_: int, ptr: bytes) -> ctypes.c_bool:\n        return self.dll.AUTDLinkSetTimeout(len_, ptr)\n\n    def free(self) -> None:\n        return self.dll.AUTDFree()\n"
    ));
}

#[test]
fn function_argument_and_return_lists() {
    let f = Function {
        name: "AUTDX".to_string(),
        return_ty: named("Mode"),
        args: vec![Arg { name: "m".to_string(), ty: named("Mode") }, Arg { name: "v".to_string(), ty: float() }],
    };
    let enums = vec![Enum { name: "Mode".to_string(), ty: u8t(), variants: vec![] }];
    assert_eq!(f.to_python_def_arg(&enums), "ctypes.c_uint8, ctypes.c_float");
    assert_eq!(f.to_python_def_arg(&[]), "Mode, ctypes.c_float");
    assert_eq!(f.to_python_def_return(), "Mode");
}

#[test]
fn builtin_names_are_escaped() {
    assert_eq!(escape_python_builtin("len"), "len_");
    assert_eq!(escape_python_builtin("dir"), "dir_");
    assert_eq!(escape_python_builtin("map"), "map_");
    assert_eq!(escape_python_builtin("range"), "range_");
    assert_eq!(escape_python_builtin("length"), "length");
}

#[test]
fn method_names_drop_prefix_and_become_snake_case() {
    assert_eq!(to_python_func_name("AUTDGeometryNumDevices"), "geometry_num_devices");
    assert_eq!(to_python_func_name("AUTDFree"), "free");
    assert_eq!(to_python_func_name("abc"), "");
}

#[test]
fn empty_module_is_empty() {
    let mut defined = vec![];
    let mut defined_enum = vec![];
    let text = PythonWrapperGenerator::render("lib", "m", &empty(), &mut defined, &mut defined_enum).unwrap();
    assert_eq!(text, "");
}

#[test]
fn method_under_a_given_name() {
    let f = Function {
        name: "AUTDRange".to_string(),
        return_ty: float(),
        args: vec![Arg { name: "range".to_string(), ty: u8t() }, Arg { name: "p".to_string(), ty: CanonicalType::Pointer(Box::new(float()), 1) }],
    };
    assert_eq!(
        to_python_method(&f, "span"),
        "\n    def span(self, range_: int, p: ctypes.Array[ctypes.c_float]) -> ctypes.c_float:\n        return self.dll.AUTDRange(range_, p)\n"
    );
}

#[test]
fn pointer_handles_come_before_unions() {
    let mut d = empty();
    d.unions = vec![Union { name: "V".to_string(), fields: vec![("h".to_string(), named("GainPtr"))] }];
    d.structs = vec![
        st("Wrap", vec![("v", named("V"))]),
        st("GainPtr", vec![("value", CanonicalType::VoidPointer)]),
    ];
    let mut defined = vec![];
    let mut defined_enum = vec![];
    let text = PythonWrapperGenerator::render("lib", "m", &d, &mut defined, &mut defined_enum).unwrap();
    let handle = text.find("class GainPtr(ctypes.Structure):\n    _fields_ = [(\"value\", ctypes.c_void_p)]").unwrap();
    let union = text.find("class V(ctypes.Union)").unwrap();
    let wrap = text.find("class Wrap(").unwrap();
    assert!(handle < union && union < wrap);
    assert_eq!(text.matches("class GainPtr(").count(), 1);
}
