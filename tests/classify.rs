use wrapper_generator::error::GenError;
use wrapper_generator::python::{CtypesType, PythonType};
use wrapper_generator::types::{classify, CanonicalType, FloatWidth, IntWidth, TypeExpr};

fn path(s: &str) -> TypeExpr {
    TypeExpr::Path(s.to_string())
}

fn ident(s: &str) -> TypeExpr {
    TypeExpr::Ident(s.to_string())
}

fn ptr(t: TypeExpr) -> TypeExpr {
    TypeExpr::Ptr(Box::new(t))
}

fn named(s: &str) -> CanonicalType {
    CanonicalType::Named(s.to_string())
}

fn pointer(t: CanonicalType, depth: u8) -> CanonicalType {
    CanonicalType::Pointer(Box::new(t), depth)
}

#[test]
fn pointer_to_struct_is_depth_one_named() {
    assert_eq!(classify(&ptr(ident("SomeStruct"))), Ok(pointer(named("SomeStruct"), 1)));
}

#[test]
fn char_pointer_is_c_string_distinct_from_byte_pointer() {
    let c_string = classify(&ptr(ident("c_char"))).unwrap();
    let bytes = classify(&ptr(ident("u8"))).unwrap();
    assert_eq!(c_string, pointer(CanonicalType::Char, 1));
    assert_eq!(
        bytes,
        pointer(CanonicalType::Int { width: IntWidth::W8, signed: false }, 1)
    );
    assert_ne!(c_string, bytes);
    assert_eq!(CtypesType::of(&c_string).0, "ctypes.c_char_p");
    assert_eq!(CtypesType::of(&bytes).0, "ctypes.POINTER(ctypes.c_uint8)");
    assert_eq!(PythonType::of(&c_string).0, "bytes");
    assert_eq!(PythonType::of(&bytes).0, "ctypes.Array[ctypes.c_uint8]");
}

#[test]
fn double_float_pointer_is_depth_two() {
    let t = classify(&ptr(ptr(ident("f32")))).unwrap();
    assert_eq!(t, pointer(CanonicalType::Float { precision: FloatWidth::F32 }, 2));
    assert_eq!(CtypesType::of(&t).0, "ctypes.POINTER(ctypes.POINTER(ctypes.c_float))");
    assert_eq!(PythonType::of(&t).0, "ctypes.Array[ctypes.Array[ctypes.c_float]]");
}

#[test]
fn double_struct_pointer_is_depth_two_named() {
    assert_eq!(classify(&ptr(ptr(ident("SomeStruct")))), Ok(pointer(named("SomeStruct"), 2)));
}

#[test]
fn triple_pointer_is_unsupported() {
    assert_eq!(classify(&ptr(ptr(ptr(ident("f32"))))), Err(GenError::UnsupportedType));
    assert_eq!(classify(&ptr(ptr(ptr(path("libc :: c_void"))))), Err(GenError::UnsupportedType));
    let paren = ptr(TypeExpr::Paren(Box::new(ptr(ptr(ident("u8"))))));
    assert_eq!(classify(&paren), Err(GenError::UnsupportedType));
}

#[test]
fn void_pointers() {
    assert_eq!(classify(&path("libc :: c_void")), Ok(CanonicalType::Void));
    let p = classify(&ptr(path("libc :: c_void"))).unwrap();
    assert_eq!(p, CanonicalType::VoidPointer);
    assert_eq!(CtypesType::of(&p).0, "ctypes.c_void_p");
    let pp = classify(&ptr(ptr(path("libc :: c_void")))).unwrap();
    assert_eq!(pp, pointer(CanonicalType::Void, 2));
    assert_eq!(CtypesType::of(&pp).0, "ctypes.POINTER(ctypes.c_void_p)");
    assert_eq!(classify(&ident("ConstPtr")), Ok(CanonicalType::VoidPointer));
    assert_eq!(classify(&ptr(ident("ConstPtr"))), Ok(pointer(CanonicalType::VoidPointer, 1)));
}

#[test]
fn primitives_map_by_exact_name() {
    assert_eq!(classify(&ident("bool")), Ok(CanonicalType::Bool));
    assert_eq!(classify(&ident("char")), Ok(CanonicalType::Char));
    assert_eq!(classify(&ident("f64")), Ok(CanonicalType::Float { precision: FloatWidth::F64 }));
    assert_eq!(
        classify(&ident("i16")),
        Ok(CanonicalType::Int { width: IntWidth::W16, signed: true })
    );
    assert_eq!(
        classify(&ident("NonZeroU16")),
        Ok(CanonicalType::Int { width: IntWidth::W16, signed: false })
    );
    assert_eq!(classify(&ident("NonZeroU64")), classify(&ident("u64")));
    let all = [
        ("i8", "ctypes.c_int8"),
        ("i16", "ctypes.c_int16"),
        ("i32", "ctypes.c_int32"),
        ("i64", "ctypes.c_int64"),
        ("u8", "ctypes.c_uint8"),
        ("u16", "ctypes.c_uint16"),
        ("u32", "ctypes.c_uint32"),
        ("u64", "ctypes.c_uint64"),
        ("f32", "ctypes.c_float"),
        ("f64", "ctypes.c_double"),
        ("bool", "ctypes.c_bool"),
        ("c_char", "ctypes.c_char"),
    ];
    for (src, spelled) in all {
        assert_eq!(CtypesType::of(&classify(&path(src)).unwrap()).0, spelled);
    }
}

#[test]
fn pointer_sized_integers_are_unsupported() {
    assert_eq!(classify(&ident("usize")), Err(GenError::UnsupportedType));
    assert_eq!(classify(&ident("isize")), Err(GenError::UnsupportedType));
    assert_eq!(classify(&ptr(ident("usize"))), Err(GenError::UnsupportedType));
}

#[test]
fn unsupported_shapes() {
    assert_eq!(classify(&path("Vec < u8 >")), Err(GenError::UnsupportedType));
    assert_eq!(classify(&path("std :: ffi :: c_int")), Err(GenError::UnsupportedType));
    assert_eq!(classify(&TypeExpr::Other("(u8 , u8)".to_string())), Err(GenError::UnsupportedType));
}

#[test]
fn parens_and_arrays() {
    let t = TypeExpr::Array(Box::new(TypeExpr::Paren(Box::new(ident("u8")))), "4".to_string());
    let c = classify(&t).unwrap();
    assert_eq!(
        c,
        CanonicalType::Array(
            Box::new(CanonicalType::Int { width: IntWidth::W8, signed: false }),
            "4".to_string()
        )
    );
    assert_eq!(CtypesType::of(&c).0, "ctypes.c_uint8 * 4");
    assert_eq!(PythonType::of(&c).0, "int * 4");
    let nested = TypeExpr::Array(Box::new(ptr(ident("Foo"))), "2".to_string());
    assert_eq!(CtypesType::of(&classify(&nested).unwrap()).0, "ctypes.POINTER(Foo) * 2");
}

#[test]
fn named_types_pass_through() {
    let t = classify(&ident("Vector3")).unwrap();
    assert_eq!(t, named("Vector3"));
    assert_eq!(CtypesType::of(&t).0, "Vector3");
    assert_eq!(PythonType::of(&t).0, "Vector3");
}
