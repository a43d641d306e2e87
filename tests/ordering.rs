use wrapper_generator::error::{GenError, Unresolved};
use wrapper_generator::order::sort_structs;
use wrapper_generator::parser::Struct;
use wrapper_generator::types::{CanonicalType, FloatWidth};

fn float() -> CanonicalType {
    CanonicalType::Float { precision: FloatWidth::F32 }
}

fn named(s: &str) -> CanonicalType {
    CanonicalType::Named(s.to_string())
}

fn st(name: &str, fields: Vec<(&str, CanonicalType)>) -> Struct {
    Struct {
        name: name.to_string(),
        fields: fields.into_iter().map(|(n, t)| (n.to_string(), t)).collect(),
    }
}

fn names(v: &[Struct]) -> Vec<String> {
    v.iter().map(|s| s.name.clone()).collect()
}

#[test]
fn point_before_line() {
    let point = st("Point", vec![("x", float()), ("y", float())]);
    let line = st("Line", vec![("a", named("Point")), ("b", named("Point"))]);
    let sorted = sort_structs(&[line, point], vec![]).unwrap();
    assert_eq!(names(&sorted), vec!["Point", "Line"]);
    assert_eq!(sorted[1].fields.len(), 2);
    assert_eq!(sorted[1].fields[0].0, "a");
    assert_eq!(sorted[1].fields[0].1, named("Point"));
}

#[test]
fn point_before_line_in_source_order_too() {
    let point = st("Point", vec![("x", float()), ("y", float())]);
    let line = st("Line", vec![("a", named("Point")), ("b", named("Point"))]);
    let sorted = sort_structs(&[point, line], vec![]).unwrap();
    assert_eq!(names(&sorted), vec!["Point", "Line"]);
}

#[test]
fn unconstrained_structs_keep_discovery_order() {
    let v = vec![
        st("C", vec![("x", float())]),
        st("A", vec![("x", float())]),
        st("B", vec![("x", float())]),
    ];
    assert_eq!(names(&sort_structs(&v, vec![]).unwrap()), vec!["C", "A", "B"]);
}

#[test]
fn later_passes_place_what_earlier_ones_could_not() {
    let v = vec![
        st("Outer", vec![("m", named("Middle"))]),
        st("Middle", vec![("i", named("Inner"))]),
        st("Free", vec![("x", float())]),
        st("Inner", vec![("x", float())]),
    ];
    let sorted = sort_structs(&v, vec![]).unwrap();
    assert_eq!(names(&sorted), vec!["Free", "Inner", "Middle", "Outer"]);
}

#[test]
fn pre_known_names_need_no_struct() {
    let v = vec![st("Pose", vec![("p", named("Vector3")), ("q", named("Quaternion"))])];
    let sorted = sort_structs(&v, vec!["Vector3".to_string(), "Quaternion".to_string()]).unwrap();
    assert_eq!(names(&sorted), vec!["Pose"]);
}

#[test]
fn arrays_reference_their_element_and_pointers_do_not() {
    let arr = CanonicalType::Array(Box::new(named("Elem")), "3".to_string());
    let v = vec![
        st("Holder", vec![("items", arr), ("next", CanonicalType::Pointer(Box::new(named("Holder")), 1))]),
        st("Elem", vec![("x", float())]),
    ];
    assert_eq!(names(&sort_structs(&v, vec![]).unwrap()), vec!["Elem", "Holder"]);
}

#[test]
fn mutual_reference_fails_with_report() {
    let v = vec![
        st("A", vec![("b", named("B"))]),
        st("B", vec![("a", named("A")), ("x", float())]),
    ];
    let r = sort_structs(&v, vec![]);
    assert_eq!(
        r.unwrap_err(),
        GenError::UnresolvedDependency(vec![
            Unresolved { name: "A".to_string(), missing: vec!["B".to_string()] },
            Unresolved { name: "B".to_string(), missing: vec!["A".to_string()] },
        ])
    );
}

#[test]
fn unknown_reference_fails_and_names_it() {
    let v = vec![
        st("Ok1", vec![("x", float())]),
        st("Bad", vec![("o", named("Ok1")), ("m", named("Missing")), ("n", named("Nowhere"))]),
    ];
    assert_eq!(
        sort_structs(&v, vec![]).unwrap_err(),
        GenError::UnresolvedDependency(vec![Unresolved {
            name: "Bad".to_string(),
            missing: vec!["Missing".to_string(), "Nowhere".to_string()],
        }])
    );
}

#[test]
fn empty_input_orders_to_nothing() {
    assert!(sort_structs(&[], vec![]).unwrap().is_empty());
}
