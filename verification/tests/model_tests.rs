use gdext_core::json_models::{
    JsonBuiltin, JsonBuiltinEnum, JsonClass, JsonEnum, JsonEnumConstant, JsonExtensionApi,
    JsonHeader, JsonMethodReturn, JsonSingleton,
};
use gdext_core::schema::{ingest, SchemaError};

fn header() -> JsonHeader {
    JsonHeader {
        version_major: 4,
        version_minor: 0,
        version_patch: 0,
        version_status: "stable".to_string(),
        version_build: "official".to_string(),
        version_full_name: "v4.0.stable.official".to_string(),
    }
}

fn class(name: &str, inherits: Option<&str>, is_refcounted: bool) -> JsonClass {
    JsonClass {
        name: name.to_string(),
        is_refcounted,
        is_instantiable: true,
        inherits: inherits.map(|s| s.to_string()),
        api_type: "core".to_string(),
        constants: None,
        enums: None,
        methods: None,
    }
}

fn api_with_classes(classes: Vec<JsonClass>) -> JsonExtensionApi {
    JsonExtensionApi {
        header: header(),
        builtin_class_sizes: Vec::new(),
        builtin_classes: Vec::new(),
        classes,
        global_enums: Vec::new(),
        utility_functions: Vec::new(),
        native_structures: Vec::new(),
        singletons: Vec::new(),
    }
}

fn class_index(m: &gdext_core::schema::ApiModel, name: &str) -> usize {
    m.classes
        .iter()
        .position(|c| c.name == name)
        .expect("class not in model")
}

#[test]
fn ingest_orders_parents_first() {
    // children listed before their parents: ingestion must still succeed
    let api = api_with_classes(vec![
        class("Node3D", Some("Node"), false),
        class("Sprite", Some("Object"), false),
        class("Node", Some("Object"), false),
        class("Object", None, false),
    ]);
    let m = ingest(&api).expect("valid schema");
    assert_eq!(m.classes.len(), 4);
    let object = class_index(&m, "Object");
    let node = class_index(&m, "Node");
    let node3d = class_index(&m, "Node3D");
    let sprite = class_index(&m, "Sprite");
    assert!(m.classes[object].parent.is_none());
    assert_eq!(m.classes[node].parent, Some(object));
    assert_eq!(m.classes[node3d].parent, Some(node));
    assert_eq!(m.classes[sprite].parent, Some(object));
    // topological order: every parent index is smaller
    for (i, c) in m.classes.iter().enumerate() {
        if let Some(p) = c.parent {
            assert!(p < i);
        }
    }
    assert_eq!(m.header.version_full_name, "v4.0.stable.official");
}

#[test]
fn ingest_rejects_duplicate_names() {
    let api = api_with_classes(vec![
        class("Object", None, false),
        class("Object", None, false),
    ]);
    match ingest(&api) {
        Err(SchemaError::DuplicateClass(name)) => assert_eq!(name, "Object"),
        other => panic!("expected duplicate-class error, got {:?}", other.map(|_| ())),
    }
}

#[test]
fn ingest_rejects_dangling_parent() {
    let api = api_with_classes(vec![class("Node", Some("Missing"), false)]);
    match ingest(&api) {
        Err(SchemaError::DanglingParent(class_name, parent)) => {
            assert_eq!(class_name, "Node");
            assert_eq!(parent, "Missing");
        }
        other => panic!("expected dangling-parent error, got {:?}", other.map(|_| ())),
    }
}

#[test]
fn ingest_rejects_inheritance_cycle() {
    let api = api_with_classes(vec![
        class("A", Some("B"), false),
        class("B", Some("A"), false),
    ]);
    assert!(matches!(
        ingest(&api),
        Err(SchemaError::InheritanceCycle(_))
    ));
}

#[test]
fn ingest_rejects_self_inheritance() {
    let api = api_with_classes(vec![class("A", Some("A"), false)]);
    assert!(matches!(
        ingest(&api),
        Err(SchemaError::InheritanceCycle(_))
    ));
}

#[test]
fn enum_ord_narrows_identically() {
    let c = JsonEnumConstant {
        name: "FLAG".to_string(),
        value: -5,
    };
    assert_eq!(c.to_enum_ord(), -5);
    assert_eq!(c.to_enum_ord_checked(), Some(-5));
    let min = JsonEnumConstant {
        name: "MIN".to_string(),
        value: i32::MIN as i64,
    };
    assert_eq!(min.to_enum_ord_checked(), Some(i32::MIN));
    let max = JsonEnumConstant {
        name: "MAX".to_string(),
        value: i32::MAX as i64,
    };
    assert_eq!(max.to_enum_ord_checked(), Some(i32::MAX));
}

#[test]
fn enum_ord_rejects_out_of_range() {
    let too_big = JsonEnumConstant {
        name: "BIG".to_string(),
        value: (i32::MAX as i64) + 1,
    };
    assert_eq!(too_big.to_enum_ord_checked(), None);
    let too_small = JsonEnumConstant {
        name: "SMALL".to_string(),
        value: (i32::MIN as i64) - 1,
    };
    assert_eq!(too_small.to_enum_ord_checked(), None);
}

#[test]
fn ingest_rejects_out_of_range_enum_value() {
    let mut api = api_with_classes(vec![class("Object", None, false)]);
    api.global_enums.push(JsonEnum {
        name: "Error".to_string(),
        is_bitfield: false,
        values: vec![JsonEnumConstant {
            name: "HUGE".to_string(),
            value: 1 << 40,
        }],
    });
    match ingest(&api) {
        Err(SchemaError::EnumOutOfRange(name, value)) => {
            assert_eq!(name, "HUGE");
            assert_eq!(value, 1 << 40);
        }
        other => panic!("expected out-of-range error, got {:?}", other.map(|_| ())),
    }
}

#[test]
fn builtin_enums_are_folded_without_bitfield() {
    let mut api = api_with_classes(vec![class("Object", None, false)]);
    api.builtin_classes.push(JsonBuiltin {
        name: "Vector2".to_string(),
        indexing_return_type: None,
        is_keyed: false,
        enums: Some(vec![JsonBuiltinEnum {
            name: "Axis".to_string(),
            values: vec![
                JsonEnumConstant {
                    name: "AXIS_X".to_string(),
                    value: 0,
                },
                JsonEnumConstant {
                    name: "AXIS_Y".to_string(),
                    value: 1,
                },
            ],
        }]),
        operators: Vec::new(),
        methods: None,
        constructors: Vec::new(),
        has_destructor: false,
    });
    let m = ingest(&api).expect("valid schema");
    assert_eq!(m.builtin_enums.len(), 1);
    assert_eq!(m.builtin_enums[0].name, "Axis");
    assert!(!m.builtin_enums[0].is_bitfield);
    assert_eq!(m.builtin_enums[0].values.len(), 2);
    assert_eq!(m.builtin_enums[0].values[1].name, "AXIS_Y");
    assert_eq!(m.builtin_enums[0].values[1].ord, 1);
}

#[test]
fn to_enum_forces_bitfield_off() {
    let e = JsonBuiltinEnum {
        name: "Axis".to_string(),
        values: vec![JsonEnumConstant {
            name: "AXIS_X".to_string(),
            value: 0,
        }],
    };
    let folded = e.to_enum();
    assert_eq!(folded.name, "Axis");
    assert!(!folded.is_bitfield);
    assert_eq!(folded.values.len(), 1);
    assert_eq!(folded.values[0].name, "AXIS_X");
}

#[test]
fn from_type_no_meta_carries_type_only() {
    let r = JsonMethodReturn::from_type_no_meta("int");
    assert_eq!(r.type_, "int");
    assert!(r.meta.is_none());
}

#[test]
fn singletons_are_kept_by_name() {
    let mut api = api_with_classes(vec![class("Engine", None, false)]);
    api.singletons.push(JsonSingleton {
        name: "Engine".to_string(),
    });
    let m = ingest(&api).expect("valid schema");
    assert_eq!(m.singletons, vec!["Engine".to_string()]);
}
