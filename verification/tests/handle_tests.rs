use gdext_core::declarer::{ClassDeclarer, EngineClass as EngineDeclarer, InstanceStorage, UserClass};
use gdext_core::errors::{GdIoError, GlobalError, NotUniqueError};
use gdext_core::generator::{assign_policies, find_virtual_method, generate_edges, InheritanceEdge, MemoryPolicy};
use gdext_core::json_models::{JsonClass, JsonClassMethod, JsonExtensionApi, JsonHeader, JsonSingleton};
use gdext_core::resource::{load, load_impl, save, save_impl, try_load, try_save};
use gdext_core::runtime::HostRuntime;
use gdext_core::schema::{ingest, ApiModel};
use gdext_core::traits::{
    DynamicRefCount, EngineClass, GodotClass, ManualMemory, Memory, StaticRefCount,
};

fn header() -> JsonHeader {
    JsonHeader {
        version_major: 4,
        version_minor: 0,
        version_patch: 0,
        version_status: "stable".to_string(),
        version_build: "official".to_string(),
        version_full_name: "v4.0.stable.official".to_string(),
    }
}

fn class(name: &str, inherits: Option<&str>, is_refcounted: bool) -> JsonClass {
    JsonClass {
        name: name.to_string(),
        is_refcounted,
        is_instantiable: true,
        inherits: inherits.map(|s| s.to_string()),
        api_type: "core".to_string(),
        constants: None,
        enums: None,
        methods: None,
    }
}

/// Object (root), Node (inherits Object), Node3D (inherits Node),
/// Sprite (inherits Object), RefCounted (inherits Object, counted),
/// Resource (inherits RefCounted, counted), OS (root, singleton).
fn model() -> ApiModel {
    let api = JsonExtensionApi {
        header: header(),
        builtin_class_sizes: Vec::new(),
        builtin_classes: Vec::new(),
        classes: vec![
            class("Object", None, false),
            class("Node", Some("Object"), false),
            class("Node3D", Some("Node"), false),
            class("Sprite", Some("Object"), false),
            class("RefCounted", Some("Object"), true),
            class("Resource", Some("RefCounted"), true),
            class("OS", None, false),
        ],
        global_enums: Vec::new(),
        utility_functions: Vec::new(),
        native_structures: Vec::new(),
        singletons: vec![JsonSingleton {
            name: "OS".to_string(),
        }],
    };
    ingest(&api).expect("valid schema")
}

fn idx(m: &ApiModel, name: &str) -> usize {
    m.classes.iter().position(|c| c.name == name).unwrap()
}

#[test]
fn edges_cover_every_transitive_ancestor() {
    let m = model();
    let edges = generate_edges(&m);
    let object = idx(&m, "Object");
    let node = idx(&m, "Node");
    let node3d = idx(&m, "Node3D");
    let sprite = idx(&m, "Sprite");
    let has = |d: usize, b: usize| {
        edges.contains(&InheritanceEdge {
            derived: d,
            base: b,
        })
    };
    assert!(has(node, object));
    assert!(has(node3d, object));
    assert!(has(node3d, node));
    assert!(has(sprite, object));
    assert!(!has(node, node3d));
    assert!(!has(object, object));
    assert!(!has(sprite, node));
}

#[test]
fn generation_is_deterministic() {
    let m = model();
    assert_eq!(generate_edges(&m), generate_edges(&m));
}

#[test]
fn upcast_then_cast_back_preserves_address() {
    let m = model();
    let mut rt = HostRuntime::new();
    let node3d = idx(&m, "Node3D");
    let object = idx(&m, "Object");
    let sprite = idx(&m, "Sprite");

    let gd = rt.instantiate(&m, node3d);
    let original_ptr = gd.as_object_ptr();

    let as_object = gd.upcast(&m, object);
    assert_eq!(as_object.object_ptr, original_ptr);
    assert_eq!(as_object.class_id, object);

    let back = as_object
        .try_cast(&rt, &m, node3d)
        .expect("dynamic class is exactly Node3D");
    assert_eq!(back.object_ptr, original_ptr);
    assert_eq!(back.class_id, node3d);

    // casting the same instance to an unrelated class names both classes
    let as_object = back.upcast(&m, object);
    match as_object.try_cast(&rt, &m, sprite) {
        Err(e) => {
            assert_eq!(e.to, "Sprite");
            assert_eq!(e.from, "Node3D");
        }
        Ok(_) => panic!("cast to unrelated class must fail"),
    }
}

#[test]
fn uniqueness_check_succeeds_on_count_one() {
    let m = model();
    let mut rt = HostRuntime::new();
    let rc = rt.instantiate(&m, idx(&m, "RefCounted"));
    let ptr = rc.object_ptr;
    assert_eq!(rt.get_reference_count(&rc), 1);
    let back = NotUniqueError::check(&rt, &m, rc).expect("uniquely held");
    assert_eq!(back.object_ptr, ptr);
}

#[test]
fn uniqueness_check_reports_observed_count() {
    let m = model();
    let mut rt = HostRuntime::new();
    let rc = rt.instantiate(&m, idx(&m, "RefCounted"));
    let dup = rt.share(&m, &rc);
    assert_eq!(rt.get_reference_count(&rc), 2);
    match NotUniqueError::check(&rt, &m, rc) {
        Err(e) => assert_eq!(e.get_reference_count(), 2),
        Ok(_) => panic!("count of two is not unique"),
    }
    match NotUniqueError::check(&rt, &m, dup) {
        Err(e) => assert_eq!(e.get_reference_count(), 2),
        Ok(_) => panic!("count of two is not unique"),
    }
}

#[test]
fn instance_destroyed_exactly_on_last_drop() {
    let m = model();
    let mut rt = HostRuntime::new();
    let first = rt.instantiate(&m, idx(&m, "RefCounted"));
    let ptr = first.object_ptr;
    let second = rt.share(&m, &first);
    let third = rt.share(&m, &first);
    assert_eq!(rt.get_reference_count(&first), 3);

    rt.drop_handle(&m, third);
    assert!(rt.instances[ptr].is_some());
    assert_eq!(rt.get_reference_count(&first), 2);

    rt.drop_handle(&m, second);
    assert!(rt.instances[ptr].is_some());
    assert_eq!(rt.get_reference_count(&first), 1);

    rt.drop_handle(&m, first);
    assert!(rt.instances[ptr].is_none());
}

#[test]
fn manual_instances_survive_drops_until_destroyed() {
    let m = model();
    let mut rt = HostRuntime::new();
    let node = rt.instantiate(&m, idx(&m, "Node"));
    let ptr = node.object_ptr;
    rt.drop_handle(&m, node);
    assert!(rt.instances[ptr].is_some());
    let again = rt.instantiate(&m, idx(&m, "Node"));
    rt.destroy(&m, again);

    let fresh = rt.instantiate(&m, idx(&m, "Node"));
    let fresh_ptr = fresh.object_ptr;
    rt.destroy(&m, fresh);
    assert!(rt.instances[fresh_ptr].is_none());
}

#[test]
fn policies_follow_class_kind() {
    let m = model();
    let ps = assign_policies(&m);
    assert_eq!(ps[idx(&m, "OS")], MemoryPolicy::Static);
    assert_eq!(ps[idx(&m, "RefCounted")], MemoryPolicy::DynamicRefCount);
    assert_eq!(ps[idx(&m, "Resource")], MemoryPolicy::DynamicRefCount);
    assert_eq!(ps[idx(&m, "Node")], MemoryPolicy::Manual);
    assert_eq!(ps.len(), m.classes.len());
}

#[test]
fn save_then_load_round_trips() {
    let m = model();
    let mut rt = HostRuntime::new();
    let resource = idx(&m, "Resource");
    let refcounted = idx(&m, "RefCounted");
    let res = rt.instantiate(&m, resource);
    let path = "res://thing.tres".to_string();
    save(&mut rt, &m, &res, &path);

    // narrowed to its own class
    let loaded = load(&mut rt, &m, &path, resource);
    assert_eq!(loaded.class_id, resource);
    // and to an ancestor class
    let as_base = try_load(&mut rt, &m, &path, refcounted).expect("Resource inherits RefCounted");
    assert_eq!(as_base.class_id, refcounted);
}

#[test]
fn load_missing_path_reports_not_found() {
    let m = model();
    let mut rt = HostRuntime::new();
    let path = "res://missing.tres".to_string();
    assert!(matches!(
        try_load(&mut rt, &m, &path, idx(&m, "Resource")),
        Err(GdIoError::ResourceNotFound)
    ));
}

#[test]
fn load_wrong_class_reports_cast_failure() {
    let m = model();
    let mut rt = HostRuntime::new();
    let res = rt.instantiate(&m, idx(&m, "Resource"));
    let path = "res://thing.tres".to_string();
    save(&mut rt, &m, &res, &path);
    match load_impl(&mut rt, &m, &path, idx(&m, "Sprite")) {
        Err(GdIoError::ResourceCantCast(gd)) => assert_eq!(gd.class_id, idx(&m, "Resource")),
        other => panic!("expected cast failure, got {:?}", other.map(|_| ())),
    }
}

#[test]
fn save_dead_handle_reports_host_failure() {
    let m = model();
    let mut rt = HostRuntime::new();
    let node = rt.instantiate(&m, idx(&m, "Node"));
    let ptr = node.object_ptr;
    rt.destroy(&m, node);
    let dangling = gdext_core::runtime::Gd {
        object_ptr: ptr,
        class_id: idx(&m, "Node"),
    };
    let path = "res://gone.tres".to_string();
    match try_save(&mut rt, &m, &dangling, &path) {
        Err(GdIoError::ResourceSave(code)) => assert_eq!(code, GlobalError::FAILED),
        other => panic!("expected save failure, got {:?}", other),
    }
    match save_impl(&mut rt, &m, &dangling, &path) {
        Err(GdIoError::ResourceSave(code)) => assert_eq!(code, GlobalError::FAILED),
        other => panic!("expected save failure, got {:?}", other),
    }
}

#[test]
fn save_overwrites_recorded_class() {
    let m = model();
    let mut rt = HostRuntime::new();
    let res = rt.instantiate(&m, idx(&m, "Resource"));
    let node = rt.instantiate(&m, idx(&m, "Node"));
    let path = "res://slot.tres".to_string();
    save(&mut rt, &m, &res, &path);
    save(&mut rt, &m, &node, &path);
    assert_eq!(rt.resources.len(), 1);
    let loaded = try_load(&mut rt, &m, &path, idx(&m, "Node")).expect("recorded class is Node");
    assert_eq!(loaded.class_id, idx(&m, "Node"));
}

#[test]
fn storage_cells_track_registration() {
    let mut storage: InstanceStorage<String> = InstanceStorage::new();
    storage.register(3, "three".to_string());
    assert_eq!(storage.get(3), "three");
    storage.update(3, "still three".to_string());
    assert_eq!(storage.get(3), "still three");
    match storage.try_get(7) {
        Err(failure) => assert_eq!(failure.object_ptr, 7),
        Ok(_) => panic!("pointer was never registered"),
    }
    storage.unregister(3);
    assert!(storage.try_get(3).is_err());
}

#[test]
fn declarer_markers_name_their_strategy() {
    assert!(!EngineDeclarer::is_user_declared());
    assert!(UserClass::is_user_declared());
}

#[test]
fn memory_markers_name_their_policy() {
    assert_eq!(StaticRefCount::policy(), MemoryPolicy::Static);
    assert_eq!(DynamicRefCount::policy(), MemoryPolicy::DynamicRefCount);
    assert_eq!(ManualMemory::policy(), MemoryPolicy::Manual);
}

#[test]
fn root_sentinel_has_no_base_name() {
    assert_eq!(<() as GodotClass>::class_name(), "(no base)");
}

#[test]
fn io_error_message_matches() {
    assert_eq!(GdIoError::ResourceNotFound.message(), "no ok");
}

#[test]
fn virtual_dispatch_walks_the_ancestor_chain() {
    let api = gdext_core::json_models::JsonExtensionApi {
        header: header(),
        builtin_class_sizes: Vec::new(),
        builtin_classes: Vec::new(),
        classes: vec![
            gdext_core::json_models::JsonClass {
                name: "Object".to_string(),
                is_refcounted: false,
                is_instantiable: true,
                inherits: None,
                api_type: "core".to_string(),
                constants: None,
                enums: None,
                methods: Some(vec![JsonClassMethod {
                    name: "_to_string".to_string(),
                    is_const: false,
                    is_vararg: false,
                    is_static: false,
                    is_virtual: true,
                    hash: None,
                    return_value: None,
                    arguments: None,
                }]),
            },
            class("Node", Some("Object"), false),
        ],
        global_enums: Vec::new(),
        utility_functions: Vec::new(),
        native_structures: Vec::new(),
        singletons: Vec::new(),
    };
    let m = ingest(&api).expect("valid schema");
    let object = idx(&m, "Object");
    let node = idx(&m, "Node");
    let name = "_to_string".to_string();
    // the method is found from the declaring class and from a descendant
    assert_eq!(find_virtual_method(&m, object, &name), Some((object, 0)));
    assert_eq!(find_virtual_method(&m, node, &name), Some((object, 0)));
    let missing = "_ready".to_string();
    assert_eq!(find_virtual_method(&m, node, &missing), None);
}
