use dx_build::names::NameMap;
use dx_build::wasm_hotpatch_metadata::{
    RawExternrefShimMapping, RawHotpatchCastMapping, RawHotpatchPlaceholderMapping,
    RawImportRename, RawWasmHotpatchMetadata, Sidecar, WasmHotpatchMetadata,
};

fn empty() -> RawWasmHotpatchMetadata {
    RawWasmHotpatchMetadata {
        bindgen_symbol_set: vec![],
        cast_mappings: vec![],
        placeholder_import_mappings: vec![],
        externref_import_shims: vec![],
        import_renames: vec![],
    }
}

fn strings(names: &[&str]) -> Vec<String> {
    names.iter().map(|name| name.to_string()).collect()
}

fn cast(generated: &str, originals: &[&str]) -> RawHotpatchCastMapping {
    RawHotpatchCastMapping {
        generated_import_name: generated.to_string(),
        original_function_names: strings(originals),
    }
}

fn load(raw: RawWasmHotpatchMetadata) -> WasmHotpatchMetadata {
    WasmHotpatchMetadata::load_for_base_wasm(Sidecar::Parsed(raw))
}

#[test]
fn resolves_generated_cast_imports_from_original_function_names() {
    let old_name = "_ZN12wasm_bindgen4__rt8wbg_cast17breaks_if_inlined17h89ebd8cfd0f04703E";
    let generated_name = "__wbindgen_cast_000000000000000e";

    let metadata = load(RawWasmHotpatchMetadata {
        cast_mappings: vec![cast(generated_name, &[old_name])],
        ..empty()
    });

    assert_eq!(
        metadata.cast_generated_import_name_for_function(old_name),
        Some(generated_name)
    );
}

#[test]
fn functions_without_a_cast_have_no_generated_import() {
    let metadata = load(RawWasmHotpatchMetadata {
        cast_mappings: vec![cast("generated", &["old"])],
        ..empty()
    });
    assert_eq!(
        metadata.cast_generated_import_name_for_function("generated"),
        None
    );
    assert_eq!(metadata.cast_generated_import_name_for_function("other"), None);
}

#[test]
fn a_later_cast_takes_a_function_over() {
    let metadata = load(RawWasmHotpatchMetadata {
        cast_mappings: vec![
            cast("first", &["shared", "own"]),
            cast("second", &["shared"]),
            cast("first", &["new"]),
        ],
        ..empty()
    });
    let by_function = |name: &str| {
        metadata
            .cast_generated_import_name_for_function(name)
            .map(|name| name.to_string())
    };
    assert_eq!(by_function("shared"), Some("second".to_string()));
    assert_eq!(by_function("own"), Some("first".to_string()));
    assert_eq!(by_function("new"), Some("first".to_string()));

    let slots = NameMap::from_pairs(vec![("own".to_string(), 1), ("new".to_string(), 2)]);
    assert_eq!(metadata.cast_target_ifunc_index("first", &slots), Some(2));
    assert_eq!(metadata.cast_target_ifunc_index("second", &slots), None);
}

#[test]
fn metadata_that_cannot_be_had_leaves_nothing_known() {
    for sidecar in [Sidecar::Missing, Sidecar::Unreadable, Sidecar::Malformed] {
        let metadata = WasmHotpatchMetadata::load_for_base_wasm(sidecar);
        assert!(!metadata.is_bindgen_symbol("a"));
        assert!(!metadata.has_placeholder_import("a"));
        assert_eq!(metadata.resolve_import_rename("a"), "a");
        assert_eq!(metadata.cast_generated_import_name_for_function("a"), None);
        assert_eq!(metadata.externref_shim_map().get("a"), None);
        assert_eq!(metadata.cast_target_ifunc_index("a", &NameMap::new()), None);
    }
    assert!(!WasmHotpatchMetadata::default().is_bindgen_symbol("a"));
}

#[test]
fn saved_symbols_are_found_under_their_own_name() {
    let metadata = load(RawWasmHotpatchMetadata {
        bindgen_symbol_set: strings(&["__wbindgen_throw", "__saved_wbg_odd"]),
        placeholder_import_mappings: vec![RawHotpatchPlaceholderMapping {
            import_name: "__wbg_log".to_string(),
        }],
        ..empty()
    });
    assert!(metadata.is_bindgen_symbol("__wbindgen_throw"));
    assert!(metadata.is_bindgen_symbol("__saved_wbg___wbindgen_throw"));
    assert!(metadata.is_bindgen_symbol("__saved_wbg___saved_wbg___wbindgen_throw"));
    assert!(metadata.is_bindgen_symbol("__saved_wbg_odd"));
    assert!(!metadata.is_bindgen_symbol("odd"));
    assert!(!metadata.is_bindgen_symbol("__saved_wbg___saved_wbg_odd"));
    assert!(!metadata.is_bindgen_symbol("__saved_wbg"));
    assert!(!metadata.is_bindgen_symbol("__wbg_log"));

    assert!(metadata.has_placeholder_import("__wbg_log"));
    assert!(metadata.has_placeholder_import("__saved_wbg___wbg_log"));
    assert!(!metadata.has_placeholder_import("__wbindgen_throw"));
}

#[test]
fn renamed_imports_resolve_to_their_final_name() {
    let metadata = load(RawWasmHotpatchMetadata {
        import_renames: vec![
            RawImportRename {
                original_name: "__wbindgen_object_clone_ref".to_string(),
                final_name: "old".to_string(),
            },
            RawImportRename {
                original_name: "__wbindgen_object_clone_ref".to_string(),
                final_name: "__wbindgen_object_clone_ref_unused".to_string(),
            },
        ],
        ..empty()
    });
    assert_eq!(
        metadata.resolve_import_rename("__wbindgen_object_clone_ref"),
        "__wbindgen_object_clone_ref_unused"
    );
    assert_eq!(metadata.resolve_import_rename("other"), "other");
}

#[test]
fn shims_of_nameless_functions_are_left_out() {
    let metadata = load(RawWasmHotpatchMetadata {
        externref_import_shims: vec![
            RawExternrefShimMapping {
                original_func_name: None,
                shim_func_name: "lost".to_string(),
            },
            RawExternrefShimMapping {
                original_func_name: Some("named".to_string()),
                shim_func_name: "shim".to_string(),
            },
        ],
        ..empty()
    });
    assert_eq!(
        metadata.externref_shim_map().get("named"),
        Some(&"shim".to_string())
    );
    assert_eq!(metadata.externref_shim_map().get("lost"), None);
}

#[test]
fn a_cast_takes_the_first_slot_of_its_functions() {
    let metadata = load(RawWasmHotpatchMetadata {
        cast_mappings: vec![cast("cast", &["absent", "second", "third"])],
        ..empty()
    });
    let slots = NameMap::from_pairs(vec![
        ("third".to_string(), 3),
        ("second".to_string(), 7),
        ("second".to_string(), 2),
    ]);
    assert_eq!(metadata.cast_target_ifunc_index("cast", &slots), Some(2));
    assert_eq!(
        metadata.cast_target_ifunc_index("__saved_wbg_cast", &slots),
        Some(2)
    );
    assert_eq!(metadata.cast_target_ifunc_index("other", &slots), None);
}

#[test]
fn functions_and_casts_find_each_other() {
    let metadata = load(RawWasmHotpatchMetadata {
        cast_mappings: vec![cast("g", &["a", "b"]), cast("h", &["c"])],
        ..empty()
    });
    for (function, import, slot) in [("a", "g", 1), ("b", "g", 2), ("c", "h", 3)] {
        assert_eq!(
            metadata.cast_generated_import_name_for_function(function),
            Some(import)
        );
        let slots = NameMap::from_pairs(vec![(function.to_string(), slot)]);
        assert_eq!(metadata.cast_target_ifunc_index(import, &slots), Some(slot));
    }
}
