use ntb::vendor::{
    capitalize_words, display_name, has_glb_extension, model_info_for_file, models_directory,
    sort_vendors, str_less, trim_glb_suffixes, vendor_icon_path, vendor_info_for_directory,
    vendor_list, vendor_name, ModelInfo, VendorDirectory, VendorInfo,
};

fn vendor(name: &str, display: &str, available: bool) -> VendorInfo {
    VendorInfo {
        name: name.to_string(),
        display_name: display.to_string(),
        has_icon: false,
        models: if available {
            vec![ModelInfo { file_name: "m".to_string(), display_name: "M".to_string() }]
        } else {
            vec![]
        },
        is_available: available,
    }
}

#[test]
fn capitalize_words_examples() {
    assert_eq!(capitalize_words("blob router"), "Blob Router");
    assert_eq!(capitalize_words("  asr   9000 "), "Asr 9000");
    assert_eq!(capitalize_words(""), "");
    assert_eq!(capitalize_words("   "), "");
    assert_eq!(capitalize_words("élan vital"), "Élan Vital");
    assert_eq!(capitalize_words("straße"), "Straße");
    assert_eq!(capitalize_words("ßa"), "SSa");
    assert_eq!(capitalize_words("a\tb\nc"), "A B C");
}

#[test]
fn display_names_replace_dashes_and_underscores() {
    assert_eq!(display_name("blob-router"), "Blob Router");
    assert_eq!(display_name("palo_alto-networks"), "Palo Alto Networks");
    assert_eq!(display_name("--x__"), "X");
}

#[test]
fn glb_extension_follows_path_extension() {
    assert!(has_glb_extension("router.glb"));
    assert!(has_glb_extension("a.b.glb"));
    assert!(!has_glb_extension(".glb"));
    assert!(!has_glb_extension("router.GLB"));
    assert!(!has_glb_extension("router.glb.bak"));
    assert!(!has_glb_extension("glb"));
    assert!(!has_glb_extension(".."));
    assert!(has_glb_extension("..glb"));
}

#[test]
fn glb_suffixes_are_all_trimmed() {
    assert_eq!(trim_glb_suffixes("router.glb"), "router");
    assert_eq!(trim_glb_suffixes("a.glb.glb"), "a");
    assert_eq!(trim_glb_suffixes("a.gl"), "a.gl");
    assert_eq!(trim_glb_suffixes(".glb"), "");
}

#[test]
fn model_info_for_glb_files_only() {
    let m = model_info_for_file("asr-9000.glb").unwrap();
    assert_eq!(m.file_name, "asr-9000");
    assert_eq!(m.display_name, "Asr 9000");
    assert!(model_info_for_file("readme.txt").is_none());
    assert!(model_info_for_file(".glb").is_none());
}

#[test]
fn vendor_name_defaults_to_unknown() {
    assert_eq!(vendor_name(&None), "unknown");
    assert_eq!(vendor_name(&Some("cisco".to_string())), "cisco");
}

#[test]
fn vendor_entry_from_directory() {
    let dir = VendorDirectory {
        name: Some("palo-alto".to_string()),
        file_names: vec!["pa-220.glb".to_string(), "notes.txt".to_string(), "pa_5200.glb".to_string()],
        has_icon: true,
    };
    let v = vendor_info_for_directory(&dir);
    assert_eq!(v.name, "palo-alto");
    assert_eq!(v.display_name, "Palo Alto");
    assert!(v.has_icon);
    assert!(v.is_available);
    assert_eq!(v.models.len(), 2);
    assert_eq!(v.models[0].file_name, "pa-220");
    assert_eq!(v.models[0].display_name, "Pa 220");
    assert_eq!(v.models[1].file_name, "pa_5200");
    assert_eq!(v.models[1].display_name, "Pa 5200");
    let empty = vendor_info_for_directory(&VendorDirectory { name: None, file_names: vec![], has_icon: false });
    assert_eq!(empty.name, "unknown");
    assert_eq!(empty.display_name, "Unknown");
    assert!(!empty.is_available);
}

#[test]
fn string_order_is_code_point_order() {
    assert!(str_less("Apple", "Banana"));
    assert!(!str_less("Banana", "Apple"));
    assert!(str_less("Ab", "Abc"));
    assert!(!str_less("Abc", "Abc"));
    assert!(str_less("Zebra", "apple"));
    assert!(str_less("z", "é"));
}

#[test]
fn vendors_sort_generic_then_available_then_by_name() {
    let input = vec![
        vendor("zeta", "Zeta", true),
        vendor("alpha", "Alpha", false),
        vendor("generic", "Generic", false),
        vendor("beta", "Beta", true),
        vendor("acme", "Acme", true),
    ];
    let out = sort_vendors(input);
    let names: Vec<&str> = out.iter().map(|v| v.name.as_str()).collect();
    assert_eq!(names, vec!["generic", "acme", "beta", "zeta", "alpha"]);
}

#[test]
fn vendor_sort_is_stable_on_ties() {
    let input = vec![vendor("a-b", "A B", true), vendor("a_b", "A B", true), vendor("c", "C", true)];
    let out = sort_vendors(input);
    let names: Vec<&str> = out.iter().map(|v| v.name.as_str()).collect();
    assert_eq!(names, vec!["a-b", "a_b", "c"]);
}

#[test]
fn vendor_list_for_a_node_type() {
    let dirs = vec![
        VendorDirectory { name: Some("cisco".to_string()), file_names: vec!["asr9000.glb".to_string()], has_icon: true },
        VendorDirectory { name: Some("juniper".to_string()), file_names: vec![], has_icon: false },
        VendorDirectory { name: Some("generic".to_string()), file_names: vec!["blob-router.glb".to_string()], has_icon: true },
    ];
    let r = vendor_list("router".to_string(), dirs);
    assert_eq!(r.node_type, "router");
    let names: Vec<&str> = r.vendors.iter().map(|v| v.name.as_str()).collect();
    assert_eq!(names, vec!["generic", "cisco", "juniper"]);
    assert_eq!(r.vendors[0].models[0].display_name, "Blob Router");
    assert!(!r.vendors[2].is_available);
}

#[test]
fn filesystem_paths() {
    assert_eq!(models_directory("router"), "public/models/router");
    assert_eq!(vendor_icon_path("cisco"), "public/icons/vendors/cisco.svg");
}
