//! Path layout, staleness, names, versions, hashes, and the
//! inline-configuration scanner, on concrete values.

use anc_runtime::builder::{
    get_canonical_name, get_full_submodule_name, get_submodule_name_path, is_file_changed,
    parse_block_comment, pickup_inline_config_text, plan_module_assembly, remove_extension,
    should_relink, strip_path_prefix, SourceScanItem,
};
use anc_runtime::common;
use anc_runtime::entry::{DynamicLinkModuleEntry, FileMeta, ModuleLocation, RuntimeProperty};
use anc_runtime::hash::{format_dependency_hash, DependencyHash};
use anc_runtime::locations;
use anc_runtime::text::{join_path, replace_extension, str_eq, str_to_chars};
use anc_runtime::version::{parse_effective_version, EffectiveVersion, VersionCompatibility};

#[test]
fn test_join_path() {
    assert_eq!(join_path("/home/user", "src"), "/home/user/src");
    assert_eq!(join_path("", "src"), "src");
    assert_eq!(join_path("/base/", "src"), "/base/src");
}

#[test]
fn test_replace_extension() {
    assert_eq!(replace_extension("dir/lib.anco", "meta.ason"), "dir/lib.meta.ason");
    assert_eq!(replace_extension("dir/hello", "ancm"), "dir/hello.ancm");
    assert_eq!(replace_extension("dir.d/hello", "ancm"), "dir.d/hello.ancm");
    assert_eq!(replace_extension("dir/.hidden", "ancm"), "dir/.hidden.ancm");
}

#[test]
fn test_str_helpers() {
    assert!(str_eq("abc", "abc"));
    assert!(!str_eq("abc", "abd"));
    assert_eq!(str_to_chars("ab").len(), 2);
}

#[test]
fn test_module_folder_paths() {
    assert_eq!(locations::get_module_folder_src_path("/m"), "/m/src");
    assert_eq!(locations::get_module_folder_app_path("/m"), "/m/app");
    assert_eq!(locations::get_module_folder_tests_path("/m"), "/m/tests");
    assert_eq!(locations::get_module_folder_output_path("/m"), "/m/output");
    assert_eq!(locations::get_module_config_file_path("/m"), "/m/module.anc.ason");
    assert_eq!(locations::get_hash_folder_asset_path("/m/output/00"), "/m/output/00/asset");
    assert_eq!(locations::get_asset_folder_ir_path("/m/a"), "/m/a/ir");
    assert_eq!(locations::get_asset_folder_assembly_path("/m/a"), "/m/a/assembly");
    assert_eq!(locations::get_asset_folder_object_path("/m/a"), "/m/a/object");
}

#[test]
fn test_image_file_paths() {
    assert_eq!(
        locations::get_shared_module_image_file_path_by_hash_path("/m/output/0a", "hello"),
        "/m/output/0a/hello.ancm"
    );
    assert_eq!(
        locations::get_application_module_image_file_path_by_output_path("/m/output", "hello"),
        "/m/output/hello.anci"
    );
    assert_eq!(
        locations::get_application_module_image_file_path("/m", "hello"),
        "/m/output/hello.anci"
    );
    assert_eq!(locations::get_object_file_path("/obj", "base-primitive"), "/obj/base-primitive.anco");
    assert_eq!(locations::get_ir_file_path("/ir", "main"), "/ir/main.ancr");
    assert_eq!(locations::get_assembly_file_path("/asm", "main"), "/asm/main.anca");
    assert_eq!(locations::get_mata_file_path("/obj", "lib.anco"), "/obj/lib.meta.ason");
    assert_eq!(locations::get_mata_file_path_by_full_name("/obj/lib.anco"), "/obj/lib.meta.ason");
}

#[test]
fn test_output_hash_path() {
    let zero = DependencyHash::zero();
    let expected = format!("/m/output/{}", "0".repeat(64));
    assert_eq!(locations::get_output_folder_hash_path("/m/output", Some(&zero)), expected);
    assert_eq!(locations::get_output_folder_hash_path("/m/output", None), "/m/output");
    // the older layer substitutes the all-zero hash for a missing one
    assert_eq!(common::get_output_hash_path("/m/output", &None), expected);
}

#[test]
fn test_format_dependency_hash() {
    let zero = DependencyHash::zero();
    assert_eq!(format_dependency_hash(&zero), "0".repeat(64));
    let hash = DependencyHash { bytes: vec![0x0f, 0xa0, 0xff, 0x01] };
    assert_eq!(format_dependency_hash(&hash), "0fa0ff01");
}

#[test]
fn test_dynamic_link_image_path() {
    let runtime_property = RuntimeProperty::from_custom("/rt/runtimes/2025", "/rt");
    let local = DynamicLinkModuleEntry {
        name: "util".to_string(),
        module_location: ModuleLocation::Local {
            path: "/work/util".to_string(),
            hash: "0a".to_string(),
        },
    };
    assert_eq!(
        locations::get_shared_module_image_file_path_by_dynamic_link_module_entry(
            &local,
            &runtime_property
        ),
        "/work/util/output/0a/util.ancm"
    );
    let share = DynamicLinkModuleEntry {
        name: "util".to_string(),
        module_location: ModuleLocation::Share {
            version: "1.5.0".to_string(),
            hash: "0a".to_string(),
        },
    };
    assert_eq!(
        locations::get_shared_module_image_file_path_by_dynamic_link_module_entry(
            &share,
            &runtime_property
        ),
        "/rt/modules/util/1.5.0/output/0a/util.ancm"
    );
    let runtime = DynamicLinkModuleEntry {
        name: "std".to_string(),
        module_location: ModuleLocation::Runtime,
    };
    assert_eq!(
        locations::get_shared_module_image_file_path_by_dynamic_link_module_entry(
            &runtime,
            &runtime_property
        ),
        "/rt/runtimes/2025/modules/std/output/std.ancm"
    );
}

#[test]
fn test_old_layer_paths() {
    assert_eq!(common::get_src_path("/m"), "/m/src");
    assert_eq!(common::get_app_path("/m"), "/m/app");
    assert_eq!(common::get_tests_path("/m"), "/m/tests");
    assert_eq!(common::get_output_path("/m"), "/m/output");
    assert_eq!(common::get_shared_module_file_path("/h", "m"), "/h/m.ancm");
    assert_eq!(common::get_application_image_file_path("/o", "m"), "/o/m.anci");
    let prop = common::RuntimeProperty::new("/usr/lib/anc".to_string(), "2025".to_string());
    assert_eq!(prop.get_runtime_directory(), "/usr/lib/anc/2025/runtime");
    assert_eq!(prop.get_builtin_modules_directory(), "/usr/lib/anc/2025/runtime/modules");
    assert_eq!(prop.get_builtin_libraries_directory(), "/usr/lib/anc/2025/runtime/libraries");
    assert_eq!(prop.get_modules_directory(), "/usr/lib/anc/2025/modules");
    assert_eq!(prop.get_libraries_directory(), "/usr/lib/anc/2025/modules");
}

#[test]
fn test_runtime_property_directories() {
    let prop = RuntimeProperty::from_custom("/rt/runtimes/2025", "/rt");
    assert_eq!(prop.get_bin_directory(), "/rt/bin");
    assert_eq!(prop.get_runtimes_directory(), "/rt/runtimes");
    assert_eq!(prop.get_registries_directory(), "/rt/registries");
    assert_eq!(prop.get_repositories_directory(), "/rt/repositories");
    assert_eq!(prop.get_modules_directory(), "/rt/modules");
    assert_eq!(prop.get_builtin_modules_directory(), "/rt/runtimes/2025/modules");
    assert_eq!(prop.registries.len(), 2);
}

#[test]
fn test_parse_effective_version() {
    assert_eq!(
        parse_effective_version("1.2.3"),
        Some(EffectiveVersion { major: 1, minor: 2, patch: 3 })
    );
    assert_eq!(
        parse_effective_version("0.10.65535"),
        Some(EffectiveVersion { major: 0, minor: 10, patch: 65535 })
    );
    assert_eq!(parse_effective_version("1.2"), None);
    assert_eq!(parse_effective_version("1.2.3.4"), None);
    assert_eq!(parse_effective_version("a.b.c"), None);
    assert_eq!(parse_effective_version("1..3"), None);
    assert_eq!(parse_effective_version("70000.0.0"), None);
    assert_eq!(parse_effective_version(""), None);
}

#[test]
fn test_version_compatibility() {
    let v = |a, b, c| EffectiveVersion::new(a, b, c);
    assert_eq!(v(1, 5, 0).compatible(&v(1, 2, 0)), VersionCompatibility::GreaterThan);
    assert_eq!(v(1, 2, 0).compatible(&v(1, 5, 0)), VersionCompatibility::LessThan);
    assert_eq!(v(1, 2, 3).compatible(&v(1, 2, 3)), VersionCompatibility::Equals);
    assert_eq!(v(1, 2, 4).compatible(&v(1, 2, 3)), VersionCompatibility::GreaterThan);
    assert_eq!(v(1, 0, 0).compatible(&v(2, 0, 0)), VersionCompatibility::Conflict);
    assert_eq!(v(0, 1, 0).compatible(&v(0, 2, 0)), VersionCompatibility::Conflict);
    assert_eq!(v(0, 1, 5).compatible(&v(0, 1, 2)), VersionCompatibility::GreaterThan);
}

#[test]
fn test_is_file_changed() {
    let meta = |ts: Option<u64>| {
        Some(FileMeta { timestamp: ts, dependencies: Vec::new() })
    };
    assert!(is_file_changed(&None, Some(10)));
    assert!(is_file_changed(&meta(None), Some(10)));
    assert!(is_file_changed(&meta(Some(5)), None));
    assert!(is_file_changed(&meta(Some(5)), Some(6)));
    assert!(!is_file_changed(&meta(Some(5)), Some(5)));
    assert!(!is_file_changed(&meta(Some(5)), Some(4)));
}

#[test]
fn test_canonical_names() {
    assert_eq!(remove_extension("base/primitive.anca"), "base/primitive");
    assert_eq!(strip_path_prefix("/m/src/base/primitive.anca", "/m/src"), Some("base/primitive.anca".to_string()));
    assert_eq!(strip_path_prefix("/m/app/main.anca", "/m/src"), None);
    assert_eq!(get_canonical_name("network/http/get.anca"), "network-http-get");
    assert_eq!(get_submodule_name_path("network/http/get.anca"), "network::http::get");
    assert_eq!(get_canonical_name("main.anca"), "main");
}

#[test]
fn test_full_submodule_name() {
    assert_eq!(get_full_submodule_name("hello", "lib"), "hello");
    assert_eq!(get_full_submodule_name("hello", "main"), "hello");
    assert_eq!(get_full_submodule_name("hello", "network::http"), "hello::network::http");
}

fn scan_item(
    file_path: &str,
    timestamp: Option<u64>,
    object_exists: bool,
    meta_timestamp: Option<Option<u64>>,
) -> SourceScanItem {
    SourceScanItem {
        file_path: file_path.to_string(),
        prefix_path: "/m/src".to_string(),
        timestamp_opt: timestamp,
        object_file_exists: object_exists,
        object_file_meta: meta_timestamp.map(|ts| FileMeta { timestamp: ts, dependencies: vec![] }),
    }
}

#[test]
fn test_plan_module_assembly_partition() {
    // one unchanged source, one touched source, one with no object yet
    let sources = vec![
        scan_item("/m/src/lib.anca", Some(5), true, Some(Some(5))),
        scan_item("/m/src/main.anca", Some(9), true, Some(Some(5))),
        scan_item("/m/src/base/primitive.anca", Some(5), false, None),
    ];
    let (pending, reused) = plan_module_assembly(false, "/m/obj", &sources);
    assert_eq!(pending.len(), 2);
    assert_eq!(pending[0].source_path, "/m/src/main.anca");
    assert_eq!(pending[0].canonical_name, "main");
    assert_eq!(pending[0].submodule_name_path, "main");
    assert_eq!(pending[0].meta_file_path, "/m/obj/main.meta.ason");
    assert_eq!(pending[0].timestamp_opt, Some(9));
    assert_eq!(pending[1].canonical_name, "base-primitive");
    assert_eq!(pending[1].submodule_name_path, "base::primitive");
    assert_eq!(reused, vec!["/m/obj/lib.anco".to_string()]);
}

#[test]
fn test_plan_module_assembly_config_change_rebuilds_all() {
    // a touched manifest forces every source through the assembler
    let sources = vec![
        scan_item("/m/src/lib.anca", Some(5), true, Some(Some(5))),
        scan_item("/m/src/main.anca", Some(5), true, Some(Some(5))),
    ];
    let (pending, reused) = plan_module_assembly(true, "/m/obj", &sources);
    assert_eq!(pending.len(), 2);
    assert!(reused.is_empty());
}

#[test]
fn test_plan_module_assembly_unchanged_is_noop() {
    // nothing stale and the image present: the build reports "unchanged"
    let sources = vec![
        scan_item("/m/src/lib.anca", Some(5), true, Some(Some(5))),
        scan_item("/m/src/main.anca", Some(4), true, Some(Some(8))),
    ];
    let (pending, reused) = plan_module_assembly(false, "/m/obj", &sources);
    assert!(pending.is_empty());
    assert_eq!(reused.len(), 2);
    assert!(!should_relink(false, true));
    assert!(should_relink(false, false));
    assert!(should_relink(true, true));
}

#[test]
fn test_second_build_is_noop() {
    // first build: everything is new and queued for assembly
    let fresh = vec![
        scan_item("/m/src/lib.anca", Some(7), false, None),
        scan_item("/m/src/main.anca", Some(9), false, None),
    ];
    let (pending, _reused) = plan_module_assembly(false, "/m/obj", &fresh);
    assert_eq!(pending.len(), 2);
    // the build writes each object and a sidecar with the scan timestamp;
    // a second scan with unchanged sources then queues nothing
    let rebuilt: Vec<SourceScanItem> = fresh
        .iter()
        .zip(pending.iter())
        .map(|(source, item)| SourceScanItem {
            object_file_exists: true,
            object_file_meta: Some(FileMeta::from_timestamp(item.timestamp_opt)),
            ..source.clone()
        })
        .collect();
    let (pending_again, reused_again) = plan_module_assembly(false, "/m/obj", &rebuilt);
    assert!(pending_again.is_empty());
    assert_eq!(reused_again.len(), 2);
    assert!(!should_relink(false, true));
}

#[test]
fn test_file_meta_from_timestamp() {
    let meta = FileMeta::from_timestamp(Some(42));
    assert_eq!(meta.timestamp, Some(42));
    assert!(meta.dependencies.is_empty());
    let absent = FileMeta::from_timestamp(None);
    assert_eq!(absent.timestamp, None);
}

#[test]
fn test_parse_block_comment_plain() {
    let chars = str_to_chars("/* hello */tail");
    let (text, next) = parse_block_comment(&chars, 2).unwrap();
    assert_eq!(text, " hello ");
    assert_eq!(&"/* hello */tail"[next..], "tail");
}

#[test]
fn test_parse_block_comment_nested() {
    let chars = str_to_chars("/* outer /* inner */ tail */rest");
    let (text, next) = parse_block_comment(&chars, 2).unwrap();
    assert_eq!(text, " outer  tail ");
    assert_eq!(&"/* outer /* inner */ tail */rest"[next..], "rest");
}

#[test]
fn test_parse_block_comment_embedded_line_comment() {
    let chars = str_to_chars("/* a // junk */\n b */x");
    let (text, _next) = parse_block_comment(&chars, 2).unwrap();
    assert_eq!(text, " a  b ");
}

#[test]
fn test_parse_block_comment_unterminated() {
    let chars = str_to_chars("/* never closed");
    assert!(parse_block_comment(&chars, 2).is_none());
}

#[test]
fn test_pickup_inline_config_text() {
    let source = "/* @config {name:\"s\",version:\"1.0.0\",edition:\"2025\"} */\nfn main() {}\n";
    let text = pickup_inline_config_text(source).unwrap();
    assert_eq!(text, " {name:\"s\",version:\"1.0.0\",edition:\"2025\"}");
}

#[test]
fn test_pickup_inline_config_text_skips_other_comments() {
    let source = "// leading line comment\n/* plain note */ /* @config {a:1} */ rest";
    let text = pickup_inline_config_text(source).unwrap();
    assert_eq!(text, " {a:1}");
}

#[test]
fn test_pickup_inline_config_text_absent() {
    assert!(pickup_inline_config_text("fn main() {}").is_none());
    assert!(pickup_inline_config_text("/* nothing here */").is_none());
}

#[test]
fn test_pickup_config_text_old_marker() {
    let source = "/* config! {name:\"s\"} */";
    assert_eq!(common::pickup_config_text(source).unwrap(), " {name:\"s\"}");
    assert!(common::pickup_config_text("/* @config {} */").is_none());
    let chars = str_to_chars("/* x */y");
    let (text, _) = common::pickup_block_comment(&chars, 2).unwrap();
    assert_eq!(text, " x ");
}
