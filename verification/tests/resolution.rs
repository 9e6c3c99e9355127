//! The dependency resolver end to end: legality rules, version
//! arbitration, pruning, and the emitted locations.

use anc_runtime::entry::{
    DefaultConfig, EntryPointEntry, ImageCommonEntry, ImportModuleEntry, ModuleConfig,
    ModuleDependency, ModuleDependencyType, ModuleLocation, PropertyValue, RuntimeConfig,
    RuntimeProperty, merge_registries,
};
use anc_runtime::runner::{select_unit_tests, UnitTestResult};
use anc_runtime::hash::DependencyHash;
use anc_runtime::resolver::{
    resolve_import_module_acquisition, validate_import_module_entries, DependencyResolver,
    ModuleAcquisitionMethod,
};
use anc_runtime::RuntimeError;

fn import(name: &str, dependency: ModuleDependency) -> ImportModuleEntry {
    ImportModuleEntry::new(name.to_string(), dependency)
}

fn share(version: &str) -> ModuleDependency {
    ModuleDependency::Share { version: version.to_string() }
}

fn image(name: &str, version: &str, imports: Vec<ImportModuleEntry>) -> ImageCommonEntry {
    ImageCommonEntry {
        name: name.to_string(),
        version: version.to_string(),
        import_module_entries: imports,
    }
}

fn drive(
    main: &ImageCommonEntry,
    modules: &[(&str, ImageCommonEntry)],
) -> Result<(Vec<ImageCommonEntry>, Vec<anc_runtime::entry::DynamicLinkModuleEntry>), RuntimeError>
{
    let mut resolver = DependencyResolver::new("/work/app", "/work/app", ModuleDependencyType::Local, main)?;
    while let Some(item) = resolver.next_pending_item() {
        let name = item.import_module_entry.name.clone();
        let loaded = modules
            .iter()
            .find(|(n, _)| *n == name)
            .map(|(_, img)| img.clone())
            .unwrap_or_else(|| panic!("no module registered for {name}"));
        let dir = format!("/cache/{name}");
        resolver.complete_next_pending_item(
            dir.as_str(),
            Some(DependencyHash::zero()),
            loaded,
        )?;
    }
    resolver.finish(main)
}

#[test]
fn test_version_arbitration_keeps_newer_share() {
    // the transitive import re-introduces util with a newer version
    let main = image(
        "app",
        "1.0.0",
        vec![import("util", share("1.2.0")), import("helper", share("1.0.0"))],
    );
    let util_old = image("util", "1.2.0", vec![]);
    let util_new = image("util", "1.5.0", vec![]);
    let helper = image("helper", "1.0.0", vec![import("util", share("1.5.0"))]);

    let mut resolver =
        DependencyResolver::new("/work/app", "/work/app", ModuleDependencyType::Local, &main)
            .unwrap();
    let mut served_old = false;
    while let Some(item) = resolver.next_pending_item() {
        let name = item.import_module_entry.name.clone();
        let loaded = match name.as_str() {
            "helper" => helper.clone(),
            "util" => {
                if served_old {
                    util_new.clone()
                } else {
                    served_old = true;
                    util_old.clone()
                }
            },
            other => panic!("unexpected module {other}"),
        };
        resolver
            .complete_next_pending_item("/cache", Some(DependencyHash::zero()), loaded)
            .unwrap();
    }
    let (images, entries) = resolver.finish(&main).unwrap();

    let util_entries: Vec<_> = entries.iter().filter(|e| e.name == "util").collect();
    assert_eq!(util_entries.len(), 1);
    match &util_entries[0].module_location {
        ModuleLocation::Share { version, hash } => {
            assert_eq!(version.as_str(), "1.5.0");
            assert_eq!(hash.as_str(), "0".repeat(64).as_str());
        },
        other => panic!("unexpected location {other:?}"),
    }
    assert_eq!(images.iter().filter(|i| i.name == "util").count(), 1);
    assert_eq!(images.iter().find(|i| i.name == "util").unwrap().version, "1.5.0");
}

#[test]
fn test_version_conflict_fails() {
    // major versions one and two cannot coexist
    let main = image(
        "app",
        "1.0.0",
        vec![import("util", share("1.2.0")), import("helper", share("1.0.0"))],
    );
    let util_one = image("util", "1.2.0", vec![]);
    let util_two = image("util", "2.0.0", vec![]);
    let helper = image("helper", "1.0.0", vec![import("util", share("2.0.0"))]);

    let mut resolver =
        DependencyResolver::new("/work/app", "/work/app", ModuleDependencyType::Local, &main)
            .unwrap();
    let mut served_one = false;
    while let Some(item) = resolver.next_pending_item() {
        let name = item.import_module_entry.name.clone();
        let loaded = match name.as_str() {
            "helper" => helper.clone(),
            "util" => {
                if served_one {
                    util_two.clone()
                } else {
                    served_one = true;
                    util_one.clone()
                }
            },
            other => panic!("unexpected module {other}"),
        };
        resolver
            .complete_next_pending_item("/cache", Some(DependencyHash::zero()), loaded)
            .unwrap();
    }
    let err = resolver.finish(&main).unwrap_err();
    let RuntimeError::Message(message) = err;
    assert!(message.contains("util"));
    assert!(message.contains("conflict versions"));
}

#[test]
fn test_kind_legality_violation() {
    // a shared module may not declare a local dependency
    let main = image("app", "1.0.0", vec![import("lib_a", share("1.0.0"))]);
    let lib_a = image(
        "lib_a",
        "1.0.0",
        vec![import("nearby", ModuleDependency::Local { path: "../nearby".to_string() })],
    );
    let mut resolver =
        DependencyResolver::new("/work/app", "/work/app", ModuleDependencyType::Local, &main)
            .unwrap();
    let _item = resolver.next_pending_item().unwrap();
    let err = resolver
        .complete_next_pending_item("/cache/lib_a", Some(DependencyHash::zero()), lib_a)
        .unwrap_err();
    let RuntimeError::Message(message) = err;
    assert!(message.contains("lib_a"));
    assert!(message.contains("nearby"));
}

#[test]
fn test_dangling_module_is_pruned() {
    // b came in through a's old version; the new a does not need it
    let main = image(
        "app",
        "1.0.0",
        vec![import("dep_a", share("1.0.0")), import("dep_c", share("1.0.0"))],
    );
    let a_old = image("dep_a", "1.0.0", vec![import("dep_b", share("1.0.0"))]);
    let a_new = image("dep_a", "1.5.0", vec![]);
    let b = image("dep_b", "1.0.0", vec![]);
    let c = image("dep_c", "1.0.0", vec![import("dep_a", share("1.5.0"))]);

    let mut resolver =
        DependencyResolver::new("/work/app", "/work/app", ModuleDependencyType::Local, &main)
            .unwrap();
    let mut served_old_a = false;
    while let Some(item) = resolver.next_pending_item() {
        let name = item.import_module_entry.name.clone();
        let loaded = match name.as_str() {
            "dep_a" => {
                if served_old_a {
                    a_new.clone()
                } else {
                    served_old_a = true;
                    a_old.clone()
                }
            },
            "dep_b" => b.clone(),
            "dep_c" => c.clone(),
            other => panic!("unexpected module {other}"),
        };
        resolver
            .complete_next_pending_item("/cache", Some(DependencyHash::zero()), loaded)
            .unwrap();
    }
    let (images, entries) = resolver.finish(&main).unwrap();
    let names: Vec<&str> = images.iter().map(|i| i.name.as_str()).collect();
    assert!(names.contains(&"dep_a"));
    assert!(names.contains(&"dep_c"));
    assert!(!names.contains(&"dep_b"));
    assert_eq!(images.iter().find(|i| i.name == "dep_a").unwrap().version, "1.5.0");
    assert!(entries.iter().all(|e| e.name != "dep_b"));
    assert_eq!(images.len(), entries.len());
}

#[test]
fn test_identical_duplicate_is_dropped() {
    // two modules import util identically: it appears once
    let main = image(
        "app",
        "1.0.0",
        vec![import("left", share("1.0.0")), import("right", share("1.0.0"))],
    );
    let left = image("left", "1.0.0", vec![import("util", share("1.0.0"))]);
    let right = image("right", "1.0.0", vec![import("util", share("1.0.0"))]);
    let util = image("util", "1.0.0", vec![]);
    let (images, entries) = drive(
        &main,
        &[("left", left), ("right", right), ("util", util)],
    )
    .unwrap();
    assert_eq!(images.iter().filter(|i| i.name == "util").count(), 1);
    assert_eq!(entries.iter().filter(|e| e.name == "util").count(), 1);
}

#[test]
fn test_self_reference_is_skipped() {
    let main = image(
        "app",
        "1.0.0",
        vec![
            import("app", ModuleDependency::SelfReference),
            import("util", share("1.0.0")),
        ],
    );
    let util = image("util", "1.0.0", vec![import("util", ModuleDependency::SelfReference)]);
    let (images, entries) = drive(&main, &[("util", util)]).unwrap();
    assert_eq!(images.len(), 1);
    assert_eq!(images[0].name, "util");
    assert_eq!(entries.len(), 1);
}

#[test]
fn test_runtime_dependency_location() {
    let main = image("app", "1.0.0", vec![import("std", ModuleDependency::Runtime)]);
    let std_image = image("std", "1.0.0", vec![]);
    let mut resolver =
        DependencyResolver::new("/work/app", "/work/app", ModuleDependencyType::Local, &main)
            .unwrap();
    let _item = resolver.next_pending_item().unwrap();
    resolver
        .complete_next_pending_item("/rt/modules/std", None, std_image)
        .unwrap();
    let (_images, entries) = resolver.finish(&main).unwrap();
    assert!(matches!(entries[0].module_location, ModuleLocation::Runtime));
}

#[test]
fn test_main_kind_restricts_imports() {
    // a remote main module may not import a local one
    let main = image(
        "app",
        "1.0.0",
        vec![import("nearby", ModuleDependency::Local { path: "../nearby".to_string() })],
    );
    let err = match DependencyResolver::new(
        "/work/app",
        "/work/app",
        ModuleDependencyType::Remote,
        &main,
    ) {
        Ok(_) => panic!("a remote module with a local import must be refused"),
        Err(e) => e,
    };
    let RuntimeError::Message(message) = err;
    assert!(message.contains("nearby"));
    // under a local main module the same import is legal
    assert!(
        DependencyResolver::new("/work/app", "/work/app", ModuleDependencyType::Local, &main)
            .is_ok()
    );
}

#[test]
fn test_local_source_conflict() {
    // one name resolved to two different directories fails
    let local_dep = |p: &str| ModuleDependency::Local { path: p.to_string() };
    let main = image(
        "app",
        "1.0.0",
        vec![import("left", local_dep("../left")), import("right", local_dep("../right"))],
    );
    let left = image("left", "1.0.0", vec![import("util", local_dep("../u1"))]);
    let right = image("right", "1.0.0", vec![import("util", local_dep("../u2"))]);
    let util = image("util", "1.0.0", vec![]);
    let mut resolver =
        DependencyResolver::new("/work/app", "/work/app", ModuleDependencyType::Local, &main)
            .unwrap();
    while let Some(item) = resolver.next_pending_item() {
        let name = item.import_module_entry.name.clone();
        // a local import resolves under the directory its record names
        let dir = match &item.import_module_entry.module_dependency {
            ModuleDependency::Local { path } => format!("/work/{path}"),
            _ => format!("/cache/{name}"),
        };
        let loaded = match name.as_str() {
            "left" => left.clone(),
            "right" => right.clone(),
            "util" => util.clone(),
            other => panic!("unexpected module {other}"),
        };
        resolver
            .complete_next_pending_item(dir.as_str(), Some(DependencyHash::zero()), loaded)
            .unwrap();
    }
    let err = resolver.finish(&main).unwrap_err();
    let RuntimeError::Message(message) = err;
    assert!(message.contains("util"));
    assert!(message.contains("source conflict"));
}

#[test]
fn test_resolve_import_module_acquisition() {
    let runtime_property = RuntimeProperty::from_custom("/rt/runtimes/2025", "/rt");
    let local = import("util", ModuleDependency::Local { path: "../util".to_string() });
    let plan = resolve_import_module_acquisition("/work/app", &local, &runtime_property);
    assert_eq!(plan.module_dir, "/work/app/../util");
    assert!(plan.check_modification);
    assert!(matches!(plan.method, ModuleAcquisitionMethod::UseDirectory));
    assert_eq!(plan.hash_opt.unwrap().bytes, vec![0u8; 32]);

    let absolute = import("util", ModuleDependency::Local { path: "/abs/util".to_string() });
    let plan = resolve_import_module_acquisition("/work/app", &absolute, &runtime_property);
    assert_eq!(plan.module_dir, "/abs/util");

    let remote = import(
        "web",
        ModuleDependency::Remote {
            url: "https://example.com/web.git".to_string(),
            revision: "v1".to_string(),
        },
    );
    let plan = resolve_import_module_acquisition("/work/app", &remote, &runtime_property);
    assert_eq!(plan.module_dir, "/rt/modules/web/remote");
    assert!(!plan.check_modification);
    match plan.method {
        ModuleAcquisitionMethod::FetchRemote { url, revision } => {
            assert_eq!(url, "https://example.com/web.git");
            assert_eq!(revision, "v1");
        },
        other => panic!("unexpected method {other:?}"),
    }

    let shared = import("util", share("1.5.0"));
    let plan = resolve_import_module_acquisition("/work/app", &shared, &runtime_property);
    assert_eq!(plan.module_dir, "/rt/modules/util/1.5.0");
    assert!(matches!(plan.method, ModuleAcquisitionMethod::LookupRegistry { .. }));

    let runtime = import("std", ModuleDependency::Runtime);
    let plan = resolve_import_module_acquisition("/work/app", &runtime, &runtime_property);
    assert_eq!(plan.module_dir, "/rt/runtimes/2025/modules/std");
    assert!(plan.hash_opt.is_none());
}

#[test]
fn test_validate_import_module_entries() {
    let good = vec![import("a", share("1.0.0")), import("b", ModuleDependency::Runtime)];
    assert!(validate_import_module_entries(&good));
    let bad = vec![import("a", share("1.0"))];
    assert!(!validate_import_module_entries(&bad));
}

#[test]
fn test_module_config_dependencies() {
    let config = ModuleConfig {
        name: "hello".to_string(),
        version: "1.0.0".to_string(),
        edition: "2025".to_string(),
        seal: false,
        properties: vec![("debug".to_string(), PropertyValue::Flag(true))],
        modules: vec![
            ("util".to_string(), share("1.0.0")),
            ("std".to_string(), ModuleDependency::Runtime),
        ],
        libraries: vec![],
    };
    let (imports, libraries) = config.get_dependencies_by_module_config();
    assert_eq!(imports.len(), 2);
    assert_eq!(imports[0].name, "util");
    assert!(matches!(
        &imports[0].module_dependency,
        ModuleDependency::Share { version } if version == "1.0.0"
    ));
    assert_eq!(imports[1].name, "std");
    assert!(libraries.is_empty());
}

#[test]
fn test_merge_registries() {
    let user = vec!["https://mirror.example/reg".to_string(), "https://a.example".to_string()];
    let defaults = vec![
        "https://a.example".to_string(),
        "https://b.example".to_string(),
        "https://b.example".to_string(),
    ];
    let merged = merge_registries(user, &defaults);
    assert_eq!(
        merged,
        vec![
            "https://mirror.example/reg".to_string(),
            "https://a.example".to_string(),
            "https://b.example".to_string(),
        ]
    );
}

#[test]
fn test_default_and_runtime_config() {
    let default_config = DefaultConfig::load("/ignored").unwrap();
    assert_eq!(default_config.runtime_home, "~/.anc");
    assert_eq!(default_config.registries.len(), 2);
    assert_eq!(default_config.runtime_registries.len(), 2);
    let runtime_config = RuntimeConfig::load("/ignored").unwrap();
    assert!(runtime_config.registries.is_empty());
}

#[test]
fn test_select_unit_tests() {
    let entry = |name: &str| EntryPointEntry { unit_name: name.to_string() };
    let entries = vec![
        entry("_start"),
        entry("foo::test_add"),
        entry("foo::test_subtract"),
        entry("bar::test_multiply"),
        entry("bar::test_divide"),
    ];
    // an empty prefix selects every unit test and skips plain units
    let (selected, filtered_out) = select_unit_tests(&entries, "");
    assert_eq!(
        selected,
        vec![
            "foo::test_add".to_string(),
            "foo::test_subtract".to_string(),
            "bar::test_multiply".to_string(),
            "bar::test_divide".to_string(),
        ]
    );
    assert!(filtered_out.is_empty());
    // a prefix keeps matching tests and reports the others as filtered
    let (selected, filtered_out) = select_unit_tests(&entries, "foo");
    assert_eq!(selected, vec!["foo::test_add".to_string(), "foo::test_subtract".to_string()]);
    assert_eq!(
        filtered_out,
        vec!["bar::test_multiply".to_string(), "bar::test_divide".to_string()]
    );
    let result = UnitTestResult::new("foo::test_add".to_string(), true);
    assert_eq!(result, UnitTestResult { name: "foo::test_add".to_string(), success: true });
}

#[test]
fn test_runtime_error_message() {
    let err = RuntimeError::Message("broken".to_string());
    assert_eq!(err.message().as_str(), "broken");
}

#[test]
fn test_resolution_is_deterministic() {
    // two runs over identical inputs give identical ordered results
    let main = image(
        "app",
        "1.0.0",
        vec![import("util", share("1.2.0")), import("helper", share("1.0.0"))],
    );
    let helper = image("helper", "1.0.0", vec![import("util", share("1.2.0"))]);
    let util = image("util", "1.2.0", vec![]);
    let registry: Vec<(&str, ImageCommonEntry)> =
        vec![("helper", helper), ("util", util)];
    let (images_first, entries_first) = drive(&main, &registry).unwrap();
    let (images_second, entries_second) = drive(&main, &registry).unwrap();
    assert_eq!(images_first, images_second);
    assert_eq!(entries_first, entries_second);
}

#[test]
fn test_prepend_main_module() {
    let main = image("app", "1.0.0", vec![]);
    let mut images = vec![image("util", "1.2.0", vec![])];
    let mut entries = vec![anc_runtime::entry::DynamicLinkModuleEntry {
        name: "util".to_string(),
        module_location: ModuleLocation::Share {
            version: "1.2.0".to_string(),
            hash: "0a".to_string(),
        },
    }];
    anc_runtime::resolver::prepend_main_module(&main, &mut images, &mut entries);
    assert_eq!(images.len(), 2);
    assert_eq!(images[0].name, "app");
    assert_eq!(images[1].name, "util");
    assert_eq!(entries.len(), 2);
    assert_eq!(entries[0].name, "app");
    assert!(matches!(entries[0].module_location, ModuleLocation::Embed));
    assert_eq!(entries[1].name, "util");
}
