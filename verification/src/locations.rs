//! Path layout: pure name computation mapping a module directory plus
//! kind, hash and name to the canonical places of its sources, its build
//! assets, and its image files.
//!
//! The layout per module is:
//!
//! ```text
//! {module_folder}/module.anc.ason                       manifest
//! {module_folder}/{src,app,tests}/**/*.anca             assembly sources
//! {module_folder}/output/{hash}/asset/{ir,assembly,object}
//! {module_folder}/output/{hash}/{name}.ancm             shared module image
//! {module_folder}/output/{name}.anci                    application image
//! ```

use vstd::prelude::*;
use crate::entry::{DynamicLinkModuleEntry, ModuleLocation, RuntimeProperty};
use crate::hash::{format_dependency_hash, spec_hex_of, DependencyHash};
use crate::text::{join_path, replace_extension, spec_path_join, spec_replace_extension};

verus! {

/// Returns `{hash_path}/{name}.ancm`
pub fn get_shared_module_image_file_path_by_hash_path(hash_path: &str, module_name: &str) -> (r:
    String)
    ensures
        r@ == spec_replace_extension(spec_path_join(hash_path@, module_name@), "ancm"@),
{
    let with_name = join_path(hash_path, module_name);
    replace_extension(with_name.as_str(), "ancm")
}

/// Returns `{output_path}/{name}.anci`
pub fn get_application_module_image_file_path_by_output_path(
    output_path: &str,
    module_name: &str,
) -> (r: String)
    ensures
        r@ == spec_replace_extension(spec_path_join(output_path@, module_name@), "anci"@),
{
    let with_name = join_path(output_path, module_name);
    replace_extension(with_name.as_str(), "anci")
}

/// Returns `{module_folder}/output/{name}.anci`
pub fn get_application_module_image_file_path(module_dir: &str, module_name: &str) -> (r: String)
    ensures
        r@ == spec_replace_extension(
            spec_path_join(spec_path_join(module_dir@, "output"@), module_name@),
            "anci"@,
        ),
{
    let output_path = get_module_folder_output_path(module_dir);
    let with_name = join_path(output_path.as_str(), module_name);
    replace_extension(with_name.as_str(), "anci")
}

/// Returns `{module_folder}/module.anc.ason`
pub fn get_module_config_file_path(module_dir: &str) -> (r: String)
    ensures
        r@ == spec_path_join(module_dir@, "module.anc.ason"@),
{
    join_path(module_dir, "module.anc.ason")
}

/// `{module_folder}/src`
pub fn get_module_folder_src_path(module_dir: &str) -> (r: String)
    ensures
        r@ == spec_path_join(module_dir@, "src"@),
{
    join_path(module_dir, "src")
}

/// `{module_folder}/app`
pub fn get_module_folder_app_path(module_dir: &str) -> (r: String)
    ensures
        r@ == spec_path_join(module_dir@, "app"@),
{
    join_path(module_dir, "app")
}

/// `{module_folder}/tests`
pub fn get_module_folder_tests_path(module_dir: &str) -> (r: String)
    ensures
        r@ == spec_path_join(module_dir@, "tests"@),
{
    join_path(module_dir, "tests")
}

/// `{module_folder}/output`
pub fn get_module_folder_output_path(module_dir: &str) -> (r: String)
    ensures
        r@ == spec_path_join(module_dir@, "output"@),
{
    join_path(module_dir, "output")
}

/// `{module_folder}/output/{hash}` with a hash, or the output folder
/// itself without one (runtime modules are built without a hash folder).
pub fn get_output_folder_hash_path(output_path: &str, hash_opt: Option<&DependencyHash>) -> (r:
    String)
    ensures
        match hash_opt {
            Some(hash) => r@ == spec_path_join(output_path@, spec_hex_of(hash.bytes@)),
            None => r@ == output_path@,
        },
{
    match hash_opt {
        Some(hash) => {
            let hash_string = format_dependency_hash(hash);
            join_path(output_path, hash_string.as_str())
        },
        None => output_path.to_owned(),
    }
}

/// `{module_folder}/output/{hash}/asset`
pub fn get_hash_folder_asset_path(hash_path: &str) -> (r: String)
    ensures
        r@ == spec_path_join(hash_path@, "asset"@),
{
    join_path(hash_path, "asset")
}

/// `{module_folder}/output/{hash}/asset/ir`
pub fn get_asset_folder_ir_path(asset_path: &str) -> (r: String)
    ensures
        r@ == spec_path_join(asset_path@, "ir"@),
{
    join_path(asset_path, "ir")
}

/// `{module_folder}/output/{hash}/asset/assembly`
pub fn get_asset_folder_assembly_path(asset_path: &str) -> (r: String)
    ensures
        r@ == spec_path_join(asset_path@, "assembly"@),
{
    join_path(asset_path, "assembly")
}

/// `{module_folder}/output/{hash}/asset/object`
pub fn get_asset_folder_object_path(asset_path: &str) -> (r: String)
    ensures
        r@ == spec_path_join(asset_path@, "object"@),
{
    join_path(asset_path, "object")
}

/// `{ir_path}/{canonical_name}.ancr`
pub fn get_ir_file_path(ir_path: &str, canonical_name: &str) -> (r: String)
    ensures
        r@ == spec_replace_extension(spec_path_join(ir_path@, canonical_name@), "ancr"@),
{
    let with_name = join_path(ir_path, canonical_name);
    replace_extension(with_name.as_str(), "ancr")
}

/// `{assembly_path}/{canonical_name}.anca`
pub fn get_assembly_file_path(assembly_path: &str, canonical_name: &str) -> (r: String)
    ensures
        r@ == spec_replace_extension(spec_path_join(assembly_path@, canonical_name@), "anca"@),
{
    let with_name = join_path(assembly_path, canonical_name);
    replace_extension(with_name.as_str(), "anca")
}

/// `{object_path}/{canonical_name}.anco`
pub fn get_object_file_path(object_path: &str, canonical_name: &str) -> (r: String)
    ensures
        r@ == spec_replace_extension(spec_path_join(object_path@, canonical_name@), "anco"@),
{
    let with_name = join_path(object_path, canonical_name);
    replace_extension(with_name.as_str(), "anco")
}

/// Replaces the extension of the named file with `.meta.ason`, e.g.
/// `something.anco` becomes `something.meta.ason`.
pub fn get_mata_file_path(directory: &str, file_name: &str) -> (r: String)
    ensures
        r@ == spec_replace_extension(spec_path_join(directory@, file_name@), "meta.ason"@),
{
    let with_name = join_path(directory, file_name);
    replace_extension(with_name.as_str(), "meta.ason")
}

/// Replaces the extension of the given path with `.meta.ason`, e.g.
/// `something.anco` becomes `something.meta.ason`.
pub fn get_mata_file_path_by_full_name(full_path: &str) -> (r: String)
    ensures
        r@ == spec_replace_extension(full_path@, "meta.ason"@),
{
    replace_extension(full_path, "meta.ason")
}

/// The path of the shared-module image that a dynamic-link record points
/// at, per its location kind.
pub open spec fn spec_shared_module_image_file_path(
    entry: DynamicLinkModuleEntry,
    runtime_property: RuntimeProperty,
) -> Seq<char>
    recommends
        !(entry.module_location is Embed),
{
    match entry.module_location {
        ModuleLocation::Local { path, hash } => spec_replace_extension(
            spec_path_join(
                spec_path_join(spec_path_join(path@, "output"@), hash@),
                entry.name@,
            ),
            "ancm"@,
        ),
        ModuleLocation::Remote { hash } => spec_replace_extension(
            spec_path_join(
                spec_path_join(
                    spec_path_join(
                        spec_path_join(
                            spec_path_join(
                                spec_path_join(runtime_property.runtime_home@, "modules"@),
                                entry.name@,
                            ),
                            "remote"@,
                        ),
                        "output"@,
                    ),
                    hash@,
                ),
                entry.name@,
            ),
            "ancm"@,
        ),
        ModuleLocation::Share { version, hash } => spec_replace_extension(
            spec_path_join(
                spec_path_join(
                    spec_path_join(
                        spec_path_join(
                            spec_path_join(
                                spec_path_join(runtime_property.runtime_home@, "modules"@),
                                entry.name@,
                            ),
                            version@,
                        ),
                        "output"@,
                    ),
                    hash@,
                ),
                entry.name@,
            ),
            "ancm"@,
        ),
        ModuleLocation::Runtime => spec_replace_extension(
            spec_path_join(
                spec_path_join(
                    spec_path_join(
                        spec_path_join(runtime_property.runtime_path@, "modules"@),
                        entry.name@,
                    ),
                    "output"@,
                ),
                entry.name@,
            ),
            "ancm"@,
        ),
        ModuleLocation::Embed => Seq::<char>::empty(),
    }
}

/// The on-disk location of the image behind a dynamic-link record. The
/// embedded main module has no file of its own.
pub fn get_shared_module_image_file_path_by_dynamic_link_module_entry(
    dynamic_link_module_entry: &DynamicLinkModuleEntry,
    runtime_property: &RuntimeProperty,
) -> (r: String)
    requires
        !(dynamic_link_module_entry.module_location is Embed),
    ensures
        r@ == spec_shared_module_image_file_path(*dynamic_link_module_entry, *runtime_property),
{
    let module_name = &dynamic_link_module_entry.name;
    match &dynamic_link_module_entry.module_location {
        ModuleLocation::Local { path, hash } => {
            let output = join_path(path.as_str(), "output");
            let hash_path = join_path(output.as_str(), hash.as_str());
            get_shared_module_image_file_path_by_hash_path(hash_path.as_str(), module_name.as_str())
        },
        ModuleLocation::Remote { hash } => {
            let modules = runtime_property.get_modules_directory();
            let named = join_path(modules.as_str(), module_name.as_str());
            let remote = join_path(named.as_str(), "remote");
            let output = join_path(remote.as_str(), "output");
            let hash_path = join_path(output.as_str(), hash.as_str());
            get_shared_module_image_file_path_by_hash_path(hash_path.as_str(), module_name.as_str())
        },
        ModuleLocation::Share { version, hash } => {
            let modules = runtime_property.get_modules_directory();
            let named = join_path(modules.as_str(), module_name.as_str());
            let versioned = join_path(named.as_str(), version.as_str());
            let output = join_path(versioned.as_str(), "output");
            let hash_path = join_path(output.as_str(), hash.as_str());
            get_shared_module_image_file_path_by_hash_path(hash_path.as_str(), module_name.as_str())
        },
        ModuleLocation::Runtime => {
            let builtin = runtime_property.get_builtin_modules_directory();
            let named = join_path(builtin.as_str(), module_name.as_str());
            let output = join_path(named.as_str(), "output");
            let hash_path = get_output_folder_hash_path(output.as_str(), None);
            get_shared_module_image_file_path_by_hash_path(hash_path.as_str(), module_name.as_str())
        },
        ModuleLocation::Embed => {
            proof {
                assert(false);
            }
            String::new()
        },
    }
}

} // verus!
