//! The older path-layout layer: the same canonical places as
//! [`crate::locations`], under the names an earlier arrangement of the
//! crate used, together with the runtime property type keyed by an
//! installation root and edition.

use vstd::prelude::*;
use crate::entry::{
    DynamicLinkModuleEntry, ExternalLibraryEntry, ImportModuleEntry, ModuleConfig, ModuleLocation,
};
use crate::hash::{spec_hex_of, DependencyHash};
use crate::locations;
use crate::text::{join_path, spec_path_join, spec_replace_extension};

verus! {

/// A file found by a scan, with its last-modification time. Some file
/// systems report no timestamp.
#[derive(Debug, Clone)]
pub struct PathWithTimestamp {
    pub file_path: String,
    pub timestamp: Option<u64>,
}

/// Paths derived from an installation root (such as `~/.local/lib/anc`)
/// and an edition (such as `2025`).
#[derive(Debug, Clone)]
pub struct RuntimeProperty {
    anc_root_path: String,
    edition: String,
}

impl RuntimeProperty {
    /// The installation root, for stating contracts.
    pub closed spec fn spec_root(&self) -> Seq<char> {
        self.anc_root_path@
    }

    /// The edition, for stating contracts.
    pub closed spec fn spec_edition(&self) -> Seq<char> {
        self.edition@
    }

    pub fn new(anc_root_path: String, edition: String) -> (r: Self)
        ensures
            r.spec_root() == anc_root_path@,
            r.spec_edition() == edition@,
    {
        RuntimeProperty { anc_root_path, edition }
    }

    /// `{root}/{edition}/runtime`
    pub fn get_runtime_directory(&self) -> (r: String)
        ensures
            r@ == spec_path_join(
                spec_path_join(self.spec_root(), self.spec_edition()),
                "runtime"@,
            ),
    {
        let with_edition = join_path(self.anc_root_path.as_str(), self.edition.as_str());
        join_path(with_edition.as_str(), "runtime")
    }

    /// `{root}/{edition}/runtime/modules`
    pub fn get_builtin_modules_directory(&self) -> (r: String)
        ensures
            r@ == spec_path_join(
                spec_path_join(
                    spec_path_join(self.spec_root(), self.spec_edition()),
                    "runtime"@,
                ),
                "modules"@,
            ),
    {
        let runtime_directory = self.get_runtime_directory();
        join_path(runtime_directory.as_str(), "modules")
    }

    /// `{root}/{edition}/runtime/libraries`
    pub fn get_builtin_libraries_directory(&self) -> (r: String)
        ensures
            r@ == spec_path_join(
                spec_path_join(
                    spec_path_join(self.spec_root(), self.spec_edition()),
                    "runtime"@,
                ),
                "libraries"@,
            ),
    {
        let runtime_directory = self.get_runtime_directory();
        join_path(runtime_directory.as_str(), "libraries")
    }

    /// `{root}/{edition}/modules`
    pub fn get_modules_directory(&self) -> (r: String)
        ensures
            r@ == spec_path_join(
                spec_path_join(self.spec_root(), self.spec_edition()),
                "modules"@,
            ),
    {
        let with_edition = join_path(self.anc_root_path.as_str(), self.edition.as_str());
        join_path(with_edition.as_str(), "modules")
    }

    /// `{root}/{edition}/modules` — libraries share the modules tree.
    pub fn get_libraries_directory(&self) -> (r: String)
        ensures
            r@ == spec_path_join(
                spec_path_join(self.spec_root(), self.spec_edition()),
                "modules"@,
            ),
    {
        let with_edition = join_path(self.anc_root_path.as_str(), self.edition.as_str());
        join_path(with_edition.as_str(), "modules")
    }
}

/// `{module_folder}/src`
pub fn get_src_path(module_dir: &str) -> (r: String)
    ensures
        r@ == spec_path_join(module_dir@, "src"@),
{
    locations::get_module_folder_src_path(module_dir)
}

/// `{module_folder}/app`
pub fn get_app_path(module_dir: &str) -> (r: String)
    ensures
        r@ == spec_path_join(module_dir@, "app"@),
{
    locations::get_module_folder_app_path(module_dir)
}

/// `{module_folder}/tests`
pub fn get_tests_path(module_dir: &str) -> (r: String)
    ensures
        r@ == spec_path_join(module_dir@, "tests"@),
{
    locations::get_module_folder_tests_path(module_dir)
}

/// `{module_folder}/output`
pub fn get_output_path(module_dir: &str) -> (r: String)
    ensures
        r@ == spec_path_join(module_dir@, "output"@),
{
    locations::get_module_folder_output_path(module_dir)
}

/// `{module_folder}/output/{hash}`; without a hash the all-zero hash
/// names the directory.
pub fn get_output_hash_path(output_path: &str, hash_opt: &Option<DependencyHash>) -> (r: String)
    ensures
        match hash_opt {
            Some(hash) => r@ == spec_path_join(output_path@, spec_hex_of(hash.bytes@)),
            None => r@ == spec_path_join(
                output_path@,
                spec_hex_of(DependencyHash::zero_bytes()),
            ),
        },
{
    match hash_opt {
        Some(hash) => locations::get_output_folder_hash_path(output_path, Some(hash)),
        None => {
            let zero = DependencyHash::zero();
            locations::get_output_folder_hash_path(output_path, Some(&zero))
        },
    }
}

/// `{hash_path}/asset`
pub fn get_hash_asset_path(hash_path: &str) -> (r: String)
    ensures
        r@ == spec_path_join(hash_path@, "asset"@),
{
    locations::get_hash_folder_asset_path(hash_path)
}

/// `{asset_path}/ir`
pub fn get_asset_ir_path(asset_path: &str) -> (r: String)
    ensures
        r@ == spec_path_join(asset_path@, "ir"@),
{
    locations::get_asset_folder_ir_path(asset_path)
}

/// `{asset_path}/assembly`
pub fn get_asset_assembly_path(asset_path: &str) -> (r: String)
    ensures
        r@ == spec_path_join(asset_path@, "assembly"@),
{
    locations::get_asset_folder_assembly_path(asset_path)
}

/// `{asset_path}/object`
pub fn get_asset_object_path(asset_path: &str) -> (r: String)
    ensures
        r@ == spec_path_join(asset_path@, "object"@),
{
    locations::get_asset_folder_object_path(asset_path)
}

/// `{output_path}/{name}.anci`
pub fn get_application_image_file_path(output_path: &str, module_name: &str) -> (r: String)
    ensures
        r@ == spec_replace_extension(spec_path_join(output_path@, module_name@), "anci"@),
{
    locations::get_application_module_image_file_path_by_output_path(output_path, module_name)
}

/// `{hash_path}/{name}.ancm`
pub fn get_shared_module_file_path(hash_path: &str, module_name: &str) -> (r: String)
    ensures
        r@ == spec_replace_extension(spec_path_join(hash_path@, module_name@), "ancm"@),
{
    locations::get_shared_module_image_file_path_by_hash_path(hash_path, module_name)
}

/// `{module_folder}/module.anc.ason`
pub fn get_module_config_file_path(module_dir: &str) -> (r: String)
    ensures
        r@ == spec_path_join(module_dir@, "module.anc.ason"@),
{
    locations::get_module_config_file_path(module_dir)
}

/// `{ir_path}/{canonical_name}.ancr`
pub fn get_ir_file_path(ir_path: &str, canonical_name: &str) -> (r: String)
    ensures
        r@ == spec_replace_extension(spec_path_join(ir_path@, canonical_name@), "ancr"@),
{
    locations::get_ir_file_path(ir_path, canonical_name)
}

/// `{assembly_path}/{canonical_name}.anca`
pub fn get_assembly_file_path(assembly_path: &str, canonical_name: &str) -> (r: String)
    ensures
        r@ == spec_replace_extension(spec_path_join(assembly_path@, canonical_name@), "anca"@),
{
    locations::get_assembly_file_path(assembly_path, canonical_name)
}

/// `{object_path}/{canonical_name}.anco`
pub fn get_object_file_path(object_path: &str, canonical_name: &str) -> (r: String)
    ensures
        r@ == spec_replace_extension(spec_path_join(object_path@, canonical_name@), "anco"@),
{
    locations::get_object_file_path(object_path, canonical_name)
}

/// Replaces the named file's extension with `.meta.ason`.
pub fn get_mata_file_path(directory: &str, file_name: &str) -> (r: String)
    ensures
        r@ == spec_replace_extension(spec_path_join(directory@, file_name@), "meta.ason"@),
{
    locations::get_mata_file_path(directory, file_name)
}

/// Replaces the given path's extension with `.meta.ason`.
pub fn get_mata_file_path_by_full_name(full_path: &str) -> (r: String)
    ensures
        r@ == spec_replace_extension(full_path@, "meta.ason"@),
{
    locations::get_mata_file_path_by_full_name(full_path)
}

/// The image file behind a dynamic-link record, under this layer's
/// runtime layout: local records resolve under their own directory,
/// remote and shared records under the modules cache, runtime records
/// under the built-in modules directory.
pub fn get_module_image_file_path_by_dynamic_link_module_entry(
    dynamic_link_module_entry: &DynamicLinkModuleEntry,
    runtime_property: &RuntimeProperty,
) -> (r: String)
    requires
        !(dynamic_link_module_entry.module_location is Embed),
    ensures
        match dynamic_link_module_entry.module_location {
            ModuleLocation::Local { path, hash } => r@ == spec_replace_extension(
                spec_path_join(
                    spec_path_join(spec_path_join(path@, "output"@), hash@),
                    dynamic_link_module_entry.name@,
                ),
                "ancm"@,
            ),
            ModuleLocation::Remote { hash } => r@ == spec_replace_extension(
                spec_path_join(
                    spec_path_join(
                        spec_path_join(
                            spec_path_join(
                                spec_path_join(
                                    self_modules_dir(runtime_property),
                                    dynamic_link_module_entry.name@,
                                ),
                                "remote"@,
                            ),
                            "output"@,
                        ),
                        hash@,
                    ),
                    dynamic_link_module_entry.name@,
                ),
                "ancm"@,
            ),
            ModuleLocation::Share { version, hash } => r@ == spec_replace_extension(
                spec_path_join(
                    spec_path_join(
                        spec_path_join(
                            spec_path_join(
                                spec_path_join(
                                    self_modules_dir(runtime_property),
                                    dynamic_link_module_entry.name@,
                                ),
                                version@,
                            ),
                            "output"@,
                        ),
                        hash@,
                    ),
                    dynamic_link_module_entry.name@,
                ),
                "ancm"@,
            ),
            ModuleLocation::Runtime => r@ == spec_replace_extension(
                spec_path_join(
                    spec_path_join(
                        spec_path_join(
                            spec_path_join(
                                self_builtin_modules_dir(runtime_property),
                                dynamic_link_module_entry.name@,
                            ),
                            "output"@,
                        ),
                        spec_hex_of(DependencyHash::zero_bytes()),
                    ),
                    dynamic_link_module_entry.name@,
                ),
                "ancm"@,
            ),
            ModuleLocation::Embed => true,
        },
{
    let module_name = &dynamic_link_module_entry.name;
    match &dynamic_link_module_entry.module_location {
        ModuleLocation::Local { path, hash } => {
            let output = join_path(path.as_str(), "output");
            let hash_path = join_path(output.as_str(), hash.as_str());
            get_shared_module_file_path(hash_path.as_str(), module_name.as_str())
        },
        ModuleLocation::Remote { hash } => {
            let modules = runtime_property.get_modules_directory();
            let named = join_path(modules.as_str(), module_name.as_str());
            let remote = join_path(named.as_str(), "remote");
            let output = join_path(remote.as_str(), "output");
            let hash_path = join_path(output.as_str(), hash.as_str());
            get_shared_module_file_path(hash_path.as_str(), module_name.as_str())
        },
        ModuleLocation::Share { version, hash } => {
            let modules = runtime_property.get_modules_directory();
            let named = join_path(modules.as_str(), module_name.as_str());
            let versioned = join_path(named.as_str(), version.as_str());
            let output = join_path(versioned.as_str(), "output");
            let hash_path = join_path(output.as_str(), hash.as_str());
            get_shared_module_file_path(hash_path.as_str(), module_name.as_str())
        },
        ModuleLocation::Runtime => {
            let builtin = runtime_property.get_builtin_modules_directory();
            let named = join_path(builtin.as_str(), module_name.as_str());
            let output = join_path(named.as_str(), "output");
            let hash_path = get_output_hash_path(output.as_str(), &None);
            get_shared_module_file_path(hash_path.as_str(), module_name.as_str())
        },
        ModuleLocation::Embed => {
            proof {
                assert(false);
            }
            String::new()
        },
    }
}

/// The manifest's module and library maps as entry lists, in declaration
/// order: this layer's free-function form of the manifest method.
pub fn get_dependencies_by_module_config(module_config: &ModuleConfig) -> (r: (
    Vec<ImportModuleEntry>,
    Vec<ExternalLibraryEntry>,
))
    ensures
        r.0@.len() == module_config.modules@.len(),
        forall|i: int|
            0 <= i < r.0@.len() ==> r.0@[i].name@ == module_config.modules@[i].0@
                && crate::entry::spec_dependency_eq(
                r.0@[i].module_dependency,
                module_config.modules@[i].1,
            ),
        r.1@.len() == module_config.libraries@.len(),
        forall|i: int| 0 <= i < r.1@.len() ==> r.1@[i].name@ == module_config.libraries@[i].0@,
{
    module_config.get_dependencies_by_module_config()
}

/// Scans a block comment starting just after its opening delimiter, as
/// the inline-configuration search does.
pub fn pickup_block_comment(chars: &Vec<char>, start: usize) -> (r: Option<(String, usize)>)
    requires
        start <= chars@.len(),
    ensures
        match r {
            Some(pair) => pair.1 <= chars@.len() && crate::builder::spec_scan_block_comment(
                chars@.skip(start as int),
                1,
                Seq::<char>::empty(),
            ) == Some((pair.0@, chars@.skip(pair.1 as int))),
            None => crate::builder::spec_scan_block_comment(
                chars@.skip(start as int),
                1,
                Seq::<char>::empty(),
            ) is None,
        },
{
    crate::builder::parse_block_comment(chars, start)
}

/// Scans a source text for the first block comment whose trimmed body
/// begins with `config!`, and returns the text after the marker for the
/// configuration decoder.
pub fn pickup_config_text(source_code: &str) -> (r: Option<String>)
    ensures
        match r {
            Some(text) => crate::builder::spec_find_marked_comment(source_code@, "config!"@)
                == Some(text@),
            None => crate::builder::spec_find_marked_comment(source_code@, "config!"@) is None,
        },
{
    let chars = crate::text::str_to_chars(source_code);
    crate::builder::find_marked_comment_text_for(&chars, "config!")
}

/// `{root}/{edition}/modules` as a sequence, for stating contracts.
pub closed spec fn self_modules_dir(runtime_property: &RuntimeProperty) -> Seq<char> {
    spec_path_join(
        spec_path_join(runtime_property.spec_root(), runtime_property.spec_edition()),
        "modules"@,
    )
}

/// `{root}/{edition}/runtime/modules` as a sequence, for stating
/// contracts.
pub closed spec fn self_builtin_modules_dir(runtime_property: &RuntimeProperty) -> Seq<char> {
    spec_path_join(
        spec_path_join(
            spec_path_join(runtime_property.spec_root(), runtime_property.spec_edition()),
            "runtime"@,
        ),
        "modules"@,
    )
}

} // verus!
