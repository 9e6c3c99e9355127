//! The data model of the build core: module manifests, dependency records,
//! the parts of a module image that the build and resolution logic reads,
//! dynamic-link records, sidecar metadata, and the runtime's directory
//! layout.

use vstd::prelude::*;
use crate::text::join_path;
use crate::text::spec_path_join;

verus! {

/// Where a dependency's source lives, and under which rules it is fetched
/// and rebuilt.
#[derive(Debug, Clone, Copy, PartialEq, Eq, Structural)]
pub enum ModuleDependencyType {
    Local,
    Remote,
    Share,
    Runtime,
    /// The importing module itself.
    SelfReference,
}

/// A dependency record as it stands in a manifest.
#[derive(Debug, Clone, PartialEq)]
pub enum ModuleDependency {
    /// A source module at a path relative to the importer's directory.
    Local { path: String },
    /// A Git repository and a commit or tag.
    Remote { url: String, revision: String },
    /// A name and version looked up in a registry.
    Share { version: String },
    /// A built-in module shipped with the runtime.
    Runtime,
    /// The importing module itself; skipped during traversal.
    SelfReference,
}

/// The mathematical model of a dependency record: the same shape over
/// character sequences.
pub enum ModuleDependencyView {
    Local { path: Seq<char> },
    Remote { url: Seq<char>, revision: Seq<char> },
    Share { version: Seq<char> },
    Runtime,
    SelfReference,
}

impl View for ModuleDependency {
    type V = ModuleDependencyView;

    open spec fn view(&self) -> ModuleDependencyView {
        match self {
            ModuleDependency::Local { path } => ModuleDependencyView::Local { path: path@ },
            ModuleDependency::Remote { url, revision } => ModuleDependencyView::Remote {
                url: url@,
                revision: revision@,
            },
            ModuleDependency::Share { version } => ModuleDependencyView::Share {
                version: version@,
            },
            ModuleDependency::Runtime => ModuleDependencyView::Runtime,
            ModuleDependency::SelfReference => ModuleDependencyView::SelfReference,
        }
    }
}

impl DeepView for ModuleDependency {
    type V = ModuleDependencyView;

    open spec fn deep_view(&self) -> ModuleDependencyView {
        self.view()
    }
}

/// The kind of a modelled dependency record.
pub open spec fn spec_view_dependency_type(d: ModuleDependencyView) -> ModuleDependencyType {
    match d {
        ModuleDependencyView::Local { .. } => ModuleDependencyType::Local,
        ModuleDependencyView::Remote { .. } => ModuleDependencyType::Remote,
        ModuleDependencyView::Share { .. } => ModuleDependencyType::Share,
        ModuleDependencyView::Runtime => ModuleDependencyType::Runtime,
        ModuleDependencyView::SelfReference => ModuleDependencyType::SelfReference,
    }
}

/// The kind of a dependency record.
pub open spec fn spec_dependency_type(d: ModuleDependency) -> ModuleDependencyType {
    match d {
        ModuleDependency::Local { .. } => ModuleDependencyType::Local,
        ModuleDependency::Remote { .. } => ModuleDependencyType::Remote,
        ModuleDependency::Share { .. } => ModuleDependencyType::Share,
        ModuleDependency::Runtime => ModuleDependencyType::Runtime,
        ModuleDependency::SelfReference => ModuleDependencyType::SelfReference,
    }
}

/// Structural equality of two dependency records, comparing the text of
/// every field.
pub open spec fn spec_dependency_eq(a: ModuleDependency, b: ModuleDependency) -> bool {
    a@ == b@
}

impl ModuleDependency {
    /// A copy whose fields hold the same text.
    pub fn duplicate(&self) -> (r: ModuleDependency)
        ensures
            spec_dependency_eq(*self, r),
            spec_dependency_type(r) == spec_dependency_type(*self),
    {
        match self {
            ModuleDependency::Local { path } => ModuleDependency::Local { path: path.clone() },
            ModuleDependency::Remote { url, revision } => ModuleDependency::Remote {
                url: url.clone(),
                revision: revision.clone(),
            },
            ModuleDependency::Share { version } => ModuleDependency::Share {
                version: version.clone(),
            },
            ModuleDependency::Runtime => ModuleDependency::Runtime,
            ModuleDependency::SelfReference => ModuleDependency::SelfReference,
        }
    }

    /// Whether the two records are structurally equal.
    pub fn equals(&self, other: &ModuleDependency) -> (r: bool)
        ensures
            r == spec_dependency_eq(*self, *other),
    {
        match (self, other) {
            (ModuleDependency::Local { path: p1 }, ModuleDependency::Local { path: p2 }) => *p1
                == *p2,
            (
                ModuleDependency::Remote { url: u1, revision: r1 },
                ModuleDependency::Remote { url: u2, revision: r2 },
            ) => *u1 == *u2 && *r1 == *r2,
            (
                ModuleDependency::Share { version: v1 },
                ModuleDependency::Share { version: v2 },
            ) => *v1 == *v2,
            (ModuleDependency::Runtime, ModuleDependency::Runtime) => true,
            (ModuleDependency::SelfReference, ModuleDependency::SelfReference) => true,
            _ => false,
        }
    }
}

/// A dependency record of an external (native) library in a manifest. The
/// build core carries these through to the assembler untouched.
#[derive(Debug, Clone, PartialEq)]
pub enum ExternalLibraryDependency {
    Local { path: String },
    Remote { url: String, revision: String },
    Share { version: String },
    Runtime,
}

/// One import in a module's manifest or image: the imported module's name
/// and its dependency record.
#[derive(Debug, Clone, PartialEq)]
pub struct ImportModuleEntry {
    pub name: String,
    pub module_dependency: ModuleDependency,
}

/// The mathematical model of an import entry.
pub struct ImportModuleEntryView {
    pub name: Seq<char>,
    pub module_dependency: ModuleDependencyView,
}

impl View for ImportModuleEntry {
    type V = ImportModuleEntryView;

    open spec fn view(&self) -> ImportModuleEntryView {
        ImportModuleEntryView { name: self.name@, module_dependency: self.module_dependency@ }
    }
}

impl DeepView for ImportModuleEntry {
    type V = ImportModuleEntryView;

    open spec fn deep_view(&self) -> ImportModuleEntryView {
        self.view()
    }
}

impl ImportModuleEntry {
    pub fn new(name: String, module_dependency: ModuleDependency) -> (r: Self)
        ensures
            r.name == name,
            r.module_dependency == module_dependency,
    {
        ImportModuleEntry { name, module_dependency }
    }

    /// A copy whose fields hold the same text.
    pub fn duplicate(&self) -> (r: ImportModuleEntry)
        ensures
            r.name@ == self.name@,
            spec_dependency_eq(r.module_dependency, self.module_dependency),
            spec_dependency_type(r.module_dependency) == spec_dependency_type(
                self.module_dependency,
            ),
    {
        ImportModuleEntry { name: self.name.clone(), module_dependency: self.module_dependency.duplicate() }
    }
}

/// One external-library entry derived from a manifest.
#[derive(Debug, Clone)]
pub struct ExternalLibraryEntry {
    pub name: String,
    pub external_library_dependency: ExternalLibraryDependency,
}

/// The parts of a compiled module image that the build core reads: its
/// name, its version text, and its imports. Everything else in an image
/// (functions, data, index sections) belongs to the assembler and linker
/// and never reaches this logic.
#[derive(Debug, Clone, PartialEq)]
pub struct ImageCommonEntry {
    pub name: String,
    pub version: String,
    pub import_module_entries: Vec<ImportModuleEntry>,
}

/// The mathematical model of an image's read side: name, version text,
/// and imports.
pub struct ImageCommonEntryView {
    pub name: Seq<char>,
    pub version: Seq<char>,
    pub import_module_entries: Seq<ImportModuleEntryView>,
}

impl View for ImageCommonEntry {
    type V = ImageCommonEntryView;

    open spec fn view(&self) -> ImageCommonEntryView {
        ImageCommonEntryView {
            name: self.name@,
            version: self.version@,
            import_module_entries: self.import_module_entries.deep_view(),
        }
    }
}

impl DeepView for ImageCommonEntry {
    type V = ImageCommonEntryView;

    open spec fn deep_view(&self) -> ImageCommonEntryView {
        self.view()
    }
}

impl ImageCommonEntry {
    /// A copy whose fields hold the same text.
    pub fn duplicate(&self) -> (r: ImageCommonEntry)
        ensures
            r@ == self@,
    {
        let mut import_module_entries: Vec<ImportModuleEntry> = Vec::new();
        let mut i: usize = 0;
        while i < self.import_module_entries.len()
            invariant
                i <= self.import_module_entries@.len(),
                import_module_entries.deep_view().len() == i,
                forall|k: int|
                    0 <= k < i ==> import_module_entries.deep_view()[k]
                        == self.import_module_entries.deep_view()[k],
            decreases self.import_module_entries@.len() - i,
        {
            let ghost pre = import_module_entries.deep_view();
            let entry = self.import_module_entries[i].duplicate();
            proof {
                assert(entry@ == self.import_module_entries@[i as int]@);
            }
            import_module_entries.push(entry);
            proof {
                assert(import_module_entries.deep_view() =~= pre.push(entry@));
            }
            i = i + 1;
        }
        let r = ImageCommonEntry {
            name: self.name.clone(),
            version: self.version.clone(),
            import_module_entries,
        };
        proof {
            assert(r.import_module_entries.deep_view() =~= self.import_module_entries.deep_view());
        }
        r
    }
}

/// Where the loader finds one dependency's image at run time.
#[derive(Debug, Clone, PartialEq)]
pub enum ModuleLocation {
    /// The module is embedded in the application image itself.
    Embed,
    Local { path: String, hash: String },
    Remote { hash: String },
    Share { version: String, hash: String },
    Runtime,
}

/// The mathematical model of a run-time location.
pub enum ModuleLocationView {
    Embed,
    Local { path: Seq<char>, hash: Seq<char> },
    Remote { hash: Seq<char> },
    Share { version: Seq<char>, hash: Seq<char> },
    Runtime,
}

impl View for ModuleLocation {
    type V = ModuleLocationView;

    open spec fn view(&self) -> ModuleLocationView {
        match self {
            ModuleLocation::Embed => ModuleLocationView::Embed,
            ModuleLocation::Local { path, hash } => ModuleLocationView::Local {
                path: path@,
                hash: hash@,
            },
            ModuleLocation::Remote { hash } => ModuleLocationView::Remote { hash: hash@ },
            ModuleLocation::Share { version, hash } => ModuleLocationView::Share {
                version: version@,
                hash: hash@,
            },
            ModuleLocation::Runtime => ModuleLocationView::Runtime,
        }
    }
}

/// One record of the application image's index: a dependency's name and
/// its run-time location.
#[derive(Debug, Clone, PartialEq)]
pub struct DynamicLinkModuleEntry {
    pub name: String,
    pub module_location: ModuleLocation,
}

/// The mathematical model of a dynamic-link record.
pub struct DynamicLinkModuleEntryView {
    pub name: Seq<char>,
    pub module_location: ModuleLocationView,
}

impl View for DynamicLinkModuleEntry {
    type V = DynamicLinkModuleEntryView;

    open spec fn view(&self) -> DynamicLinkModuleEntryView {
        DynamicLinkModuleEntryView { name: self.name@, module_location: self.module_location@ }
    }
}

impl DeepView for DynamicLinkModuleEntry {
    type V = DynamicLinkModuleEntryView;

    open spec fn deep_view(&self) -> DynamicLinkModuleEntryView {
        self.view()
    }
}

/// One executable unit recorded in the application image's index.
#[derive(Debug, Clone, PartialEq)]
pub struct EntryPointEntry {
    pub unit_name: String,
}

/// The index of an application image: every module with its location, and
/// every entry point. The main module always stands first, embedded.
#[derive(Debug, Clone)]
pub struct ImageIndexEntry {
    pub dynamic_link_module_entries: Vec<DynamicLinkModuleEntry>,
    pub entry_point_entries: Vec<EntryPointEntry>,
}

/// A property value in a manifest.
#[derive(Debug, Clone)]
pub enum PropertyValue {
    String(String),
    Number(i64),
    Flag(bool),
}

/// A module's manifest: its identity, its seal flag, its properties, and
/// its dependency maps in declaration order.
#[derive(Debug, Clone)]
pub struct ModuleConfig {
    pub name: String,
    pub version: String,
    pub edition: String,
    /// A sealed module is loaded only, never rebuilt.
    pub seal: bool,
    pub properties: Vec<(String, PropertyValue)>,
    pub modules: Vec<(String, ModuleDependency)>,
    pub libraries: Vec<(String, ExternalLibraryDependency)>,
}

impl ModuleConfig {
    /// The manifest's module and library maps as entry lists, in
    /// declaration order.
    pub fn get_dependencies_by_module_config(&self) -> (r: (
        Vec<ImportModuleEntry>,
        Vec<ExternalLibraryEntry>,
    ))
        ensures
            r.0@.len() == self.modules@.len(),
            forall|i: int|
                0 <= i < r.0@.len() ==> r.0@[i].name@ == self.modules@[i].0@
                    && spec_dependency_eq(r.0@[i].module_dependency, self.modules@[i].1),
            r.1@.len() == self.libraries@.len(),
            forall|i: int| 0 <= i < r.1@.len() ==> r.1@[i].name@ == self.libraries@[i].0@,
    {
        let mut import_module_entries: Vec<ImportModuleEntry> = Vec::new();
        let mut i: usize = 0;
        while i < self.modules.len()
            invariant
                i <= self.modules@.len(),
                import_module_entries@.len() == i,
                forall|k: int|
                    0 <= k < i ==> import_module_entries@[k].name@ == self.modules@[k].0@
                        && spec_dependency_eq(
                        import_module_entries@[k].module_dependency,
                        self.modules@[k].1,
                    ),
            decreases self.modules@.len() - i,
        {
            let (name, dependency) = &self.modules[i];
            import_module_entries.push(
                ImportModuleEntry { name: name.clone(), module_dependency: dependency.duplicate() },
            );
            i = i + 1;
        }
        let mut external_library_entries: Vec<ExternalLibraryEntry> = Vec::new();
        let mut j: usize = 0;
        while j < self.libraries.len()
            invariant
                j <= self.libraries@.len(),
                external_library_entries@.len() == j,
                forall|k: int|
                    0 <= k < j ==> external_library_entries@[k].name@ == self.libraries@[k].0@,
            decreases self.libraries@.len() - j,
        {
            let (name, dependency) = &self.libraries[j];
            external_library_entries.push(
                ExternalLibraryEntry {
                    name: name.clone(),
                    external_library_dependency: dependency.clone(),
                },
            );
            j = j + 1;
        }
        (import_module_entries, external_library_entries)
    }
}

/// A sidecar record kept beside every generated artifact: the source's
/// last-known modification time and its declared dependencies. A missing
/// record, or one without a timestamp, means "assume changed".
#[derive(Debug, Clone, PartialEq)]
pub struct FileMeta {
    pub timestamp: Option<u64>,
    pub dependencies: Vec<String>,
}

impl FileMeta {
    /// The record written after an artifact is rebuilt: the source's
    /// timestamp at scan time, and no declared dependencies.
    pub fn from_timestamp(timestamp: Option<u64>) -> (r: FileMeta)
        ensures
            r.timestamp == timestamp,
            r.dependencies@.len() == 0,
    {
        FileMeta { timestamp, dependencies: Vec::new() }
    }
}

/// The default configuration shipped with the launcher.
#[derive(Debug, Clone)]
pub struct DefaultConfig {
    /// The registries indexing runtime executables.
    pub runtime_registries: Vec<String>,
    /// The registries indexing modules.
    pub registries: Vec<String>,
    pub runtime_home: String,
}

impl DefaultConfig {
    pub fn new() -> (r: Self)
        ensures
            r.runtime_registries@.len() == 2,
            r.runtime_registries@[0]@ == "https://github.com/hemashushu/anc_runtime_registry"@,
            r.runtime_registries@[1]@ == "https://gitlab.com/hemashushu/anc_runtime_registry"@,
            r.registries@.len() == 2,
            r.registries@[0]@ == "https://github.com/hemashushu/anc_module_registry"@,
            r.registries@[1]@ == "https://gitlab.com/hemashushu/anc_module_registry"@,
            r.runtime_home@ == "~/.anc"@,
    {
        let mut runtime_registries: Vec<String> = Vec::new();
        runtime_registries.push("https://github.com/hemashushu/anc_runtime_registry".to_owned());
        runtime_registries.push("https://gitlab.com/hemashushu/anc_runtime_registry".to_owned());
        let mut registries: Vec<String> = Vec::new();
        registries.push("https://github.com/hemashushu/anc_module_registry".to_owned());
        registries.push("https://gitlab.com/hemashushu/anc_module_registry".to_owned());
        DefaultConfig {
            runtime_registries,
            registries,
            runtime_home: "~/.anc".to_owned(),
        }
    }

    /// Loading the default configuration: the file's format is settled
    /// elsewhere, so the built-in defaults are returned for any path.
    pub fn load(_file_path: &str) -> (r: Result<Self, crate::RuntimeError>)
        ensures
            r is Ok,
            r->Ok_0.runtime_home@ == "~/.anc"@,
            r->Ok_0.registries@.len() == 2,
    {
        Ok(Self::new())
    }
}

/// The per-user configuration found under the runtime home.
#[derive(Debug, Clone)]
pub struct RuntimeConfig {
    pub registries: Vec<String>,
}

impl RuntimeConfig {
    pub fn new() -> (r: Self)
        ensures
            r.registries@.len() == 0,
    {
        RuntimeConfig { registries: Vec::new() }
    }

    /// Loading the user configuration: the file's format is settled
    /// elsewhere, so an empty configuration is returned for any path.
    pub fn load(_file_path: &str) -> (r: Result<Self, crate::RuntimeError>)
        ensures
            r is Ok,
            r->Ok_0.registries@.len() == 0,
    {
        Ok(Self::new())
    }
}

/// The union of the user's registry list and the default list, keeping the
/// user's order and dropping entries already present.
pub open spec fn spec_merge_registries(acc: Seq<String>, defaults: Seq<String>) -> Seq<String>
    decreases defaults.len(),
{
    if defaults.len() == 0 {
        acc
    } else {
        let first = defaults[0];
        let next = if exists|i: int| 0 <= i < acc.len() && acc[i]@ == first@ {
            acc
        } else {
            acc.push(first)
        };
        spec_merge_registries(next, defaults.skip(1))
    }
}

/// Merges the default registries into the user's list, skipping entries
/// whose text is already present.
pub fn merge_registries(user_registries: Vec<String>, default_registries: &Vec<String>) -> (r: Vec<
    String,
>)
    ensures
        r@ == spec_merge_registries(user_registries@, default_registries@),
{
    let ghost user0 = user_registries@;
    let mut merged = user_registries;
    proof {
        assert(default_registries@.skip(0) =~= default_registries@);
    }
    let mut i: usize = 0;
    while i < default_registries.len()
        invariant
            i <= default_registries@.len(),
            spec_merge_registries(user0, default_registries@) == spec_merge_registries(
                merged@,
                default_registries@.skip(i as int),
            ),
        decreases default_registries@.len() - i,
    {
        let candidate = &default_registries[i];
        let mut present = false;
        let mut k: usize = 0;
        while k < merged.len()
            invariant
                k <= merged@.len(),
                present == exists|j: int| 0 <= j < k && merged@[j]@ == candidate@,
            decreases merged@.len() - k,
        {
            if crate::text::str_eq(merged[k].as_str(), candidate.as_str()) {
                present = true;
            }
            k = k + 1;
        }
        proof {
            assert(default_registries@.skip(i as int)[0] == default_registries@[i as int]);
            assert(default_registries@.skip(i as int).skip(1) =~= default_registries@.skip(
                i + 1 as int,
            ));
        }
        if !present {
            merged.push(candidate.clone());
        }
        i = i + 1;
    }
    proof {
        assert(default_registries@.skip(default_registries@.len() as int) =~= Seq::<
            String,
        >::empty());
    }
    merged
}

/// Paths derived from the runtime's home directory and the directory of
/// the running runtime executable.
#[derive(Debug, Clone)]
pub struct RuntimeProperty {
    /// The runtime home, by default `~/.anc`.
    pub runtime_home: String,
    /// The directory of the current runtime executable.
    pub runtime_path: String,
    /// The module registries, in lookup order.
    pub registries: Vec<String>,
}

impl RuntimeProperty {
    /// A property set built from explicit paths, carrying the default
    /// module registries.
    pub fn from_custom(runtime_path: &str, runtime_home: &str) -> (r: Self)
        ensures
            r.runtime_home@ == runtime_home@,
            r.runtime_path@ == runtime_path@,
            r.registries@.len() == 2,
            r.registries@[0]@ == "https://github.com/hemashushu/anc_module_registry"@,
            r.registries@[1]@ == "https://gitlab.com/hemashushu/anc_module_registry"@,
    {
        let mut registries: Vec<String> = Vec::new();
        registries.push("https://github.com/hemashushu/anc_module_registry".to_owned());
        registries.push("https://gitlab.com/hemashushu/anc_module_registry".to_owned());
        RuntimeProperty {
            runtime_home: runtime_home.to_owned(),
            runtime_path: runtime_path.to_owned(),
            registries,
        }
    }

    /// `{runtime_home}/bin`
    pub fn get_bin_directory(&self) -> (r: String)
        ensures
            r@ == spec_path_join(self.runtime_home@, "bin"@),
    {
        join_path(self.runtime_home.as_str(), "bin")
    }

    /// `{runtime_home}/runtimes`
    pub fn get_runtimes_directory(&self) -> (r: String)
        ensures
            r@ == spec_path_join(self.runtime_home@, "runtimes"@),
    {
        join_path(self.runtime_home.as_str(), "runtimes")
    }

    /// `{runtime_home}/registries`
    pub fn get_registries_directory(&self) -> (r: String)
        ensures
            r@ == spec_path_join(self.runtime_home@, "registries"@),
    {
        join_path(self.runtime_home.as_str(), "registries")
    }

    /// `{runtime_home}/repositories`
    pub fn get_repositories_directory(&self) -> (r: String)
        ensures
            r@ == spec_path_join(self.runtime_home@, "repositories"@),
    {
        join_path(self.runtime_home.as_str(), "repositories")
    }

    /// `{runtime_home}/modules`
    pub fn get_modules_directory(&self) -> (r: String)
        ensures
            r@ == spec_path_join(self.runtime_home@, "modules"@),
    {
        join_path(self.runtime_home.as_str(), "modules")
    }

    /// `{runtime_path}/modules`: the built-in modules beside the runtime
    /// executable.
    pub fn get_builtin_modules_directory(&self) -> (r: String)
        ensures
            r@ == spec_path_join(self.runtime_path@, "modules"@),
    {
        join_path(self.runtime_path.as_str(), "modules")
    }
}

} // verus!
