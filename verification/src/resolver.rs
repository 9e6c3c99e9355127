//! Dependency resolution: the transitive closure of a module's imports.
//!
//! The walk is breadth-first over a work queue. Acquiring and building one
//! module touches the file system and possibly the network, so the caller
//! drives that part: it takes pending items from a [`DependencyResolver`],
//! loads or builds each one, and hands the outcome back. Every decision —
//! which imports are legal under which parent kind, how duplicates are
//! arbitrated, which modules survive pruning, and where each survivor is
//! found at run time — is made here.

use vstd::prelude::*;
use crate::entry::{
    DynamicLinkModuleEntry, ImageCommonEntry, ImageCommonEntryView, ImportModuleEntry,
    DynamicLinkModuleEntryView, ImportModuleEntryView, ModuleDependency, ModuleDependencyType,
    ModuleDependencyView,
    ModuleLocation, ModuleLocationView, spec_view_dependency_type,
};
use crate::hash::DependencyHash;
use crate::text::{spec_path_join, str_eq};
use crate::version::{
    is_version_string, parse_effective_version, spec_compatible, spec_parse_version,
    VersionCompatibility,
};
use crate::RuntimeError;

verus! {

/// The kind of a dependency record.
pub fn get_module_dependency_type(module_dependency: &ModuleDependency) -> (r:
    ModuleDependencyType)
    ensures
        r == spec_view_dependency_type(module_dependency@),
{
    match module_dependency {
        ModuleDependency::Local { .. } => ModuleDependencyType::Local,
        ModuleDependency::Remote { .. } => ModuleDependencyType::Remote,
        ModuleDependency::Share { .. } => ModuleDependencyType::Share,
        ModuleDependency::Runtime => ModuleDependencyType::Runtime,
        ModuleDependency::SelfReference => ModuleDependencyType::SelfReference,
    }
}

/// The kind-legality rule: a remote module may not depend on a local one;
/// shared and runtime modules may depend on neither local nor remote ones.
pub open spec fn spec_edge_allowed(
    parent: ModuleDependencyType,
    child: ModuleDependencyType,
) -> bool {
    match parent {
        ModuleDependencyType::Local => true,
        ModuleDependencyType::Remote => child != ModuleDependencyType::Local,
        ModuleDependencyType::Share => child != ModuleDependencyType::Local && child
            != ModuleDependencyType::Remote,
        ModuleDependencyType::Runtime => child != ModuleDependencyType::Local && child
            != ModuleDependencyType::Remote,
        ModuleDependencyType::SelfReference => false,
    }
}

/// Every import of the list is legal under the given parent kind.
pub open spec fn spec_all_edges_allowed(
    parent: ModuleDependencyType,
    entries: Seq<ImportModuleEntryView>,
) -> bool {
    forall|i: int|
        0 <= i < entries.len() ==> spec_edge_allowed(
            parent,
            spec_view_dependency_type(#[trigger] entries[i].module_dependency),
        )
}

/// One queued acquisition: an import entry together with the directory of
/// the module that declared it, against which a relative path resolves.
#[derive(Debug, Clone)]
pub struct DependencyBuildPendingItem {
    pub parent_module_dir: String,
    pub import_module_entry: ImportModuleEntry,
}

/// The mathematical model of a queued acquisition.
pub struct DependencyBuildPendingItemView {
    pub parent_module_dir: Seq<char>,
    pub import_module_entry: ImportModuleEntryView,
}

impl View for DependencyBuildPendingItem {
    type V = DependencyBuildPendingItemView;

    open spec fn view(&self) -> DependencyBuildPendingItemView {
        DependencyBuildPendingItemView {
            parent_module_dir: self.parent_module_dir@,
            import_module_entry: self.import_module_entry@,
        }
    }
}

impl DeepView for DependencyBuildPendingItem {
    type V = DependencyBuildPendingItemView;

    open spec fn deep_view(&self) -> DependencyBuildPendingItemView {
        self.view()
    }
}

/// One loaded module: where it stands on disk, the dependency record that
/// introduced it, its hash, and the read side of its image.
#[derive(Debug, Clone)]
pub struct DependencyBuildCompleteItem {
    pub module_dir: String,
    pub module_dependency: ModuleDependency,
    pub hash_opt: Option<DependencyHash>,
    pub image_common_entry: ImageCommonEntry,
}

/// The mathematical model of a loaded module.
pub struct DependencyBuildCompleteItemView {
    pub module_dir: Seq<char>,
    pub module_dependency: ModuleDependencyView,
    pub hash_opt: Option<Seq<u8>>,
    pub image_common_entry: ImageCommonEntryView,
}

impl View for DependencyBuildCompleteItem {
    type V = DependencyBuildCompleteItemView;

    open spec fn view(&self) -> DependencyBuildCompleteItemView {
        DependencyBuildCompleteItemView {
            module_dir: self.module_dir@,
            module_dependency: self.module_dependency@,
            hash_opt: self.hash_opt.deep_view(),
            image_common_entry: self.image_common_entry@,
        }
    }
}

impl DeepView for DependencyBuildCompleteItem {
    type V = DependencyBuildCompleteItemView;

    open spec fn deep_view(&self) -> DependencyBuildCompleteItemView {
        self.view()
    }
}

/// The queue entries that a list of imports adds under one parent: every
/// entry except the self reference, in declaration order, each carrying
/// the parent's directory.
pub open spec fn spec_pending_additions(
    parent_dir: Seq<char>,
    entries: Seq<ImportModuleEntryView>,
) -> Seq<DependencyBuildPendingItemView>
    decreases entries.len(),
{
    if entries.len() == 0 {
        Seq::<DependencyBuildPendingItemView>::empty()
    } else {
        let rest = spec_pending_additions(parent_dir, entries.drop_last());
        let e = entries.last();
        if e.module_dependency is SelfReference {
            rest
        } else {
            rest.push(
                DependencyBuildPendingItemView {
                    parent_module_dir: parent_dir,
                    import_module_entry: e,
                },
            )
        }
    }
}

/// The index of the first loaded module carrying the given image name.
pub open spec fn spec_find_by_name(
    acc: Seq<DependencyBuildCompleteItemView>,
    name: Seq<char>,
) -> Option<int>
    decreases acc.len(),
{
    if acc.len() == 0 {
        None
    } else if acc[0].image_common_entry.name == name {
        Some(0)
    } else {
        match spec_find_by_name(acc.skip(1), name) {
            Some(j) => Some(j + 1),
            None => None,
        }
    }
}

/// What `spec_find_by_name` returns: the smallest index whose image
/// carries the name, or nothing when no image does.
pub proof fn lemma_find_by_name(acc: Seq<DependencyBuildCompleteItemView>, name: Seq<char>)
    ensures
        match spec_find_by_name(acc, name) {
            Some(j) => 0 <= j < acc.len() && acc[j].image_common_entry.name == name && forall|
                k: int,
            | 0 <= k < j ==> acc[k].image_common_entry.name != name,
            None => forall|k: int| 0 <= k < acc.len() ==> acc[k].image_common_entry.name != name,
        },
    decreases acc.len(),
{
    if acc.len() == 0 {
    } else if acc[0].image_common_entry.name == name {
    } else {
        lemma_find_by_name(acc.skip(1), name);
        assert forall|k: int| 0 <= k < acc.len() - 1 implies acc.skip(1)[k] == acc[k + 1] by {}
        match spec_find_by_name(acc.skip(1), name) {
            Some(j) => {
                assert(acc[j + 1].image_common_entry.name == name);
                assert forall|k: int| 0 <= k < j + 1 implies acc[k].image_common_entry.name
                    != name by {
                    if k >= 1 {
                        assert(acc.skip(1)[k - 1].image_common_entry.name != name);
                    }
                }
            },
            None => {
                assert forall|k: int| 0 <= k < acc.len() implies acc[k].image_common_entry.name
                    != name by {
                    if k >= 1 {
                        assert(acc.skip(1)[k - 1].image_common_entry.name != name);
                    }
                }
            },
        }
    }
}

/// Finds the loaded module whose image carries the given name.
fn find_item_by_name(items: &Vec<DependencyBuildCompleteItem>, name: &str) -> (r: Option<usize>)
    ensures
        match r {
            Some(j) => j < items@.len() && spec_find_by_name(items.deep_view(), name@) == Some(
                j as int,
            ),
            None => spec_find_by_name(items.deep_view(), name@) is None,
        },
{
    let mut k: usize = 0;
    while k < items.len()
        invariant
            k <= items@.len(),
            forall|j: int|
                0 <= j < k ==> (#[trigger] items.deep_view()[j]).image_common_entry.name != name@,
        decreases items@.len() - k,
    {
        if str_eq(items[k].image_common_entry.name.as_str(), name) {
            proof {
                lemma_find_by_name(items.deep_view(), name@);
                assert(items.deep_view()[k as int].image_common_entry.name == name@);
                match spec_find_by_name(items.deep_view(), name@) {
                    Some(j) => {
                        if j < k {
                            assert(items.deep_view()[j].image_common_entry.name != name@);
                        } else if j > k {
                            assert(items.deep_view()[k as int].image_common_entry.name != name@);
                        }
                    },
                    None => {
                        assert(items.deep_view()[k as int].image_common_entry.name != name@);
                    },
                }
            }
            return Some(k);
        }
        proof {
            assert(items.deep_view()[k as int].image_common_entry.name != name@);
        }
        k = k + 1;
    }
    proof {
        lemma_find_by_name(items.deep_view(), name@);
        if spec_find_by_name(items.deep_view(), name@) is Some {
            let j = spec_find_by_name(items.deep_view(), name@)->Some_0;
            assert(items.deep_view()[j].image_common_entry.name != name@);
        }
    }
    None
}

/// Every Share dependency in the list carries a well-formed version
/// string.
pub open spec fn spec_share_versions_valid(items: Seq<DependencyBuildCompleteItemView>) -> bool {
    forall|i: int|
        0 <= i < items.len() ==> ((#[trigger] items[i]).module_dependency matches
        ModuleDependencyView::Share { version } ==> is_version_string(version))
}

/// No item of the list was introduced by a self reference.
pub open spec fn spec_no_self_dependency(items: Seq<DependencyBuildCompleteItemView>) -> bool {
    forall|i: int|
        0 <= i < items.len() ==> !((#[trigger] items[i]).module_dependency is SelfReference)
}

/// One arbitration step of the de-duplication walk: how a newly loaded
/// module joins the accumulated list. An equal record is dropped; two
/// local records agreeing on the resolved directory are identical; a
/// strictly newer Share replaces the incumbent; everything else fails.
pub open spec fn spec_dedup_step(
    acc: Seq<DependencyBuildCompleteItemView>,
    item: DependencyBuildCompleteItemView,
) -> Option<Seq<DependencyBuildCompleteItemView>> {
    match spec_find_by_name(acc, item.image_common_entry.name) {
        None => Some(acc.push(item)),
        Some(i) => {
            let incumbent = acc[i];
            if incumbent.module_dependency == item.module_dependency {
                Some(acc)
            } else {
                match item.module_dependency {
                    ModuleDependencyView::Local { .. } => if incumbent.module_dependency is Local {
                        if incumbent.module_dir == item.module_dir {
                            Some(acc)
                        } else {
                            None
                        }
                    } else {
                        None
                    },
                    ModuleDependencyView::Remote { .. } => None,
                    ModuleDependencyView::Share { version: version_new } => match incumbent
                        .module_dependency {
                        ModuleDependencyView::Share { version: version_old } => match
                            spec_compatible(
                            spec_parse_version(version_new),
                            spec_parse_version(version_old),
                        ) {
                            VersionCompatibility::Equals => Some(acc),
                            VersionCompatibility::LessThan => Some(acc),
                            VersionCompatibility::GreaterThan => Some(acc.remove(i).push(item)),
                            VersionCompatibility::Conflict => None,
                        },
                        _ => None,
                    },
                    ModuleDependencyView::Runtime => None,
                    ModuleDependencyView::SelfReference => None,
                }
            }
        },
    }
}

/// The de-duplicated list: the loaded modules walked in order, each
/// arbitrated against the list built so far. Nothing is returned when an
/// arbitration fails.
pub open spec fn spec_dedup(items: Seq<DependencyBuildCompleteItemView>) -> Option<
    Seq<DependencyBuildCompleteItemView>,
>
    decreases items.len(),
{
    if items.len() == 0 {
        Some(Seq::<DependencyBuildCompleteItemView>::empty())
    } else {
        match spec_dedup(items.drop_last()) {
            None => None,
            Some(acc) => spec_dedup_step(acc, items.last()),
        }
    }
}

/// A failed arbitration in a prefix fails the whole walk.
pub proof fn lemma_dedup_prefix_none(items: Seq<DependencyBuildCompleteItemView>, j: int)
    requires
        0 <= j <= items.len(),
        spec_dedup(items.take(j)) is None,
    ensures
        spec_dedup(items) is None,
    decreases items.len() - j,
{
    if j == items.len() {
        assert(items.take(j) =~= items);
    } else {
        assert(items.take(j + 1).drop_last() =~= items.take(j));
        lemma_dedup_prefix_none(items, j + 1);
    }
}

/// Walks the loaded modules in order and arbitrates every repeated name:
/// an equal dependency record is dropped, two local records with one
/// resolved directory are identical, a strictly newer Share replaces the
/// incumbent, and every other repetition is an error.
pub fn remove_duplicated_module_items(loaded_module_items: Vec<DependencyBuildCompleteItem>) -> (r:
    Result<Vec<DependencyBuildCompleteItem>, RuntimeError>)
    requires
        spec_share_versions_valid(loaded_module_items.deep_view()),
        spec_no_self_dependency(loaded_module_items.deep_view()),
    ensures
        r is Ok <==> spec_dedup(loaded_module_items.deep_view()) is Some,
        r is Ok ==> r->Ok_0.deep_view() == spec_dedup(loaded_module_items.deep_view())->Some_0,
{
    let ghost orig = loaded_module_items.deep_view();
    let mut remaining = loaded_module_items;
    let mut dedup_module_items: Vec<DependencyBuildCompleteItem> = Vec::new();
    proof {
        assert(remaining.deep_view() =~= orig.skip(0));
        assert(orig.take(0) =~= Seq::<DependencyBuildCompleteItemView>::empty());
    }
    while remaining.len() > 0
        invariant
            loaded_module_items.deep_view() == orig,
            spec_share_versions_valid(orig),
            spec_no_self_dependency(orig),
            remaining@.len() <= orig.len(),
            remaining.deep_view() == orig.skip(orig.len() - remaining@.len()),
            spec_dedup(orig.take(orig.len() - remaining@.len())) == Some(
                dedup_module_items.deep_view(),
            ),
            spec_share_versions_valid(dedup_module_items.deep_view()),
        decreases remaining@.len(),
    {
        let ghost k = orig.len() - remaining@.len();
        let ghost pre_rem = remaining@;
        let ghost pre_deep = remaining.deep_view();
        let item = remaining.remove(0);
        let ghost iv = item.deep_view();
        let ghost acc0 = dedup_module_items.deep_view();
        proof {
            pre_rem.remove_ensures(0);
            assert(iv == pre_deep[0]);
            assert(iv == orig[k]);
            assert(remaining@ == pre_rem.remove(0));
            assert forall|j: int| 0 <= j < remaining@.len() implies remaining.deep_view()[j]
                == orig.skip(k + 1)[j] by {
                assert(remaining@[j] == pre_rem[j + 1]);
                assert(remaining.deep_view()[j] == remaining@[j].deep_view());
                assert(pre_deep[j + 1] == pre_rem[j + 1].deep_view());
                assert(pre_deep[j + 1] == orig.skip(k)[j + 1]);
            }
            assert(remaining.deep_view() =~= orig.skip(k + 1));
            assert(orig.take(k + 1).drop_last() =~= orig.take(k));
            assert(orig.take(k + 1).last() == orig[k]);
        }
        let pos_opt = find_item_by_name(&dedup_module_items, item.image_common_entry.name.as_str());
        match pos_opt {
            None => {
                dedup_module_items.push(item);
                proof {
                    assert(dedup_module_items.deep_view() =~= acc0.push(iv));
                    assert(spec_dedup_step(acc0, iv) == Some(acc0.push(iv)));
                    assert(spec_share_versions_valid(dedup_module_items.deep_view()));
                }
            },
            Some(pos) => {
                let ghost incumbent = acc0[pos as int];
                let same = dedup_module_items[pos].module_dependency.equals(
                    &item.module_dependency,
                );
                if same {
                    // the records agree: the newcomer is dropped
                    proof {
                        assert(spec_dedup_step(acc0, iv) == Some(acc0));
                    }
                } else {
                    let item_dep_type = get_module_dependency_type(&item.module_dependency);
                    let incumbent_dep_type = get_module_dependency_type(
                        &dedup_module_items[pos].module_dependency,
                    );
                    match item_dep_type {
                        ModuleDependencyType::Local => {
                            if incumbent_dep_type == ModuleDependencyType::Local {
                                if str_eq(
                                    dedup_module_items[pos].module_dir.as_str(),
                                    item.module_dir.as_str(),
                                ) {
                                    // one resolved directory: the records are identical
                                    proof {
                                        assert(spec_dedup_step(acc0, iv) == Some(acc0));
                                    }
                                } else {
                                    proof {
                                        assert(spec_dedup_step(acc0, iv) is None);
                                        lemma_dedup_prefix_none(orig, k + 1);
                                    }
                                    return Err(
                                        dependency_error(
                                            item.image_common_entry.name.as_str(),
                                            "source conflict",
                                        ),
                                    );
                                }
                            } else {
                                proof {
                                    assert(spec_dedup_step(acc0, iv) is None);
                                    lemma_dedup_prefix_none(orig, k + 1);
                                }
                                return Err(
                                    dependency_error(
                                        item.image_common_entry.name.as_str(),
                                        "has different type",
                                    ),
                                );
                            }
                        },
                        ModuleDependencyType::Remote => {
                            proof {
                                assert(spec_dedup_step(acc0, iv) is None);
                                lemma_dedup_prefix_none(orig, k + 1);
                            }
                            let reason = if incumbent_dep_type == ModuleDependencyType::Remote {
                                "source conflict"
                            } else {
                                "has different type"
                            };
                            return Err(
                                dependency_error(item.image_common_entry.name.as_str(), reason),
                            );
                        },
                        ModuleDependencyType::Share => {
                            let version_new = match &item.module_dependency {
                                ModuleDependency::Share { version } => version.clone(),
                                _ => unreached(),
                            };
                            if incumbent_dep_type == ModuleDependencyType::Share {
                                let version_old = match &dedup_module_items[pos].module_dependency {
                                    ModuleDependency::Share { version } => version.clone(),
                                    _ => unreached(),
                                };
                                let parsed_new = match parse_effective_version(
                                    version_new.as_str(),
                                ) {
                                    Some(v) => v,
                                    None => unreached(),
                                };
                                let parsed_old = match parse_effective_version(
                                    version_old.as_str(),
                                ) {
                                    Some(v) => v,
                                    None => unreached(),
                                };
                                match parsed_new.compatible(&parsed_old) {
                                    VersionCompatibility::Equals
                                    | VersionCompatibility::LessThan => {
                                        // the incumbent is newer or equal: keep it
                                        proof {
                                            assert(spec_dedup_step(acc0, iv) == Some(acc0));
                                        }
                                    },
                                    VersionCompatibility::GreaterThan => {
                                        // the newcomer is newer: it replaces the incumbent
                                        let ghost acc_shallow = dedup_module_items@;
                                        dedup_module_items.remove(pos);
                                        proof {
                                            acc_shallow.remove_ensures(pos as int);
                                            acc0.remove_ensures(pos as int);
                                            assert(dedup_module_items.deep_view() =~= acc0.remove(
                                                pos as int,
                                            ));
                                        }
                                        let ghost acc1 = dedup_module_items.deep_view();
                                        dedup_module_items.push(item);
                                        proof {
                                            assert(dedup_module_items.deep_view() =~= acc1.push(
                                                iv,
                                            ));
                                            assert(spec_dedup_step(acc0, iv) == Some(
                                                acc0.remove(pos as int).push(iv),
                                            ));
                                            assert(spec_share_versions_valid(
                                                dedup_module_items.deep_view(),
                                            ));
                                        }
                                    },
                                    VersionCompatibility::Conflict => {
                                        proof {
                                            assert(spec_dedup_step(acc0, iv) is None);
                                            lemma_dedup_prefix_none(orig, k + 1);
                                        }
                                        return Err(
                                            dependency_error(
                                                item.image_common_entry.name.as_str(),
                                                "has conflict versions",
                                            ),
                                        );
                                    },
                                }
                            } else {
                                proof {
                                    assert(spec_dedup_step(acc0, iv) is None);
                                    lemma_dedup_prefix_none(orig, k + 1);
                                }
                                return Err(
                                    dependency_error(
                                        item.image_common_entry.name.as_str(),
                                        "has different type",
                                    ),
                                );
                            }
                        },
                        ModuleDependencyType::Runtime => {
                            proof {
                                assert(spec_dedup_step(acc0, iv) is None);
                                lemma_dedup_prefix_none(orig, k + 1);
                            }
                            return Err(
                                dependency_error(
                                    item.image_common_entry.name.as_str(),
                                    "has different type",
                                ),
                            );
                        },
                        ModuleDependencyType::SelfReference => {
                            proof {
                                assert(false);
                            }
                        },
                    }
                }
            },
        }
    }
    proof {
        assert(orig.take(orig.len() as int) =~= orig);
    }
    Ok(dedup_module_items)
}

/// Pairwise distinct image names.
pub open spec fn spec_names_unique(items: Seq<DependencyBuildCompleteItemView>) -> bool {
    forall|i: int, j: int|
        0 <= i < j < items.len() ==> (#[trigger] items[i]).image_common_entry.name != (
        #[trigger] items[j]).image_common_entry.name
}

/// Module names are unique within a de-duplicated list: every repeated
/// name was either dropped, merged, or reported as a conflict.
pub proof fn lemma_dedup_names_unique(items: Seq<DependencyBuildCompleteItemView>)
    requires
        spec_dedup(items) is Some,
    ensures
        spec_names_unique(spec_dedup(items)->Some_0),
    decreases items.len(),
{
    if items.len() == 0 {
    } else {
        lemma_dedup_names_unique(items.drop_last());
        let acc = spec_dedup(items.drop_last())->Some_0;
        let item = items.last();
        let name = item.image_common_entry.name;
        lemma_find_by_name(acc, name);
        match spec_find_by_name(acc, name) {
            None => {
                assert(spec_dedup(items)->Some_0 == acc.push(item));
                assert forall|i: int, j: int| 0 <= i < j < acc.push(item).len() implies acc.push(
                    item,
                )[i].image_common_entry.name != acc.push(item)[j].image_common_entry.name by {
                    if j == acc.len() {
                        assert(acc[i].image_common_entry.name != name);
                    }
                }
            },
            Some(p) => {
                let incumbent = acc[p];
                if incumbent.module_dependency == item.module_dependency {
                } else {
                    match item.module_dependency {
                        ModuleDependencyView::Share { version: version_new } => {
                            match incumbent.module_dependency {
                                ModuleDependencyView::Share { version: version_old } => {
                                    match spec_compatible(
                                        spec_parse_version(version_new),
                                        spec_parse_version(version_old),
                                    ) {
                                        VersionCompatibility::GreaterThan => {
                                            acc.remove_ensures(p);
                                            let trimmed = acc.remove(p);
                                            // only the incumbent carried the name, so
                                            // nothing left in the list carries it
                                            assert forall|i: int|
                                                0 <= i < trimmed.len() implies trimmed[i]
                                                .image_common_entry.name != name by {
                                                if i < p {
                                                    assert(trimmed[i] == acc[i]);
                                                } else {
                                                    assert(trimmed[i] == acc[i + 1]);
                                                }
                                            }
                                            let out = trimmed.push(item);
                                            assert forall|i: int, j: int|
                                                0 <= i < j < out.len() implies out[i]
                                                .image_common_entry.name != out[j]
                                                .image_common_entry.name by {
                                                if j < trimmed.len() {
                                                    let ai: int = if i < p {
                                                        i
                                                    } else {
                                                        i + 1
                                                    };
                                                    let aj: int = if j < p {
                                                        j
                                                    } else {
                                                        j + 1
                                                    };
                                                    assert(out[i] == acc[ai]);
                                                    assert(out[j] == acc[aj]);
                                                } else {
                                                    assert(out[j] == item);
                                                    assert(out[i] == trimmed[i]);
                                                }
                                            }
                                        },
                                        _ => {
                                        },
                                    }
                                },
                                _ => {
                                },
                            }
                        },
                        _ => {
                        },
                    }
                }
            },
        }
    }
}

/// De-duplication is deterministic: the ordered result is a function of
/// the loaded list alone, so identical inputs give identical outputs.
pub proof fn lemma_dedup_deterministic(
    a: Seq<DependencyBuildCompleteItemView>,
    b: Seq<DependencyBuildCompleteItemView>,
)
    requires
        a == b,
    ensures
        spec_dedup(a) == spec_dedup(b),
{
}

/// The image imports the named module, not counting the self reference.
pub open spec fn spec_has_import(image: ImageCommonEntryView, name: Seq<char>) -> bool {
    exists|i: int|
        0 <= i < image.import_module_entries.len() && !((
        #[trigger] image.import_module_entries[i]).module_dependency is SelfReference)
            && image.import_module_entries[i].name == name
}

/// Some module of the list carries the name `from` and imports `to`.
pub open spec fn spec_set_has_edge(
    items: Seq<DependencyBuildCompleteItemView>,
    from: Seq<char>,
    to: Seq<char>,
) -> bool {
    exists|j: int|
        0 <= j < items.len() && (#[trigger] items[j]).image_common_entry.name == from
            && spec_has_import(items[j].image_common_entry, to)
}

/// A chain of import edges from the main module through the list.
pub open spec fn spec_reachable_via(
    main: ImageCommonEntryView,
    items: Seq<DependencyBuildCompleteItemView>,
    path: Seq<Seq<char>>,
) -> bool {
    path.len() > 0 && spec_has_import(main, path[0]) && forall|t: int|
        0 <= t < path.len() - 1 ==> #[trigger] spec_set_has_edge(items, path[t], path[t + 1])
}

/// The named module is reachable from the main module through the import
/// graph, the self reference ignored.
pub open spec fn spec_reachable(
    main: ImageCommonEntryView,
    items: Seq<DependencyBuildCompleteItemView>,
    name: Seq<char>,
) -> bool {
    exists|path: Seq<Seq<char>>|
        #[trigger] spec_reachable_via(main, items, path) && path.last() == name
}

/// The list carries a module of the given name.
pub open spec fn spec_contains_module_name(
    items: Seq<DependencyBuildCompleteItemView>,
    name: Seq<char>,
) -> bool {
    spec_find_by_name(items, name) is Some
}

/// Every import of the main module and of every listed module names a
/// module of the list. A finished resolution walk guarantees this: each
/// import it met was itself loaded.
pub open spec fn spec_import_closed(
    main: ImageCommonEntryView,
    items: Seq<DependencyBuildCompleteItemView>,
) -> bool {
    (forall|n: Seq<char>|
        #[trigger] spec_has_import(main, n) ==> spec_contains_module_name(items, n)) && (forall|
        j: int,
        n: Seq<char>,
    |
        0 <= j < items.len() && #[trigger] spec_has_import(items[j].image_common_entry, n)
            ==> spec_contains_module_name(items, n))
}

/// A step along one import edge preserves reachability.
proof fn lemma_reach_step(
    main: ImageCommonEntryView,
    items: Seq<DependencyBuildCompleteItemView>,
    parent: Seq<char>,
    child: Seq<char>,
)
    requires
        spec_reachable(main, items, parent),
        spec_set_has_edge(items, parent, child),
    ensures
        spec_reachable(main, items, child),
{
    let path = choose|path: Seq<Seq<char>>|
        #[trigger] spec_reachable_via(main, items, path) && path.last() == parent;
    let extended = path.push(child);
    assert forall|t: int| 0 <= t < extended.len() - 1 implies #[trigger] spec_set_has_edge(
        items,
        extended[t],
        extended[t + 1],
    ) by {
        if t < path.len() - 1 {
            assert(spec_set_has_edge(items, path[t], path[t + 1]));
        } else {
            assert(extended[t] == parent && extended[t + 1] == child);
        }
    }
    assert(spec_reachable_via(main, items, extended));
    assert(extended.last() == child);
}

/// The list holds the given value.
pub open spec fn spec_idx_in(found: Seq<usize>, j: int) -> bool {
    exists|f: int| 0 <= f < found.len() && (#[trigger] found[f]) as int == j
}

fn contains_index(found: &Vec<usize>, j: usize) -> (r: bool)
    ensures
        r == spec_idx_in(found@, j as int),
{
    let mut f: usize = 0;
    while f < found.len()
        invariant
            f <= found@.len(),
            forall|g: int| 0 <= g < f ==> (#[trigger] found@[g]) != j,
        decreases found@.len() - f,
    {
        if found[f] == j {
            return true;
        }
        f = f + 1;
    }
    proof {
        if spec_idx_in(found@, j as int) {
            let f0 = choose|f0: int| 0 <= f0 < found@.len() && (found@[f0]) as int == j as int;
            assert(found@[f0] != j);
        }
    }
    false
}

/// Membership survives appending.
proof fn lemma_idx_in_push(found: Seq<usize>, x: usize, j: int)
    requires
        spec_idx_in(found, j),
    ensures
        spec_idx_in(found.push(x), j),
{
    let f = choose|f: int| 0 <= f < found.len() && (#[trigger] found[f]) as int == j;
    assert(found.push(x)[f] as int == j);
}

/// A duplicate-free list of indices below `n` has at most `n` entries.
proof fn lemma_distinct_bounded_len(s: Seq<usize>, n: int)
    requires
        s.no_duplicates(),
        n >= 0,
        forall|i: int| 0 <= i < s.len() ==> (s[i] as int) < n,
    ensures
        s.len() <= n,
{
    broadcast use vstd::set::group_set_axioms, vstd::seq_lib::seq_to_set_is_finite;

    let as_ints = s.map_values(|x: usize| x as int);
    assert forall|i: int, j: int| 0 <= i < as_ints.len() && 0 <= j < as_ints.len() && i
        != j implies as_ints[i] != as_ints[j] by {
        assert(s[i] != s[j]);
    }
    as_ints.unique_seq_to_set();
    vstd::set_lib::lemma_int_range(0, n);
    assert(as_ints.to_set().subset_of(vstd::set_lib::set_int_range(0, n))) by {
        assert forall|x: int| as_ints.to_set().contains(x) implies vstd::set_lib::set_int_range(
            0,
            n,
        ).contains(x) by {
            let i = choose|i: int| 0 <= i < as_ints.len() && as_ints[i] == x;
            assert(0 <= (s[i] as int) < n);
        }
    }
    vstd::set_lib::lemma_len_subset(as_ints.to_set(), vstd::set_lib::set_int_range(0, n));
}

/// Every import of the listed module leads to an index of the found set.
pub open spec fn spec_item_expanded(
    items: Seq<DependencyBuildCompleteItemView>,
    j: int,
    found: Seq<usize>,
) -> bool {
    forall|n: Seq<char>|
        #[trigger] spec_has_import(items[j].image_common_entry, n) ==> {
            let fo = spec_find_by_name(items, n);
            fo is Some && spec_idx_in(found, fo->Some_0)
        }
}

/// Being expanded survives appending to the found set.
proof fn lemma_expanded_push(
    items: Seq<DependencyBuildCompleteItemView>,
    j: int,
    found: Seq<usize>,
    x: usize,
)
    requires
        spec_item_expanded(items, j, found),
    ensures
        spec_item_expanded(items, j, found.push(x)),
{
    assert forall|n: Seq<char>| #[trigger] spec_has_import(items[j].image_common_entry, n) implies {
        let fo = spec_find_by_name(items, n);
        fo is Some && spec_idx_in(found.push(x), fo->Some_0)
    } by {
        let fo = spec_find_by_name(items, n);
        lemma_idx_in_push(found, x, fo->Some_0);
    }
}

/// Under unique names, looking a module's own name up finds the module.
proof fn lemma_find_unique(items: Seq<DependencyBuildCompleteItemView>, j: int)
    requires
        spec_names_unique(items),
        0 <= j < items.len(),
    ensures
        spec_find_by_name(items, items[j].image_common_entry.name) == Some(j),
{
    let name = items[j].image_common_entry.name;
    lemma_find_by_name(items, name);
    match spec_find_by_name(items, name) {
        Some(p) => {
            if p < j {
                assert(items[p].image_common_entry.name != items[j].image_common_entry.name);
            } else if p > j {
                assert(items[j].image_common_entry.name != name);
            }
        },
        None => {
            assert(items[j].image_common_entry.name != name);
        },
    }
}

/// Every import of the main module leads to an index of the found set.
pub open spec fn spec_main_expanded(
    main: ImageCommonEntryView,
    items: Seq<DependencyBuildCompleteItemView>,
    found: Seq<usize>,
) -> bool {
    forall|n: Seq<char>|
        #[trigger] spec_has_import(main, n) ==> {
            let fo = spec_find_by_name(items, n);
            fo is Some && spec_idx_in(found, fo->Some_0)
        }
}

/// Holding the main module's imports survives appending.
proof fn lemma_main_expanded_push(
    main: ImageCommonEntryView,
    items: Seq<DependencyBuildCompleteItemView>,
    found: Seq<usize>,
    x: usize,
)
    requires
        spec_main_expanded(main, items, found),
    ensures
        spec_main_expanded(main, items, found.push(x)),
{
    assert forall|n: Seq<char>| #[trigger] spec_has_import(main, n) implies {
        let fo = spec_find_by_name(items, n);
        fo is Some && spec_idx_in(found.push(x), fo->Some_0)
    } by {
        let fo = spec_find_by_name(items, n);
        lemma_idx_in_push(found, x, fo->Some_0);
    }
}

/// When the found set holds every import of the main module and is closed
/// under the imports of its members, it holds the end of every import
/// chain.
proof fn lemma_path_found(
    main: ImageCommonEntryView,
    items: Seq<DependencyBuildCompleteItemView>,
    found: Seq<usize>,
    path: Seq<Seq<char>>,
)
    requires
        spec_names_unique(items),
        spec_reachable_via(main, items, path),
        spec_main_expanded(main, items, found),
        forall|f: int| 0 <= f < found.len() ==> (#[trigger] found[f] as int) < items.len(),
        forall|f: int|
            0 <= f < found.len() ==> spec_item_expanded(items, #[trigger] found[f] as int, found),
    ensures
        ({
            let fo = spec_find_by_name(items, path.last());
            fo is Some && spec_idx_in(found, fo->Some_0)
        }),
    decreases path.len(),
{
    if path.len() == 1 {
        assert(spec_has_import(main, path[0]));
    } else {
        let prefix = path.drop_last();
        assert forall|t: int| 0 <= t < prefix.len() - 1 implies #[trigger] spec_set_has_edge(
            items,
            prefix[t],
            prefix[t + 1],
        ) by {
            assert(spec_set_has_edge(items, path[t], path[t + 1]));
        }
        assert(spec_reachable_via(main, items, prefix));
        lemma_path_found(main, items, found, prefix);
        let prev = prefix.last();
        let last = path.last();
        let t = spec_find_by_name(items, prev)->Some_0;
        lemma_find_by_name(items, prev);
        assert(items[t].image_common_entry.name == prev);
        let t0 = path.len() - 2;
        assert(spec_set_has_edge(items, path[t0], path[t0 + 1]));
        assert(path[t0] == prev);
        assert(path[t0 + 1] == last);
        let j = choose|j: int|
            0 <= j < items.len() && (#[trigger] items[j]).image_common_entry.name == prev
                && spec_has_import(items[j].image_common_entry, last);
        if j != t {
            if j < t {
                assert(items[j].image_common_entry.name != items[t].image_common_entry.name);
            } else {
                assert(items[t].image_common_entry.name != items[j].image_common_entry.name);
            }
        }
        let f = choose|f: int| 0 <= f < found.len() && (#[trigger] found[f]) as int == t;
        assert(spec_item_expanded(items, found[f] as int, found));
        assert(spec_has_import(items[t].image_common_entry, last));
    }
}

/// Walks reachability from the main module through the de-duplicated set
/// and keeps, in order, exactly the modules that some import chain still
/// reaches. A module introduced by one that arbitration later replaced
/// has no chain left and is dropped.
#[verifier::rlimit(60)]
pub fn remove_dangling_module_items(
    main_module: &ImageCommonEntry,
    dedup_module_items: Vec<DependencyBuildCompleteItem>,
) -> (r: Vec<DependencyBuildCompleteItem>)
    requires
        spec_names_unique(dedup_module_items.deep_view()),
        spec_import_closed(main_module@, dedup_module_items.deep_view()),
    ensures
        r.deep_view() == dedup_module_items.deep_view().filter(
            |it: DependencyBuildCompleteItemView|
                spec_reachable(
                    main_module@,
                    dedup_module_items.deep_view(),
                    it.image_common_entry.name,
                ),
        ),
{
    let ghost itemsv = dedup_module_items.deep_view();
    let ghost mainv = main_module@;
    let n = dedup_module_items.len();
    let mut found: Vec<usize> = Vec::new();
    let mut queue: Vec<usize> = Vec::new();

    // seed the walk with the main module's own imports
    let mut i: usize = 0;
    while i < main_module.import_module_entries.len()
        invariant
            itemsv == dedup_module_items.deep_view(),
            mainv == main_module@,
            n == itemsv.len(),
            spec_names_unique(itemsv),
            spec_import_closed(mainv, itemsv),
            i <= main_module.import_module_entries@.len(),
            queue@ == found@,
            found@.no_duplicates(),
            found@.len() <= n,
            forall|f: int| 0 <= f < found@.len() ==> (#[trigger] found@[f] as int) < n,
            forall|f: int|
                0 <= f < found@.len() ==> spec_reachable(
                    mainv,
                    itemsv,
                    itemsv[#[trigger] found@[f] as int].image_common_entry.name,
                ),
            forall|t: int|
                0 <= t < i ==> (!((#[trigger] mainv.import_module_entries[t]).module_dependency
                    is SelfReference) ==> {
                    let fo = spec_find_by_name(itemsv, mainv.import_module_entries[t].name);
                    fo is Some && spec_idx_in(found@, fo->Some_0)
                }),
        decreases main_module.import_module_entries@.len() - i,
    {
        let ghost found_pre = found@;
        let entry = &main_module.import_module_entries[i];
        proof {
            assert(mainv.import_module_entries[i as int] == main_module.import_module_entries@[
                i as int].deep_view());
        }
        let is_self = match &entry.module_dependency {
            ModuleDependency::SelfReference => true,
            _ => false,
        };
        if !is_self {
            match find_item_by_name(&dedup_module_items, entry.name.as_str()) {
                Some(j) => {
                    if !contains_index(&found, j) {
                        found.push(j);
                        queue.push(j);
                        proof {
                            let name = itemsv[j as int].image_common_entry.name;
                            lemma_find_by_name(itemsv, entry.name@);
                            assert(name == entry.name@);
                            assert(spec_has_import(mainv, name));
                            let witness = seq![name];
                            assert(witness.last() == name);
                            assert(spec_reachable_via(mainv, itemsv, witness));
                            assert(spec_reachable(mainv, itemsv, name));
                            lemma_distinct_bounded_len(found@, n as int);
                            assert(found@[found_pre.len() as int] == j);
                            assert(spec_idx_in(found@, j as int));
                            assert forall|t: int|
                                0 <= t < i && !((
                                #[trigger] mainv.import_module_entries[t]).module_dependency
                                    is SelfReference) implies {
                                let fo = spec_find_by_name(
                                    itemsv,
                                    mainv.import_module_entries[t].name,
                                );
                                fo is Some && spec_idx_in(found@, fo->Some_0)
                            } by {
                                let fo = spec_find_by_name(
                                    itemsv,
                                    mainv.import_module_entries[t].name,
                                );
                                lemma_idx_in_push(found_pre, j, fo->Some_0);
                            }
                        }
                    } else {
                        proof {
                            lemma_find_by_name(itemsv, entry.name@);
                        }
                    }
                },
                None => {
                    proof {
                        assert(spec_has_import(mainv, entry.name@));
                        assert(false);
                    }
                },
            }
        }
        i = i + 1;
    }
    proof {
        assert forall|nm: Seq<char>| #[trigger] spec_has_import(mainv, nm) implies {
            let fo = spec_find_by_name(itemsv, nm);
            fo is Some && spec_idx_in(found@, fo->Some_0)
        } by {
            let t = choose|t: int|
                0 <= t < mainv.import_module_entries.len() && !((
                #[trigger] mainv.import_module_entries[t]).module_dependency is SelfReference)
                    && mainv.import_module_entries[t].name == nm;
            assert(!(mainv.import_module_entries[t].module_dependency is SelfReference));
        }
        assert(spec_main_expanded(mainv, itemsv, found@));
    }

    // drain the queue: every found module's imports join the walk
    while queue.len() > 0
        invariant
            itemsv == dedup_module_items.deep_view(),
            mainv == main_module@,
            n == itemsv.len(),
            spec_names_unique(itemsv),
            spec_import_closed(mainv, itemsv),
            spec_main_expanded(mainv, itemsv, found@),
            found@.no_duplicates(),
            found@.len() <= n,
            forall|f: int| 0 <= f < found@.len() ==> (#[trigger] found@[f] as int) < n,
            forall|f: int|
                0 <= f < found@.len() ==> spec_reachable(
                    mainv,
                    itemsv,
                    itemsv[#[trigger] found@[f] as int].image_common_entry.name,
                ),
            forall|q: int|
                0 <= q < queue@.len() ==> (#[trigger] queue@[q] as int) < n && spec_idx_in(
                    found@,
                    queue@[q] as int,
                ),
            forall|f: int|
                0 <= f < found@.len() ==> (spec_idx_in(queue@, #[trigger] found@[f] as int)
                    || spec_item_expanded(itemsv, found@[f] as int, found@)),
        decreases 2 * (n as int - found@.len()) + queue@.len(),
    {
        let ghost queue_pre = queue@;
        let ghost found_entry = found@;
        let idx = queue.remove(0);
        proof {
            queue_pre.remove_ensures(0);
            assert(spec_idx_in(found@, idx as int));
            let f0 = choose|f0: int| 0 <= f0 < found@.len() && (#[trigger] found@[f0]) as int
                == idx as int;
            assert(spec_reachable(
                mainv,
                itemsv,
                itemsv[found@[f0] as int].image_common_entry.name,
            ));
            // the removed head leaves the rest of the queue in place
            assert forall|f: int|
                0 <= f < found@.len() implies (found@[f] == idx || spec_idx_in(
                queue@,
                #[trigger] found@[f] as int,
            ) || spec_item_expanded(itemsv, found@[f] as int, found@)) by {
                if spec_idx_in(queue_pre, found@[f] as int) {
                    let q = choose|q: int|
                        0 <= q < queue_pre.len() && (#[trigger] queue_pre[q]) as int == found@[
                        f] as int;
                    if q == 0 {
                        assert(found@[f] as int == idx as int);
                    } else {
                        assert(queue@[q - 1] == queue_pre[q]);
                        assert(spec_idx_in(queue@, found@[f] as int));
                    }
                }
            }
        }
        let ghost parent_name = itemsv[idx as int].image_common_entry.name;
        let ghost found_len0 = found@.len() as int;
        let ghost queue_len0 = queue@.len() as int;
        let import_count = dedup_module_items[idx].image_common_entry.import_module_entries.len();
        let mut u: usize = 0;
        while u < import_count
            invariant
                itemsv == dedup_module_items.deep_view(),
                mainv == main_module@,
                n == itemsv.len(),
                spec_names_unique(itemsv),
                spec_import_closed(mainv, itemsv),
                spec_main_expanded(mainv, itemsv, found@),
                (idx as int) < n,
                parent_name == itemsv[idx as int].image_common_entry.name,
                spec_reachable(mainv, itemsv, parent_name),
                import_count == itemsv[idx as int].image_common_entry.import_module_entries.len(),
                u <= import_count,
                found@.no_duplicates(),
                found@.len() <= n,
                forall|f: int| 0 <= f < found@.len() ==> (#[trigger] found@[f] as int) < n,
                forall|f: int|
                    0 <= f < found@.len() ==> spec_reachable(
                        mainv,
                        itemsv,
                        itemsv[#[trigger] found@[f] as int].image_common_entry.name,
                    ),
                forall|q: int|
                    0 <= q < queue@.len() ==> (#[trigger] queue@[q] as int) < n && spec_idx_in(
                        found@,
                        queue@[q] as int,
                    ),
                spec_idx_in(found@, idx as int),
                forall|f: int|
                    0 <= f < found@.len() ==> (found@[f] == idx || spec_idx_in(
                        queue@,
                        #[trigger] found@[f] as int,
                    ) || spec_item_expanded(itemsv, found@[f] as int, found@)),
                forall|w: int|
                    0 <= w < u ==> (!((#[trigger] itemsv[idx as int].image_common_entry
                        .import_module_entries[w]).module_dependency is SelfReference) ==> {
                        let fo = spec_find_by_name(
                            itemsv,
                            itemsv[idx as int].image_common_entry.import_module_entries[w].name,
                        );
                        fo is Some && spec_idx_in(found@, fo->Some_0)
                    }),
                2 * (n as int - found@.len()) + queue@.len() <= 2 * (n as int - found_len0)
                    + queue_len0,
            decreases import_count - u,
        {
            let ghost found_pre = found@;
            let ghost queue_pre2 = queue@;
            let entry_ref = &dedup_module_items[idx].image_common_entry.import_module_entries[u];
            proof {
                let ghost raw = dedup_module_items@[idx as int].image_common_entry
                    .import_module_entries@;
                assert(itemsv[idx as int].image_common_entry.import_module_entries[u as int] == raw[
                    u as int].deep_view());
            }
            let is_self = match &entry_ref.module_dependency {
                ModuleDependency::SelfReference => true,
                _ => false,
            };
            if !is_self {
                match find_item_by_name(&dedup_module_items, entry_ref.name.as_str()) {
                    Some(j) => {
                        if !contains_index(&found, j) {
                            found.push(j);
                            queue.push(j);
                            proof {
                                let child_name = itemsv[j as int].image_common_entry.name;
                                lemma_find_by_name(itemsv, entry_ref.name@);
                                assert(child_name == entry_ref.name@);
                                assert(spec_has_import(
                                    itemsv[idx as int].image_common_entry,
                                    child_name,
                                ));
                                assert(spec_set_has_edge(itemsv, parent_name, child_name));
                                lemma_reach_step(mainv, itemsv, parent_name, child_name);
                                lemma_distinct_bounded_len(found@, n as int);
                                lemma_main_expanded_push(mainv, itemsv, found_pre, j);
                                assert(found@[found_pre.len() as int] == j);
                                assert(spec_idx_in(found@, j as int));
                                // queued indices stay found
                                assert forall|q: int|
                                    0 <= q < queue@.len() implies (#[trigger] queue@[
                                    q] as int) < n && spec_idx_in(found@, queue@[q] as int) by {
                                    if q < queue_pre2.len() {
                                        assert(queue@[q] == queue_pre2[q]);
                                        lemma_idx_in_push(found_pre, j, queue_pre2[q] as int);
                                    } else {
                                        assert(queue@[q] == j);
                                    }
                                }
                                // idx stays found
                                lemma_idx_in_push(found_pre, j, idx as int);
                                // every found entry is processed, queued, or expanded
                                assert forall|f: int|
                                    0 <= f < found@.len() implies (found@[f] == idx
                                    || spec_idx_in(queue@, #[trigger] found@[f] as int)
                                    || spec_item_expanded(itemsv, found@[f] as int, found@)) by {
                                    if f < found_pre.len() {
                                        assert(found@[f] == found_pre[f]);
                                        if spec_idx_in(queue_pre2, found_pre[f] as int) {
                                            let q = choose|q: int|
                                                0 <= q < queue_pre2.len() && (
                                                #[trigger] queue_pre2[q]) as int == found_pre[
                                                f] as int;
                                            assert(queue@[q] == queue_pre2[q]);
                                            assert(spec_idx_in(queue@, found@[f] as int));
                                        } else if spec_item_expanded(
                                            itemsv,
                                            found_pre[f] as int,
                                            found_pre,
                                        ) {
                                            lemma_expanded_push(
                                                itemsv,
                                                found_pre[f] as int,
                                                found_pre,
                                                j,
                                            );
                                        }
                                    } else {
                                        assert(found@[f] == j);
                                        assert(queue@[queue_pre2.len() as int] == j);
                                        assert(spec_idx_in(queue@, found@[f] as int));
                                    }
                                }
                                // imports seen so far still lead into the found set
                                assert forall|w: int|
                                    0 <= w < u + 1 implies (!((#[trigger] itemsv[idx as int]
                                    .image_common_entry.import_module_entries[w])
                                    .module_dependency is SelfReference) ==> {
                                    let fo = spec_find_by_name(
                                        itemsv,
                                        itemsv[idx as int].image_common_entry
                                            .import_module_entries[w].name,
                                    );
                                    fo is Some && spec_idx_in(found@, fo->Some_0)
                                }) by {
                                    if w < u && !(itemsv[idx as int].image_common_entry
                                        .import_module_entries[w].module_dependency
                                        is SelfReference) {
                                        let fo = spec_find_by_name(
                                            itemsv,
                                            itemsv[idx as int].image_common_entry
                                                .import_module_entries[w].name,
                                        );
                                        lemma_idx_in_push(found_pre, j, fo->Some_0);
                                    }
                                }
                            }
                        } else {
                            proof {
                                lemma_find_by_name(itemsv, entry_ref.name@);
                            }
                        }
                    },
                    None => {
                        proof {
                            assert(spec_has_import(
                                itemsv[idx as int].image_common_entry,
                                entry_ref.name@,
                            ));
                            assert(false);
                        }
                    },
                }
            }
            u = u + 1;
        }
        proof {
            // the processed module is now fully expanded
            assert forall|nm: Seq<char>| #[trigger] spec_has_import(
                itemsv[idx as int].image_common_entry,
                nm,
            ) implies {
                let fo = spec_find_by_name(itemsv, nm);
                fo is Some && spec_idx_in(found@, fo->Some_0)
            } by {
                let parent_image = itemsv[idx as int].image_common_entry;
                let w = choose|w: int|
                    0 <= w < parent_image.import_module_entries.len() && !((
                    #[trigger] parent_image.import_module_entries[w]).module_dependency
                        is SelfReference) && parent_image.import_module_entries[w].name == nm;
                assert(!(parent_image.import_module_entries[w].module_dependency
                    is SelfReference));
            }
            assert(spec_item_expanded(itemsv, idx as int, found@));
            assert forall|f: int|
                0 <= f < found@.len() implies (spec_idx_in(queue@, #[trigger] found@[f] as int)
                || spec_item_expanded(itemsv, found@[f] as int, found@)) by {
                if found@[f] == idx {
                    assert(spec_item_expanded(itemsv, found@[f] as int, found@));
                }
            }
        }
    }

    // keep, in order, exactly the modules whose index the walk found
    let ghost pred = |it: DependencyBuildCompleteItemView|
        spec_reachable(mainv, itemsv, it.image_common_entry.name);
    let mut remaining = dedup_module_items;
    let mut result: Vec<DependencyBuildCompleteItem> = Vec::new();
    proof {
        reveal(Seq::filter);
        assert(remaining.deep_view() =~= itemsv.skip(0));
        assert(itemsv.take(0).filter(pred) =~= Seq::<DependencyBuildCompleteItemView>::empty());
    }
    let mut pos: usize = 0;
    while remaining.len() > 0
        invariant
            itemsv == dedup_module_items.deep_view(),
            mainv == main_module@,
            n == itemsv.len(),
            spec_names_unique(itemsv),
            pred == (|it: DependencyBuildCompleteItemView|
                spec_reachable(mainv, itemsv, it.image_common_entry.name)),
            pos + remaining@.len() == n,
            remaining.deep_view() == itemsv.skip(pos as int),
            result.deep_view() == itemsv.take(pos as int).filter(pred),
            forall|f: int| 0 <= f < found@.len() ==> (#[trigger] found@[f] as int) < n,
            forall|f: int|
                0 <= f < found@.len() ==> spec_reachable(
                    mainv,
                    itemsv,
                    itemsv[#[trigger] found@[f] as int].image_common_entry.name,
                ),
            spec_main_expanded(mainv, itemsv, found@),
            forall|f: int|
                0 <= f < found@.len() ==> spec_item_expanded(
                    itemsv,
                    #[trigger] found@[f] as int,
                    found@,
                ),
        decreases remaining@.len(),
    {
        let ghost pre_rem = remaining@;
        let ghost pre_deep = remaining.deep_view();
        let item = remaining.remove(0);
        let ghost iv = item.deep_view();
        proof {
            pre_rem.remove_ensures(0);
            assert(iv == pre_deep[0]);
            assert(iv == itemsv[pos as int]);
            assert(remaining@ == pre_rem.remove(0));
            assert forall|j: int| 0 <= j < remaining@.len() implies remaining.deep_view()[j]
                == itemsv.skip(pos + 1)[j] by {
                assert(remaining@[j] == pre_rem[j + 1]);
                assert(pre_deep[j + 1] == pre_rem[j + 1].deep_view());
                assert(pre_deep[j + 1] == itemsv.skip(pos as int)[j + 1]);
            }
            assert(remaining.deep_view() =~= itemsv.skip(pos + 1));
            assert(itemsv.take(pos + 1).drop_last() =~= itemsv.take(pos as int));
            assert(itemsv.take(pos + 1).last() == itemsv[pos as int]);
        }
        let keep = contains_index(&found, pos);
        proof {
            if keep {
                let f = choose|f: int| 0 <= f < found@.len() && (#[trigger] found@[f]) as int
                    == pos as int;
                assert(spec_reachable(
                    mainv,
                    itemsv,
                    itemsv[found@[f] as int].image_common_entry.name,
                ));
                assert(pred(iv));
            } else {
                if pred(iv) {
                    let path = choose|path: Seq<Seq<char>>|
                        #[trigger] spec_reachable_via(mainv, itemsv, path) && path.last()
                            == iv.image_common_entry.name;
                    lemma_path_found(mainv, itemsv, found@, path);
                    lemma_find_unique(itemsv, pos as int);
                    assert(spec_find_by_name(itemsv, iv.image_common_entry.name) == Some(
                        pos as int,
                    ));
                    assert(spec_idx_in(found@, pos as int));
                    assert(false);
                }
            }
        }
        if keep {
            let ghost out_pre = result.deep_view();
            result.push(item);
            proof {
                reveal(Seq::filter);
                assert(result.deep_view() =~= out_pre.push(iv));
                assert(itemsv.take(pos + 1).filter(pred) == itemsv.take(pos as int).filter(
                    pred,
                ).push(iv));
            }
        } else {
            proof {
                reveal(Seq::filter);
                assert(itemsv.take(pos + 1).filter(pred) == itemsv.take(pos as int).filter(pred));
            }
        }
        pos = pos + 1;
    }
    proof {
        assert(itemsv.take(n as int) =~= itemsv);
    }
    result
}

/// The run-time location that a surviving module's dependency record
/// maps to: a local record keeps its resolved directory and hash, remote
/// and shared records keep their hash (and version), and a runtime record
/// needs no more than its kind.
pub open spec fn spec_location_of(item: DependencyBuildCompleteItemView) -> ModuleLocationView {
    match item.module_dependency {
        ModuleDependencyView::Local { .. } => ModuleLocationView::Local {
            path: item.module_dir,
            hash: crate::hash::spec_hex_of(item.hash_opt->Some_0),
        },
        ModuleDependencyView::Remote { .. } => ModuleLocationView::Remote {
            hash: crate::hash::spec_hex_of(item.hash_opt->Some_0),
        },
        ModuleDependencyView::Share { .. } => ModuleLocationView::Share {
            version: item.image_common_entry.version,
            hash: crate::hash::spec_hex_of(item.hash_opt->Some_0),
        },
        ModuleDependencyView::Runtime => ModuleLocationView::Runtime,
        ModuleDependencyView::SelfReference => ModuleLocationView::Runtime,
    }
}

/// Every module of the list carries the hash its kind needs: only a
/// runtime module goes without one.
pub open spec fn spec_hashes_present(items: Seq<DependencyBuildCompleteItemView>) -> bool {
    forall|i: int|
        0 <= i < items.len() ==> (spec_view_dependency_type(
            (#[trigger] items[i]).module_dependency,
        ) != ModuleDependencyType::Runtime ==> items[i].hash_opt is Some)
}

/// One dynamic-link record for each surviving module, in order: its name
/// and the run-time location its dependency record maps to.
pub fn generate_dynamic_link_module_entries(items: &Vec<DependencyBuildCompleteItem>) -> (r: Vec<
    DynamicLinkModuleEntry,
>)
    requires
        spec_hashes_present(items.deep_view()),
        spec_no_self_dependency(items.deep_view()),
    ensures
        r.deep_view().len() == items.deep_view().len(),
        forall|i: int|
            0 <= i < r.deep_view().len() ==> (#[trigger] r.deep_view()[i]).name == (
            items.deep_view()[i]).image_common_entry.name && r.deep_view()[i].module_location
                == spec_location_of(items.deep_view()[i]),
{
    let ghost itemsv = items.deep_view();
    let mut out: Vec<DynamicLinkModuleEntry> = Vec::new();
    let mut i: usize = 0;
    while i < items.len()
        invariant
            itemsv == items.deep_view(),
            spec_hashes_present(itemsv),
            spec_no_self_dependency(itemsv),
            i <= itemsv.len(),
            out.deep_view().len() == i,
            forall|k: int|
                0 <= k < i ==> (#[trigger] out.deep_view()[k]).name
                    == itemsv[k].image_common_entry.name && out.deep_view()[k].module_location
                    == spec_location_of(itemsv[k]),
        decreases itemsv.len() - i,
    {
        let item = &items[i];
        proof {
            assert(itemsv[i as int] == items@[i as int].deep_view());
        }
        let ghost out_pre = out.deep_view();
        let module_location = match &item.module_dependency {
            ModuleDependency::Local { .. } => {
                let hash = match &item.hash_opt {
                    Some(h) => h,
                    None => unreached(),
                };
                ModuleLocation::Local {
                    path: item.module_dir.clone(),
                    hash: crate::hash::format_dependency_hash(hash),
                }
            },
            ModuleDependency::Remote { .. } => {
                let hash = match &item.hash_opt {
                    Some(h) => h,
                    None => unreached(),
                };
                ModuleLocation::Remote { hash: crate::hash::format_dependency_hash(hash) }
            },
            ModuleDependency::Share { .. } => {
                let hash = match &item.hash_opt {
                    Some(h) => h,
                    None => unreached(),
                };
                ModuleLocation::Share {
                    version: item.image_common_entry.version.clone(),
                    hash: crate::hash::format_dependency_hash(hash),
                }
            },
            ModuleDependency::Runtime => ModuleLocation::Runtime,
            ModuleDependency::SelfReference => unreached(),
        };
        let entry = DynamicLinkModuleEntry {
            name: item.image_common_entry.name.clone(),
            module_location,
        };
        proof {
            assert(entry@.name == itemsv[i as int].image_common_entry.name);
            assert(entry@.module_location == spec_location_of(itemsv[i as int]));
        }
        out.push(entry);
        proof {
            assert(out.deep_view() =~= out_pre.push(entry@));
        }
        i = i + 1;
    }
    out
}

/// Some module of the list carries the name.
pub open spec fn spec_has_name(items: Seq<DependencyBuildCompleteItemView>, n: Seq<char>) -> bool {
    exists|j: int| 0 <= j < items.len() && (#[trigger] items[j]).image_common_entry.name == n
}

/// The two membership notions agree.
proof fn lemma_has_name_find(items: Seq<DependencyBuildCompleteItemView>, n: Seq<char>)
    ensures
        spec_has_name(items, n) <==> spec_find_by_name(items, n) is Some,
{
    lemma_find_by_name(items, n);
    if spec_has_name(items, n) {
        let j = choose|j: int|
            0 <= j < items.len() && (#[trigger] items[j]).image_common_entry.name == n;
        if spec_find_by_name(items, n) is None {
            assert(items[j].image_common_entry.name != n);
        }
    }
}

/// De-duplication keeps exactly the names of its input.
proof fn lemma_dedup_preserves_names(items: Seq<DependencyBuildCompleteItemView>)
    requires
        spec_dedup(items) is Some,
    ensures
        forall|n: Seq<char>|
            #[trigger] spec_has_name(spec_dedup(items)->Some_0, n) <==> spec_has_name(items, n),
    decreases items.len(),
{
    if items.len() == 0 {
    } else {
        lemma_dedup_preserves_names(items.drop_last());
        let acc = spec_dedup(items.drop_last())->Some_0;
        let out = spec_dedup(items)->Some_0;
        let item = items.last();
        let name = item.image_common_entry.name;
        lemma_find_by_name(acc, name);
        assert forall|n: Seq<char>| #[trigger] spec_has_name(out, n) implies spec_has_name(
            items,
            n,
        ) by {
            let k = choose|k: int|
                0 <= k < out.len() && (#[trigger] out[k]).image_common_entry.name == n;
            match spec_find_by_name(acc, name) {
                None => {
                    // out == acc.push(item)
                    if k < acc.len() {
                        assert(spec_has_name(acc, n));
                        let j0 = choose|j0: int|
                            0 <= j0 < items.drop_last().len() && (#[trigger] items.drop_last()[
                            j0]).image_common_entry.name == n;
                        assert(items[j0].image_common_entry.name == n);
                    } else {
                        assert(items[items.len() - 1].image_common_entry.name == n);
                    }
                },
                Some(p) => {
                    let incumbent = acc[p];
                    if incumbent.module_dependency == item.module_dependency {
                        assert(spec_has_name(acc, n));
                        let j0 = choose|j0: int|
                            0 <= j0 < items.drop_last().len() && (#[trigger] items.drop_last()[
                            j0]).image_common_entry.name == n;
                        assert(items[j0].image_common_entry.name == n);
                    } else {
                        match item.module_dependency {
                            ModuleDependencyView::Local { .. } => {
                                assert(spec_has_name(acc, n));
                                let j0 = choose|j0: int|
                                    0 <= j0 < items.drop_last().len() && (
                                    #[trigger] items.drop_last()[j0]).image_common_entry.name
                                        == n;
                                assert(items[j0].image_common_entry.name == n);
                            },
                            ModuleDependencyView::Share { .. } => {
                                match incumbent.module_dependency {
                                    ModuleDependencyView::Share { .. } => {
                                        if spec_compatible(
                                            spec_parse_version(
                                                item.module_dependency->Share_version,
                                            ),
                                            spec_parse_version(
                                                incumbent.module_dependency->Share_version,
                                            ),
                                        ) == VersionCompatibility::GreaterThan {
                                            // out == acc.remove(p).push(item)
                                            acc.remove_ensures(p);
                                            if k < acc.remove(p).len() {
                                                let ai: int = if k < p {
                                                    k
                                                } else {
                                                    k + 1
                                                };
                                                assert(acc[ai].image_common_entry.name == n);
                                                assert(spec_has_name(acc, n));
                                                let j0 = choose|j0: int|
                                                    0 <= j0 < items.drop_last().len() && (
                                                    #[trigger] items.drop_last()[j0])
                                                        .image_common_entry.name == n;
                                                assert(items[j0].image_common_entry.name == n);
                                            } else {
                                                assert(items[items.len() - 1].image_common_entry
                                                    .name == n);
                                            }
                                        } else {
                                            assert(spec_has_name(acc, n));
                                            let j0 = choose|j0: int|
                                                0 <= j0 < items.drop_last().len() && (
                                                #[trigger] items.drop_last()[j0])
                                                    .image_common_entry.name == n;
                                            assert(items[j0].image_common_entry.name == n);
                                        }
                                    },
                                    _ => {
                                    },
                                }
                            },
                            _ => {
                            },
                        }
                    }
                },
            }
        }
        assert forall|n: Seq<char>| #[trigger] spec_has_name(items, n) implies spec_has_name(
            out,
            n,
        ) by {
            let j = choose|j: int|
                0 <= j < items.len() && (#[trigger] items[j]).image_common_entry.name == n;
            if j < items.len() - 1 {
                assert(items.drop_last()[j].image_common_entry.name == n);
                assert(spec_has_name(items.drop_last(), n));
                assert(spec_has_name(acc, n));
                let k = choose|k: int|
                    0 <= k < acc.len() && (#[trigger] acc[k]).image_common_entry.name == n;
                // every stepped list still carries every accumulated name
                lemma_dedup_step_keeps_names(acc, item, k);
            } else {
                // the newcomer's own name is present in every outcome
                lemma_dedup_step_has_new_name(acc, item);
            }
        }
    }
}

/// After one arbitration step the accumulated names are all still there.
proof fn lemma_dedup_step_keeps_names(
    acc: Seq<DependencyBuildCompleteItemView>,
    item: DependencyBuildCompleteItemView,
    k: int,
)
    requires
        0 <= k < acc.len(),
        spec_dedup_step(acc, item) is Some,
    ensures
        spec_has_name(spec_dedup_step(acc, item)->Some_0, acc[k].image_common_entry.name),
{
    let n = acc[k].image_common_entry.name;
    let name = item.image_common_entry.name;
    let out = spec_dedup_step(acc, item)->Some_0;
    lemma_find_by_name(acc, name);
    match spec_find_by_name(acc, name) {
        None => {
            assert(out[k].image_common_entry.name == n);
        },
        Some(p) => {
            let incumbent = acc[p];
            if incumbent.module_dependency == item.module_dependency {
                assert(out[k].image_common_entry.name == n);
            } else {
                match item.module_dependency {
                    ModuleDependencyView::Share { .. } => {
                        match incumbent.module_dependency {
                            ModuleDependencyView::Share { .. } => {
                                if spec_compatible(
                                    spec_parse_version(item.module_dependency->Share_version),
                                    spec_parse_version(incumbent.module_dependency->Share_version),
                                ) == VersionCompatibility::GreaterThan {
                                    acc.remove_ensures(p);
                                    if k == p {
                                        // the incumbent's name survives on the newcomer
                                        assert(out[out.len() - 1].image_common_entry.name == name);
                                        assert(n == name);
                                    } else if k < p {
                                        assert(out[k].image_common_entry.name == n);
                                    } else {
                                        assert(out[k - 1].image_common_entry.name == n);
                                    }
                                } else {
                                    assert(out[k].image_common_entry.name == n);
                                }
                            },
                            _ => {
                            },
                        }
                    },
                    _ => {
                        assert(out[k].image_common_entry.name == n);
                    },
                }
            }
        },
    }
}

/// After one arbitration step the newcomer's name is present.
proof fn lemma_dedup_step_has_new_name(
    acc: Seq<DependencyBuildCompleteItemView>,
    item: DependencyBuildCompleteItemView,
)
    requires
        spec_dedup_step(acc, item) is Some,
    ensures
        spec_has_name(spec_dedup_step(acc, item)->Some_0, item.image_common_entry.name),
{
    let name = item.image_common_entry.name;
    let out = spec_dedup_step(acc, item)->Some_0;
    lemma_find_by_name(acc, name);
    match spec_find_by_name(acc, name) {
        None => {
            assert(out[out.len() - 1].image_common_entry.name == name);
        },
        Some(p) => {
            let incumbent = acc[p];
            if incumbent.module_dependency == item.module_dependency {
                assert(out[p].image_common_entry.name == name);
            } else {
                match item.module_dependency {
                    ModuleDependencyView::Share { .. } => {
                        match incumbent.module_dependency {
                            ModuleDependencyView::Share { .. } => {
                                if spec_compatible(
                                    spec_parse_version(item.module_dependency->Share_version),
                                    spec_parse_version(incumbent.module_dependency->Share_version),
                                ) == VersionCompatibility::GreaterThan {
                                    assert(out[out.len() - 1].image_common_entry.name == name);
                                } else {
                                    assert(out[p].image_common_entry.name == name);
                                }
                            },
                            _ => {
                            },
                        }
                    },
                    _ => {
                        assert(out[p].image_common_entry.name == name);
                    },
                }
            }
        },
    }
}

/// Every de-duplicated entry is one of the loaded entries.
proof fn lemma_dedup_elements(items: Seq<DependencyBuildCompleteItemView>)
    requires
        spec_dedup(items) is Some,
    ensures
        forall|k: int|
            0 <= k < spec_dedup(items)->Some_0.len() ==> exists|i: int|
                0 <= i < items.len() && (#[trigger] spec_dedup(items)->Some_0[k]) == items[i],
    decreases items.len(),
{
    if items.len() == 0 {
    } else {
        lemma_dedup_elements(items.drop_last());
        let acc = spec_dedup(items.drop_last())->Some_0;
        let out = spec_dedup(items)->Some_0;
        let item = items.last();
        let name = item.image_common_entry.name;
        lemma_find_by_name(acc, name);
        assert forall|k: int| 0 <= k < out.len() implies exists|i: int|
            0 <= i < items.len() && (#[trigger] out[k]) == items[i] by {
            if k < acc.len() && out[k] == acc[k] {
                let i0 = choose|i0: int|
                    0 <= i0 < items.drop_last().len() && (#[trigger] items.drop_last()[i0]) == acc[
                    k];
                assert(items[i0] == out[k]);
            } else {
                match spec_find_by_name(acc, name) {
                    None => {
                        if k < acc.len() {
                            let i0 = choose|i0: int|
                                0 <= i0 < items.drop_last().len() && (#[trigger] items.drop_last()[
                                i0]) == acc[k];
                            assert(items[i0] == out[k]);
                        } else {
                            assert(out[k] == items[items.len() - 1]);
                        }
                    },
                    Some(p) => {
                        let incumbent = acc[p];
                        if incumbent.module_dependency == item.module_dependency {
                            let i0 = choose|i0: int|
                                0 <= i0 < items.drop_last().len() && (#[trigger] items.drop_last()[
                                i0]) == acc[k];
                            assert(items[i0] == out[k]);
                        } else {
                            match item.module_dependency {
                                ModuleDependencyView::Share { .. } => {
                                    match incumbent.module_dependency {
                                        ModuleDependencyView::Share { .. } => {
                                            if spec_compatible(
                                                spec_parse_version(
                                                    item.module_dependency->Share_version,
                                                ),
                                                spec_parse_version(
                                                    incumbent.module_dependency->Share_version,
                                                ),
                                            ) == VersionCompatibility::GreaterThan {
                                                acc.remove_ensures(p);
                                                if k < acc.remove(p).len() {
                                                    let ai: int = if k < p {
                                                        k
                                                    } else {
                                                        k + 1
                                                    };
                                                    assert(out[k] == acc[ai]);
                                                    let i0 = choose|i0: int|
                                                        0 <= i0 < items.drop_last().len() && (
                                                        #[trigger] items.drop_last()[i0]) == acc[
                                                        ai];
                                                    assert(items[i0] == out[k]);
                                                } else {
                                                    assert(out[k] == items[items.len() - 1]);
                                                }
                                            } else {
                                                let i0 = choose|i0: int|
                                                    0 <= i0 < items.drop_last().len() && (
                                                    #[trigger] items.drop_last()[i0]) == acc[k];
                                                assert(items[i0] == out[k]);
                                            }
                                        },
                                        _ => {
                                        },
                                    }
                                },
                                _ => {
                                    let i0 = choose|i0: int|
                                        0 <= i0 < items.drop_last().len() && (
                                        #[trigger] items.drop_last()[i0]) == acc[k];
                                    assert(items[i0] == out[k]);
                                },
                            }
                        }
                    },
                }
            }
        }
    }
}

/// The queue holds an entry for the named module.
pub open spec fn spec_pending_has_name(
    pending: Seq<DependencyBuildPendingItemView>,
    n: Seq<char>,
) -> bool {
    exists|q: int|
        0 <= q < pending.len() && (#[trigger] pending[q]).import_module_entry.name == n
}

/// Queue entries are well formed: never the self reference, and a Share
/// entry carries a well-formed version string.
pub open spec fn spec_pending_entries_ok(pending: Seq<DependencyBuildPendingItemView>) -> bool {
    forall|q: int|
        0 <= q < pending.len() ==> {
            let d = (#[trigger] pending[q]).import_module_entry.module_dependency;
            !(d is SelfReference) && (d matches ModuleDependencyView::Share { version }
                ==> is_version_string(version))
        }
}

/// Every Share entry of an import list carries a well-formed version.
pub open spec fn spec_import_versions_valid(entries: Seq<ImportModuleEntryView>) -> bool {
    forall|i: int|
        0 <= i < entries.len() ==> ((#[trigger] entries[i]).module_dependency matches
        ModuleDependencyView::Share { version } ==> is_version_string(version))
}

/// Checks that every Share import of the list names a well-formed
/// `major.minor.patch` version, as resolution requires.
pub fn validate_import_module_entries(entries: &Vec<ImportModuleEntry>) -> (r: bool)
    ensures
        r == spec_import_versions_valid(entries.deep_view()),
{
    let ghost ev = entries.deep_view();
    let mut i: usize = 0;
    while i < entries.len()
        invariant
            ev == entries.deep_view(),
            i <= ev.len(),
            forall|k: int|
                0 <= k < i ==> ((#[trigger] ev[k]).module_dependency matches
                ModuleDependencyView::Share { version } ==> is_version_string(version)),
        decreases ev.len() - i,
    {
        proof {
            assert(ev[i as int] == entries@[i as int].deep_view());
        }
        match &entries[i].module_dependency {
            ModuleDependency::Share { version } => {
                if parse_effective_version(version.as_str()).is_none() {
                    return false;
                }
            },
            _ => {},
        }
        i = i + 1;
    }
    true
}

/// Queue additions built from well-versioned imports are well formed.
proof fn lemma_pending_additions_ok(parent_dir: Seq<char>, entries: Seq<ImportModuleEntryView>)
    requires
        spec_import_versions_valid(entries),
    ensures
        spec_pending_entries_ok(spec_pending_additions(parent_dir, entries)),
    decreases entries.len(),
{
    if entries.len() == 0 {
    } else {
        assert(spec_import_versions_valid(entries.drop_last()));
        lemma_pending_additions_ok(parent_dir, entries.drop_last());
        assert(entries[entries.len() - 1] == entries.last());
    }
}

/// Every import but the self reference appears among the additions.
proof fn lemma_pending_additions_complete(
    parent_dir: Seq<char>,
    entries: Seq<ImportModuleEntryView>,
    i: int,
)
    requires
        0 <= i < entries.len(),
        !(entries[i].module_dependency is SelfReference),
    ensures
        spec_pending_has_name(spec_pending_additions(parent_dir, entries), entries[i].name),
    decreases entries.len(),
{
    let out = spec_pending_additions(parent_dir, entries);
    if i == entries.len() - 1 {
        assert(out[out.len() - 1].import_module_entry.name == entries[i].name);
    } else {
        lemma_pending_additions_complete(parent_dir, entries.drop_last(), i);
        let rest = spec_pending_additions(parent_dir, entries.drop_last());
        let q = choose|q: int|
            0 <= q < rest.len() && (#[trigger] rest[q]).import_module_entry.name
                == entries.drop_last()[i].name;
        assert(out[q].import_module_entry.name == entries[i].name);
    }
}

/// Membership in the queue survives appending additions.
proof fn lemma_pending_has_name_extend(
    a: Seq<DependencyBuildPendingItemView>,
    b: Seq<DependencyBuildPendingItemView>,
    n: Seq<char>,
)
    requires
        spec_pending_has_name(a, n) || spec_pending_has_name(b, n),
    ensures
        spec_pending_has_name(a + b, n),
{
    if spec_pending_has_name(a, n) {
        let q = choose|q: int|
            0 <= q < a.len() && (#[trigger] a[q]).import_module_entry.name == n;
        assert((a + b)[q].import_module_entry.name == n);
    } else {
        let q = choose|q: int|
            0 <= q < b.len() && (#[trigger] b[q]).import_module_entry.name == n;
        assert((a + b)[a.len() + q].import_module_entry.name == n);
    }
}

/// If a list holds an item with the name, looking the name up succeeds.
proof fn lemma_name_found(items: Seq<DependencyBuildCompleteItemView>, j: int)
    requires
        0 <= j < items.len(),
    ensures
        spec_contains_module_name(items, items[j].image_common_entry.name),
{
    lemma_find_by_name(items, items[j].image_common_entry.name);
    if spec_find_by_name(items, items[j].image_common_entry.name) is None {
        assert(items[j].image_common_entry.name != items[j].image_common_entry.name);
    }
}

/// How one import is to be acquired before it can be loaded or built.
#[derive(Debug, Clone)]
pub enum ModuleAcquisitionMethod {
    /// The directory is already in place: nothing to acquire.
    UseDirectory,
    /// Clone the repository and check the revision out.
    FetchRemote { url: String, revision: String },
    /// Ask the registries where the version lives, then clone and check
    /// out.
    LookupRegistry { version: String },
}

/// Where an import resolves to, how it is acquired, and under which rules
/// it is rebuilt: only a local module is checked for modification on
/// every run, and only a runtime module is built without a hash folder.
#[derive(Debug, Clone)]
pub struct ModuleAcquisitionPlan {
    pub module_dir: String,
    pub hash_opt: Option<DependencyHash>,
    pub check_modification: bool,
    pub method: ModuleAcquisitionMethod,
}

/// Resolves an import entry to the directory its module lives under:
/// a local path against the importer's directory, a remote or shared
/// module under the modules cache, and a runtime module under the
/// built-in modules directory.
pub fn resolve_import_module_acquisition(
    parent_module_dir: &str,
    import_module_entry: &ImportModuleEntry,
    runtime_property: &crate::entry::RuntimeProperty,
) -> (r: ModuleAcquisitionPlan)
    requires
        !(import_module_entry.module_dependency@ is SelfReference),
    ensures
        match import_module_entry.module_dependency@ {
            ModuleDependencyView::Local { path } => {
                &&& r.module_dir@ == (if path.len() > 0 && path[0] == '/' {
                    path
                } else {
                    spec_path_join(parent_module_dir@, path)
                })
                &&& r.hash_opt matches Some(h) && h.bytes@ == DependencyHash::zero_bytes()
                &&& r.check_modification
                &&& r.method is UseDirectory
            },
            ModuleDependencyView::Remote { url, revision } => {
                &&& r.module_dir@ == spec_path_join(
                    spec_path_join(
                        spec_path_join(runtime_property.runtime_home@, "modules"@),
                        import_module_entry.name@,
                    ),
                    "remote"@,
                )
                &&& r.hash_opt matches Some(h) && h.bytes@ == DependencyHash::zero_bytes()
                &&& !r.check_modification
                &&& (r.method matches ModuleAcquisitionMethod::FetchRemote {
                    url: u,
                    revision: v,
                } && u@ == url && v@ == revision)
            },
            ModuleDependencyView::Share { version } => {
                &&& r.module_dir@ == spec_path_join(
                    spec_path_join(
                        spec_path_join(runtime_property.runtime_home@, "modules"@),
                        import_module_entry.name@,
                    ),
                    version,
                )
                &&& r.hash_opt matches Some(h) && h.bytes@ == DependencyHash::zero_bytes()
                &&& !r.check_modification
                &&& (r.method matches ModuleAcquisitionMethod::LookupRegistry { version: v } && v@
                    == version)
            },
            ModuleDependencyView::Runtime => {
                &&& r.module_dir@ == spec_path_join(
                    spec_path_join(runtime_property.runtime_path@, "modules"@),
                    import_module_entry.name@,
                )
                &&& r.hash_opt is None
                &&& !r.check_modification
                &&& r.method is UseDirectory
            },
            ModuleDependencyView::SelfReference => true,
        },
{
    match &import_module_entry.module_dependency {
        ModuleDependency::Local { path } => {
            let path_str = path.as_str();
            let module_dir = if path_str.unicode_len() > 0 && path_str.get_char(0) == '/' {
                path.clone()
            } else {
                crate::text::join_path(parent_module_dir, path_str)
            };
            ModuleAcquisitionPlan {
                module_dir,
                hash_opt: Some(DependencyHash::zero()),
                check_modification: true,
                method: ModuleAcquisitionMethod::UseDirectory,
            }
        },
        ModuleDependency::Remote { url, revision } => {
            let modules = runtime_property.get_modules_directory();
            let named = crate::text::join_path(modules.as_str(), import_module_entry.name.as_str());
            let module_dir = crate::text::join_path(named.as_str(), "remote");
            ModuleAcquisitionPlan {
                module_dir,
                hash_opt: Some(DependencyHash::zero()),
                check_modification: false,
                method: ModuleAcquisitionMethod::FetchRemote {
                    url: url.clone(),
                    revision: revision.clone(),
                },
            }
        },
        ModuleDependency::Share { version } => {
            let modules = runtime_property.get_modules_directory();
            let named = crate::text::join_path(modules.as_str(), import_module_entry.name.as_str());
            let module_dir = crate::text::join_path(named.as_str(), version.as_str());
            ModuleAcquisitionPlan {
                module_dir,
                hash_opt: Some(DependencyHash::zero()),
                check_modification: false,
                method: ModuleAcquisitionMethod::LookupRegistry { version: version.clone() },
            }
        },
        ModuleDependency::Runtime => {
            let builtin = runtime_property.get_builtin_modules_directory();
            let module_dir = crate::text::join_path(
                builtin.as_str(),
                import_module_entry.name.as_str(),
            );
            ModuleAcquisitionPlan {
                module_dir,
                hash_opt: None,
                check_modification: false,
                method: ModuleAcquisitionMethod::UseDirectory,
            }
        },
        ModuleDependency::SelfReference => unreached(),
    }
}

/// The breadth-first resolution walk. The caller seeds it with the main
/// module, then repeatedly takes the next pending acquisition, loads or
/// builds that module outside, and hands the outcome back; when the queue
/// is drained, `finish` arbitrates duplicates, prunes dangling modules,
/// and emits the run-time locations.
pub struct DependencyResolver {
    pending_import_module_items: Vec<DependencyBuildPendingItem>,
    loaded_module_items: Vec<DependencyBuildCompleteItem>,
    main_module_image: Ghost<ImageCommonEntryView>,
    main_module_dependency_type: Ghost<ModuleDependencyType>,
}

impl DependencyResolver {
    /// The queued acquisitions, oldest first.
    pub closed spec fn pending(&self) -> Seq<DependencyBuildPendingItemView> {
        self.pending_import_module_items.deep_view()
    }

    /// The modules loaded so far, in load order.
    pub closed spec fn loaded(&self) -> Seq<DependencyBuildCompleteItemView> {
        self.loaded_module_items.deep_view()
    }

    /// The main module whose imports seeded the walk.
    pub closed spec fn main_image(&self) -> ImageCommonEntryView {
        self.main_module_image@
    }

    /// The dependency kind the main module was resolved under.
    pub closed spec fn main_dependency_type(&self) -> ModuleDependencyType {
        self.main_module_dependency_type@
    }

    /// The walk's invariant: queue entries are well formed; loaded
    /// modules carry valid Share versions, no self dependency, and the
    /// hash their kind needs; every import met so far is either loaded or
    /// still queued; and every loaded module's imports passed the
    /// legality rules under its own kind, as the main module's did under
    /// its kind.
    pub closed spec fn wf(&self) -> bool {
        &&& spec_pending_entries_ok(self.pending())
        &&& spec_share_versions_valid(self.loaded())
        &&& spec_no_self_dependency(self.loaded())
        &&& spec_hashes_present(self.loaded())
        &&& (forall|n: Seq<char>|
            #[trigger] spec_has_import(self.main_image(), n) ==> spec_contains_module_name(
                self.loaded(),
                n,
            ) || spec_pending_has_name(self.pending(), n))
        &&& (forall|j: int, n: Seq<char>|
            0 <= j < self.loaded().len() && #[trigger] spec_has_import(
                self.loaded()[j].image_common_entry,
                n,
            ) ==> spec_contains_module_name(self.loaded(), n) || spec_pending_has_name(
                self.pending(),
                n,
            ))
        &&& (forall|j: int|
            0 <= j < self.loaded().len() ==> spec_all_edges_allowed(
                spec_view_dependency_type((#[trigger] self.loaded()[j]).module_dependency),
                self.loaded()[j].image_common_entry.import_module_entries,
            ))
        &&& spec_all_edges_allowed(
            self.main_dependency_type(),
            self.main_image().import_module_entries,
        )
    }

    /// Seeds a walk with the main module's imports, checking them against
    /// the legality rules under the main module's own dependency kind.
    pub fn new(
        main_module_name: &str,
        main_module_dir: &str,
        main_module_dependency_type: ModuleDependencyType,
        main_module: &ImageCommonEntry,
    ) -> (r: Result<DependencyResolver, RuntimeError>)
        requires
            spec_import_versions_valid(main_module@.import_module_entries),
        ensures
            r is Ok <==> spec_all_edges_allowed(
                main_module_dependency_type,
                main_module@.import_module_entries,
            ),
            r is Ok ==> {
                let resolver = r->Ok_0;
                &&& resolver.wf()
                &&& resolver.loaded().len() == 0
                &&& resolver.main_image() == main_module@
                &&& resolver.main_dependency_type() == main_module_dependency_type
                &&& resolver.pending() == spec_pending_additions(
                    main_module_dir@,
                    main_module@.import_module_entries,
                )
            },
    {
        let mut pending_import_module_items: Vec<DependencyBuildPendingItem> = Vec::new();
        match add_import_module_entries_to_build_pending_items_with_rules_check(
            main_module_name,
            main_module_dir,
            main_module_dependency_type,
            &main_module.import_module_entries,
            &mut pending_import_module_items,
        ) {
            Ok(()) => {
                let resolver = DependencyResolver {
                    pending_import_module_items,
                    loaded_module_items: Vec::new(),
                    main_module_image: Ghost(main_module@),
                    main_module_dependency_type: Ghost(main_module_dependency_type),
                };
                proof {
                    let entries = main_module@.import_module_entries;
                    assert(resolver.pending() =~= spec_pending_additions(
                        main_module_dir@,
                        entries,
                    ));
                    lemma_pending_additions_ok(main_module_dir@, entries);
                    assert forall|n: Seq<char>| #[trigger] spec_has_import(
                        resolver.main_image(),
                        n,
                    ) implies spec_contains_module_name(resolver.loaded(), n)
                        || spec_pending_has_name(resolver.pending(), n) by {
                        let i = choose|i: int|
                            0 <= i < entries.len() && !((
                            #[trigger] entries[i]).module_dependency is SelfReference) && entries[
                            i].name == n;
                        lemma_pending_additions_complete(main_module_dir@, entries, i);
                    }
                }
                Ok(resolver)
            },
            Err(e) => Err(e),
        }
    }

    /// A copy of the oldest queued acquisition, or nothing when the walk
    /// is complete.
    pub fn next_pending_item(&self) -> (r: Option<DependencyBuildPendingItem>)
        ensures
            match r {
                Some(item) => self.pending().len() > 0 && item@ == self.pending()[0],
                None => self.pending().len() == 0,
            },
    {
        if self.pending_import_module_items.len() > 0 {
            let front = &self.pending_import_module_items[0];
            let copy = DependencyBuildPendingItem {
                parent_module_dir: front.parent_module_dir.clone(),
                import_module_entry: front.import_module_entry.duplicate(),
            };
            proof {
                assert(self.pending()[0] == self.pending_import_module_items@[0].deep_view());
            }
            Some(copy)
        } else {
            None
        }
    }

    /// Completes the oldest queued acquisition with the module that was
    /// loaded or built for it: checks the loaded module's own imports
    /// against the legality rules under the acquisition's kind, queues
    /// them, and records the module. On a violation the state is
    /// unchanged.
    ///
    /// `module_dir` should be in canonical form: arbitration treats two
    /// local records as identical exactly when their directories agree,
    /// so two spellings of one directory would count as a conflict.
    pub fn complete_next_pending_item(
        &mut self,
        module_dir: &str,
        hash_opt: Option<DependencyHash>,
        image_common_entry: ImageCommonEntry,
    ) -> (r: Result<(), RuntimeError>)
        requires
            old(self).wf(),
            old(self).pending().len() > 0,
            image_common_entry@.name == old(self).pending()[0].import_module_entry.name,
            spec_import_versions_valid(image_common_entry@.import_module_entries),
            spec_view_dependency_type(old(self).pending()[0].import_module_entry.module_dependency)
                != ModuleDependencyType::Runtime ==> hash_opt is Some,
        ensures
            final(self).main_image() == old(self).main_image(),
            final(self).main_dependency_type() == old(self).main_dependency_type(),
            r is Ok <==> spec_all_edges_allowed(
                spec_view_dependency_type(
                    old(self).pending()[0].import_module_entry.module_dependency,
                ),
                image_common_entry@.import_module_entries,
            ),
            r is Err ==> final(self).pending() == old(self).pending() && final(self).loaded()
                == old(self).loaded(),
            r is Ok ==> {
                &&& final(self).wf()
                &&& final(self).loaded() == old(self).loaded().push(
                    DependencyBuildCompleteItemView {
                        module_dir: module_dir@,
                        module_dependency: old(
                            self,
                        ).pending()[0].import_module_entry.module_dependency,
                        hash_opt: hash_opt.deep_view(),
                        image_common_entry: image_common_entry@,
                    },
                )
                &&& final(self).pending() == old(self).pending().skip(1)
                    + spec_pending_additions(
                    module_dir@,
                    image_common_entry@.import_module_entries,
                )
            },
    {
        proof {
            assert(self.pending()[0] == self.pending_import_module_items@[0].deep_view());
        }
        let child_type = get_module_dependency_type(
            &self.pending_import_module_items[0].import_module_entry.module_dependency,
        );
        let ghost pending0 = self.pending();
        let ghost loaded0 = self.loaded();
        let image_name = image_common_entry.name.clone();
        match add_import_module_entries_to_build_pending_items_with_rules_check(
            image_name.as_str(),
            module_dir,
            child_type,
            &image_common_entry.import_module_entries,
            &mut self.pending_import_module_items,
        ) {
            Err(e) => Err(e),
            Ok(()) => {
                let ghost additions = spec_pending_additions(
                    module_dir@,
                    image_common_entry@.import_module_entries,
                );
                let ghost pending1 = self.pending();
                let ghost pre_rem = self.pending_import_module_items@;
                proof {
                    assert(pending1 == pending0 + additions);
                    assert(pre_rem.len() == pending1.len());
                    assert(pending1.len() >= 1);
                }
                let front = self.pending_import_module_items.remove(0);
                let item = DependencyBuildCompleteItem {
                    module_dir: module_dir.to_owned(),
                    module_dependency: front.import_module_entry.module_dependency,
                    hash_opt,
                    image_common_entry,
                };
                let ghost iv = item.deep_view();
                self.loaded_module_items.push(item);
                proof {
                    pre_rem.remove_ensures(0);
                    assert(front == pre_rem[0]);
                    assert(front.deep_view() == pending1[0]);
                    assert(pending1[0] == pending0[0]);
                    assert forall|q: int| 0 <= q < self.pending().len() implies self.pending()[q]
                        == (pending0.skip(1) + additions)[q] by {
                        assert(self.pending_import_module_items@[q] == pre_rem[q + 1]);
                        assert(self.pending()[q] == pending1[q + 1]);
                        if q + 1 < pending0.len() {
                            assert(pending1[q + 1] == pending0[q + 1]);
                        } else {
                            assert(pending1[q + 1] == additions[q + 1 - pending0.len()]);
                        }
                    }
                    assert(self.pending() =~= pending0.skip(1) + additions);
                    assert(self.loaded() =~= loaded0.push(iv));
                    assert(iv.module_dependency == pending0[0].import_module_entry
                        .module_dependency);
                    lemma_pending_additions_ok(module_dir@, iv.image_common_entry
                        .import_module_entries);
                    // queue entries stay well formed
                    assert forall|q: int| 0 <= q < self.pending().len() implies {
                        let d = (#[trigger] self.pending()[q]).import_module_entry
                            .module_dependency;
                        !(d is SelfReference) && (d matches ModuleDependencyView::Share { version }
                            ==> is_version_string(version))
                    } by {
                        if q < pending0.len() - 1 {
                            assert(self.pending()[q] == pending0[q + 1]);
                        } else {
                            assert(self.pending()[q] == additions[q - (pending0.len() - 1)]);
                        }
                    }
                    // every met import is still loaded or queued
                    let newly = self.loaded().len() - 1;
                    assert(self.loaded()[newly] == iv);
                    assert forall|n: Seq<char>| #[trigger] spec_has_import(
                        self.main_image(),
                        n,
                    ) implies spec_contains_module_name(self.loaded(), n)
                        || spec_pending_has_name(self.pending(), n) by {
                        Self::lemma_tracked_name(
                            pending0,
                            loaded0,
                            self.pending(),
                            self.loaded(),
                            additions,
                            iv,
                            n,
                        );
                    }
                    assert forall|j: int, n: Seq<char>|
                        0 <= j < self.loaded().len() && #[trigger] spec_has_import(
                            self.loaded()[j].image_common_entry,
                            n,
                        ) implies spec_contains_module_name(self.loaded(), n)
                        || spec_pending_has_name(self.pending(), n) by {
                        if j < loaded0.len() {
                            assert(self.loaded()[j] == loaded0[j]);
                            assert(spec_has_import(loaded0[j].image_common_entry, n));
                            Self::lemma_tracked_name(
                                pending0,
                                loaded0,
                                self.pending(),
                                self.loaded(),
                                additions,
                                iv,
                                n,
                            );
                        } else {
                            // the new module's imports were all just queued
                            let i = choose|i: int|
                                0 <= i < iv.image_common_entry.import_module_entries.len() && !((
                                #[trigger] iv.image_common_entry.import_module_entries[i])
                                    .module_dependency is SelfReference)
                                    && iv.image_common_entry.import_module_entries[i].name == n;
                            lemma_pending_additions_complete(
                                module_dir@,
                                iv.image_common_entry.import_module_entries,
                                i,
                            );
                            lemma_pending_has_name_extend(pending0.skip(1), additions, n);
                        }
                    }
                }
                Ok(())
            },
        }
    }

    /// Completes a drained walk: duplicates are arbitrated, modules that
    /// no import chain reaches any more are pruned, and every survivor is
    /// paired with its run-time location. The images and the location
    /// records come back in matching order.
    pub fn finish(self, main_module: &ImageCommonEntry) -> (r: Result<
        (Vec<ImageCommonEntry>, Vec<DynamicLinkModuleEntry>),
        RuntimeError,
    >)
        requires
            self.wf(),
            self.pending().len() == 0,
            main_module@ == self.main_image(),
        ensures
            r is Ok <==> spec_dedup(self.loaded()) is Some,
            r is Ok ==> ({
                let survivors = spec_surviving_items(main_module@, self.loaded());
                &&& r->Ok_0.0.deep_view() == survivors.map_values(
                    |it: DependencyBuildCompleteItemView| it.image_common_entry,
                )
                &&& r->Ok_0.1.deep_view().len() == survivors.len()
                &&& (forall|i: int|
                    0 <= i < survivors.len() ==> (#[trigger] r->Ok_0.1.deep_view()[i]).name
                        == survivors[i].image_common_entry.name
                        && r->Ok_0.1.deep_view()[i].module_location == spec_location_of(
                        survivors[i],
                    ))
            }),
    {
        let ghost loadedv = self.loaded();
        let ghost mainv = main_module@;
        let DependencyResolver { pending_import_module_items: _, loaded_module_items, .. } = self;
        let deduped = match remove_duplicated_module_items(loaded_module_items) {
            Ok(v) => v,
            Err(e) => {
                return Err(e);
            },
        };
        let ghost ddv = deduped.deep_view();
        proof {
            lemma_dedup_names_unique(loadedv);
            lemma_dedup_preserves_names(loadedv);
            lemma_dedup_elements(loadedv);
            assert forall|n: Seq<char>| #[trigger] spec_has_import(
                mainv,
                n,
            ) implies spec_contains_module_name(ddv, n) by {
                assert(spec_contains_module_name(loadedv, n) || spec_pending_has_name(
                    self.pending(),
                    n,
                ));
                if spec_pending_has_name(self.pending(), n) {
                    let q = choose|q: int|
                        0 <= q < self.pending().len() && (#[trigger] self.pending()[q])
                            .import_module_entry.name == n;
                }
                lemma_has_name_find(loadedv, n);
                lemma_has_name_find(ddv, n);
            }
            assert forall|j: int, n: Seq<char>|
                0 <= j < ddv.len() && #[trigger] spec_has_import(
                    ddv[j].image_common_entry,
                    n,
                ) implies spec_contains_module_name(ddv, n) by {
                let i = choose|i: int| 0 <= i < loadedv.len() && (#[trigger] ddv[j]) == loadedv[i];
                assert(spec_has_import(loadedv[i].image_common_entry, n));
                assert(spec_contains_module_name(loadedv, n) || spec_pending_has_name(
                    self.pending(),
                    n,
                ));
                if spec_pending_has_name(self.pending(), n) {
                    let q = choose|q: int|
                        0 <= q < self.pending().len() && (#[trigger] self.pending()[q])
                            .import_module_entry.name == n;
                }
                lemma_has_name_find(loadedv, n);
                lemma_has_name_find(ddv, n);
            }
            assert(spec_import_closed(mainv, ddv));
            assert forall|k: int| 0 <= k < ddv.len() implies (spec_view_dependency_type(
                (#[trigger] ddv[k]).module_dependency,
            ) != ModuleDependencyType::Runtime ==> ddv[k].hash_opt is Some) && !(ddv[k]
                .module_dependency is SelfReference) by {
                let i = choose|i: int| 0 <= i < loadedv.len() && (#[trigger] ddv[k]) == loadedv[i];
            }
        }
        let survivors = remove_dangling_module_items(main_module, deduped);
        let ghost survv = survivors.deep_view();
        proof {
            let pred_inner = |it: DependencyBuildCompleteItemView|
                spec_reachable(mainv, ddv, it.image_common_entry.name);
            assert(survv == ddv.filter(pred_inner));
            assert forall|k: int| 0 <= k < survv.len() implies (spec_view_dependency_type(
                (#[trigger] survv[k]).module_dependency,
            ) != ModuleDependencyType::Runtime ==> survv[k].hash_opt is Some) && !(survv[k]
                .module_dependency is SelfReference) by {
                lemma_filter_elements(ddv, pred_inner, k);
                let i = choose|i: int| 0 <= i < ddv.len() && ddv[i] == (#[trigger] survv[k]);
            }
            let pred_outer = |it: DependencyBuildCompleteItemView|
                spec_reachable(mainv, spec_dedup(loadedv)->Some_0, it.image_common_entry.name);
            assert(pred_inner =~= pred_outer);
            assert(spec_surviving_items(mainv, loadedv) == survv);
        }
        let dynamic_link_module_entries = generate_dynamic_link_module_entries(&survivors);
        let survivor_count = survivors.len();
        proof {
            assert(survv.len() == survivor_count as int);
        }
        let mut remaining = survivors;
        let mut image_common_entries: Vec<ImageCommonEntry> = Vec::new();
        let ghost image_of = |it: DependencyBuildCompleteItemView| it.image_common_entry;
        proof {
            assert(remaining.deep_view() =~= survv.skip(0));
            assert(image_common_entries.deep_view() =~= survv.take(0).map_values(image_of));
        }
        let mut pos: usize = 0;
        while remaining.len() > 0
            invariant
                pos <= survv.len() <= usize::MAX,
                pos + remaining@.len() == survv.len(),
                remaining.deep_view() == survv.skip(pos as int),
                image_common_entries.deep_view() == survv.take(pos as int).map_values(image_of),
                image_of == (|it: DependencyBuildCompleteItemView| it.image_common_entry),
            decreases remaining@.len(),
        {
            let ghost pre_rem = remaining@;
            let ghost pre_deep = remaining.deep_view();
            let item = remaining.remove(0);
            let ghost iv = item.deep_view();
            proof {
                pre_rem.remove_ensures(0);
                assert(iv == pre_deep[0]);
                assert(iv == survv[pos as int]);
                assert forall|j: int| 0 <= j < remaining@.len() implies remaining.deep_view()[j]
                    == survv.skip(pos + 1)[j] by {
                    assert(remaining@[j] == pre_rem[j + 1]);
                    assert(pre_deep[j + 1] == pre_rem[j + 1].deep_view());
                    assert(pre_deep[j + 1] == survv.skip(pos as int)[j + 1]);
                }
                assert(remaining.deep_view() =~= survv.skip(pos + 1));
            }
            let ghost out_pre = image_common_entries.deep_view();
            let DependencyBuildCompleteItem { image_common_entry, .. } = item;
            image_common_entries.push(image_common_entry);
            proof {
                assert(image_common_entries.deep_view() =~= out_pre.push(iv.image_common_entry));
                assert(image_common_entries.deep_view() =~= survv.take(pos + 1).map_values(
                    image_of,
                ));
            }
            pos = pos + 1;
        }
        proof {
            assert(survv.take(survv.len() as int) =~= survv);
            assert(image_common_entries.deep_view() == survv.map_values(image_of));
            assert(image_common_entries.deep_view() =~= survv.map_values(
                |it: DependencyBuildCompleteItemView| it.image_common_entry,
            ));
        }
        Ok((image_common_entries, dynamic_link_module_entries))
    }

    /// An import name that was loaded or queued stays loaded or queued
    /// when the queue's head is completed.
    proof fn lemma_tracked_name(
        pending0: Seq<DependencyBuildPendingItemView>,
        loaded0: Seq<DependencyBuildCompleteItemView>,
        pending1: Seq<DependencyBuildPendingItemView>,
        loaded1: Seq<DependencyBuildCompleteItemView>,
        additions: Seq<DependencyBuildPendingItemView>,
        iv: DependencyBuildCompleteItemView,
        n: Seq<char>,
    )
        requires
            pending0.len() > 0,
            pending1 == pending0.skip(1) + additions,
            loaded1 == loaded0.push(iv),
            iv.image_common_entry.name == pending0[0].import_module_entry.name,
            spec_contains_module_name(loaded0, n) || spec_pending_has_name(pending0, n),
        ensures
            spec_contains_module_name(loaded1, n) || spec_pending_has_name(pending1, n),
    {
        if spec_contains_module_name(loaded0, n) {
            lemma_find_by_name(loaded0, n);
            let j = spec_find_by_name(loaded0, n)->Some_0;
            assert(loaded1[j].image_common_entry.name == n);
            lemma_name_found(loaded1, j);
        } else {
            let q = choose|q: int|
                0 <= q < pending0.len() && (#[trigger] pending0[q]).import_module_entry.name == n;
            if q == 0 {
                assert(loaded1[loaded1.len() - 1].image_common_entry.name == n);
                lemma_name_found(loaded1, loaded1.len() - 1);
            } else {
                assert(pending0.skip(1)[q - 1].import_module_entry.name == n);
                lemma_pending_has_name_extend(pending0.skip(1), additions, n);
            }
        }
    }
}

/// A filtered element is an element of the original.
proof fn lemma_filter_elements<A>(s: Seq<A>, pred: spec_fn(A) -> bool, k: int)
    requires
        0 <= k < s.filter(pred).len(),
    ensures
        exists|i: int| 0 <= i < s.len() && s[i] == #[trigger] s.filter(pred)[k],
    decreases s.len(),
{
    reveal(Seq::filter);
    if s.len() == 0 {
    } else {
        let sub = s.drop_last().filter(pred);
        if pred(s.last()) {
            if k < sub.len() {
                lemma_filter_elements(s.drop_last(), pred, k);
                let i = choose|i: int|
                    0 <= i < s.drop_last().len() && s.drop_last()[i] == #[trigger] sub[k];
                assert(s[i] == s.filter(pred)[k]);
            } else {
                assert(s[s.len() - 1] == s.filter(pred)[k]);
            }
        } else {
            lemma_filter_elements(s.drop_last(), pred, k);
            let i = choose|i: int|
                0 <= i < s.drop_last().len() && s.drop_last()[i] == #[trigger] sub[k];
            assert(s[i] == s.filter(pred)[k]);
        }
    }
}

/// The modules a successful resolution emits: the loaded list with
/// duplicates arbitrated away, restricted to the modules the main module
/// still reaches.
pub open spec fn spec_surviving_items(
    main: ImageCommonEntryView,
    loaded: Seq<DependencyBuildCompleteItemView>,
) -> Seq<DependencyBuildCompleteItemView>
    recommends
        spec_dedup(loaded) is Some,
{
    let deduped = spec_dedup(loaded)->Some_0;
    deduped.filter(
        |it: DependencyBuildCompleteItemView|
            spec_reachable(main, deduped, it.image_common_entry.name),
    )
}

/// Filtering keeps names pairwise distinct.
proof fn lemma_filter_keeps_names_unique(
    s: Seq<DependencyBuildCompleteItemView>,
    pred: spec_fn(DependencyBuildCompleteItemView) -> bool,
)
    requires
        spec_names_unique(s),
    ensures
        spec_names_unique(s.filter(pred)),
    decreases s.len(),
{
    reveal(Seq::filter);
    if s.len() == 0 {
    } else {
        assert forall|i: int, j: int|
            0 <= i < j < s.drop_last().len() implies (#[trigger] s.drop_last()[i])
            .image_common_entry.name != (#[trigger] s.drop_last()[j]).image_common_entry.name by {
            assert(s.drop_last()[i] == s[i] && s.drop_last()[j] == s[j]);
        }
        lemma_filter_keeps_names_unique(s.drop_last(), pred);
        let sub = s.drop_last().filter(pred);
        if pred(s.last()) {
            let out = sub.push(s.last());
            assert forall|i: int, j: int| 0 <= i < j < out.len() implies (#[trigger] out[i])
                .image_common_entry.name != (#[trigger] out[j]).image_common_entry.name by {
                if j == sub.len() {
                    lemma_filter_elements(s.drop_last(), pred, i);
                    let i0 = choose|i0: int|
                        0 <= i0 < s.drop_last().len() && s.drop_last()[i0] == (#[trigger] sub[i]);
                    assert(s[i0].image_common_entry.name != s[s.len()
                        - 1].image_common_entry.name);
                }
            }
        }
    }
}

/// Module names are unique within the final dependency set: arbitration
/// leaves one module per name, and pruning removes only whole modules.
pub proof fn lemma_surviving_names_unique(
    main: ImageCommonEntryView,
    loaded: Seq<DependencyBuildCompleteItemView>,
)
    requires
        spec_dedup(loaded) is Some,
    ensures
        spec_names_unique(spec_surviving_items(main, loaded)),
{
    lemma_dedup_names_unique(loaded);
    let deduped = spec_dedup(loaded)->Some_0;
    let pred = |it: DependencyBuildCompleteItemView|
        spec_reachable(main, deduped, it.image_common_entry.name);
    lemma_filter_keeps_names_unique(deduped, pred);
}

/// Kind-legality of the surviving set: the walk checked every import
/// against its importer's dependency kind before queueing it, so no edge
/// of a surviving module violates the rules.
pub proof fn lemma_surviving_edges_legal(
    main: ImageCommonEntryView,
    loaded: Seq<DependencyBuildCompleteItemView>,
    k: int,
)
    requires
        forall|j: int|
            0 <= j < loaded.len() ==> spec_all_edges_allowed(
                spec_view_dependency_type((#[trigger] loaded[j]).module_dependency),
                loaded[j].image_common_entry.import_module_entries,
            ),
        spec_dedup(loaded) is Some,
        0 <= k < spec_surviving_items(main, loaded).len(),
    ensures
        spec_all_edges_allowed(
            spec_view_dependency_type(spec_surviving_items(main, loaded)[k].module_dependency),
            spec_surviving_items(main, loaded)[k].image_common_entry.import_module_entries,
        ),
{
    let deduped = spec_dedup(loaded)->Some_0;
    let pred = |it: DependencyBuildCompleteItemView|
        spec_reachable(main, deduped, it.image_common_entry.name);
    lemma_filter_elements(deduped, pred, k);
    let i = choose|i: int|
        0 <= i < deduped.len() && deduped[i] == #[trigger] deduped.filter(pred)[k];
    lemma_dedup_elements(loaded);
    let j = choose|j: int| 0 <= j < loaded.len() && (#[trigger] deduped[i]) == loaded[j];
    assert(spec_all_edges_allowed(
        spec_view_dependency_type(loaded[j].module_dependency),
        loaded[j].image_common_entry.import_module_entries,
    ));
}

/// Puts the main module at the head of a resolved application's lists:
/// position zero of the image list holds the main module itself, and
/// position zero of the location list marks it as embedded in the
/// application image. Everything the resolver emitted shifts up by one.
pub fn prepend_main_module(
    main_module: &ImageCommonEntry,
    image_common_entries: &mut Vec<ImageCommonEntry>,
    dynamic_link_module_entries: &mut Vec<DynamicLinkModuleEntry>,
)
    ensures
        final(image_common_entries).deep_view() == old(image_common_entries).deep_view().insert(
            0,
            main_module@,
        ),
        final(dynamic_link_module_entries).deep_view() == old(
            dynamic_link_module_entries,
        ).deep_view().insert(
            0,
            DynamicLinkModuleEntryView {
                name: main_module.name@,
                module_location: ModuleLocationView::Embed,
            },
        ),
{
    let ghost images0 = image_common_entries.deep_view();
    let ghost entries0 = dynamic_link_module_entries.deep_view();
    let main_copy = main_module.duplicate();
    image_common_entries.insert(0, main_copy);
    let embed_entry = DynamicLinkModuleEntry {
        name: main_module.name.clone(),
        module_location: ModuleLocation::Embed,
    };
    proof {
        assert(embed_entry@ == (DynamicLinkModuleEntryView {
            name: main_module.name@,
            module_location: ModuleLocationView::Embed,
        }));
    }
    dynamic_link_module_entries.insert(0, embed_entry);
    proof {
        assert(image_common_entries.deep_view() =~= images0.insert(0, main_module@));
        assert(dynamic_link_module_entries.deep_view() =~= entries0.insert(
            0,
            DynamicLinkModuleEntryView {
                name: main_module.name@,
                module_location: ModuleLocationView::Embed,
            },
        ));
    }
}

/// An arbitration error naming the repeated module.
fn dependency_error(module_name: &str, reason: &str) -> (r: RuntimeError)
    ensures
        r is Message,
{
    let mut message = String::new();
    message.append("Dependency module \"");
    message.append(module_name);
    message.append("\" ");
    message.append(reason);
    message.append(".");
    RuntimeError::Message(message)
}

/// Checks a module's imports against the kind-legality rules, and on
/// success appends every import but the self reference to the work queue.
/// On a violation the queue is left unchanged and the error names the
/// module and the offending import.
pub fn add_import_module_entries_to_build_pending_items_with_rules_check(
    current_module_name: &str,
    current_module_dir: &str,
    current_module_dependency_type: ModuleDependencyType,
    new_import_module_entries: &Vec<ImportModuleEntry>,
    pending_import_module_items: &mut Vec<DependencyBuildPendingItem>,
) -> (r: Result<(), RuntimeError>)
    ensures
        r is Ok <==> spec_all_edges_allowed(
            current_module_dependency_type,
            new_import_module_entries.deep_view(),
        ),
        r is Ok ==> final(pending_import_module_items).deep_view() == old(
            pending_import_module_items,
        ).deep_view() + spec_pending_additions(
            current_module_dir@,
            new_import_module_entries.deep_view(),
        ),
        r is Err ==> final(pending_import_module_items).deep_view() == old(
            pending_import_module_items,
        ).deep_view(),
{
    let ghost entries = new_import_module_entries.deep_view();
    // first pass: the legality rules, so that nothing is queued on failure
    let mut i: usize = 0;
    while i < new_import_module_entries.len()
        invariant
            i <= new_import_module_entries@.len(),
            entries == new_import_module_entries.deep_view(),
            entries.len() == new_import_module_entries@.len(),
            forall|k: int|
                0 <= k < i ==> spec_edge_allowed(
                    current_module_dependency_type,
                    spec_view_dependency_type(#[trigger] entries[k].module_dependency),
                ),
        decreases new_import_module_entries@.len() - i,
    {
        let entry = &new_import_module_entries[i];
        let child_type = get_module_dependency_type(&entry.module_dependency);
        proof {
            assert(entries[i as int] == new_import_module_entries@[i as int].deep_view());
        }
        let allowed = match current_module_dependency_type {
            ModuleDependencyType::Local => true,
            ModuleDependencyType::Remote => !(child_type == ModuleDependencyType::Local),
            ModuleDependencyType::Share => !(child_type == ModuleDependencyType::Local
                || child_type == ModuleDependencyType::Remote),
            ModuleDependencyType::Runtime => !(child_type == ModuleDependencyType::Local
                || child_type == ModuleDependencyType::Remote),
            ModuleDependencyType::SelfReference => false,
        };
        if !allowed {
            proof {
                assert(!spec_edge_allowed(
                    current_module_dependency_type,
                    spec_view_dependency_type(entries[i as int].module_dependency),
                ));
                assert(!spec_all_edges_allowed(current_module_dependency_type, entries));
            }
            let mut message = String::new();
            message.append("Module \"");
            message.append(current_module_name);
            message.append("\" may not depend on module \"");
            message.append(entry.name.as_str());
            message.append("\" of that dependency type.");
            return Err(RuntimeError::Message(message));
        }
        i = i + 1;
    }
    // second pass: queue everything but the self reference
    let mut k: usize = 0;
    while k < new_import_module_entries.len()
        invariant
            k <= new_import_module_entries@.len(),
            entries == new_import_module_entries.deep_view(),
            entries.len() == new_import_module_entries@.len(),
            pending_import_module_items.deep_view() == old(
                pending_import_module_items,
            ).deep_view() + spec_pending_additions(current_module_dir@, entries.take(k as int)),
        decreases new_import_module_entries@.len() - k,
    {
        let entry = &new_import_module_entries[k];
        proof {
            assert(entries.take(k + 1 as int).drop_last() =~= entries.take(k as int));
            assert(entries.take(k + 1 as int).last() == entries[k as int]);
            assert(entries[k as int] == new_import_module_entries@[k as int].deep_view());
        }
        let is_self = match &entry.module_dependency {
            ModuleDependency::SelfReference => true,
            _ => false,
        };
        if !is_self {
            let ghost pre = pending_import_module_items.deep_view();
            let item = DependencyBuildPendingItem {
                parent_module_dir: current_module_dir.to_owned(),
                import_module_entry: entry.duplicate(),
            };
            proof {
                assert(item.deep_view() == (DependencyBuildPendingItemView {
                    parent_module_dir: current_module_dir@,
                    import_module_entry: entries[k as int],
                }));
            }
            pending_import_module_items.push(item);
            proof {
                assert(pending_import_module_items.deep_view() =~= pre.push(item.deep_view()));
                assert(spec_pending_additions(current_module_dir@, entries.take(k + 1 as int))
                    == spec_pending_additions(current_module_dir@, entries.take(k as int)).push(
                    item.deep_view(),
                ));
                assert(pending_import_module_items.deep_view() =~= old(
                    pending_import_module_items,
                ).deep_view() + spec_pending_additions(
                    current_module_dir@,
                    entries.take(k + 1 as int),
                ));
            }
        }
        k = k + 1;
    }
    proof {
        assert(entries.take(entries.len() as int) =~= entries);
    }
    Ok(())
}

} // verus!
