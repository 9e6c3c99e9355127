//! The launcher's decision side: which entry points of a built
//! application a unit-test run selects. Mapping image files and starting
//! the execution engine happen outside; the selection rule lives here.
//!
//! Entry points are named `_start` for the default unit, a bare submodule
//! name for an additional executable unit, and `{submodule}::test_{name}`
//! for a unit test — only names carrying the `::` separator are tests.

use vstd::prelude::*;
use crate::entry::EntryPointEntry;
use crate::text::{spec_starts_with, str_starts_with};

verus! {

/// The outcome of one unit test.
#[derive(Debug, Clone, PartialEq)]
pub struct UnitTestResult {
    pub name: String,
    pub success: bool,
}

impl UnitTestResult {
    pub fn new(name: String, success: bool) -> (r: Self)
        ensures
            r.name == name,
            r.success == success,
    {
        UnitTestResult { name, success }
    }
}

/// The name carries the `::` submodule separator.
pub open spec fn spec_has_name_path_separator(s: Seq<char>) -> bool {
    exists|i: int| 0 <= i < s.len() - 1 && (#[trigger] s[i]) == ':' && s[i + 1] == ':'
}

fn has_name_path_separator(s: &str) -> (r: bool)
    ensures
        r == spec_has_name_path_separator(s@),
{
    let n = s.unicode_len();
    if n < 2 {
        return false;
    }
    let mut i: usize = 0;
    while i < n - 1
        invariant
            i <= n - 1,
            n == s@.len(),
            n >= 2,
            forall|k: int| 0 <= k < i ==> !((#[trigger] s@[k]) == ':' && s@[k + 1] == ':'),
        decreases n - i,
    {
        if s.get_char(i) == ':' && s.get_char(i + 1) == ':' {
            return true;
        }
        i = i + 1;
    }
    false
}

/// Whether a unit-test run selects the entry point: it is a unit test
/// (its name carries `::`) and its name begins with the requested
/// prefix. An empty prefix selects every unit test.
pub open spec fn spec_unit_test_selected(name: Seq<char>, prefix: Seq<char>) -> bool {
    spec_has_name_path_separator(name) && spec_starts_with(name, prefix)
}

/// Splits the entry points of an application into the unit tests a run
/// selects and the unit tests it filters out, both in index order.
/// Entry points that are not unit tests appear in neither list.
pub fn select_unit_tests(
    entry_point_entries: &Vec<EntryPointEntry>,
    unit_test_name_path_prefix: &str,
) -> (r: (Vec<String>, Vec<String>))
    ensures
        ({
            let names = entry_point_entries@.map_values(|e: EntryPointEntry| e.unit_name);
            let selected = |e: EntryPointEntry|
                spec_unit_test_selected(e.unit_name@, unit_test_name_path_prefix@);
            let filtered = |e: EntryPointEntry|
                spec_has_name_path_separator(e.unit_name@) && !spec_starts_with(
                    e.unit_name@,
                    unit_test_name_path_prefix@,
                );
            &&& r.0@.len() == entry_point_entries@.filter(selected).len()
            &&& (forall|i: int|
                0 <= i < r.0@.len() ==> (#[trigger] r.0@[i])@ == entry_point_entries@.filter(
                    selected,
                )[i].unit_name@)
            &&& r.1@.len() == entry_point_entries@.filter(filtered).len()
            &&& (forall|i: int|
                0 <= i < r.1@.len() ==> (#[trigger] r.1@[i])@ == entry_point_entries@.filter(
                    filtered,
                )[i].unit_name@)
        }),
{
    let ghost entries = entry_point_entries@;
    let ghost selected = |e: EntryPointEntry|
        spec_unit_test_selected(e.unit_name@, unit_test_name_path_prefix@);
    let ghost filtered = |e: EntryPointEntry|
        spec_has_name_path_separator(e.unit_name@) && !spec_starts_with(
            e.unit_name@,
            unit_test_name_path_prefix@,
        );
    let mut entry_point_names: Vec<String> = Vec::new();
    let mut filter_out_names: Vec<String> = Vec::new();
    proof {
        reveal(Seq::filter);
        assert(entries.take(0).filter(selected) =~= Seq::<EntryPointEntry>::empty());
        assert(entries.take(0).filter(filtered) =~= Seq::<EntryPointEntry>::empty());
    }
    let mut i: usize = 0;
    while i < entry_point_entries.len()
        invariant
            entries == entry_point_entries@,
            selected == (|e: EntryPointEntry|
                spec_unit_test_selected(e.unit_name@, unit_test_name_path_prefix@)),
            filtered == (|e: EntryPointEntry|
                spec_has_name_path_separator(e.unit_name@) && !spec_starts_with(
                    e.unit_name@,
                    unit_test_name_path_prefix@,
                )),
            i <= entries.len(),
            entry_point_names@.len() == entries.take(i as int).filter(selected).len(),
            forall|k: int|
                0 <= k < entry_point_names@.len() ==> (#[trigger] entry_point_names@[k])@
                    == entries.take(i as int).filter(selected)[k].unit_name@,
            filter_out_names@.len() == entries.take(i as int).filter(filtered).len(),
            forall|k: int|
                0 <= k < filter_out_names@.len() ==> (#[trigger] filter_out_names@[k])@
                    == entries.take(i as int).filter(filtered)[k].unit_name@,
        decreases entries.len() - i,
    {
        let entry = &entry_point_entries[i];
        proof {
            reveal(Seq::filter);
            assert(entries.take(i + 1 as int).drop_last() =~= entries.take(i as int));
            assert(entries.take(i + 1 as int).last() == entries[i as int]);
        }
        if has_name_path_separator(entry.unit_name.as_str()) {
            if str_starts_with(entry.unit_name.as_str(), unit_test_name_path_prefix) {
                entry_point_names.push(entry.unit_name.clone());
            } else {
                filter_out_names.push(entry.unit_name.clone());
            }
        }
        i = i + 1;
    }
    proof {
        assert(entries.take(entries.len() as int) =~= entries);
    }
    (entry_point_names, filter_out_names)
}

} // verus!
