//! The per-module incremental build: deciding which assembly sources must
//! be re-assembled, under which submodule names, and whether the module
//! image must be linked again. Reading directories, invoking the
//! assembler, and writing artifacts happen outside; every decision is
//! made here, from the scanned facts alone.

use vstd::prelude::*;
use crate::entry::FileMeta;
use crate::text::{
    spec_file_name_start, spec_path_join, spec_replace_char, spec_replace_extension, spec_rfind,
    spec_starts_with,
};

verus! {

/// The staleness rule: a file counts as changed when it has no sidecar
/// record, the record has no timestamp, the current timestamp is unknown,
/// or the current timestamp is newer than the recorded one.
pub open spec fn spec_is_file_changed(
    file_meta_opt: Option<FileMeta>,
    current_timestamp_opt: Option<u64>,
) -> bool {
    match file_meta_opt {
        None => true,
        Some(file_meta) => match file_meta.timestamp {
            None => true,
            Some(last_timestamp) => match current_timestamp_opt {
                None => true,
                Some(current_timestamp) => current_timestamp > last_timestamp,
            },
        },
    }
}

/// Whether a source file must be treated as changed, by the staleness
/// rule.
pub fn is_file_changed(file_meta_opt: &Option<FileMeta>, current_timestamp_opt: Option<u64>) -> (r:
    bool)
    ensures
        r == spec_is_file_changed(*file_meta_opt, current_timestamp_opt),
{
    match file_meta_opt {
        None => true,
        Some(file_meta) => match file_meta.timestamp {
            None => true,
            Some(last_timestamp) => match current_timestamp_opt {
                None => true,
                Some(current_timestamp) => current_timestamp > last_timestamp,
            },
        },
    }
}

/// Cutting the extension off, following std's rule: the file name's last
/// `.` — unless it is the file name's first character — starts the
/// extension.
pub open spec fn spec_remove_extension(p: Seq<char>) -> Seq<char> {
    let start = spec_file_name_start(p);
    match spec_rfind(p, '.') {
        Some(j) => if j > start {
            p.take(j)
        } else {
            p
        },
        None => p,
    }
}

pub fn remove_extension(path: &str) -> (r: String)
    ensures
        r@ == spec_remove_extension(path@),
{
    proof {
        crate::text::lemma_rfind(path@, '/');
        crate::text::lemma_rfind(path@, '.');
    }
    let n = path.unicode_len();
    let start: usize = match crate::text::rfind_char(path, '/') {
        Some(j) => j + 1,
        None => 0,
    };
    match crate::text::rfind_char(path, '.') {
        Some(j) => {
            if j > start {
                let stem = path.substring_char(0, j);
                proof {
                    assert(stem@ =~= path@.take(j as int));
                }
                stem.to_owned()
            } else {
                path.to_owned()
            }
        },
        None => path.to_owned(),
    }
}

/// The path of a source file relative to its scan prefix: the part after
/// the prefix and its separator. Nothing is returned when the file does
/// not sit under the prefix.
pub open spec fn spec_strip_path_prefix(p: Seq<char>, prefix: Seq<char>) -> Option<Seq<char>> {
    if spec_starts_with(p, prefix + seq!['/']) {
        Some(p.skip(prefix.len() + 1 as int))
    } else {
        None
    }
}

pub fn strip_path_prefix(path: &str, prefix: &str) -> (r: Option<String>)
    ensures
        match r {
            Some(rest) => spec_strip_path_prefix(path@, prefix@) == Some(rest@),
            None => spec_strip_path_prefix(path@, prefix@) is None,
        },
{
    proof {
        reveal_strlit("/");
    }
    let mut with_sep = prefix.to_owned();
    crate::text::push_char(&mut with_sep, '/');
    proof {
        assert(with_sep@ =~= prefix@ + seq!['/']);
    }
    if crate::text::str_starts_with(path, with_sep.as_str()) {
        let n = path.unicode_len();
        let cut = with_sep.as_str().unicode_len();
        let rest = path.substring_char(cut, n);
        proof {
            assert(rest@ =~= path@.skip(prefix@.len() + 1 as int));
        }
        Some(rest.to_owned())
    } else {
        None
    }
}

/// The canonical name of a source file: its relative path with the
/// extension cut and every `/` rewritten to `-`.
pub open spec fn spec_canonical_name(relative_path: Seq<char>) -> Seq<char> {
    spec_replace_char(spec_remove_extension(relative_path), '/', '-')
}

pub fn get_canonical_name(relative_path: &str) -> (r: String)
    ensures
        r@ == spec_canonical_name(relative_path@),
{
    let stem = remove_extension(relative_path);
    crate::text::replace_char(stem.as_str(), '/', '-')
}

/// The submodule name path of a source file: its relative path with the
/// extension cut and every `/` rewritten to `::`.
pub open spec fn spec_submodule_name_path_of_stem(stem: Seq<char>) -> Seq<char>
    decreases stem.len(),
{
    if stem.len() == 0 {
        Seq::<char>::empty()
    } else {
        let rest = spec_submodule_name_path_of_stem(stem.drop_last());
        if stem.last() == '/' {
            rest + seq![':', ':']
        } else {
            rest.push(stem.last())
        }
    }
}

pub open spec fn spec_submodule_name_path(relative_path: Seq<char>) -> Seq<char> {
    spec_submodule_name_path_of_stem(spec_remove_extension(relative_path))
}

pub fn get_submodule_name_path(relative_path: &str) -> (r: String)
    ensures
        r@ == spec_submodule_name_path(relative_path@),
{
    let stem = remove_extension(relative_path);
    let stem_str = stem.as_str();
    let n = stem_str.unicode_len();
    let mut out = String::new();
    let mut i: usize = 0;
    while i < n
        invariant
            i <= n,
            n == stem_str@.len(),
            out@ == spec_submodule_name_path_of_stem(stem_str@.take(i as int)),
        decreases n - i,
    {
        let c = stem_str.get_char(i);
        proof {
            assert(stem_str@.take(i + 1 as int).drop_last() =~= stem_str@.take(i as int));
            assert(stem_str@.take(i + 1 as int).last() == stem_str@[i as int]);
        }
        if c == '/' {
            crate::text::push_char(&mut out, ':');
            crate::text::push_char(&mut out, ':');
            proof {
                assert(out@ =~= spec_submodule_name_path_of_stem(stem_str@.take(i + 1 as int)));
            }
        } else {
            crate::text::push_char(&mut out, c);
        }
        i = i + 1;
    }
    proof {
        assert(stem_str@.take(n as int) =~= stem_str@);
    }
    out
}

/// The full submodule name handed to the assembler: the module name
/// alone for the top-level `lib` and `main` units, and the module name
/// followed by `::` and the submodule path for every other unit.
pub open spec fn spec_full_submodule_name(
    module_name: Seq<char>,
    submodule_name_path: Seq<char>,
) -> Seq<char> {
    if submodule_name_path == "lib"@ || submodule_name_path == "main"@ {
        module_name
    } else {
        module_name + "::"@ + submodule_name_path
    }
}

pub fn get_full_submodule_name(module_name: &str, submodule_name_path: &str) -> (r: String)
    ensures
        r@ == spec_full_submodule_name(module_name@, submodule_name_path@),
{
    if crate::text::str_eq(submodule_name_path, "lib") || crate::text::str_eq(
        submodule_name_path,
        "main",
    ) {
        module_name.to_owned()
    } else {
        let mut out = module_name.to_owned();
        out.append("::");
        out.concat(submodule_name_path)
    }
}

/// The facts gathered about one assembly source during the scan: its
/// path, the prefix it was found under, its timestamp, and what is known
/// about its object file.
#[derive(Debug, Clone)]
pub struct SourceScanItem {
    pub file_path: String,
    pub prefix_path: String,
    pub timestamp_opt: Option<u64>,
    pub object_file_exists: bool,
    pub object_file_meta: Option<FileMeta>,
}

/// One source that must be re-assembled: where it is, the names it is
/// assembled under, where its sidecar record goes, and the timestamp
/// that record will carry.
#[derive(Debug, Clone)]
pub struct SourceBuildPendingItem {
    pub source_path: String,
    pub meta_file_path: String,
    pub canonical_name: String,
    pub submodule_name_path: String,
    pub timestamp_opt: Option<u64>,
}

/// Whether a scanned source must be re-assembled: always when the
/// manifest changed; else when its object file is missing or the source
/// itself is stale.
pub open spec fn spec_source_needs_assembly(
    is_module_config_changed: bool,
    source: SourceScanItem,
) -> bool {
    is_module_config_changed || !source.object_file_exists || spec_is_file_changed(
        source.object_file_meta,
        source.timestamp_opt,
    )
}

/// The sources of the scan that must be re-assembled, in scan order.
pub open spec fn spec_pending_sources(
    is_module_config_changed: bool,
    sources: Seq<SourceScanItem>,
) -> Seq<SourceScanItem> {
    sources.filter(|s: SourceScanItem| spec_source_needs_assembly(is_module_config_changed, s))
}

/// The sources of the scan whose object files are reused, in scan order.
pub open spec fn spec_reused_sources(
    is_module_config_changed: bool,
    sources: Seq<SourceScanItem>,
) -> Seq<SourceScanItem> {
    sources.filter(|s: SourceScanItem| !spec_source_needs_assembly(is_module_config_changed, s))
}

/// The object file of a canonical name under the object directory.
pub open spec fn spec_object_file_path(object_path: Seq<char>, canonical_name: Seq<char>) -> Seq<
    char,
> {
    spec_replace_extension(spec_path_join(object_path, canonical_name), "anco"@)
}

/// Every scanned source lies under its scan prefix.
pub open spec fn spec_sources_under_prefix(sources: Seq<SourceScanItem>) -> bool {
    forall|i: int|
        0 <= i < sources.len() ==> spec_strip_path_prefix(
            (#[trigger] sources[i]).file_path@,
            sources[i].prefix_path@,
        ) is Some
}

/// The relative path of a scanned source under its prefix.
pub open spec fn spec_source_relative_path(source: SourceScanItem) -> Seq<char> {
    spec_strip_path_prefix(source.file_path@, source.prefix_path@)->Some_0
}

/// What one pending item must hold for its source.
pub open spec fn spec_pending_item_matches(
    object_path: Seq<char>,
    source: SourceScanItem,
    item: SourceBuildPendingItem,
) -> bool {
    let relative = spec_source_relative_path(source);
    let canonical = spec_canonical_name(relative);
    &&& item.source_path@ == source.file_path@
    &&& item.canonical_name@ == canonical
    &&& item.submodule_name_path@ == spec_submodule_name_path(relative)
    &&& item.meta_file_path@ == spec_replace_extension(
        spec_object_file_path(object_path, canonical),
        "meta.ason"@,
    )
    &&& item.timestamp_opt == source.timestamp_opt
}

/// Decides, for every scanned source, whether it is re-assembled or its
/// object file is reused. The pending list and the reused object paths
/// both keep scan order.
pub fn plan_module_assembly(
    is_module_config_changed: bool,
    object_path: &str,
    sources: &Vec<SourceScanItem>,
) -> (r: (Vec<SourceBuildPendingItem>, Vec<String>))
    requires
        spec_sources_under_prefix(sources@),
    ensures
        r.0@.len() == spec_pending_sources(is_module_config_changed, sources@).len(),
        forall|i: int|
            0 <= i < r.0@.len() ==> spec_pending_item_matches(
                object_path@,
                spec_pending_sources(is_module_config_changed, sources@)[i],
                #[trigger] r.0@[i],
            ),
        r.1@.len() == spec_reused_sources(is_module_config_changed, sources@).len(),
        forall|i: int|
            0 <= i < r.1@.len() ==> (#[trigger] r.1@[i])@ == spec_object_file_path(
                object_path@,
                spec_canonical_name(
                    spec_source_relative_path(
                        spec_reused_sources(is_module_config_changed, sources@)[i],
                    ),
                ),
            ),
{
    let ghost srcs = sources@;
    let ghost needs = |s: SourceScanItem| spec_source_needs_assembly(is_module_config_changed, s);
    let ghost reuses = |s: SourceScanItem|
        !spec_source_needs_assembly(is_module_config_changed, s);
    let mut pending_assemble_items: Vec<SourceBuildPendingItem> = Vec::new();
    let mut object_files: Vec<String> = Vec::new();
    proof {
        reveal(Seq::filter);
        assert(srcs.take(0).filter(needs) =~= Seq::<SourceScanItem>::empty());
        assert(srcs.take(0).filter(reuses) =~= Seq::<SourceScanItem>::empty());
    }
    let mut i: usize = 0;
    while i < sources.len()
        invariant
            srcs == sources@,
            spec_sources_under_prefix(srcs),
            needs == (|s: SourceScanItem|
                spec_source_needs_assembly(is_module_config_changed, s)),
            reuses == (|s: SourceScanItem|
                !spec_source_needs_assembly(is_module_config_changed, s)),
            i <= srcs.len(),
            pending_assemble_items@.len() == srcs.take(i as int).filter(needs).len(),
            forall|k: int|
                0 <= k < pending_assemble_items@.len() ==> spec_pending_item_matches(
                    object_path@,
                    srcs.take(i as int).filter(needs)[k],
                    #[trigger] pending_assemble_items@[k],
                ),
            object_files@.len() == srcs.take(i as int).filter(reuses).len(),
            forall|k: int|
                0 <= k < object_files@.len() ==> (#[trigger] object_files@[k])@
                    == spec_object_file_path(
                    object_path@,
                    spec_canonical_name(
                        spec_source_relative_path(srcs.take(i as int).filter(reuses)[k]),
                    ),
                ),
        decreases srcs.len() - i,
    {
        let source = &sources[i];
        proof {
            reveal(Seq::filter);
            assert(srcs.take(i + 1 as int).drop_last() =~= srcs.take(i as int));
            assert(srcs.take(i + 1 as int).last() == srcs[i as int]);
        }
        let relative = match strip_path_prefix(source.file_path.as_str(), source.prefix_path.as_str()) {
            Some(rest) => rest,
            None => unreached(),
        };
        let canonical_name = get_canonical_name(relative.as_str());
        let object_file_path = crate::locations::get_object_file_path(
            object_path,
            canonical_name.as_str(),
        );
        let needs_assembly = is_file_changed(&source.object_file_meta, source.timestamp_opt)
            || !source.object_file_exists || is_module_config_changed;
        if needs_assembly {
            let submodule_name_path = get_submodule_name_path(relative.as_str());
            let meta_file_path = crate::locations::get_mata_file_path_by_full_name(
                object_file_path.as_str(),
            );
            let item = SourceBuildPendingItem {
                source_path: source.file_path.clone(),
                meta_file_path,
                canonical_name,
                submodule_name_path,
                timestamp_opt: source.timestamp_opt,
            };
            proof {
                assert(spec_pending_item_matches(object_path@, srcs[i as int], item));
            }
            pending_assemble_items.push(item);
        } else {
            object_files.push(object_file_path);
        }
        i = i + 1;
    }
    proof {
        assert(srcs.take(srcs.len() as int) =~= srcs);
    }
    (pending_assemble_items, object_files)
}

/// The characters after the first line break, or nothing more when no
/// line break is left.
pub open spec fn spec_drop_line(s: Seq<char>) -> Seq<char>
    decreases s.len(),
{
    if s.len() == 0 {
        s
    } else if s[0] == '\n' {
        s.skip(1)
    } else {
        spec_drop_line(s.skip(1))
    }
}

proof fn lemma_drop_line_len(s: Seq<char>)
    ensures
        spec_drop_line(s).len() <= s.len(),
    decreases s.len(),
{
    if s.len() == 0 {
    } else if s[0] == '\n' {
    } else {
        lemma_drop_line_len(s.skip(1));
    }
}

/// Dropping a line lands just past the first line break.
proof fn lemma_drop_line_at(s: Seq<char>, p: int, q: int)
    requires
        0 <= p <= q <= s.len(),
        forall|k: int| p <= k < q ==> s[k] != '\n',
        q == s.len() || s[q] == '\n',
    ensures
        spec_drop_line(s.skip(p)) =~= (if q == s.len() {
            s.skip(q)
        } else {
            s.skip(q + 1)
        }),
    decreases q - p,
{
    if p == q {
        if q == s.len() {
            assert(s.skip(p).len() == 0);
        } else {
            assert(s.skip(p)[0] == s[p]);
            assert(s.skip(p).skip(1) =~= s.skip(p + 1));
        }
    } else {
        assert(s.skip(p)[0] == s[p]);
        assert(s.skip(p).skip(1) =~= s.skip(p + 1));
        lemma_drop_line_at(s, p + 1, q);
    }
}

/// Scanning a block comment from just inside its opening delimiter:
/// embedded line comments are consumed without keeping their text,
/// nested block comments are matched without keeping their text, and the
/// top-level characters accumulate until the matching closing delimiter.
/// The result is the comment's text and the characters after the close;
/// nothing is returned when the comment never closes.
pub open spec fn spec_scan_block_comment(s: Seq<char>, nested: int, acc: Seq<char>) -> Option<
    (Seq<char>, Seq<char>),
>
    decreases s.len(),
    via spec_scan_block_comment_decreases
{
    if s.len() == 0 {
        None
    } else if s.len() >= 2 && s[0] == '/' && s[1] == '/' {
        spec_scan_block_comment(spec_drop_line(s.skip(2)), nested, acc)
    } else if s.len() >= 2 && s[0] == '/' && s[1] == '*' {
        spec_scan_block_comment(s.skip(2), nested + 1, acc)
    } else if s.len() >= 2 && s[0] == '*' && s[1] == '/' {
        if nested == 1 {
            Some((acc, s.skip(2)))
        } else {
            spec_scan_block_comment(s.skip(2), nested - 1, acc)
        }
    } else {
        spec_scan_block_comment(
            s.skip(1),
            nested,
            if nested == 1 {
                acc.push(s[0])
            } else {
                acc
            },
        )
    }
}

#[via_fn]
proof fn spec_scan_block_comment_decreases(s: Seq<char>, nested: int, acc: Seq<char>) {
    if s.len() >= 2 {
        lemma_drop_line_len(s.skip(2));
    }
}

/// A scan only consumes: what follows the comment is a suffix.
proof fn lemma_scan_consumes(s: Seq<char>, nested: int, acc: Seq<char>)
    ensures
        spec_scan_block_comment(s, nested, acc) matches Some(pair) ==> pair.1.len() <= s.len(),
    decreases s.len(),
{
    if s.len() == 0 {
    } else if s.len() >= 2 && s[0] == '/' && s[1] == '/' {
        lemma_drop_line_len(s.skip(2));
        lemma_scan_consumes(spec_drop_line(s.skip(2)), nested, acc);
    } else if s.len() >= 2 && s[0] == '/' && s[1] == '*' {
        lemma_scan_consumes(s.skip(2), nested + 1, acc);
    } else if s.len() >= 2 && s[0] == '*' && s[1] == '/' {
        if nested != 1 {
            lemma_scan_consumes(s.skip(2), nested - 1, acc);
        }
    } else {
        lemma_scan_consumes(
            s.skip(1),
            nested,
            if nested == 1 {
                acc.push(s[0])
            } else {
                acc
            },
        );
    }
}

/// Scans a block comment in `chars` starting just after its opening
/// delimiter at `start`, and returns the comment's text together with
/// the position just after the matching close. Nothing is returned when
/// the comment never closes.
pub fn parse_block_comment(chars: &Vec<char>, start: usize) -> (r: Option<(String, usize)>)
    requires
        start <= chars@.len(),
    ensures
        match r {
            Some(pair) => pair.1 <= chars@.len() && spec_scan_block_comment(
                chars@.skip(start as int),
                1,
                Seq::<char>::empty(),
            ) == Some((pair.0@, chars@.skip(pair.1 as int))),
            None => spec_scan_block_comment(
                chars@.skip(start as int),
                1,
                Seq::<char>::empty(),
            ) is None,
        },
{
    let n = chars.len();
    let mut pos: usize = start;
    let mut nested: usize = 1;
    let mut ss = String::new();
    while pos < n
        invariant
            start <= pos <= n,
            n == chars@.len(),
            1 <= nested,
            nested <= pos - start + 1,
            spec_scan_block_comment(chars@.skip(start as int), 1, Seq::<char>::empty())
                == spec_scan_block_comment(chars@.skip(pos as int), nested as int, ss@),
        decreases n - pos,
    {
        let c = chars[pos];
        let two_left = pos + 1 < n;
        proof {
            assert(chars@.skip(pos as int)[0] == chars@[pos as int]);
            if pos + 1 < n {
                assert(chars@.skip(pos as int)[1] == chars@[pos + 1]);
            }
        }
        if c == '/' && two_left && chars[pos + 1] == '/' {
            // an embedded line comment: consume through the line break
            let mut q: usize = pos + 2;
            while q < n && chars[q] != '\n'
                invariant
                    pos + 2 <= q <= n,
                    n == chars@.len(),
                    forall|k: int| pos + 2 <= k < q ==> chars@[k] != '\n',
                decreases n - q,
            {
                q = q + 1;
            }
            proof {
                assert(chars@.skip(pos as int).skip(2) =~= chars@.skip(pos + 2));
                lemma_drop_line_at(chars@, pos + 2, q as int);
            }
            if q < n {
                pos = q + 1;
            } else {
                pos = q;
            }
        } else if c == '/' && two_left && chars[pos + 1] == '*' {
            proof {
                assert(chars@.skip(pos as int).skip(2) =~= chars@.skip(pos + 2));
            }
            nested = nested + 1;
            pos = pos + 2;
        } else if c == '*' && two_left && chars[pos + 1] == '/' {
            proof {
                assert(chars@.skip(pos as int).skip(2) =~= chars@.skip(pos + 2));
            }
            if nested == 1 {
                return Some((ss, pos + 2));
            }
            nested = nested - 1;
            pos = pos + 2;
        } else {
            proof {
                assert(chars@.skip(pos as int).skip(1) =~= chars@.skip(pos + 1));
            }
            if nested == 1 {
                crate::text::push_char(&mut ss, c);
            }
            pos = pos + 1;
        }
    }
    proof {
        assert(chars@.skip(pos as int).len() == 0);
    }
    None
}

/// Horizontal and vertical white space, as the comment scanner trims it.
pub open spec fn spec_is_ws(c: char) -> bool {
    c == ' ' || c == '\t' || c == '\n' || c == '\r'
}

pub open spec fn spec_trim_start(s: Seq<char>) -> Seq<char>
    decreases s.len(),
{
    if s.len() > 0 && spec_is_ws(s[0]) {
        spec_trim_start(s.skip(1))
    } else {
        s
    }
}

pub open spec fn spec_trim_end(s: Seq<char>) -> Seq<char>
    decreases s.len(),
{
    if s.len() > 0 && spec_is_ws(s.last()) {
        spec_trim_end(s.drop_last())
    } else {
        s
    }
}

/// The text with white space cut from both ends.
pub open spec fn spec_trim(s: Seq<char>) -> Seq<char> {
    spec_trim_end(spec_trim_start(s))
}

proof fn lemma_trim_start_at(s: Seq<char>, a: int)
    requires
        0 <= a <= s.len(),
        forall|k: int| 0 <= k < a ==> spec_is_ws(s[k]),
        a == s.len() || !spec_is_ws(s[a]),
    ensures
        spec_trim_start(s) =~= s.skip(a),
    decreases a,
{
    if a == 0 {
        if s.len() > 0 {
        }
        assert(s.skip(0) =~= s);
    } else {
        assert(spec_is_ws(s[0]));
        assert(s.skip(1).len() == s.len() - 1);
        assert forall|k: int| 0 <= k < a - 1 implies spec_is_ws(s.skip(1)[k]) by {
            assert(s.skip(1)[k] == s[k + 1]);
        }
        if a < s.len() {
            assert(s.skip(1)[a - 1] == s[a]);
        }
        lemma_trim_start_at(s.skip(1), a - 1);
        assert(s.skip(1).skip(a - 1) =~= s.skip(a));
    }
}

proof fn lemma_trim_end_at(s: Seq<char>, b: int)
    requires
        -1 <= b < s.len(),
        forall|k: int| b < k < s.len() ==> spec_is_ws(s[k]),
        b == -1 || !spec_is_ws(s[b]),
    ensures
        spec_trim_end(s) =~= s.take(b + 1),
    decreases s.len() - b,
{
    if b == s.len() - 1 {
        assert(s.take(b + 1) =~= s);
    } else {
        assert(spec_is_ws(s.last()));
        assert forall|k: int| b < k < s.drop_last().len() implies spec_is_ws(
            s.drop_last()[k],
        ) by {
            assert(s.drop_last()[k] == s[k]);
        }
        if b >= 0 {
            assert(s.drop_last()[b] == s[b]);
        }
        lemma_trim_end_at(s.drop_last(), b);
        assert(s.drop_last().take(b + 1) =~= s.take(b + 1));
    }
}

fn is_ws(c: char) -> (r: bool)
    ensures
        r == spec_is_ws(c),
{
    c == ' ' || c == '\t' || c == '\n' || c == '\r'
}

/// The text with white space cut from both ends.
pub fn trim_text(s: &str) -> (r: String)
    ensures
        r@ == spec_trim(s@),
{
    let n = s.unicode_len();
    let mut a: usize = 0;
    while a < n && is_ws(s.get_char(a))
        invariant
            a <= n,
            n == s@.len(),
            forall|k: int| 0 <= k < a ==> spec_is_ws(s@[k]),
        decreases n - a,
    {
        a = a + 1;
    }
    proof {
        lemma_trim_start_at(s@, a as int);
    }
    if a == n {
        proof {
            assert(spec_trim_end(s@.skip(a as int)) =~= Seq::<char>::empty());
        }
        return String::new();
    }
    let mut b: usize = n;
    while b > a + 1 && is_ws(s.get_char(b - 1))
        invariant
            a + 1 <= b <= n,
            n == s@.len(),
            forall|k: int| b <= k < n ==> spec_is_ws(s@[k]),
        decreases b,
    {
        b = b - 1;
    }
    let out = s.substring_char(a, b);
    proof {
        let t = s@.skip(a as int);
        assert forall|k: int| (b - a - 1) < k < t.len() implies spec_is_ws(t[k]) by {
            assert(t[k] == s@[k + a]);
        }
        assert(t[b - a - 1] == s@[b - 1]);
        assert(!spec_is_ws(s@[a as int]));
        lemma_trim_end_at(t, b - a - 1);
        assert(out@ =~= t.take(b - a as int));
    }
    out.to_owned()
}

/// The first block comment whose trimmed text begins with the marker:
/// the scan walks the source, consuming line comments and every earlier
/// block comment, and yields the trimmed text after the marker. Nothing
/// is returned when no such comment exists or a block comment never
/// closes.
pub open spec fn spec_find_marked_comment(s: Seq<char>, marker: Seq<char>) -> Option<Seq<char>>
    decreases s.len(),
    via spec_find_marked_comment_decreases
{
    if s.len() == 0 {
        None
    } else if s.len() >= 2 && s[0] == '/' && s[1] == '/' {
        spec_find_marked_comment(spec_drop_line(s.skip(2)), marker)
    } else if s.len() >= 2 && s[0] == '/' && s[1] == '*' {
        match spec_scan_block_comment(s.skip(2), 1, Seq::<char>::empty()) {
            None => None,
            Some(pair) => {
                let trimmed = spec_trim(pair.0);
                if spec_starts_with(trimmed, marker) {
                    Some(trimmed.skip(marker.len() as int))
                } else {
                    spec_find_marked_comment(pair.1, marker)
                }
            },
        }
    } else {
        spec_find_marked_comment(s.skip(1), marker)
    }
}

#[via_fn]
proof fn spec_find_marked_comment_decreases(s: Seq<char>, marker: Seq<char>) {
    if s.len() >= 2 {
        lemma_drop_line_len(s.skip(2));
        lemma_scan_consumes(s.skip(2), 1, Seq::<char>::empty());
    }
}

/// Searches the character list for the first block comment whose trimmed
/// text begins with the marker, and returns the trimmed text after it.
pub fn find_marked_comment_text_for(chars: &Vec<char>, marker: &str) -> (r: Option<String>)
    ensures
        match r {
            Some(text) => spec_find_marked_comment(chars@, marker@) == Some(text@),
            None => spec_find_marked_comment(chars@, marker@) is None,
        },
{
    let n = chars.len();
    proof {
        assert(chars@.skip(0) =~= chars@);
    }
    let mut pos: usize = 0;
    while pos < n
        invariant
            pos <= n,
            n == chars@.len(),
            spec_find_marked_comment(chars@, marker@) == spec_find_marked_comment(
                chars@.skip(pos as int),
                marker@,
            ),
        decreases n - pos,
    {
        let c = chars[pos];
        let two_left = pos + 1 < n;
        proof {
            assert(chars@.skip(pos as int)[0] == chars@[pos as int]);
            if pos + 1 < n {
                assert(chars@.skip(pos as int)[1] == chars@[pos + 1]);
            }
        }
        if c == '/' && two_left && chars[pos + 1] == '/' {
            let mut q: usize = pos + 2;
            while q < n && chars[q] != '\n'
                invariant
                    pos + 2 <= q <= n,
                    n == chars@.len(),
                    forall|k: int| pos + 2 <= k < q ==> chars@[k] != '\n',
                decreases n - q,
            {
                q = q + 1;
            }
            proof {
                assert(chars@.skip(pos as int).skip(2) =~= chars@.skip(pos + 2));
                lemma_drop_line_at(chars@, pos + 2, q as int);
            }
            if q < n {
                pos = q + 1;
            } else {
                pos = q;
            }
        } else if c == '/' && two_left && chars[pos + 1] == '*' {
            proof {
                assert(chars@.skip(pos as int).skip(2) =~= chars@.skip(pos + 2));
            }
            match parse_block_comment(chars, pos + 2) {
                None => {
                    return None;
                },
                Some((comment_text, next)) => {
                    proof {
                        lemma_scan_consumes(chars@.skip(pos + 2), 1, Seq::<char>::empty());
                    }
                    let trimmed = trim_text(comment_text.as_str());
                    if crate::text::str_starts_with(trimmed.as_str(), marker) {
                        let trimmed_str = trimmed.as_str();
                        let t_len = trimmed_str.unicode_len();
                        let m_len = marker.unicode_len();
                        let after = trimmed_str.substring_char(m_len, t_len);
                        proof {
                            assert(after@ =~= spec_trim(comment_text@).skip(marker@.len() as int));
                        }
                        return Some(after.to_owned());
                    }
                    pos = next;
                },
            }
        } else {
            proof {
                assert(chars@.skip(pos as int).skip(1) =~= chars@.skip(pos + 1));
            }
            pos = pos + 1;
        }
    }
    proof {
        assert(chars@.skip(pos as int).len() == 0);
    }
    None
}

/// Scans a single-file script for the inline configuration block: the
/// first block comment whose trimmed text begins with `@config`. The
/// text after the marker is returned for the configuration decoder.
pub fn pickup_inline_config_text(source_code: &str) -> (r: Option<String>)
    ensures
        match r {
            Some(text) => spec_find_marked_comment(source_code@, "@config"@) == Some(text@),
            None => spec_find_marked_comment(source_code@, "@config"@) is None,
        },
{
    let chars = crate::text::str_to_chars(source_code);
    find_marked_comment_text_for(&chars, "@config")
}

/// Whether the object files must be linked into a fresh module image:
/// yes when anything was re-assembled, or when no image is on disk.
pub open spec fn spec_should_relink(
    has_reassembled: bool,
    shared_module_file_exists: bool,
) -> bool {
    has_reassembled || !shared_module_file_exists
}

pub fn should_relink(has_reassembled: bool, shared_module_file_exists: bool) -> (r: bool)
    ensures
        r == spec_should_relink(has_reassembled, shared_module_file_exists),
{
    has_reassembled || !shared_module_file_exists
}

/// Building twice with unchanged inputs does nothing the second time:
/// when the manifest is unchanged, every object file is present, and no
/// source is newer than its sidecar record, nothing is queued for
/// assembly, and with the module image on disk no link runs either — the
/// build reports "unchanged".
pub proof fn lemma_unchanged_build_is_noop(sources: Seq<SourceScanItem>)
    requires
        forall|i: int|
            0 <= i < sources.len() ==> !spec_source_needs_assembly(false, #[trigger] sources[i]),
    ensures
        spec_pending_sources(false, sources).len() == 0,
        !spec_should_relink(false, true),
{
    let needs = |s: SourceScanItem| spec_source_needs_assembly(false, s);
    sources.lemma_all_neg_filter_empty(needs);
}

/// The sidecar record written for a re-assembled source carries exactly
/// the timestamp the source had at scan time — absent when the file
/// system reported none.
pub proof fn lemma_rebuilt_meta_keeps_scan_timestamp(
    is_module_config_changed: bool,
    sources: Seq<SourceScanItem>,
    object_path: Seq<char>,
    item: SourceBuildPendingItem,
    i: int,
)
    requires
        0 <= i < spec_pending_sources(is_module_config_changed, sources).len(),
        spec_pending_item_matches(
            object_path,
            spec_pending_sources(is_module_config_changed, sources)[i],
            item,
        ),
    ensures
        item.timestamp_opt == spec_pending_sources(is_module_config_changed, sources)[i]
            .timestamp_opt,
{
}

} // verus!
