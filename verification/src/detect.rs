//! Detection: walking the ancestor directories of the working directory
//! (innermost first), each directory level's entries are matched against a
//! fixed marker table and fed into the script registry.
//!
//! The caller lists directories and reads files; this module holds every
//! decision. Within one level, lockfile and tool markers are handled first
//! and a `package.json` fallback second, so the outcome does not depend on
//! the order the filesystem listed the entries in. A `package.json` implies
//! the default JavaScript manager only when no JavaScript-family runner is
//! established yet, but the nearest unconsumed `package.json` still supplies
//! the script names for a manager that a nearer lockfile identified.

use vstd::prelude::*;
use crate::makefile::{parse_makefile_spec, parse_makefile_targets};
use crate::package_json::{package_scripts_of, parse_package_json_scripts};
use crate::registry::{
    first_js_runner, reg_add_runner, reg_add_scripts, empty_registry, Binding, RegistryModel,
    ScriptMap,
};
use crate::runners::{index_spec, Runner};
use crate::strings::{lower_of, str_eq, to_lowercase_str};

verus! {

/// One immediate entry of a directory level, as the caller lists it: its
/// file name, whether it is a directory holding a build-tool manifest, and
/// the entry's text when the caller read it (for Makefile-named entries).
pub struct Entry {
    pub name: String,
    pub is_dir_with_build_manifest: bool,
    pub content: Option<String>,
}

/// The mathematical image of an [`Entry`].
pub struct EntryModel {
    pub name: Seq<char>,
    pub is_dir_with_build_manifest: bool,
    pub content: Option<Seq<char>>,
}

impl View for Entry {
    type V = EntryModel;

    open spec fn view(&self) -> EntryModel {
        EntryModel {
            name: self.name@,
            is_dir_with_build_manifest: self.is_dir_with_build_manifest,
            content: match self.content {
                Some(ref s) => Some(s@),
                None => None,
            },
        }
    }
}

/// One directory level: its immediate entries, and the raw bytes of the
/// level's `package.json` when the caller could read one.
pub struct Level {
    pub entries: Vec<Entry>,
    pub package_json: Option<Vec<u8>>,
}

/// The mathematical image of a [`Level`].
pub struct LevelModel {
    pub entries: Seq<EntryModel>,
    pub package_json: Option<Seq<u8>>,
}

impl View for Level {
    type V = LevelModel;

    open spec fn view(&self) -> LevelModel {
        LevelModel {
            entries: entry_views(self.entries@),
            package_json: match self.package_json {
                Some(ref b) => Some(b@),
                None => None,
            },
        }
    }
}

pub open spec fn entry_views(s: Seq<Entry>) -> Seq<EntryModel> {
    Seq::new(s.len(), |i: int| s[i]@)
}

pub open spec fn level_views(s: Seq<Level>) -> Seq<LevelModel> {
    Seq::new(s.len(), |i: int| s[i]@)
}

/// The detector's state: the registry built so far, and whether some
/// `package.json`'s scripts were already consumed for the JavaScript family.
pub struct DetectModel {
    pub reg: RegistryModel,
    pub js_taken: bool,
}

/// The detector's initial state.
pub open spec fn detect_init() -> DetectModel {
    DetectModel { reg: empty_registry(), js_taken: false }
}

/// Whether some JavaScript-family runner is present.
pub open spec fn has_js(m: RegistryModel) -> bool {
    exists|i: int| 0 <= i <= 4 && m.present[i]
}

/// The JavaScript-family manager a lockfile or manager config file implies.
pub open spec fn js_marker(lower: Seq<char>) -> Option<Runner> {
    if lower == "package-lock.json"@ {
        Some(Runner::Npm)
    } else if lower == "yarn.lock"@ {
        Some(Runner::Yarn)
    } else if lower == "pnpm-lock.yaml"@ {
        Some(Runner::Pnpm)
    } else if lower == "bun.lockb"@ || lower == "bunfig.toml"@ {
        Some(Runner::Bun)
    } else if lower == "deno.json"@ || lower == "deno.lock"@ {
        Some(Runner::Deno)
    } else {
        None
    }
}

/// What one directory entry does to the detector's state. `names` is the
/// level's parsed `package.json` script-name list, if its bytes were
/// readable; a JavaScript marker consumes it unless a JavaScript runner is
/// already established.
pub open spec fn entry_step(
    st: DetectModel,
    e: EntryModel,
    names: Option<Seq<Seq<char>>>,
) -> DetectModel {
    let lower = lower_of(e.name);
    match js_marker(lower) {
        Some(r) => {
            if has_js(st.reg) {
                st
            } else {
                match names {
                    Some(ns) => DetectModel {
                        reg: reg_add_runner(reg_add_scripts(st.reg, r, ns), r),
                        js_taken: true,
                    },
                    None => DetectModel { reg: reg_add_runner(st.reg, r), js_taken: st.js_taken },
                }
            }
        },
        None => {
            if lower == "xtask"@ {
                if e.is_dir_with_build_manifest {
                    DetectModel {
                        reg: reg_add_runner(st.reg, Runner::Xtask),
                        js_taken: st.js_taken,
                    }
                } else {
                    st
                }
            } else if lower == "cargo.toml"@ || lower == "cargo.lock"@ {
                DetectModel { reg: reg_add_runner(st.reg, Runner::Cargo), js_taken: st.js_taken }
            } else if lower == "makefile"@ {
                if st.reg.present[index_spec(Runner::Makefile)] {
                    st
                } else {
                    let reg1 = match e.content {
                        Some(text) => reg_add_scripts(
                            st.reg,
                            Runner::Makefile,
                            parse_makefile_spec(text),
                        ),
                        None => st.reg,
                    };
                    DetectModel { reg: reg_add_runner(reg1, Runner::Makefile), js_taken: st.js_taken }
                }
            } else {
                st
            }
        },
    }
}

/// Folds `entry_step` over a level's entries from position `i` onward.
pub open spec fn entries_run(
    entries: Seq<EntryModel>,
    names: Option<Seq<Seq<char>>>,
    i: int,
    st: DetectModel,
) -> DetectModel
    decreases entries.len() - i,
{
    if i < 0 || i >= entries.len() {
        st
    } else {
        entries_run(entries, names, i + 1, entry_step(st, entries[i], names))
    }
}

/// Whether a level holds an entry named `package.json` (case-insensitively).
pub open spec fn has_pkg_entry(entries: Seq<EntryModel>) -> bool {
    exists|i: int| 0 <= i < entries.len() && lower_of(entries[i].name) == "package.json"@
}

/// What one whole directory level does to the detector's state: the marker
/// entries first, then the `package.json` fallback — it implies the default
/// manager when no JavaScript runner exists, and otherwise supplies script
/// names to the established manager if none were consumed yet.
pub open spec fn level_step(
    st: DetectModel,
    lv: LevelModel,
    names: Option<Seq<Seq<char>>>,
) -> DetectModel {
    let st1 = entries_run(lv.entries, names, 0, st);
    if has_pkg_entry(lv.entries) {
        if !has_js(st1.reg) {
            match names {
                Some(ns) => DetectModel {
                    reg: reg_add_runner(reg_add_scripts(st1.reg, Runner::Npm, ns), Runner::Npm),
                    js_taken: true,
                },
                None => DetectModel {
                    reg: reg_add_runner(st1.reg, Runner::Npm),
                    js_taken: st1.js_taken,
                },
            }
        } else if !st1.js_taken {
            match (first_js_runner(st1.reg), names) {
                (Some(r), Some(ns)) => DetectModel {
                    reg: reg_add_scripts(st1.reg, r, ns),
                    js_taken: true,
                },
                _ => st1,
            }
        } else {
            st1
        }
    } else {
        st1
    }
}

/// Folds `level_step` over the levels from position `i` onward; `parsed`
/// holds each level's parsed `package.json` script names.
pub open spec fn detect_run(
    levels: Seq<LevelModel>,
    parsed: Seq<Option<Seq<Seq<char>>>>,
    i: int,
    st: DetectModel,
) -> DetectModel
    decreases levels.len() - i,
{
    if i < 0 || i >= levels.len() {
        st
    } else {
        detect_run(levels, parsed, i + 1, level_step(st, levels[i], parsed[i]))
    }
}

/// How a level's raw `package.json` bytes relate to a parsed name list:
/// bytes were read exactly when a list exists, and the list holds exactly
/// the names the JSON parser extracts, without duplicates.
pub open spec fn parse_rel(bytes: Option<Seq<u8>>, names: Option<Seq<Seq<char>>>) -> bool {
    match (bytes, names) {
        (Option::None, Option::None) => true,
        (Option::Some(b), Option::Some(ns)) => {
            &&& ns.to_set() == package_scripts_of(b)
            &&& forall|a: int, c: int| 0 <= a < c < ns.len() ==> ns[a] != ns[c]
        },
        _ => false,
    }
}

fn process_level(map: &mut ScriptMap, taken: &mut bool, level: &Level, names: &Option<Vec<String>>)
    requires
        old(map).wf(),
    ensures
        final(map).wf(),
        (DetectModel { reg: final(map)@, js_taken: *final(taken) }) == level_step(
            DetectModel { reg: old(map)@, js_taken: *old(taken) },
            level@,
            names.deep_view(),
        ),
{
    let ghost st0 = DetectModel { reg: map@, js_taken: *taken };
    let ghost ev = entry_views(level.entries@);
    let ghost nv = names.deep_view();
    let mut has_pkg = false;
    let mut t: usize = 0;
    while t < level.entries.len()
        invariant
            map.wf(),
            0 <= t <= level.entries@.len(),
            ev == entry_views(level.entries@),
            nv == names.deep_view(),
            has_pkg == exists|j: int| 0 <= j < t && lower_of(ev[j].name) == "package.json"@,
            entries_run(ev, nv, t as int, (DetectModel { reg: map@, js_taken: *taken }))
                == entries_run(ev, nv, 0, st0),
        decreases level.entries@.len() - t,
    {
        let ghost pre = DetectModel { reg: map@, js_taken: *taken };
        let entry = &level.entries[t];
        let lower_string = to_lowercase_str(entry.name.as_str());
        let lower = lower_string.as_str();
        proof {
            assert(ev[t as int] == level.entries@[t as int]@);
            assert(lower@ == lower_of(ev[t as int].name));
        }

        let js: Option<Runner> = if str_eq(lower, "package-lock.json") {
            Some(Runner::Npm)
        } else if str_eq(lower, "yarn.lock") {
            Some(Runner::Yarn)
        } else if str_eq(lower, "pnpm-lock.yaml") {
            Some(Runner::Pnpm)
        } else if str_eq(lower, "bun.lockb") || str_eq(lower, "bunfig.toml") {
            Some(Runner::Bun)
        } else if str_eq(lower, "deno.json") || str_eq(lower, "deno.lock") {
            Some(Runner::Deno)
        } else {
            None
        };
        proof {
            assert(js == js_marker(lower_of(ev[t as int].name)));
        }

        match js {
            Some(r) => {
                if !map.has_js_runner() {
                    match names {
                        Some(ns) => {
                            map.add_scripts(&r, ns);
                            map.add_runner(&r);
                            *taken = true;
                        },
                        None => {
                            map.add_runner(&r);
                        },
                    }
                }
            },
            None => {
                if str_eq(lower, "xtask") {
                    if entry.is_dir_with_build_manifest {
                        map.add_runner(&Runner::Xtask);
                    }
                } else if str_eq(lower, "cargo.toml") || str_eq(lower, "cargo.lock") {
                    map.add_runner(&Runner::Cargo);
                } else if str_eq(lower, "makefile") {
                    if !map.has_runner(Runner::Makefile) {
                        match &entry.content {
                            Some(text) => {
                                let targets = parse_makefile_targets(text.as_str());
                                map.add_scripts(&Runner::Makefile, &targets);
                            },
                            None => {},
                        }
                        map.add_runner(&Runner::Makefile);
                    }
                }
            },
        }
        if str_eq(lower, "package.json") {
            has_pkg = true;
        }
        proof {
            let post = DetectModel { reg: map@, js_taken: *taken };
            assert(post == entry_step(pre, ev[t as int], nv));
        }
        t = t + 1;
    }

    proof {
        assert(has_pkg == has_pkg_entry(level@.entries));
    }
    if has_pkg {
        if !map.has_js_runner() {
            match names {
                Some(ns) => {
                    map.add_scripts(&Runner::Npm, ns);
                    map.add_runner(&Runner::Npm);
                    *taken = true;
                },
                None => {
                    map.add_runner(&Runner::Npm);
                },
            }
        } else if !*taken {
            match (map.js_runner(), names) {
                (Some(r), Some(ns)) => {
                    map.add_scripts(&r, ns);
                    *taken = true;
                },
                _ => {},
            }
        }
    }
}

/// Builds the script registry from the directory levels, innermost first:
/// the registry is exactly what the detection fold computes over the levels'
/// entries and each level's parsed `package.json` script names.
pub fn create_scripts_map(levels: &Vec<Level>) -> (m: ScriptMap)
    ensures
        m.wf(),
        exists|parsed: Seq<Option<Seq<Seq<char>>>>|
            {
                &&& parsed.len() == levels@.len()
                &&& (forall|t: int| 0 <= t < levels@.len()
                    ==> parse_rel((#[trigger] level_views(levels@)[t]).package_json, parsed[t]))
                &&& m@ == detect_run(level_views(levels@), parsed, 0, detect_init()).reg
            },
{
    let ghost lvs = level_views(levels@);

    let mut parsed: Vec<Option<Vec<String>>> = Vec::new();
    let mut k: usize = 0;
    while k < levels.len()
        invariant
            0 <= k <= levels@.len(),
            lvs == level_views(levels@),
            parsed@.len() == k,
            forall|t: int| 0 <= t < k
                ==> parse_rel(lvs[t].package_json, #[trigger] parsed.deep_view()[t]),
        decreases levels@.len() - k,
    {
        let ghost ppre = parsed.deep_view();
        let item: Option<Vec<String>> = match &levels[k].package_json {
            Some(bytes) => {
                let copy = bytes.clone();
                proof {
                    assert(copy@ =~= bytes@);
                }
                Some(parse_package_json_scripts(copy))
            },
            None => None,
        };
        parsed.push(item);
        proof {
            assert(parsed.deep_view().len() == ppre.len() + 1);
            assert(forall|t: int|
                0 <= t < ppre.len() ==> #[trigger] parsed.deep_view()[t] == ppre[t]);
            assert(parse_rel(lvs[k as int].package_json, parsed.deep_view()[k as int]));
        }
        k = k + 1;
    }
    let ghost pv = parsed.deep_view();

    let mut map = ScriptMap::new();
    let mut taken = false;
    let mut i: usize = 0;
    while i < levels.len()
        invariant
            0 <= i <= levels@.len(),
            lvs == level_views(levels@),
            pv == parsed.deep_view(),
            parsed@.len() == levels@.len(),
            map.wf(),
            detect_run(lvs, pv, i as int, (DetectModel { reg: map@, js_taken: taken }))
                == detect_run(lvs, pv, 0, detect_init()),
        decreases levels@.len() - i,
    {
        process_level(&mut map, &mut taken, &levels[i], &parsed[i]);
        proof {
            assert(parsed.deep_view()[i as int] == parsed@[i as int].deep_view());
        }
        i = i + 1;
    }
    proof {
        assert(forall|t: int| 0 <= t < levels@.len()
            ==> parse_rel((#[trigger] lvs[t]).package_json, pv[t]));
        assert(map@ == detect_run(lvs, pv, 0, detect_init()).reg);
    }
    map
}

/// An entry that matches no marker at all.
pub open spec fn entry_inert(e: EntryModel) -> bool {
    let lower = lower_of(e.name);
    &&& js_marker(lower) is None
    &&& lower != "xtask"@
    &&& lower != "cargo.toml"@
    &&& lower != "cargo.lock"@
    &&& lower != "makefile"@
    &&& lower != "package.json"@
}

/// A level none of whose entries matches any marker.
pub open spec fn level_inert(lv: LevelModel) -> bool {
    forall|i: int| 0 <= i < lv.entries.len() ==> entry_inert(#[trigger] lv.entries[i])
}

proof fn lemma_inert_entries(
    entries: Seq<EntryModel>,
    names: Option<Seq<Seq<char>>>,
    i: int,
    st: DetectModel,
)
    requires
        forall|j: int| 0 <= j < entries.len() ==> entry_inert(#[trigger] entries[j]),
    ensures
        entries_run(entries, names, i, st) == st,
    decreases entries.len() - i,
{
    if 0 <= i < entries.len() {
        assert(entry_step(st, entries[i], names) == st);
        lemma_inert_entries(entries, names, i + 1, st);
    }
}

proof fn lemma_inert_levels(
    levels: Seq<LevelModel>,
    parsed: Seq<Option<Seq<Seq<char>>>>,
    i: int,
    st: DetectModel,
)
    requires
        forall|j: int| 0 <= j < levels.len() ==> level_inert(#[trigger] levels[j]),
    ensures
        detect_run(levels, parsed, i, st) == st,
    decreases levels.len() - i,
{
    if 0 <= i < levels.len() {
        lemma_inert_entries(levels[i].entries, parsed[i], 0, st);
        assert(!has_pkg_entry(levels[i].entries));
        assert(level_step(st, levels[i], parsed[i]) == st);
        lemma_inert_levels(levels, parsed, i + 1, st);
    }
}

/// Law: when no directory level holds any recognizable marker entry,
/// detection leaves the registry empty — no runner is found.
pub proof fn lemma_no_markers_no_runner(
    levels: Seq<LevelModel>,
    parsed: Seq<Option<Seq<Seq<char>>>>,
)
    requires
        forall|j: int| 0 <= j < levels.len() ==> level_inert(#[trigger] levels[j]),
    ensures
        detect_run(levels, parsed, 0, detect_init()).reg == empty_registry(),
        forall|i: int| 0 <= i < 8
            ==> !detect_run(levels, parsed, 0, detect_init()).reg.present[i],
{
    lemma_inert_levels(levels, parsed, 0, detect_init());
}

/// Law: with a manager lockfile at one level and the `package.json` only at
/// the next (outer) level, the resolved JavaScript-family runner is the
/// lockfile's manager — never the default manager — and the script names of
/// that outer `package.json` are registered as the lockfile manager's
/// discovered scripts.
pub proof fn lemma_nearest_lockfile_owns_scripts(
    lock: EntryModel,
    pkg: EntryModel,
    bytes: Seq<u8>,
    ns: Seq<Seq<char>>,
    s: Seq<char>,
)
    requires
        lower_of(lock.name) == "yarn.lock"@,
        lower_of(pkg.name) == "package.json"@,
        ns.contains(s),
    ensures
        ({
            let levels = seq![
                LevelModel { entries: seq![lock], package_json: None },
                LevelModel { entries: seq![pkg], package_json: Some(bytes) },
            ];
            let parsed: Seq<Option<Seq<Seq<char>>>> = seq![None, Some(ns)];
            let result = detect_run(levels, parsed, 0, detect_init()).reg;
            &&& result.present[index_spec(Runner::Yarn)]
            &&& !result.present[index_spec(Runner::Npm)]
            &&& result.dict.contains_key(s)
            &&& result.dict[s] == (Binding { runner: Runner::Yarn, discovered: true })
        }),
{
    reveal_strlit("yarn.lock");
    reveal_strlit("package.json");
    reveal_strlit("package-lock.json");
    reveal_strlit("pnpm-lock.yaml");
    reveal_strlit("bun.lockb");
    reveal_strlit("bunfig.toml");
    reveal_strlit("deno.json");
    reveal_strlit("deno.lock");
    reveal_strlit("xtask");
    reveal_strlit("cargo.toml");
    reveal_strlit("cargo.lock");
    reveal_strlit("makefile");
    assert("yarn.lock"@.len() == 9);
    assert("package.json"@.len() == 12);
    assert("package-lock.json"@.len() == 17);
    assert("pnpm-lock.yaml"@.len() == 14);
    assert("bun.lockb"@.len() == 9);
    assert("bunfig.toml"@.len() == 11);
    assert("deno.json"@.len() == 9);
    assert("deno.lock"@.len() == 9);
    assert("xtask"@.len() == 5);
    assert("cargo.toml"@.len() == 10);
    assert("cargo.lock"@.len() == 10);
    assert("makefile"@.len() == 8);
    assert("yarn.lock"@[0] == 'y');
    assert("bun.lockb"@[0] == 'b');
    assert("deno.json"@[0] == 'd');
    assert("deno.lock"@[0] == 'd');
    assert("package.json"@[0] == 'p');

    let levels = seq![
        LevelModel { entries: seq![lock], package_json: None },
        LevelModel { entries: seq![pkg], package_json: Some(bytes) },
    ];
    let parsed: Seq<Option<Seq<Seq<char>>>> = seq![None, Some(ns)];
    let st0 = detect_init();

    // Level 0: the lockfile establishes the manager; no scripts yet.
    assert(forall|i: int| 0 <= i <= 4 ==> !(#[trigger] st0.reg.present[i]));
    assert(!has_js(st0.reg));
    assert(js_marker(lower_of(lock.name)) == Some(Runner::Yarn));
    let st_a = entry_step(st0, lock, None);
    assert(st_a.reg == reg_add_runner(empty_registry(), Runner::Yarn));
    assert(!st_a.js_taken);
    assert(entries_run(levels[0].entries, parsed[0], 0, st0) == st_a) by {
        assert(entries_run(levels[0].entries, parsed[0], 1, st_a) == st_a);
        assert(levels[0].entries[0] == lock);
    }
    assert(!has_pkg_entry(levels[0].entries)) by {
        assert(levels[0].entries.len() == 1);
        assert(forall|i: int| 0 <= i < 1 ==> #[trigger] levels[0].entries[i] == lock);
        assert(forall|i: int| 0 <= i < levels[0].entries.len()
            ==> lower_of((#[trigger] levels[0].entries[i]).name) != "package.json"@);
    }
    let st1 = level_step(st0, levels[0], parsed[0]);
    assert(st1 == st_a);

    // Level 1: the outer package.json supplies the established manager's
    // scripts without changing the manager.
    assert(js_marker(lower_of(pkg.name)) is None);
    assert(entry_step(st1, pkg, Some(ns)) == st1);
    assert(entries_run(levels[1].entries, parsed[1], 0, st1) == st1) by {
        assert(entries_run(levels[1].entries, parsed[1], 1, st1) == st1);
        assert(levels[1].entries[0] == pkg);
    }
    assert(has_pkg_entry(levels[1].entries)) by {
        assert(lower_of(levels[1].entries[0].name) == "package.json"@);
    }
    assert(st1.reg.present[1]);
    assert(has_js(st1.reg));
    assert(!st1.reg.present[0]) by {
        assert(empty_registry().present[0] == false);
    }
    assert(first_js_runner(st1.reg) == Some(Runner::Yarn));
    let st2 = level_step(st1, levels[1], parsed[1]);
    assert(st2.reg == reg_add_scripts(st1.reg, Runner::Yarn, ns));

    assert(detect_run(levels, parsed, 0, st0) == st2) by {
        assert(detect_run(levels, parsed, 2, st2) == st2);
        assert(detect_run(levels, parsed, 1, st1) == st2);
    }

    // The lockfile manager's default commands never carry a discovered mark,
    // so the outer scripts bind to the manager as discovered scripts.
    crate::registry::lemma_add_defaults_bindings(
        empty_registry().dict,
        crate::runners::default_commands_spec(Runner::Yarn),
        Runner::Yarn,
        0,
        s,
    );
    assert(!(st1.reg.dict.contains_key(s) && st1.reg.dict[s].discovered));
    crate::registry::lemma_add_scripts_binds(st1.reg.dict, ns, Runner::Yarn, 0, s);
    assert(st2.reg.dict[s] == (Binding { runner: Runner::Yarn, discovered: true }));
    assert(st2.reg.present[1]) by {
        assert(st1.reg.present[1]);
    }
    assert(!st2.reg.present[0]);
}

} // verus!
