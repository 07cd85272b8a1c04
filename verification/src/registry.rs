//! The script registry: which runners are present, the scripts each one
//! discovered, and a map from every registered command name to the runner
//! that should handle it.
//!
//! Priority policy (deterministic): discovered scripts strictly outrank
//! built-in default commands, and among registrations of the same kind the
//! earlier one wins (the directory walk feeds nearer levels first, so the
//! nearest directory wins).

use vstd::prelude::*;
use vstd::string::{StrSliceExecFns, StringExecFns};
use crate::runners::{
    Runner, default_commands_spec, index_spec, name_spec, runner_of_index, unalias_spec,
    NUMBER_OF_RUNNERS,
};
use crate::strings::str_eq;

verus! {

/// What one registered script name is bound to: the owning runner, and
/// whether the name was discovered in a project file (as opposed to being a
/// built-in default command).
#[derive(Debug, Clone, Copy, PartialEq, Eq, Structural)]
pub struct Binding {
    pub runner: Runner,
    pub discovered: bool,
}

/// One entry of the registry's name map.
#[derive(Debug)]
pub struct ScriptEntry {
    pub name: String,
    pub runner: Runner,
    pub discovered: bool,
}

pub open spec fn binding_of(e: ScriptEntry) -> Binding {
    Binding { runner: e.runner, discovered: e.discovered }
}

/// The map an entry list denotes: later entries would win, but the registry
/// keeps entry names unique, so each name has the one binding it was given.
pub open spec fn entries_dict(s: Seq<ScriptEntry>) -> Map<Seq<char>, Binding>
    decreases s.len(),
{
    if s.len() == 0 {
        Map::empty()
    } else {
        entries_dict(s.drop_last()).insert(s.last().name@, binding_of(s.last()))
    }
}

/// Entry names are pairwise distinct.
pub open spec fn unique_names(s: Seq<ScriptEntry>) -> bool {
    forall|i: int, j: int| 0 <= i < j < s.len() ==> s[i].name@ != s[j].name@
}

/// The mathematical image of a [`ScriptMap`]: one presence flag and one
/// discovered-script list per runner slot, and the name map.
pub struct RegistryModel {
    pub present: Seq<bool>,
    pub lists: Seq<Seq<Seq<char>>>,
    pub dict: Map<Seq<char>, Binding>,
}

/// The script registry, built once by detection and then read-only.
pub struct ScriptMap {
    runners: Vec<bool>,
    scripts: Vec<Vec<String>>,
    entries: Vec<ScriptEntry>,
}

impl View for ScriptMap {
    type V = RegistryModel;

    closed spec fn view(&self) -> RegistryModel {
        RegistryModel {
            present: self.runners@,
            lists: self.scripts.deep_view(),
            dict: entries_dict(self.entries@),
        }
    }
}

/// What registering a runner's default commands does to the name map:
/// walking the default names in order, each is bound to the runner only if
/// it is not bound yet.
pub open spec fn dict_add_defaults(
    d: Map<Seq<char>, Binding>,
    names: Seq<Seq<char>>,
    r: Runner,
    i: int,
) -> Map<Seq<char>, Binding>
    decreases names.len() - i,
{
    if i < 0 || i >= names.len() {
        d
    } else {
        let d2 = if d.contains_key(names[i]) {
            d
        } else {
            d.insert(names[i], Binding { runner: r, discovered: false })
        };
        dict_add_defaults(d2, names, r, i + 1)
    }
}

/// What registering discovered scripts does to the name map: walking the
/// names in order, each is bound to the runner unless it is already bound as
/// a discovered script (an earlier discovery wins; defaults are overridden).
pub open spec fn dict_add_scripts(
    d: Map<Seq<char>, Binding>,
    names: Seq<Seq<char>>,
    r: Runner,
    i: int,
) -> Map<Seq<char>, Binding>
    decreases names.len() - i,
{
    if i < 0 || i >= names.len() {
        d
    } else {
        let d2 = if d.contains_key(names[i]) && d[names[i]].discovered {
            d
        } else {
            d.insert(names[i], Binding { runner: r, discovered: true })
        };
        dict_add_scripts(d2, names, r, i + 1)
    }
}

/// What `ScriptMap::add_runner` does to the whole registry.
pub open spec fn reg_add_runner(m: RegistryModel, r: Runner) -> RegistryModel {
    RegistryModel {
        present: m.present.update(index_spec(r), true),
        lists: m.lists,
        dict: dict_add_defaults(m.dict, default_commands_spec(r), r, 0),
    }
}

/// What `ScriptMap::add_scripts` does to the whole registry.
pub open spec fn reg_add_scripts(m: RegistryModel, r: Runner, names: Seq<Seq<char>>) -> RegistryModel {
    RegistryModel {
        present: m.present.update(index_spec(r), true),
        lists: m.lists.update(index_spec(r), m.lists[index_spec(r)] + names),
        dict: dict_add_scripts(m.dict, names, r, 0),
    }
}

/// The empty registry: no runner present, nothing registered.
pub open spec fn empty_registry() -> RegistryModel {
    RegistryModel {
        present: Seq::new(NUMBER_OF_RUNNERS as nat, |i: int| false),
        lists: Seq::new(NUMBER_OF_RUNNERS as nat, |i: int| Seq::<Seq<char>>::empty()),
        dict: Map::empty(),
    }
}

proof fn lemma_dict_domain(s: Seq<ScriptEntry>, k: Seq<char>)
    ensures
        entries_dict(s).contains_key(k) <==> exists|i: int| 0 <= i < s.len() && s[i].name@ == k,
    decreases s.len(),
{
    if s.len() > 0 {
        lemma_dict_domain(s.drop_last(), k);
        if s.last().name@ == k {
            assert(s[s.len() - 1].name@ == k);
        } else {
            if entries_dict(s).contains_key(k) {
                let i = choose|i: int| 0 <= i < s.drop_last().len() && s.drop_last()[i].name@ == k;
                assert(s[i].name@ == k);
            }
            if exists|i: int| 0 <= i < s.len() && s[i].name@ == k {
                let i = choose|i: int| 0 <= i < s.len() && s[i].name@ == k;
                assert(i < s.len() - 1);
                assert(s.drop_last()[i].name@ == k);
            }
        }
    }
}

proof fn lemma_dict_value(s: Seq<ScriptEntry>, i: int)
    requires
        unique_names(s),
        0 <= i < s.len(),
    ensures
        entries_dict(s).contains_key(s[i].name@),
        entries_dict(s)[s[i].name@] == binding_of(s[i]),
    decreases s.len(),
{
    if i == s.len() - 1 {
        assert(s.last() == s[i]);
    } else {
        assert(unique_names(s.drop_last()));
        assert(s.drop_last()[i] == s[i]);
        lemma_dict_value(s.drop_last(), i);
        assert(s.last().name@ != s[i].name@);
    }
}

proof fn lemma_dict_push(s: Seq<ScriptEntry>, e: ScriptEntry)
    ensures
        entries_dict(s.push(e)) == entries_dict(s).insert(e.name@, binding_of(e)),
{
    assert(s.push(e).drop_last() =~= s);
    assert(s.push(e).last() == e);
}

proof fn lemma_dict_update(s: Seq<ScriptEntry>, i: int, e: ScriptEntry)
    requires
        unique_names(s),
        0 <= i < s.len(),
        s[i].name@ == e.name@,
    ensures
        entries_dict(s.update(i, e)) == entries_dict(s).insert(e.name@, binding_of(e)),
    decreases s.len(),
{
    let t = s.update(i, e);
    if i == s.len() - 1 {
        assert(t.drop_last() =~= s.drop_last());
        assert(t.last() == e);
        assert(entries_dict(t) =~= entries_dict(s).insert(e.name@, binding_of(e)));
    } else {
        assert(unique_names(s.drop_last()));
        assert(s.drop_last()[i] == s[i]);
        lemma_dict_update(s.drop_last(), i, e);
        assert(t.drop_last() =~= s.drop_last().update(i, e));
        assert(t.last() == s.last());
        assert(s.last().name@ != e.name@);
        assert(entries_dict(t) =~= entries_dict(s).insert(e.name@, binding_of(e)));
    }
}

impl ScriptMap {
    /// The registry's structural invariant: one slot per runner variant, and
    /// entry names unique.
    pub closed spec fn wf(self) -> bool {
        &&& self.runners@.len() == NUMBER_OF_RUNNERS
        &&& self.scripts@.len() == NUMBER_OF_RUNNERS
        &&& unique_names(self.entries@)
    }

    /// An empty registry.
    pub fn new() -> (m: ScriptMap)
        ensures
            m.wf(),
            m@ == empty_registry(),
    {
        let mut runners: Vec<bool> = Vec::new();
        let mut scripts: Vec<Vec<String>> = Vec::new();
        let mut i: usize = 0;
        while i < NUMBER_OF_RUNNERS
            invariant
                0 <= i <= NUMBER_OF_RUNNERS,
                runners@.len() == i,
                scripts@.len() == i,
                forall|j: int| 0 <= j < i ==> !runners@[j],
                forall|j: int| 0 <= j < i ==> #[trigger] scripts@[j]@.len() == 0,
            decreases NUMBER_OF_RUNNERS - i,
        {
            runners.push(false);
            scripts.push(Vec::new());
            i = i + 1;
        }
        let m = ScriptMap { runners, scripts, entries: Vec::new() };
        proof {
            assert(m@.present =~= empty_registry().present);
            assert(forall|j: int|
                0 <= j < NUMBER_OF_RUNNERS ==> #[trigger] m@.lists[j] =~= Seq::<Seq<char>>::empty());
            assert(m@.lists =~= empty_registry().lists);
        }
        m
    }

    /// The index of the entry whose name matches, if any.
    fn find_index(&self, name: &str) -> (r: Option<usize>)
        ensures
            match r {
                Some(j) => j < self.entries@.len() && self.entries@[j as int].name@ == name@,
                None => forall|j: int| 0 <= j < self.entries@.len()
                    ==> self.entries@[j].name@ != name@,
            },
    {
        let mut j: usize = 0;
        while j < self.entries.len()
            invariant
                0 <= j <= self.entries@.len(),
                forall|t: int| 0 <= t < j ==> self.entries@[t].name@ != name@,
            decreases self.entries@.len() - j,
        {
            if str_eq(self.entries[j].name.as_str(), name) {
                return Some(j);
            }
            j = j + 1;
        }
        None
    }

    /// Whether this runner was detected.
    pub fn has_runner(&self, runner: Runner) -> (r: bool)
        requires
            self.wf(),
        ensures
            r == self@.present[index_spec(runner)],
    {
        let i = runner.index();
        self.runners[i]
    }

    /// Whether any JavaScript-family runner was detected.
    pub fn has_js_runner(&self) -> (r: bool)
        requires
            self.wf(),
        ensures
            r == exists|i: int| 0 <= i <= 4 && self@.present[i],
    {
        let r = self.runners[0] || self.runners[1] || self.runners[2] || self.runners[3]
            || self.runners[4];
        proof {
            if r {
                if self@.present[0] {
                } else if self@.present[1] {
                } else if self@.present[2] {
                } else if self@.present[3] {
                } else {
                    assert(self@.present[4]);
                }
            }
        }
        r
    }

    /// The detected JavaScript-family runner with the lowest slot, if any.
    pub fn js_runner(&self) -> (r: Option<Runner>)
        requires
            self.wf(),
        ensures
            r == first_js_runner(self@),
    {
        if self.runners[0] {
            Some(Runner::Npm)
        } else if self.runners[1] {
            Some(Runner::Yarn)
        } else if self.runners[2] {
            Some(Runner::Pnpm)
        } else if self.runners[3] {
            Some(Runner::Bun)
        } else if self.runners[4] {
            Some(Runner::Deno)
        } else {
            None
        }
    }

    /// Whether no runner at all was detected: the no-project error path.
    pub fn no_runners(&self) -> (r: bool)
        requires
            self.wf(),
        ensures
            r == forall|i: int| 0 <= i < NUMBER_OF_RUNNERS ==> !self@.present[i],
    {
        let any = self.runners[0] || self.runners[1] || self.runners[2] || self.runners[3]
            || self.runners[4] || self.runners[5] || self.runners[6] || self.runners[7];
        proof {
            if !any {
                assert(forall|i: int| 0 <= i < NUMBER_OF_RUNNERS ==> !self@.present[i]) by {
                    assert(!self@.present[0] && !self@.present[1] && !self@.present[2]
                        && !self@.present[3] && !self@.present[4] && !self@.present[5]
                        && !self@.present[6] && !self@.present[7]);
                }
            } else {
                if self.runners@[0] {
                    assert(self@.present[0]);
                } else if self.runners@[1] {
                    assert(self@.present[1]);
                } else if self.runners@[2] {
                    assert(self@.present[2]);
                } else if self.runners@[3] {
                    assert(self@.present[3]);
                } else if self.runners@[4] {
                    assert(self@.present[4]);
                } else if self.runners@[5] {
                    assert(self@.present[5]);
                } else if self.runners@[6] {
                    assert(self@.present[6]);
                } else {
                    assert(self@.present[7]);
                }
                assert(!(forall|i: int| 0 <= i < NUMBER_OF_RUNNERS ==> !self@.present[i]));
            }
        }
        !any
    }

    /// Marks the runner present and binds each of its default command names,
    /// without overriding any name that is already bound.
    pub fn add_runner(&mut self, runner: &Runner)
        requires
            old(self).wf(),
        ensures
            final(self).wf(),
            final(self)@ == reg_add_runner(old(self)@, *runner),
    {
        let ghost orig: RegistryModel = self@;
        let i = runner.index();
        self.runners[i] = true;
        let defaults = runner.default_commands();
        let ghost dv: Seq<Seq<char>> = defaults.deep_view();
        let mut k: usize = 0;
        while k < defaults.len()
            invariant
                0 <= k <= defaults.len(),
                dv == defaults.deep_view(),
                dv.len() == defaults@.len(),
                forall|t: int| 0 <= t < defaults@.len() ==> dv[t] == #[trigger] defaults@[t]@,
                unique_names(self.entries@),
                self.runners@ == orig.present.update(index_spec(*runner), true),
                self.scripts.deep_view() == orig.lists,
                self.scripts@.len() == NUMBER_OF_RUNNERS,
                dict_add_defaults(entries_dict(self.entries@), dv, *runner, k as int)
                    == dict_add_defaults(orig.dict, dv, *runner, 0),
            decreases defaults.len() - k,
        {
            let ghost cur = entries_dict(self.entries@);
            let name = defaults[k];
            match self.find_index(name) {
                Some(_) => {
                    proof {
                        lemma_dict_domain(self.entries@, name@);
                        assert(cur.contains_key(dv[k as int]));
                    }
                },
                None => {
                    let entry = ScriptEntry {
                        name: name.to_owned(),
                        runner: *runner,
                        discovered: false,
                    };
                    proof {
                        lemma_dict_domain(self.entries@, name@);
                        assert(!cur.contains_key(dv[k as int]));
                        lemma_dict_push(self.entries@, entry);
                    }
                    self.entries.push(entry);
                },
            }
            k = k + 1;
        }
        proof {
            assert(final(self)@.dict == reg_add_runner(orig, *runner).dict);
        }
    }

    /// Marks the runner present, appends the script names to its list, and
    /// binds each name, overriding default-command bindings but never an
    /// earlier discovered script.
    pub fn add_scripts(&mut self, runner: &Runner, scripts: &Vec<String>)
        requires
            old(self).wf(),
        ensures
            final(self).wf(),
            final(self)@ == reg_add_scripts(old(self)@, *runner, scripts.deep_view()),
    {
        let ghost orig: RegistryModel = self@;
        let ghost sv: Seq<Seq<char>> = scripts.deep_view();
        let i = runner.index();
        self.runners[i] = true;
        let mut lst = self.scripts.remove(i);
        let ghost lst0 = lst.deep_view();
        let ghost scripts_rem = self.scripts@;
        let mut k: usize = 0;
        while k < scripts.len()
            invariant
                0 <= k <= scripts@.len(),
                i == index_spec(*runner),
                i < NUMBER_OF_RUNNERS,
                sv == scripts.deep_view(),
                sv.len() == scripts@.len(),
                forall|t: int| 0 <= t < scripts@.len() ==> sv[t] == #[trigger] scripts@[t]@,
                unique_names(self.entries@),
                self.runners@ == orig.present.update(index_spec(*runner), true),
                self.scripts@ == scripts_rem,
                lst.deep_view() == lst0 + sv.take(k as int),
                dict_add_scripts(entries_dict(self.entries@), sv, *runner, k as int)
                    == dict_add_scripts(orig.dict, sv, *runner, 0),
            decreases scripts@.len() - k,
        {
            let ghost cur = entries_dict(self.entries@);
            let ghost key = sv[k as int];
            let ghost step = if cur.contains_key(key) && cur[key].discovered {
                cur
            } else {
                cur.insert(key, Binding { runner: *runner, discovered: true })
            };
            let ghost lpre = lst.deep_view();
            let listed = scripts[k].clone();
            lst.push(listed);
            proof {
                assert(lst.deep_view().len() == lpre.len() + 1);
                assert(forall|t: int|
                    0 <= t < lpre.len() ==> #[trigger] lst.deep_view()[t] == lpre[t]);
                assert(lst.deep_view()[lpre.len() as int] == sv[k as int]);
                assert(lst.deep_view() =~= lst0 + sv.take(k as int + 1));
            }
            let script = scripts[k].clone();
            match self.find_index(script.as_str()) {
                Some(j) => {
                    proof {
                        lemma_dict_value(self.entries@, j as int);
                        assert(cur.contains_key(key));
                        assert(cur[key] == binding_of(self.entries@[j as int]));
                    }
                    if !self.entries[j].discovered {
                        let entry = ScriptEntry { name: script, runner: *runner, discovered: true };
                        proof {
                            lemma_dict_update(self.entries@, j as int, entry);
                        }
                        let ghost epre = self.entries@;
                        self.entries[j] = entry;
                        proof {
                            assert(forall|t: int| 0 <= t < epre.len() && t != j as int
                                ==> self.entries@[t] == #[trigger] epre[t]);
                            assert(unique_names(self.entries@));
                            assert(entries_dict(self.entries@) == step);
                        }
                    } else {
                        proof {
                            assert(entries_dict(self.entries@) == step);
                        }
                    }
                },
                None => {
                    let entry = ScriptEntry { name: script, runner: *runner, discovered: true };
                    proof {
                        lemma_dict_domain(self.entries@, entry.name@);
                        assert(!cur.contains_key(key));
                        lemma_dict_push(self.entries@, entry);
                    }
                    self.entries.push(entry);
                    proof {
                        assert(entries_dict(self.entries@) == step);
                    }
                },
            }
            k = k + 1;
        }
        self.scripts.insert(i, lst);
        proof {
            assert(sv.take(sv.len() as int) =~= sv);
            assert(lst.deep_view() == lst0 + sv);
            assert(orig.lists[i as int] == lst0);
            assert(self.scripts@ == scripts_rem.insert(i as int, lst));
            assert(self.scripts@.len() == NUMBER_OF_RUNNERS);
            assert(forall|t: int| 0 <= t < i as int
                ==> #[trigger] self.scripts@[t] == old(self).scripts@[t]);
            assert(forall|t: int| (i as int) < t < NUMBER_OF_RUNNERS
                ==> #[trigger] self.scripts@[t] == old(self).scripts@[t]);
            assert(self.scripts@[i as int] == lst);
            assert(self.scripts.deep_view() =~= orig.lists.update(
                index_spec(*runner),
                orig.lists[index_spec(*runner)] + sv,
            ));
            assert(final(self)@.present =~= reg_add_scripts(orig, *runner, sv).present);
        }
    }

    /// Renders the listing of present runners and their discovered scripts,
    /// wrapped to the given width (measured in characters).
    pub fn render_listing(&self, width: usize) -> (r: String)
        requires
            self.wf(),
        ensures
            r@ == render_listing_spec(self@, width as int),
    {
        let mut buf = String::new();
        let mut i: usize = 0;
        proof {
            assert(buf@ =~= Seq::<char>::empty());
        }
        while i < NUMBER_OF_RUNNERS
            invariant
                self.wf(),
                0 <= i <= NUMBER_OF_RUNNERS,
                render_all(self@, i as int, buf@, width as int) == render_listing_spec(
                    self@,
                    width as int,
                ),
            decreases NUMBER_OF_RUNNERS - i,
        {
            let ghost pre = buf@;
            if self.runners[i] {
                let runner = Runner::from_usize(i).unwrap();
                let name = runner.name();
                let mut seg: String = name.to_owned();
                seg.append(":");
                let scripts = &self.scripts[i];
                let ghost listv: Seq<Seq<char>> = self@.lists[i as int];
                proof {
                    assert(self@.lists[i as int] == self.scripts@[i as int].deep_view());
                    assert(listv == scripts.deep_view());
                }
                let mut len: u128 = 0;
                if scripts.len() > 0 {
                    seg.append("\n    ");
                    len = 4;
                }
                let ghost start = seg@;
                let ghost len0: int = len as int;
                let mut j: usize = 0;
                while j < scripts.len()
                    invariant
                        0 <= j <= scripts@.len(),
                        listv == scripts.deep_view(),
                        listv.len() == scripts@.len(),
                        forall|t: int| 0 <= t < scripts@.len()
                            ==> listv[t] == #[trigger] scripts@[t]@,
                        len <= (width as u128) + 0xffff_ffff_ffff_ffff + 6,
                        render_scripts(listv, j as int, seg@, len as int, width as int)
                            == render_scripts(listv, 0, start, len0, width as int),
                    decreases scripts@.len() - j,
                {
                    let ghost bpre = seg@;
                    let ghost lpre: int = len as int;
                    let slen = scripts[j].as_str().unicode_len() as u128;
                    proof {
                        assert(slen == listv[j as int].len());
                    }
                    if len + slen + 2 > width as u128 {
                        seg.append("\n    ");
                        len = 4;
                    }
                    let ghost bmid = seg@;
                    seg.append(scripts[j].as_str());
                    if j < scripts.len() - 1 {
                        seg.append(", ");
                        proof {
                            assert(seg@ =~= bmid + listv[j as int] + ", "@);
                        }
                    }
                    len = len + slen + 2;
                    proof {
                        assert(render_scripts(listv, j as int + 1, seg@, len as int, width as int)
                            == render_scripts(listv, j as int, bpre, lpre, width as int));
                    }
                    j = j + 1;
                }
                let defaults = runner.default_commands();
                if defaults.len() > 0 {
                    seg.append("\n    ");
                    seg.append(name);
                    seg.append("'s default commands, view with (");
                    seg.append(name);
                    seg.append(" --help)");
                }
                seg.append("\n");
                proof {
                    assert(seg@ =~= render_one(self@, i as int, width as int));
                }
                buf.append(seg.as_str());
            } else {
                proof {
                    assert(render_one(self@, i as int, width as int) =~= Seq::<char>::empty());
                    assert(buf@ =~= pre + render_one(self@, i as int, width as int));
                }
            }
            proof {
                assert(buf@ =~= pre + render_one(self@, i as int, width as int));
            }
            i = i + 1;
        }
        buf
    }

    /// Relies on `term_size::dimensions`: the attached terminal's column and
    /// row counts; what comes back depends on the environment.
    #[verifier::external_body]
    fn terminal_dimensions() -> Option<(usize, usize)> {
        term_size::dimensions()
    }

    /// The human-readable listing of present runners and their discovered
    /// scripts, wrapped to the terminal width when one is available and an
    /// effectively unbounded width otherwise.
    pub fn display(&self) -> (r: String)
        requires
            self.wf(),
        ensures
            exists|w: int| w >= 0 && r@ == render_listing_spec(self@, w),
    {
        let width: usize = match Self::terminal_dimensions() {
            Some((w, _)) => w,
            None => 999,
        };
        let r = self.render_listing(width);
        proof {
            assert(r@ == render_listing_spec(self@, width as int));
        }
        r
    }

    /// The full command listing: every registered name with its owning
    /// runner, one line each, in registration order, under a header line.
    pub fn display_all(&self) -> (r: String)
        requires
            self.wf(),
        ensures
            exists|items: Seq<(Seq<char>, Runner)>|
                {
                    &&& (forall|t: int| 0 <= t < items.len() ==> self@.dict.contains_key(
                        (#[trigger] items[t]).0,
                    ) && self@.dict[items[t].0].runner == items[t].1)
                    &&& (forall|k: Seq<char>| self@.dict.contains_key(k) ==> exists|t: int|
                        0 <= t < items.len() && (#[trigger] items[t]).0 == k)
                    &&& r@ == "All available commands are:"@ + "\n"@ + render_lines(items, 0)
                },
    {
        let ghost items: Seq<(Seq<char>, Runner)> = Seq::new(
            self.entries@.len(),
            |t: int| (self.entries@[t].name@, self.entries@[t].runner),
        );
        let mut buf: String = "All available commands are:".to_owned();
        buf.append("\n");
        let ghost header = buf@;
        let mut t: usize = 0;
        while t < self.entries.len()
            invariant
                self.wf(),
                0 <= t <= self.entries@.len(),
                items == Seq::new(
                    self.entries@.len(),
                    |u: int| (self.entries@[u].name@, self.entries@[u].runner),
                ),
                header == "All available commands are:"@ + "\n"@,
                t < self.entries@.len() ==> buf@ + render_lines(items, t as int) == header
                    + render_lines(items, 0),
                t == self.entries@.len() ==> buf@ == header + render_lines(items, 0),
            decreases self.entries@.len() - t,
        {
            let ghost bpre = buf@;
            let runner_name = self.entries[t].runner.name();
            buf.append(runner_name);
            buf.append(": ");
            buf.append(self.entries[t].name.as_str());
            proof {
                assert(buf@ =~= bpre + listing_line(items[t as int].0, items[t as int].1));
            }
            if t + 1 < self.entries.len() {
                buf.append("\n");
                proof {
                    assert(buf@ =~= bpre + (listing_line(items[t as int].0, items[t as int].1)
                        + "\n"@));
                }
            } else {
                proof {
                    assert(render_lines(items, t as int) == listing_line(
                        items[t as int].0,
                        items[t as int].1,
                    ));
                }
            }
            t = t + 1;
        }
        proof {
            if self.entries@.len() == 0 {
                assert(render_lines(items, 0) =~= Seq::<char>::empty());
                assert(buf@ =~= header + render_lines(items, 0));
            }
            assert(forall|u: int| 0 <= u < items.len() ==> self@.dict.contains_key(
                (#[trigger] items[u]).0,
            ) && self@.dict[items[u].0].runner == items[u].1) by {
                assert forall|u: int| 0 <= u < items.len() implies self@.dict.contains_key(
                    (#[trigger] items[u]).0,
                ) && self@.dict[items[u].0].runner == items[u].1 by {
                    lemma_dict_value(self.entries@, u);
                }
            }
            assert(forall|k: Seq<char>| self@.dict.contains_key(k) ==> exists|u: int|
                0 <= u < items.len() && (#[trigger] items[u]).0 == k) by {
                assert forall|k: Seq<char>| self@.dict.contains_key(k) implies exists|u: int|
                    0 <= u < items.len() && (#[trigger] items[u]).0 == k by {
                    lemma_dict_domain(self.entries@, k);
                    let u = choose|u: int|
                        0 <= u < self.entries@.len() && self.entries@[u].name@ == k;
                    assert(items[u].0 == k);
                }
            }
        }
        buf
    }

    /// Resolves an alias or command name to the runner that should handle
    /// it, or nothing when the name is not registered.
    pub fn find_runner(&self, script: &str) -> (r: Option<Runner>)
        requires
            self.wf(),
        ensures
            ({
                let key = unalias_spec(script@);
                match r {
                    Some(rr) => self@.dict.contains_key(key) && self@.dict[key].runner == rr,
                    None => !self@.dict.contains_key(key),
                }
            }),
    {
        let command = Runner::unalias_command(script);
        match self.find_index(command) {
            Some(j) => {
                proof {
                    lemma_dict_value(self.entries@, j as int);
                }
                Some(self.entries[j].runner)
            },
            None => {
                proof {
                    lemma_dict_domain(self.entries@, unalias_spec(script@));
                }
                None
            },
        }
    }
}

/// One runner's wrapped script list: widths are measured in characters;
/// a script that would pass the width starts a fresh indented line.
pub open spec fn render_scripts(
    scripts: Seq<Seq<char>>,
    j: int,
    buf: Seq<char>,
    len: int,
    width: int,
) -> Seq<char>
    decreases scripts.len() - j,
{
    if j < 0 || j >= scripts.len() {
        buf
    } else {
        let wrapped = len + scripts[j].len() + 2 > width;
        let buf1 = if wrapped {
            buf + "\n    "@
        } else {
            buf
        };
        let len1: int = if wrapped {
            4
        } else {
            len
        };
        let buf2 = buf1 + scripts[j];
        let buf3 = if j < scripts.len() - 1 {
            buf2 + ", "@
        } else {
            buf2
        };
        render_scripts(scripts, j + 1, buf3, len1 + scripts[j].len() + 2, width)
    }
}

/// The listing segment one runner slot contributes: nothing when absent;
/// otherwise its name, its wrapped script list, and a note about its default
/// commands when it has any.
pub open spec fn render_one(m: RegistryModel, i: int, width: int) -> Seq<char> {
    if !m.present[i] {
        Seq::empty()
    } else {
        let name = name_spec(runner_of_index(i));
        let scripts = m.lists[i];
        let head = name + ":"@;
        let start = if scripts.len() > 0 {
            head + "\n    "@
        } else {
            head
        };
        let len0: int = if scripts.len() > 0 {
            4
        } else {
            0
        };
        let body = render_scripts(scripts, 0, start, len0, width);
        let tail = if default_commands_spec(runner_of_index(i)).len() > 0 {
            body + "\n    "@ + name + "'s default commands, view with ("@ + name + " --help)"@
        } else {
            body
        };
        tail + "\n"@
    }
}

pub open spec fn render_all(m: RegistryModel, i: int, buf: Seq<char>, width: int) -> Seq<char>
    decreases (NUMBER_OF_RUNNERS as int) - i,
{
    if i < 0 || i >= (NUMBER_OF_RUNNERS as int) {
        buf
    } else {
        render_all(m, i + 1, buf + render_one(m, i, width), width)
    }
}

/// The whole listing at a given width.
pub open spec fn render_listing_spec(m: RegistryModel, width: int) -> Seq<char> {
    render_all(m, 0, Seq::empty(), width)
}

/// One line of the full command listing.
pub open spec fn listing_line(name: Seq<char>, r: Runner) -> Seq<char> {
    name_spec(r) + ": "@ + name
}

/// The full command listing's lines, separated by newlines.
pub open spec fn render_lines(items: Seq<(Seq<char>, Runner)>, i: int) -> Seq<char>
    decreases items.len() - i,
{
    if i < 0 || i >= items.len() {
        Seq::empty()
    } else if i == items.len() - 1 {
        listing_line(items[i].0, items[i].1)
    } else {
        listing_line(items[i].0, items[i].1) + "\n"@ + render_lines(items, i + 1)
    }
}

/// The lowest-slot JavaScript-family runner marked present, if any.
pub open spec fn first_js_runner(m: RegistryModel) -> Option<Runner> {
    if m.present[0] {
        Some(Runner::Npm)
    } else if m.present[1] {
        Some(Runner::Yarn)
    } else if m.present[2] {
        Some(Runner::Pnpm)
    } else if m.present[3] {
        Some(Runner::Bun)
    } else if m.present[4] {
        Some(Runner::Deno)
    } else {
        None
    }
}

proof fn lemma_add_defaults_preserves(
    d: Map<Seq<char>, Binding>,
    names: Seq<Seq<char>>,
    r: Runner,
    i: int,
    s: Seq<char>,
)
    requires
        d.contains_key(s),
    ensures
        dict_add_defaults(d, names, r, i).contains_key(s),
        dict_add_defaults(d, names, r, i)[s] == d[s],
    decreases names.len() - i,
{
    if 0 <= i < names.len() {
        let d2 = if d.contains_key(names[i]) {
            d
        } else {
            d.insert(names[i], Binding { runner: r, discovered: false })
        };
        lemma_add_defaults_preserves(d2, names, r, i + 1, s);
    }
}

proof fn lemma_add_scripts_preserves_discovered(
    d: Map<Seq<char>, Binding>,
    names: Seq<Seq<char>>,
    r: Runner,
    i: int,
    s: Seq<char>,
)
    requires
        d.contains_key(s),
        d[s].discovered,
    ensures
        dict_add_scripts(d, names, r, i).contains_key(s),
        dict_add_scripts(d, names, r, i)[s] == d[s],
    decreases names.len() - i,
{
    if 0 <= i < names.len() {
        let d2 = if d.contains_key(names[i]) && d[names[i]].discovered {
            d
        } else {
            d.insert(names[i], Binding { runner: r, discovered: true })
        };
        lemma_add_scripts_preserves_discovered(d2, names, r, i + 1, s);
    }
}

/// Registering default commands either leaves a name's binding exactly as it
/// was or gives it a non-discovered binding to the registered runner.
pub proof fn lemma_add_defaults_bindings(
    d: Map<Seq<char>, Binding>,
    names: Seq<Seq<char>>,
    r: Runner,
    i: int,
    k: Seq<char>,
)
    ensures
        dict_add_defaults(d, names, r, i).contains_key(k) ==> ((d.contains_key(k)
            && dict_add_defaults(d, names, r, i)[k] == d[k]) || dict_add_defaults(
            d,
            names,
            r,
            i,
        )[k] == (Binding { runner: r, discovered: false })),
    decreases names.len() - i,
{
    if 0 <= i < names.len() {
        let d2 = if d.contains_key(names[i]) {
            d
        } else {
            d.insert(names[i], Binding { runner: r, discovered: false })
        };
        lemma_add_defaults_bindings(d2, names, r, i + 1, k);
    }
}

pub proof fn lemma_add_scripts_binds(
    d: Map<Seq<char>, Binding>,
    names: Seq<Seq<char>>,
    r: Runner,
    i: int,
    s: Seq<char>,
)
    requires
        0 <= i,
        exists|j: int| i <= j < names.len() && names[j] == s,
        !(d.contains_key(s) && d[s].discovered),
    ensures
        dict_add_scripts(d, names, r, i).contains_key(s),
        dict_add_scripts(d, names, r, i)[s] == (Binding { runner: r, discovered: true }),
    decreases names.len() - i,
{
    let j = choose|j: int| i <= j < names.len() && names[j] == s;
    let d2 = if d.contains_key(names[i]) && d[names[i]].discovered {
        d
    } else {
        d.insert(names[i], Binding { runner: r, discovered: true })
    };
    if names[i] == s {
        assert(d2 == d.insert(s, Binding { runner: r, discovered: true }));
        lemma_add_scripts_preserves_discovered(d2, names, r, i + 1, s);
    } else {
        assert(i < j);
        lemma_add_scripts_binds(d2, names, r, i + 1, s);
    }
}

/// Law: a name that is bound as a discovered script stays bound exactly as
/// it was when any runner's default commands are registered afterwards —
/// defaults never override discovered scripts.
pub proof fn lemma_discovered_outranks_defaults(m: RegistryModel, other: Runner, s: Seq<char>)
    requires
        m.dict.contains_key(s),
        m.dict[s].discovered,
    ensures
        reg_add_runner(m, other).dict.contains_key(s),
        reg_add_runner(m, other).dict[s] == m.dict[s],
{
    lemma_add_defaults_preserves(m.dict, default_commands_spec(other), other, 0, s);
}

/// Law: a script name discovered for one runner resolves to that runner even
/// when another runner whose default commands include the same name is
/// registered afterwards.
pub proof fn lemma_discovered_script_wins(
    m: RegistryModel,
    owner: Runner,
    other: Runner,
    names: Seq<Seq<char>>,
    s: Seq<char>,
)
    requires
        names.contains(s),
        !(m.dict.contains_key(s) && m.dict[s].discovered),
    ensures
        reg_add_runner(reg_add_scripts(m, owner, names), other).dict.contains_key(s),
        reg_add_runner(reg_add_scripts(m, owner, names), other).dict[s] == (Binding {
            runner: owner,
            discovered: true,
        }),
{
    let j = choose|j: int| 0 <= j < names.len() && names[j] == s;
    lemma_add_scripts_binds(m.dict, names, owner, 0, s);
    lemma_add_defaults_preserves(
        dict_add_scripts(m.dict, names, owner, 0),
        default_commands_spec(other),
        other,
        0,
        s,
    );
}

} // verus!
