//! A conservative Makefile target scanner: accumulate alphabetic characters
//! as a target name, emit the name when a colon follows it, and otherwise
//! discard the rest of the line.

use vstd::prelude::*;
use crate::strings::{str_chars, chars_string};

verus! {

/// What the outside world's `char::is_alphabetic` answers for `c`.
pub uninterp spec fn is_alphabetic_char(c: char) -> bool;

/// Relies on `char::is_alphabetic`: whether `c` has the Unicode alphabetic
/// property, a function of the character alone.
#[verifier::external_body]
pub(crate) fn char_is_alphabetic(c: char) -> (r: bool)
    ensures
        r == is_alphabetic_char(c),
{
    c.is_alphabetic()
}

/// The scanner's state: targets emitted so far, the alphabetic run being
/// accumulated, and whether the rest of the current line is being discarded.
pub struct MkState {
    pub targets: Seq<Seq<char>>,
    pub buffer: Seq<char>,
    pub ignoring: bool,
}

/// One scanner step. While discarding, only a newline ends the discard. An
/// alphabetic character extends the run; a colon after a non-empty run emits
/// it as a target and discards the rest of the line; a space before any run
/// is skipped; any other character after a non-empty run abandons the run
/// and discards the rest of the line.
pub open spec fn mk_step(st: MkState, c: char) -> MkState {
    if st.ignoring {
        if c == '\n' {
            MkState { targets: st.targets, buffer: st.buffer, ignoring: false }
        } else {
            st
        }
    } else if is_alphabetic_char(c) {
        MkState { targets: st.targets, buffer: st.buffer.push(c), ignoring: false }
    } else if c == ':' && st.buffer.len() > 0 {
        MkState { targets: st.targets.push(st.buffer), buffer: Seq::empty(), ignoring: true }
    } else if c == ' ' && st.buffer.len() == 0 {
        st
    } else if st.buffer.len() > 0 {
        MkState { targets: st.targets, buffer: Seq::empty(), ignoring: true }
    } else {
        st
    }
}

/// Runs the scanner over `s` from position `i` onward.
pub open spec fn mk_run(s: Seq<char>, i: int, st: MkState) -> MkState
    decreases s.len() - i,
{
    if i < 0 || i >= s.len() {
        st
    } else {
        mk_run(s, i + 1, mk_step(st, s[i]))
    }
}

/// The scanner's initial state.
pub open spec fn mk_init() -> MkState {
    MkState { targets: Seq::empty(), buffer: Seq::empty(), ignoring: false }
}

/// The ordered list of targets the scanner extracts from `s`.
pub open spec fn parse_makefile_spec(s: Seq<char>) -> Seq<Seq<char>> {
    mk_run(s, 0, mk_init()).targets
}

/// Extracts the build target names from Makefile text, in order.
pub fn parse_makefile_targets(content: &str) -> (r: Vec<String>)
    ensures
        r.deep_view() == parse_makefile_spec(content@),
{
    let chars = str_chars(content);
    let mut targets: Vec<String> = Vec::new();
    let mut buffer: Vec<char> = Vec::new();
    let mut ignoring = false;
    let mut i: usize = 0;
    proof {
        assert(targets.deep_view() =~= Seq::<Seq<char>>::empty());
        assert(buffer@ =~= Seq::<char>::empty());
    }
    while i < chars.len()
        invariant
            0 <= i <= chars@.len(),
            chars@ == content@,
            mk_run(content@, i as int, (MkState {
                targets: targets.deep_view(),
                buffer: buffer@,
                ignoring: ignoring,
            })) == mk_run(content@, 0, mk_init()),
        decreases chars@.len() - i,
    {
        let ghost pre = MkState {
            targets: targets.deep_view(),
            buffer: buffer@,
            ignoring: ignoring,
        };
        let c = chars[i];
        if ignoring {
            if c == '\n' {
                ignoring = false;
            }
        } else if char_is_alphabetic(c) {
            buffer.push(c);
        } else if c == ':' && buffer.len() > 0 {
            let ghost tpre = targets.deep_view();
            let name = chars_string(&buffer);
            targets.push(name);
            buffer.clear();
            ignoring = true;
            proof {
                assert(targets.deep_view().len() == tpre.len() + 1);
                assert(forall|t: int|
                    0 <= t < tpre.len() ==> #[trigger] targets.deep_view()[t] == tpre[t]);
                assert(targets.deep_view()[tpre.len() as int] == pre.buffer);
                assert(targets.deep_view() =~= tpre.push(pre.buffer));
            }
        } else if c == ' ' && buffer.len() == 0 {
        } else if buffer.len() > 0 {
            buffer.clear();
            ignoring = true;
        }
        proof {
            let post = MkState {
                targets: targets.deep_view(),
                buffer: buffer@,
                ignoring: ignoring,
            };
            assert(post == mk_step(pre, content@[i as int]));
        }
        i = i + 1;
    }
    targets
}

/// Law: parsing the same Makefile text twice yields the same ordered target
/// list — extraction is a pure function of the text.
pub proof fn lemma_parse_makefile_deterministic(
    r1: Seq<Seq<char>>,
    r2: Seq<Seq<char>>,
    s: Seq<char>,
)
    requires
        r1 == parse_makefile_spec(s),
        r2 == parse_makefile_spec(s),
    ensures
        r1 == r2,
{
}

proof fn lemma_no_colon_keeps_targets(s: Seq<char>, i: int, st: MkState)
    requires
        forall|j: int| i <= j < s.len() ==> s[j] != ':',
    ensures
        mk_run(s, i, st).targets == st.targets,
    decreases s.len() - i,
{
    if 0 <= i < s.len() {
        assert(mk_step(st, s[i]).targets == st.targets);
        lemma_no_colon_keeps_targets(s, i + 1, mk_step(st, s[i]));
    }
}

/// Law: text without any colon yields no targets at all — a name is only
/// ever emitted when a colon ends it.
pub proof fn lemma_no_colon_no_targets(s: Seq<char>)
    requires
        forall|j: int| 0 <= j < s.len() ==> s[j] != ':',
    ensures
        parse_makefile_spec(s).len() == 0,
{
    lemma_no_colon_keeps_targets(s, 0, mk_init());
}

proof fn lemma_scan_name(s: Seq<char>, n: int, k: int, tg: Seq<Seq<char>>)
    requires
        0 < n < s.len(),
        0 <= k <= n,
        forall|t: int| 0 <= t < n ==> is_alphabetic_char(s[t]),
        s[n] == ':',
        !is_alphabetic_char(':'),
    ensures
        mk_run(s, k, (MkState { targets: tg, buffer: s.subrange(0, k), ignoring: false }))
            == mk_run(s, n + 1, (MkState {
            targets: tg.push(s.subrange(0, n)),
            buffer: Seq::empty(),
            ignoring: true,
        })),
    decreases n - k,
{
    let st = MkState { targets: tg, buffer: s.subrange(0, k), ignoring: false };
    if k < n {
        assert(s.subrange(0, k).push(s[k]) =~= s.subrange(0, k + 1));
        assert(mk_step(st, s[k]) == (MkState {
            targets: tg,
            buffer: s.subrange(0, k + 1),
            ignoring: false,
        }));
        lemma_scan_name(s, n, k + 1, tg);
    } else {
        assert(s.subrange(0, n).len() == n);
        assert(mk_step(st, s[n]) == (MkState {
            targets: tg.push(s.subrange(0, n)),
            buffer: Seq::empty(),
            ignoring: true,
        }));
    }
}

proof fn lemma_ignore_rest(s: Seq<char>, i: int, st: MkState)
    requires
        st.ignoring,
        forall|t: int| i <= t < s.len() ==> s[t] != '\n',
    ensures
        mk_run(s, i, st) == st,
    decreases s.len() - i,
{
    if 0 <= i < s.len() {
        assert(mk_step(st, s[i]) == st);
        lemma_ignore_rest(s, i + 1, st);
    }
}

/// Law: a line that is an alphabetic run followed by a top-level colon has
/// exactly that run extracted as a target; the rest of the line after the
/// colon is discarded. (Hypotheses state the line shape, and the background
/// fact that a colon is not an alphabetic character.)
pub proof fn lemma_alphabetic_run_extracted(s: Seq<char>, n: int)
    requires
        0 < n < s.len(),
        forall|t: int| 0 <= t < n ==> is_alphabetic_char(s[t]),
        s[n] == ':',
        forall|t: int| n < t < s.len() ==> s[t] != '\n',
        !is_alphabetic_char(':'),
    ensures
        parse_makefile_spec(s) == seq![s.subrange(0, n)],
{
    assert(s.subrange(0, 0) =~= Seq::<char>::empty());
    lemma_scan_name(s, n, 0, Seq::empty());
    let after = MkState {
        targets: Seq::<Seq<char>>::empty().push(s.subrange(0, n)),
        buffer: Seq::empty(),
        ignoring: true,
    };
    lemma_ignore_rest(s, n + 1, after);
    assert(Seq::<Seq<char>>::empty().push(s.subrange(0, n)) =~= seq![s.subrange(0, n)]);
}

} // verus!
