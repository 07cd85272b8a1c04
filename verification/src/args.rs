//! Classification of raw command-line tokens.
//!
//! A token containing whitespace is a bundle of sub-arguments, a token
//! containing a `-` (and no whitespace) is a flag, and anything else is a
//! command name or alias.

use vstd::prelude::*;

verus! {

/// How a single command-line token is to be treated by the router.
#[derive(Debug, Clone, Copy, PartialEq, Eq, Structural)]
pub enum ArgType {
    Flag,
    Subargs,
    Command,
}

/// What the outside world's `char::is_whitespace` answers for `c`.
pub uninterp spec fn is_whitespace_char(c: char) -> bool;

/// Relies on `char::is_whitespace`: whether `c` has the Unicode
/// whitespace property, a function of the character alone.
#[verifier::external_body]
pub(crate) fn char_is_whitespace(c: char) -> (r: bool)
    ensures
        r == is_whitespace_char(c),
{
    c.is_whitespace()
}

/// The classification a token receives: any whitespace character makes it a
/// sub-argument bundle; otherwise a `-` anywhere makes it a flag; otherwise
/// it is a command.
pub open spec fn classify_spec(s: Seq<char>) -> ArgType {
    if exists|i: int| 0 <= i < s.len() && is_whitespace_char(s[i]) {
        ArgType::Subargs
    } else if exists|i: int| 0 <= i < s.len() && s[i] == '-' {
        ArgType::Flag
    } else {
        ArgType::Command
    }
}

impl ArgType {
    /// Classifies one raw token.
    pub fn of_token(token: &str) -> (r: ArgType)
        ensures
            r == classify_spec(token@),
    {
        let chars = crate::strings::str_chars(token);
        let mut is_flag = false;
        let mut i: usize = 0;
        while i < chars.len()
            invariant
                0 <= i <= chars.len(),
                chars@ == token@,
                forall|j: int| 0 <= j < i ==> !is_whitespace_char(token@[j]),
                is_flag == exists|j: int| 0 <= j < i && token@[j] == '-',
            decreases chars.len() - i,
        {
            let c = chars[i];
            if char_is_whitespace(c) {
                return ArgType::Subargs;
            }
            if c == '-' {
                is_flag = true;
            }
            i = i + 1;
        }
        if is_flag {
            ArgType::Flag
        } else {
            ArgType::Command
        }
    }
}

/// The characters `str::split_ascii_whitespace` splits on.
pub open spec fn is_ascii_ws(c: char) -> bool {
    c == ' ' || c == '\t' || c == '\n' || c == '\r' || c == '\x0c'
}

/// The splitter's state: completed pieces, and the piece being accumulated.
pub struct SplitState {
    pub pieces: Seq<Seq<char>>,
    pub cur: Seq<char>,
}

/// One splitter step: whitespace ends the current piece (if any); any other
/// character extends it.
pub open spec fn split_step(st: SplitState, c: char) -> SplitState {
    if is_ascii_ws(c) {
        if st.cur.len() > 0 {
            SplitState { pieces: st.pieces.push(st.cur), cur: Seq::empty() }
        } else {
            st
        }
    } else {
        SplitState { pieces: st.pieces, cur: st.cur.push(c) }
    }
}

/// Runs the splitter over `s` from position `i` onward.
pub open spec fn split_run(s: Seq<char>, i: int, st: SplitState) -> SplitState
    decreases s.len() - i,
{
    if i < 0 || i >= s.len() {
        st
    } else {
        split_run(s, i + 1, split_step(st, s[i]))
    }
}

/// The pieces of `s` between runs of ASCII whitespace, in order, none empty.
pub open spec fn split_ws_spec(s: Seq<char>) -> Seq<Seq<char>> {
    let end = split_run(s, 0, SplitState { pieces: Seq::empty(), cur: Seq::empty() });
    if end.cur.len() > 0 {
        end.pieces.push(end.cur)
    } else {
        end.pieces
    }
}

/// Splits a sub-argument bundle into its ASCII-whitespace-separated pieces.
pub fn split_into_subargs(arg: &str) -> (r: Vec<String>)
    ensures
        r.deep_view() == split_ws_spec(arg@),
{
    let chars = crate::strings::str_chars(arg);
    let mut pieces: Vec<String> = Vec::new();
    let mut cur: Vec<char> = Vec::new();
    let mut i: usize = 0;
    proof {
        assert(pieces.deep_view() =~= Seq::<Seq<char>>::empty());
        assert(cur@ =~= Seq::<char>::empty());
    }
    while i < chars.len()
        invariant
            0 <= i <= chars@.len(),
            chars@ == arg@,
            split_run(arg@, i as int, (SplitState { pieces: pieces.deep_view(), cur: cur@ }))
                == split_run(arg@, 0, (SplitState {
                    pieces: Seq::empty(),
                    cur: Seq::empty(),
                })),
        decreases chars@.len() - i,
    {
        let ghost pre = SplitState { pieces: pieces.deep_view(), cur: cur@ };
        let c = chars[i];
        if c == ' ' || c == '\t' || c == '\n' || c == '\r' || c == '\x0c' {
            if cur.len() > 0 {
                let ghost ppre = pieces.deep_view();
                let piece = crate::strings::chars_string(&cur);
                pieces.push(piece);
                cur.clear();
                proof {
                    assert(pieces.deep_view().len() == ppre.len() + 1);
                    assert(forall|t: int|
                        0 <= t < ppre.len() ==> #[trigger] pieces.deep_view()[t] == ppre[t]);
                    assert(pieces.deep_view()[ppre.len() as int] == pre.cur);
                    assert(pieces.deep_view() =~= ppre.push(pre.cur));
                }
            }
        } else {
            cur.push(c);
        }
        proof {
            let post = SplitState { pieces: pieces.deep_view(), cur: cur@ };
            assert(post == split_step(pre, arg@[i as int]));
        }
        i = i + 1;
    }
    if cur.len() > 0 {
        let ghost ppre = pieces.deep_view();
        let piece = crate::strings::chars_string(&cur);
        pieces.push(piece);
        proof {
            assert(pieces.deep_view().len() == ppre.len() + 1);
            assert(forall|t: int|
                0 <= t < ppre.len() ==> #[trigger] pieces.deep_view()[t] == ppre[t]);
            assert(pieces.deep_view() =~= split_ws_spec(arg@));
        }
    }
    pieces
}

} // verus!
