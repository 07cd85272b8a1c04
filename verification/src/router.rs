//! The argument router: a small state machine over the flat token stream.
//! Flags before the first command are global; flags and sub-argument bundles
//! after a command accumulate for it; a new command token dispatches the
//! pending one; the end of the stream flushes the last command, or falls
//! back to the default `dev` action when no command was seen. A failed
//! dispatch halts the router: nothing is dispatched after it.
//!
//! The caller feeds tokens one at a time, performs each returned action
//! (printing, or spawning a dispatched invocation), and reports each
//! dispatch's exit status back before feeding the next token.

use vstd::prelude::*;
use crate::args::{classify_spec, split_into_subargs, split_ws_spec, ArgType};
use crate::registry::{RegistryModel, ScriptMap};
use crate::runners::{invocation_spec, unalias_spec, Invocation, InvocationModel, Runner};
use crate::strings::str_eq;

verus! {

/// What the router asks its caller to do after one event.
pub enum Action {
    Nothing,
    ShowVersion,
    ShowHelp,
    ShowList,
    ShowListAll,
    InvalidFlag,
    Dispatch(Invocation),
    ExitSuccess,
    ExitFailure,
}

/// The mathematical image of an [`Action`].
pub enum ActionModel {
    Nothing,
    ShowVersion,
    ShowHelp,
    ShowList,
    ShowListAll,
    InvalidFlag,
    Dispatch(InvocationModel),
    ExitSuccess,
    ExitFailure,
}

impl View for Action {
    type V = ActionModel;

    open spec fn view(&self) -> ActionModel {
        match self {
            Action::Nothing => ActionModel::Nothing,
            Action::ShowVersion => ActionModel::ShowVersion,
            Action::ShowHelp => ActionModel::ShowHelp,
            Action::ShowList => ActionModel::ShowList,
            Action::ShowListAll => ActionModel::ShowListAll,
            Action::InvalidFlag => ActionModel::InvalidFlag,
            Action::Dispatch(inv) => ActionModel::Dispatch(inv@),
            Action::ExitSuccess => ActionModel::ExitSuccess,
            Action::ExitFailure => ActionModel::ExitFailure,
        }
    }
}

/// The router's state.
pub struct Router {
    pending: Option<String>,
    subargs: Vec<String>,
    quiet: bool,
    halted: bool,
}

/// The mathematical image of a [`Router`].
pub struct RouterModel {
    pub pending: Option<Seq<char>>,
    pub subargs: Seq<Seq<char>>,
    pub quiet: bool,
    pub halted: bool,
}

impl View for Router {
    type V = RouterModel;

    closed spec fn view(&self) -> RouterModel {
        RouterModel {
            pending: match self.pending {
                Some(ref p) => Some(p@),
                None => None,
            },
            subargs: self.subargs.deep_view(),
            quiet: self.quiet,
            halted: self.halted,
        }
    }
}

/// The router's initial state.
pub open spec fn router_init() -> RouterModel {
    RouterModel { pending: None, subargs: Seq::empty(), quiet: false, halted: false }
}

/// What a global flag does: the display flags only request output, the quiet
/// flag toggles state, and anything else is reported as invalid.
pub open spec fn global_flag_spec(r: RouterModel, t: Seq<char>) -> (RouterModel, ActionModel) {
    if t == "--version"@ || t == "-V"@ {
        (r, ActionModel::ShowVersion)
    } else if t == "--help"@ || t == "-h"@ {
        (r, ActionModel::ShowHelp)
    } else if t == "--list"@ || t == "-l"@ {
        (r, ActionModel::ShowList)
    } else if t == "--list-all"@ || t == "-L"@ {
        (r, ActionModel::ShowListAll)
    } else if t == "--quiet"@ || t == "-q"@ {
        (RouterModel { pending: r.pending, subargs: r.subargs, quiet: true, halted: r.halted },
        ActionModel::Nothing)
    } else {
        (r, ActionModel::InvalidFlag)
    }
}

/// Dispatching the pending command, if there is one and the registry
/// resolves it: everything accumulated becomes its extra arguments and the
/// accumulator is cleared; an unresolvable command is skipped silently and
/// the accumulator kept.
pub open spec fn flush_spec(r: RouterModel, reg: RegistryModel) -> (RouterModel, ActionModel) {
    match r.pending {
        Some(prev) => {
            let key = unalias_spec(prev);
            if reg.dict.contains_key(key) {
                (
                    RouterModel {
                        pending: r.pending,
                        subargs: Seq::empty(),
                        quiet: r.quiet,
                        halted: r.halted,
                    },
                    ActionModel::Dispatch(
                        invocation_spec(reg.dict[key].runner, prev, r.subargs, r.quiet),
                    ),
                )
            } else {
                (r, ActionModel::Nothing)
            }
        },
        None => (r, ActionModel::Nothing),
    }
}

/// What one token does to the router.
pub open spec fn on_token_spec(r: RouterModel, t: Seq<char>, reg: RegistryModel) -> (
    RouterModel,
    ActionModel,
) {
    if r.halted {
        (r, ActionModel::Nothing)
    } else {
        match classify_spec(t) {
            ArgType::Subargs => (
                RouterModel {
                    pending: r.pending,
                    subargs: r.subargs + split_ws_spec(t),
                    quiet: r.quiet,
                    halted: r.halted,
                },
                ActionModel::Nothing,
            ),
            ArgType::Flag => {
                if r.pending is None {
                    global_flag_spec(r, t)
                } else {
                    (
                        RouterModel {
                            pending: r.pending,
                            subargs: r.subargs.push(t),
                            quiet: r.quiet,
                            halted: r.halted,
                        },
                        ActionModel::Nothing,
                    )
                }
            },
            ArgType::Command => {
                let flushed = flush_spec(r, reg);
                (
                    RouterModel {
                        pending: Some(t),
                        subargs: flushed.0.subargs,
                        quiet: flushed.0.quiet,
                        halted: flushed.0.halted,
                    },
                    flushed.1,
                )
            },
        }
    }
}

/// What a dispatched command's exit status does to the router: failure halts
/// it for good.
pub open spec fn on_status_spec(r: RouterModel, success: bool) -> (RouterModel, ActionModel) {
    if success {
        (r, ActionModel::Nothing)
    } else {
        (
            RouterModel { pending: r.pending, subargs: r.subargs, quiet: r.quiet, halted: true },
            ActionModel::ExitFailure,
        )
    }
}

/// What the end of the token stream does: the pending command (if any) is
/// flushed; with no command seen at all, the canonical `dev` command is
/// dispatched with no extra arguments, when some runner can handle it.
pub open spec fn finish_spec(r: RouterModel, reg: RegistryModel) -> (RouterModel, ActionModel) {
    if r.halted {
        (r, ActionModel::Nothing)
    } else {
        match r.pending {
            Some(prev) => {
                let flushed = flush_spec(r, reg);
                (
                    RouterModel {
                        pending: None,
                        subargs: flushed.0.subargs,
                        quiet: flushed.0.quiet,
                        halted: flushed.0.halted,
                    },
                    flushed.1,
                )
            },
            None => {
                let key = unalias_spec("dev"@);
                if reg.dict.contains_key(key) {
                    (
                        r,
                        ActionModel::Dispatch(
                            invocation_spec(
                                reg.dict[key].runner,
                                "dev"@,
                                Seq::empty(),
                                r.quiet,
                            ),
                        ),
                    )
                } else {
                    (r, ActionModel::ExitSuccess)
                }
            },
        }
    }
}

impl Router {
    /// A fresh router: nothing pending, nothing accumulated, not quiet.
    pub fn new() -> (r: Router)
        ensures
            r@ == router_init(),
    {
        let r = Router { pending: None, subargs: Vec::new(), quiet: false, halted: false };
        proof {
            assert(r@.subargs =~= Seq::<Seq<char>>::empty());
        }
        r
    }

    fn flush(&mut self, map: &ScriptMap) -> (act: Action)
        requires
            map.wf(),
        ensures
            final(self)@ == flush_spec(old(self)@, map@).0,
            act@ == flush_spec(old(self)@, map@).1,
    {
        let pending_name: Option<String> = match &self.pending {
            Some(p) => Some(p.clone()),
            None => None,
        };
        match pending_name {
            Some(prev) => {
                match map.find_runner(prev.as_str()) {
                    Some(runner) => {
                        let inv = runner.invocation(prev.as_str(), &self.subargs, self.quiet);
                        self.subargs.clear();
                        proof {
                            assert(self.subargs.deep_view() =~= Seq::<Seq<char>>::empty());
                        }
                        Action::Dispatch(inv)
                    },
                    None => Action::Nothing,
                }
            },
            None => Action::Nothing,
        }
    }

    /// Feeds one raw token to the router.
    pub fn on_token(&mut self, token: &str, map: &ScriptMap) -> (act: Action)
        requires
            map.wf(),
        ensures
            final(self)@ == on_token_spec(old(self)@, token@, map@).0,
            act@ == on_token_spec(old(self)@, token@, map@).1,
            old(self)@.halted ==> final(self)@ == old(self)@ && !(act@ is Dispatch),
    {
        if self.halted {
            return Action::Nothing;
        }
        match ArgType::of_token(token) {
            ArgType::Subargs => {
                let mut pieces = split_into_subargs(token);
                let ghost pre = self.subargs.deep_view();
                let ghost pv = pieces.deep_view();
                self.subargs.append(&mut pieces);
                proof {
                    assert(self.subargs.deep_view().len() == pre.len() + pv.len());
                    assert(forall|i: int|
                        0 <= i < pre.len() ==> #[trigger] self.subargs.deep_view()[i] == pre[i]);
                    assert(forall|i: int| pre.len() <= i < pre.len() + pv.len()
                        ==> #[trigger] self.subargs.deep_view()[i] == pv[i - pre.len()]);
                    assert(self.subargs.deep_view() =~= pre + split_ws_spec(token@));
                }
                Action::Nothing
            },
            ArgType::Flag => {
                if self.pending.is_none() {
                    if str_eq(token, "--version") || str_eq(token, "-V") {
                        Action::ShowVersion
                    } else if str_eq(token, "--help") || str_eq(token, "-h") {
                        Action::ShowHelp
                    } else if str_eq(token, "--list") || str_eq(token, "-l") {
                        Action::ShowList
                    } else if str_eq(token, "--list-all") || str_eq(token, "-L") {
                        Action::ShowListAll
                    } else if str_eq(token, "--quiet") || str_eq(token, "-q") {
                        self.quiet = true;
                        Action::Nothing
                    } else {
                        Action::InvalidFlag
                    }
                } else {
                    let ghost pre = self.subargs.deep_view();
                    self.subargs.push(token.to_owned());
                    proof {
                        assert(self.subargs.deep_view().len() == pre.len() + 1);
                        assert(forall|i: int|
                            0 <= i < pre.len() ==> #[trigger] self.subargs.deep_view()[i]
                                == pre[i]);
                        assert(self.subargs.deep_view()[pre.len() as int] == token@);
                        assert(self.subargs.deep_view() =~= pre.push(token@));
                    }
                    Action::Nothing
                }
            },
            ArgType::Command => {
                let act = self.flush(map);
                self.pending = Some(token.to_owned());
                act
            },
        }
    }

    /// Reports the exit status of the last dispatched invocation.
    pub fn on_status(&mut self, success: bool) -> (act: Action)
        ensures
            final(self)@ == on_status_spec(old(self)@, success).0,
            act@ == on_status_spec(old(self)@, success).1,
            !success ==> final(self)@.halted && act@ is ExitFailure,
            success ==> final(self)@ == old(self)@ && act@ is Nothing,
    {
        if success {
            Action::Nothing
        } else {
            self.halted = true;
            Action::ExitFailure
        }
    }

    /// Ends the token stream: flushes the pending command, or falls back to
    /// the default `dev` action.
    pub fn finish(&mut self, map: &ScriptMap) -> (act: Action)
        requires
            map.wf(),
        ensures
            final(self)@ == finish_spec(old(self)@, map@).0,
            act@ == finish_spec(old(self)@, map@).1,
            old(self)@.halted ==> !(act@ is Dispatch),
    {
        if self.halted {
            return Action::Nothing;
        }
        if self.pending.is_some() {
            let act = self.flush(map);
            self.pending = None;
            act
        } else {
            match map.find_runner("dev") {
                Some(runner) => {
                    let no_args: Vec<String> = Vec::new();
                    proof {
                        assert(no_args.deep_view() =~= Seq::<Seq<char>>::empty());
                    }
                    Action::Dispatch(runner.invocation("dev", &no_args, self.quiet))
                },
                None => Action::ExitSuccess,
            }
        }
    }
}

/// Law: a failed dispatch halts the router, and a halted router neither
/// changes state nor dispatches anything again — a non-zero exit from one
/// chained command keeps every later command from being dispatched.
pub proof fn lemma_fail_fast(r: RouterModel, t: Seq<char>, reg: RegistryModel)
    ensures
        on_status_spec(r, false).0.halted,
        r.halted ==> on_token_spec(r, t, reg).0 == r,
        r.halted ==> !(on_token_spec(r, t, reg).1 is Dispatch),
        r.halted ==> !(finish_spec(r, reg).1 is Dispatch),
        !(on_token_spec(on_status_spec(r, false).0, t, reg).1 is Dispatch),
{
}

} // verus!
