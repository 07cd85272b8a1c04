//! The closed set of tool runners, their alias tables, and the assembly of a
//! concrete subprocess invocation from a logical command.

use vstd::prelude::*;
use vstd::string::StringExecFns;
use crate::strings::str_eq;

verus! {

/// One concrete build/package tool integration.
#[derive(Debug, Clone, Copy, PartialEq, Eq, Structural)]
pub enum Runner {
    // javascript
    Npm,
    Yarn,
    Pnpm,
    Bun,
    Deno,

    // rust
    Xtask,
    Cargo,

    // other
    Makefile,
}

/// The language family a runner belongs to.
#[derive(Debug, Clone, Copy, PartialEq, Eq, Structural)]
pub enum Language {
    Javascript,
    Rust,
    Other,
}

/// How many runner variants exist; the registry's fixed arrays have one slot
/// per variant.
pub const NUMBER_OF_RUNNERS: usize = 8;

/// The stable slot index of each runner variant.
pub open spec fn index_spec(r: Runner) -> int {
    match r {
        Runner::Npm => 0,
        Runner::Yarn => 1,
        Runner::Pnpm => 2,
        Runner::Bun => 3,
        Runner::Deno => 4,
        Runner::Makefile => 5,
        Runner::Xtask => 6,
        Runner::Cargo => 7,
    }
}

/// The runner variant sitting at a slot index (the inverse of
/// [`index_spec`]); slots past the last variant answer the last one.
pub open spec fn runner_of_index(i: int) -> Runner {
    if i == 0 {
        Runner::Npm
    } else if i == 1 {
        Runner::Yarn
    } else if i == 2 {
        Runner::Pnpm
    } else if i == 3 {
        Runner::Bun
    } else if i == 4 {
        Runner::Deno
    } else if i == 5 {
        Runner::Makefile
    } else if i == 6 {
        Runner::Xtask
    } else {
        Runner::Cargo
    }
}

/// The language family of each runner variant.
pub open spec fn language_spec(r: Runner) -> Language {
    match r {
        Runner::Npm | Runner::Yarn | Runner::Pnpm | Runner::Bun | Runner::Deno => {
            Language::Javascript
        },
        Runner::Xtask | Runner::Cargo => Language::Rust,
        Runner::Makefile => Language::Other,
    }
}

/// The invocation name of each runner variant.
pub open spec fn name_spec(r: Runner) -> Seq<char> {
    match r {
        Runner::Npm => "npm"@,
        Runner::Yarn => "yarn"@,
        Runner::Pnpm => "pnpm"@,
        Runner::Bun => "bun"@,
        Runner::Deno => "deno"@,
        Runner::Cargo => "cargo"@,
        Runner::Xtask => "xtask"@,
        Runner::Makefile => "make"@,
    }
}

/// The global alias table: a short alias expands to its canonical command
/// name; anything else passes through unchanged.
pub open spec fn unalias_spec(c: Seq<char>) -> Seq<char> {
    if c == "a"@ {
        "add"@
    } else if c == "b"@ {
        "build"@
    } else if c == "d"@ {
        "dev"@
    } else if c == "f"@ {
        "format"@
    } else if c == "i"@ {
        "install"@
    } else if c == "l"@ {
        "lint"@
    } else if c == "p"@ {
        "preview"@
    } else if c == "s"@ {
        "start"@
    } else if c == "t"@ {
        "test"@
    } else if c == "u"@ {
        "update"@
    } else {
        c
    }
}

/// The Rust build tool's own override table, applied after the global alias
/// table and only for that one runner variant.
pub open spec fn cargo_unalias_spec(r: Runner, c: Seq<char>) -> Seq<char> {
    if r == Runner::Cargo {
        if c == "d"@ || c == "dev"@ {
            "run"@
        } else if c == "f"@ || c == "format"@ {
            "fmt"@
        } else if c == "l"@ || c == "lint"@ {
            "clippy"@
        } else {
            c
        }
    } else {
        c
    }
}

/// The package-management commands a JavaScript-family manager invokes
/// directly, without a run-subcommand prefix.
pub open spec fn is_js_special(c: Seq<char>) -> bool {
    c == "install"@ || c == "update"@ || c == "add"@ || c == "remove"@
}

/// The built-in default command set of each runner variant: command names
/// the runner supports even when no scripts were discovered.
pub open spec fn default_commands_spec(r: Runner) -> Seq<Seq<char>> {
    match r {
        Runner::Npm | Runner::Yarn | Runner::Pnpm | Runner::Bun | Runner::Deno => {
            seq!["add"@, "install"@, "remove"@, "update"@]
        },
        Runner::Cargo => {
            seq![
                "add"@,
                "bench"@,
                "build"@,
                "check"@,
                "dev"@,
                "doc"@,
                "format"@,
                "install"@,
                "lint"@,
                "run"@,
                "test"@,
                "update"@,
            ]
        },
        Runner::Xtask | Runner::Makefile => Seq::empty(),
    }
}

/// A fully assembled subprocess invocation, ready to be spawned: the
/// executable name, its argument vector in order, and whether the echo line
/// is suppressed.
pub struct Invocation {
    pub program: String,
    pub args: Vec<String>,
    pub quiet: bool,
}

/// The mathematical image of an [`Invocation`].
pub struct InvocationModel {
    pub program: Seq<char>,
    pub args: Seq<Seq<char>>,
    pub quiet: bool,
}

impl View for Invocation {
    type V = InvocationModel;

    open spec fn view(&self) -> InvocationModel {
        InvocationModel { program: self.program@, args: self.args.deep_view(), quiet: self.quiet }
    }
}

/// What `Runner::invocation` assembles: alias resolution, the runner's own
/// override, the run-subcommand or routing prefix, the resolved command, and
/// the caller-supplied extra arguments verbatim and in order.
pub open spec fn invocation_spec(
    r: Runner,
    cmd: Seq<char>,
    extra: Seq<Seq<char>>,
    quiet: bool,
) -> InvocationModel {
    let c = cargo_unalias_spec(r, unalias_spec(cmd));
    let program = if r == Runner::Xtask {
        "cargo"@
    } else {
        name_spec(r)
    };
    let prefix: Seq<Seq<char>> = if language_spec(r) == Language::Javascript {
        if is_js_special(c) {
            Seq::empty()
        } else if r == Runner::Deno {
            seq!["task"@]
        } else {
            seq!["run"@]
        }
    } else if r == Runner::Xtask {
        seq!["run"@, "--package"@, "xtask"@, "--"@]
    } else {
        Seq::empty()
    };
    InvocationModel { program, args: prefix + seq![c] + extra, quiet }
}

/// The arguments of an invocation, each preceded by one space.
pub open spec fn join_tail(args: Seq<Seq<char>>, i: int) -> Seq<char>
    decreases args.len() - i,
{
    if i < 0 || i >= args.len() {
        Seq::empty()
    } else {
        " "@ + args[i] + join_tail(args, i + 1)
    }
}

/// The transparency line echoed before an invocation runs.
pub open spec fn echo_line_spec(inv: InvocationModel) -> Seq<char> {
    "$ "@ + inv.program + join_tail(inv.args, 0)
}

impl Invocation {
    /// The transparency line for this invocation: the executable and its
    /// arguments, space-separated, after a `$ ` prompt.
    pub fn echo_line(&self) -> (r: String)
        ensures
            r@ == echo_line_spec(self@),
    {
        let mut buf: String = "$ ".to_owned();
        buf.append(self.program.as_str());
        let ghost av: Seq<Seq<char>> = self.args.deep_view();
        let mut k: usize = 0;
        while k < self.args.len()
            invariant
                0 <= k <= self.args@.len(),
                av == self.args.deep_view(),
                av.len() == self.args@.len(),
                buf@ + join_tail(av, k as int) == echo_line_spec(self@),
            decreases self.args@.len() - k,
        {
            let ghost pre = buf@;
            buf.append(" ");
            buf.append(self.args[k].as_str());
            proof {
                assert(av[k as int] == self.args@[k as int]@);
                assert(buf@ =~= pre + (" "@ + av[k as int]));
                assert(buf@ + join_tail(av, k as int + 1) =~= pre + join_tail(av, k as int));
            }
            k = k + 1;
        }
        proof {
            assert(join_tail(av, self.args@.len() as int) =~= Seq::empty());
            assert(buf@ =~= buf@ + Seq::<char>::empty());
        }
        buf
    }
}

impl Runner {
    /// The stable slot index of this runner variant.
    pub fn index(&self) -> (i: usize)
        ensures
            i == index_spec(*self),
            i < NUMBER_OF_RUNNERS,
    {
        match self {
            Runner::Npm => 0,
            Runner::Yarn => 1,
            Runner::Pnpm => 2,
            Runner::Bun => 3,
            Runner::Deno => 4,
            Runner::Makefile => 5,
            Runner::Xtask => 6,
            Runner::Cargo => 7,
        }
    }

    /// The runner variant of a slot index, if any.
    pub fn from_usize(value: usize) -> (r: Option<Runner>)
        ensures
            r matches Some(rr) ==> index_spec(rr) == value && rr == runner_of_index(value as int),
            r is Some <==> value < NUMBER_OF_RUNNERS,
    {
        match value {
            0 => Some(Runner::Npm),
            1 => Some(Runner::Yarn),
            2 => Some(Runner::Pnpm),
            3 => Some(Runner::Bun),
            4 => Some(Runner::Deno),
            5 => Some(Runner::Makefile),
            6 => Some(Runner::Xtask),
            7 => Some(Runner::Cargo),
            _ => None,
        }
    }

    /// The language family of this runner.
    pub fn language(&self) -> (l: Language)
        ensures
            l == language_spec(*self),
    {
        match self {
            Runner::Npm | Runner::Yarn | Runner::Pnpm | Runner::Bun | Runner::Deno => {
                Language::Javascript
            },
            Runner::Xtask | Runner::Cargo => Language::Rust,
            Runner::Makefile => Language::Other,
        }
    }

    /// The invocation name of this runner.
    pub fn name(&self) -> (n: &'static str)
        ensures
            n@ == name_spec(*self),
    {
        match self {
            Runner::Npm => "npm",
            Runner::Yarn => "yarn",
            Runner::Pnpm => "pnpm",
            Runner::Bun => "bun",
            Runner::Deno => "deno",
            Runner::Cargo => "cargo",
            Runner::Xtask => "xtask",
            Runner::Makefile => "make",
        }
    }

    /// Resolves a short alias to its canonical command name.
    pub fn unalias_command<'a>(command: &'a str) -> (r: &'a str)
        ensures
            r@ == unalias_spec(command@),
    {
        if str_eq(command, "a") {
            "add"
        } else if str_eq(command, "b") {
            "build"
        } else if str_eq(command, "d") {
            "dev"
        } else if str_eq(command, "f") {
            "format"
        } else if str_eq(command, "i") {
            "install"
        } else if str_eq(command, "l") {
            "lint"
        } else if str_eq(command, "p") {
            "preview"
        } else if str_eq(command, "s") {
            "start"
        } else if str_eq(command, "t") {
            "test"
        } else if str_eq(command, "u") {
            "update"
        } else {
            command
        }
    }

    /// Applies the Rust build tool's own override table; a no-op for every
    /// other runner.
    pub fn unalias_cargo<'a>(&self, command: &'a str) -> (r: &'a str)
        ensures
            r@ == cargo_unalias_spec(*self, command@),
    {
        if *self == Runner::Cargo {
            if str_eq(command, "d") || str_eq(command, "dev") {
                "run"
            } else if str_eq(command, "f") || str_eq(command, "format") {
                "fmt"
            } else if str_eq(command, "l") || str_eq(command, "lint") {
                "clippy"
            } else {
                command
            }
        } else {
            command
        }
    }

    /// Whether the resolved command is one a JavaScript-family manager
    /// invokes directly, without a run-subcommand.
    pub fn is_special_js_command(command: &str) -> (r: bool)
        ensures
            r == is_js_special(command@),
    {
        str_eq(command, "install") || str_eq(command, "update") || str_eq(command, "add")
            || str_eq(command, "remove")
    }

    /// The built-in default command set of this runner.
    pub fn default_commands(&self) -> (r: Vec<&'static str>)
        ensures
            r.deep_view() == default_commands_spec(*self),
    {
        let v: Vec<&'static str> = match self {
            Runner::Npm | Runner::Yarn | Runner::Pnpm | Runner::Bun | Runner::Deno => {
                vec!["add", "install", "remove", "update"]
            },
            Runner::Cargo => {
                vec![
                    "add",
                    "bench",
                    "build",
                    "check",
                    "dev",
                    "doc",
                    "format",
                    "install",
                    "lint",
                    "run",
                    "test",
                    "update",
                ]
            },
            Runner::Xtask | Runner::Makefile => Vec::new(),
        };
        proof {
            assert(v.deep_view() =~= default_commands_spec(*self));
        }
        v
    }

    /// Assembles the subprocess invocation for a logical command: resolves
    /// aliases, applies this runner's own override, picks the executable,
    /// prepends the family-specific prefix, then the command, then the extra
    /// arguments verbatim.
    pub fn invocation(&self, command: &str, extra: &Vec<String>, quiet: bool) -> (inv: Invocation)
        ensures
            inv@ == invocation_spec(*self, command@, extra.deep_view(), quiet),
    {
        let c1 = Runner::unalias_command(command);
        let c2 = self.unalias_cargo(c1);

        let program: String = if *self == Runner::Xtask {
            "cargo".to_owned()
        } else {
            self.name().to_owned()
        };

        let mut args: Vec<String> = Vec::new();
        match self.language() {
            Language::Javascript => {
                if !Runner::is_special_js_command(c2) {
                    if *self == Runner::Deno {
                        args.push("task".to_owned());
                    } else {
                        args.push("run".to_owned());
                    }
                }
            },
            _ => {
                if *self == Runner::Xtask {
                    args.push("run".to_owned());
                    args.push("--package".to_owned());
                    args.push("xtask".to_owned());
                    args.push("--".to_owned());
                }
            },
        }

        args.push(c2.to_owned());

        let mut k: usize = 0;
        let ghost args_before: Seq<Seq<char>> = args.deep_view();
        while k < extra.len()
            invariant
                0 <= k <= extra.len(),
                args.deep_view() == args_before + extra.deep_view().take(k as int),
            decreases extra.len() - k,
        {
            let ghost pre = args.deep_view();
            args.push(extra[k].clone());
            proof {
                assert(args.deep_view().len() == pre.len() + 1);
                assert(forall|i: int|
                    0 <= i < pre.len() ==> #[trigger] args.deep_view()[i] == pre[i]);
                assert(args.deep_view()[pre.len() as int] == extra.deep_view()[k as int]);
                assert(args.deep_view() =~= args_before + extra.deep_view().take(k as int + 1));
            }
            k = k + 1;
        }

        let inv = Invocation { program, args, quiet };
        proof {
            assert(extra.deep_view().take(extra.len() as int) =~= extra.deep_view());
            assert(inv@.args =~= invocation_spec(*self, command@, extra.deep_view(), quiet).args);
        }
        inv
    }
}

} // verus!
