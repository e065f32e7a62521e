use vstd::prelude::*;
use vstd::string::StringExecFns;

use crate::command_line::{arg_words, Argument, CppCompiler};
use crate::pipeline::RunError;

verus! {

/// A process to spawn: the program and its arguments.
#[derive(Debug)]
pub struct Invocation {
    pub program: String,
    pub args: Vec<String>,
}

/// The texts of a sequence of strings.
pub open spec fn words(v: Seq<String>) -> Seq<Seq<char>> {
    v.map_values(|s: String| s@)
}

impl View for Invocation {
    type V = (Seq<char>, Seq<Seq<char>>);

    open spec fn view(&self) -> Self::V {
        (self.program@, words(self.args@))
    }
}

/// The text of an optional string.
pub open spec fn opt_text(o: Option<String>) -> Option<Seq<char>> {
    match o {
        Some(s) => Some(s@),
        None => None,
    }
}

/// The process that runs a compiler on some arguments: the driver itself,
/// or, for a shell-wrapped compiler, the developer shell chained with `&&`
/// to the driver. A shell-wrapped compiler without a known shell has none.
pub open spec fn invocation_spec(
    compiler: CppCompiler,
    dev_shell: Option<Seq<char>>,
    args: Seq<Seq<char>>,
) -> Option<(Seq<char>, Seq<Seq<char>>)> {
    if compiler.shell_wrapped() {
        match dev_shell {
            Some(shell) => Some((shell, seq!["&&"@, compiler.driver_spec()] + args)),
            None => None,
        }
    } else {
        Some((compiler.driver_spec(), args))
    }
}

/// Appends the texts of `args` to `out`.
fn push_words(out: &mut Vec<String>, args: &Vec<Argument>)
    ensures
        words(final(out)@) == words(old(out)@) + arg_words(args@),
{
    let ghost start = out@;
    let mut i: usize = 0;
    while i < args.len()
        invariant
            i <= args@.len(),
            out@.len() == start.len() + i,
            forall|k: int| 0 <= k < start.len() ==> #[trigger] out@[k] == start[k],
            forall|k: int| 0 <= k < i ==> #[trigger] out@[start.len() + k]@ == args@[k].value@,
        decreases args@.len() - i,
    {
        out.push(args[i].value.clone());
        i = i + 1;
    }
    assert(words(out@) =~= words(start) + arg_words(args@)) by {
        assert forall|k: int| 0 <= k < out@.len() implies words(out@)[k] == (words(start)
            + arg_words(args@))[k] by {
            if k >= start.len() {
                assert(out@[start.len() + (k - start.len())]@ == args@[k - start.len()].value@);
            }
        }
    }
}

/// Resolves the process that runs `compiler` on `args`. A shell-wrapped
/// compiler needs the developer shell found by an earlier detection; without
/// it nothing can be run.
pub fn resolve_invocation(
    compiler: CppCompiler,
    dev_shell: &Option<String>,
    args: &Vec<Argument>,
) -> (r: Result<Invocation, RunError>)
    ensures
        match r {
            Ok(inv) => invocation_spec(compiler, opt_text(*dev_shell), arg_words(args@)) == Some(
                inv@,
            ),
            Err(e) => invocation_spec(compiler, opt_text(*dev_shell), arg_words(args@)) is None
                && e == RunError::MissingDevShell,
        },
{
    let driver = compiler.get_driver();
    if compiler.is_shell_wrapped() {
        match dev_shell {
            Some(shell) => {
                proof {
                    reveal_strlit("&&");
                }
                let mut out: Vec<String> = Vec::new();
                out.push(String::from_str("&&"));
                out.push(String::from_str(driver));
                let ghost prefix = out@;
                assert(words(prefix) =~= seq!["&&"@, compiler.driver_spec()]);
                push_words(&mut out, args);
                Ok(Invocation { program: shell.clone(), args: out })
            },
            None => Err(RunError::MissingDevShell),
        }
    } else {
        let mut out: Vec<String> = Vec::new();
        assert(words(out@) =~= Seq::<Seq<char>>::empty());
        push_words(&mut out, args);
        assert(words(out@) =~= arg_words(args@));
        Ok(Invocation { program: String::from_str(driver), args: out })
    }
}

} // verus!
