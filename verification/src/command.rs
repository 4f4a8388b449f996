//! Turning the user's command specification into a spawnable process
//! definition.
//!
//! Two policies exist. The direct policy runs the first token as the
//! executable and passes the remaining tokens as discrete arguments, with no
//! shell interpretation. The shell-delegation policy joins all tokens with
//! single spaces — performing no escaping — and hands the result to the
//! platform command interpreter as a single argument.

use vstd::prelude::*;

verus! {

/// How the user's command tokens become a process to spawn.
#[derive(Clone, Copy, PartialEq, Eq, Structural, Debug)]
pub enum CommandPolicy {
    /// First token is the executable, the rest are its arguments, verbatim.
    Direct,
    /// All tokens joined with spaces and run through the platform shell.
    ShellDelegated,
}

/// The user's command specification, immutable after startup.
pub struct CommandSpec {
    pub policy: CommandPolicy,
    pub tokens: Vec<String>,
}

/// A spawnable process definition: the program to run and its argument list.
/// The child is expected to inherit the parent's standard output and error.
#[derive(Debug)]
pub struct ProcessDefinition {
    pub program: String,
    pub args: Vec<String>,
}

/// Why a command specification could not be turned into a definition.
#[derive(Clone, Copy, PartialEq, Eq, Structural, Debug)]
pub enum CommandError {
    /// The direct policy needs at least one token to name the executable.
    EmptyCommand,
}

/// The tokens joined with single spaces, with no escaping: arguments that
/// themselves contain spaces are not round-tripped safely, by design.
pub open spec fn joined_tokens(toks: Seq<Seq<char>>) -> Seq<char>
    decreases toks.len(),
{
    if toks.len() == 0 {
        Seq::<char>::empty()
    } else if toks.len() == 1 {
        toks[0]
    } else {
        toks[0] + seq![' '] + joined_tokens(toks.skip(1))
    }
}

proof fn lemma_joined_tokens_push(toks: Seq<Seq<char>>, x: Seq<char>)
    ensures
        joined_tokens(toks.push(x)) == (if toks.len() == 0 {
            x
        } else {
            joined_tokens(toks) + seq![' '] + x
        }),
    decreases toks.len(),
{
    if toks.len() == 0 {
        assert(toks.push(x)[0] == x);
    } else if toks.len() == 1 {
        assert(toks.push(x)[0] == toks[0]);
        assert(toks.push(x).skip(1) =~= seq![x]);
        assert(joined_tokens(seq![x]) == x);
        assert(joined_tokens(toks.push(x)) =~= joined_tokens(toks) + seq![' '] + x);
    } else {
        assert(toks.push(x)[0] == toks[0]);
        assert(toks.push(x).skip(1) =~= toks.skip(1).push(x));
        lemma_joined_tokens_push(toks.skip(1), x);
        assert(joined_tokens(toks.push(x)) =~= joined_tokens(toks) + seq![' '] + x);
    }
}

/// Join the tokens with single spaces, exactly as the shell-delegation
/// policy hands them to the interpreter.
pub fn join_tokens(tokens: &Vec<String>) -> (r: String)
    ensures
        r@ == joined_tokens(tokens.deep_view()),
{
    let ghost toks: Seq<Seq<char>> = tokens.deep_view();
    let mut r = String::new();
    let n = tokens.len();
    let mut i: usize = 0;
    proof {
        assert(toks.take(0) =~= Seq::<Seq<char>>::empty());
    }
    while i < n
        invariant
            i <= n,
            n == tokens@.len(),
            toks == tokens.deep_view(),
            toks.len() == n,
            r@ == joined_tokens(toks.take(i as int)),
        decreases n - i,
    {
        if i > 0 {
            r.append(" ");
            proof {
                reveal_strlit(" ");
                assert(" "@ =~= seq![' ']);
            }
        }
        r.append(tokens[i].as_str());
        proof {
            assert(toks[i as int] == tokens@[i as int]@);
            lemma_joined_tokens_push(toks.take(i as int), toks[i as int]);
            assert(toks.take(i as int + 1) =~= toks.take(i as int).push(toks[i as int]));
            assert(r@ =~= joined_tokens(toks.take(i as int + 1)));
        }
        i += 1;
    }
    proof {
        assert(toks.take(n as int) =~= toks);
    }
    r
}

/// Turn a command specification into a spawnable definition.
///
/// The direct policy fails exactly when no token was given; the
/// shell-delegation policy always succeeds, running `sh -c` (or the platform
/// command processor with `/C` on Windows) on the space-joined tokens.
pub fn build_process_definition(command: &CommandSpec, windows: bool) -> (r: Result<
    ProcessDefinition,
    CommandError,
>)
    ensures
        ({
            let toks = command.tokens.deep_view();
            match r {
                Ok(d) => {
                    &&& (command.policy == CommandPolicy::Direct ==> toks.len() > 0 && d.program@
                        == toks[0] && d.args.deep_view() == toks.skip(1))
                    &&& (command.policy == CommandPolicy::ShellDelegated ==> d.program@ == (
                    if windows {
                        "cmd"@
                    } else {
                        "sh"@
                    }) && d.args.deep_view() == seq![
                        (if windows {
                            "/C"@
                        } else {
                            "-c"@
                        }),
                        joined_tokens(toks),
                    ])
                },
                Err(e) => {
                    &&& e == CommandError::EmptyCommand
                    &&& command.policy == CommandPolicy::Direct
                    &&& toks.len() == 0
                },
            }
        }),
{
    match command.policy {
        CommandPolicy::Direct => {
            let n = command.tokens.len();
            if n == 0 {
                return Err(CommandError::EmptyCommand);
            }
            let program = command.tokens[0].clone();
            let mut args: Vec<String> = Vec::new();
            let mut i: usize = 1;
            while i < n
                invariant
                    1 <= i <= n,
                    n == command.tokens@.len(),
                    args@.len() == i - 1,
                    forall|k: int| 0 <= k < i - 1 ==> args@[k]@ == command.tokens@[k + 1]@,
                decreases n - i,
            {
                let tok = command.tokens[i].clone();
                proof {
                    assert(tok@ == command.tokens@[i as int]@);
                }
                args.push(tok);
                i += 1;
            }
            proof {
                assert(args.deep_view() =~= command.tokens.deep_view().skip(1));
            }
            Ok(ProcessDefinition { program, args })
        },
        CommandPolicy::ShellDelegated => {
            let joined = join_tokens(&command.tokens);
            let program = if windows {
                String::from_str("cmd")
            } else {
                String::from_str("sh")
            };
            let flag = if windows {
                String::from_str("/C")
            } else {
                String::from_str("-c")
            };
            let ghost flag_view: Seq<char> = flag@;
            let ghost joined_view: Seq<char> = joined@;
            let mut args: Vec<String> = Vec::new();
            args.push(flag);
            args.push(joined);
            proof {
                assert(args.deep_view() =~= seq![flag_view, joined_view]);
            }
            Ok(ProcessDefinition { program, args })
        },
    }
}

} // verus!
