use vstd::prelude::*;
use crate::environment::ShellEnv;
use crate::sink::Sink;
use crate::text::{str_eq, token_views};

verus! {

/// The outcome of processing one command line: the session proceeds, or it
/// must terminate. No builtin reports anything else.
#[derive(Debug, PartialEq, Eq, Structural, Clone, Copy)]
pub enum ShellAction {
    Continue,
    Exit,
}

/// The in-process operations the interpreter offers.
#[derive(Debug, PartialEq, Eq, Structural, Clone, Copy)]
pub enum Builtin {
    Cd,
    Pwd,
    Echo,
    Exit,
    SetVar,
    UnsetVar,
    ShowEnv,
}

/// The fixed name-to-operation table of the Builtin Registry.
pub open spec fn registry_table() -> Seq<(Seq<char>, Builtin)> {
    seq![
        ("cd"@, Builtin::Cd),
        ("pwd"@, Builtin::Pwd),
        ("echo"@, Builtin::Echo),
        ("exit"@, Builtin::Exit),
        ("set"@, Builtin::SetVar),
        ("unset"@, Builtin::UnsetVar),
        ("env"@, Builtin::ShowEnv),
    ]
}

/// The builtin a command name resolves to, by exact, case-sensitive match.
pub open spec fn builtin_of(name: Seq<char>) -> Option<Builtin> {
    if name == "cd"@ {
        Some(Builtin::Cd)
    } else if name == "pwd"@ {
        Some(Builtin::Pwd)
    } else if name == "echo"@ {
        Some(Builtin::Echo)
    } else if name == "exit"@ {
        Some(Builtin::Exit)
    } else if name == "set"@ {
        Some(Builtin::SetVar)
    } else if name == "unset"@ {
        Some(Builtin::UnsetVar)
    } else if name == "env"@ {
        Some(Builtin::ShowEnv)
    } else {
        None
    }
}

proof fn lemma_registry_names_distinct()
    ensures
        "cd"@ != "pwd"@ && "cd"@ != "echo"@ && "cd"@ != "exit"@ && "cd"@ != "set"@ && "cd"@
            != "unset"@ && "cd"@ != "env"@,
        "pwd"@ != "echo"@ && "pwd"@ != "exit"@ && "pwd"@ != "set"@ && "pwd"@ != "unset"@ && "pwd"@
            != "env"@,
        "echo"@ != "exit"@ && "echo"@ != "set"@ && "echo"@ != "unset"@ && "echo"@ != "env"@,
        "exit"@ != "set"@ && "exit"@ != "unset"@ && "exit"@ != "env"@,
        "set"@ != "unset"@ && "set"@ != "env"@,
        "unset"@ != "env"@,
{
    reveal_strlit("cd");
    reveal_strlit("pwd");
    reveal_strlit("echo");
    reveal_strlit("exit");
    reveal_strlit("set");
    reveal_strlit("unset");
    reveal_strlit("env");
    assert(("cd"@).len() == 2);
    assert(("pwd"@).len() == 3);
    assert(("echo"@).len() == 4);
    assert(("exit"@).len() == 4);
    assert(("set"@).len() == 3);
    assert(("unset"@).len() == 5);
    assert(("env"@).len() == 3);
    assert(("echo"@)[1] == 'c');
    assert(("exit"@)[1] == 'x');
    assert(("pwd"@)[0] == 'p');
    assert(("set"@)[0] == 's');
    assert(("env"@)[0] == 'e');
}

proof fn lemma_builtin_of_table(i: int, name: Seq<char>)
    requires
        0 <= i < registry_table().len(),
        registry_table()[i].0 == name,
    ensures
        builtin_of(name) == Some(registry_table()[i].1),
{
    reveal_strlit("cd");
    reveal_strlit("pwd");
    reveal_strlit("echo");
    reveal_strlit("exit");
    reveal_strlit("set");
    reveal_strlit("unset");
    reveal_strlit("env");
    lemma_registry_names_distinct();
    if i == 0 {
        assert(registry_table()[0] == ("cd"@, Builtin::Cd));
    } else if i == 1 {
        assert(registry_table()[1] == ("pwd"@, Builtin::Pwd));
    } else if i == 2 {
        assert(registry_table()[2] == ("echo"@, Builtin::Echo));
    } else if i == 3 {
        assert(registry_table()[3] == ("exit"@, Builtin::Exit));
    } else if i == 4 {
        assert(registry_table()[4] == ("set"@, Builtin::SetVar));
    } else if i == 5 {
        assert(registry_table()[5] == ("unset"@, Builtin::UnsetVar));
    } else {
        assert(registry_table()[6] == ("env"@, Builtin::ShowEnv));
    }
}

proof fn lemma_builtin_of_none(name: Seq<char>)
    requires
        forall|i: int| 0 <= i < registry_table().len() ==> #[trigger] registry_table()[i].0 != name,
    ensures
        builtin_of(name) == None::<Builtin>,
{
    assert(registry_table()[0].0 == "cd"@);
    assert(registry_table()[1].0 == "pwd"@);
    assert(registry_table()[2].0 == "echo"@);
    assert(registry_table()[3].0 == "exit"@);
    assert(registry_table()[4].0 == "set"@);
    assert(registry_table()[5].0 == "unset"@);
    assert(registry_table()[6].0 == "env"@);
}

/// The Builtin Registry: the immutable mapping from command names to
/// builtin operations, built once per session.
pub struct BuiltinRegistry {
    names: Vec<(String, Builtin)>,
}

impl BuiltinRegistry {
    /// The stored table's character-level view.
    pub closed spec fn table(&self) -> Seq<(Seq<char>, Builtin)> {
        self.names@.map_values(|p: (String, Builtin)| (p.0@, p.1))
    }

    /// A well-formed registry holds exactly the fixed table.
    pub open spec fn wf(&self) -> bool {
        self.table() == registry_table()
    }

    /// Resolves a command name to its builtin, or to absence for any other
    /// name; lookup is by exact, case-sensitive match.
    pub fn lookup(&self, name: &str) -> (r: Option<Builtin>)
        requires
            self.wf(),
        ensures
            r == builtin_of(name@),
    {
        let n = self.names.len();
        proof {
            assert(self.table().len() == self.names@.len());
        }
        let mut i: usize = 0;
        while i < n
            invariant
                self.wf(),
                n == self.names.len(),
                n == registry_table().len(),
                i <= n,
                forall|j: int| 0 <= j < i ==> #[trigger] registry_table()[j].0 != name@,
            decreases n - i,
        {
            proof {
                assert(self.table()[i as int] == (self.names@[i as int].0@, self.names@[i as int].1));
            }
            if str_eq(self.names[i].0.as_str(), name) {
                proof {
                    lemma_builtin_of_table(i as int, name@);
                }
                return Some(self.names[i].1);
            }
            i += 1;
        }
        proof {
            lemma_builtin_of_none(name@);
        }
        None
    }
}

/// Builds the Builtin Registry.
pub fn builtins() -> (reg: BuiltinRegistry)
    ensures
        reg.wf(),
{
    let mut names: Vec<(String, Builtin)> = Vec::new();
    names.push(("cd".to_owned(), Builtin::Cd));
    names.push(("pwd".to_owned(), Builtin::Pwd));
    names.push(("echo".to_owned(), Builtin::Echo));
    names.push(("exit".to_owned(), Builtin::Exit));
    names.push(("set".to_owned(), Builtin::SetVar));
    names.push(("unset".to_owned(), Builtin::UnsetVar));
    names.push(("env".to_owned(), Builtin::ShowEnv));
    let reg = BuiltinRegistry { names };
    proof {
        assert(reg.table() =~= registry_table());
    }
    reg
}

/// The arguments joined by single spaces.
pub open spec fn join_spaces(ts: Seq<Seq<char>>) -> Seq<char>
    decreases ts.len(),
{
    if ts.len() == 0 {
        Seq::<char>::empty()
    } else if ts.len() == 1 {
        ts[0]
    } else {
        ts[0] + " "@ + join_spaces(ts.skip(1))
    }
}

proof fn lemma_join_spaces_push(ts: Seq<Seq<char>>, t: Seq<char>)
    ensures
        ts.len() == 0 ==> join_spaces(ts.push(t)) == t,
        ts.len() > 0 ==> join_spaces(ts.push(t)) == join_spaces(ts) + " "@ + t,
    decreases ts.len(),
{
    if ts.len() == 0 {
        assert(ts.push(t)[0] == t);
    } else {
        assert(ts.push(t)[0] == ts[0]);
        assert(ts.push(t).skip(1) =~= ts.skip(1).push(t));
        lemma_join_spaces_push(ts.skip(1), t);
        if ts.len() == 1 {
            assert(join_spaces(ts.push(t)) == ts[0] + " "@ + t);
        } else {
            assert(join_spaces(ts.push(t)) == ts[0] + " "@ + (join_spaces(ts.skip(1)) + " "@ + t));
            assert(ts[0] + " "@ + (join_spaces(ts.skip(1)) + " "@ + t)
                =~= (ts[0] + " "@ + join_spaces(ts.skip(1))) + " "@ + t);
        }
    }
}

/// `echo`: writes the arguments joined by single spaces to the output
/// sink, newline-terminated; an empty argument list gives an empty line.
pub fn builtin_echo(args: &Vec<String>, env: &mut ShellEnv, out: &mut Sink, err: &mut Sink) -> (r:
    ShellAction)
    ensures
        r == ShellAction::Continue,
        *final(env) == *old(env),
        *final(err) == *old(err),
        final(out)@ == old(out)@ + join_spaces(token_views(args@)) + "\n"@,
{
    let n = args.len();
    let mut i: usize = 0;
    while i < n
        invariant
            n == args.len(),
            i <= n,
            *env == *old(env),
            *err == *old(err),
            out@ == old(out)@ + join_spaces(token_views(args@).take(i as int)),
        decreases n - i,
    {
        let ghost pre = token_views(args@).take(i as int);
        if i > 0 {
            out.write_str(" ");
        }
        out.write_str(args[i].as_str());
        proof {
            assert(token_views(args@).take(i as int + 1) =~= pre.push(args@[i as int]@));
            lemma_join_spaces_push(pre, args@[i as int]@);
            if i > 0 {
                assert(old(out)@ + join_spaces(pre) + " "@ + args@[i as int]@
                    =~= old(out)@ + (join_spaces(pre) + " "@ + args@[i as int]@));
            } else {
                assert(join_spaces(pre).len() == 0);
                assert(old(out)@ + join_spaces(pre) + args@[i as int]@
                    =~= old(out)@ + args@[i as int]@);
                assert(old(out)@ + args@[i as int]@
                    =~= old(out)@ + join_spaces(token_views(args@).take(i as int + 1)));
            }
        }
        i += 1;
    }
    proof {
        assert(token_views(args@).take(n as int) =~= token_views(args@));
    }
    out.write_str("\n");
    ShellAction::Continue
}

/// `exit`: returns the Exit outcome; never inspects its arguments, writes
/// nothing, changes nothing.
pub fn builtin_exit(args: &Vec<String>, env: &mut ShellEnv, out: &mut Sink, err: &mut Sink) -> (r:
    ShellAction)
    ensures
        r == ShellAction::Exit,
        *final(env) == *old(env),
        *final(out) == *old(out),
        *final(err) == *old(err),
{
    ShellAction::Exit
}

/// `set`: with exactly two arguments, binds the first to the second;
/// otherwise writes the fixed usage line and takes no action.
pub fn builtin_set(args: &Vec<String>, env: &mut ShellEnv, out: &mut Sink, err: &mut Sink) -> (r:
    ShellAction)
    requires
        old(env).wf(),
    ensures
        r == ShellAction::Continue,
        final(env).wf(),
        *final(out) == *old(out),
        args@.len() == 2 ==> final(env)@ == old(env)@.insert(args@[0]@, args@[1]@) && *final(err)
            == *old(err),
        args@.len() != 2 ==> *final(env) == *old(env) && final(err)@ == old(err)@
            + "usage: set VAR VALUE"@ + "\n"@,
{
    if args.len() != 2 {
        err.write_line("usage: set VAR VALUE");
        return ShellAction::Continue;
    }
    env.set_var(args[0].as_str(), args[1].as_str());
    ShellAction::Continue
}

/// `unset`: with exactly one argument, removes its binding (a no-op if
/// absent); otherwise writes the fixed usage line and takes no action.
pub fn builtin_unset(args: &Vec<String>, env: &mut ShellEnv, out: &mut Sink, err: &mut Sink) -> (r:
    ShellAction)
    requires
        old(env).wf(),
    ensures
        r == ShellAction::Continue,
        final(env).wf(),
        *final(out) == *old(out),
        args@.len() == 1 ==> final(env)@ == old(env)@.remove(args@[0]@) && *final(err) == *old(
            err,
        ),
        args@.len() != 1 ==> *final(env) == *old(env) && final(err)@ == old(err)@
            + "usage: unset VAR"@ + "\n"@,
{
    if args.len() != 1 {
        err.write_line("usage: unset VAR");
        return ShellAction::Continue;
    }
    env.unset_var(args[0].as_str());
    ShellAction::Continue
}

/// One `name=value` line per binding, in the order given.
pub open spec fn env_render(ps: Seq<(Seq<char>, Seq<char>)>) -> Seq<char>
    decreases ps.len(),
{
    if ps.len() == 0 {
        Seq::<char>::empty()
    } else {
        ps[0].0 + "="@ + ps[0].1 + "\n"@ + env_render(ps.skip(1))
    }
}

/// `env`: writes every binding of the store to the output sink, one
/// `name=value` line each, in the store's iteration order.
pub fn builtin_env(args: &Vec<String>, env: &mut ShellEnv, out: &mut Sink, err: &mut Sink) -> (r:
    ShellAction)
    ensures
        r == ShellAction::Continue,
        *final(env) == *old(env),
        *final(err) == *old(err),
        final(out)@ == old(out)@ + env_render(old(env).entries_view()),
{
    let pairs = env.to_pairs();
    let ghost ps = env.entries_view();
    let n = pairs.len();
    proof {
        assert(ps.len() == pairs@.len());
        assert(ps.skip(0) =~= ps);
    }
    let mut i: usize = 0;
    while i < n
        invariant
            n == pairs.len(),
            i <= n,
            ps == crate::environment::pair_views(pairs@),
            ps.len() == n,
            *env == *old(env),
            *err == *old(err),
            old(out)@ + env_render(ps) == out@ + env_render(ps.skip(i as int)),
        decreases n - i,
    {
        proof {
            assert(ps[i as int] == (pairs@[i as int].0@, pairs@[i as int].1@));
            assert(ps.skip(i as int)[0] == ps[i as int]);
            assert(ps.skip(i as int).skip(1) =~= ps.skip(i as int + 1));
        }
        let ghost before = out@;
        out.write_str(pairs[i].0.as_str());
        out.write_str("=");
        out.write_str(pairs[i].1.as_str());
        out.write_str("\n");
        proof {
            assert(out@ =~= before + (ps[i as int].0 + "="@ + ps[i as int].1 + "\n"@));
            assert(before + (ps[i as int].0 + "="@ + ps[i as int].1 + "\n"@)
                + env_render(ps.skip(i as int + 1))
                =~= before + ((ps[i as int].0 + "="@ + ps[i as int].1 + "\n"@)
                + env_render(ps.skip(i as int + 1))));
        }
        i += 1;
    }
    proof {
        assert(ps.skip(n as int).len() == 0);
    }
    ShellAction::Continue
}

/// The variables `cd` reads and writes.
pub open spec fn cd_update(m: Map<Seq<char>, Seq<char>>, left: Seq<char>, entered: Seq<char>) -> Map<
    Seq<char>,
    Seq<char>,
> {
    m.insert("OLDPWD"@, left).insert("PWD"@, entered)
}

/// The directory `cd` moves to: with no argument the value of `HOME`, or
/// `/` when `HOME` is unset; for the argument `-` the value of `OLDPWD`,
/// or absence when `OLDPWD` is unset; otherwise the argument itself.
pub open spec fn cd_target_spec(args: Seq<Seq<char>>, m: Map<Seq<char>, Seq<char>>) -> Option<
    Seq<char>,
> {
    if args.len() == 0 {
        if m.contains_key("HOME"@) {
            Some(m["HOME"@])
        } else {
            Some("/"@)
        }
    } else if args[0] == "-"@ {
        if m.contains_key("OLDPWD"@) {
            Some(m["OLDPWD"@])
        } else {
            None
        }
    } else {
        Some(args[0])
    }
}

/// Chooses the directory `cd` should move to. Returns absence exactly when
/// the argument is `-` and `OLDPWD` is unset; then, and only then, the
/// fixed complaint goes to the error sink and `cd` does nothing else.
pub fn cd_target(args: &Vec<String>, env: &ShellEnv, err: &mut Sink) -> (r: Option<String>)
    requires
        env.wf(),
    ensures
        match r {
            Some(t) => cd_target_spec(token_views(args@), env@) == Some(t@) && *final(err) == *old(
                err,
            ),
            None => cd_target_spec(token_views(args@), env@) == None::<Seq<char>> && final(err)@
                == old(err)@ + "cd: OLDPWD not set"@ + "\n"@,
        },
{
    if args.len() == 0 {
        match env.get_var("HOME") {
            Some(v) => Some(v.clone()),
            None => Some("/".to_owned()),
        }
    } else {
        proof {
            assert(token_views(args@)[0] == args@[0]@);
        }
        if str_eq(args[0].as_str(), "-") {
            match env.get_var("OLDPWD") {
                Some(v) => Some(v.clone()),
                None => {
                    err.write_line("cd: OLDPWD not set");
                    None
                },
            }
        } else {
            Some(args[0].clone())
        }
    }
}

/// After a successful directory change, records the directory just left in
/// `OLDPWD` and the directory entered in `PWD`.
pub fn cd_record_success(env: &mut ShellEnv, left: &str, entered: &str)
    requires
        old(env).wf(),
    ensures
        final(env).wf(),
        final(env)@ == cd_update(old(env)@, left@, entered@),
{
    env.set_var("OLDPWD", left);
    env.set_var("PWD", entered);
}

/// On a failed directory change, surfaces the system error text, prefixed
/// with `cd: `, on the error sink; the store is left untouched (it is not
/// even passed in), so `OLDPWD` and `PWD` keep their old values.
pub fn cd_report_failure(err: &mut Sink, detail: &str)
    ensures
        final(err)@ == old(err)@ + "cd: "@ + detail@ + "\n"@,
{
    err.write_str("cd: ");
    err.write_line(detail);
}

/// `pwd`: writes the working directory, newline-terminated, to the output
/// sink; the driver obtains that directory from the operating system.
pub fn pwd_output(cwd: &str, out: &mut Sink) -> (r: ShellAction)
    ensures
        r == ShellAction::Continue,
        final(out)@ == old(out)@ + cwd@ + "\n"@,
{
    out.write_line(cwd);
    ShellAction::Continue
}

/// Law: after `cd` into `dir1` and then into `dir2`, `cd -` targets
/// `dir1`; after the move back into `dir1` that this causes, a second
/// `cd -` targets `dir2`. The toggle holds for any starting directory and
/// any prior store contents.
pub proof fn lemma_cd_dash_toggle(
    m: Map<Seq<char>, Seq<char>>,
    start: Seq<char>,
    dir1: Seq<char>,
    dir2: Seq<char>,
)
    ensures
        cd_target_spec(seq!["-"@], cd_update(cd_update(m, start, dir1), dir1, dir2)) == Some(dir1),
        cd_target_spec(
            seq!["-"@],
            cd_update(cd_update(cd_update(m, start, dir1), dir1, dir2), dir2, dir1),
        ) == Some(dir2),
{
    reveal_strlit("OLDPWD");
    reveal_strlit("PWD");
    assert(("OLDPWD"@).len() == 6);
    assert(("PWD"@).len() == 3);
}

} // verus!
