use vstd::prelude::*;
use crate::builtins::{builtin_of, Builtin, BuiltinRegistry};
use crate::command::{expand_args, spec_expand_tokens, spec_tokens, tokenize};
use crate::environment::ShellEnv;
use crate::text::token_views;

verus! {

/// Where one command line goes: to a builtin operation, or to the external
/// executor. Either way it carries the already-expanded arguments.
#[derive(Debug)]
pub enum CommandRoute {
    RunBuiltin(Builtin, Vec<String>),
    RunExternal(String, Vec<String>),
}

/// What resolving a line must produce. A line with no tokens resolves to
/// nothing; otherwise the first token picks a builtin when the registry
/// knows it, and names an external program when it does not — an
/// unrecognized name never reaches any builtin. The remaining tokens,
/// expanded once against the store, travel along either way.
pub open spec fn route_spec(
    r: Option<CommandRoute>,
    ts: Seq<Seq<char>>,
    m: Map<Seq<char>, Seq<char>>,
) -> bool {
    if ts.len() == 0 {
        r is None
    } else {
        match r {
            Some(CommandRoute::RunBuiltin(b, args)) => builtin_of(ts[0]) == Some(b) && token_views(
                args@,
            ) == spec_expand_tokens(ts.skip(1), m),
            Some(CommandRoute::RunExternal(name, args)) => builtin_of(ts[0]) == None::<Builtin>
                && name@ == ts[0] && token_views(args@) == spec_expand_tokens(ts.skip(1), m),
            None => false,
        }
    }
}

/// Resolves one input line: splits it on whitespace, expands the argument
/// tokens against the store, and routes by the first token.
pub fn resolve_line(line: &str, env: &ShellEnv, reg: &BuiltinRegistry) -> (r: Option<CommandRoute>)
    requires
        env.wf(),
        reg.wf(),
    ensures
        route_spec(r, spec_tokens(line@), env@),
{
    let toks = tokenize(line);
    let n = toks.len();
    if n == 0 {
        return None;
    }
    let ghost ts = spec_tokens(line@);
    proof {
        assert(ts.len() == toks@.len());
        assert(ts[0] == toks@[0]@);
    }
    let name = toks[0].clone();
    let mut raw: Vec<String> = Vec::new();
    let mut i: usize = 1;
    while i < n
        invariant
            n == toks.len(),
            1 <= i <= n,
            ts == token_views(toks@),
            raw@.len() == i - 1,
            forall|j: int| 0 <= j < i - 1 ==> raw@[j]@ == toks@[j + 1]@,
        decreases n - i,
    {
        raw.push(toks[i].clone());
        i += 1;
    }
    proof {
        assert(token_views(raw@) =~= ts.skip(1));
    }
    let expanded = expand_args(&raw, env);
    match reg.lookup(name.as_str()) {
        Some(b) => Some(CommandRoute::RunBuiltin(b, expanded)),
        None => Some(CommandRoute::RunExternal(name, expanded)),
    }
}

} // verus!
