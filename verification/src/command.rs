use vstd::prelude::*;
use vstd::string::StrSliceExecFns;
use crate::environment::ShellEnv;
use crate::text::token_views;

verus! {

/// The blank characters on which an input line is split.
pub open spec fn is_space_char(c: char) -> bool {
    c == ' ' || c == '\t' || c == '\n' || c == '\r'
}

fn is_space(c: char) -> (r: bool)
    ensures
        r == is_space_char(c),
{
    c == ' ' || c == '\t' || c == '\n' || c == '\r'
}

/// The tokens of `s` after `cur` and `acc`: `acc` holds the tokens already
/// complete, `cur` the characters of the token being read.
pub open spec fn tokens_acc(s: Seq<char>, cur: Seq<char>, acc: Seq<Seq<char>>) -> Seq<Seq<char>>
    decreases s.len(),
{
    if s.len() == 0 {
        if cur.len() == 0 {
            acc
        } else {
            acc.push(cur)
        }
    } else if is_space_char(s[0]) {
        if cur.len() == 0 {
            tokens_acc(s.skip(1), Seq::<char>::empty(), acc)
        } else {
            tokens_acc(s.skip(1), Seq::<char>::empty(), acc.push(cur))
        }
    } else {
        tokens_acc(s.skip(1), cur.push(s[0]), acc)
    }
}

/// The whitespace-delimited tokens of a line: the maximal runs of
/// non-blank characters, in order.
pub open spec fn spec_tokens(s: Seq<char>) -> Seq<Seq<char>> {
    tokens_acc(s, Seq::<char>::empty(), Seq::<Seq<char>>::empty())
}

proof fn lemma_skip_one(s: Seq<char>, i: int)
    requires
        0 <= i < s.len(),
    ensures
        s.skip(i).len() == s.len() - i,
        s.skip(i)[0] == s[i],
        s.skip(i).skip(1) == s.skip(i + 1),
{
    assert(s.skip(i).skip(1) =~= s.skip(i + 1));
}

/// Splits a line on runs of blank characters into its tokens.
pub fn tokenize(line: &str) -> (toks: Vec<String>)
    ensures
        token_views(toks@) == spec_tokens(line@),
{
    let n = line.unicode_len();
    let mut toks: Vec<String> = Vec::new();
    let mut i: usize = 0;
    proof {
        assert(line@.skip(0) =~= line@);
        assert(token_views(toks@) =~= Seq::<Seq<char>>::empty());
    }
    while i < n
        invariant
            n == line@.len(),
            i <= n,
            spec_tokens(line@) == tokens_acc(
                line@.skip(i as int),
                Seq::<char>::empty(),
                token_views(toks@),
            ),
        decreases n - i,
    {
        let c = line.get_char(i);
        if is_space(c) {
            proof {
                lemma_skip_one(line@, i as int);
            }
            i += 1;
        } else {
            let start = i;
            i += 1;
            proof {
                lemma_skip_one(line@, start as int);
                assert(line@.subrange(start as int, i as int)
                    =~= Seq::<char>::empty().push(line@[start as int]));
            }
            while i < n && !is_space(line.get_char(i))
                invariant
                    n == line@.len(),
                    start < i <= n,
                    !is_space_char(line@[start as int]),
                    spec_tokens(line@) == tokens_acc(
                        line@.skip(i as int),
                        line@.subrange(start as int, i as int),
                        token_views(toks@),
                    ),
                decreases n - i,
            {
                proof {
                    lemma_skip_one(line@, i as int);
                    assert(line@.subrange(start as int, i as int + 1)
                        =~= line@.subrange(start as int, i as int).push(line@[i as int]));
                }
                i += 1;
            }
            let word = line.substring_char(start, i).to_owned();
            let ghost pre_views = token_views(toks@);
            let ghost cur = line@.subrange(start as int, i as int);
            toks.push(word);
            proof {
                assert(token_views(toks@) =~= pre_views.push(cur));
                assert(cur.len() > 0);
                if i < n {
                    lemma_skip_one(line@, i as int);
                    assert(tokens_acc(line@.skip(i as int), cur, pre_views)
                        == tokens_acc(line@.skip(i as int + 1), Seq::<char>::empty(), pre_views.push(cur)));
                    assert(tokens_acc(line@.skip(i as int), Seq::<char>::empty(), pre_views.push(cur))
                        == tokens_acc(line@.skip(i as int + 1), Seq::<char>::empty(), pre_views.push(cur)));
                } else {
                    assert(line@.skip(i as int).len() == 0);
                }
            }
        }
    }
    proof {
        assert(line@.skip(i as int).len() == 0);
    }
    toks
}

/// What one raw token becomes: a token beginning with the `$` sigil whose
/// remainder names a bound variable becomes that variable's value; every
/// other token, a `$` token naming an unbound variable included, passes
/// through unchanged.
pub open spec fn spec_expand_token(t: Seq<char>, m: Map<Seq<char>, Seq<char>>) -> Seq<char> {
    if t.len() > 0 && t[0] == '$' && m.contains_key(t.skip(1)) {
        m[t.skip(1)]
    } else {
        t
    }
}

/// Tokenwise expansion of a whole argument list.
pub open spec fn spec_expand_tokens(ts: Seq<Seq<char>>, m: Map<Seq<char>, Seq<char>>) -> Seq<
    Seq<char>,
> {
    ts.map_values(|t: Seq<char>| spec_expand_token(t, m))
}

/// Rewrites one raw token against the store, as `spec_expand_token` says.
pub fn expand_token(tok: &String, env: &ShellEnv) -> (r: String)
    requires
        env.wf(),
    ensures
        r@ == spec_expand_token(tok@, env@),
{
    let n = tok.as_str().unicode_len();
    if n > 0 && tok.as_str().get_char(0) == '$' {
        let name = tok.as_str().substring_char(1, n);
        proof {
            assert(name@ =~= tok@.skip(1));
        }
        match env.get_var(name) {
            Some(v) => v.clone(),
            None => tok.clone(),
        }
    } else {
        tok.clone()
    }
}

/// Expands every raw argument once, producing a list of equal length;
/// expanded tokens are never re-expanded.
pub fn expand_args(args: &Vec<String>, env: &ShellEnv) -> (r: Vec<String>)
    requires
        env.wf(),
    ensures
        token_views(r@) == spec_expand_tokens(token_views(args@), env@),
{
    let n = args.len();
    let mut r: Vec<String> = Vec::new();
    let mut i: usize = 0;
    while i < n
        invariant
            env.wf(),
            n == args.len(),
            i <= n,
            r@.len() == i,
            forall|j: int| 0 <= j < i ==> r@[j]@ == spec_expand_token(args@[j]@, env@),
        decreases n - i,
    {
        let t = expand_token(&args[i], env);
        r.push(t);
        i += 1;
    }
    proof {
        assert(token_views(r@) =~= spec_expand_tokens(token_views(args@), env@));
    }
    r
}

/// True when a token begins with the `$` sigil.
pub open spec fn starts_with_sigil(t: Seq<char>) -> bool {
    t.len() > 0 && t[0] == '$'
}

/// Law: on a token sequence in which no token begins with the `$` sigil,
/// expansion is the identity, whatever the store holds.
pub proof fn lemma_expand_identity_without_sigil(ts: Seq<Seq<char>>, m: Map<Seq<char>, Seq<char>>)
    requires
        forall|i: int| 0 <= i < ts.len() ==> !starts_with_sigil(#[trigger] ts[i]),
    ensures
        spec_expand_tokens(ts, m) == ts,
{
    assert forall|i: int| 0 <= i < ts.len() implies spec_expand_tokens(ts, m)[i] == ts[i] by {
        assert(!starts_with_sigil(ts[i]));
    }
    assert(spec_expand_tokens(ts, m) =~= ts);
}

/// Law: expanding the token `$V` yields exactly the stored value of `V`
/// when `V` is bound, and exactly the token itself, sigil included, when
/// it is not.
pub proof fn lemma_expand_variable(name: Seq<char>, m: Map<Seq<char>, Seq<char>>)
    ensures
        m.contains_key(name) ==> spec_expand_token(seq!['$'] + name, m) == m[name],
        !m.contains_key(name) ==> spec_expand_token(seq!['$'] + name, m) == seq!['$'] + name,
{
    let t = seq!['$'] + name;
    assert(t[0] == '$');
    assert(t.skip(1) =~= name);
}

} // verus!
