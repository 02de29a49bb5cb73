use vstd::prelude::*;
use crate::text::str_eq;

verus! {

/// The session's mutable mapping of shell variable names to values,
/// independent of the real process environment (though the driver may seed
/// it from there). Represented as an association list whose keys are
/// pairwise distinct; its mathematical model is the map obtained by
/// inserting the bindings in order.
pub struct ShellEnv {
    entries: Vec<(String, String)>,
}

/// The character-level views of a sequence of owned bindings.
pub open spec fn pair_views(s: Seq<(String, String)>) -> Seq<(Seq<char>, Seq<char>)> {
    s.map_values(|p: (String, String)| (p.0@, p.1@))
}

/// The name-to-value map described by a sequence of bindings; a later
/// binding for the same name wins.
pub open spec fn bindings_map(ps: Seq<(Seq<char>, Seq<char>)>) -> Map<Seq<char>, Seq<char>>
    decreases ps.len(),
{
    if ps.len() == 0 {
        Map::empty()
    } else {
        bindings_map(ps.drop_last()).insert(ps.last().0, ps.last().1)
    }
}

/// No variable name occurs twice.
pub open spec fn distinct_keys(ps: Seq<(Seq<char>, Seq<char>)>) -> bool {
    forall|i: int, j: int| 0 <= i < j < ps.len() ==> ps[i].0 != ps[j].0
}

/// A name is bound in the map exactly when some entry carries it.
pub proof fn lemma_bindings_map_contains(ps: Seq<(Seq<char>, Seq<char>)>, k: Seq<char>)
    ensures
        bindings_map(ps).contains_key(k) <==> (exists|i: int| 0 <= i < ps.len() && ps[i].0 == k),
    decreases ps.len(),
{
    if ps.len() == 0 {
    } else {
        lemma_bindings_map_contains(ps.drop_last(), k);
        if ps.last().0 == k {
            assert(ps[ps.len() - 1].0 == k);
        } else {
            if bindings_map(ps).contains_key(k) {
                let i = choose|i: int| 0 <= i < ps.drop_last().len() && ps.drop_last()[i].0 == k;
                assert(ps[i].0 == k);
            }
            if exists|i: int| 0 <= i < ps.len() && ps[i].0 == k {
                let i = choose|i: int| 0 <= i < ps.len() && ps[i].0 == k;
                assert(ps.drop_last()[i].0 == k);
            }
        }
    }
}

/// Distinctness carries over to the list without its last entry.
pub proof fn lemma_distinct_prefix(ps: Seq<(Seq<char>, Seq<char>)>)
    requires
        distinct_keys(ps),
        ps.len() > 0,
    ensures
        distinct_keys(ps.drop_last()),
{
    assert forall|i: int, j: int|
        0 <= i < j < ps.drop_last().len() implies ps.drop_last()[i].0 != ps.drop_last()[j].0 by {
        assert(ps.drop_last()[i] == ps[i]);
        assert(ps.drop_last()[j] == ps[j]);
    }
}

/// With distinct keys, the entry carrying a name gives that name's value.
pub proof fn lemma_bindings_map_value(ps: Seq<(Seq<char>, Seq<char>)>, k: Seq<char>, i: int)
    requires
        distinct_keys(ps),
        0 <= i < ps.len(),
        ps[i].0 == k,
    ensures
        bindings_map(ps).contains_key(k),
        bindings_map(ps)[k] == ps[i].1,
    decreases ps.len(),
{
    if i == ps.len() - 1 {
    } else {
        assert(ps.last().0 != k);
        assert(ps.drop_last()[i] == ps[i]);
        lemma_distinct_prefix(ps);
        lemma_bindings_map_value(ps.drop_last(), k, i);
    }
}

/// Appending a binding inserts it into the map.
pub proof fn lemma_bindings_map_push(ps: Seq<(Seq<char>, Seq<char>)>, p: (Seq<char>, Seq<char>))
    ensures
        bindings_map(ps.push(p)) == bindings_map(ps).insert(p.0, p.1),
{
    assert(ps.push(p).drop_last() =~= ps);
    assert(ps.push(p).last() == p);
}

/// Removing the entry that carries a name removes the name from the map.
pub proof fn lemma_bindings_map_remove(ps: Seq<(Seq<char>, Seq<char>)>, k: Seq<char>, i: int)
    requires
        distinct_keys(ps),
        0 <= i < ps.len(),
        ps[i].0 == k,
    ensures
        bindings_map(ps.remove(i)) == bindings_map(ps).remove(k),
    decreases ps.len(),
{
    lemma_bindings_map_contains(ps.drop_last(), k);
    if i == ps.len() - 1 {
        assert(ps.remove(i) =~= ps.drop_last());
        assert(!bindings_map(ps.drop_last()).contains_key(k)) by {
            if exists|j: int| 0 <= j < ps.drop_last().len() && ps.drop_last()[j].0 == k {
                let j = choose|j: int| 0 <= j < ps.drop_last().len() && ps.drop_last()[j].0 == k;
                assert(ps[j].0 == k);
            }
        }
        assert(bindings_map(ps.drop_last())
            =~= bindings_map(ps.drop_last()).insert(k, ps.last().1).remove(k));
    } else {
        let q = ps.remove(i);
        assert(q.drop_last() =~= ps.drop_last().remove(i));
        assert(q.last() == ps[ps.len() - 1]);
        lemma_distinct_prefix(ps);
        lemma_bindings_map_remove(ps.drop_last(), k, i);
        assert(ps.last().0 != k);
        assert(bindings_map(ps.drop_last()).remove(k).insert(ps.last().0, ps.last().1)
            =~= bindings_map(ps.drop_last()).insert(ps.last().0, ps.last().1).remove(k));
    }
}

impl View for ShellEnv {
    type V = Map<Seq<char>, Seq<char>>;

    open spec fn view(&self) -> Map<Seq<char>, Seq<char>> {
        bindings_map(self.entries_view())
    }
}

impl ShellEnv {
    /// The stored bindings, in the store's own iteration order. Nothing may
    /// be assumed of this order beyond what `wf` and the view give.
    pub closed spec fn entries_view(&self) -> Seq<(Seq<char>, Seq<char>)> {
        pair_views(self.entries@)
    }

    /// Well-formedness: no variable name occurs twice.
    pub open spec fn wf(&self) -> bool {
        distinct_keys(self.entries_view())
    }

    /// Constructs a store with no bindings, for isolated sessions and tests.
    pub fn empty() -> (env: ShellEnv)
        ensures
            env.wf(),
            env@ == Map::<Seq<char>, Seq<char>>::empty(),
            env.entries_view() == Seq::<(Seq<char>, Seq<char>)>::empty(),
    {
        let env = ShellEnv { entries: Vec::new() };
        proof {
            assert(env.entries_view() =~= Seq::<(Seq<char>, Seq<char>)>::empty());
        }
        env
    }

    /// Returns the current value of a variable, or absence; never fails.
    pub fn get_var(&self, key: &str) -> (r: Option<&String>)
        requires
            self.wf(),
        ensures
            match r {
                Some(v) => self@.contains_key(key@) && v@ == self@[key@],
                None => !self@.contains_key(key@),
            },
    {
        let n = self.entries.len();
        let mut i: usize = 0;
        while i < n
            invariant
                n == self.entries.len(),
                i <= n,
                self.wf(),
                forall|j: int| 0 <= j < i ==> self.entries_view()[j].0 != key@,
            decreases n - i,
        {
            assert(self.entries_view()[i as int] == (self.entries@[i as int].0@, self.entries@[i as int].1@));
            if str_eq(self.entries[i].0.as_str(), key) {
                proof {
                    lemma_bindings_map_value(self.entries_view(), key@, i as int);
                }
                return Some(&self.entries[i].1);
            }
            i += 1;
        }
        proof {
            lemma_bindings_map_contains(self.entries_view(), key@);
        }
        None
    }

    /// Removes the binding for a name if present; a no-op if absent.
    pub fn unset_var(&mut self, key: &str)
        requires
            old(self).wf(),
        ensures
            final(self).wf(),
            final(self)@ == old(self)@.remove(key@),
    {
        let n = self.entries.len();
        let mut i: usize = 0;
        while i < n
            invariant
                *self == *old(self),
                n == self.entries.len(),
                i <= n,
                self.wf(),
                forall|j: int| 0 <= j < i ==> self.entries_view()[j].0 != key@,
            decreases n - i,
        {
            assert(self.entries_view()[i as int] == (self.entries@[i as int].0@, self.entries@[i as int].1@));
            if str_eq(self.entries[i].0.as_str(), key) {
                proof {
                    lemma_bindings_map_remove(self.entries_view(), key@, i as int);
                }
                let ghost old_views = self.entries_view();
                self.entries.remove(i);
                proof {
                    assert(self.entries_view() =~= old_views.remove(i as int));
                    assert forall|a: int, b: int|
                        0 <= a < b < self.entries_view().len()
                        implies self.entries_view()[a].0 != self.entries_view()[b].0 by {
                        old_views.remove_ensures(i as int);
                    }
                }
                return;
            }
            i += 1;
        }
        proof {
            lemma_bindings_map_contains(self.entries_view(), key@);
            assert(self@ =~= self@.remove(key@));
        }
    }

    /// Inserts or overwrites a binding; always succeeds.
    pub fn set_var(&mut self, key: &str, value: &str)
        requires
            old(self).wf(),
        ensures
            final(self).wf(),
            final(self)@ == old(self)@.insert(key@, value@),
    {
        self.unset_var(key);
        let ghost mid_views = self.entries_view();
        let ghost mid_map = self@;
        proof {
            lemma_bindings_map_contains(mid_views, key@);
        }
        self.entries.push((key.to_owned(), value.to_owned()));
        proof {
            assert(self.entries_view() =~= mid_views.push((key@, value@)));
            lemma_bindings_map_push(mid_views, (key@, value@));
            assert(self@ =~= old(self)@.insert(key@, value@));
            assert forall|a: int, b: int|
                0 <= a < b < self.entries_view().len()
                implies self.entries_view()[a].0 != self.entries_view()[b].0 by {
                if b == self.entries_view().len() - 1 {
                    assert(self.entries_view()[a] == mid_views[a]);
                }
            }
        }
    }

    /// A copy of every binding, in the store's iteration order; the driver
    /// hands this to a child process as its entire environment.
    pub fn to_pairs(&self) -> (r: Vec<(String, String)>)
        ensures
            pair_views(r@) == self.entries_view(),
    {
        let n = self.entries.len();
        let mut r: Vec<(String, String)> = Vec::new();
        let mut i: usize = 0;
        while i < n
            invariant
                n == self.entries.len(),
                i <= n,
                r@ == self.entries@.subrange(0, i as int),
            decreases n - i,
        {
            let p = (self.entries[i].0.clone(), self.entries[i].1.clone());
            r.push(p);
            proof {
                assert(r@ =~= self.entries@.subrange(0, i as int + 1));
            }
            i += 1;
        }
        proof {
            assert(r@ =~= self.entries@);
        }
        r
    }
}

/// Law: setting a variable and then reading it yields the value just set,
/// and unsetting it afterwards yields absence, for any name.
pub proof fn lemma_set_then_get(m: Map<Seq<char>, Seq<char>>, k: Seq<char>, v: Seq<char>)
    ensures
        m.insert(k, v).contains_key(k),
        m.insert(k, v)[k] == v,
        !m.insert(k, v).remove(k).contains_key(k),
{
}

} // verus!
