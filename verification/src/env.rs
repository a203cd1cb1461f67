//! Environment changes for a child process.

use vstd::prelude::*;

verus! {

/// The value of an [`Env`]: whether the inherited environment is cleared
/// first, and per variable either the value it is set to or `None` when it is
/// removed.
pub struct EnvView {
    pub clear: bool,
    pub vars: Map<Seq<char>, Option<Seq<char>>>,
}

/// The changes after setting the variable.
pub open spec fn env_set(e: EnvView, key: Seq<char>, value: Seq<char>) -> EnvView {
    EnvView { vars: e.vars.insert(key, Some(value)), ..e }
}

/// The changes after removing the variable: after a clear it is just dropped
/// from the changes, otherwise it is marked for removal.
pub open spec fn env_remove(e: EnvView, key: Seq<char>) -> EnvView {
    EnvView {
        vars: if e.clear {
            e.vars.remove(key)
        } else {
            e.vars.insert(key, None)
        },
        ..e
    }
}

/// The changes after a clear.
pub open spec fn env_clear() -> EnvView {
    EnvView { clear: true, vars: Map::empty() }
}

pub open spec fn value_view(v: Option<String>) -> Option<Seq<char>> {
    match v {
        Option::Some(s) => Option::Some(s@),
        Option::None => Option::None,
    }
}

/// The map that a list of distinct entries stands for.
pub open spec fn vars_map(s: Seq<(String, Option<String>)>) -> Map<Seq<char>, Option<Seq<char>>>
    decreases s.len(),
{
    if s.len() == 0 {
        Map::empty()
    } else {
        vars_map(s.drop_last()).insert(s.last().0@, value_view(s.last().1))
    }
}

/// No variable occurs twice.
pub open spec fn keys_distinct(s: Seq<(String, Option<String>)>) -> bool {
    forall|i: int, j: int| 0 <= i < j < s.len() ==> s[i].0@ != s[j].0@
}

/// What a list of distinct entries maps each variable to.
pub proof fn lemma_vars_map(s: Seq<(String, Option<String>)>)
    requires
        keys_distinct(s),
    ensures
        forall|k: Seq<char>|
            #![trigger vars_map(s).dom().contains(k)]
            vars_map(s).dom().contains(k) <==> exists|i: int| 0 <= i < s.len() && s[i].0@ == k,
        forall|i: int| 0 <= i < s.len() ==> #[trigger] vars_map(s)[s[i].0@] == value_view(s[i].1),
    decreases s.len(),
{
    if s.len() > 0 {
        let p = s.drop_last();
        assert(keys_distinct(p));
        lemma_vars_map(p);
        assert forall|k: Seq<char>|
            #![trigger vars_map(s).dom().contains(k)]
            vars_map(s).dom().contains(k) <==> exists|i: int| 0 <= i < s.len() && s[i].0@ == k by {
            if vars_map(s).dom().contains(k) && k != s.last().0@ {
                let i = choose|i: int| 0 <= i < p.len() && p[i].0@ == k;
                assert(s[i].0@ == k);
            }
            if exists|i: int| 0 <= i < s.len() && s[i].0@ == k {
                let i = choose|i: int| 0 <= i < s.len() && s[i].0@ == k;
                if i < s.len() - 1 {
                    assert(p[i].0@ == k);
                }
            }
        }
        assert forall|i: int| 0 <= i < s.len() implies #[trigger] vars_map(s)[s[i].0@] == value_view(
            s[i].1,
        ) by {
            if i < s.len() - 1 {
                assert(p[i] == s[i]);
            }
        }
    }
}

/// Environment changes: an optional clear, then variables set or removed.
#[derive(Debug)]
pub struct Env {
    clear: bool,
    vars: Vec<(String, Option<String>)>,
}

impl View for Env {
    type V = EnvView;

    closed spec fn view(&self) -> EnvView {
        EnvView { clear: self.clear, vars: vars_map(self.vars@) }
    }
}

impl Clone for Env {
    /// A copy with the same changes.
    fn clone(&self) -> (r: Self)
        ensures
            r@ == self@,
    {
        let mut vars: Vec<(String, Option<String>)> = Vec::new();
        let mut i: usize = 0;
        while i < self.vars.len()
            invariant
                i <= self.vars@.len(),
                vars@ == self.vars@.take(i as int),
            decreases self.vars@.len() - i,
        {
            let k = self.vars[i].0.clone();
            let v = match &self.vars[i].1 {
                Some(x) => Some(x.clone()),
                None => None,
            };
            vars.push((k, v));
            assert(vars@ =~= self.vars@.take(i + 1));
            i += 1;
        }
        assert(self.vars@.take(i as int) =~= self.vars@);
        proof {
            use_type_invariant(self);
        }
        Env { clear: self.clear, vars }
    }
}

impl Env {
    /// No variable has two entries.
    #[verifier::type_invariant]
    spec fn distinct_keys(&self) -> bool {
        keys_distinct(self.vars@)
    }

    /// No changes.
    pub fn new() -> (r: Env)
        ensures
            r@ == (EnvView { clear: false, vars: Map::empty() }),
    {
        Env { clear: false, vars: Vec::new() }
    }

    /// The position of the variable's entry, if it has one.
    fn find(&self, key: &str) -> (r: Option<usize>)
        ensures
            match r {
                Option::Some(i) => i < self.vars@.len() && self.vars@[i as int].0@ == key@,
                Option::None => forall|i: int|
                    0 <= i < self.vars@.len() ==> self.vars@[i].0@ != key@,
            },
    {
        let k = key.to_owned();
        let mut i: usize = 0;
        while i < self.vars.len()
            invariant
                k@ == key@,
                i <= self.vars@.len(),
                forall|j: int| 0 <= j < i ==> self.vars@[j].0@ != key@,
            decreases self.vars@.len() - i,
        {
            if self.vars[i].0 == k {
                return Some(i);
            }
            i += 1;
        }
        None
    }

    /// Sets the variable to the value.
    pub fn set(&mut self, key: &str, value: &str)
        ensures
            final(self)@ == env_set(old(self)@, key@, value@),
    {
        self.put(key, Some(value.to_owned()));
    }

    /// Sets the variable's entry.
    fn put(&mut self, key: &str, value: Option<String>)
        ensures
            final(self).clear == old(self).clear,
            final(self)@.vars == old(self)@.vars.insert(key@, value_view(value)),
    {
        proof {
            use_type_invariant(&*self);
        }
        let ghost old_vars = self.vars@;
        let ghost v = value_view(value);
        proof {
            lemma_vars_map(old_vars);
        }
        let found = self.find(key);
        let mut vars: Vec<(String, Option<String>)> = Vec::new();
        std::mem::swap(&mut vars, &mut self.vars);
        assert(vars@ == old_vars);
        match found {
            Some(i) => {
                vars.set(i, (key.to_owned(), value));
                self.vars = vars;
                proof {
                    let s = self.vars@;
                    assert(keys_distinct(s));
                    lemma_vars_map(s);
                    assert(vars_map(s) =~= vars_map(old_vars).insert(key@, v)) by {
                        assert forall|k: Seq<char>| #[trigger]
                            vars_map(s).dom().contains(k) == vars_map(old_vars).insert(
                                key@,
                                v,
                            ).dom().contains(k) by {
                            if exists|j: int| 0 <= j < s.len() && s[j].0@ == k {
                                let j = choose|j: int| 0 <= j < s.len() && s[j].0@ == k;
                                if j != i {
                                    assert(old_vars[j].0@ == k);
                                }
                            }
                            if exists|j: int| 0 <= j < old_vars.len() && old_vars[j].0@ == k {
                                let j = choose|j: int| 0 <= j < old_vars.len() && old_vars[j].0@ == k;
                                assert(s[j].0@ == k);
                            }
                        }
                        assert forall|k: Seq<char>| #[trigger]
                            vars_map(s).dom().contains(k) implies vars_map(s)[k] == vars_map(
                            old_vars,
                        ).insert(key@, v)[k] by {
                            let j = choose|j: int| 0 <= j < s.len() && s[j].0@ == k;
                            assert(vars_map(s)[s[j].0@] == value_view(s[j].1));
                            if j != i {
                                assert(old_vars[j] == s[j]);
                                assert(vars_map(old_vars)[old_vars[j].0@] == value_view(old_vars[j].1));
                            }
                        }
                    }
                }
            },
            None => {
                vars.push((key.to_owned(), value));
                self.vars = vars;
                proof {
                    let s = self.vars@;
                    assert(s.drop_last() =~= old_vars);
                    assert(keys_distinct(s));
                }
            },
        }
    }

    /// Removes the variable: after a clear it is just dropped from the
    /// changes, otherwise it is marked for removal.
    pub fn remove(&mut self, key: &str)
        ensures
            final(self)@ == env_remove(old(self)@, key@),
    {
        if self.clear {
            self.drop_key(key);
        } else {
            self.put(key, None);
        }
    }

    /// Drops the variable's entry.
    fn drop_key(&mut self, key: &str)
        ensures
            final(self).clear == old(self).clear,
            final(self)@.vars == old(self)@.vars.remove(key@),
    {
        proof {
            use_type_invariant(&*self);
        }
        let ghost old_vars = self.vars@;
        proof {
            lemma_vars_map(old_vars);
        }
        let found = self.find(key);
        match found {
            Some(i) => {
                let mut vars: Vec<(String, Option<String>)> = Vec::new();
                std::mem::swap(&mut vars, &mut self.vars);
                assert(vars@ == old_vars);
                vars.remove(i);
                self.vars = vars;
                proof {
                    let s = self.vars@;
                    assert(forall|j: int| 0 <= j < s.len() ==> #[trigger] s[j] == old_vars[if j < i { j } else { j + 1 }]);
                    assert(keys_distinct(s));
                    lemma_vars_map(s);
                    assert(vars_map(s) =~= vars_map(old_vars).remove(key@)) by {
                        assert forall|k: Seq<char>| #[trigger]
                            vars_map(s).dom().contains(k) == vars_map(old_vars).remove(
                                key@,
                            ).dom().contains(k) by {
                            if exists|j: int| 0 <= j < s.len() && s[j].0@ == k {
                                let j = choose|j: int| 0 <= j < s.len() && s[j].0@ == k;
                                let oj = if j < i { j } else { j + 1 };
                                assert(old_vars[oj].0@ == k);
                            }
                            if k != key@ && exists|j: int| 0 <= j < old_vars.len() && old_vars[j].0@ == k {
                                let j = choose|j: int| 0 <= j < old_vars.len() && old_vars[j].0@ == k;
                                assert(j != i);
                                let sj = if j < i { j } else { j - 1 };
                                assert(s[sj].0@ == k);
                            }
                        }
                        assert forall|k: Seq<char>| #[trigger]
                            vars_map(s).dom().contains(k) implies vars_map(s)[k] == vars_map(
                            old_vars,
                        ).remove(key@)[k] by {
                            let j = choose|j: int| 0 <= j < s.len() && s[j].0@ == k;
                            assert(vars_map(s)[s[j].0@] == value_view(s[j].1));
                            let oj = if j < i { j } else { j + 1 };
                            assert(old_vars[oj] == s[j]);
                            assert(vars_map(old_vars)[old_vars[oj].0@] == value_view(old_vars[oj].1));
                        }
                    }
                }
            },
            None => {
                proof {
                    assert(vars_map(old_vars) =~= vars_map(old_vars).remove(key@));
                }
            },
        }
    }

    /// Clears the inherited environment and all changes so far.
    pub fn clear(&mut self)
        ensures
            final(self)@ == env_clear(),
    {
        self.vars = Vec::new();
        self.clear = true;
    }

    /// Whether the inherited environment is cleared first.
    pub fn is_cleared(&self) -> (r: bool)
        ensures
            r == self@.clear,
    {
        self.clear
    }

    /// The changes, one entry per variable: `Some` sets it, `None` removes it.
    pub fn vars(&self) -> (r: &Vec<(String, Option<String>)>)
        ensures
            keys_distinct(r@),
            vars_map(r@) == self@.vars,
    {
        proof {
            use_type_invariant(self);
        }
        &self.vars
    }
}

} // verus!
