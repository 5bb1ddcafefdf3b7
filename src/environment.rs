//! The environment as a value: a map from variable names to values.
use vstd::prelude::*;
use crate::dotenv::{assignment_views, dotenv_assignments, parse_dotenv, Assignment};

verus! {

/// `env` after the assignments `a`, one after another: the last one to a key wins.
pub open spec fn apply_assignments(env: Map<Seq<char>, Seq<char>>, a: Seq<(Seq<char>, Seq<char>)>) -> Map<
    Seq<char>,
    Seq<char>,
>
    decreases a.len(),
{
    if a.len() == 0 {
        env
    } else {
        apply_assignments(env, a.drop_last()).insert(a.last().0, a.last().1)
    }
}

/// The value that the last of the assignments `a` to `key` gives it, if any does.
pub open spec fn last_value(a: Seq<(Seq<char>, Seq<char>)>, key: Seq<char>) -> Option<Seq<char>>
    decreases a.len(),
{
    if a.len() == 0 {
        None
    } else if a.last().0 == key {
        Some(a.last().1)
    } else {
        last_value(a.drop_last(), key)
    }
}

/// `env` after loading a dotenv text.
pub open spec fn load_env(env: Map<Seq<char>, Seq<char>>, content: Seq<char>) -> Map<Seq<char>, Seq<char>> {
    apply_assignments(env, dotenv_assignments(content))
}

/// No two of the assignments `a` are to the same key.
pub open spec fn keys_unique(a: Seq<(Seq<char>, Seq<char>)>) -> bool {
    forall|i: int, j: int| 0 <= i < j < a.len() ==> a[i].0 != a[j].0
}

/// After the assignments `a`, a key holds the last value assigned to it, or
/// else what it held before.
pub proof fn lemma_apply_at(env: Map<Seq<char>, Seq<char>>, a: Seq<(Seq<char>, Seq<char>)>, key: Seq<char>)
    ensures
        match last_value(a, key) {
            Some(v) => apply_assignments(env, a).contains_pair(key, v),
            None => {
                &&& apply_assignments(env, a).contains_key(key) == env.contains_key(key)
                &&& env.contains_key(key) ==> apply_assignments(env, a)[key] == env[key]
            },
        },
    decreases a.len(),
{
    if a.len() > 0 {
        lemma_apply_at(env, a.drop_last(), key);
    }
}

proof fn lemma_last_value_unique(a: Seq<(Seq<char>, Seq<char>)>, key: Seq<char>)
    requires
        keys_unique(a),
    ensures
        forall|i: int| 0 <= i < a.len() && a[i].0 == key ==> last_value(a, key) == Some(a[i].1),
        (forall|i: int| 0 <= i < a.len() ==> a[i].0 != key) ==> last_value(a, key) is None,
    decreases a.len(),
{
    if a.len() > 0 {
        let p = a.drop_last();
        assert(keys_unique(p));
        lemma_last_value_unique(p, key);
        assert forall|i: int| 0 <= i < a.len() && a[i].0 == key implies last_value(a, key) == Some(
            a[i].1,
        ) by {
            if i < a.len() - 1 {
                assert(p[i] == a[i]);
            }
        }
        if forall|i: int| 0 <= i < a.len() ==> a[i].0 != key {
            assert(a[a.len() - 1].0 != key);
            assert forall|i: int| 0 <= i < p.len() implies p[i].0 != key by {
                assert(p[i] == a[i]);
            }
        }
    }
}

/// Two sequences of assignments with the same last value for every key give
/// the same environment.
proof fn lemma_apply_same_last(
    env: Map<Seq<char>, Seq<char>>,
    a: Seq<(Seq<char>, Seq<char>)>,
    b: Seq<(Seq<char>, Seq<char>)>,
)
    requires
        forall|k: Seq<char>| last_value(a, k) == last_value(b, k),
    ensures
        apply_assignments(env, a) == apply_assignments(env, b),
{
    assert forall|k: Seq<char>| #[trigger] apply_assignments(env, a).contains_key(k)
        == apply_assignments(env, b).contains_key(k) && (apply_assignments(env, a).contains_key(k)
        ==> apply_assignments(env, a)[k] == apply_assignments(env, b)[k]) by {
        lemma_apply_at(env, a, k);
        lemma_apply_at(env, b, k);
    }
    assert(apply_assignments(env, a) =~= apply_assignments(env, b));
}

proof fn lemma_unique_len(a: Seq<(Seq<char>, Seq<char>)>)
    requires
        keys_unique(a),
    ensures
        apply_assignments(Map::empty(), a).dom().finite(),
        apply_assignments(Map::empty(), a).len() == a.len(),
    decreases a.len(),
{
    if a.len() > 0 {
        let p = a.drop_last();
        assert(keys_unique(p));
        lemma_unique_len(p);
        lemma_last_value_unique(p, a.last().0);
        assert forall|i: int| 0 <= i < p.len() implies p[i].0 != a.last().0 by {
            assert(p[i] == a[i]);
        }
        lemma_apply_at(Map::empty(), p, a.last().0);
    }
}

/// Loading the same dotenv text twice leaves the same environment as loading
/// it once.
pub proof fn lemma_load_twice(env: Map<Seq<char>, Seq<char>>, content: Seq<char>)
    ensures
        load_env(load_env(env, content), content) == load_env(env, content),
{
    let a = dotenv_assignments(content);
    let once = apply_assignments(env, a);
    assert forall|k: Seq<char>| #[trigger] apply_assignments(once, a).contains_key(k)
        == once.contains_key(k) && (once.contains_key(k) ==> apply_assignments(once, a)[k]
        == once[k]) by {
        lemma_apply_at(env, a, k);
        lemma_apply_at(once, a, k);
    }
    assert(apply_assignments(once, a) =~= once);
}

/// Of two dotenv texts loaded one after the other, the later one decides the
/// value of a key that it assigns.
pub proof fn lemma_later_file_wins(
    env: Map<Seq<char>, Seq<char>>,
    first: Seq<char>,
    second: Seq<char>,
    key: Seq<char>,
    value: Seq<char>,
)
    requires
        last_value(dotenv_assignments(second), key) == Some(value),
    ensures
        load_env(load_env(env, first), second).contains_pair(key, value),
{
    lemma_apply_at(load_env(env, first), dotenv_assignments(second), key);
}

/// Loading a dotenv text into a cleared environment leaves exactly the keys
/// that the text assigns, each with the last value it gives it: nothing that
/// was set before survives.
pub proof fn lemma_clear_then_load(content: Seq<char>, key: Seq<char>, value: Seq<char>)
    requires
        last_value(dotenv_assignments(content), key) == Some(value),
    ensures
        load_env(Map::empty(), content).contains_pair(key, value),
        forall|k: Seq<char>| #[trigger]
            load_env(Map::empty(), content).contains_key(k) <==> last_value(
                dotenv_assignments(content),
                k,
            ) is Some,
{
    let a = dotenv_assignments(content);
    lemma_apply_at(Map::empty(), a, key);
    assert forall|k: Seq<char>| #[trigger]
        load_env(Map::empty(), content).contains_key(k) <==> last_value(a, k) is Some by {
        lemma_apply_at(Map::empty(), a, k);
    }
}

/// A set of environment variables.
pub struct Environment {
    vars: Vec<Assignment>,
}

impl View for Environment {
    type V = Map<Seq<char>, Seq<char>>;

    closed spec fn view(&self) -> Map<Seq<char>, Seq<char>> {
        apply_assignments(Map::empty(), assignment_views(self.vars@))
    }
}

impl Environment {
    /// The variables are held once each.
    pub closed spec fn wf(&self) -> bool {
        keys_unique(assignment_views(self.vars@))
    }

    /// An environment without variables.
    pub fn new() -> (r: Environment)
        ensures
            r.wf(),
            r@ == Map::<Seq<char>, Seq<char>>::empty(),
    {
        let r = Environment { vars: Vec::new() };
        assert(assignment_views(r.vars@) =~= Seq::empty());
        r
    }

    /// The number of variables.
    pub fn len(&self) -> (r: usize)
        requires
            self.wf(),
        ensures
            r == self@.len(),
    {
        proof {
            self.lemma_len();
        }
        self.vars.len()
    }

    proof fn lemma_len(&self)
        requires
            self.wf(),
        ensures
            self@.len() == self.vars@.len(),
    {
        lemma_unique_len(assignment_views(self.vars@));
    }

    /// Where `key` stands among the held variables, if it does.
    fn position(&self, key: &String) -> (r: Option<usize>)
        requires
            self.wf(),
        ensures
            match r {
                Some(i) => i < self.vars@.len() && self.vars@[i as int].key@ == key@,
                None => forall|i: int| 0 <= i < self.vars@.len() ==> self.vars@[i].key@ != key@,
            },
    {
        let mut i: usize = 0;
        while i < self.vars.len()
            invariant
                i <= self.vars@.len(),
                forall|j: int| 0 <= j < i ==> self.vars@[j].key@ != key@,
            decreases self.vars@.len() - i,
        {
            if self.vars[i].key == *key {
                return Some(i);
            }
            i = i + 1;
        }
        None
    }

    /// The value of `key`, if it is set.
    pub fn get(&self, key: &String) -> (r: Option<String>)
        requires
            self.wf(),
        ensures
            match r {
                Some(v) => self@.contains_pair(key@, v@),
                None => !self@.contains_key(key@),
            },
    {
        let ghost s = assignment_views(self.vars@);
        proof {
            lemma_last_value_unique(s, key@);
            lemma_apply_at(Map::empty(), s, key@);
        }
        match self.position(key) {
            Some(i) => {
                assert(s[i as int] == self.vars@[i as int]@);
                Some(self.vars[i].value.clone())
            },
            None => {
                assert forall|i: int| 0 <= i < s.len() implies s[i].0 != key@ by {
                    assert(s[i] == self.vars@[i]@);
                }
                None
            },
        }
    }

    /// Sets `key` to `value`, replacing any earlier value.
    pub fn set(&mut self, key: String, value: String)
        requires
            old(self).wf(),
        ensures
            final(self).wf(),
            final(self)@ == old(self)@.insert(key@, value@),
    {
        let ghost s = assignment_views(self.vars@);
        let ghost k = key@;
        let ghost v = value@;
        match self.position(&key) {
            Some(i) => {
                self.vars.set(i, Assignment { key, value });
                let ghost t = assignment_views(self.vars@);
                assert(t =~= s.update(i as int, (k, v)));
                proof {
                assert(s[i as int] == old(self).vars@[i as int]@);
                assert(t[i as int] == (k, v));
                assert(keys_unique(t)) by {
                    assert forall|a: int, b: int| 0 <= a < b < t.len() implies t[a].0 != t[b].0 by {
                        assert(s[i as int] == old(self).vars@[i as int]@);
                    }
                }
                assert forall|k2: Seq<char>| last_value(t, k2) == last_value(s.push((k, v)), k2) by {
                    lemma_last_value_unique(s, k2);
                    lemma_last_value_unique(t, k2);
                    assert(s.push((k, v)).drop_last() =~= s);
                    if k2 != k {
                        if exists|j: int| 0 <= j < s.len() && s[j].0 == k2 {
                            let j = choose|j: int| 0 <= j < s.len() && s[j].0 == k2;
                            assert(t[j] == s[j]);
                        } else {
                            assert forall|j: int| 0 <= j < t.len() implies t[j].0 != k2 by {
                                if j != i {
                                    assert(t[j] == s[j]);
                                }
                            }
                        }
                    }
                }
                lemma_apply_same_last(Map::empty(), t, s.push((k, v)));
                assert(s.push((k, v)).drop_last() =~= s);
                }
            },
            None => {
                self.vars.push(Assignment { key, value });
                let ghost t = assignment_views(self.vars@);
                assert(t =~= s.push((k, v)));
                assert(t.drop_last() =~= s);
                assert(keys_unique(t)) by {
                    assert forall|a: int, b: int| 0 <= a < b < t.len() implies t[a].0 != t[b].0 by {
                        if b == t.len() - 1 {
                            assert(t[a] == old(self).vars@[a]@);
                        }
                    }
                }
            },
        }
    }

    /// Removes every variable.
    pub fn clear(&mut self)
        ensures
            final(self).wf(),
            final(self)@ == Map::<Seq<char>, Seq<char>>::empty(),
    {
        self.vars = Vec::new();
        assert(assignment_views(self.vars@) =~= Seq::empty());
    }

    /// Applies the assignments `a` in order: the last one to a key wins.
    pub fn apply(&mut self, a: &Vec<Assignment>)
        requires
            old(self).wf(),
        ensures
            final(self).wf(),
            final(self)@ == apply_assignments(old(self)@, assignment_views(a@)),
    {
        let ghost start = self@;
        let mut i: usize = 0;
        while i < a.len()
            invariant
                i <= a@.len(),
                self.wf(),
                self@ == apply_assignments(start, assignment_views(a@).take(i as int)),
            decreases a@.len() - i,
        {
            assert(assignment_views(a@).take(i + 1).drop_last() =~= assignment_views(a@).take(
                i as int,
            ));
            self.set(a[i].key.clone(), a[i].value.clone());
            i = i + 1;
        }
        assert(assignment_views(a@).take(i as int) =~= assignment_views(a@));
    }

    /// An environment holding the assignments `a`: the last one to a key wins.
    pub fn from_assignments(a: &Vec<Assignment>) -> (r: Environment)
        ensures
            r.wf(),
            r@ == apply_assignments(Map::empty(), assignment_views(a@)),
    {
        let mut r = Environment::new();
        r.apply(a);
        r
    }

    /// Loads a dotenv text: its assignments are applied in the order of its
    /// lines. Returns the positions, counted from 0, of its malformed lines,
    /// which assign nothing.
    pub fn load(&mut self, content: &str) -> (r: Vec<usize>)
        requires
            old(self).wf(),
        ensures
            final(self).wf(),
            final(self)@ == load_env(old(self)@, content@),
            crate::dotenv::positions(r@) == crate::dotenv::dotenv_malformed(content@),
    {
        let parsed = parse_dotenv(content);
        self.apply(&parsed.assignments);
        parsed.malformed
    }

    /// The variables, each once.
    pub fn vars(&self) -> (r: Vec<Assignment>)
        requires
            self.wf(),
        ensures
            keys_unique(assignment_views(r@)),
            apply_assignments(Map::empty(), assignment_views(r@)) == self@,
    {
        let mut r: Vec<Assignment> = Vec::new();
        let mut i: usize = 0;
        while i < self.vars.len()
            invariant
                i <= self.vars@.len(),
                assignment_views(r@) == assignment_views(self.vars@).take(i as int),
            decreases self.vars@.len() - i,
        {
            let a = Assignment { key: self.vars[i].key.clone(), value: self.vars[i].value.clone() };
            assert(a@ == assignment_views(self.vars@)[i as int]);
            let ghost before = r@;
            r.push(a);
            assert(assignment_views(r@) =~= assignment_views(before).push(a@));
            assert(assignment_views(r@) =~= assignment_views(self.vars@).take(i + 1));
            i = i + 1;
        }
        assert(assignment_views(r@) =~= assignment_views(self.vars@));
        r
    }
}

} // verus!
