//! A not-yet-spawned child process: a program name, an ordered argument
//! list, and an environment overlay, together with the mathematical model
//! of the overlay as a sequence of key/value pairs with distinct keys kept
//! in insertion order.
use vstd::prelude::*;

verus! {

/// One entry of the environment overlay handed to the child process.
pub struct EnvVar {
    pub key: String,
    pub value: String,
}

/// A mutable process description: program, ordered arguments, environment
/// overlay. Built up incrementally and then handed to a process-spawn
/// primitive outside this library.
pub struct CommandDescription {
    pub program: String,
    pub args: Vec<String>,
    pub envs: Vec<EnvVar>,
}

/// The mathematical view of a sequence of strings.
pub open spec fn strings_view(v: Seq<String>) -> Seq<Seq<char>> {
    Seq::new(v.len(), |i: int| v[i]@)
}

/// Look a key up in an overlay: the value at its first occurrence.
pub open spec fn env_lookup(m: Seq<(Seq<char>, Seq<char>)>, k: Seq<char>) -> Option<Seq<char>>
    decreases m.len(),
{
    if m.len() == 0 {
        None
    } else if m[0].0 == k {
        Some(m[0].1)
    } else {
        env_lookup(m.drop_first(), k)
    }
}

/// Insert or update: replace the value at the first occurrence of `k`, or
/// append the pair when `k` is absent.
pub open spec fn env_set(
    m: Seq<(Seq<char>, Seq<char>)>,
    k: Seq<char>,
    v: Seq<char>,
) -> Seq<(Seq<char>, Seq<char>)>
    decreases m.len(),
{
    if m.len() == 0 {
        seq![(k, v)]
    } else if m[0].0 == k {
        seq![(k, v)] + m.drop_first()
    } else {
        seq![m[0]] + env_set(m.drop_first(), k, v)
    }
}

/// After `env_set(m, k, v)`, looking `k` up yields `v`.
pub proof fn lemma_lookup_set_same(m: Seq<(Seq<char>, Seq<char>)>, k: Seq<char>, v: Seq<char>)
    ensures
        env_lookup(env_set(m, k, v), k) == Some(v),
    decreases m.len(),
{
    if m.len() == 0 {
    } else if m[0].0 == k {
    } else {
        lemma_lookup_set_same(m.drop_first(), k, v);
        assert((seq![m[0]] + env_set(m.drop_first(), k, v)).drop_first() =~= env_set(
            m.drop_first(),
            k,
            v,
        ));
    }
}

/// `env_set(m, k, v)` leaves every other key's lookup unchanged.
pub proof fn lemma_lookup_set_other(
    m: Seq<(Seq<char>, Seq<char>)>,
    k: Seq<char>,
    v: Seq<char>,
    k2: Seq<char>,
)
    requires
        k2 != k,
    ensures
        env_lookup(env_set(m, k, v), k2) == env_lookup(m, k2),
    decreases m.len(),
{
    let s = env_set(m, k, v);
    if m.len() == 0 {
        assert(s == seq![(k, v)]);
        assert(s[0].0 == k);
        let rest = s.drop_first();
        assert(rest =~= Seq::<(Seq<char>, Seq<char>)>::empty());
        assert(env_lookup(rest, k2) is None);
        assert(env_lookup(s, k2) is None);
    } else if m[0].0 == k {
        assert(s == seq![(k, v)] + m.drop_first());
        assert(s[0].0 == k);
        let rest = s.drop_first();
        assert(rest =~= m.drop_first());
        assert(env_lookup(s, k2) == env_lookup(m.drop_first(), k2));
        assert(env_lookup(m, k2) == env_lookup(m.drop_first(), k2));
    } else {
        lemma_lookup_set_other(m.drop_first(), k, v, k2);
        assert(s == seq![m[0]] + env_set(m.drop_first(), k, v));
        assert(s.len() >= 1);
        assert(s[0] == m[0]);
        if m[0].0 == k2 {
            assert(env_lookup(s, k2) == Some(m[0].1));
            assert(env_lookup(m, k2) == Some(m[0].1));
        } else {
            let rest = s.drop_first();
            assert(rest =~= env_set(m.drop_first(), k, v));
            assert(env_lookup(s, k2) == env_lookup(env_set(m.drop_first(), k, v), k2));
            assert(env_lookup(m, k2) == env_lookup(m.drop_first(), k2));
        }
    }
}

/// When `k` first occurs at index `j`, `env_set` is a pointwise update.
proof fn lemma_env_set_is_update(
    m: Seq<(Seq<char>, Seq<char>)>,
    k: Seq<char>,
    v: Seq<char>,
    j: int,
)
    requires
        0 <= j < m.len(),
        m[j].0 == k,
        forall|idx: int| 0 <= idx < j ==> m[idx].0 != k,
    ensures
        env_set(m, k, v) == m.update(j, (k, v)),
    decreases m.len(),
{
    if j == 0 {
        assert(seq![(k, v)] + m.drop_first() =~= m.update(0, (k, v)));
    } else {
        assert(forall|idx: int| 0 <= idx < j - 1 ==> m.drop_first()[idx].0 != k);
        lemma_env_set_is_update(m.drop_first(), k, v, j - 1);
        assert(seq![m[0]] + m.drop_first().update(j - 1, (k, v)) =~= m.update(j, (k, v)));
    }
}

/// When `k` is absent, `env_set` appends the pair at the end.
proof fn lemma_env_set_is_push(m: Seq<(Seq<char>, Seq<char>)>, k: Seq<char>, v: Seq<char>)
    requires
        forall|idx: int| 0 <= idx < m.len() ==> m[idx].0 != k,
    ensures
        env_set(m, k, v) == m.push((k, v)),
    decreases m.len(),
{
    if m.len() == 0 {
        assert(seq![(k, v)] =~= m.push((k, v)));
    } else {
        assert(forall|idx: int| 0 <= idx < m.drop_first().len() ==> m.drop_first()[idx].0 != k);
        lemma_env_set_is_push(m.drop_first(), k, v);
        assert(seq![m[0]] + m.drop_first().push((k, v)) =~= m.push((k, v)));
    }
}

impl CommandDescription {
    /// The overlay as key/value pairs of character sequences.
    pub open spec fn env_pairs(&self) -> Seq<(Seq<char>, Seq<char>)> {
        Seq::new(self.envs@.len(), |i: int| (self.envs@[i].key@, self.envs@[i].value@))
    }

    /// The argument list as character sequences.
    pub open spec fn args_view(&self) -> Seq<Seq<char>> {
        strings_view(self.args@)
    }

    /// An empty description for `program`: no arguments, no overlay.
    pub fn new(program: String) -> (cmd: CommandDescription)
        ensures
            cmd.program@ == program@,
            cmd.args_view() == Seq::<Seq<char>>::empty(),
            cmd.env_pairs() == Seq::<(Seq<char>, Seq<char>)>::empty(),
    {
        let cmd = CommandDescription { program, args: Vec::new(), envs: Vec::new() };
        proof {
            assert(cmd.args_view() =~= Seq::<Seq<char>>::empty());
            assert(cmd.env_pairs() =~= Seq::<(Seq<char>, Seq<char>)>::empty());
        }
        cmd
    }

    /// Append one argument at the end of the argument list.
    pub fn push_arg(&mut self, arg: String)
        ensures
            final(self).program@ == old(self).program@,
            final(self).args_view() == old(self).args_view().push(arg@),
            final(self).env_pairs() == old(self).env_pairs(),
    {
        self.args.push(arg);
        proof {
            assert(self.args_view() =~= old(self).args_view().push(arg@));
            assert(self.env_pairs() =~= old(self).env_pairs());
        }
    }

    /// The index of the first overlay entry whose key is `key`, if any.
    fn find_env(&self, key: &String) -> (r: Option<usize>)
        ensures
            match r {
                Some(i) => i < self.envs@.len() && self.env_pairs()[i as int].0 == key@
                    && forall|j: int| 0 <= j < i ==> self.env_pairs()[j].0 != key@,
                None => forall|j: int|
                    0 <= j < self.envs@.len() ==> self.env_pairs()[j].0 != key@,
            },
    {
        let mut i: usize = 0;
        let n = self.envs.len();
        while i < n
            invariant
                n == self.envs@.len(),
                i <= n,
                forall|j: int| 0 <= j < i ==> self.env_pairs()[j].0 != key@,
            decreases n - i,
        {
            if self.envs[i].key == *key {
                return Some(i);
            }
            i = i + 1;
        }
        None
    }

    /// Set `key` to `value` in the overlay: update the first occurrence of
    /// `key`, or append the pair when the overlay has no such key.
    pub fn set_env(&mut self, key: String, value: String)
        ensures
            final(self).program@ == old(self).program@,
            final(self).args_view() == old(self).args_view(),
            final(self).env_pairs() == env_set(old(self).env_pairs(), key@, value@),
    {
        let ghost k = key@;
        let ghost v = value@;
        let found = self.find_env(&key);
        match found {
            Some(i) => {
                proof {
                    lemma_env_set_is_update(self.env_pairs(), k, v, i as int);
                }
                self.envs.set(i, EnvVar { key, value });
                proof {
                    assert(self.env_pairs() =~= old(self).env_pairs().update(i as int, (k, v)));
                    assert(self.args_view() =~= old(self).args_view());
                }
            },
            None => {
                proof {
                    lemma_env_set_is_push(self.env_pairs(), k, v);
                }
                self.envs.push(EnvVar { key, value });
                proof {
                    assert(self.env_pairs() =~= old(self).env_pairs().push((k, v)));
                    assert(self.args_view() =~= old(self).args_view());
                }
            },
        }
    }
}

} // verus!
