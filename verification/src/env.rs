//! The persistent symbol environment.
//!
//! A binding maps a name to a value handle together with its [`Levity`]:
//! `Unboxed` bindings are direct SSA values carrying their statically known
//! constant, `Boxed` bindings name an addressable cell. Binding copies the
//! environment, so a nested scope can never disturb its caller's bindings;
//! a `Boxed` handle still names shared storage, so cell aliasing survives
//! the copy.

use vstd::prelude::*;

verus! {

/// Tag distinguishing addressable (`Boxed`) from direct-value (`Unboxed`)
/// variable representation.
#[derive(Clone, Copy, Debug, PartialEq, Eq)]
pub enum Levity {
    /// The value lives in an addressable cell: every read is a load and
    /// every mutation a store.
    Boxed,
    /// The value is used directly as an SSA value and carries its
    /// statically known integer constant.
    Unboxed(i32),
}

/// One binding of the environment.
#[derive(Debug)]
pub struct EnvEntry {
    pub name: String,
    pub val: usize,
    pub lev: Levity,
}

/// Mathematical image of one binding.
pub struct EnvEntryV {
    pub name: Seq<char>,
    pub val: int,
    pub lev: Levity,
}

impl View for EnvEntry {
    type V = EnvEntryV;

    open spec fn view(&self) -> EnvEntryV {
        EnvEntryV { name: self.name@, val: self.val as int, lev: self.lev }
    }
}

/// Index of the first entry bound to `name`, if any, scanning from `i`.
pub open spec fn env_find_from(env: Seq<EnvEntryV>, name: Seq<char>, i: int) -> Option<int>
    decreases env.len() - i,
{
    if i < 0 || i >= env.len() {
        None
    } else if env[i].name == name {
        Some(i)
    } else {
        env_find_from(env, name, i + 1)
    }
}

/// Index of the first entry bound to `name`, if any.
pub open spec fn env_find(env: Seq<EnvEntryV>, name: Seq<char>) -> Option<int> {
    env_find_from(env, name, 0)
}

/// What `name` resolves to in an environment image.
pub open spec fn env_lookup(env: Seq<EnvEntryV>, name: Seq<char>) -> Option<(int, Levity)> {
    match env_find(env, name) {
        Some(i) => Some((env[i].val, env[i].lev)),
        None => None,
    }
}

/// Image of a persistent bind: the first entry of the name is replaced in
/// place, otherwise a new entry is appended.
pub open spec fn env_bind(
    env: Seq<EnvEntryV>,
    name: Seq<char>,
    val: int,
    lev: Levity,
) -> Seq<EnvEntryV> {
    match env_find(env, name) {
        Some(i) => env.update(i, EnvEntryV { name, val, lev }),
        None => env.push(EnvEntryV { name, val, lev }),
    }
}

/// The persistent mapping from names to value handles and their levity.
#[derive(Debug)]
pub struct Env {
    pub entries: Vec<EnvEntry>,
}

/// The image of a binding vector.
pub open spec fn entries_view(entries: Seq<EnvEntry>) -> Seq<EnvEntryV> {
    entries.map_values(|e: EnvEntry| e@)
}

impl View for Env {
    type V = Seq<EnvEntryV>;

    open spec fn view(&self) -> Seq<EnvEntryV> {
        entries_view(self.entries@)
    }
}

impl Env {
    /// The empty environment.
    pub fn new() -> (r: Env)
        ensures
            r@ == Seq::<EnvEntryV>::empty(),
    {
        let r = Env { entries: Vec::new() };
        proof {
            assert(r@ =~= Seq::<EnvEntryV>::empty());
        }
        r
    }

    /// Position of the first entry bound to `name`, if any.
    fn find(&self, name: &String) -> (r: Option<usize>)
        ensures
            match r {
                Some(i) => env_find(self@, name@) == Some(i as int) && i < self.entries.len(),
                None => env_find(self@, name@) is None,
            },
    {
        let n = self.entries.len();
        for i in 0..n
            invariant
                n == self.entries.len(),
                env_find(self@, name@) == env_find_from(self@, name@, i as int),
        {
            if self.entries[i].name == *name {
                assert(self@[i as int].name == name@);
                return Some(i);
            }
            assert(self@[i as int].name != name@);
        }
        None
    }

    /// Resolve `name` to its value handle and levity.
    pub fn lookup(&self, name: &String) -> (r: Option<(usize, Levity)>)
        ensures
            match r {
                Some((v, l)) => env_lookup(self@, name@) == Some((v as int, l)),
                None => env_lookup(self@, name@) is None,
            },
    {
        match self.find(name) {
            Some(i) => Some((self.entries[i].val, self.entries[i].lev)),
            None => None,
        }
    }

    /// An independent snapshot of this environment.
    pub fn duplicate(&self) -> (r: Env)
        ensures
            r@ == self@,
    {
        let mut entries: Vec<EnvEntry> = Vec::new();
        let n = self.entries.len();
        for i in 0..n
            invariant
                n == self.entries.len(),
                entries_view(entries@) =~= self@.take(i as int),
        {
            let e = &self.entries[i];
            let copied = EnvEntry { name: e.name.clone(), val: e.val, lev: e.lev };
            proof {
                assert(copied@ == self@[i as int]);
            }
            let ghost prev = entries@;
            entries.push(copied);
            proof {
                assert(entries@ == prev.push(copied));
                assert(entries_view(prev).len() == prev.len());
                assert(prev.len() == i as int);
                assert forall|k: int| 0 <= k < entries@.len() implies entries_view(entries@)[k]
                    == self@.take(i as int + 1)[k] by {
                    if k < i as int {
                        assert(entries_view(prev)[k] == self@.take(i as int)[k]);
                        assert(entries_view(prev)[k] == prev[k]@);
                    }
                    assert(entries_view(entries@)[k] == entries@[k]@);
                }
                assert(entries_view(entries@) =~= self@.take(i as int + 1));
            }
        }
        let r = Env { entries };
        proof {
            assert(r@ =~= self@);
        }
        r
    }

    /// The persistent update: a new environment in which `name` is bound to
    /// `(val, lev)`; this environment is unaffected.
    pub fn bind(&self, name: &String, val: usize, lev: Levity) -> (r: Env)
        ensures
            r@ == env_bind(self@, name@, val as int, lev),
    {
        let mut r = self.duplicate();
        match self.find(name) {
            Some(i) => {
                r.entries[i] = EnvEntry { name: name.clone(), val, lev };
                proof {
                    assert(r@ =~= env_bind(self@, name@, val as int, lev));
                }
            }
            None => {
                r.entries.push(EnvEntry { name: name.clone(), val, lev });
                proof {
                    assert(r@ =~= env_bind(self@, name@, val as int, lev));
                }
            }
        }
        r
    }
}

/// A found index lies in range, past the scan start, and names the name.
pub proof fn lemma_env_find_props(env: Seq<EnvEntryV>, name: Seq<char>, j: int)
    requires
        0 <= j,
    ensures
        match env_find_from(env, name, j) {
            Some(i) => j <= i < env.len() && env[i].name == name,
            None => true,
        },
    decreases env.len() - j,
{
    if j < env.len() && env[j].name != name {
        lemma_env_find_props(env, name, j + 1);
    }
}

/// How a bind changes what later lookups see: the bound name resolves to
/// the new handle, every other name resolves as before.
pub proof fn lemma_env_bind_lookup(
    env: Seq<EnvEntryV>,
    name: Seq<char>,
    val: int,
    lev: Levity,
    other: Seq<char>,
)
    ensures
        env_lookup(env_bind(env, name, val, lev), other) == if other == name {
            Some((val, lev))
        } else {
            env_lookup(env, other)
        },
{
    let env2 = env_bind(env, name, val, lev);
    lemma_env_find_props(env, name, 0);
    if other == name {
        match env_find(env, name) {
            Some(i) => {
                lemma_env_find_update_hit(env, name, val, lev, i, 0);
            }
            None => {
                lemma_env_find_push_miss(env, name, val, lev, 0);
            }
        }
    } else {
        match env_find(env, name) {
            Some(i) => {
                lemma_env_find_other_update(env, name, val, lev, i, other, 0);
                lemma_env_find_props(env, other, 0);
                lemma_env_find_props(env2, other, 0);
            }
            None => {
                lemma_env_find_other_push(env, name, val, lev, other, 0);
                lemma_env_find_props(env, other, 0);
                lemma_env_find_props(env2, other, 0);
            }
        }
    }
}

proof fn lemma_env_find_update_hit(
    env: Seq<EnvEntryV>,
    name: Seq<char>,
    val: int,
    lev: Levity,
    i: int,
    j: int,
)
    requires
        env_find_from(env, name, j) == Some(i),
        0 <= j <= i < env.len(),
    ensures
        env_find_from(env.update(i, EnvEntryV { name, val, lev }), name, j) == Some(i),
    decreases env.len() - j,
{
    let env2 = env.update(i, EnvEntryV { name, val, lev });
    if j == i {
        assert(env2[i].name == name);
    } else {
        lemma_env_find_update_hit(env, name, val, lev, i, j + 1);
    }
}

proof fn lemma_env_find_push_miss(
    env: Seq<EnvEntryV>,
    name: Seq<char>,
    val: int,
    lev: Levity,
    j: int,
)
    requires
        env_find_from(env, name, j) is None,
        0 <= j <= env.len(),
    ensures
        env_find_from(env.push(EnvEntryV { name, val, lev }), name, j) == Some(env.len() as int),
    decreases env.len() - j,
{
    if j == env.len() {
    } else {
        lemma_env_find_push_miss(env, name, val, lev, j + 1);
    }
}

proof fn lemma_env_find_other_update(
    env: Seq<EnvEntryV>,
    name: Seq<char>,
    val: int,
    lev: Levity,
    i: int,
    other: Seq<char>,
    j: int,
)
    requires
        0 <= i < env.len(),
        env[i].name == name,
        other != name,
        0 <= j <= env.len(),
    ensures
        env_find_from(env.update(i, EnvEntryV { name, val, lev }), other, j) == env_find_from(
            env,
            other,
            j,
        ),
    decreases env.len() - j,
{
    if j >= env.len() {
    } else {
        lemma_env_find_other_update(env, name, val, lev, i, other, j + 1);
    }
}

proof fn lemma_env_find_other_push(
    env: Seq<EnvEntryV>,
    name: Seq<char>,
    val: int,
    lev: Levity,
    other: Seq<char>,
    j: int,
)
    requires
        other != name,
        0 <= j <= env.len(),
    ensures
        env_find_from(env.push(EnvEntryV { name, val, lev }), other, j) == env_find_from(
            env,
            other,
            j,
        ),
    decreases env.len() - j,
{
    if j >= env.len() {
    } else {
        lemma_env_find_other_push(env, name, val, lev, other, j + 1);
    }
}

} // verus!

