//! Binding frames, chained from the innermost scope outward.

use vstd::prelude::*;
use crate::atom::{Atom, AtomView};
use crate::text::str_eq;

verus! {

/// The bindings of one frame.
pub type Frame = Map<Seq<char>, AtomView>;

/// A chain of frames, outermost first and innermost last.
pub type Scope = Seq<Frame>;

/// The value that `name` resolves to: that of the innermost frame that binds it.
pub open spec fn lookup(scope: Scope, name: Seq<char>) -> Option<AtomView>
    decreases scope.len(),
{
    if scope.len() == 0 {
        None
    } else if scope.last().contains_key(name) {
        Some(scope.last()[name])
    } else {
        lookup(scope.drop_last(), name)
    }
}

/// The chain after `name` is bound to `value` in the innermost frame.
pub open spec fn bind(scope: Scope, name: Seq<char>, value: AtomView) -> Scope {
    if scope.len() == 0 {
        scope
    } else {
        scope.update(scope.len() - 1, scope.last().insert(name, value))
    }
}

/// The chain with a fresh, empty innermost frame.
pub open spec fn child_of(scope: Scope) -> Scope {
    scope.push(Map::empty())
}

/// The frame built from the first `n` pairs; a later pair overwrites an earlier one.
pub open spec fn frame_of(pairs: Seq<(String, Atom)>, n: nat) -> Frame
    decreases n,
{
    if n == 0 {
        Map::empty()
    } else {
        frame_of(pairs, (n - 1) as nat).insert(pairs[n - 1].0@, pairs[n - 1].1@)
    }
}

proof fn lemma_frame_prefix(a: Seq<(String, Atom)>, b: Seq<(String, Atom)>, n: nat)
    requires
        n <= a.len(),
        n <= b.len(),
        forall|j: int| 0 <= j < n ==> a[j] == b[j],
    ensures
        frame_of(a, n) == frame_of(b, n),
    decreases n,
{
    if n > 0 {
        lemma_frame_prefix(a, b, (n - 1) as nat);
    }
}

proof fn lemma_frame_absent(pairs: Seq<(String, Atom)>, n: nat, key: Seq<char>)
    requires
        n <= pairs.len(),
        forall|j: int| 0 <= j < n ==> pairs[j].0@ != key,
    ensures
        !frame_of(pairs, n).contains_key(key),
    decreases n,
{
    if n > 0 {
        lemma_frame_absent(pairs, (n - 1) as nat, key);
    }
}

proof fn lemma_frame_latest(pairs: Seq<(String, Atom)>, n: nat, key: Seq<char>, i: int)
    requires
        0 <= i < n <= pairs.len(),
        pairs[i].0@ == key,
        forall|j: int| i < j < n ==> pairs[j].0@ != key,
    ensures
        frame_of(pairs, n).contains_key(key),
        frame_of(pairs, n)[key] == pairs[i].1@,
    decreases n,
{
    if i < n - 1 {
        lemma_frame_latest(pairs, (n - 1) as nat, key, i);
    }
}

proof fn lemma_frame_overwrite(pairs: Seq<(String, Atom)>, n: nat, i: int, pair: (String, Atom))
    requires
        0 <= i < n <= pairs.len(),
        pairs[i].0@ == pair.0@,
        forall|j: int| i < j < n ==> pairs[j].0@ != pair.0@,
    ensures
        frame_of(pairs.update(i, pair), n) == frame_of(pairs, n).insert(pair.0@, pair.1@),
    decreases n,
{
    let changed = pairs.update(i, pair);
    if i == n - 1 {
        lemma_frame_prefix(pairs, changed, i as nat);
        assert(frame_of(changed, n) =~= frame_of(pairs, n).insert(pair.0@, pair.1@));
    } else {
        lemma_frame_overwrite(pairs, (n - 1) as nat, i, pair);
        assert(changed[n - 1] == pairs[n - 1]);
        assert(frame_of(changed, n) =~= frame_of(pairs, n).insert(pair.0@, pair.1@));
    }
}

proof fn lemma_frame_of_views(a: Seq<(String, Atom)>, b: Seq<(String, Atom)>, n: nat)
    requires
        n <= a.len(),
        n <= b.len(),
        forall|j: int| 0 <= j < n ==> a[j].0@ == b[j].0@ && a[j].1@ == b[j].1@,
    ensures
        frame_of(a, n) == frame_of(b, n),
    decreases n,
{
    if n > 0 {
        lemma_frame_of_views(a, b, (n - 1) as nat);
    }
}

/// A frame of bindings with the chain of frames that enclose it.
#[derive(Debug)]
pub struct AList {
    bindings: Vec<(String, Atom)>,
    parent: Option<Box<AList>>,
}

/// The chain that an environment stands for.
pub closed spec fn scope_of(env: AList) -> Scope
    decreases env,
{
    match env.parent {
        None => seq![frame_of(env.bindings@, env.bindings@.len())],
        Some(p) => scope_of(*p).push(frame_of(env.bindings@, env.bindings@.len())),
    }
}

impl View for AList {
    type V = Scope;

    open spec fn view(&self) -> Scope {
        scope_of(*self)
    }
}

impl Clone for AList {
    /// A deep copy that stands for the same chain.
    #[verifier::loop_isolation(false)]
    fn clone(&self) -> (r: AList)
        ensures
            r@ == self@,
        decreases self,
    {
        let mut bindings: Vec<(String, Atom)> = Vec::new();
        let mut i: usize = 0;
        while i < self.bindings.len()
            invariant
                i <= self.bindings@.len(),
                bindings@.len() == i,
                forall|j: int|
                    0 <= j < i ==> bindings@[j].0@ == self.bindings@[j].0@ && bindings@[j].1@
                        == self.bindings@[j].1@,
            decreases self.bindings@.len() - i,
        {
            bindings.push((self.bindings[i].0.clone(), self.bindings[i].1.clone()));
            i += 1;
        }
        proof {
            lemma_frame_of_views(bindings@, self.bindings@, i as nat);
        }
        match &self.parent {
            Some(p) => {
                let outer = (**p).clone();
                AList { bindings, parent: Some(Box::new(outer)) }
            },
            None => AList { bindings, parent: None },
        }
    }
}

impl AList {
    /// Every environment has at least its own frame.
    pub proof fn lemma_has_frame(&self)
        ensures
            self@.len() >= 1,
    {
    }

    /// A root environment: one empty frame.
    pub fn new() -> (r: AList)
        ensures
            r@ == seq![Map::<Seq<char>, AtomView>::empty()],
    {
        AList { bindings: Vec::new(), parent: None }
    }

    /// A fresh empty frame enclosed by `parent`.
    pub fn new_with_parent(parent: AList) -> (r: AList)
        ensures
            r@ == child_of(parent@),
    {
        AList { bindings: Vec::new(), parent: Some(Box::new(parent)) }
    }

    /// Gives up the innermost frame and returns the environment that enclosed
    /// it, if there is one.
    pub fn into_parent(self) -> (r: Option<AList>)
        ensures
            match r {
                Some(p) => self@.len() >= 2 && p@ == self@.drop_last(),
                None => self@.len() == 1,
            },
    {
        match self.parent {
            Some(p) => {
                proof {
                    p.lemma_has_frame();
                    assert(self@.drop_last() =~= p@);
                }
                Some(*p)
            },
            None => None,
        }
    }

    /// Resolves `key` from this frame outward.
    pub fn get_binding(&self, key: &str) -> (r: Option<Atom>)
        ensures
            match r {
                Some(a) => lookup(self@, key@) == Some(a@),
                None => lookup(self@, key@) is None,
            },
        decreases self,
    {
        let n = self.bindings.len();
        let mut i: usize = n;
        while i > 0
            invariant
                i <= n,
                n == self.bindings@.len(),
                forall|j: int| i <= j < n ==> self.bindings@[j].0@ != key@,
            decreases i,
        {
            i -= 1;
            if str_eq(self.bindings[i].0.as_str(), key) {
                proof {
                    lemma_frame_latest(self.bindings@, n as nat, key@, i as int);
                }
                return Some(self.bindings[i].1.clone());
            }
        }
        proof {
            lemma_frame_absent(self.bindings@, n as nat, key@);
        }
        match &self.parent {
            Some(p) => {
                let r = p.get_binding(key);
                proof {
                    assert(self@.drop_last() =~= p@);
                    assert(self@.last() == frame_of(self.bindings@, n as nat));
                }
                r
            },
            None => {
                proof {
                    assert(self@.last() == frame_of(self.bindings@, n as nat));
                    assert(lookup(self@.drop_last(), key@) is None);
                }
                None
            },
        }
    }

    /// Binds `key` to `value` in this frame, replacing what it was bound to.
    #[verifier::loop_isolation(false)]
    pub fn set_binding(&mut self, key: String, value: Atom)
        ensures
            final(self)@ == bind(old(self)@, key@, value@),
    {
        let n = self.bindings.len();
        let mut i: usize = n;
        while i > 0
            invariant
                i <= n,
                n == self.bindings@.len(),
                *self == *old(self),
                forall|j: int| i <= j < n ==> self.bindings@[j].0@ != key@,
            decreases i,
        {
            i -= 1;
            if str_eq(self.bindings[i].0.as_str(), key.as_str()) {
                proof {
                    lemma_frame_overwrite(self.bindings@, n as nat, i as int, (key, value));
                }
                self.bindings.set(i, (key, value));
                assert(final(self)@ =~= bind(old(self)@, key@, value@));
                return ;
            }
        }
        proof {
            let after = self.bindings@.push((key, value));
            lemma_frame_prefix(self.bindings@, after, self.bindings@.len());
        }
        self.bindings.push((key, value));
        assert(final(self)@ =~= bind(old(self)@, key@, value@));
    }
}

} // verus!
