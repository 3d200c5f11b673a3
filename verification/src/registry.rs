//! The callback registry's verified half: the trigger strings, keyed by
//! exact, case-sensitive match, each owning a handler slot.  The handlers
//! themselves live with the surrounding application, which keeps them in a
//! table indexed by the slots this registry hands out.

use vstd::prelude::*;

use crate::chars::str_eq;
use crate::tokens::texts_view;

verus! {

/// Slot of the first registered trigger equal to `k`, if any.
pub open spec fn lookup_spec(ts: Seq<Seq<char>>, k: Seq<char>) -> Option<int>
    decreases ts.len(),
{
    if ts.len() == 0 {
        None
    } else if ts[0] == k {
        Some(0int)
    } else {
        match lookup_spec(ts.drop_first(), k) {
            Some(i) => Some(i + 1),
            None => None,
        }
    }
}

/// What [`lookup_spec`] returns: the first slot whose trigger equals the
/// key, or nothing when no trigger does.
pub proof fn lemma_lookup_spec_props(ts: Seq<Seq<char>>, k: Seq<char>)
    ensures
        match lookup_spec(ts, k) {
            Some(i) => 0 <= i < ts.len() && ts[i] == k && (forall|j: int|
                0 <= j < i ==> ts[j] != k),
            None => forall|j: int| 0 <= j < ts.len() ==> ts[j] != k,
        },
    decreases ts.len(),
{
    if ts.len() > 0 && ts[0] != k {
        lemma_lookup_spec_props(ts.drop_first(), k);
        assert(forall|j: int| 1 <= j < ts.len() ==> ts[j] == ts.drop_first()[j - 1]);
    }
}

/// The first slot whose trigger equals the key determines [`lookup_spec`].
pub proof fn lemma_lookup_spec_at(ts: Seq<Seq<char>>, k: Seq<char>, m: int)
    requires
        0 <= m < ts.len(),
        ts[m] == k,
        forall|j: int| 0 <= j < m ==> ts[j] != k,
    ensures
        lookup_spec(ts, k) == Some(m),
    decreases m,
{
    if m > 0 {
        assert(forall|j: int| 0 <= j < m - 1 ==> ts.drop_first()[j] == ts[j + 1]);
        lemma_lookup_spec_at(ts.drop_first(), k, m - 1);
    }
}

/// Dispatch is exact-string and case-sensitive: a key is found exactly when
/// some registered trigger equals it character for character, so a key that
/// differs from every trigger, even only in case, misses.
pub proof fn lemma_dispatch_exact(ts: Seq<Seq<char>>, k: Seq<char>)
    ensures
        (lookup_spec(ts, k) is Some) <==> (exists|i: int| 0 <= i < ts.len() && ts[i] == k),
{
    lemma_lookup_spec_props(ts, k);
    if lookup_spec(ts, k) is Some {
        let i = lookup_spec(ts, k).unwrap();
        assert(0 <= i < ts.len() && ts[i] == k);
    }
}

/// The registered trigger strings, in registration order; each slot indexes
/// the application's handler table.
pub struct Registry {
    triggers: Vec<String>,
}

impl View for Registry {
    type V = Seq<Seq<char>>;

    closed spec fn view(&self) -> Seq<Seq<char>> {
        texts_view(self.triggers@)
    }
}

impl Registry {
    /// Triggers are unique keys: registering an existing trigger reuses its
    /// slot instead of adding one.
    #[verifier::type_invariant]
    spec fn wf(self) -> bool {
        forall|i: int, j: int| 0 <= i < j < self@.len() ==> self@[i] != self@[j]
    }

    /// An empty registry.
    pub fn new() -> (r: Registry)
        ensures
            r@ == Seq::<Seq<char>>::empty(),
    {
        let r = Registry { triggers: Vec::new() };
        proof {
            assert(r@ =~= Seq::<Seq<char>>::empty());
        }
        r
    }

    /// Registers a trigger and returns its handler slot: the slot already
    /// keyed by an equal trigger, where the caller's new handler replaces
    /// the old one, or a fresh slot at the end.
    pub fn register(&mut self, trigger: String) -> (slot: usize)
        ensures
            match lookup_spec(old(self)@, trigger@) {
                Some(i) => slot == i && final(self)@ == old(self)@,
                None => slot == old(self)@.len() && final(self)@ == old(self)@.push(trigger@),
            },
    {
        proof {
            use_type_invariant(&*self);
        }
        let existing = self.lookup(trigger.as_str());
        match existing {
            Some(i) => i,
            None => {
                proof {
                    lemma_lookup_spec_props(self@, trigger@);
                }
                let mut ts: Vec<String> = Vec::new();
                core::mem::swap(&mut ts, &mut self.triggers);
                let ghost prev = texts_view(ts@);
                let slot = ts.len();
                ts.push(trigger);
                proof {
                    assert(texts_view(ts@) =~= prev.push(trigger@));
                }
                self.triggers = ts;
                slot
            },
        }
    }

    /// Finds the handler slot of the trigger exactly equal to `key`, if one
    /// is registered.
    pub fn lookup(&self, key: &str) -> (r: Option<usize>)
        ensures
            match r {
                Some(i) => lookup_spec(self@, key@) == Some(i as int),
                None => lookup_spec(self@, key@) == None::<int>,
            },
    {
        let n = self.triggers.len();
        let mut i: usize = 0;
        while i < n
            invariant
                i <= n,
                n == self@.len(),
                self@ == texts_view(self.triggers@),
                forall|j: int| 0 <= j < i ==> self@[j] != key@,
            decreases n - i,
        {
            if str_eq(self.triggers[i].as_str(), key) {
                proof {
                    lemma_lookup_spec_at(self@, key@, i as int);
                }
                return Some(i);
            }
            i += 1;
        }
        proof {
            lemma_lookup_spec_props(self@, key@);
        }
        None
    }
}

} // verus!
