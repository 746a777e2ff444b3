//! An owned view of the process environment.
//!
//! Resolution works on this view rather than on the process environment
//! itself: the caller collects the variables once, hands them in, and after
//! resolution mirrors any purges back onto the real environment. Lookups find
//! the first entry with a matching name.

use crate::strutil::str_eq;
use vstd::prelude::*;
use vstd::string::*;

verus! {

/// The value of the first entry of `s` named `name`, if any.
pub open spec fn lookup(s: Seq<(Seq<char>, Seq<char>)>, name: Seq<char>) -> Option<Seq<char>>
    decreases s.len(),
{
    if s.len() == 0 {
        None
    } else if s[0].0 == name {
        Some(s[0].1)
    } else {
        lookup(s.drop_first(), name)
    }
}

/// `s` with every entry named `name` removed.
pub open spec fn without(s: Seq<(Seq<char>, Seq<char>)>, name: Seq<char>) -> Seq<
    (Seq<char>, Seq<char>),
>
    decreases s.len(),
{
    if s.len() == 0 {
        s
    } else if s[0].0 == name {
        without(s.drop_first(), name)
    } else {
        seq![s[0]] + without(s.drop_first(), name)
    }
}

/// Removing `name` makes it absent.
pub proof fn lemma_without_removes(s: Seq<(Seq<char>, Seq<char>)>, name: Seq<char>)
    ensures
        lookup(without(s, name), name) is None,
    decreases s.len(),
{
    if s.len() > 0 {
        lemma_without_removes(s.drop_first(), name);
        if s[0].0 != name {
            assert((seq![s[0]] + without(s.drop_first(), name)).drop_first() =~= without(
                s.drop_first(),
                name,
            ));
        }
    }
}

/// Removing `name` leaves every other name as it was.
pub proof fn lemma_without_keeps_others(
    s: Seq<(Seq<char>, Seq<char>)>,
    name: Seq<char>,
    other: Seq<char>,
)
    requires
        other != name,
    ensures
        lookup(without(s, name), other) == lookup(s, other),
    decreases s.len(),
{
    if s.len() > 0 {
        lemma_without_keeps_others(s.drop_first(), name, other);
        if s[0].0 != name {
            assert((seq![s[0]] + without(s.drop_first(), name)).drop_first() =~= without(
                s.drop_first(),
                name,
            ));
        }
    }
}

/// An owned map of environment variables.
pub struct EnvMap {
    vars: Vec<(String, String)>,
}

impl View for EnvMap {
    type V = Seq<(Seq<char>, Seq<char>)>;

    closed spec fn view(&self) -> Seq<(Seq<char>, Seq<char>)> {
        self.vars@.map_values(|p: (String, String)| (p.0@, p.1@))
    }
}

impl EnvMap {
    /// Take ownership of the collected variables.
    pub fn new(vars: Vec<(String, String)>) -> (r: EnvMap)
        ensures
            r@.len() == vars@.len(),
            forall|i: int|
                0 <= i < vars@.len() ==> #[trigger] r@[i] == (vars@[i].0@, vars@[i].1@),
    {
        EnvMap { vars }
    }

    /// An empty environment.
    pub fn empty() -> (r: EnvMap)
        ensures
            r@ =~= Seq::<(Seq<char>, Seq<char>)>::empty(),
    {
        EnvMap { vars: Vec::new() }
    }

    /// The value of `name`, if it is set.
    pub fn get(&self, name: &str) -> (r: Option<&String>)
        ensures
            match r {
                Some(v) => lookup(self@, name@) == Some(v@),
                None => lookup(self@, name@) is None,
            },
    {
        let n = self.vars.len();
        let mut i: usize = 0;
        proof {
            assert(self@.skip(0) =~= self@);
        }
        while i < n
            invariant
                n == self.vars.len(),
                i <= n,
                lookup(self@, name@) == lookup(self@.skip(i as int), name@),
            decreases n - i,
        {
            proof {
                assert(self@.skip(i as int)[0] == self@[i as int]);
            }
            if str_eq(self.vars[i].0.as_str(), name) {
                return Some(&self.vars[i].1);
            }
            proof {
                assert(self@.skip(i as int).drop_first() =~= self@.skip(i + 1));
            }
            i += 1;
        }
        proof {
            assert(self@.skip(n as int) =~= Seq::<(Seq<char>, Seq<char>)>::empty());
        }
        None
    }

    /// Purge: remove every entry named `name`. Afterwards a read of `name`
    /// observes absence; every other variable is untouched.
    pub fn remove(&mut self, name: &str)
        ensures
            lookup(final (self)@, name@) is None,
            forall|other: Seq<char>|
                other != name@ ==> #[trigger] lookup(final (self)@, other) == lookup(
                    old(self)@,
                    other,
                ),
            final (self)@ == without(old(self)@, name@),
    {
        let ghost orig = self@;
        let n = self.vars.len();
        let mut kept: Vec<(String, String)> = Vec::new();
        let mut i: usize = 0;
        proof {
            assert(orig.skip(0) =~= orig);
            assert(kept@.map_values(|p: (String, String)| (p.0@, p.1@)) =~= Seq::<
                (Seq<char>, Seq<char>),
            >::empty());
        }
        while i < n
            invariant
                n == self.vars.len(),
                orig == self@,
                i <= n,
                without(orig, name@) == kept@.map_values(|p: (String, String)| (p.0@, p.1@))
                    + without(orig.skip(i as int), name@),
            decreases n - i,
        {
            proof {
                assert(orig.skip(i as int)[0] == orig[i as int]);
                assert(orig.skip(i as int).drop_first() =~= orig.skip(i + 1));
            }
            let ghost kept_pre = kept@;
            if !str_eq(self.vars[i].0.as_str(), name) {
                let entry = (self.vars[i].0.clone(), self.vars[i].1.clone());
                kept.push(entry);
                proof {
                    assert(kept@.map_values(|p: (String, String)| (p.0@, p.1@)) =~= kept_pre
                        .map_values(|p: (String, String)| (p.0@, p.1@)).push(
                        (orig[i as int].0, orig[i as int].1),
                    ));
                    assert(kept_pre.map_values(|p: (String, String)| (p.0@, p.1@)) + (seq![
                        orig[i as int],
                    ] + without(orig.skip(i + 1), name@)) =~= kept@.map_values(
                        |p: (String, String)| (p.0@, p.1@),
                    ) + without(orig.skip(i + 1), name@));
                }
            }
            i += 1;
        }
        proof {
            assert(orig.skip(n as int) =~= Seq::<(Seq<char>, Seq<char>)>::empty());
        }
        self.vars = kept;
        proof {
            assert(self@ =~= without(orig, name@));
            lemma_without_removes(orig, name@);
            assert forall|other: Seq<char>| other != name@ implies #[trigger] lookup(
                self@,
                other,
            ) == lookup(orig, other) by {
                lemma_without_keeps_others(orig, name@, other);
            }
        }
    }
}

} // verus!
