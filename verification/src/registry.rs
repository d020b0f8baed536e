//! The room registry: the set of names currently present, with the admission
//! and teardown rules.
//!
//! A name is admitted when it is non-empty, wholly alphanumeric, and not
//! already present; admission atomically snapshots the occupants and inserts
//! the name, so the welcome snapshot and the registry state never disagree.

use vstd::prelude::*;

verus! {

use crate::text::{alphanumeric, char_alphanumeric};
use vstd::string::StrSliceExecFns;

/// A candidate name is acceptable when it is non-empty and every character is
/// alphanumeric.
pub open spec fn valid_name(s: Seq<char>) -> bool {
    &&& s.len() > 0
    &&& forall|i: int| 0 <= i < s.len() ==> alphanumeric(s[i])
}

/// No name occurs twice.
pub open spec fn distinct(names: Seq<Seq<char>>) -> bool {
    forall|i: int, j: int| 0 <= i < j < names.len() ==> names[i] != names[j]
}

/// Checks the format rule for a candidate name.
pub fn check_name(name: &str) -> (r: bool)
    ensures
        r == valid_name(name@),
{
    let n = name.unicode_len();
    if n == 0 {
        return false;
    }
    let mut i: usize = 0;
    while i < n
        invariant
            n == name@.len(),
            i <= n,
            forall|j: int| 0 <= j < i ==> alphanumeric(name@[j]),
        decreases n - i,
    {
        let c = name.get_char(i);
        if !char_alphanumeric(c) {
            return false;
        }
        i += 1;
    }
    true
}

/// The outcome of an admission attempt.  On acceptance it carries the
/// occupants present at join time, excluding the newcomer.
pub enum JoinOutcome {
    Invalid,
    Taken,
    Accepted { occupants: Vec<String> },
}

/// The set of names currently present, in admission order.
pub struct Registry {
    names: Vec<String>,
}

impl View for Registry {
    type V = Seq<Seq<char>>;

    closed spec fn view(&self) -> Seq<Seq<char>> {
        self.names.deep_view()
    }
}

fn clone_names(names: &Vec<String>) -> (r: Vec<String>)
    ensures
        r@ == names@,
{
    let mut r: Vec<String> = Vec::new();
    let mut i: usize = 0;
    while i < names.len()
        invariant
            i <= names@.len(),
            r@ == names@.take(i as int),
        decreases names@.len() - i,
    {
        r.push(names[i].clone());
        proof {
            assert(names@.take(i as int).push(names@[i as int]) =~= names@.take(i + 1));
        }
        i += 1;
    }
    proof {
        assert(names@.take(names@.len() as int) =~= names@);
    }
    r
}

impl Registry {
    /// Every name present occurs exactly once.
    pub open spec fn wf(&self) -> bool {
        distinct(self@)
    }

    pub fn new() -> (r: Registry)
        ensures
            r@ == Seq::<Seq<char>>::empty(),
            r.wf(),
    {
        Registry { names: Vec::new() }
    }

    fn contains_name(&self, name: &String) -> (r: bool)
        ensures
            r == self@.contains(name@),
    {
        let mut i: usize = 0;
        while i < self.names.len()
            invariant
                i <= self.names@.len(),
                self@.len() == self.names@.len(),
                forall|j: int| 0 <= j < i ==> self@[j] != name@,
        decreases self.names@.len() - i,
        {
            if self.names[i] == *name {
                assert(self@[i as int] == name@);
                return true;
            }
            assert(self@[i as int] == self.names@[i as int]@);
            i += 1;
        }
        false
    }

    /// Admission under the validation order of the protocol: the format rule
    /// first, then uniqueness; on acceptance the occupant snapshot is taken
    /// and the name inserted in one step, with no interleaving in between.
    pub fn try_join(&mut self, name: &String) -> (r: JoinOutcome)
        requires
            old(self).wf(),
        ensures
            final(self).wf(),
            match r {
                JoinOutcome::Invalid => {
                    &&& !valid_name(name@)
                    &&& final(self)@ == old(self)@
                },
                JoinOutcome::Taken => {
                    &&& valid_name(name@)
                    &&& old(self)@.contains(name@)
                    &&& final(self)@ == old(self)@
                },
                JoinOutcome::Accepted { occupants } => {
                    &&& valid_name(name@)
                    &&& !old(self)@.contains(name@)
                    &&& occupants.deep_view() == old(self)@
                    &&& final(self)@ == old(self)@.push(name@)
                },
            },
    {
        if !check_name(name.as_str()) {
            return JoinOutcome::Invalid;
        }
        if self.contains_name(name) {
            return JoinOutcome::Taken;
        }
        let ghost before = self@;
        let occupants = clone_names(&self.names);
        self.names.push(name.clone());
        proof {
            assert(self@ =~= before.push(name@));
            assert(occupants.deep_view() =~= before);
            assert forall|i: int, j: int| 0 <= i < j < self@.len() implies self@[i]
                != self@[j] by {
                if j < self@.len() - 1 {
                    assert(before[i] != before[j]);
                } else {
                    assert(!before.contains(name@));
                    assert(before[i] == self@[i]);
                }
            }
        }
        JoinOutcome::Accepted { occupants }
    }

    /// Teardown: removes `name` if present and reports whether it was; a
    /// session that was never admitted removes nothing.
    pub fn leave(&mut self, name: &String) -> (removed: bool)
        requires
            old(self).wf(),
        ensures
            final(self).wf(),
            removed == old(self)@.contains(name@),
            !final(self)@.contains(name@),
            forall|m: Seq<char>| m != name@ ==> final(self)@.contains(m) == old(
                self,
            )@.contains(m),
            removed ==> exists|i: int|
                0 <= i < old(self)@.len() && old(self)@[i] == name@ && final(self)@ == old(
                    self,
                )@.remove(i),
            !removed ==> final(self)@ == old(self)@,
    {
        let mut i: usize = 0;
        while i < self.names.len()
            invariant
                i <= self.names@.len(),
                self@.len() == self.names@.len(),
                self@ == old(self)@,
                old(self).wf(),
                forall|j: int| 0 <= j < i ==> self@[j] != name@,
        decreases self.names@.len() - i,
        {
            if self.names[i] == *name {
                let ghost before = old(self)@;
                assert(before[i as int] == name@);
                assert(before.contains(name@));
                self.names.remove(i);
                proof {
                    assert(self@ =~= before.remove(i as int));
                    lemma_remove_unique(before, name@, i as int);
                }
                return true;
            }
            assert(self@[i as int] == self.names@[i as int]@);
            i += 1;
        }
        assert(!old(self)@.contains(name@));
        false
    }
}

/// Removing the sole occurrence of a name leaves every other name's presence
/// unchanged and the removed name absent.
proof fn lemma_remove_unique(names: Seq<Seq<char>>, name: Seq<char>, at: int)
    requires
        distinct(names),
        0 <= at < names.len(),
        names[at] == name,
    ensures
        distinct(names.remove(at)),
        !names.remove(at).contains(name),
        forall|m: Seq<char>| m != name ==> names.remove(at).contains(m) == names.contains(m),
        names.remove(at).len() == names.len() - 1,
{
    let rest = names.remove(at);
    assert forall|k: int| 0 <= k < rest.len() implies rest[k] != name by {
        if k < at {
            assert(rest[k] == names[k]);
        } else {
            assert(rest[k] == names[k + 1]);
        }
    }
    assert forall|i: int, j: int| 0 <= i < j < rest.len() implies rest[i] != rest[j] by {
        let i0 = if i < at { i } else { i + 1 };
        let j0 = if j < at { j } else { j + 1 };
        assert(rest[i] == names[i0]);
        assert(rest[j] == names[j0]);
    }
    assert forall|m: Seq<char>| m != name implies rest.contains(m) == names.contains(m) by {
        if names.contains(m) {
            let w = choose|w: int| 0 <= w < names.len() && names[w] == m;
            if w < at {
                assert(rest[w] == m);
            } else {
                assert(w != at);
                assert(rest[w - 1] == m);
            }
            assert(rest.contains(m));
        }
        if rest.contains(m) {
            let w = choose|w: int| 0 <= w < rest.len() && rest[w] == m;
            if w < at {
                assert(names[w] == m);
            } else {
                assert(names[w + 1] == m);
            }
            assert(names.contains(m));
        }
    }
}

} // verus!
