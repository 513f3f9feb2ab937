//! The registry of connected users: connection identity to display name, with
//! display names unique among the entries.

use vstd::prelude::*;
use vstd::string::*;

use crate::text::{trim_str, trimmed};

verus! {

/// The answer to a registration attempt.
#[derive(Clone, Copy, Debug, PartialEq, Eq, Structural)]
pub enum Registration {
    /// The name was free and is now held by the connection.
    Accepted,
    /// Another entry holds the name; nothing changed.
    NameTaken,
    /// The name is empty once trimmed; nothing changed.
    InvalidName,
}

/// Some entry of `m` holds the display name `n`.
pub open spec fn name_taken(m: Map<Seq<char>, Seq<char>>, n: Seq<char>) -> bool {
    exists|k: Seq<char>| m.contains_key(k) && m[k] == n
}

/// No two entries of `m` hold the same display name.
pub open spec fn names_unique(m: Map<Seq<char>, Seq<char>>) -> bool {
    forall|a: Seq<char>, b: Seq<char>|
        m.contains_key(a) && m.contains_key(b) && a != b ==> m[a] != m[b]
}

/// The answer to proposing `proposed` against the entries `m`.
pub open spec fn registration_result(m: Map<Seq<char>, Seq<char>>, proposed: Seq<char>) -> Registration {
    let n = trimmed(proposed);
    if n.len() == 0 {
        Registration::InvalidName
    } else if name_taken(m, n) {
        Registration::NameTaken
    } else {
        Registration::Accepted
    }
}

/// The entries after `identity` proposes `proposed` against `m`.
pub open spec fn registered(m: Map<Seq<char>, Seq<char>>, identity: Seq<char>, proposed: Seq<char>) -> Map<
    Seq<char>,
    Seq<char>,
> {
    if registration_result(m, proposed) == Registration::Accepted {
        m.insert(identity, trimmed(proposed))
    } else {
        m
    }
}

/// The answers to `ids`, in order, each proposing `proposed`, starting from
/// the entries `m`: one registration after another, as the lock serialises them.
pub open spec fn register_in_turn(m: Map<Seq<char>, Seq<char>>, ids: Seq<Seq<char>>, proposed: Seq<char>) -> Seq<
    Registration,
>
    decreases ids.len(),
{
    if ids.len() == 0 {
        Seq::empty()
    } else {
        seq![registration_result(m, proposed)] + register_in_turn(
            registered(m, ids[0], proposed),
            ids.drop_first(),
            proposed,
        )
    }
}

/// Once a name is held, every further attempt to claim it is refused as taken.
pub proof fn lemma_taken_name_stays_taken(m: Map<Seq<char>, Seq<char>>, ids: Seq<Seq<char>>, proposed: Seq<char>)
    requires
        trimmed(proposed).len() > 0,
        name_taken(m, trimmed(proposed)),
    ensures
        forall|i: int|
            0 <= i < ids.len() ==> #[trigger] register_in_turn(m, ids, proposed)[i]
                == Registration::NameTaken,
    decreases ids.len(),
{
    if ids.len() > 0 {
        assert(registered(m, ids[0], proposed) == m);
        lemma_taken_name_stays_taken(m, ids.drop_first(), proposed);
        lemma_results_length(m, ids.drop_first(), proposed);
        let rest = register_in_turn(m, ids.drop_first(), proposed);
        assert forall|i: int| 0 <= i < ids.len() implies #[trigger] register_in_turn(m, ids, proposed)[i]
            == Registration::NameTaken by {
            if i > 0 {
                assert(register_in_turn(m, ids, proposed)[i] == rest[i - 1]);
            }
        }
    }
}

/// Registrations of one valid, free name by any number of connections, in any
/// order, give exactly one `Accepted`, to the first, and `NameTaken` to all
/// the others.
pub proof fn lemma_exactly_one_accepted(m: Map<Seq<char>, Seq<char>>, ids: Seq<Seq<char>>, proposed: Seq<char>)
    requires
        ids.len() > 0,
        trimmed(proposed).len() > 0,
        !name_taken(m, trimmed(proposed)),
    ensures
        register_in_turn(m, ids, proposed).len() == ids.len(),
        register_in_turn(m, ids, proposed)[0] == Registration::Accepted,
        forall|i: int|
            0 < i < ids.len() ==> #[trigger] register_in_turn(m, ids, proposed)[i]
                == Registration::NameTaken,
{
    let m1 = registered(m, ids[0], proposed);
    assert(m1.contains_key(ids[0]) && m1[ids[0]] == trimmed(proposed));
    lemma_taken_name_stays_taken(m1, ids.drop_first(), proposed);
    lemma_results_length(m1, ids.drop_first(), proposed);
    let rest = register_in_turn(m1, ids.drop_first(), proposed);
    assert forall|i: int| 0 < i < ids.len() implies #[trigger] register_in_turn(m, ids, proposed)[i]
        == Registration::NameTaken by {
        assert(register_in_turn(m, ids, proposed)[i] == rest[i - 1]);
    }
}

/// One answer per registration.
proof fn lemma_results_length(m: Map<Seq<char>, Seq<char>>, ids: Seq<Seq<char>>, proposed: Seq<char>)
    ensures
        register_in_turn(m, ids, proposed).len() == ids.len(),
    decreases ids.len(),
{
    if ids.len() > 0 {
        lemma_results_length(registered(m, ids[0], proposed), ids.drop_first(), proposed);
    }
}

/// Connection identities mapped to display names.
pub struct Registry {
    ids: Vec<String>,
    names: Vec<String>,
    model: Ghost<Map<Seq<char>, Seq<char>>>,
}

impl View for Registry {
    type V = Map<Seq<char>, Seq<char>>;

    closed spec fn view(&self) -> Map<Seq<char>, Seq<char>> {
        self.model@
    }
}

impl Registry {
    /// The two vectors hold the entries of the model, one per identity.
    pub closed spec fn wf(&self) -> bool {
        &&& self.ids@.len() == self.names@.len()
        &&& forall|i: int, j: int|
            #![trigger self.ids@[i], self.ids@[j]]
            0 <= i < self.ids@.len() && 0 <= j < self.ids@.len() && i != j ==> self.ids@[i]@
                != self.ids@[j]@
        &&& forall|i: int|
            #![trigger self.ids@[i]]
            0 <= i < self.ids@.len() ==> self.model@.contains_key(self.ids@[i]@)
                && self.model@[self.ids@[i]@] == self.names@[i]@
        &&& forall|k: Seq<char>|
            self.model@.contains_key(k) ==> exists|i: int|
                #![trigger self.ids@[i]]
                0 <= i < self.ids@.len() && self.ids@[i]@ == k
        &&& names_unique(self.model@)
    }

    /// An empty registry.
    pub fn new() -> (r: Registry)
        ensures
            r.wf(),
            r@ == Map::<Seq<char>, Seq<char>>::empty(),
    {
        Registry { ids: Vec::new(), names: Vec::new(), model: Ghost(Map::empty()) }
    }

    /// Display names stay unique in every well-formed registry.
    pub proof fn lemma_names_unique(&self)
        requires
            self.wf(),
        ensures
            names_unique(self@),
    {
    }

    /// The index of `identity`'s entry, if it has one.
    fn find_identity(&self, identity: &String) -> (r: Option<usize>)
        requires
            self.wf(),
        ensures
            match r {
                Some(i) => i < self.ids@.len() && self.ids@[i as int]@ == identity@,
                None => !self@.contains_key(identity@),
            },
    {
        let mut i: usize = 0;
        while i < self.ids.len()
            invariant
                self.wf(),
                i <= self.ids@.len(),
                forall|j: int| 0 <= j < i ==> self.ids@[j]@ != identity@,
            decreases self.ids@.len() - i,
        {
            if self.ids[i] == *identity {
                return Some(i);
            }
            i = i + 1;
        }
        None
    }

    /// Whether some entry holds the display name `name`.
    pub fn is_name_taken(&self, name: &String) -> (r: bool)
        requires
            self.wf(),
        ensures
            r == name_taken(self@, name@),
    {
        let mut i: usize = 0;
        while i < self.names.len()
            invariant
                self.wf(),
                i <= self.names@.len(),
                forall|j: int| 0 <= j < i ==> self.names@[j]@ != name@,
            decreases self.names@.len() - i,
        {
            if self.names[i] == *name {
                proof {
                    assert(self@.contains_key(self.ids@[i as int]@));
                }
                return true;
            }
            i = i + 1;
        }
        proof {
            if name_taken(self@, name@) {
                let k = choose|k: Seq<char>| self@.contains_key(k) && self@[k] == name@;
                let j = choose|j: int| 0 <= j < self.ids@.len() && self.ids@[j]@ == k;
                assert(self.names@[j]@ == name@);
            }
        }
        false
    }

    /// Claims the trimmed `proposed` name for `identity`, checking and
    /// inserting in one step: an empty name is invalid, a name that another
    /// entry holds is taken, otherwise the entry is written.
    pub fn try_register(&mut self, identity: &str, proposed: &str) -> (r: Registration)
        requires
            old(self).wf(),
        ensures
            final(self).wf(),
            r == registration_result(old(self)@, proposed@),
            final(self)@ == registered(old(self)@, identity@, proposed@),
    {
        let name_str = trim_str(proposed);
        if name_str.unicode_len() == 0 {
            return Registration::InvalidName;
        }
        let name = String::from_str(name_str);
        if self.is_name_taken(&name) {
            return Registration::NameTaken;
        }
        let id = String::from_str(identity);
        let ghost m0 = self.model@;
        proof {
            assert forall|a: Seq<char>, b: Seq<char>|
                m0.insert(id@, name@).contains_key(a) && m0.insert(id@, name@).contains_key(b)
                    && a != b implies m0.insert(id@, name@)[a] != m0.insert(id@, name@)[b] by {
                if a == id@ {
                    assert(m0.contains_key(b) && m0[b] == m0.insert(id@, name@)[b]);
                } else if b == id@ {
                    assert(m0.contains_key(a) && m0[a] == m0.insert(id@, name@)[a]);
                }
            }
        }
        match self.find_identity(&id) {
            Some(i) => {
                self.names.set(i, name);
                self.model = Ghost(m0.insert(id@, name_str@));
                proof {
                    assert forall|k: Seq<char>| self.model@.contains_key(k) implies exists|j: int|
                        0 <= j < self.ids@.len() && self.ids@[j]@ == k by {
                        if k != id@ {
                            assert(m0.contains_key(k));
                        }
                    }
                }
            },
            None => {
                let ghost ids0 = self.ids@;
                let ghost names0 = self.names@;
                self.ids.push(id);
                self.names.push(name);
                self.model = Ghost(m0.insert(identity@, name_str@));
                proof {
                    let n = ids0.len() as int;
                    assert(self.ids@[n]@ == identity@);
                    assert forall|a: int| 0 <= a < n implies #[trigger] ids0[a]@ != identity@ by {
                        assert(m0.contains_key(ids0[a]@));
                    }
                    assert forall|a: int, b: int|
                        0 <= a < self.ids@.len() && 0 <= b < self.ids@.len() && a != b implies
                        self.ids@[a]@ != self.ids@[b]@ by {
                        if a < n && b < n {
                            assert(self.ids@[a] == ids0[a] && self.ids@[b] == ids0[b]);
                        } else if a < n {
                            assert(self.ids@[a] == ids0[a]);
                        } else {
                            assert(self.ids@[b] == ids0[b]);
                        }
                    }
                    assert forall|a: int| 0 <= a < self.ids@.len() implies
                        self.model@.contains_key(self.ids@[a]@) && self.model@[self.ids@[a]@]
                            == self.names@[a]@ by {
                        if a < n {
                            assert(self.ids@[a] == ids0[a] && self.names@[a] == names0[a]);
                        }
                    }
                    assert forall|k: Seq<char>| self.model@.contains_key(k) implies exists|j: int|
                        0 <= j < self.ids@.len() && self.ids@[j]@ == k by {
                        if k != identity@ {
                            assert(m0.contains_key(k));
                            let j = choose|j: int| 0 <= j < ids0.len() && ids0[j]@ == k;
                            assert(self.ids@[j] == ids0[j]);
                        }
                    }
                }
            },
        }
        Registration::Accepted
    }

    /// The display name of `identity`, if it is registered.
    pub fn lookup(&self, identity: &str) -> (r: Option<String>)
        requires
            self.wf(),
        ensures
            match r {
                Some(n) => self@.contains_key(identity@) && self@[identity@] == n@,
                None => !self@.contains_key(identity@),
            },
    {
        let id = String::from_str(identity);
        match self.find_identity(&id) {
            Some(i) => Some(self.names[i].clone()),
            None => None,
        }
    }

    /// A snapshot of every registered display name, each once.
    pub fn list_names(&self) -> (r: Vec<String>)
        requires
            self.wf(),
        ensures
            forall|n: Seq<char>|
                crate::dedupe::lines_view(r@).contains(n) <==> name_taken(self@, n),
            crate::dedupe::lines_view(r@).no_duplicates(),
    {
        let mut out: Vec<String> = Vec::new();
        let mut i: usize = 0;
        while i < self.names.len()
            invariant
                self.wf(),
                i <= self.names@.len(),
                out@.len() == i,
                forall|j: int| 0 <= j < i ==> out@[j]@ == self.names@[j]@,
            decreases self.names@.len() - i,
        {
            out.push(self.names[i].clone());
            i = i + 1;
        }
        proof {
            let v = crate::dedupe::lines_view(out@);
            assert forall|n: Seq<char>| v.contains(n) <==> name_taken(self@, n) by {
                if v.contains(n) {
                    let j = choose|j: int| 0 <= j < v.len() && v[j] == n;
                    assert(self@.contains_key(self.ids@[j]@));
                }
                if name_taken(self@, n) {
                    let k = choose|k: Seq<char>| self@.contains_key(k) && self@[k] == n;
                    let j = choose|j: int| 0 <= j < self.ids@.len() && self.ids@[j]@ == k;
                    assert(v[j] == n);
                }
            }
            assert forall|a: int, b: int| 0 <= a < v.len() && 0 <= b < v.len() && a != b implies v[a]
                != v[b] by {
                assert(v[a] == self.names@[a]@ && v[b] == self.names@[b]@);
                assert(self@.contains_key(self.ids@[a]@));
                assert(self@.contains_key(self.ids@[b]@));
            }
        }
        out
    }

    /// Drops `identity`'s entry; does nothing if it has none.
    pub fn remove(&mut self, identity: &str)
        requires
            old(self).wf(),
        ensures
            final(self).wf(),
            final(self)@ == old(self)@.remove(identity@),
    {
        let id = String::from_str(identity);
        let ghost m0 = self.model@;
        match self.find_identity(&id) {
            Some(i) => {
                let ghost ids0 = self.ids@;
                let ghost names0 = self.names@;
                self.ids.remove(i);
                self.names.remove(i);
                self.model = Ghost(m0.remove(identity@));
                proof {
                    assert forall|a: Seq<char>, b: Seq<char>|
                        self.model@.contains_key(a) && self.model@.contains_key(b) && a
                            != b implies self.model@[a] != self.model@[b] by {
                        assert(m0.contains_key(a) && m0.contains_key(b));
                    }
                    assert forall|a: int, b: int|
                        0 <= a < self.ids@.len() && 0 <= b < self.ids@.len() && a != b implies self.ids@[a]@
                        != self.ids@[b]@ by {
                        let a0 = if a < i { a } else { a + 1 };
                        let b0 = if b < i { b } else { b + 1 };
                        assert(self.ids@[a] == ids0[a0]);
                        assert(self.ids@[b] == ids0[b0]);
                    }
                    assert forall|a: int| 0 <= a < self.ids@.len() implies self.model@.contains_key(
                        self.ids@[a]@,
                    ) && self.model@[self.ids@[a]@] == self.names@[a]@ by {
                        let a0 = if a < i { a } else { a + 1 };
                        assert(self.ids@[a] == ids0[a0]);
                        assert(self.names@[a] == names0[a0]);
                        assert(ids0[a0]@ != ids0[i as int]@);
                    }
                    assert forall|k: Seq<char>| self.model@.contains_key(k) implies exists|j: int|
                        0 <= j < self.ids@.len() && self.ids@[j]@ == k by {
                        let j0 = choose|j: int| 0 <= j < ids0.len() && ids0[j]@ == k;
                        let j = if j0 < i { j0 } else { j0 - 1 };
                        assert(self.ids@[j] == ids0[j0]);
                    }
                }
            },
            None => {
                proof {
                    assert(m0.remove(identity@) == m0);
                }
            },
        }
    }
}

} // verus!
