//! The session registry: the live containers of one connection, each under
//! its identifier.
//!
//! Identifiers are kept distinct; every operation preserves that and says
//! exactly which identifiers are present afterwards.

use vstd::prelude::*;

use crate::container::BoaContainer;

verus! {

/// The sessions of a connection.
#[derive(Debug)]
pub struct Registry {
    pub sessions: Vec<BoaContainer>,
}

impl Registry {
    /// Whether a session with identifier `id` is present.
    pub open spec fn has(self, id: Seq<char>) -> bool {
        exists|i: int|
            0 <= i < self.sessions@.len() && self.sessions@[i].container_id@ == id
    }

    /// All identifiers are distinct.
    pub open spec fn wf(self) -> bool {
        forall|i: int, j: int|
            0 <= i < j < self.sessions@.len() ==> self.sessions@[i].container_id@
                != self.sessions@[j].container_id@
    }

    /// An empty registry.
    pub fn new() -> (r: Registry)
        ensures
            r.wf(),
            r.sessions@.len() == 0,
            forall|id: Seq<char>| !r.has(id),
    {
        Registry { sessions: Vec::new() }
    }

    /// The position of the session with identifier `id`, if present.
    fn find(&self, id: &str) -> (r: Option<usize>)
        ensures
            match r {
                Some(i) => i < self.sessions@.len() && self.sessions@[i as int].container_id@
                    == id@,
                None => !self.has(id@),
            },
    {
        let mut i: usize = 0;
        let n = self.sessions.len();
        while i < n
            invariant
                n == self.sessions@.len(),
                i <= n,
                forall|k: int| 0 <= k < i ==> self.sessions@[k].container_id@ != id@,
            decreases n - i,
        {
            if slice_eq_str(self.sessions[i].container_id.as_str(), id) {
                return Some(i);
            }
            i = i + 1;
        }
        None
    }

    /// Whether a session with identifier `id` is present.
    pub fn contains(&self, id: &str) -> (r: bool)
        ensures
            r == self.has(id@),
    {
        self.find(id).is_some()
    }

    /// A copy of the session with identifier `id`, if present.
    pub fn get(&self, id: &str) -> (r: Option<BoaContainer>)
        ensures
            match r {
                Some(c) => self.has(id@) && c.container_id@ == id@ && (exists|i: int|
                    0 <= i < self.sessions@.len() && self.sessions@[i] == c),
                None => !self.has(id@),
            },
    {
        match self.find(id) {
            Some(i) => Some(self.sessions[i].clone()),
            None => None,
        }
    }

    /// Adds a session under a fresh identifier.  An identifier already
    /// present is refused and nothing changes.
    pub fn insert(&mut self, c: BoaContainer) -> (r: bool)
        requires
            old(self).wf(),
        ensures
            final(self).wf(),
            r == !old(self).has(c.container_id@),
            r ==> final(self).sessions@ == old(self).sessions@.push(c),
            !r ==> *final(self) == *old(self),
            forall|id: Seq<char>|
                final(self).has(id) == (old(self).has(id) || id == c.container_id@),
    {
        if self.find(c.container_id.as_str()).is_some() {
            proof {
                assert(self.has(c.container_id@));
            }
            return false;
        }
        self.sessions.push(c);
        proof {
            assert forall|id: Seq<char>|
                self.has(id) == (old(self).has(id) || id == c.container_id@) by {
                let n = old(self).sessions@.len() as int;
                if old(self).has(id) {
                    let i = choose|i: int|
                        0 <= i < n && old(self).sessions@[i].container_id@ == id;
                    assert(self.sessions@[i].container_id@ == id);
                }
                if id == c.container_id@ {
                    assert(self.sessions@[n].container_id@ == id);
                }
                if self.has(id) {
                    let i = choose|i: int|
                        0 <= i < self.sessions@.len() && self.sessions@[i].container_id@ == id;
                    if i < n {
                        assert(old(self).sessions@[i].container_id@ == id);
                    }
                }
            }
        }
        true
    }

    /// Takes the session with identifier `id` out, if present.
    pub fn remove(&mut self, id: &str) -> (r: Option<BoaContainer>)
        requires
            old(self).wf(),
        ensures
            final(self).wf(),
            match r {
                Some(c) => old(self).has(id@) && c.container_id@ == id@,
                None => !old(self).has(id@) && *final(self) == *old(self),
            },
            forall|x: Seq<char>| final(self).has(x) == (old(self).has(x) && x != id@),
    {
        match self.find(id) {
            Some(i) => {
                let c = self.sessions.remove(i);
                proof {
                    let n = old(self).sessions@.len() as int;
                    assert forall|x: Seq<char>|
                        self.has(x) == (old(self).has(x) && x != id@) by {
                        if self.has(x) {
                            let k = choose|k: int|
                                0 <= k < self.sessions@.len() && self.sessions@[k].container_id@
                                    == x;
                            if k < i {
                                assert(old(self).sessions@[k].container_id@ == x);
                            } else {
                                assert(old(self).sessions@[k + 1].container_id@ == x);
                            }
                        }
                        if old(self).has(x) && x != id@ {
                            let k = choose|k: int|
                                0 <= k < n && old(self).sessions@[k].container_id@ == x;
                            if k < i {
                                assert(self.sessions@[k].container_id@ == x);
                            } else {
                                assert(k != i);
                                assert(self.sessions@[k - 1].container_id@ == x);
                            }
                        }
                    }
                }
                Some(c)
            },
            None => None,
        }
    }

    /// Marks the session with identifier `id` as started.  Yields whether
    /// the session was present; the set of identifiers never changes.
    pub fn set_started(&mut self, id: &str) -> (r: bool)
        requires
            old(self).wf(),
        ensures
            final(self).wf(),
            r == old(self).has(id@),
            forall|x: Seq<char>| final(self).has(x) == old(self).has(x),
    {
        match self.find(id) {
            Some(i) => {
                let mut c = self.sessions.remove(i);
                c.started = true;
                let ghost mid = self.sessions@;
                self.sessions.push(c);
                proof {
                    let n = old(self).sessions@.len() as int;
                    assert forall|x: Seq<char>| self.has(x) == old(self).has(x) by {
                        if self.has(x) {
                            let k = choose|k: int|
                                0 <= k < self.sessions@.len() && self.sessions@[k].container_id@
                                    == x;
                            if k == mid.len() {
                                assert(old(self).sessions@[i as int].container_id@ == x);
                            } else if k < i {
                                assert(old(self).sessions@[k].container_id@ == x);
                            } else {
                                assert(old(self).sessions@[k + 1].container_id@ == x);
                            }
                        }
                        if old(self).has(x) {
                            let k = choose|k: int|
                                0 <= k < n && old(self).sessions@[k].container_id@ == x;
                            if k == i {
                                assert(self.sessions@[mid.len() as int].container_id@ == x);
                            } else if k < i {
                                assert(self.sessions@[k].container_id@ == x);
                            } else {
                                assert(self.sessions@[k - 1].container_id@ == x);
                            }
                        }
                    }
                    assert forall|a: int, b: int|
                        0 <= a < b < self.sessions@.len() implies self.sessions@[a].container_id@
                        != self.sessions@[b].container_id@ by {
                        if b == mid.len() {
                            if a < i {
                                assert(self.sessions@[a] == old(self).sessions@[a]);
                            } else {
                                assert(self.sessions@[a] == old(self).sessions@[a + 1]);
                            }
                            assert(self.sessions@[b].container_id@ == old(
                                self,
                            ).sessions@[i as int].container_id@);
                        } else {
                            if a < i {
                                assert(self.sessions@[a] == old(self).sessions@[a]);
                            } else {
                                assert(self.sessions@[a] == old(self).sessions@[a + 1]);
                            }
                            if b < i {
                                assert(self.sessions@[b] == old(self).sessions@[b]);
                            } else {
                                assert(self.sessions@[b] == old(self).sessions@[b + 1]);
                            }
                        }
                    }
                }
                true
            },
            None => false,
        }
    }

    /// Takes every session out, for teardown.
    pub fn drain(&mut self) -> (r: Vec<BoaContainer>)
        ensures
            r@ == old(self).sessions@,
            final(self).sessions@.len() == 0,
            final(self).wf(),
            forall|id: Seq<char>| !final(self).has(id),
    {
        let mut r: Vec<BoaContainer> = Vec::new();
        core::mem::swap(&mut r, &mut self.sessions);
        r
    }
}

/// Whether two string slices hold the same characters.
fn slice_eq_str(a: &str, b: &str) -> (r: bool)
    ensures
        r == (a@ == b@),
{
    let an = a.unicode_len();
    let bn = b.unicode_len();
    if an != bn {
        proof {
            assert(a@.len() != b@.len());
        }
        return false;
    }
    let mut i: usize = 0;
    while i < an
        invariant
            an == a@.len(),
            an == b@.len(),
            i <= an,
            forall|k: int| 0 <= k < i ==> a@[k] == b@[k],
        decreases an - i,
    {
        if a.get_char(i) != b.get_char(i) {
            return false;
        }
        i = i + 1;
    }
    proof {
        assert(a@ =~= b@);
    }
    true
}

} // verus!
