use vstd::prelude::*;

use crate::interest::Interest;
use crate::registration::RegError;
use crate::token::Token;

verus! {

/// One registration held by a reactor: a descriptor with the token and
/// interests the caller registered it under.
#[derive(Clone, Copy, PartialEq, Eq, Structural, Debug)]
pub struct FdEntry {
    pub fd: i32,
    pub token: Token,
    pub interests: Interest,
}

/// Model of the reactor's registration table: the per-descriptor bookkeeping
/// that `register`, `reregister` and `deregister` act on. Each reactor
/// instance has an identity, so that an adapter can record which reactor it
/// is registered with. A descriptor is tracked at most once.
pub struct Registry {
    id: u64,
    entries: Vec<FdEntry>,
}

impl Registry {
    /// The identity of this reactor instance.
    pub closed spec fn spec_id(self) -> u64 {
        self.id
    }

    /// The registration table, in registration order.
    pub closed spec fn table(self) -> Seq<FdEntry> {
        self.entries@
    }

    /// Whether the reactor currently tracks `fd`.
    pub open spec fn contains_fd(self, fd: i32) -> bool {
        exists|i: int| 0 <= i < self.table().len() && self.table()[i].fd == fd
    }

    /// The position of `fd` in the table (meaningful only when present and
    /// the table is well-formed, which makes it unique).
    pub open spec fn index_of(self, fd: i32) -> int {
        choose|i: int| 0 <= i < self.table().len() && self.table()[i].fd == fd
    }

    /// The registration record held for `fd`.
    pub open spec fn record_of(self, fd: i32) -> FdEntry {
        self.table()[self.index_of(fd)]
    }

    /// Well-formed: no descriptor is tracked twice.
    pub open spec fn wf(self) -> bool {
        forall|i: int, j: int|
            0 <= i < j < self.table().len() ==> self.table()[i].fd != self.table()[j].fd
    }

    /// In a well-formed table, the record held for the descriptor at
    /// position `i` is exactly the entry at position `i`.
    pub proof fn lemma_record_at(self, i: int)
        requires
            self.wf(),
            0 <= i < self.table().len(),
        ensures
            self.contains_fd(self.table()[i].fd),
            self.index_of(self.table()[i].fd) == i,
            self.record_of(self.table()[i].fd) == self.table()[i],
    {
        let fd = self.table()[i].fd;
        assert(0 <= i < self.table().len() && self.table()[i].fd == fd);
        let j = self.index_of(fd);
        if j != i {
            if j < i {
                assert(self.table()[j].fd != self.table()[i].fd);
            } else {
                assert(self.table()[i].fd != self.table()[j].fd);
            }
        }
    }

    /// The identity of this reactor instance, as a value.
    pub fn id_value(&self) -> (r: u64)
        ensures
            r == self.spec_id(),
    {
        self.id
    }

    /// How many registrations the table holds.
    pub fn table_len(&self) -> (r: usize)
        ensures
            r == self.table().len(),
    {
        self.entries.len()
    }

    /// The registration at position `i` of the table.
    pub fn entry_at(&self, i: usize) -> (r: FdEntry)
        requires
            i < self.table().len(),
        ensures
            r == self.table()[i as int],
    {
        self.entries[i]
    }

    /// A fresh reactor with identity `id` and an empty table.
    pub fn new(id: u64) -> (r: Registry)
        ensures
            r.wf(),
            r.spec_id() == id,
            r.table().len() == 0,
    {
        Registry { id, entries: Vec::new() }
    }

    /// Position of `fd` in the table, by linear scan.
    fn find_fd(&self, fd: i32) -> (r: Option<usize>)
        requires
            self.wf(),
        ensures
            match r {
                Some(i) => {
                    &&& self.contains_fd(fd)
                    &&& 0 <= i < self.table().len()
                    &&& self.table()[i as int].fd == fd
                    &&& self.index_of(fd) == i as int
                },
                None => !self.contains_fd(fd),
            },
    {
        let n = self.entries.len();
        let mut i: usize = 0;
        while i < n
            invariant
                n == self.table().len(),
                0 <= i <= n,
                self.wf(),
                forall|k: int| 0 <= k < i ==> self.table()[k].fd != fd,
            decreases n - i,
        {
            if self.entries[i].fd == fd {
                proof {
                    self.lemma_record_at(i as int);
                }
                return Some(i);
            }
            i = i + 1;
        }
        None
    }

    /// The reactor's low-level descriptor registration: adds `fd` under
    /// `token` and `interests`. Succeeds exactly when `fd` is not already
    /// tracked; fails without any change otherwise.
    pub fn register_fd(&mut self, fd: i32, token: Token, interests: Interest) -> (r: Result<
        (),
        RegError,
    >)
        requires
            old(self).wf(),
        ensures
            final(self).wf(),
            final(self).spec_id() == old(self).spec_id(),
            r is Ok <==> !old(self).contains_fd(fd),
            match r {
                Ok(()) => {
                    &&& final(self).table() == old(self).table().push(
                        FdEntry { fd, token, interests },
                    )
                    &&& final(self).contains_fd(fd)
                    &&& final(self).record_of(fd) == (FdEntry { fd, token, interests })
                    &&& forall|f: i32|
                        f != fd ==> final(self).contains_fd(f) == old(self).contains_fd(f)
                    &&& forall|f: i32|
                        f != fd && old(self).contains_fd(f) ==> final(self).record_of(f) == old(
                            self,
                        ).record_of(f)
                },
                Err(e) => {
                    &&& e == RegError::AlreadyRegistered
                    &&& *final(self) == *old(self)
                },
            },
    {
        match self.find_fd(fd) {
            Some(_) => Err(RegError::AlreadyRegistered),
            None => {
                let entry = FdEntry { fd, token, interests };
                self.entries.push(entry);
                proof {
                    let new_len = self.table().len() - 1;
                    assert(self.table()[new_len].fd == fd);
                    assert forall|a: int, b: int|
                        0 <= a < b < self.table().len() implies self.table()[a].fd
                        != self.table()[b].fd by {
                        assert(self.table()[a] == old(self).table()[a]);
                        if b < new_len {
                            assert(self.table()[b] == old(self).table()[b]);
                        } else {
                            assert(!(0 <= a < old(self).table().len() && old(self).table()[a].fd
                                == fd));
                        }
                    }
                    self.lemma_record_at(new_len);
                    assert forall|f: i32| f != fd implies self.contains_fd(f) == old(
                        self,
                    ).contains_fd(f) by {
                        if self.contains_fd(f) {
                            let i = choose|i: int|
                                0 <= i < self.table().len() && self.table()[i].fd == f;
                            assert(i < new_len);
                            assert(old(self).table()[i].fd == f);
                        }
                        if old(self).contains_fd(f) {
                            let i = choose|i: int|
                                0 <= i < old(self).table().len() && old(self).table()[i].fd == f;
                            assert(self.table()[i].fd == f);
                        }
                    }
                    assert forall|f: i32| f != fd && old(self).contains_fd(f) implies self
                        .record_of(f) == old(self).record_of(f) by {
                        let i = choose|i: int|
                            0 <= i < old(self).table().len() && old(self).table()[i].fd == f;
                        old(self).lemma_record_at(i);
                        self.lemma_record_at(i);
                    }
                }
                Ok(())
            },
        }
    }

    /// The reactor's low-level descriptor reregistration: replaces the token
    /// and interests held for `fd`. Succeeds exactly when `fd` is tracked;
    /// fails without any change otherwise.
    pub fn reregister_fd(&mut self, fd: i32, token: Token, interests: Interest) -> (r: Result<
        (),
        RegError,
    >)
        requires
            old(self).wf(),
        ensures
            final(self).wf(),
            final(self).spec_id() == old(self).spec_id(),
            r is Ok <==> old(self).contains_fd(fd),
            match r {
                Ok(()) => {
                    &&& final(self).table() == old(self).table().update(
                        old(self).index_of(fd),
                        FdEntry { fd, token, interests },
                    )
                    &&& final(self).contains_fd(fd)
                    &&& final(self).record_of(fd) == (FdEntry { fd, token, interests })
                    &&& forall|f: i32|
                        f != fd ==> final(self).contains_fd(f) == old(self).contains_fd(f)
                    &&& forall|f: i32|
                        f != fd && old(self).contains_fd(f) ==> final(self).record_of(f) == old(
                            self,
                        ).record_of(f)
                },
                Err(e) => {
                    &&& e == RegError::NotRegistered
                    &&& *final(self) == *old(self)
                },
            },
    {
        match self.find_fd(fd) {
            None => Err(RegError::NotRegistered),
            Some(i) => {
                self.entries[i] = FdEntry { fd, token, interests };
                proof {
                    let i = i as int;
                    assert(self.table()[i].fd == fd);
                    assert forall|a: int, b: int|
                        0 <= a < b < self.table().len() implies self.table()[a].fd
                        != self.table()[b].fd by {
                        assert(old(self).table()[a].fd != old(self).table()[b].fd);
                        if a != i {
                            assert(self.table()[a] == old(self).table()[a]);
                        }
                        if b != i {
                            assert(self.table()[b] == old(self).table()[b]);
                        }
                    }
                    self.lemma_record_at(i);
                    assert forall|f: i32| f != fd implies self.contains_fd(f) == old(
                        self,
                    ).contains_fd(f) by {
                        if self.contains_fd(f) {
                            let k = choose|k: int|
                                0 <= k < self.table().len() && self.table()[k].fd == f;
                            assert(old(self).table()[k].fd == f);
                        }
                        if old(self).contains_fd(f) {
                            let k = choose|k: int|
                                0 <= k < old(self).table().len() && old(self).table()[k].fd == f;
                            assert(k != i);
                            assert(self.table()[k].fd == f);
                        }
                    }
                    assert forall|f: i32| f != fd && old(self).contains_fd(f) implies self
                        .record_of(f) == old(self).record_of(f) by {
                        let k = choose|k: int|
                            0 <= k < old(self).table().len() && old(self).table()[k].fd == f;
                        assert(k != i);
                        old(self).lemma_record_at(k);
                        self.lemma_record_at(k);
                    }
                }
                Ok(())
            },
        }
    }

    /// The reactor's low-level descriptor deregistration: stops tracking
    /// `fd`, so no further events are produced for its token. Succeeds
    /// exactly when `fd` is tracked; fails without any change otherwise.
    pub fn deregister_fd(&mut self, fd: i32) -> (r: Result<(), RegError>)
        requires
            old(self).wf(),
        ensures
            final(self).wf(),
            final(self).spec_id() == old(self).spec_id(),
            r is Ok <==> old(self).contains_fd(fd),
            match r {
                Ok(()) => {
                    &&& final(self).table() == old(self).table().remove(old(self).index_of(fd))
                    &&& !final(self).contains_fd(fd)
                    &&& forall|f: i32|
                        f != fd ==> final(self).contains_fd(f) == old(self).contains_fd(f)
                    &&& forall|f: i32|
                        f != fd && old(self).contains_fd(f) ==> final(self).record_of(f) == old(
                            self,
                        ).record_of(f)
                },
                Err(e) => {
                    &&& e == RegError::NotRegistered
                    &&& *final(self) == *old(self)
                },
            },
    {
        match self.find_fd(fd) {
            None => Err(RegError::NotRegistered),
            Some(i) => {
                self.entries.remove(i);
                proof {
                    let i = i as int;
                    let pre = old(self).table();
                    assert(self.table() == pre.remove(i));
                    assert forall|a: int, b: int|
                        0 <= a < b < self.table().len() implies self.table()[a].fd
                        != self.table()[b].fd by {
                        let a0 = if a < i { a } else { a + 1 };
                        let b0 = if b < i { b } else { b + 1 };
                        assert(self.table()[a] == pre[a0]);
                        assert(self.table()[b] == pre[b0]);
                        assert(pre[a0].fd != pre[b0].fd);
                    }
                    assert forall|f: i32| self.contains_fd(f) implies f != fd && old(
                        self,
                    ).contains_fd(f) by {
                        let k = choose|k: int|
                            0 <= k < self.table().len() && self.table()[k].fd == f;
                        let k0 = if k < i { k } else { k + 1 };
                        assert(self.table()[k] == pre[k0]);
                        if pre[k0].fd == fd {
                            if k0 < i {
                                assert(pre[k0].fd != pre[i].fd);
                            } else {
                                assert(pre[i].fd != pre[k0].fd);
                            }
                        }
                    }
                    assert forall|f: i32| f != fd && old(self).contains_fd(f) implies self
                        .contains_fd(f) && self.record_of(f) == old(self).record_of(f) by {
                        let k = choose|k: int| 0 <= k < pre.len() && pre[k].fd == f;
                        assert(k != i);
                        let k1 = if k < i { k } else { k - 1 };
                        assert(self.table()[k1] == pre[k]);
                        self.lemma_record_at(k1);
                        old(self).lemma_record_at(k);
                    }
                }
                Ok(())
            },
        }
    }
}

} // verus!
